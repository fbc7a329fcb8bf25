use k_print::attributes::{Attribute, AttributeGroup, AttributeValue, GroupTag, IppResponse};
use k_print::endpoint::is_valid_uri;
use k_print::error::PrinterError;
use k_print::jobs::{accepted_jobs, job_from_checked_group, job_from_group};
use k_print::printer::IppJobAccepted;

fn job_group(uri: &str, id: i32, state: i32, reasons: &str, message: &str) -> AttributeGroup {
    AttributeGroup {
        tag: GroupTag::Job,
        attributes: vec![
            Attribute { name: "job-uri".to_string(), value: AttributeValue::Text(uri.to_string()) },
            Attribute { name: "job-id".to_string(), value: AttributeValue::Integer(id) },
            Attribute { name: "job-state".to_string(), value: AttributeValue::Enum(state) },
            Attribute {
                name: "job-state-reasons".to_string(),
                value: AttributeValue::Keyword(reasons.to_string()),
            },
            Attribute {
                name: "job-state-message".to_string(),
                value: AttributeValue::Text(message.to_string()),
            },
        ],
    }
}

fn job(uri: &str, id: i32, state: i32, reasons: &str, message: &str) -> IppJobAccepted {
    IppJobAccepted {
        job_uri: uri.to_string(),
        job_state_enum: state,
        job_id: id,
        job_state_reasons: reasons.to_string(),
        job_state_message: message.to_string(),
    }
}

fn misc_group(tag: GroupTag) -> AttributeGroup {
    AttributeGroup {
        tag,
        attributes: vec![Attribute {
            name: "job-id".to_string(),
            value: AttributeValue::Integer(99),
        }],
    }
}

#[test]
fn every_job_group_becomes_a_job_in_order() {
    let response = IppResponse {
        status_code: 0,
        groups: vec![
            misc_group(GroupTag::Operation),
            job_group("ipp://localhost:631/jobs/12", 12, 3, "none", ""),
            misc_group(GroupTag::Unsupported),
            job_group("ipp://localhost:631/jobs/13", 13, 5, "job-printing", "printing page 1"),
        ],
    };
    assert_eq!(
        accepted_jobs(&response),
        Ok(vec![
            job("ipp://localhost:631/jobs/12", 12, 3, "none", ""),
            job("ipp://localhost:631/jobs/13", 13, 5, "job-printing", "printing page 1"),
        ])
    );
}

#[test]
fn an_answer_without_job_groups_has_no_jobs() {
    let response = IppResponse { status_code: 1, groups: vec![misc_group(GroupTag::Operation)] };
    assert_eq!(accepted_jobs(&response), Ok(Vec::new()));
}

#[test]
fn a_failing_status_rejects_the_submission() {
    for status_code in [3u16, 0x0400, 0x040A, 0x0506, 0xffff] {
        let response = IppResponse {
            status_code,
            groups: vec![job_group("ipp://localhost:631/jobs/12", 12, 3, "none", "")],
        };
        assert_eq!(accepted_jobs(&response), Err(PrinterError::SubmissionRejected(status_code)));
    }
}

#[test]
fn each_required_job_attribute_is_asked_for() {
    let names = ["job-uri", "job-id", "job-state", "job-state-reasons", "job-state-message"];
    for (at, name) in names.iter().enumerate() {
        let mut group = job_group("ipp://localhost:631/jobs/12", 12, 3, "none", "");
        group.attributes.remove(at);
        assert_eq!(
            job_from_group(&group),
            Err(PrinterError::MissingAttribute(name.to_string()))
        );
        let response = IppResponse {
            status_code: 0,
            groups: vec![job_group("ipp://localhost:631/jobs/11", 11, 3, "none", ""), group],
        };
        assert_eq!(
            accepted_jobs(&response),
            Err(PrinterError::MissingAttribute(name.to_string()))
        );
    }
}

#[test]
fn job_attributes_of_the_wrong_kind_count_as_missing() {
    let mut group = job_group("ipp://localhost:631/jobs/12", 12, 3, "none", "");
    group.attributes[1].value = AttributeValue::Enum(12);
    assert_eq!(job_from_group(&group), Err(PrinterError::MissingAttribute("job-id".to_string())));
    let mut group = job_group("ipp://localhost:631/jobs/12", 12, 3, "none", "");
    group.attributes[2].value = AttributeValue::Integer(3);
    assert_eq!(job_from_group(&group), Err(PrinterError::MissingAttribute("job-state".to_string())));
    let mut group = job_group("ipp://localhost:631/jobs/12", 12, 3, "none", "");
    group.attributes[3].value = AttributeValue::Text("none".to_string());
    assert_eq!(
        job_from_group(&group),
        Err(PrinterError::MissingAttribute("job-state-reasons".to_string()))
    );
    let mut group = job_group("ipp://localhost:631/jobs/12", 12, 3, "none", "");
    group.attributes[3].value = AttributeValue::List(vec!["none".to_string()]);
    assert_eq!(
        job_from_group(&group),
        Err(PrinterError::MissingAttribute("job-state-reasons".to_string()))
    );
    let mut group = job_group("ipp://localhost:631/jobs/12", 12, 3, "none", "");
    group.attributes[4].value = AttributeValue::Integer(0);
    assert_eq!(
        job_from_group(&group),
        Err(PrinterError::MissingAttribute("job-state-message".to_string()))
    );
}

#[test]
fn the_first_incomplete_job_group_decides() {
    let mut no_state = job_group("ipp://localhost:631/jobs/12", 12, 3, "none", "");
    no_state.attributes.remove(2);
    let mut no_id = job_group("ipp://localhost:631/jobs/13", 13, 3, "none", "");
    no_id.attributes.remove(1);
    let response = IppResponse { status_code: 0, groups: vec![no_state, no_id] };
    assert_eq!(
        accepted_jobs(&response),
        Err(PrinterError::MissingAttribute("job-state".to_string()))
    );
}

#[test]
fn a_job_endpoint_must_be_a_uri() {
    let group = job_group("not a uri", 12, 3, "none", "");
    assert_eq!(job_from_group(&group), Err(PrinterError::MissingAttribute("job-uri".to_string())));
    let group = job_group("", 12, 3, "none", "");
    assert_eq!(job_from_group(&group), Err(PrinterError::MissingAttribute("job-uri".to_string())));
    let group = job_group("ipp://localhost:631/jobs/12", 12, 3, "none", "");
    assert_eq!(job_from_group(&group), Ok(job("ipp://localhost:631/jobs/12", 12, 3, "none", "")));
}

#[test]
fn the_callers_word_on_the_endpoint_is_taken() {
    let group = job_group("ipp://localhost:631/jobs/12", 12, 3, "none", "");
    assert_eq!(
        job_from_checked_group(&group, false),
        Err(PrinterError::MissingAttribute("job-uri".to_string()))
    );
    assert_eq!(
        job_from_checked_group(&group, true),
        Ok(job("ipp://localhost:631/jobs/12", 12, 3, "none", ""))
    );
    let odd = job_group("not a uri", 12, 3, "none", "");
    assert_eq!(job_from_checked_group(&odd, true), Ok(job("not a uri", 12, 3, "none", "")));
}

#[test]
fn uris_are_told_from_other_text() {
    assert!(is_valid_uri("ipp://localhost:631/printers/office"));
    assert!(is_valid_uri("http://example.com/"));
    assert!(is_valid_uri("/jobs/12"));
    assert!(!is_valid_uri(""));
    assert!(!is_valid_uri("not a uri"));
    assert!(!is_valid_uri("ipp://host/with space"));
}
