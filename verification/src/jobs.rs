//! What a printer answers to a submission.
//!
//! A successful answer holds one job group for each job that the printer
//! made of the submission; there may be several. Each must name the job's
//! endpoint, its number, its state, the reasons for that state and a message.

use vstd::prelude::*;

use crate::attributes::{
    enum_attribute, integer_attribute, is_success, keyword_attribute, text_attribute, views,
    AttributeGroup, GroupTag, GroupView, IppResponse, ResponseView,
};
use crate::endpoint::{is_uri, is_valid_uri};
use crate::error::{ErrorView, PrinterError};

verus! {

/// The attribute that holds a job's endpoint.
pub const JOB_URI: &'static str = "job-uri";

/// The attribute that holds a job's number.
pub const JOB_ID: &'static str = "job-id";

/// The attribute that holds a job's state.
pub const JOB_STATE: &'static str = "job-state";

/// The attribute that holds the reasons for a job's state.
pub const JOB_STATE_REASONS: &'static str = "job-state-reasons";

/// The attribute that holds the message on a job's state.
pub const JOB_STATE_MESSAGE: &'static str = "job-state-message";

/// One job that a printer made of a submission.
#[derive(Debug, PartialEq, Eq)]
pub struct IppJobAccepted {
    /// The job's endpoint, a URI.
    pub job_uri: String,
    pub job_state_enum: i32,
    pub job_id: i32,
    pub job_state_reasons: String,
    pub job_state_message: String,
}

/// An [`IppJobAccepted`] with its text taken as sequences of characters.
pub struct JobView {
    pub job_uri: Seq<char>,
    pub job_state_enum: i32,
    pub job_id: i32,
    pub job_state_reasons: Seq<char>,
    pub job_state_message: Seq<char>,
}

impl View for IppJobAccepted {
    type V = JobView;

    open spec fn view(&self) -> JobView {
        JobView {
            job_uri: self.job_uri@,
            job_state_enum: self.job_state_enum,
            job_id: self.job_id,
            job_state_reasons: self.job_state_reasons@,
            job_state_message: self.job_state_message@,
        }
    }
}

/// The job that a group describes, or the name of the first attribute that
/// the group lacks or holds in another form than asked for. The endpoint must
/// be text, and `endpoint_is_uri` tells whether that text is a URI; the number
/// must be an integer, the state an enumerated value, the reasons a keyword,
/// the message text.
pub open spec fn job_of(group: GroupView, endpoint_is_uri: bool) -> Result<JobView, Seq<char>> {
    match text_attribute(group, JOB_URI@) {
        None => Err(JOB_URI@),
        Some(job_uri) => if !endpoint_is_uri {
            Err(JOB_URI@)
        } else {
            match integer_attribute(group, JOB_ID@) {
                None => Err(JOB_ID@),
                Some(job_id) => match enum_attribute(group, JOB_STATE@) {
                    None => Err(JOB_STATE@),
                    Some(job_state_enum) => match keyword_attribute(group, JOB_STATE_REASONS@) {
                        None => Err(JOB_STATE_REASONS@),
                        Some(job_state_reasons) => match text_attribute(
                            group,
                            JOB_STATE_MESSAGE@,
                        ) {
                            None => Err(JOB_STATE_MESSAGE@),
                            Some(job_state_message) => Ok(
                                JobView {
                                    job_uri,
                                    job_state_enum,
                                    job_id,
                                    job_state_reasons,
                                    job_state_message,
                                },
                            ),
                        },
                    },
                },
            }
        },
    }
}

/// Whether the endpoint that a group names is a URI.
pub open spec fn names_uri(group: GroupView) -> bool {
    match text_attribute(group, JOB_URI@) {
        Some(job_uri) => is_uri(job_uri),
        None => false,
    }
}

/// The jobs that the job groups among `groups` describe, in order, or the
/// attribute that the first incomplete job group lacks.
pub open spec fn jobs_of(groups: Seq<GroupView>) -> Result<Seq<JobView>, Seq<char>>
    decreases groups.len(),
{
    if groups.len() == 0 {
        Ok(Seq::empty())
    } else {
        match jobs_of(groups.drop_last()) {
            Err(name) => Err(name),
            Ok(before) => if groups.last().tag != GroupTag::Job {
                Ok(before)
            } else {
                match job_of(groups.last(), names_uri(groups.last())) {
                    Err(name) => Err(name),
                    Ok(job) => Ok(before.push(job)),
                }
            },
        }
    }
}

/// What the answer to a submission comes to: the jobs in the order of the
/// answer, or why there are none.
pub open spec fn accepted(response: ResponseView) -> Result<Seq<JobView>, ErrorView> {
    if !is_success(response.status_code) {
        Err(ErrorView::SubmissionRejected(response.status_code))
    } else {
        match jobs_of(response.groups) {
            Err(name) => Err(ErrorView::MissingAttribute(name)),
            Ok(jobs) => Ok(jobs),
        }
    }
}

/// The error for an attribute that a group lacks.
fn missing(name: &str) -> (e: PrinterError)
    ensures
        e@ == ErrorView::MissingAttribute(name@),
{
    PrinterError::MissingAttribute(name.to_owned())
}

/// Reads one job out of a job group, given whether the endpoint that the
/// group names is a URI. The attributes are asked for in the order endpoint,
/// number, state, reasons, message; the first one that is not there in its
/// form ends the reading.
pub fn job_from_checked_group(group: &AttributeGroup, endpoint_is_uri: bool) -> (outcome: Result<
    IppJobAccepted,
    PrinterError,
>)
    ensures
        match job_of(group@, endpoint_is_uri) {
            Ok(job) => outcome matches Ok(j) && j@ == job,
            Err(name) => outcome matches Err(e) && e@ == ErrorView::MissingAttribute(name),
        },
{
    let job_uri = match group.text(JOB_URI) {
        Some(text) => text,
        None => {
            return Err(missing(JOB_URI));
        },
    };
    if !endpoint_is_uri {
        return Err(missing(JOB_URI));
    }
    let job_id = match group.integer(JOB_ID) {
        Some(number) => number,
        None => {
            return Err(missing(JOB_ID));
        },
    };
    let job_state_enum = match group.enumerated(JOB_STATE) {
        Some(number) => number,
        None => {
            return Err(missing(JOB_STATE));
        },
    };
    let job_state_reasons = match group.keyword(JOB_STATE_REASONS) {
        Some(word) => word,
        None => {
            return Err(missing(JOB_STATE_REASONS));
        },
    };
    let job_state_message = match group.text(JOB_STATE_MESSAGE) {
        Some(text) => text,
        None => {
            return Err(missing(JOB_STATE_MESSAGE));
        },
    };
    Ok(IppJobAccepted { job_uri, job_state_enum, job_id, job_state_reasons, job_state_message })
}

/// Reads one job out of a job group.
pub fn job_from_group(group: &AttributeGroup) -> (outcome: Result<IppJobAccepted, PrinterError>)
    ensures
        match job_of(group@, names_uri(group@)) {
            Ok(job) => outcome matches Ok(j) && j@ == job,
            Err(name) => outcome matches Err(e) && e@ == ErrorView::MissingAttribute(name),
        },
{
    let endpoint_is_uri = match group.text(JOB_URI) {
        Some(text) => is_valid_uri(text.as_str()),
        None => false,
    };
    job_from_checked_group(group, endpoint_is_uri)
}

/// A group list that fails at a shorter length fails in the same way at
/// its full length.
proof fn lemma_failure_stays(groups: Seq<GroupView>, upto: int)
    requires
        0 <= upto <= groups.len(),
        jobs_of(groups.take(upto)) is Err,
    ensures
        jobs_of(groups) == jobs_of(groups.take(upto)),
    decreases groups.len() - upto,
{
    if upto == groups.len() {
        assert(groups.take(upto) =~= groups);
    } else {
        assert(groups.take(upto + 1).drop_last() =~= groups.take(upto));
        lemma_failure_stays(groups, upto + 1);
    }
}

/// Reads the answer to a submission.
///
/// An answer with a failing status gives `SubmissionRejected` with the status
/// code. Otherwise every job group becomes one job, in the order of the
/// answer; the first job group that lacks a required attribute gives
/// `MissingAttribute` with that attribute's name.
pub fn accepted_jobs(response: &IppResponse) -> (outcome: Result<Vec<IppJobAccepted>, PrinterError>)
    ensures
        match accepted(response@) {
            Ok(jobs) => outcome matches Ok(list) && views(list@) == jobs,
            Err(e) => outcome matches Err(x) && x@ == e,
        },
{
    if !response.is_success() {
        return Err(PrinterError::SubmissionRejected(response.status_code));
    }
    let ghost groups = response@.groups;
    let mut jobs: Vec<IppJobAccepted> = Vec::new();
    let mut i: usize = 0;
    assert(groups.take(0) =~= Seq::<GroupView>::empty());
    assert(views(jobs@) =~= Seq::<JobView>::empty());
    while i < response.groups.len()
        invariant
            i <= response.groups.len(),
            groups == views(response.groups@),
            groups == response@.groups,
            is_success(response.status_code),
            jobs_of(groups.take(i as int)) == Ok::<Seq<JobView>, Seq<char>>(views(jobs@)),
        decreases response.groups.len() - i,
    {
        proof {
            assert(groups.take(i as int + 1).drop_last() =~= groups.take(i as int));
            assert(groups.take(i as int + 1).last() == response.groups@[i as int]@);
        }
        match response.groups[i].tag {
            GroupTag::Job => {
                match job_from_group(&response.groups[i]) {
                    Ok(job) => {
                        let ghost before = views(jobs@);
                        jobs.push(job);
                        assert(views(jobs@) =~= before.push(job@));
                    },
                    Err(e) => {
                        proof {
                            lemma_failure_stays(groups, i as int + 1);
                        }
                        return Err(e);
                    },
                }
            },
            _ => {},
        }
        i += 1;
    }
    assert(groups.take(response.groups.len() as int) =~= groups);
    Ok(jobs)
}

} // verus!
