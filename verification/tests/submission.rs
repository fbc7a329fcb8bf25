use k_print::attributes::{Attribute, AttributeGroup, AttributeValue, GroupTag, IppResponse};
use k_print::error::PrinterError;
use k_print::image::RasterImage;
use k_print::printer::{
    print_file, IppJobAccepted, PaperSize, PaperType, Printer, PrinterName, PrinterUri,
};
use k_print::submission::{
    build_request, plan, plan_for, prepare_request, Action, CollectionMember, Event, ImagePlan,
    PrintJob, PrintRequest, RequestAttribute, RequestValue, Stage, DEFAULT_DPI,
    DEFAULT_PRINT_QUALITY,
};

fn attribute(name: &str, value: AttributeValue) -> Attribute {
    Attribute { name: name.to_string(), value }
}

fn letter_printer_group(uri: &str) -> AttributeGroup {
    AttributeGroup {
        tag: GroupTag::Printer,
        attributes: vec![
            attribute("printer-name", AttributeValue::Text("letters".to_string())),
            attribute("printer-uri-supported", AttributeValue::Text(uri.to_string())),
            attribute(
                "media-supported",
                AttributeValue::List(vec![
                    "na_letter_8.5x11in".to_string(),
                    "custom_9x13".to_string(),
                ]),
            ),
            attribute("media-type-supported", AttributeValue::Keyword("stationery".to_string())),
        ],
    }
}

fn discovery(uri: &str) -> IppResponse {
    IppResponse { status_code: 0, groups: vec![letter_printer_group(uri)] }
}

fn letter_printer() -> Printer {
    Printer {
        name: PrinterName("letters".to_string()),
        printer_uri: PrinterUri("ipp://localhost:631/printers/letters".to_string()),
        paper_sizes: vec![PaperSize("na_letter_8.5x11in".to_string())],
        paper_types: vec![PaperType("stationery".to_string())],
    }
}

fn job_for(printer: &str, size: &str, kind: &str) -> PrintJob {
    PrintJob::new(
        "ipp://localhost:631".to_string(),
        PrinterName(printer.to_string()),
        PaperSize(size.to_string()),
        PaperType(kind.to_string()),
        "photo.png".to_string(),
    )
}

fn letter_job() -> PrintJob {
    job_for("letters", "na_letter_8.5x11in", "stationery")
}

fn letter_plan() -> ImagePlan {
    ImagePlan {
        printer_uri: "ipp://localhost:631/printers/letters".to_string(),
        width: 2550,
        height: 3300,
    }
}

fn small_image() -> RasterImage {
    RasterImage::new(3, 2, vec![200; 24]).unwrap()
}

fn acceptance() -> IppResponse {
    IppResponse {
        status_code: 0,
        groups: vec![AttributeGroup {
            tag: GroupTag::Job,
            attributes: vec![
                attribute("job-uri", AttributeValue::Text("ipp://localhost:631/jobs/7".to_string())),
                attribute("job-id", AttributeValue::Integer(7)),
                attribute("job-state", AttributeValue::Enum(3)),
                attribute("job-state-reasons", AttributeValue::Keyword("none".to_string())),
                attribute("job-state-message", AttributeValue::Text("queued".to_string())),
            ],
        }],
    }
}

fn job_attributes(size: &str, kind: &str, quality: i32) -> Vec<RequestAttribute> {
    vec![
        RequestAttribute {
            name: "media".to_string(),
            value: RequestValue::Keyword(size.to_string()),
        },
        RequestAttribute {
            name: "media-col".to_string(),
            value: RequestValue::Collection(vec![CollectionMember {
                name: "media-type".to_string(),
                keyword: kind.to_string(),
            }]),
        },
        RequestAttribute { name: "print-quality".to_string(), value: RequestValue::Enum(quality) },
    ]
}

fn failed(next: (Stage, Action)) -> PrinterError {
    match next {
        (Stage::Finished, Action::Fail(e)) => e,
        other => panic!("the submission went on: {:?}", other),
    }
}

#[test]
fn a_job_starts_at_300_dpi_and_high_quality() {
    let job = letter_job();
    assert_eq!(job.dpi, 300);
    assert_eq!(job.print_quality, 5);
    assert_eq!((DEFAULT_DPI, DEFAULT_PRINT_QUALITY), (300, 5));
    assert_eq!(job.host, "ipp://localhost:631");
    assert_eq!(job.file, "photo.png");
}

#[test]
fn a_supported_request_passes_validation() {
    let planned = plan_for(&letter_job(), &letter_printer(), true);
    assert_eq!(planned, Ok(letter_plan()));
}

#[test]
fn an_unsupported_size_is_named() {
    let job = job_for("letters", "iso_a4", "stationery");
    assert_eq!(
        plan_for(&job, &letter_printer(), true),
        Err(PrinterError::MediaSizeUnsupported("iso_a4".to_string()))
    );
}

#[test]
fn an_unsupported_size_comes_before_an_unsupported_type() {
    let job = job_for("letters", "iso_a4", "glossy");
    assert_eq!(
        plan_for(&job, &letter_printer(), true),
        Err(PrinterError::MediaSizeUnsupported("iso_a4".to_string()))
    );
    assert_eq!(
        plan_for(&job, &letter_printer(), false),
        Err(PrinterError::MediaSizeUnsupported("iso_a4".to_string()))
    );
}

#[test]
fn an_unsupported_type_is_named() {
    let job = job_for("letters", "na_letter_8.5x11in", "glossy");
    assert_eq!(
        plan_for(&job, &letter_printer(), true),
        Err(PrinterError::MediaTypeUnsupported("glossy".to_string()))
    );
}

#[test]
fn validation_comes_before_the_endpoint_and_the_geometry() {
    let mut printer = letter_printer();
    printer.paper_sizes.push(PaperSize("custom_9x13".to_string()));
    let unknown = job_for("letters", "custom_9x13", "stationery");
    assert_eq!(
        plan_for(&unknown, &printer, true),
        Err(PrinterError::CannotInferGeometry("custom_9x13".to_string()))
    );
    assert_eq!(
        plan_for(&unknown, &printer, false),
        Err(PrinterError::InvalidEndpoint("ipp://localhost:631/printers/letters".to_string()))
    );
    let unlisted = job_for("letters", "custom_1x1", "stationery");
    assert_eq!(
        plan_for(&unlisted, &printer, false),
        Err(PrinterError::MediaSizeUnsupported("custom_1x1".to_string()))
    );
}

#[test]
fn the_sheet_is_planned_at_the_jobs_resolution() {
    let mut job = letter_job();
    job.dpi = 72;
    let planned = plan_for(&job, &letter_printer(), true).unwrap();
    assert_eq!((planned.width, planned.height), (612, 792));
}

#[test]
fn planning_picks_the_printer_from_the_answer() {
    let answer = discovery("ipp://localhost:631/printers/letters");
    assert_eq!(plan(&letter_job(), &answer), Ok(letter_plan()));
    assert_eq!(
        plan(&job_for("other", "na_letter_8.5x11in", "stationery"), &answer),
        Err(PrinterError::PrinterNotFound("other".to_string()))
    );
    assert_eq!(
        plan(&job_for("letters", "iso_a4", "stationery"), &answer),
        Err(PrinterError::MediaSizeUnsupported("iso_a4".to_string()))
    );
    assert_eq!(
        plan(&job_for("letters", "custom_9x13", "stationery"), &answer),
        Err(PrinterError::CannotInferGeometry("custom_9x13".to_string()))
    );
    let mut failing = discovery("ipp://localhost:631/printers/letters");
    failing.status_code = 0x0500;
    assert_eq!(plan(&letter_job(), &failing), Err(PrinterError::NoPrinters));
}

#[test]
fn a_printer_with_a_broken_endpoint_is_refused() {
    let answer = discovery("not a uri");
    assert_eq!(
        plan(&letter_job(), &answer),
        Err(PrinterError::InvalidEndpoint("not a uri".to_string()))
    );
}

#[test]
fn the_request_carries_the_chosen_media() {
    let mut job = letter_job();
    job.print_quality = 4;
    let request = build_request(&job, &letter_plan(), vec![1, 2, 3]);
    assert_eq!(
        request,
        PrintRequest {
            printer_uri: "ipp://localhost:631/printers/letters".to_string(),
            attributes: job_attributes("na_letter_8.5x11in", "stationery", 4),
            document: vec![1, 2, 3],
        }
    );
}

#[test]
fn the_request_holds_the_encoded_raster() {
    let plan = ImagePlan { printer_uri: "ipp://h/p".to_string(), width: 4, height: 6 };
    let request = prepare_request(&letter_job(), &plan, &small_image()).unwrap();
    assert_eq!(request.printer_uri, "ipp://h/p");
    assert_eq!(request.attributes, job_attributes("na_letter_8.5x11in", "stationery", 5));
    assert_eq!(&request.document[..8], &[0x89, b'P', b'N', b'G', 0x0D, 0x0A, 0x1A, 0x0A]);
    // the header of the encoded raster names the planned size
    assert_eq!(&request.document[16..24], &[0, 0, 0, 4, 0, 0, 0, 6]);
}

#[test]
fn an_image_that_cannot_be_prepared_fails_the_load() {
    let plan = ImagePlan { printer_uri: "ipp://h/p".to_string(), width: 4, height: 6 };
    let empty = RasterImage::new(0, 0, Vec::new()).unwrap();
    assert_eq!(
        prepare_request(&letter_job(), &plan, &empty),
        Err(PrinterError::ImageLoadFailed("photo.png".to_string()))
    );
    let flat = ImagePlan { printer_uri: "ipp://h/p".to_string(), width: 4, height: 0 };
    assert_eq!(
        prepare_request(&letter_job(), &flat, &small_image()),
        Err(PrinterError::EncodingFailed)
    );
}

#[test]
fn a_submission_runs_from_discovery_to_acceptance() {
    let mut job = letter_job();
    job.dpi = 2;
    let (stage, action) = print_file(&job, Stage::Start, Event::Started);
    assert_eq!(stage, Stage::Discovering);
    match action {
        Action::Discover(host) => assert_eq!(host, "ipp://localhost:631"),
        other => panic!("{:?}", other),
    }
    let answer = discovery("ipp://localhost:631/printers/letters");
    let (stage, action) = print_file(&job, stage, Event::Answered(answer));
    assert_eq!(
        stage,
        Stage::Loading(ImagePlan {
            printer_uri: "ipp://localhost:631/printers/letters".to_string(),
            width: 17,
            height: 22,
        })
    );
    match action {
        Action::LoadImage(path) => assert_eq!(path, "photo.png"),
        other => panic!("{:?}", other),
    }
    let (stage, action) = print_file(&job, stage, Event::ImageLoaded(small_image()));
    assert_eq!(stage, Stage::Submitting);
    match action {
        Action::Submit(request) => {
            assert_eq!(request.printer_uri, "ipp://localhost:631/printers/letters");
            assert_eq!(
                request.attributes,
                job_attributes("na_letter_8.5x11in", "stationery", 5)
            );
            assert_eq!(&request.document[16..24], &[0, 0, 0, 17, 0, 0, 0, 22]);
        },
        other => panic!("{:?}", other),
    }
    let (stage, action) = print_file(&job, stage, Event::Answered(acceptance()));
    assert_eq!(stage, Stage::Finished);
    match action {
        Action::Complete(jobs) => assert_eq!(
            jobs,
            vec![IppJobAccepted {
                job_uri: "ipp://localhost:631/jobs/7".to_string(),
                job_state_enum: 3,
                job_id: 7,
                job_state_reasons: "none".to_string(),
                job_state_message: "queued".to_string(),
            }]
        ),
        other => panic!("{:?}", other),
    }
}

#[test]
fn a_failed_discovery_ends_the_submission() {
    let job = letter_job();
    assert_eq!(
        failed(print_file(&job, Stage::Discovering, Event::TransportFailed("refused".to_string()))),
        PrinterError::TransportError("refused".to_string())
    );
    let mut failing = discovery("ipp://localhost:631/printers/letters");
    failing.status_code = 0x0400;
    assert_eq!(
        failed(print_file(&job, Stage::Discovering, Event::Answered(failing))),
        PrinterError::NoPrinters
    );
    let unknown = job_for("nobody", "na_letter_8.5x11in", "stationery");
    assert_eq!(
        failed(print_file(
            &unknown,
            Stage::Discovering,
            Event::Answered(discovery("ipp://localhost:631/printers/letters"))
        )),
        PrinterError::PrinterNotFound("nobody".to_string())
    );
}

#[test]
fn unsupported_media_end_the_submission_before_any_image_work() {
    let both = job_for("letters", "iso_a4", "glossy");
    assert_eq!(
        failed(print_file(
            &both,
            Stage::Discovering,
            Event::Answered(discovery("ipp://localhost:631/printers/letters"))
        )),
        PrinterError::MediaSizeUnsupported("iso_a4".to_string())
    );
    let kind = job_for("letters", "na_letter_8.5x11in", "glossy");
    assert_eq!(
        failed(print_file(
            &kind,
            Stage::Discovering,
            Event::Answered(discovery("ipp://localhost:631/printers/letters"))
        )),
        PrinterError::MediaTypeUnsupported("glossy".to_string())
    );
    let geometry = job_for("letters", "custom_9x13", "stationery");
    assert_eq!(
        failed(print_file(
            &geometry,
            Stage::Discovering,
            Event::Answered(discovery("ipp://localhost:631/printers/letters"))
        )),
        PrinterError::CannotInferGeometry("custom_9x13".to_string())
    );
}

#[test]
fn an_image_that_cannot_be_loaded_ends_the_submission() {
    let job = letter_job();
    assert_eq!(
        failed(print_file(&job, Stage::Loading(letter_plan()), Event::ImageUnreadable)),
        PrinterError::ImageLoadFailed("photo.png".to_string())
    );
    assert_eq!(
        failed(print_file(&job, Stage::Loading(letter_plan()), Event::ImageUnsupported)),
        PrinterError::ImageFormatUnsupported("photo.png".to_string())
    );
    let empty = RasterImage::new(0, 3, Vec::new()).unwrap();
    assert_eq!(
        failed(print_file(&job, Stage::Loading(letter_plan()), Event::ImageLoaded(empty))),
        PrinterError::ImageLoadFailed("photo.png".to_string())
    );
}

#[test]
fn a_rejected_submission_ends_with_the_status_code() {
    let job = letter_job();
    let mut rejected = acceptance();
    rejected.status_code = 0x040A;
    assert_eq!(
        failed(print_file(&job, Stage::Submitting, Event::Answered(rejected))),
        PrinterError::SubmissionRejected(0x040A)
    );
    assert_eq!(
        failed(print_file(&job, Stage::Submitting, Event::TransportFailed("reset".to_string()))),
        PrinterError::TransportError("reset".to_string())
    );
    let mut broken = acceptance();
    broken.groups[0].attributes.remove(1);
    assert_eq!(
        failed(print_file(&job, Stage::Submitting, Event::Answered(broken))),
        PrinterError::MissingAttribute("job-id".to_string())
    );
}

#[test]
fn a_report_out_of_turn_ends_the_submission() {
    let job = letter_job();
    assert_eq!(
        failed(print_file(&job, Stage::Start, Event::Answered(acceptance()))),
        PrinterError::UnexpectedEvent
    );
    assert_eq!(
        failed(print_file(&job, Stage::Discovering, Event::Started)),
        PrinterError::UnexpectedEvent
    );
    assert_eq!(
        failed(print_file(&job, Stage::Discovering, Event::ImageLoaded(small_image()))),
        PrinterError::UnexpectedEvent
    );
    assert_eq!(
        failed(print_file(&job, Stage::Loading(letter_plan()), Event::Answered(acceptance()))),
        PrinterError::UnexpectedEvent
    );
    assert_eq!(
        failed(print_file(&job, Stage::Submitting, Event::ImageUnreadable)),
        PrinterError::UnexpectedEvent
    );
    assert_eq!(
        failed(print_file(&job, Stage::Finished, Event::Started)),
        PrinterError::UnexpectedEvent
    );
}

#[test]
fn every_preparable_image_gets_its_request_for_a_sheet_with_pixels() {
    let job = letter_job();
    for (width, height) in [(1u32, 1u32), (4, 6), (6, 4), (17, 22)] {
        let plan = ImagePlan { printer_uri: "ipp://h/p".to_string(), width, height };
        let request = prepare_request(&job, &plan, &small_image()).unwrap();
        let mut header = vec![137u8, 80, 78, 71, 13, 10, 26, 10, 0, 0, 0, 13, 73, 72, 68, 82];
        header.extend_from_slice(&width.to_be_bytes());
        header.extend_from_slice(&height.to_be_bytes());
        header.extend_from_slice(&[8, 6, 0, 0, 0]);
        assert_eq!(&request.document[..29], &header[..]);
        assert_eq!(request.printer_uri, "ipp://h/p");
        assert_eq!(request.attributes, job_attributes("na_letter_8.5x11in", "stationery", 5));
    }
}

#[test]
fn a_sheet_without_width_or_height_cannot_be_encoded() {
    let job = letter_job();
    for (width, height) in [(0u32, 0u32), (0, 6), (4, 0)] {
        let plan = ImagePlan { printer_uri: "ipp://h/p".to_string(), width, height };
        assert_eq!(
            prepare_request(&job, &plan, &small_image()),
            Err(PrinterError::EncodingFailed)
        );
    }
    // an image that cannot be prepared is named first
    let plan = ImagePlan { printer_uri: "ipp://h/p".to_string(), width: 0, height: 0 };
    let empty = RasterImage::new(0, 0, Vec::new()).unwrap();
    assert_eq!(
        prepare_request(&job, &plan, &empty),
        Err(PrinterError::ImageLoadFailed("photo.png".to_string()))
    );
}

#[test]
fn a_job_at_no_resolution_ends_at_the_encoding() {
    let mut job = letter_job();
    job.dpi = 0;
    let answer = discovery("ipp://localhost:631/printers/letters");
    let (stage, _) = print_file(&job, Stage::Discovering, Event::Answered(answer));
    assert_eq!(
        stage,
        Stage::Loading(ImagePlan {
            printer_uri: "ipp://localhost:631/printers/letters".to_string(),
            width: 0,
            height: 0,
        })
    );
    assert_eq!(
        failed(print_file(&job, stage, Event::ImageLoaded(small_image()))),
        PrinterError::EncodingFailed
    );
}

#[test]
fn every_sheet_of_the_table_has_pixels_at_one_dot_per_inch() {
    for id in ["a4", "a-4", "b5", "a6", "na_letter", "4x6in", "3.5x5in"] {
        let mut job = job_for("letters", id, "stationery");
        job.dpi = 1;
        let mut printer = letter_printer();
        printer.paper_sizes.push(PaperSize(id.to_string()));
        let planned = plan_for(&job, &printer, true).unwrap();
        assert!(planned.width > 0 && planned.height > 0, "{}", id);
    }
}
