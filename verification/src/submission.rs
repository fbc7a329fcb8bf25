//! The course of one print submission.
//!
//! A submission runs in a straight line: ask the host for its printers, pick
//! the printer and hold the request against what it supports, work out the
//! sheet in pixels, have the image file loaded, prepare and encode the
//! raster, send the job to the printer's own endpoint, read the answer. The
//! first step that fails ends the submission; nothing is retried or resumed.
//!
//! The decisions are made here. Talking to the host and reading the file is
//! the caller's part: [`print_file`] says what to do next, the caller does it
//! and comes back with what happened.

use vstd::prelude::*;

use crate::attributes::{views, IppResponse, ResponseView};
use crate::directory::{discovered, get_printer};
use crate::endpoint::{is_uri, is_valid_uri};
use crate::error::{ErrorView, PrinterError};
use crate::image::{can_prepare, crop, encode, png_header, RasterImage, RasterView};
use crate::jobs::{accepted, accepted_jobs, IppJobAccepted, JobView};
use crate::paper::{
    borderless_markers, first_hit, lemma_first_hit_exists, lemma_pixels_are_cut_off, pixels,
    resolve, size_patterns, PaperSize,
};
use crate::printer::{media_check, PaperType, Printer, PrinterName, PrinterView};

verus! {

/// The resolution at which a sheet is turned into pixels unless the caller
/// says otherwise, in dots per inch.
pub const DEFAULT_DPI: u32 = 300;

/// The print quality that is asked for unless the caller says otherwise: high.
pub const DEFAULT_PRINT_QUALITY: i32 = 5;

/// What is to be printed, on which printer and medium, and how.
#[derive(Debug, PartialEq, Eq)]
pub struct PrintJob {
    /// The host that is asked for its printers.
    pub host: String,
    pub printer_name: PrinterName,
    pub paper_size: PaperSize,
    pub paper_type: PaperType,
    /// The path of the image file.
    pub file: String,
    /// Dots per inch of the raster that is sent.
    pub dpi: u32,
    /// The `print-quality` value that is sent.
    pub print_quality: i32,
}

/// A [`PrintJob`] with its text taken as sequences of characters.
pub struct PrintJobView {
    pub host: Seq<char>,
    pub printer_name: Seq<char>,
    pub paper_size: Seq<char>,
    pub paper_type: Seq<char>,
    pub file: Seq<char>,
    pub dpi: u32,
    pub print_quality: i32,
}

impl View for PrintJob {
    type V = PrintJobView;

    open spec fn view(&self) -> PrintJobView {
        PrintJobView {
            host: self.host@,
            printer_name: self.printer_name@,
            paper_size: self.paper_size@,
            paper_type: self.paper_type@,
            file: self.file@,
            dpi: self.dpi,
            print_quality: self.print_quality,
        }
    }
}

impl PrintJob {
    /// A job at the default resolution and print quality.
    pub fn new(
        host: String,
        printer_name: PrinterName,
        paper_size: PaperSize,
        paper_type: PaperType,
        file: String,
    ) -> (job: PrintJob)
        ensures
            job@ == (PrintJobView {
                host: host@,
                printer_name: printer_name@,
                paper_size: paper_size@,
                paper_type: paper_type@,
                file: file@,
                dpi: DEFAULT_DPI,
                print_quality: DEFAULT_PRINT_QUALITY,
            }),
    {
        PrintJob {
            host,
            printer_name,
            paper_size,
            paper_type,
            file,
            dpi: DEFAULT_DPI,
            print_quality: DEFAULT_PRINT_QUALITY,
        }
    }
}

/// Where the job goes and how large the raster has to be.
#[derive(Debug, PartialEq, Eq)]
pub struct ImagePlan {
    /// The printer's own endpoint.
    pub printer_uri: String,
    /// The sheet's width in pixels.
    pub width: u32,
    /// The sheet's height in pixels.
    pub height: u32,
}

/// The view of an [`ImagePlan`].
pub struct PlanView {
    pub printer_uri: Seq<char>,
    pub width: u32,
    pub height: u32,
}

impl View for ImagePlan {
    type V = PlanView;

    open spec fn view(&self) -> PlanView {
        PlanView { printer_uri: self.printer_uri@, width: self.width, height: self.height }
    }
}

/// The attribute that names the medium.
pub const MEDIA: &'static str = "media";

/// The attribute that describes the medium as a collection.
pub const MEDIA_COL: &'static str = "media-col";

/// The member of `media-col` that names the media type.
pub const MEDIA_TYPE: &'static str = "media-type";

/// The attribute that holds the print quality.
pub const PRINT_QUALITY: &'static str = "print-quality";

/// A member of a collection: a name and a keyword.
#[derive(Debug, PartialEq, Eq)]
pub struct CollectionMember {
    pub name: String,
    pub keyword: String,
}

/// The view of a [`CollectionMember`].
pub struct MemberView {
    pub name: Seq<char>,
    pub keyword: Seq<char>,
}

impl View for CollectionMember {
    type V = MemberView;

    open spec fn view(&self) -> MemberView {
        MemberView { name: self.name@, keyword: self.keyword@ }
    }
}

/// The value of an attribute of a request.
#[derive(Debug, PartialEq, Eq)]
pub enum RequestValue {
    /// A keyword.
    Keyword(String),
    /// A number that stands for one of a fixed list of meanings.
    Enum(i32),
    /// A collection of named keywords.
    Collection(Vec<CollectionMember>),
}

/// The view of a [`RequestValue`].
pub enum RequestValueView {
    Keyword(Seq<char>),
    Enum(i32),
    Collection(Seq<MemberView>),
}

impl View for RequestValue {
    type V = RequestValueView;

    open spec fn view(&self) -> RequestValueView {
        match self {
            RequestValue::Keyword(word) => RequestValueView::Keyword(word@),
            RequestValue::Enum(number) => RequestValueView::Enum(*number),
            RequestValue::Collection(members) => RequestValueView::Collection(views(members@)),
        }
    }
}

/// A named attribute of a request.
#[derive(Debug, PartialEq, Eq)]
pub struct RequestAttribute {
    pub name: String,
    pub value: RequestValue,
}

/// The view of a [`RequestAttribute`].
pub struct RequestAttributeView {
    pub name: Seq<char>,
    pub value: RequestValueView,
}

impl View for RequestAttribute {
    type V = RequestAttributeView;

    open spec fn view(&self) -> RequestAttributeView {
        RequestAttributeView { name: self.name@, value: self.value@ }
    }
}

/// A print-job request as plain values: the endpoint it goes to, the job
/// attributes in the order in which they are set, and the document.
#[derive(Debug, PartialEq, Eq)]
pub struct PrintRequest {
    pub printer_uri: String,
    pub attributes: Vec<RequestAttribute>,
    pub document: Vec<u8>,
}

/// The view of a [`PrintRequest`].
pub struct RequestView {
    pub printer_uri: Seq<char>,
    pub attributes: Seq<RequestAttributeView>,
    pub document: Seq<u8>,
}

impl View for PrintRequest {
    type V = RequestView;

    open spec fn view(&self) -> RequestView {
        RequestView {
            printer_uri: self.printer_uri@,
            attributes: views(self.attributes@),
            document: self.document@,
        }
    }
}

/// The attributes that a job sets on its request: `media` with the chosen
/// size as a keyword, `media-col` with the chosen type as its `media-type`
/// member, and `print-quality` with the job's quality.
pub open spec fn job_attributes(job: PrintJobView) -> Seq<RequestAttributeView> {
    seq![
        RequestAttributeView { name: MEDIA@, value: RequestValueView::Keyword(job.paper_size) },
        RequestAttributeView {
            name: MEDIA_COL@,
            value: RequestValueView::Collection(
                seq![MemberView { name: MEDIA_TYPE@, keyword: job.paper_type }],
            ),
        },
        RequestAttributeView { name: PRINT_QUALITY@, value: RequestValueView::Enum(job.print_quality) },
    ]
}

/// What a job on a given printer comes to before any image work: the
/// requested size and type are held against the printer, the size first; the
/// printer's endpoint must be a URI, which `endpoint_is_uri` tells; the size
/// must resolve to a sheet, which is then taken at the job's resolution.
pub open spec fn planned_for(job: PrintJobView, printer: PrinterView, endpoint_is_uri: bool) -> Result<
    PlanView,
    ErrorView,
> {
    match media_check(printer, job.paper_size, job.paper_type) {
        Err(e) => Err(e),
        Ok(_) => if !endpoint_is_uri {
            Err(ErrorView::InvalidEndpoint(printer.printer_uri))
        } else {
            match resolve(size_patterns(), borderless_markers(), job.paper_size) {
                None => Err(ErrorView::CannotInferGeometry(job.paper_size)),
                Some(sheet) => Ok(
                    PlanView {
                        printer_uri: printer.printer_uri,
                        width: pixels(sheet.width_um, job.dpi) as u32,
                        height: pixels(sheet.height_um, job.dpi) as u32,
                    },
                ),
            }
        },
    }
}

/// What a job comes to on a discovery response: the printer must be among
/// the discovered ones, and the rest is as `planned_for` says.
pub open spec fn planned(job: PrintJobView, response: ResponseView) -> Result<PlanView, ErrorView> {
    match discovered(response) {
        Err(e) => Err(e),
        Ok(printers) => if !printers.contains_key(job.printer_name) {
            Err(ErrorView::PrinterNotFound(job.printer_name))
        } else {
            let printer = printers[job.printer_name];
            planned_for(job, printer, is_uri(printer.printer_uri))
        },
    }
}

/// A job for a size that the printer lacks is turned down for that size,
/// whatever else is wrong with it.
pub proof fn lemma_size_is_checked_first(
    job: PrintJobView,
    printer: PrinterView,
    endpoint_is_uri: bool,
)
    requires
        !printer.paper_sizes.contains(job.paper_size),
    ensures
        planned_for(job, printer, endpoint_is_uri) == Err::<PlanView, ErrorView>(
            ErrorView::MediaSizeUnsupported(job.paper_size),
        ),
{
}

/// A job for a size and a type that the printer supports is not turned down
/// for its media.
pub proof fn lemma_supported_media_pass(
    job: PrintJobView,
    printer: PrinterView,
    endpoint_is_uri: bool,
)
    requires
        printer.paper_sizes.contains(job.paper_size),
        printer.paper_types.contains(job.paper_type),
    ensures
        media_check(printer, job.paper_size, job.paper_type) is Ok,
        !(planned_for(job, printer, endpoint_is_uri) matches Err(
            ErrorView::MediaSizeUnsupported(_),
        )),
        !(planned_for(job, printer, endpoint_is_uri) matches Err(
            ErrorView::MediaTypeUnsupported(_),
        )),
{
}

/// The request that carries `document` for a job.
pub open spec fn request_of(job: PrintJobView, plan: PlanView, document: Seq<u8>) -> RequestView {
    RequestView { printer_uri: plan.printer_uri, attributes: job_attributes(job), document }
}

/// Holds a job against a printer and works out the sheet in pixels, given
/// whether the printer's endpoint is a URI.
pub fn plan_for(job: &PrintJob, printer: &Printer, endpoint_is_uri: bool) -> (outcome: Result<
    ImagePlan,
    PrinterError,
>)
    ensures
        match planned_for(job@, printer@, endpoint_is_uri) {
            Ok(plan) => outcome matches Ok(p) && p@ == plan,
            Err(e) => outcome matches Err(x) && x@ == e,
        },
{
    match printer.check_media(&job.paper_size, &job.paper_type) {
        Ok(_) => {},
        Err(e) => {
            return Err(e);
        },
    }
    if !endpoint_is_uri {
        return Err(PrinterError::InvalidEndpoint(printer.printer_uri.0.clone()));
    }
    let sheet = match job.paper_size.guess_paper_dimensions() {
        Ok(sheet) => sheet,
        Err(e) => {
            return Err(e);
        },
    };
    let (width, height) = sheet.to_pixel_dimensions(job.dpi);
    Ok(ImagePlan { printer_uri: printer.printer_uri.0.clone(), width, height })
}

/// Picks the job's printer out of a discovery response, holds the job
/// against it and works out the sheet in pixels.
pub fn plan(job: &PrintJob, response: &IppResponse) -> (outcome: Result<ImagePlan, PrinterError>)
    ensures
        match planned(job@, response@) {
            Ok(plan) => outcome matches Ok(p) && p@ == plan,
            Err(e) => outcome matches Err(x) && x@ == e,
        },
{
    let printer = match get_printer(response, &job.printer_name) {
        Ok(printer) => printer,
        Err(e) => {
            return Err(e);
        },
    };
    let endpoint_is_uri = is_valid_uri(printer.printer_uri.0.as_str());
    plan_for(job, &printer, endpoint_is_uri)
}

/// The print-job request that carries `document`.
pub fn build_request(job: &PrintJob, plan: &ImagePlan, document: Vec<u8>) -> (request: PrintRequest)
    ensures
        request@ == request_of(job@, plan@, document@),
{
    let mut members: Vec<CollectionMember> = Vec::new();
    members.push(
        CollectionMember { name: MEDIA_TYPE.to_owned(), keyword: job.paper_type.0.clone() },
    );
    assert(views(members@) =~= seq![MemberView { name: MEDIA_TYPE@, keyword: job@.paper_type }]);
    let mut attributes: Vec<RequestAttribute> = Vec::new();
    attributes.push(
        RequestAttribute {
            name: MEDIA.to_owned(),
            value: RequestValue::Keyword(job.paper_size.0.clone()),
        },
    );
    attributes.push(
        RequestAttribute { name: MEDIA_COL.to_owned(), value: RequestValue::Collection(members) },
    );
    attributes.push(
        RequestAttribute {
            name: PRINT_QUALITY.to_owned(),
            value: RequestValue::Enum(job.print_quality),
        },
    );
    assert(views(attributes@) =~= job_attributes(job@));
    PrintRequest { printer_uri: plan.printer_uri.clone(), attributes, document }
}

/// Why a decoded image gives no request for a plan, if it gives none: an
/// image that cannot be prepared for the planned sheet counts as not loaded,
/// and a sheet without width or height has no encoding.
pub open spec fn image_failure(job: PrintJobView, plan: PlanView, image: RasterView) -> Option<
    ErrorView,
> {
    if !can_prepare(image, plan.width as int, plan.height as int) {
        Some(ErrorView::ImageLoadFailed(job.file))
    } else if plan.width == 0 || plan.height == 0 {
        Some(ErrorView::EncodingFailed)
    } else {
        None
    }
}

/// A sheet that is planned at a resolution above zero has width and height:
/// every sheet of the built-in table is more than an inch each way.
pub proof fn lemma_planned_sheet_has_pixels(
    job: PrintJobView,
    printer: PrinterView,
    endpoint_is_uri: bool,
)
    requires
        planned_for(job, printer, endpoint_is_uri) is Ok,
        job.dpi > 0,
    ensures
        planned_for(job, printer, endpoint_is_uri)->Ok_0.width > 0,
        planned_for(job, printer, endpoint_is_uri)->Ok_0.height > 0,
{
    let table = size_patterns();
    lemma_first_hit_exists(table, job.paper_size);
    let row = table[first_hit(table, job.paper_size)];
    assert(row.width_um >= 25_400 && row.height_um >= 25_400);
    lemma_pixels_are_cut_off(row.width_um, job.dpi);
    lemma_pixels_are_cut_off(row.height_um, job.dpi);
    assert(row.width_um * job.dpi >= 25_400) by (nonlinear_arith)
        requires
            row.width_um >= 25_400,
            job.dpi >= 1,
    ;
    assert(row.height_um * job.dpi >= 25_400) by (nonlinear_arith)
        requires
            row.height_um >= 25_400,
            job.dpi >= 1,
    ;
}

/// A job that is planned at a resolution above zero gets its request from
/// every image that can be prepared for the planned sheet.
pub proof fn lemma_prepared_image_is_sent(
    job: PrintJobView,
    printer: PrinterView,
    endpoint_is_uri: bool,
    image: RasterView,
)
    requires
        planned_for(job, printer, endpoint_is_uri) matches Ok(plan) && can_prepare(
            image,
            plan.width as int,
            plan.height as int,
        ),
        job.dpi > 0,
    ensures
        image_failure(job, planned_for(job, printer, endpoint_is_uri)->Ok_0, image) is None,
{
    lemma_planned_sheet_has_pixels(job, printer, endpoint_is_uri);
}

/// `request` is the request of `job` and `plan` around a PNG stream of the
/// planned size.
pub open spec fn carries_sheet(request: RequestView, job: PrintJobView, plan: PlanView) -> bool {
    &&& request == request_of(job, plan, request.document)
    &&& png_header(plan.width as int, plan.height as int).is_prefix_of(request.document)
}

/// Prepares the loaded image for the planned sheet, encodes it, and builds
/// the request around it.
///
/// An image that cannot be prepared gives `ImageLoadFailed` with the job's
/// file, and a plan without width or height gives `EncodingFailed`. Every
/// other image gives the request, whose document is the prepared raster as a
/// PNG stream of the planned size.
pub fn prepare_request(job: &PrintJob, plan: &ImagePlan, image: &RasterImage) -> (outcome: Result<
    PrintRequest,
    PrinterError,
>)
    ensures
        outcome is Ok <==> (can_prepare(image@, plan.width as int, plan.height as int)
            && plan.width > 0 && plan.height > 0),
        match image_failure(job@, plan@, image@) {
            Some(e) => outcome matches Err(x) && x@ == e,
            None => outcome matches Ok(request) && carries_sheet(request@, job@, plan@),
        },
{
    let raster = match crop(image, plan.width, plan.height) {
        Some(raster) => raster,
        None => {
            return Err(PrinterError::ImageLoadFailed(job.file.clone()));
        },
    };
    let document = match encode(&raster) {
        Ok(document) => document,
        Err(e) => {
            return Err(e);
        },
    };
    Ok(build_request(job, plan, document))
}

/// How far a submission has come.
#[derive(Debug, PartialEq, Eq)]
pub enum Stage {
    /// Nothing has been done yet.
    Start,
    /// The host has been asked for its printers.
    Discovering,
    /// The image file is being loaded for the planned sheet.
    Loading(ImagePlan),
    /// The job has been sent to the printer.
    Submitting,
    /// The submission has ended, well or not.
    Finished,
}

/// What the caller reports back.
#[derive(Debug)]
pub enum Event {
    /// The submission is to begin.
    Started,
    /// The host, or the printer, has answered.
    Answered(IppResponse),
    /// The connection failed or the answer could not be read.
    TransportFailed(String),
    /// The image file was decoded.
    ImageLoaded(RasterImage),
    /// The image file is missing, unreadable or cannot be decoded.
    ImageUnreadable,
    /// The image file holds a format that no decoder is available for.
    ImageUnsupported,
}

/// What the caller is to do next.
#[derive(Debug)]
pub enum Action {
    /// Ask the host for its printers and report the answer.
    Discover(String),
    /// Decode the image file at this path and report the raster.
    LoadImage(String),
    /// Send this print job and report the answer.
    Submit(PrintRequest),
    /// The printer took the submission as these jobs: nothing is left to do.
    Complete(Vec<IppJobAccepted>),
    /// The submission has failed: nothing is left to do.
    Fail(PrinterError),
}

/// The submission ends with the error `e`.
pub open spec fn fails_with(next: (Stage, Action), e: ErrorView) -> bool {
    &&& next.0 is Finished
    &&& next.1 matches Action::Fail(x) && x@ == e
}

/// The host is asked for its printers.
pub open spec fn asks_for_printers(next: (Stage, Action), host: Seq<char>) -> bool {
    &&& next.0 is Discovering
    &&& next.1 matches Action::Discover(asked) && asked@ == host
}

/// The image file at `path` is loaded for `plan`.
pub open spec fn asks_for_image(next: (Stage, Action), plan: PlanView, path: Seq<char>) -> bool {
    &&& next.0 matches Stage::Loading(p) && p@ == plan
    &&& next.1 matches Action::LoadImage(asked) && asked@ == path
}

/// The job is sent as the request of `job` and `plan` around a PNG stream of
/// the planned size.
pub open spec fn sends_job(next: (Stage, Action), job: PrintJobView, plan: PlanView) -> bool {
    &&& next.0 is Submitting
    &&& next.1 matches Action::Submit(request) && carries_sheet(request@, job, plan)
}

/// The submission ends with the accepted jobs `jobs`.
pub open spec fn completes_with(next: (Stage, Action), jobs: Seq<JobView>) -> bool {
    &&& next.0 is Finished
    &&& next.1 matches Action::Complete(list) && views(list@) == jobs
}

/// Takes one step of a submission: from the stage it is at and what the
/// caller reports, to the stage it is at then and what the caller is to do.
///
/// * At the start, the host is asked for its printers.
/// * On the host's answer the job is planned; a plan has the image loaded,
///   anything else ends the submission with the error of the planning.
/// * On the decoded image the request is prepared and sent, with the
///   prepared raster as a PNG stream of the planned size for its document; an
///   image that cannot be read or prepared, or a plan without width or
///   height, ends the submission.
/// * On the printer's answer the submission ends, with the accepted jobs in
///   the order of the answer or with the error of the answer.
/// * A failed connection ends the submission with `TransportError`.
/// * Any other report ends it with `UnexpectedEvent`.
pub fn print_file(job: &PrintJob, stage: Stage, event: Event) -> (next: (Stage, Action))
    ensures
        match (stage, event) {
            (Stage::Start, Event::Started) => asks_for_printers(next, job@.host),
            (Stage::Discovering, Event::Answered(response)) => match planned(job@, response@) {
                Ok(plan) => asks_for_image(next, plan, job@.file),
                Err(e) => fails_with(next, e),
            },
            (Stage::Discovering, Event::TransportFailed(reason)) => fails_with(
                next,
                ErrorView::TransportError(reason@),
            ),
            (Stage::Loading(plan), Event::ImageLoaded(image)) => match image_failure(
                job@,
                plan@,
                image@,
            ) {
                Some(e) => fails_with(next, e),
                None => sends_job(next, job@, plan@),
            },
            (Stage::Loading(_), Event::ImageUnreadable) => fails_with(
                next,
                ErrorView::ImageLoadFailed(job@.file),
            ),
            (Stage::Loading(_), Event::ImageUnsupported) => fails_with(
                next,
                ErrorView::ImageFormatUnsupported(job@.file),
            ),
            (Stage::Submitting, Event::Answered(response)) => match accepted(response@) {
                Ok(jobs) => completes_with(next, jobs),
                Err(e) => fails_with(next, e),
            },
            (Stage::Submitting, Event::TransportFailed(reason)) => fails_with(
                next,
                ErrorView::TransportError(reason@),
            ),
            _ => fails_with(next, ErrorView::UnexpectedEvent),
        },
{
    match (stage, event) {
        (Stage::Start, Event::Started) => (Stage::Discovering, Action::Discover(job.host.clone())),
        (Stage::Discovering, Event::Answered(response)) => match plan(job, &response) {
            Ok(plan) => (Stage::Loading(plan), Action::LoadImage(job.file.clone())),
            Err(e) => (Stage::Finished, Action::Fail(e)),
        },
        (Stage::Discovering, Event::TransportFailed(reason)) => (
            Stage::Finished,
            Action::Fail(PrinterError::TransportError(reason)),
        ),
        (Stage::Loading(plan), Event::ImageLoaded(image)) => match prepare_request(
            job,
            &plan,
            &image,
        ) {
            Ok(request) => (Stage::Submitting, Action::Submit(request)),
            Err(e) => (Stage::Finished, Action::Fail(e)),
        },
        (Stage::Loading(_), Event::ImageUnreadable) => (
            Stage::Finished,
            Action::Fail(PrinterError::ImageLoadFailed(job.file.clone())),
        ),
        (Stage::Loading(_), Event::ImageUnsupported) => (
            Stage::Finished,
            Action::Fail(PrinterError::ImageFormatUnsupported(job.file.clone())),
        ),
        (Stage::Submitting, Event::Answered(response)) => match accepted_jobs(&response) {
            Ok(jobs) => (Stage::Finished, Action::Complete(jobs)),
            Err(e) => (Stage::Finished, Action::Fail(e)),
        },
        (Stage::Submitting, Event::TransportFailed(reason)) => (
            Stage::Finished,
            Action::Fail(PrinterError::TransportError(reason)),
        ),
        _ => (Stage::Finished, Action::Fail(PrinterError::UnexpectedEvent)),
    }
}

} // verus!
