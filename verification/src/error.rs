//! The ways in which discovery, validation and submission fail.

use vstd::prelude::*;

verus! {

/// Why a request could not be carried out. Every failure ends the submission
/// it belongs to; nothing is retried.
#[derive(Debug, PartialEq, Eq)]
pub enum PrinterError {
    /// Discovery produced no printer, or the host answered with a failing status.
    NoPrinters,
    /// No discovered printer has the requested name.
    PrinterNotFound(String),
    /// The printer does not advertise the requested media size.
    MediaSizeUnsupported(String),
    /// The printer does not advertise the requested media type.
    MediaTypeUnsupported(String),
    /// No known size pattern occurs in the media identifier.
    CannotInferGeometry(String),
    /// The image file is missing, unreadable or cannot be decoded, or the
    /// decoded raster cannot be brought to the target size.
    ImageLoadFailed(String),
    /// The image file holds a format that no decoder is available for.
    ImageFormatUnsupported(String),
    /// The prepared raster could not be encoded for transmission.
    EncodingFailed,
    /// The endpoint that the printer advertises for its jobs is not a URI.
    InvalidEndpoint(String),
    /// The printer answered the submission with a failing status code.
    SubmissionRejected(u16),
    /// The connection failed, or the answer could not be read.
    TransportError(String),
    /// A required attribute is absent from an attribute group, or holds a
    /// value of the wrong kind.
    MissingAttribute(String),
    /// The submission was told of something that cannot happen at its stage.
    UnexpectedEvent,
}

/// A [`PrinterError`] with its text taken as a sequence of characters.
pub enum ErrorView {
    NoPrinters,
    PrinterNotFound(Seq<char>),
    MediaSizeUnsupported(Seq<char>),
    MediaTypeUnsupported(Seq<char>),
    CannotInferGeometry(Seq<char>),
    ImageLoadFailed(Seq<char>),
    ImageFormatUnsupported(Seq<char>),
    EncodingFailed,
    InvalidEndpoint(Seq<char>),
    SubmissionRejected(u16),
    TransportError(Seq<char>),
    MissingAttribute(Seq<char>),
    UnexpectedEvent,
}

impl View for PrinterError {
    type V = ErrorView;

    open spec fn view(&self) -> ErrorView {
        match self {
            PrinterError::NoPrinters => ErrorView::NoPrinters,
            PrinterError::PrinterNotFound(name) => ErrorView::PrinterNotFound(name@),
            PrinterError::MediaSizeUnsupported(size) => ErrorView::MediaSizeUnsupported(size@),
            PrinterError::MediaTypeUnsupported(kind) => ErrorView::MediaTypeUnsupported(kind@),
            PrinterError::CannotInferGeometry(id) => ErrorView::CannotInferGeometry(id@),
            PrinterError::ImageLoadFailed(path) => ErrorView::ImageLoadFailed(path@),
            PrinterError::ImageFormatUnsupported(path) => ErrorView::ImageFormatUnsupported(path@),
            PrinterError::EncodingFailed => ErrorView::EncodingFailed,
            PrinterError::InvalidEndpoint(uri) => ErrorView::InvalidEndpoint(uri@),
            PrinterError::SubmissionRejected(code) => ErrorView::SubmissionRejected(*code),
            PrinterError::TransportError(reason) => ErrorView::TransportError(reason@),
            PrinterError::MissingAttribute(name) => ErrorView::MissingAttribute(name@),
            PrinterError::UnexpectedEvent => ErrorView::UnexpectedEvent,
        }
    }
}

} // verus!
