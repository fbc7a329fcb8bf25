//! Printers and what they support.
//!
//! A printer is known by its name, the endpoint that takes its jobs, and the
//! media sizes and media types that it advertises. Names and identifiers are
//! opaque: two of them are the same only if they hold the same characters.

use vstd::prelude::*;

use crate::attributes::views;
use crate::error::{ErrorView, PrinterError};
use crate::text::same_text;

pub use crate::directory::{get_printer, get_printers};
pub use crate::jobs::IppJobAccepted;
pub use crate::paper::{PaperDimension, PaperSize};
pub use crate::submission::print_file;

verus! {

/// The name under which a printer is addressed.
#[derive(Debug, PartialEq, Eq)]
pub struct PrinterName(pub String);

impl View for PrinterName {
    type V = Seq<char>;

    open spec fn view(&self) -> Seq<char> {
        self.0@
    }
}

impl Clone for PrinterName {
    fn clone(&self) -> (copy: PrinterName)
        ensures
            copy@ == self@,
    {
        PrinterName(self.0.clone())
    }
}

/// The endpoint that takes a printer's jobs.
#[derive(Debug, PartialEq, Eq)]
pub struct PrinterUri(pub String);

impl View for PrinterUri {
    type V = Seq<char>;

    open spec fn view(&self) -> Seq<char> {
        self.0@
    }
}

impl Clone for PrinterUri {
    fn clone(&self) -> (copy: PrinterUri)
        ensures
            copy@ == self@,
    {
        PrinterUri(self.0.clone())
    }
}

/// A media type identifier as a printer reports it.
#[derive(Debug, PartialEq, Eq, Hash)]
pub struct PaperType(pub String);

impl View for PaperType {
    type V = Seq<char>;

    open spec fn view(&self) -> Seq<char> {
        self.0@
    }
}

impl Clone for PaperType {
    fn clone(&self) -> (copy: PaperType)
        ensures
            copy@ == self@,
    {
        PaperType(self.0.clone())
    }
}

/// A printer and the media that it advertises.
#[derive(Debug, PartialEq, Eq)]
pub struct Printer {
    pub name: PrinterName,
    pub printer_uri: PrinterUri,
    /// The supported media sizes, each once.
    pub paper_sizes: Vec<PaperSize>,
    /// The supported media types, each once.
    pub paper_types: Vec<PaperType>,
}

/// A [`Printer`] with its text taken as sequences of characters.
pub struct PrinterView {
    pub name: Seq<char>,
    pub printer_uri: Seq<char>,
    pub paper_sizes: Seq<Seq<char>>,
    pub paper_types: Seq<Seq<char>>,
}

impl View for Printer {
    type V = PrinterView;

    open spec fn view(&self) -> PrinterView {
        PrinterView {
            name: self.name@,
            printer_uri: self.printer_uri@,
            paper_sizes: views(self.paper_sizes@),
            paper_types: views(self.paper_types@),
        }
    }
}

impl PrinterView {
    /// No media size and no media type is listed twice.
    pub open spec fn wf(self) -> bool {
        self.paper_sizes.no_duplicates() && self.paper_types.no_duplicates()
    }

    /// The printer advertises at least one media size and one media type.
    pub open spec fn is_usable(self) -> bool {
        self.paper_sizes.len() > 0 && self.paper_types.len() > 0
    }
}

/// What a request for `size` and `kind` on `printer` comes to: the size is
/// looked at first, the type only where the size is supported.
pub open spec fn media_check(printer: PrinterView, size: Seq<char>, kind: Seq<char>) -> Result<
    (),
    ErrorView,
> {
    if !printer.paper_sizes.contains(size) {
        Err(ErrorView::MediaSizeUnsupported(size))
    } else if !printer.paper_types.contains(kind) {
        Err(ErrorView::MediaTypeUnsupported(kind))
    } else {
        Ok(())
    }
}

/// A request for a size and a type that a printer both lacks is turned down
/// for its size.
pub proof fn lemma_size_is_checked_first(printer: PrinterView, size: Seq<char>, kind: Seq<char>)
    requires
        !printer.paper_sizes.contains(size),
        !printer.paper_types.contains(kind),
    ensures
        media_check(printer, size, kind) == Err::<(), ErrorView>(
            ErrorView::MediaSizeUnsupported(size),
        ),
{
}

/// Only a printer that advertises a size and a type passes any request.
pub proof fn lemma_passing_printer_is_usable(printer: PrinterView, size: Seq<char>, kind: Seq<char>)
    requires
        media_check(printer, size, kind) is Ok,
    ensures
        printer.is_usable(),
{
    assert(printer.paper_sizes.contains(size));
    assert(printer.paper_types.contains(kind));
}

impl Clone for Printer {
    fn clone(&self) -> (copy: Printer)
        ensures
            copy@ == self@,
    {
        let mut paper_sizes: Vec<PaperSize> = Vec::new();
        let mut i: usize = 0;
        while i < self.paper_sizes.len()
            invariant
                i <= self.paper_sizes.len(),
                paper_sizes.len() == i,
                forall|k: int| 0 <= k < i ==> paper_sizes@[k]@ == self.paper_sizes@[k]@,
            decreases self.paper_sizes.len() - i,
        {
            paper_sizes.push(self.paper_sizes[i].clone());
            i += 1;
        }
        let mut paper_types: Vec<PaperType> = Vec::new();
        let mut j: usize = 0;
        while j < self.paper_types.len()
            invariant
                j <= self.paper_types.len(),
                paper_types.len() == j,
                forall|k: int| 0 <= k < j ==> paper_types@[k]@ == self.paper_types@[k]@,
            decreases self.paper_types.len() - j,
        {
            paper_types.push(self.paper_types[j].clone());
            j += 1;
        }
        assert(views(paper_sizes@) =~= views(self.paper_sizes@));
        assert(views(paper_types@) =~= views(self.paper_types@));
        Printer {
            name: self.name.clone(),
            printer_uri: self.printer_uri.clone(),
            paper_sizes,
            paper_types,
        }
    }
}

impl Printer {
    /// Whether the given sizes and types hold nothing twice.
    pub open spec fn wf(&self) -> bool {
        self@.wf()
    }

    /// Whether the printer advertises the media size.
    pub fn has_paper_size(&self, paper_size: &PaperSize) -> (found: bool)
        ensures
            found == self@.paper_sizes.contains(paper_size@),
    {
        let mut i: usize = 0;
        while i < self.paper_sizes.len()
            invariant
                i <= self.paper_sizes.len(),
                forall|k: int| 0 <= k < i ==> self.paper_sizes@[k]@ != paper_size@,
            decreases self.paper_sizes.len() - i,
        {
            if same_text(self.paper_sizes[i].0.as_str(), paper_size.0.as_str()) {
                assert(self@.paper_sizes[i as int] == paper_size@);
                return true;
            }
            i += 1;
        }
        false
    }

    /// Whether the printer advertises the media type.
    pub fn has_paper_type(&self, paper_type: &PaperType) -> (found: bool)
        ensures
            found == self@.paper_types.contains(paper_type@),
    {
        let mut i: usize = 0;
        while i < self.paper_types.len()
            invariant
                i <= self.paper_types.len(),
                forall|k: int| 0 <= k < i ==> self.paper_types@[k]@ != paper_type@,
            decreases self.paper_types.len() - i,
        {
            if same_text(self.paper_types[i].0.as_str(), paper_type.0.as_str()) {
                assert(self@.paper_types[i as int] == paper_type@);
                return true;
            }
            i += 1;
        }
        false
    }

    /// Holds a requested size and type against what the printer advertises.
    /// Both are looked at before any other work on the request, the size first.
    pub fn check_media(&self, paper_size: &PaperSize, paper_type: &PaperType) -> (outcome: Result<
        (),
        PrinterError,
    >)
        ensures
            match media_check(self@, paper_size@, paper_type@) {
                Ok(_) => outcome is Ok,
                Err(e) => outcome matches Err(x) && x@ == e,
            },
    {
        if !self.has_paper_size(paper_size) {
            return Err(PrinterError::MediaSizeUnsupported(paper_size.0.clone()));
        }
        if !self.has_paper_type(paper_type) {
            return Err(PrinterError::MediaTypeUnsupported(paper_type.0.clone()));
        }
        Ok(())
    }
}

} // verus!
