//! A remembered choice of printer and medium.
//!
//! Settings come from outside and may be stale: before they are used they are
//! held against the printers that discovery has just found.

use vstd::prelude::*;

use crate::directory::{as_map, slot, unique_names, PrinterDirectory};
use crate::paper::PaperSize;
use crate::printer::{PaperType, Printer, PrinterView};

verus! {

/// A printer with one of its media types and one of its media sizes.
#[derive(Debug, PartialEq, Eq)]
pub struct PrinterSettings {
    pub printer: Printer,
    pub media_type: PaperType,
    pub media_size: PaperSize,
}

/// A [`PrinterSettings`] with its text taken as sequences of characters.
pub struct SettingsView {
    pub printer: PrinterView,
    pub media_type: Seq<char>,
    pub media_size: Seq<char>,
}

impl View for PrinterSettings {
    type V = SettingsView;

    open spec fn view(&self) -> SettingsView {
        SettingsView {
            printer: self.printer@,
            media_type: self.media_type@,
            media_size: self.media_size@,
        }
    }
}

/// The settings name a printer that is among `printers`, and that printer
/// supports the chosen size and type.
pub open spec fn settings_valid(settings: SettingsView, printers: Map<Seq<char>, PrinterView>) -> bool {
    &&& printers.contains_key(settings.printer.name)
    &&& printers[settings.printer.name].paper_sizes.contains(settings.media_size)
    &&& printers[settings.printer.name].paper_types.contains(settings.media_type)
}

/// The settings that stand for a list of printers when nothing was chosen:
/// the first printer with its first media type and size. There are none where
/// the list is empty or its first printer advertises no size or no type.
pub open spec fn default_settings(listed: Seq<PrinterView>) -> Option<SettingsView> {
    if listed.len() > 0 && listed[0].is_usable() {
        Some(
            SettingsView {
                printer: listed[0],
                media_type: listed[0].paper_types[0],
                media_size: listed[0].paper_sizes[0],
            },
        )
    } else {
        None
    }
}

/// Default settings are valid for the printers that they were taken from.
pub proof fn lemma_default_is_valid(listed: Seq<PrinterView>)
    requires
        unique_names(listed),
        default_settings(listed) is Some,
    ensures
        settings_valid(default_settings(listed)->0, as_map(listed)),
{
    let first = listed[0];
    let at = slot(listed, first.name);
    assert(listed[0].name == first.name);
    if at > 0 {
        assert(listed[0].name != listed[at].name);
    }
    assert(first.paper_types.contains(first.paper_types[0]));
    assert(first.paper_sizes.contains(first.paper_sizes[0]));
}

impl PrinterSettings {
    /// The settings to start from when none were chosen.
    pub fn default(printers: &PrinterDirectory) -> (chosen: Option<PrinterSettings>)
        ensures
            match default_settings(printers.listed()) {
                Some(settings) => chosen matches Some(c) && c@ == settings && settings_valid(
                    c@,
                    printers@,
                ),
                None => chosen is None,
            },
    {
        let all = printers.printers();
        if all.len() == 0 {
            return None;
        }
        let first = &all[0];
        if first.paper_sizes.len() == 0 || first.paper_types.len() == 0 {
            return None;
        }
        proof {
            lemma_default_is_valid(printers.listed());
        }
        Some(
            PrinterSettings {
                printer: first.clone(),
                media_type: first.paper_types[0].clone(),
                media_size: first.paper_sizes[0].clone(),
            },
        )
    }

    /// Holds the settings against the printers that discovery found.
    pub fn is_valid(&self, printers: &PrinterDirectory) -> (valid: bool)
        ensures
            valid == settings_valid(self@, printers@),
    {
        let printer = match printers.get(&self.printer.name) {
            Some(printer) => printer,
            None => {
                return false;
            },
        };
        if !printer.has_paper_size(&self.media_size) {
            return false;
        }
        if !printer.has_paper_type(&self.media_type) {
            return false;
        }
        true
    }
}

} // verus!
