//! Printer discovery: from a decoded response to the printers it describes.
//!
//! Every group tagged as a printer's becomes one printer. A printer is filed
//! under its name; where a name comes twice, the later printer stands.

use vstd::prelude::*;

use crate::attributes::{
    text_attribute, texts_attribute, views, AttributeGroup, GroupTag, GroupView, IppResponse,
    ResponseView, is_success,
};
use crate::error::{ErrorView, PrinterError};
use crate::paper::PaperSize;
use crate::printer::{PaperType, Printer, PrinterName, PrinterUri, PrinterView};
use crate::text::same_text;

verus! {

/// The attribute that names a printer.
pub const PRINTER_NAME: &'static str = "printer-name";

/// The attribute that holds the endpoint for a printer's jobs.
pub const PRINTER_URI_SUPPORTED: &'static str = "printer-uri-supported";

/// The attribute that lists a printer's media sizes.
pub const MEDIA_SUPPORTED: &'static str = "media-supported";

/// The attribute that lists a printer's media types.
pub const MEDIA_TYPE_SUPPORTED: &'static str = "media-type-supported";

/// The texts of a list in the order of their first occurrence, each once.
pub open spec fn distinct(texts: Seq<Seq<char>>) -> Seq<Seq<char>>
    decreases texts.len(),
{
    if texts.len() == 0 {
        Seq::empty()
    } else {
        let before = distinct(texts.drop_last());
        if before.contains(texts.last()) {
            before
        } else {
            before.push(texts.last())
        }
    }
}

/// `distinct` keeps every text of the list, and none twice.
pub proof fn lemma_distinct(texts: Seq<Seq<char>>)
    ensures
        distinct(texts).no_duplicates(),
        forall|t: Seq<char>| distinct(texts).contains(t) <==> texts.contains(t),
    decreases texts.len(),
{
    if texts.len() > 0 {
        let head = texts.drop_last();
        let last = texts.last();
        lemma_distinct(head);
        let before = distinct(head);
        assert forall|t: Seq<char>| distinct(texts).contains(t) <==> texts.contains(t) by {
            if texts.contains(t) {
                let i = choose|i: int| 0 <= i < texts.len() && texts[i] == t;
                if i < texts.len() - 1 {
                    assert(head[i] == t);
                    assert(head.contains(t));
                    assert(before.contains(t));
                    if !before.contains(last) {
                        let j = choose|j: int| 0 <= j < before.len() && before[j] == t;
                        assert(before.push(last)[j] == t);
                    }
                } else {
                    if !before.contains(last) {
                        assert(before.push(last)[before.len() as int] == last);
                    }
                }
            }
            if distinct(texts).contains(t) {
                let j = choose|j: int| 0 <= j < distinct(texts).len() && distinct(texts)[j] == t;
                if j < before.len() {
                    assert(before[j] == t);
                    assert(head.contains(t));
                    let i = choose|i: int| 0 <= i < head.len() && head[i] == t;
                    assert(texts[i] == t);
                } else {
                    assert(t == last);
                    assert(texts[texts.len() - 1] == t);
                }
            }
        }
    }
}

/// The printer that a group describes, or the name of the first attribute
/// that the group lacks or holds in another form than text.
pub open spec fn printer_of(group: GroupView) -> Result<PrinterView, Seq<char>> {
    match text_attribute(group, PRINTER_NAME@) {
        None => Err(PRINTER_NAME@),
        Some(name) => match text_attribute(group, PRINTER_URI_SUPPORTED@) {
            None => Err(PRINTER_URI_SUPPORTED@),
            Some(printer_uri) => match texts_attribute(group, MEDIA_SUPPORTED@) {
                None => Err(MEDIA_SUPPORTED@),
                Some(sizes) => match texts_attribute(group, MEDIA_TYPE_SUPPORTED@) {
                    None => Err(MEDIA_TYPE_SUPPORTED@),
                    Some(kinds) => Ok(
                        PrinterView {
                            name,
                            printer_uri,
                            paper_sizes: distinct(sizes),
                            paper_types: distinct(kinds),
                        },
                    ),
                },
            },
        },
    }
}

/// The printers that the printer groups among `groups` describe, in order,
/// or the attribute that the first incomplete printer group lacks.
pub open spec fn printers_of(groups: Seq<GroupView>) -> Result<Seq<PrinterView>, Seq<char>>
    decreases groups.len(),
{
    if groups.len() == 0 {
        Ok(Seq::empty())
    } else {
        match printers_of(groups.drop_last()) {
            Err(name) => Err(name),
            Ok(before) => if groups.last().tag != GroupTag::Printer {
                Ok(before)
            } else {
                match printer_of(groups.last()) {
                    Err(name) => Err(name),
                    Ok(printer) => Ok(before.push(printer)),
                }
            },
        }
    }
}

/// The printers of a list filed under their names, a later one in place of
/// an earlier one of the same name.
pub open spec fn by_name(printers: Seq<PrinterView>) -> Map<Seq<char>, PrinterView>
    decreases printers.len(),
{
    if printers.len() == 0 {
        Map::empty()
    } else {
        by_name(printers.drop_last()).insert(printers.last().name, printers.last())
    }
}

/// What a discovery response comes to: the printers by name, or why there
/// are none.
pub open spec fn discovered(response: ResponseView) -> Result<Map<Seq<char>, PrinterView>, ErrorView> {
    if !is_success(response.status_code) {
        Err(ErrorView::NoPrinters)
    } else {
        match printers_of(response.groups) {
            Err(name) => Err(ErrorView::MissingAttribute(name)),
            Ok(printers) => if printers.len() == 0 {
                Err(ErrorView::NoPrinters)
            } else {
                Ok(by_name(printers))
            },
        }
    }
}

/// The printers of a discovery in the order in which their names first came.
pub open spec fn discovered_list(response: ResponseView) -> Seq<PrinterView> {
    match printers_of(response.groups) {
        Ok(printers) => enrolled(printers),
        Err(_) => Seq::empty(),
    }
}

/// Whether `text` is among `list`.
fn holds_text(list: &Vec<String>, text: &str) -> (found: bool)
    ensures
        found == views(list@).contains(text@),
{
    let mut i: usize = 0;
    while i < list.len()
        invariant
            i <= list.len(),
            forall|k: int| 0 <= k < i ==> list@[k]@ != text@,
        decreases list.len() - i,
    {
        if same_text(list[i].as_str(), text) {
            assert(views(list@)[i as int] == text@);
            return true;
        }
        i += 1;
    }
    false
}

/// The texts of a list in the order of their first occurrence, each once.
fn distinct_texts(texts: &Vec<String>) -> (kept: Vec<String>)
    ensures
        views(kept@) == distinct(views(texts@)),
{
    let ghost all = views(texts@);
    let mut kept: Vec<String> = Vec::new();
    let mut i: usize = 0;
    assert(views(kept@) =~= distinct(all.take(0)));
    while i < texts.len()
        invariant
            i <= texts.len(),
            all == views(texts@),
            views(kept@) == distinct(all.take(i as int)),
        decreases texts.len() - i,
    {
        proof {
            assert(all.take(i as int + 1).drop_last() =~= all.take(i as int));
            assert(all.take(i as int + 1).last() == texts@[i as int]@);
        }
        if !holds_text(&kept, texts[i].as_str()) {
            let ghost before = views(kept@);
            kept.push(texts[i].clone());
            assert(views(kept@) =~= before.push(texts@[i as int]@));
        }
        i += 1;
    }
    assert(all.take(texts.len() as int) =~= all);
    kept
}

/// The error for an attribute that a group lacks.
fn missing(name: &str) -> (e: PrinterError)
    ensures
        e@ == ErrorView::MissingAttribute(name@),
{
    PrinterError::MissingAttribute(name.to_owned())
}

/// Reads one printer out of a printer group. The name, the endpoint, the
/// media sizes and the media types must be there as text, and are asked for
/// in this order; the first one that is not ends the reading.
pub fn printer_from_group(group: &AttributeGroup) -> (outcome: Result<Printer, PrinterError>)
    ensures
        match printer_of(group@) {
            Ok(printer) => outcome matches Ok(p) && p@ == printer && p.wf(),
            Err(name) => outcome matches Err(e) && e@ == ErrorView::MissingAttribute(name),
        },
{
    let name = match group.text(PRINTER_NAME) {
        Some(text) => text,
        None => {
            return Err(missing(PRINTER_NAME));
        },
    };
    let printer_uri = match group.text(PRINTER_URI_SUPPORTED) {
        Some(text) => text,
        None => {
            return Err(missing(PRINTER_URI_SUPPORTED));
        },
    };
    let sizes = match group.texts(MEDIA_SUPPORTED) {
        Some(texts) => distinct_texts(&texts),
        None => {
            return Err(missing(MEDIA_SUPPORTED));
        },
    };
    let kinds = match group.texts(MEDIA_TYPE_SUPPORTED) {
        Some(texts) => distinct_texts(&texts),
        None => {
            return Err(missing(MEDIA_TYPE_SUPPORTED));
        },
    };
    let mut paper_sizes: Vec<PaperSize> = Vec::new();
    let mut i: usize = 0;
    while i < sizes.len()
        invariant
            i <= sizes.len(),
            paper_sizes.len() == i,
            forall|k: int| 0 <= k < i ==> paper_sizes@[k]@ == sizes@[k]@,
        decreases sizes.len() - i,
    {
        paper_sizes.push(PaperSize(sizes[i].clone()));
        i += 1;
    }
    let mut paper_types: Vec<PaperType> = Vec::new();
    let mut j: usize = 0;
    while j < kinds.len()
        invariant
            j <= kinds.len(),
            paper_types.len() == j,
            forall|k: int| 0 <= k < j ==> paper_types@[k]@ == kinds@[k]@,
        decreases kinds.len() - j,
    {
        paper_types.push(PaperType(kinds[j].clone()));
        j += 1;
    }
    proof {
        assert(views(paper_sizes@) =~= views(sizes@));
        assert(views(paper_types@) =~= views(kinds@));
        lemma_distinct(texts_attribute(group@, MEDIA_SUPPORTED@)->0);
        lemma_distinct(texts_attribute(group@, MEDIA_TYPE_SUPPORTED@)->0);
    }
    Ok(Printer { name: PrinterName(name), printer_uri: PrinterUri(printer_uri), paper_sizes, paper_types })
}

/// Some printer of `entries` is called `name`.
pub open spec fn has_name(entries: Seq<PrinterView>, name: Seq<char>) -> bool {
    exists|i: int| 0 <= i < entries.len() && (#[trigger] entries[i]).name == name
}

/// The place of a printer called `name` among `entries`.
pub open spec fn slot(entries: Seq<PrinterView>, name: Seq<char>) -> int {
    choose|i: int| 0 <= i < entries.len() && (#[trigger] entries[i]).name == name
}

/// No two printers of `entries` have the same name.
pub open spec fn unique_names(entries: Seq<PrinterView>) -> bool {
    forall|i: int, j: int|
        0 <= i < j < entries.len() ==> (#[trigger] entries[i]).name != (#[trigger] entries[j]).name
}

/// Printers with unique names as a map from their names.
pub open spec fn as_map(entries: Seq<PrinterView>) -> Map<Seq<char>, PrinterView> {
    Map::new(|name: Seq<char>| has_name(entries, name), |name: Seq<char>| entries[slot(entries, name)])
}

/// A list of printers after `printer` was filed in it: in the place of the
/// printer of its name where there is one, at the end otherwise.
pub open spec fn enroll(entries: Seq<PrinterView>, printer: PrinterView) -> Seq<PrinterView> {
    if has_name(entries, printer.name) {
        entries.update(slot(entries, printer.name), printer)
    } else {
        entries.push(printer)
    }
}

/// The list that filing the printers of `printers` one after the other gives.
pub open spec fn enrolled(printers: Seq<PrinterView>) -> Seq<PrinterView>
    decreases printers.len(),
{
    if printers.len() == 0 {
        Seq::empty()
    } else {
        enroll(enrolled(printers.drop_last()), printers.last())
    }
}

/// Filing printers one after the other gives each name once, and under each
/// name the last printer that had it.
pub proof fn lemma_enrolled_is_by_name(printers: Seq<PrinterView>)
    ensures
        unique_names(enrolled(printers)),
        as_map(enrolled(printers)) == by_name(printers),
        printers.len() > 0 ==> enrolled(printers).len() > 0,
    decreases printers.len(),
{
    if printers.len() == 0 {
        assert(as_map(enrolled(printers)) =~= Map::<Seq<char>, PrinterView>::empty());
    } else {
        let head = printers.drop_last();
        let last = printers.last();
        lemma_enrolled_is_by_name(head);
        let before = enrolled(head);
        if has_name(before, last.name) {
            let at = slot(before, last.name);
            lemma_as_map_update(before, at, last);
        } else {
            lemma_as_map_push(before, last);
        }
    }
}

/// Every printer of a discovery stands under its own name, and lists none
/// of its media twice.
pub proof fn lemma_discovered_printers(response: ResponseView, name: Seq<char>)
    requires
        discovered(response) matches Ok(printers) && printers.contains_key(name),
    ensures
        discovered(response)->Ok_0[name].name == name,
        discovered(response)->Ok_0[name].wf(),
{
    let read = printers_of(response.groups)->Ok_0;
    lemma_printers_of_are_wf(response.groups);
    lemma_by_name_holds_entries(read, name);
}

proof fn lemma_printers_of_are_wf(groups: Seq<GroupView>)
    requires
        printers_of(groups) is Ok,
    ensures
        forall|i: int|
            0 <= i < printers_of(groups)->Ok_0.len() ==> (#[trigger] printers_of(
                groups,
            )->Ok_0[i]).wf(),
    decreases groups.len(),
{
    if groups.len() > 0 {
        lemma_printers_of_are_wf(groups.drop_last());
        if groups.last().tag == GroupTag::Printer {
            let group = groups.last();
            lemma_distinct(texts_attribute(group, MEDIA_SUPPORTED@)->0);
            lemma_distinct(texts_attribute(group, MEDIA_TYPE_SUPPORTED@)->0);
        }
    }
}

proof fn lemma_by_name_holds_entries(printers: Seq<PrinterView>, name: Seq<char>)
    requires
        by_name(printers).contains_key(name),
    ensures
        exists|i: int| 0 <= i < printers.len() && by_name(printers)[name] == #[trigger] printers[i],
        by_name(printers)[name].name == name,
    decreases printers.len(),
{
    if printers.len() > 0 {
        let head = printers.drop_last();
        let last = printers.last();
        if last.name == name {
            assert(by_name(printers)[name] == printers[printers.len() - 1]);
        } else {
            lemma_by_name_holds_entries(head, name);
            let i = choose|i: int| 0 <= i < head.len() && by_name(head)[name] == #[trigger] head[i];
            assert(by_name(printers)[name] == printers[i]);
        }
    }
}

proof fn lemma_slot(entries: Seq<PrinterView>, i: int)
    requires
        unique_names(entries),
        0 <= i < entries.len(),
    ensures
        has_name(entries, entries[i].name),
        slot(entries, entries[i].name) == i,
{
    let name = entries[i].name;
    let k = slot(entries, name);
    assert(0 <= k < entries.len() && entries[k].name == name);
    if k < i {
        assert(entries[k].name != entries[i].name);
    }
    if i < k {
        assert(entries[i].name != entries[k].name);
    }
}

proof fn lemma_as_map_push(entries: Seq<PrinterView>, printer: PrinterView)
    requires
        unique_names(entries),
        !has_name(entries, printer.name),
    ensures
        unique_names(entries.push(printer)),
        as_map(entries.push(printer)) == as_map(entries).insert(printer.name, printer),
{
    let longer = entries.push(printer);
    assert forall|i: int, j: int| 0 <= i < j < longer.len() implies (#[trigger] longer[i]).name != (
    #[trigger] longer[j]).name by {
        if j < entries.len() {
            assert(entries[i].name != entries[j].name);
        } else {
            assert(longer[i] == entries[i]);
        }
    }
    assert forall|name: Seq<char>| has_name(longer, name) <==> (has_name(entries, name) || name
        == printer.name) by {
        if has_name(entries, name) {
            let i = slot(entries, name);
            assert(longer[i].name == name);
        }
        if name == printer.name {
            assert(longer[entries.len() as int].name == name);
        }
        if has_name(longer, name) {
            let i = slot(longer, name);
            if i < entries.len() {
                assert(entries[i].name == name);
            }
        }
    }
    assert forall|name: Seq<char>| has_name(longer, name) implies #[trigger] as_map(longer)[name]
        == as_map(entries).insert(printer.name, printer)[name] by {
        let i = slot(longer, name);
        lemma_slot(longer, i);
        if i < entries.len() {
            assert(entries[i].name == name);
            lemma_slot(entries, i);
        }
    }
    assert(as_map(longer) =~= as_map(entries).insert(printer.name, printer));
}

proof fn lemma_as_map_update(entries: Seq<PrinterView>, at: int, printer: PrinterView)
    requires
        unique_names(entries),
        0 <= at < entries.len(),
        entries[at].name == printer.name,
    ensures
        unique_names(entries.update(at, printer)),
        as_map(entries.update(at, printer)) == as_map(entries).insert(printer.name, printer),
{
    let changed = entries.update(at, printer);
    assert forall|i: int, j: int| 0 <= i < j < changed.len() implies (#[trigger] changed[i]).name
        != (#[trigger] changed[j]).name by {
        assert(entries[i].name != entries[j].name);
    }
    assert forall|name: Seq<char>| has_name(changed, name) <==> has_name(entries, name) by {
        if has_name(entries, name) {
            let i = slot(entries, name);
            assert(changed[i].name == name);
        }
        if has_name(changed, name) {
            let i = slot(changed, name);
            assert(entries[i].name == name);
        }
    }
    assert(has_name(entries, printer.name)) by {
        assert(entries[at].name == printer.name);
    }
    assert forall|name: Seq<char>| has_name(changed, name) implies #[trigger] as_map(changed)[name]
        == as_map(entries).insert(printer.name, printer)[name] by {
        let i = slot(changed, name);
        lemma_slot(changed, i);
        assert(entries[i].name == name);
        lemma_slot(entries, i);
    }
    assert(as_map(changed) =~= as_map(entries).insert(printer.name, printer));
}

/// The printers that discovery found, each under its name.
#[derive(Debug)]
pub struct PrinterDirectory {
    entries: Vec<Printer>,
}

impl View for PrinterDirectory {
    type V = Map<Seq<char>, PrinterView>;

    closed spec fn view(&self) -> Map<Seq<char>, PrinterView> {
        as_map(views(self.entries@))
    }
}

impl PrinterDirectory {
    #[verifier::type_invariant]
    spec fn inv(self) -> bool {
        unique_names(views(self.entries@))
    }

    /// The printers in the order in which their names first came.
    pub closed spec fn listed(&self) -> Seq<PrinterView> {
        views(self.entries@)
    }

    /// A directory without printers.
    pub fn new() -> (directory: PrinterDirectory)
        ensures
            directory@ == Map::<Seq<char>, PrinterView>::empty(),
            directory.listed() == Seq::<PrinterView>::empty(),
    {
        let directory = PrinterDirectory { entries: Vec::new() };
        assert(directory@ =~= Map::<Seq<char>, PrinterView>::empty());
        assert(directory.listed() =~= Seq::<PrinterView>::empty());
        directory
    }

    /// Files a printer under its name, in place of an earlier one of that name.
    pub fn insert(self, printer: Printer) -> (directory: PrinterDirectory)
        ensures
            directory@ == self@.insert(printer@.name, printer@),
            directory.listed() == enroll(self.listed(), printer@),
    {
        proof {
            use_type_invariant(&self);
        }
        let ghost before = views(self.entries@);
        let mut entries = self.entries;
        let mut i: usize = 0;
        while i < entries.len()
            invariant
                i <= entries.len(),
                before == views(entries@),
                self@ == as_map(before),
                self.listed() == before,
                unique_names(before),
                forall|k: int| 0 <= k < i ==> (#[trigger] before[k]).name != printer@.name,
            decreases entries.len() - i,
        {
            if same_text(entries[i].name.0.as_str(), printer.name.0.as_str()) {
                let ghost added = printer@;
                entries.set(i, printer);
                proof {
                    assert(before[i as int].name == added.name);
                    assert(views(entries@) =~= before.update(i as int, added));
                    lemma_as_map_update(before, i as int, added);
                    lemma_slot(before, i as int);
                }
                return PrinterDirectory { entries };
            }
            i += 1;
        }
        let ghost added = printer@;
        entries.push(printer);
        proof {
            assert(views(entries@) =~= before.push(added));
            lemma_as_map_push(before, added);
            assert(!has_name(before, added.name));
        }
        PrinterDirectory { entries }
    }

    /// The printer called `name`.
    pub fn get(&self, name: &PrinterName) -> (found: Option<&Printer>)
        ensures
            match found {
                Some(printer) => self@.contains_key(name@) && self@[name@] == printer@,
                None => !self@.contains_key(name@),
            },
    {
        proof {
            use_type_invariant(self);
        }
        let ghost all = views(self.entries@);
        let mut i: usize = 0;
        while i < self.entries.len()
            invariant
                i <= self.entries.len(),
                all == views(self.entries@),
                unique_names(all),
                forall|k: int| 0 <= k < i ==> (#[trigger] all[k]).name != name@,
            decreases self.entries.len() - i,
        {
            if same_text(self.entries[i].name.0.as_str(), name.0.as_str()) {
                proof {
                    assert(all[i as int].name == name@);
                    lemma_slot(all, i as int);
                }
                return Some(&self.entries[i]);
            }
            i += 1;
        }
        None
    }

    /// The number of printers.
    pub fn len(&self) -> (count: usize)
        ensures
            count == self@.len(),
            count == self.listed().len(),
            self@.dom().finite(),
    {
        proof {
            use_type_invariant(self);
            lemma_as_map_len(views(self.entries@));
        }
        self.entries.len()
    }

    /// The printers, each once, in the order in which their names first came.
    pub fn printers(&self) -> (all: &Vec<Printer>)
        ensures
            views(all@) == self.listed(),
            unique_names(self.listed()),
            self@ == as_map(self.listed()),
    {
        proof {
            use_type_invariant(self);
        }
        &self.entries
    }
}

proof fn lemma_as_map_len(entries: Seq<PrinterView>)
    requires
        unique_names(entries),
    ensures
        as_map(entries).dom().finite(),
        as_map(entries).len() == entries.len(),
    decreases entries.len(),
{
    if entries.len() == 0 {
        assert(as_map(entries) =~= Map::<Seq<char>, PrinterView>::empty());
    } else {
        let head = entries.drop_last();
        let last = entries.last();
        assert forall|i: int, j: int| 0 <= i < j < head.len() implies (#[trigger] head[i]).name != (
        #[trigger] head[j]).name by {
            assert(entries[i].name != entries[j].name);
        }
        if has_name(head, last.name) {
            let i = slot(head, last.name);
            assert(entries[i].name != entries[entries.len() - 1].name);
        }
        lemma_as_map_len(head);
        assert(head.push(last) =~= entries);
        lemma_as_map_push(head, last);
    }
}

/// A group list that fails at a shorter length fails in the same way at
/// its full length.
proof fn lemma_failure_stays(groups: Seq<GroupView>, upto: int)
    requires
        0 <= upto <= groups.len(),
        printers_of(groups.take(upto)) is Err,
    ensures
        printers_of(groups) == printers_of(groups.take(upto)),
    decreases groups.len() - upto,
{
    if upto == groups.len() {
        assert(groups.take(upto) =~= groups);
    } else {
        assert(groups.take(upto + 1).drop_last() =~= groups.take(upto));
        lemma_failure_stays(groups, upto + 1);
    }
}

/// Reads the printers out of a discovery response.
///
/// A response with a failing status, or without a printer group, gives
/// `NoPrinters`. The printer groups are read in their order; the first one
/// that lacks a required attribute gives `MissingAttribute` with that
/// attribute's name. Otherwise every printer group is in the directory under
/// its printer's name.
pub fn get_printers(response: &IppResponse) -> (outcome: Result<PrinterDirectory, PrinterError>)
    ensures
        match discovered(response@) {
            Ok(printers) => outcome matches Ok(directory) && directory@ == printers
                && directory.listed() == discovered_list(response@),
            Err(e) => outcome matches Err(x) && x@ == e,
        },
{
    if !response.is_success() {
        return Err(PrinterError::NoPrinters);
    }
    let ghost groups = response@.groups;
    let mut directory = PrinterDirectory::new();
    let mut found_any = false;
    let ghost mut read: Seq<PrinterView> = Seq::empty();
    let mut i: usize = 0;
    assert(groups.take(0) =~= Seq::<GroupView>::empty());
    while i < response.groups.len()
        invariant
            i <= response.groups.len(),
            groups == views(response.groups@),
            groups == response@.groups,
            is_success(response.status_code),
            printers_of(groups.take(i as int)) == Ok::<Seq<PrinterView>, Seq<char>>(read),
            directory@ == by_name(read),
            directory.listed() == enrolled(read),
            found_any == (read.len() > 0),
        decreases response.groups.len() - i,
    {
        proof {
            assert(groups.take(i as int + 1).drop_last() =~= groups.take(i as int));
            assert(groups.take(i as int + 1).last() == response.groups@[i as int]@);
        }
        match response.groups[i].tag {
            GroupTag::Printer => {
                match printer_from_group(&response.groups[i]) {
                    Ok(printer) => {
                        proof {
                            assert(read.push(printer@).drop_last() =~= read);
                            read = read.push(printer@);
                        }
                        directory = directory.insert(printer);
                        found_any = true;
                    },
                    Err(e) => {
                        proof {
                            lemma_failure_stays(groups, i as int + 1);
                        }
                        return Err(e);
                    },
                }
            },
            _ => {},
        }
        i += 1;
    }
    assert(groups.take(response.groups.len() as int) =~= groups);
    if !found_any {
        return Err(PrinterError::NoPrinters);
    }
    Ok(directory)
}

/// Reads the printers out of a discovery response and picks the one called
/// `printer_name`. What makes the reading fail makes this fail in the same
/// way; a name that no printer has gives `PrinterNotFound`.
pub fn get_printer(response: &IppResponse, printer_name: &PrinterName) -> (outcome: Result<
    Printer,
    PrinterError,
>)
    ensures
        match discovered(response@) {
            Ok(printers) => if printers.contains_key(printer_name@) {
                outcome matches Ok(printer) && printer@ == printers[printer_name@]
            } else {
                outcome matches Err(x) && x@ == ErrorView::PrinterNotFound(printer_name@)
            },
            Err(e) => outcome matches Err(x) && x@ == e,
        },
{
    let printers = match get_printers(response) {
        Ok(printers) => printers,
        Err(e) => {
            return Err(e);
        },
    };
    match printers.get(printer_name) {
        Some(printer) => Ok(printer.clone()),
        None => Err(PrinterError::PrinterNotFound(printer_name.0.clone())),
    }
}

} // verus!
