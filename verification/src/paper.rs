//! Paper geometry: from a vendor's media identifier to millimetres and pixels.
//!
//! A media identifier such as `iso_a4_210x297mm_full_bleed` is an opaque
//! string. Its physical size is inferred from an ordered table of substring
//! patterns, of which the first that occurs in the identifier decides. Lengths
//! are whole micrometres, so that every size of the table, the inch sizes
//! included, is exact.

use vstd::prelude::*;

use crate::error::{ErrorView, PrinterError};
use crate::text::{contains, lemma_occurs_in_longer, occurs_in};

verus! {

/// Micrometres in one inch.
pub const MICROMETRES_PER_INCH: u64 = 25_400;

/// A media size identifier as a printer reports it.
#[derive(Debug, PartialEq, Eq, Hash)]
pub struct PaperSize(pub String);

impl View for PaperSize {
    type V = Seq<char>;

    open spec fn view(&self) -> Seq<char> {
        self.0@
    }
}

impl Clone for PaperSize {
    fn clone(&self) -> (copy: PaperSize)
        ensures
            copy@ == self@,
    {
        PaperSize(self.0.clone())
    }
}

/// The physical size of a sheet, and whether it is printed without margins.
#[derive(Debug, Clone, Copy, PartialEq, Eq, Structural)]
pub struct PaperDimension {
    /// Width in micrometres.
    pub width_um: u32,
    /// Height in micrometres.
    pub height_um: u32,
    /// No margin is left around the print.
    pub borderless: bool,
}

/// One row of a size table: a substring and the sheet it stands for.
#[derive(Debug, Clone, Copy)]
pub struct SizePattern {
    /// Looked for in the media identifier, ignoring ASCII case.
    pub pattern: &'static str,
    /// Width in micrometres.
    pub width_um: u32,
    /// Height in micrometres.
    pub height_um: u32,
}

/// The built-in size table, in the order in which its rows are tried.
pub open spec fn size_patterns() -> Seq<SizePattern> {
    seq![
        SizePattern { pattern: "a4", width_um: 210_000, height_um: 297_000 },
        SizePattern { pattern: "a-4", width_um: 210_000, height_um: 297_000 },
        SizePattern { pattern: "b5", width_um: 182_000, height_um: 257_000 },
        SizePattern { pattern: "a6", width_um: 105_000, height_um: 148_000 },
        SizePattern { pattern: "na_letter", width_um: 215_900, height_um: 279_400 },
        SizePattern { pattern: "4x6in", width_um: 101_600, height_um: 152_400 },
        SizePattern { pattern: "3.5x5in", width_um: 88_900, height_um: 127_000 },
    ]
}

/// The built-in markers of borderless media, each looked for exactly as written.
pub open spec fn borderless_markers() -> Seq<&'static str> {
    seq!["full", "om_t"]
}

/// The row `table[i]` occurs in `id`.
pub open spec fn row_hits(table: Seq<SizePattern>, id: Seq<char>, i: int) -> bool {
    0 <= i < table.len() && occurs_in(id, table[i].pattern@, true)
}

/// The row `table[i]` occurs in `id`, and no row before it does.
pub open spec fn is_first_hit(table: Seq<SizePattern>, id: Seq<char>, i: int) -> bool {
    &&& row_hits(table, id, i)
    &&& forall|j: int| 0 <= j < i ==> !#[trigger] row_hits(table, id, j)
}

/// Some row of `table` occurs in `id`.
pub open spec fn recognized(table: Seq<SizePattern>, id: Seq<char>) -> bool {
    exists|i: int| #[trigger] row_hits(table, id, i)
}

/// The index of the first row of `table` that occurs in `id`; `table.len()`
/// where none does.
pub open spec fn first_hit(table: Seq<SizePattern>, id: Seq<char>) -> int {
    if recognized(table, id) {
        choose|i: int| is_first_hit(table, id, i)
    } else {
        table.len() as int
    }
}

/// Some marker of `markers` stands in `id`.
pub open spec fn has_marker(markers: Seq<&'static str>, id: Seq<char>) -> bool {
    exists|m: int| 0 <= m < markers.len() && occurs_in(id, #[trigger] markers[m]@, false)
}

/// What `id` resolves to under a size table and a list of borderless markers.
pub open spec fn resolve(table: Seq<SizePattern>, markers: Seq<&'static str>, id: Seq<char>) -> Option<
    PaperDimension,
> {
    if recognized(table, id) {
        let row = table[first_hit(table, id)];
        Some(
            PaperDimension {
                width_um: row.width_um,
                height_um: row.height_um,
                borderless: has_marker(markers, id),
            },
        )
    } else {
        None
    }
}

/// The number of pixels that `length_um` micrometres cover at `dpi` dots per
/// inch: the fraction is cut off, and a count beyond `u32::MAX` is held there.
pub open spec fn pixels(length_um: u32, dpi: u32) -> int {
    let exact = (length_um as int * dpi as int) / (MICROMETRES_PER_INCH as int);
    if exact > u32::MAX as int {
        u32::MAX as int
    } else {
        exact
    }
}

/// A pixel count is the number of whole pixels that fit in the length: the
/// length covers that many pixels and, unless the count is held at the top
/// of its range, not one more.
pub proof fn lemma_pixels_are_cut_off(length_um: u32, dpi: u32)
    ensures
        0 <= pixels(length_um, dpi) <= u32::MAX,
        pixels(length_um, dpi) * MICROMETRES_PER_INCH <= length_um * dpi,
        pixels(length_um, dpi) < u32::MAX ==> length_um * dpi < (pixels(length_um, dpi) + 1)
            * MICROMETRES_PER_INCH,
{
    let dots = length_um as int * dpi as int;
    assert(0 <= dots) by (nonlinear_arith)
        requires
            dots == length_um as int * dpi as int,
            0 <= length_um as int,
            0 <= dpi as int,
    ;
    vstd::arithmetic::div_mod::lemma_fundamental_div_mod(dots, MICROMETRES_PER_INCH as int);
    vstd::arithmetic::div_mod::lemma_mod_pos_bound(dots, MICROMETRES_PER_INCH as int);
    vstd::arithmetic::div_mod::lemma_div_pos_is_pos(dots, MICROMETRES_PER_INCH as int);
}

/// Two first hits of one identifier are the same row.
pub proof fn lemma_first_hit_is(table: Seq<SizePattern>, id: Seq<char>, i: int)
    requires
        is_first_hit(table, id, i),
    ensures
        recognized(table, id),
        first_hit(table, id) == i,
{
    assert(row_hits(table, id, i));
    let j = choose|j: int| is_first_hit(table, id, j);
    assert(is_first_hit(table, id, j));
    if j < i {
        assert(!row_hits(table, id, j));
    }
    if i < j {
        assert(!row_hits(table, id, i));
    }
}

/// Among the rows that occur in an identifier there is a first one.
pub proof fn lemma_first_hit_exists(table: Seq<SizePattern>, id: Seq<char>)
    requires
        recognized(table, id),
    ensures
        is_first_hit(table, id, first_hit(table, id)),
{
    let i = choose|i: int| #[trigger] row_hits(table, id, i);
    lemma_least_hit(table, id, i);
}

proof fn lemma_least_hit(table: Seq<SizePattern>, id: Seq<char>, i: int)
    requires
        row_hits(table, id, i),
    ensures
        exists|j: int| is_first_hit(table, id, j),
    decreases i,
{
    if exists|j: int| 0 <= j < i && #[trigger] row_hits(table, id, j) {
        let j = choose|j: int| 0 <= j < i && #[trigger] row_hits(table, id, j);
        lemma_least_hit(table, id, j);
    } else {
        assert(is_first_hit(table, id, i));
    }
}

/// Two rows stand for the same sheet.
pub open spec fn same_sheet(a: SizePattern, b: SizePattern) -> bool {
    a.width_um == b.width_um && a.height_um == b.height_um
}

/// Text added behind a recognized identifier leaves its size as it was,
/// unless the longer identifier holds a pattern that ranks ahead of the
/// identifier's own and stands for another sheet. A borderless identifier
/// stays borderless, and a marker in the added text makes the longer
/// identifier borderless.
pub proof fn lemma_suffix_keeps_size(
    table: Seq<SizePattern>,
    markers: Seq<&'static str>,
    id: Seq<char>,
    suffix: Seq<char>,
)
    requires
        recognized(table, id),
        forall|j: int|
            0 <= j < first_hit(table, id) && #[trigger] row_hits(table, id + suffix, j)
                ==> same_sheet(table[j], table[first_hit(table, id)]),
    ensures
        resolve(table, markers, id) is Some,
        resolve(table, markers, id + suffix) is Some,
        resolve(table, markers, id + suffix)->0.width_um == resolve(table, markers, id)->0.width_um,
        resolve(table, markers, id + suffix)->0.height_um == resolve(
            table,
            markers,
            id,
        )->0.height_um,
        resolve(table, markers, id)->0.borderless ==> resolve(
            table,
            markers,
            id + suffix,
        )->0.borderless,
        has_marker(markers, suffix) ==> resolve(table, markers, id + suffix)->0.borderless,
{
    let longer = id + suffix;
    let own = first_hit(table, id);
    lemma_first_hit_exists(table, id);
    assert(longer =~= Seq::<char>::empty() + id + suffix);
    lemma_occurs_in_longer(Seq::empty(), id, suffix, table[own].pattern@, true);
    assert(row_hits(table, longer, own));
    lemma_first_hit_exists(table, longer);
    let first = first_hit(table, longer);
    if own < first {
        assert(!row_hits(table, longer, own));
    }
    if has_marker(markers, id) {
        let m = choose|m: int| 0 <= m < markers.len() && occurs_in(id, #[trigger] markers[m]@, false);
        lemma_occurs_in_longer(Seq::empty(), id, suffix, markers[m]@, false);
    }
    if has_marker(markers, suffix) {
        let m = choose|m: int|
            0 <= m < markers.len() && occurs_in(suffix, #[trigger] markers[m]@, false);
        assert(longer =~= id + suffix + Seq::<char>::empty());
        lemma_occurs_in_longer(id, suffix, Seq::empty(), markers[m]@, false);
    }
}

/// Under the built-in table the exception of `lemma_suffix_keeps_size` is a
/// real one: where the longer identifier holds a pattern that ranks ahead of
/// the identifier's own and stands for another sheet, the size changes.
pub proof fn lemma_earlier_pattern_changes_size(id: Seq<char>, suffix: Seq<char>, earlier: int)
    requires
        recognized(size_patterns(), id),
        0 <= earlier < first_hit(size_patterns(), id),
        row_hits(size_patterns(), id + suffix, earlier),
        !same_sheet(size_patterns()[earlier], size_patterns()[first_hit(size_patterns(), id)]),
    ensures
        resolve(size_patterns(), borderless_markers(), id + suffix) is Some,
        !same_sheet(
            size_patterns()[first_hit(size_patterns(), id + suffix)],
            size_patterns()[first_hit(size_patterns(), id)],
        ),
{
    let table = size_patterns();
    let longer = id + suffix;
    let own = first_hit(table, id);
    lemma_first_hit_exists(table, id);
    lemma_first_hit_exists(table, longer);
    let first = first_hit(table, longer);
    if earlier < first {
        assert(!row_hits(table, longer, earlier));
    }
    assert(0 <= first <= earlier < own < 7);
    assert(table[0].width_um == 210_000 && table[1].width_um == 210_000);
    assert(table[2].width_um == 182_000 && table[3].width_um == 105_000);
    assert(table[4].width_um == 215_900 && table[5].width_um == 101_600);
    assert(table[6].width_um == 88_900);
}

/// The built-in size table.
pub fn size_pattern_table() -> (table: Vec<SizePattern>)
    ensures
        table@ == size_patterns(),
{
    let mut table: Vec<SizePattern> = Vec::new();
    table.push(SizePattern { pattern: "a4", width_um: 210_000, height_um: 297_000 });
    table.push(SizePattern { pattern: "a-4", width_um: 210_000, height_um: 297_000 });
    table.push(SizePattern { pattern: "b5", width_um: 182_000, height_um: 257_000 });
    table.push(SizePattern { pattern: "a6", width_um: 105_000, height_um: 148_000 });
    table.push(SizePattern { pattern: "na_letter", width_um: 215_900, height_um: 279_400 });
    table.push(SizePattern { pattern: "4x6in", width_um: 101_600, height_um: 152_400 });
    table.push(SizePattern { pattern: "3.5x5in", width_um: 88_900, height_um: 127_000 });
    assert(table@ =~= size_patterns());
    table
}

/// The built-in borderless markers.
pub fn borderless_marker_table() -> (markers: Vec<&'static str>)
    ensures
        markers@ == borderless_markers(),
{
    let mut markers: Vec<&'static str> = Vec::new();
    markers.push("full");
    markers.push("om_t");
    assert(markers@ =~= borderless_markers());
    markers
}

/// Whether one of `markers` stands in `id`.
pub fn is_borderless(id: &str, markers: &Vec<&'static str>) -> (found: bool)
    ensures
        found == has_marker(markers@, id@),
{
    let mut m: usize = 0;
    while m < markers.len()
        invariant
            m <= markers.len(),
            forall|k: int| 0 <= k < m ==> !occurs_in(id@, #[trigger] markers@[k]@, false),
        decreases markers.len() - m,
    {
        if contains(id, markers[m], false) {
            return true;
        }
        m += 1;
    }
    false
}

impl PaperSize {
    /// Resolves the identifier under a caller's size table and borderless
    /// markers: the first row of `table` that occurs in it gives the size.
    pub fn resolve_with(&self, table: &Vec<SizePattern>, markers: &Vec<&'static str>) -> (found: Option<
        PaperDimension,
    >)
        ensures
            found == resolve(table@, markers@, self@),
    {
        let mut i: usize = 0;
        while i < table.len()
            invariant
                i <= table.len(),
                forall|j: int| 0 <= j < i ==> !#[trigger] row_hits(table@, self@, j),
            decreases table.len() - i,
        {
            if contains(self.0.as_str(), table[i].pattern, true) {
                proof {
                    assert(row_hits(table@, self@, i as int));
                    lemma_first_hit_is(table@, self@, i as int);
                }
                let borderless = is_borderless(self.0.as_str(), markers);
                return Some(
                    PaperDimension {
                        width_um: table[i].width_um,
                        height_um: table[i].height_um,
                        borderless,
                    },
                );
            }
            i += 1;
        }
        None
    }

    /// Infers the sheet that the identifier names from the built-in size
    /// table. An identifier in which no row of the table occurs is refused:
    /// no size is ever guessed for it.
    pub fn guess_paper_dimensions(&self) -> (outcome: Result<PaperDimension, PrinterError>)
        ensures
            match resolve(size_patterns(), borderless_markers(), self@) {
                Some(dimension) => outcome == Ok::<PaperDimension, PrinterError>(dimension),
                None => outcome matches Err(e) && e@ == ErrorView::CannotInferGeometry(self@),
            },
    {
        let table = size_pattern_table();
        let markers = borderless_marker_table();
        match self.resolve_with(&table, &markers) {
            Some(dimension) => Ok(dimension),
            None => Err(PrinterError::CannotInferGeometry(self.0.clone())),
        }
    }
}

/// Converts a length to pixels at `dpi` dots per inch.
pub fn length_to_pixels(length_um: u32, dpi: u32) -> (count: u32)
    ensures
        count == pixels(length_um, dpi),
{
    assert(length_um as int * dpi as int <= 0xFFFF_FFFF * 0xFFFF_FFFF) by (nonlinear_arith)
        requires
            0 <= length_um as int <= 0xFFFF_FFFF,
            0 <= dpi as int <= 0xFFFF_FFFF,
    ;
    let dots: u64 = (length_um as u64) * (dpi as u64);
    let exact: u64 = dots / MICROMETRES_PER_INCH;
    if exact > u32::MAX as u64 {
        u32::MAX
    } else {
        exact as u32
    }
}

impl PaperDimension {
    /// The sheet in pixels at `dpi` dots per inch, width first. Both sides are
    /// converted alone and in the same way.
    pub fn to_pixel_dimensions(&self, dpi: u32) -> (size: (u32, u32))
        ensures
            size.0 == pixels(self.width_um, dpi),
            size.1 == pixels(self.height_um, dpi),
    {
        (length_to_pixels(self.width_um, dpi), length_to_pixels(self.height_um, dpi))
    }
}

} // verus!
