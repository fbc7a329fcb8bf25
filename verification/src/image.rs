//! Rasters of 8-bit RGBA pixels and their preparation for a sheet.
//!
//! Preparing a raster is: turn a landscape raster upright, lay every pixel
//! that is not opaque over a background colour, then scale and cut the
//! raster so that it fills the target size exactly.

use vstd::prelude::*;

use crate::error::{ErrorView, PrinterError};

verus! {

/// The error type of the `image` crate.
#[verifier::external_type_specification]
#[verifier::external_body]
pub struct ExImageError(::image::ImageError);

/// An opaque colour.
#[derive(Debug, Clone, Copy, PartialEq, Eq, Structural)]
pub struct Rgb {
    pub red: u8,
    pub green: u8,
    pub blue: u8,
}

impl Rgb {
    /// The channel with the given number: red, green, blue.
    pub open spec fn channel(self, c: int) -> u8 {
        if c == 0 {
            self.red
        } else if c == 1 {
            self.green
        } else {
            self.blue
        }
    }
}

/// White.
pub open spec fn white() -> Rgb {
    Rgb { red: 255, green: 255, blue: 255 }
}

/// The place of channel `c` of the pixel in column `x` of row `y` among the
/// bytes of a raster that is `width` pixels wide.
pub open spec fn offset(width: int, x: int, y: int, c: int) -> int {
    (y * width + x) * 4 + c
}

/// A raster as plain numbers: its size and its bytes, four to a pixel (red,
/// green, blue, alpha), row after row from the top left.
pub struct RasterView {
    pub width: int,
    pub height: int,
    pub pixels: Seq<u8>,
}

impl RasterView {
    /// The bytes are exactly those of `width` times `height` pixels.
    pub open spec fn wf(self) -> bool {
        &&& 0 <= self.width <= u32::MAX
        &&& 0 <= self.height <= u32::MAX
        &&& self.pixels.len() == self.width * self.height * 4
    }

    /// Channel `c` of the pixel in column `x` of row `y`.
    pub open spec fn channel(self, x: int, y: int, c: int) -> u8 {
        self.pixels[offset(self.width, x, y, c)]
    }

    /// The raster is wider than high.
    pub open spec fn is_landscape(self) -> bool {
        self.width > self.height
    }
}

/// A raster of 8-bit RGBA pixels.
#[derive(Debug)]
pub struct RasterImage {
    width: u32,
    height: u32,
    pixels: Vec<u8>,
}

impl View for RasterImage {
    type V = RasterView;

    closed spec fn view(&self) -> RasterView {
        RasterView { width: self.width as int, height: self.height as int, pixels: self.pixels@ }
    }
}

/// One channel laid over a background: `(src * alpha + bg * (255 - alpha)) / 255`.
pub open spec fn blend(src: u8, alpha: u8, background: u8) -> u8 {
    ((src as int * alpha as int + background as int * (255 - alpha as int)) / 255) as u8
}

/// Byte `i` of a raster after its pixels were laid over `background`: a
/// pixel that is opaque keeps its bytes, any other has its three colours
/// blended and its alpha set to 255.
pub open spec fn flattened_byte(pixels: Seq<u8>, background: Rgb, i: int) -> u8 {
    let c = i % 4;
    let alpha = pixels[i - c + 3];
    if alpha == 255 {
        pixels[i]
    } else if c == 3 {
        255u8
    } else {
        blend(pixels[i], alpha, background.channel(c))
    }
}

/// The bytes of a raster after its pixels were laid over `background`.
pub open spec fn flattened(pixels: Seq<u8>, background: Rgb) -> Seq<u8> {
    Seq::new(pixels.len(), |i: int| flattened_byte(pixels, background, i))
}

/// A raster in which every pixel is opaque is left as it is.
pub proof fn lemma_opaque_is_unchanged(pixels: Seq<u8>, background: Rgb)
    requires
        forall|i: int| 0 <= i < pixels.len() && i % 4 == 3 ==> pixels[i] == 255,
        pixels.len() % 4 == 0,
    ensures
        flattened(pixels, background) == pixels,
{
    assert forall|i: int| 0 <= i < pixels.len() implies flattened_byte(pixels, background, i)
        == pixels[i] by {
        let c = i % 4;
        assert((i - c + 3) % 4 == 3);
        assert(i - c + 3 < pixels.len());
    }
    assert(flattened(pixels, background) =~= pixels);
}

/// No pixel of a flattened raster is transparent.
pub proof fn lemma_flattened_is_opaque(pixels: Seq<u8>, background: Rgb)
    requires
        pixels.len() % 4 == 0,
    ensures
        forall|i: int|
            0 <= i < pixels.len() && i % 4 == 3 ==> #[trigger] flattened(pixels, background)[i]
                == 255,
{
}

/// Flattening a flattened raster changes nothing.
pub proof fn lemma_flattening_twice_is_once(pixels: Seq<u8>, background: Rgb, again: Rgb)
    requires
        pixels.len() % 4 == 0,
    ensures
        flattened(flattened(pixels, background), again) == flattened(pixels, background),
{
    lemma_flattened_is_opaque(pixels, background);
    lemma_opaque_is_unchanged(flattened(pixels, background), again);
}

impl RasterImage {
    #[verifier::type_invariant]
    spec fn inv(self) -> bool {
        self.pixels@.len() == self.width as int * self.height as int * 4
    }

    /// Makes a raster of `width` times `height` pixels from its bytes, where
    /// there are exactly four bytes for each pixel.
    pub fn new(width: u32, height: u32, pixels: Vec<u8>) -> (made: Option<RasterImage>)
        ensures
            match made {
                Some(image) => image@ == (RasterView {
                    width: width as int,
                    height: height as int,
                    pixels: pixels@,
                }) && image@.wf(),
                None => pixels@.len() != width as int * height as int * 4,
            },
    {
        assert(width as int * height as int <= 0xFFFF_FFFF * 0xFFFF_FFFF) by (nonlinear_arith)
            requires
                0 <= width as int <= 0xFFFF_FFFF,
                0 <= height as int <= 0xFFFF_FFFF,
        ;
        let count: u64 = (width as u64) * (height as u64);
        let given: usize = pixels.len();
        if count > (usize::MAX / 4) as u64 {
            return None;
        }
        if given != (count as usize) * 4 {
            return None;
        }
        Some(RasterImage { width, height, pixels })
    }

    /// The width in pixels.
    pub fn width(&self) -> (width: u32)
        ensures
            width == self@.width,
            self@.wf(),
    {
        proof {
            use_type_invariant(self);
        }
        self.width
    }

    /// The height in pixels.
    pub fn height(&self) -> (height: u32)
        ensures
            height == self@.height,
            self@.wf(),
    {
        proof {
            use_type_invariant(self);
        }
        self.height
    }

    /// The bytes, four to a pixel, row after row.
    pub fn pixels(&self) -> (pixels: &Vec<u8>)
        ensures
            pixels@ == self@.pixels,
            self@.wf(),
    {
        proof {
            use_type_invariant(self);
        }
        &self.pixels
    }
}

/// Lays one channel over a background.
pub fn blend_channel(src: u8, alpha: u8, background: u8) -> (out: u8)
    ensures
        out == blend(src, alpha, background),
{
    assert(src as int * alpha as int + background as int * (255 - alpha as int) <= 65025)
        by (nonlinear_arith)
        requires
            0 <= src as int <= 255,
            0 <= alpha as int <= 255,
            0 <= background as int <= 255,
    ;
    assert(0 <= src as int * alpha as int <= 65025) by (nonlinear_arith)
        requires
            0 <= src as int <= 255,
            0 <= alpha as int <= 255,
    ;
    assert(0 <= background as int * (255 - alpha as int) <= 65025) by (nonlinear_arith)
        requires
            0 <= background as int <= 255,
            0 <= alpha as int <= 255,
    ;
    let sum: u16 = (src as u16) * (alpha as u16) + (background as u16) * (255 - alpha as u16);
    (sum / 255) as u8
}

/// Lays every pixel that is not opaque over `bg_color`. The raster that
/// comes back has the same size and no transparency: many printers refuse
/// rasters with an alpha channel.
pub fn remove_alpha(img: &RasterImage, bg_color: Rgb) -> (out: RasterImage)
    ensures
        out@.width == img@.width,
        out@.height == img@.height,
        out@.pixels == flattened(img@.pixels, bg_color),
        out@.wf(),
{
    proof {
        use_type_invariant(img);
    }
    let ghost target = flattened(img.pixels@, bg_color);
    let total: usize = img.pixels.len();
    let mut pixels: Vec<u8> = Vec::new();
    let mut i: usize = 0;
    assert(pixels@ =~= target.take(0));
    while i < total
        invariant
            i <= total,
            i % 4 == 0,
            total % 4 == 0,
            total == img.pixels@.len(),
            target == flattened(img.pixels@, bg_color),
            pixels@ == target.take(i as int),
        decreases total - i,
    {
        let alpha = img.pixels[i + 3];
        if alpha < 255 {
            pixels.push(blend_channel(img.pixels[i], alpha, bg_color.red));
            pixels.push(blend_channel(img.pixels[i + 1], alpha, bg_color.green));
            pixels.push(blend_channel(img.pixels[i + 2], alpha, bg_color.blue));
            pixels.push(255);
        } else {
            pixels.push(img.pixels[i]);
            pixels.push(img.pixels[i + 1]);
            pixels.push(img.pixels[i + 2]);
            pixels.push(alpha);
        }
        assert(pixels@ =~= target.take(i as int + 4));
        i += 4;
    }
    assert(target.take(total as int) =~= target);
    RasterImage { width: img.width, height: img.height, pixels }
}

/// A raster after a quarter turn to the right. Byte by byte: the pixel in
/// column `k` of row `r` of the turned raster is the one that stood in
/// column `r` of the source, as far from the bottom as `k` is from the left.
pub open spec fn quarter_turn(src: RasterView) -> RasterView {
    RasterView {
        width: src.height,
        height: src.width,
        pixels: Seq::new(
            src.pixels.len(),
            |i: int|
                {
                    let cell = i / 4;
                    let k = cell % src.height;
                    let r = cell / src.height;
                    src.channel(r, src.height - 1 - k, i % 4)
                },
        ),
    }
}

/// `turned` is `src` after a quarter turn to the right: the pixel in column
/// `x` of row `y` has gone to row `x`, into the column that is as far from
/// the right edge as `y` was from the top.
pub open spec fn is_quarter_turn(src: RasterView, turned: RasterView) -> bool {
    &&& turned.width == src.height
    &&& turned.height == src.width
    &&& forall|x: int, y: int, c: int|
        0 <= x < src.width && 0 <= y < src.height && 0 <= c < 4 ==> turned.channel(
            src.height - 1 - y,
            x,
            c,
        ) == #[trigger] src.channel(x, y, c)
}

/// `quarter_turn` moves every pixel as a quarter turn to the right does.
pub proof fn lemma_quarter_turn_moves_pixels(src: RasterView)
    requires
        src.wf(),
    ensures
        quarter_turn(src).wf(),
        is_quarter_turn(src, quarter_turn(src)),
{
    let turned = quarter_turn(src);
    assert(src.width * src.height * 4 == src.height * src.width * 4) by (nonlinear_arith);
    assert forall|x: int, y: int, c: int|
        0 <= x < src.width && 0 <= y < src.height && 0 <= c < 4 implies turned.channel(
        src.height - 1 - y,
        x,
        c,
    ) == #[trigger] src.channel(x, y, c) by {
        let k = src.height - 1 - y;
        let cell = x * src.height + k;
        let i = offset(src.height, k, x, c);
        lemma_cell_in_raster(src.height, src.width, k, x);
        assert(src.height * src.width * 4 == src.pixels.len()) by (nonlinear_arith)
            requires
                src.pixels.len() == src.width * src.height * 4,
        ;
        assert(0 <= i < src.pixels.len());
        assert(i / 4 == cell && i % 4 == c);
        vstd::arithmetic::div_mod::lemma_fundamental_div_mod_converse(cell, src.height, x, k);
    }
}

proof fn lemma_cell_before(width: int, x0: int, y0: int, x1: int, y1: int)
    requires
        0 <= x0 < width,
        0 <= x1 <= width,
        0 <= y0,
        y0 < y1 || (y0 == y1 && x0 < x1),
    ensures
        0 <= y0 * width + x0 < y1 * width + x1,
{
    assert(0 <= y0 * width) by (nonlinear_arith)
        requires
            0 <= y0,
            0 < width,
    ;
    if y0 < y1 {
        assert((y0 + 1) * width <= y1 * width) by (nonlinear_arith)
            requires
                y0 + 1 <= y1,
                0 < width,
        ;
        assert((y0 + 1) * width == y0 * width + width) by (nonlinear_arith);
    }
}

proof fn lemma_cell_in_raster(width: int, height: int, x: int, y: int)
    requires
        0 <= x < width,
        0 <= y < height,
    ensures
        0 <= y * width + x < width * height,
{
    lemma_cell_before(width, x, y, 0, height);
    assert(height * width == width * height) by (nonlinear_arith);
}

/// Turns a raster a quarter turn to the right.
pub fn rotate90(img: &RasterImage) -> (out: RasterImage)
    ensures
        out@ == quarter_turn(img@),
        out@.wf(),
{
    proof {
        use_type_invariant(img);
    }
    let width: usize = img.width as usize;
    let height: usize = img.height as usize;
    let ghost src = img.pixels@;
    let total: usize = img.pixels.len();
    let mut pixels: Vec<u8> = Vec::new();
    let mut row: usize = 0;
    while row < width
        invariant
            row <= width,
            width == img.width,
            height == img.height,
            src == img.pixels@,
            src.len() == width * height * 4,
            src.len() == total,
            pixels@.len() == row * height * 4,
            forall|k: int, r: int, c: int|
                0 <= r < row && 0 <= k < height && 0 <= c < 4 ==> pixels@[#[trigger] offset(
                    height as int,
                    k,
                    r,
                    c,
                )] == src[offset(width as int, r, height - 1 - k, c)],
        decreases width - row,
    {
        let mut column: usize = 0;
        while column < height
            invariant
                row < width,
                column <= height,
                width == img.width,
                height == img.height,
                src == img.pixels@,
                src.len() == width * height * 4,
                src.len() == total,
                pixels@.len() == (row * height + column) * 4,
                forall|k: int, r: int, c: int|
                    (0 <= r < row || (r == row && k < column)) && 0 <= k < height && 0 <= c < 4
                        ==> pixels@[#[trigger] offset(height as int, k, r, c)] == src[offset(
                        width as int,
                        r,
                        height - 1 - k,
                        c,
                    )],
            decreases height - column,
        {
            proof {
                lemma_cell_in_raster(width as int, height as int, row as int, height - 1 - column);
                lemma_cell_in_raster(height as int, width as int, column as int, row as int);
            }
            let from: usize = ((height - 1 - column) * width + row) * 4;
            let ghost before = pixels@;
            pixels.push(img.pixels[from]);
            pixels.push(img.pixels[from + 1]);
            pixels.push(img.pixels[from + 2]);
            pixels.push(img.pixels[from + 3]);
            proof {
                assert forall|k: int, r: int, c: int|
                    (0 <= r < row || (r == row && k < column + 1)) && 0 <= k < height && 0 <= c
                        < 4 implies pixels@[#[trigger] offset(height as int, k, r, c)] == src[offset(
                    width as int,
                    r,
                    height - 1 - k,
                    c,
                )] by {
                    if r == row && k == column {
                    } else {
                        lemma_cell_before(height as int, k, r, column as int, row as int);
                        assert(pixels@[offset(height as int, k, r, c)] == before[offset(
                            height as int,
                            k,
                            r,
                            c,
                        )]);
                    }
                }
            }
            column += 1;
        }
        proof {
            assert((row * height + height) * 4 == (row + 1) * height * 4) by (nonlinear_arith);
        }
        row += 1;
    }
    proof {
        assert(width * height * 4 == height * width * 4) by (nonlinear_arith);
    }
    let out = RasterImage { width: img.height, height: img.width, pixels };
    proof {
        let turned = quarter_turn(img@);
        assert forall|i: int| 0 <= i < out@.pixels.len() implies out@.pixels[i]
            == turned.pixels[i] by {
            let cell = i / 4;
            let c = i % 4;
            let k = cell % (height as int);
            let r = cell / (height as int);
            assert(height > 0) by (nonlinear_arith)
                requires
                    width * height * 4 > 0,
                    width >= 0,
                    height >= 0,
            ;
            vstd::arithmetic::div_mod::lemma_fundamental_div_mod(cell, height as int);
            vstd::arithmetic::div_mod::lemma_mod_pos_bound(cell, height as int);
            assert(0 <= r < width) by (nonlinear_arith)
                requires
                    cell == height * r + k,
                    0 <= k < height,
                    0 <= cell,
                    cell * 4 < width * height * 4,
            ;
            assert(offset(height as int, k, r, c) == i) by (nonlinear_arith)
                requires
                    cell == height * r + k,
                    i == cell * 4 + c,
            ;
            assert(out@.pixels[offset(height as int, k, r, c)] == src[offset(
                width as int,
                r,
                height - 1 - k,
                c,
            )]);
        }
        assert(out@.pixels =~= turned.pixels);
    }
    out
}

/// A raster with its longer side upright: a landscape raster is turned a
/// quarter turn to the right, any other is left as it is.
pub open spec fn upright(src: RasterView) -> RasterView {
    if src.is_landscape() {
        quarter_turn(src)
    } else {
        src
    }
}

/// A raster made ready for scaling: upright, and laid over white.
pub open spec fn prepared_source(src: RasterView) -> RasterView {
    let turned = upright(src);
    RasterView {
        width: turned.width,
        height: turned.height,
        pixels: flattened(turned.pixels, white()),
    }
}

/// The larger of two numbers.
pub open spec fn larger(a: int, b: int) -> int {
    if a >= b {
        a
    } else {
        b
    }
}

/// A length that no side of the source, of the target, or of the raster that
/// is scaled before it is cut to size, comes up to. The scaled raster has one
/// side of the target and the other as the source's proportions give it.
pub open spec fn fill_side_bound(src_width: int, src_height: int, to_width: int, to_height: int) -> int {
    let scaled_width = (src_width * to_height) / src_height;
    let scaled_height = (src_height * to_width) / src_width;
    larger(
        larger(src_width, src_height),
        larger(larger(to_width, to_height), larger(scaled_width, scaled_height)),
    ) + 2
}

/// Whether a source of the given size can be scaled to fill the target: it
/// has pixels, and a square raster with `fill_side_bound` to a side and
/// sixteen bytes to a pixel has no more than `isize::MAX` bytes.
pub open spec fn fits_fill(src_width: int, src_height: int, to_width: int, to_height: int) -> bool {
    &&& src_width > 0
    &&& src_height > 0
    &&& {
        let side = fill_side_bound(src_width, src_height, to_width, to_height);
        16 * side * side <= isize::MAX
    }
}

/// Whether a raster can be prepared for the target size.
pub open spec fn can_prepare(src: RasterView, to_width: int, to_height: int) -> bool {
    fits_fill(upright(src).width, upright(src).height, to_width, to_height)
}

/// Tests whether a source of the given size can be scaled to fill the target.
pub fn can_fill(src_width: u32, src_height: u32, to_width: u32, to_height: u32) -> (fits: bool)
    ensures
        fits == fits_fill(src_width as int, src_height as int, to_width as int, to_height as int),
{
    if src_width == 0 || src_height == 0 {
        return false;
    }
    assert(src_width as int * to_height as int <= 0xFFFF_FFFF * 0xFFFF_FFFF) by (nonlinear_arith)
        requires
            0 <= src_width as int <= 0xFFFF_FFFF,
            0 <= to_height as int <= 0xFFFF_FFFF,
    ;
    assert(src_height as int * to_width as int <= 0xFFFF_FFFF * 0xFFFF_FFFF) by (nonlinear_arith)
        requires
            0 <= src_height as int <= 0xFFFF_FFFF,
            0 <= to_width as int <= 0xFFFF_FFFF,
    ;
    let scaled_width: u64 = (src_width as u64) * (to_height as u64) / (src_height as u64);
    let scaled_height: u64 = (src_height as u64) * (to_width as u64) / (src_width as u64);
    let mut side: u64 = src_width as u64;
    if src_height as u64 > side {
        side = src_height as u64;
    }
    if to_width as u64 > side {
        side = to_width as u64;
    }
    if to_height as u64 > side {
        side = to_height as u64;
    }
    if scaled_width > side {
        side = scaled_width;
    }
    if scaled_height > side {
        side = scaled_height;
    }
    assert(side + 2 == fill_side_bound(
        src_width as int,
        src_height as int,
        to_width as int,
        to_height as int,
    ));
    if side >= 0x7FFF_FFFF {
        assert(16 * (side + 2) * (side + 2) > isize::MAX) by (nonlinear_arith)
            requires
                side >= 0x7FFF_FFFF,
                isize::MAX <= 0x7FFF_FFFF_FFFF_FFFF,
        ;
        return false;
    }
    let side: u64 = side + 2;
    assert(16 * side * side <= 16 * 0x8000_0001 * 0x8000_0001) by (nonlinear_arith)
        requires
            0 <= side <= 0x8000_0001,
    ;
    assert(0 <= side * side <= 0x8000_0001 * 0x8000_0001) by (nonlinear_arith)
        requires
            0 <= side <= 0x8000_0001,
    ;
    let need: u128 = 16 * ((side as u128) * (side as u128));
    assert(need == 16 * side * side) by (nonlinear_arith)
        requires
            need == 16 * (side * side),
    ;
    need <= isize::MAX as u128
}

impl RasterImage {
    /// A copy of the raster.
    pub fn duplicate(&self) -> (copy: RasterImage)
        ensures
            copy@ == self@,
            copy@.wf(),
    {
        proof {
            use_type_invariant(self);
        }
        RasterImage { width: self.width, height: self.height, pixels: self.pixels.clone() }
    }
}

/// Turns a landscape raster upright and copies any other.
pub fn make_upright(img: &RasterImage) -> (out: RasterImage)
    ensures
        out@ == upright(img@),
        out@.wf(),
{
    if img.width() > img.height() {
        rotate90(img)
    } else {
        img.duplicate()
    }
}

/// Makes a raster ready for scaling: upright, and laid over white.
pub fn prepare_source(img: &RasterImage) -> (out: RasterImage)
    ensures
        out@ == prepared_source(img@),
        out@.wf(),
{
    let turned = make_upright(img);
    let flat = remove_alpha(&turned, Rgb { red: 255, green: 255, blue: 255 });
    flat
}

/// Scales and cuts a raster so that it fills the target size exactly, by
/// `DynamicImage::resize_to_fill` of the `image` crate with its `Lanczos3`
/// filter.
///
/// The crate scales the raster, keeping its proportions, until it covers the
/// target, and cuts the middle out of what it got: the raster that comes back
/// has the target's width and height. Scaling to the raster's own size copies
/// it. What the pixels hold otherwise is the filter's matter and is left open
/// here.
///
/// The crate panics where a buffer of it would pass `isize::MAX` bytes, and
/// is not made for a source without pixels. On the way it holds a raster of
/// four 32-bit samples to a pixel, as wide as the source and as high as the
/// scaled raster, and the scaled raster itself; `fits_fill` keeps every side
/// of these under `fill_side_bound` and so the buffers within their limit.
#[verifier::external_body]
fn resize_to_fill(img: &RasterImage, to_width: u32, to_height: u32) -> (out: RasterImage)
    requires
        img@.wf(),
        fits_fill(img@.width, img@.height, to_width as int, to_height as int),
    ensures
        out@.width == to_width,
        out@.height == to_height,
        out@.wf(),
        to_width == img@.width && to_height == img@.height ==> out@.pixels == img@.pixels,
{
    let buffer = ::image::RgbaImage::from_raw(img.width, img.height, img.pixels.clone()).unwrap();
    let scaled = ::image::DynamicImage::ImageRgba8(buffer).resize_to_fill(
        to_width,
        to_height,
        ::image::imageops::FilterType::Lanczos3,
    );
    RasterImage { width: scaled.width(), height: scaled.height(), pixels: scaled.into_rgba8().into_raw() }
}

/// The four bytes of a 32-bit number, the highest first.
pub open spec fn big_endian(n: int) -> Seq<u8> {
    seq![
        (n / 0x100_0000) as u8,
        (n / 0x1_0000 % 0x100) as u8,
        (n / 0x100 % 0x100) as u8,
        (n % 0x100) as u8,
    ]
}

/// How the PNG stream of a raster of 8-bit RGBA pixels begins: the eight
/// bytes of the PNG signature, then the header chunk with its length of 13,
/// its name `IHDR`, the width and the height, 8 bits to a sample, colour type
/// 6 (red, green, blue, alpha), and three zeros for the standard compression,
/// the standard filtering and no interlacing.
pub open spec fn png_header(width: int, height: int) -> Seq<u8> {
    seq![137u8, 80, 78, 71, 13, 10, 26, 10, 0, 0, 0, 13, 73, 72, 68, 82] + big_endian(width)
        + big_endian(height) + seq![8u8, 6, 0, 0, 0]
}

/// Encodes a raster as PNG, by `DynamicImage::write_to` of the `image` crate
/// with `ImageFormat::Png`, into memory.
///
/// The crate refuses a raster without width or height and takes every
/// other: it writes into a buffer of its own, and 8-bit red, green, blue and
/// alpha is a pixel form that PNG has. What it writes begins with the PNG
/// signature and the header chunk, which names the raster's width and height
/// and the form of its pixels. Nothing is claimed of the bytes that follow,
/// which depend on the compressor.
#[verifier::external_body]
fn write_png(img: &RasterImage) -> (encoded: Result<Vec<u8>, ::image::ImageError>)
    requires
        img@.wf(),
    ensures
        encoded is Ok <==> (img@.width > 0 && img@.height > 0),
        encoded matches Ok(bytes) ==> png_header(img@.width, img@.height).is_prefix_of(bytes@),
{
    let buffer = ::image::RgbaImage::from_raw(img.width, img.height, img.pixels.clone()).unwrap();
    let mut out = std::io::Cursor::new(Vec::new());
    ::image::DynamicImage::ImageRgba8(buffer).write_to(&mut out, ::image::ImageFormat::Png)?;
    Ok(out.into_inner())
}

/// Prepares a raster for a sheet of `to_width` by `to_height` pixels: turns
/// it upright if it is landscape, lays it over white, then scales and cuts it
/// so that it fills the target with nothing left over or added.
///
/// There is a result exactly where the raster has pixels and the scaled
/// raster has room in memory. A raster that already has the target's size
/// when upright is only laid over white.
pub fn crop(img: &RasterImage, to_width: u32, to_height: u32) -> (out: Option<RasterImage>)
    ensures
        out is Some <==> can_prepare(img@, to_width as int, to_height as int),
        out matches Some(raster) ==> {
            &&& raster@.wf()
            &&& raster@.width == to_width
            &&& raster@.height == to_height
            &&& (to_width == upright(img@).width && to_height == upright(img@).height
                ==> raster@ == prepared_source(img@))
        },
{
    let (width, height) = if img.width() > img.height() {
        (img.height(), img.width())
    } else {
        (img.width(), img.height())
    };
    if !can_fill(width, height, to_width, to_height) {
        return None;
    }
    let source = prepare_source(img);
    Some(resize_to_fill(&source, to_width, to_height))
}

/// Encodes a raster as PNG for transmission.
///
/// A raster with width and height is encoded: what comes back is a PNG
/// stream, which begins with the PNG signature and a header that names the
/// raster's width and height and pixels of 8-bit red, green, blue and alpha.
/// A raster without width or height has no encoding and gives
/// `EncodingFailed`.
pub fn encode(img: &RasterImage) -> (encoded: Result<Vec<u8>, PrinterError>)
    ensures
        encoded is Ok <==> (img@.width > 0 && img@.height > 0),
        match encoded {
            Ok(bytes) => png_header(img@.width, img@.height).is_prefix_of(bytes@),
            Err(e) => e@ == ErrorView::EncodingFailed,
        },
{
    proof {
        use_type_invariant(img);
    }
    match write_png(img) {
        Ok(bytes) => Ok(bytes),
        Err(_) => Err(PrinterError::EncodingFailed),
    }
}

} // verus!
