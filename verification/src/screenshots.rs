//! Captured stills: their pixels, where they go, the size a composed
//! screenshot may be, and cutting a rectangle out of one.
use vstd::prelude::*;
use vstd::string::*;

verus! {

/// A captured still: straight (not premultiplied) RGBA8, packed rows, top
/// down.
pub struct CapturedImage {
    pub rgba: Vec<u8>,
    pub width: u32,
    pub height: u32,
}

impl CapturedImage {
    /// Whether the pixels are exactly `width` by `height` RGBA pixels.
    pub open spec fn is_whole(&self) -> bool {
        self.rgba@.len() == self.width * self.height * 4
    }

    /// A copy of the image.
    pub fn duplicate(&self) -> (r: CapturedImage)
        ensures
            r.rgba@ == self.rgba@,
            r.width == self.width,
            r.height == self.height,
    {
        CapturedImage { rgba: self.rgba.clone(), width: self.width, height: self.height }
    }
}

/// Where a still goes.
#[derive(Clone, Copy, Debug, PartialEq, Eq, Structural)]
pub enum ScreenshotDestination {
    /// To the export window, where the user names it and picks where it goes.
    Export,
    /// To the clipboard.
    Clipboard,
    /// To the clipboard, and to the export window.
    Both,
}

impl Default for ScreenshotDestination {
    /// A still goes to the clipboard unless asked otherwise.
    fn default() -> (r: ScreenshotDestination)
        ensures
            r == ScreenshotDestination::Clipboard,
    {
        ScreenshotDestination::Clipboard
    }
}

impl ScreenshotDestination {
    /// Whether the still is copied to the clipboard.
    pub fn copies_to_clipboard(self) -> (r: bool)
        ensures
            r == (self != ScreenshotDestination::Export),
    {
        match self {
            ScreenshotDestination::Export => false,
            ScreenshotDestination::Clipboard => true,
            ScreenshotDestination::Both => true,
        }
    }

    /// Whether the export window is opened on the still. When it is not, the
    /// recording controls are hidden once the still is on the clipboard.
    pub fn opens_export(self) -> (r: bool)
        ensures
            r == (self != ScreenshotDestination::Clipboard),
    {
        match self {
            ScreenshotDestination::Export => true,
            ScreenshotDestination::Clipboard => false,
            ScreenshotDestination::Both => true,
        }
    }
}

/// The most pixels a composed screenshot may have.
pub const MAX_OUTPUT_PIXELS: u64 = 120_000_000;

/// The smallest edge a composed screenshot may have.
pub const MIN_OUTPUT_EDGE: u32 = 64;

/// Whether a composed screenshot may be `width` by `height`: both edges at
/// least `MIN_OUTPUT_EDGE` and at most `MAX_OUTPUT_PIXELS` pixels.
pub open spec fn output_size_is_valid(width: u32, height: u32) -> bool {
    width >= MIN_OUTPUT_EDGE && height >= MIN_OUTPUT_EDGE && width * height <= MAX_OUTPUT_PIXELS
}

/// The size a composed screenshot is drawn at, or the refusal of one that is
/// too small or too large.
pub fn output_dimensions(width: u32, height: u32) -> (r: Result<(u32, u32), String>)
    ensures
        output_size_is_valid(width, height) ==> r == Ok::<(u32, u32), String>((width, height)),
        !output_size_is_valid(width, height) ==> (r matches Err(m) && m@
            == "The screenshot output dimensions are not valid"@),
{
    assert((width as u64) * (height as u64) <= 0xffff_ffff * 0xffff_ffff) by (nonlinear_arith)
        requires
            width <= 0xffff_ffff,
            height <= 0xffff_ffff,
    ;
    if width < MIN_OUTPUT_EDGE || height < MIN_OUTPUT_EDGE || (width as u64) * (height as u64)
        > MAX_OUTPUT_PIXELS {
        return Err(String::from_str("The screenshot output dimensions are not valid"));
    }
    Ok((width, height))
}

/// A rectangle of whole pixels.
#[derive(Clone, Copy, Debug, PartialEq, Eq, Structural)]
pub struct PixelRect {
    pub x: u32,
    pub y: u32,
    pub width: u32,
    pub height: u32,
}

/// Whether `rect` lies within an image of `width` by `height` pixels.
pub open spec fn rect_fits(rect: PixelRect, width: u32, height: u32) -> bool {
    rect.x + rect.width <= width && rect.y + rect.height <= height
}

/// Byte `c` of pixel (`x`, `y`) of `rect` cut out of an image `width` pixels
/// wide.
pub open spec fn cropped_byte(rgba: Seq<u8>, width: int, rect: PixelRect, x: int, y: int, c: int) -> u8 {
    rgba[((rect.y + y) * width + rect.x + x) * 4 + c]
}

proof fn lemma_source_in_bounds(image_width: int, image_height: int, rect: PixelRect, x: int, y: int)
    requires
        rect.x + rect.width <= image_width,
        rect.y + rect.height <= image_height,
        0 <= x < rect.width,
        0 <= y < rect.height,
    ensures
        0 <= ((rect.y + y) * image_width + rect.x + x) * 4 + 4 <= image_width * image_height * 4,
{
    assert(((rect.y + y) * image_width + rect.x + x) * 4 + 4 <= image_width * image_height * 4)
        by (nonlinear_arith)
        requires
            rect.x + rect.width <= image_width,
            rect.y + rect.height <= image_height,
            0 <= x < rect.width,
            0 <= y < rect.height,
    ;
    assert(0 <= ((rect.y + y) * image_width + rect.x + x) * 4) by (nonlinear_arith)
        requires
            0 <= rect.y,
            0 <= rect.x,
            0 <= x,
            0 <= y,
            0 <= image_width,
    ;
}

proof fn lemma_row_prefix(w: int, x: int, y: int, c: int, row: int)
    requires
        0 <= x < w,
        0 <= y < row,
        0 <= c < 4,
    ensures
        (y * w + x) * 4 + c < row * w * 4,
{
    assert((y * w + x) * 4 + c < row * w * 4) by (nonlinear_arith)
        requires
            0 <= x < w,
            0 <= y < row,
            0 <= c < 4,
    ;
}

/// The pixels of `rect`, cut out of a whole image that contains it.
pub fn crop(image: &CapturedImage, rect: PixelRect) -> (r: CapturedImage)
    requires
        image.is_whole(),
        rect_fits(rect, image.width, image.height),
        image.width * image.height * 4 <= usize::MAX,
    ensures
        r.width == rect.width,
        r.height == rect.height,
        r.is_whole(),
        forall|x: int, y: int, c: int|
            0 <= x < rect.width && 0 <= y < rect.height && 0 <= c < 4 ==> #[trigger] r.rgba@[(y
                * rect.width + x) * 4 + c] == cropped_byte(image.rgba@, image.width as int, rect, x, y, c),
{
    let ghost w = rect.width as int;
    let ghost iw = image.width as int;
    let mut rgba: Vec<u8> = Vec::new();
    let mut y: u32 = 0;
    while y < rect.height
        invariant
            w == rect.width,
            iw == image.width,
            image.is_whole(),
            rect_fits(rect, image.width, image.height),
            image.width * image.height * 4 <= usize::MAX,
            y <= rect.height,
            rgba@.len() == y * w * 4,
            forall|px: int, py: int, c: int|
                0 <= px < w && 0 <= py < y && 0 <= c < 4 ==> #[trigger] rgba@[(py * w + px) * 4 + c]
                    == cropped_byte(image.rgba@, iw, rect, px, py, c),
        decreases rect.height - y,
    {
        let mut x: u32 = 0;
        while x < rect.width
            invariant
                w == rect.width,
                iw == image.width,
                image.is_whole(),
                rect_fits(rect, image.width, image.height),
                image.width * image.height * 4 <= usize::MAX,
                y < rect.height,
                x <= rect.width,
                rgba@.len() == (y * w + x) * 4,
                forall|px: int, py: int, c: int|
                    0 <= px < w && 0 <= py < y && 0 <= c < 4 ==> #[trigger] rgba@[(py * w + px) * 4
                        + c] == cropped_byte(image.rgba@, iw, rect, px, py, c),
                forall|px: int, c: int|
                    0 <= px < x && 0 <= c < 4 ==> #[trigger] rgba@[(y * w + px) * 4 + c]
                        == cropped_byte(image.rgba@, iw, rect, px, y as int, c),
            decreases rect.width - x,
        {
            proof {
                lemma_source_in_bounds(iw, image.height as int, rect, x as int, y as int);
            }
            let base = (((rect.y + y) as usize) * (image.width as usize) + (rect.x + x) as usize)
                * 4;
            let ghost before = rgba@;
            let ghost at = (y * w + x) * 4;
            rgba.push(image.rgba[base]);
            rgba.push(image.rgba[base + 1]);
            rgba.push(image.rgba[base + 2]);
            rgba.push(image.rgba[base + 3]);
            proof {
                assert(y * w * 4 <= at) by (nonlinear_arith)
                    requires
                        at == (y * w + x) * 4,
                        0 <= x,
                ;
                assert forall|px: int, py: int, c: int|
                    0 <= px < w && 0 <= py < y && 0 <= c < 4 implies #[trigger] rgba@[(py * w + px)
                        * 4 + c] == cropped_byte(image.rgba@, iw, rect, px, py, c) by {
                    lemma_row_prefix(w, px, py, c, y as int);
                    assert(rgba@[(py * w + px) * 4 + c] == before[(py * w + px) * 4 + c]);
                }
                assert forall|px: int, c: int|
                    0 <= px < x + 1 && 0 <= c < 4 implies #[trigger] rgba@[(y * w + px) * 4 + c]
                        == cropped_byte(image.rgba@, iw, rect, px, y as int, c) by {
                    if px < x {
                        assert((y * w + px) * 4 + c < at) by (nonlinear_arith)
                            requires
                                at == (y * w + x) * 4,
                                px < x,
                                c < 4,
                        ;
                        assert(rgba@[(y * w + px) * 4 + c] == before[(y * w + px) * 4 + c]);
                    } else {
                        assert((y * w + px) * 4 + c == at + c);
                    }
                }
            }
            x = x + 1;
        }
        proof {
            assert((y * w + w) * 4 == (y + 1) * w * 4) by (nonlinear_arith);
        }
        y = y + 1;
    }
    assert(rect.height * w * 4 == rect.width * rect.height * 4) by (nonlinear_arith)
        requires
            w == rect.width,
    ;
    CapturedImage { rgba, width: rect.width, height: rect.height }
}

} // verus!
