//! Preparing a captured image for text recognition: a border of the image's
//! own background colour is added around it, because recognisers miss text
//! that touches the edge of the picture. Also the text a recognition reads.
use vstd::prelude::*;
use vstd::string::*;

verus! {

/// How much border recognition wants on each side, in pixels.
pub const OCR_PADDING: u32 = 32;

/// Channel `c` of pixel (`x`, `y`) of a packed RGBA image `width` pixels wide.
pub open spec fn channel_at(rgba: Seq<u8>, width: int, x: int, y: int, c: int) -> u8 {
    rgba[(y * width + x) * 4 + c]
}

/// Channel `c` of the top (and, for images taller than one row, bottom) edge
/// pixels of the first `n` columns, column by column.
pub open spec fn top_bottom_values(rgba: Seq<u8>, width: int, height: int, c: int, n: int) -> Seq<
    u8,
>
    decreases n,
{
    if n <= 0 {
        Seq::empty()
    } else {
        let before = top_bottom_values(rgba, width, height, c, n - 1);
        if height > 1 {
            before.push(channel_at(rgba, width, n - 1, 0, c)).push(
                channel_at(rgba, width, n - 1, height - 1, c),
            )
        } else {
            before.push(channel_at(rgba, width, n - 1, 0, c))
        }
    }
}

/// Channel `c` of the left (and, for images wider than one column, right)
/// edge pixels of rows 1 to `m`, row by row.
pub open spec fn side_values(rgba: Seq<u8>, width: int, c: int, m: int) -> Seq<u8>
    decreases m,
{
    if m <= 0 {
        Seq::empty()
    } else {
        let before = side_values(rgba, width, c, m - 1);
        if width > 1 {
            before.push(channel_at(rgba, width, 0, m, c)).push(
                channel_at(rgba, width, width - 1, m, c),
            )
        } else {
            before.push(channel_at(rgba, width, 0, m, c))
        }
    }
}

/// Channel `c` of every pixel on the image's edge, each once.
pub open spec fn border_values(rgba: Seq<u8>, width: int, height: int, c: int) -> Seq<u8> {
    top_bottom_values(rgba, width, height, c, width) + side_values(
        rgba,
        width,
        c,
        if height > 2 {
            height - 2
        } else {
            0
        },
    )
}

/// How many of `s` are at most `v`.
pub open spec fn count_at_most(s: Seq<u8>, v: int) -> nat
    decreases s.len(),
{
    if s.len() == 0 {
        0
    } else {
        count_at_most(s.drop_last(), v) + if s.last() <= v {
            1nat
        } else {
            0nat
        }
    }
}

/// Whether `v` is the median of `s`: the value at index `len / 2` once `s` is
/// sorted, i.e. fewer than `len / 2 + 1` values lie below it and more than
/// `len / 2` lie at or below it.
pub open spec fn is_median(s: Seq<u8>, v: u8) -> bool {
    count_at_most(s, v - 1) <= s.len() / 2 < count_at_most(s, v as int)
}

/// The colour padding is drawn in: per channel, the median of the edge pixels.
pub open spec fn is_border_background(rgba: Seq<u8>, width: u32, height: u32, r: [u8; 4]) -> bool {
    if width == 0 || height == 0 {
        r == [255u8, 255, 255, 255]
    } else {
        &&& r[3] == 255
        &&& forall|c: int|
            0 <= c < 3 ==> is_median(border_values(rgba, width as int, height as int, c), r[c])
    }
}

proof fn lemma_count_bounds(s: Seq<u8>)
    ensures
        count_at_most(s, -1) == 0,
        count_at_most(s, 255) == s.len(),
    decreases s.len(),
{
    if s.len() > 0 {
        lemma_count_bounds(s.drop_last());
    }
}

proof fn lemma_pixel_in_image(width: int, height: int, x: int, y: int, c: int)
    requires
        0 <= x < width,
        0 <= y < height,
        0 <= c < 4,
    ensures
        0 <= (y * width + x) * 4 + c < width * height * 4,
{
    assert(0 <= (y * width + x) * 4 + c < width * height * 4) by (nonlinear_arith)
        requires
            0 <= x < width,
            0 <= y < height,
            0 <= c < 4,
    ;
}

/// Channel `c` of pixel (`x`, `y`).
fn pixel_channel(rgba: &[u8], width: u32, height: u32, x: u32, y: u32, c: usize) -> (r: u8)
    requires
        rgba@.len() >= width * height * 4,
        x < width,
        y < height,
        c < 4,
    ensures
        r == channel_at(rgba@, width as int, x as int, y as int, c as int),
{
    proof {
        lemma_pixel_in_image(width as int, height as int, x as int, y as int, c as int);
    }
    let w = width as usize;
    let row = y as usize;
    assert(row * w + x < width * height && row * w <= row * w + x) by (nonlinear_arith)
        requires
            row == y,
            w == width,
            x < width,
            y < height,
    ;
    let n = rgba.len();
    assert((row * w + x) * 4 + c < n);
    let index = (row * w + x as usize) * 4 + c;
    rgba[index]
}

/// Channel `c` of every edge pixel, in the order `border_values` lists them.
fn collect_border(rgba: &[u8], width: u32, height: u32, c: usize) -> (r: Vec<u8>)
    requires
        rgba@.len() >= width * height * 4,
        width > 0,
        height > 0,
        c < 4,
    ensures
        r@ == border_values(rgba@, width as int, height as int, c as int),
{
    let mut values: Vec<u8> = Vec::new();
    let mut x: u32 = 0;
    while x < width
        invariant
            rgba@.len() >= width * height * 4,
            height > 0,
            c < 4,
            x <= width,
            values@ == top_bottom_values(rgba@, width as int, height as int, c as int, x as int),
        decreases width - x,
    {
        values.push(pixel_channel(rgba, width, height, x, 0, c));
        if height > 1 {
            values.push(pixel_channel(rgba, width, height, x, height - 1, c));
        }
        x = x + 1;
    }
    let ghost top_bottom = values@;
    let mut y: u32 = 1;
    let last_row: u32 = if height > 1 {
        height - 1
    } else {
        1
    };
    while y < last_row
        invariant
            rgba@.len() >= width * height * 4,
            width > 0,
            height > 0,
            c < 4,
            1 <= y <= last_row,
            last_row == (if height > 1 {
                height - 1
            } else {
                1
            }),
            last_row <= height,
            top_bottom == top_bottom_values(rgba@, width as int, height as int, c as int, width as int),
            values@ == top_bottom + side_values(rgba@, width as int, c as int, y - 1),
        decreases last_row - y,
    {
        let ghost before = values@;
        values.push(pixel_channel(rgba, width, height, 0, y, c));
        if width > 1 {
            values.push(pixel_channel(rgba, width, height, width - 1, y, c));
        }
        proof {
            let sides = side_values(rgba@, width as int, c as int, y as int);
            assert(values@ =~= top_bottom + sides);
        }
        y = y + 1;
    }
    values
}

/// How many of `values` are at most `v`.
fn count_values_at_most(values: &Vec<u8>, v: u8) -> (r: usize)
    ensures
        r == count_at_most(values@, v as int),
{
    let mut count: usize = 0;
    let mut i: usize = 0;
    while i < values.len()
        invariant
            i <= values@.len(),
            count == count_at_most(values@.take(i as int), v as int),
            count <= i,
        decreases values@.len() - i,
    {
        proof {
            assert(values@.take(i + 1).drop_last() =~= values@.take(i as int));
        }
        if values[i] <= v {
            count = count + 1;
        }
        i = i + 1;
    }
    proof {
        assert(values@.take(values@.len() as int) =~= values@);
    }
    count
}

/// The value at index `len / 2` of `values` once sorted.
fn median(values: &Vec<u8>) -> (r: u8)
    requires
        values@.len() > 0,
    ensures
        is_median(values@, r),
{
    let half = values.len() / 2;
    let mut v: u8 = 0;
    proof {
        lemma_count_bounds(values@);
    }
    loop
        invariant
            half == values@.len() / 2,
            values@.len() > 0,
            count_at_most(values@, v - 1) <= half,
            count_at_most(values@, 255) == values@.len(),
        decreases 255 - v,
    {
        let at_most = count_values_at_most(values, v);
        if at_most > half {
            return v;
        }
        if v == 255 {
            assert(false);
            return v;
        }
        v = v + 1;
    }
}

/// The colour padding is drawn in: per channel, the median of the image's
/// edge pixels, so the padding matches the background the text sits on. An
/// empty image gets white.
pub fn border_background(rgba: &[u8], width: u32, height: u32) -> (r: [u8; 4])
    requires
        rgba@.len() >= width * height * 4,
    ensures
        is_border_background(rgba@, width, height, r),
{
    if width == 0 || height == 0 {
        return [255, 255, 255, 255];
    }
    let red_values = collect_border(rgba, width, height, 0);
    let green_values = collect_border(rgba, width, height, 1);
    let blue_values = collect_border(rgba, width, height, 2);
    proof {
        assert forall|c: int| 0 <= c < 3 implies border_values(rgba@, width as int, height as int, c).len() > 0 by {
            lemma_border_not_empty(rgba@, width as int, height as int, c);
        }
    }
    let red = median(&red_values);
    let green = median(&green_values);
    let blue = median(&blue_values);
    let r = [red, green, blue, 255];
    proof {
        assert forall|c: int| 0 <= c < 3 implies is_median(
            border_values(rgba@, width as int, height as int, c),
            r[c],
        ) by {
            if c == 0 {
            } else if c == 1 {
            } else {
            }
        }
    }
    r
}

proof fn lemma_border_not_empty(rgba: Seq<u8>, width: int, height: int, c: int)
    requires
        width > 0,
        height > 0,
    ensures
        border_values(rgba, width, height, c).len() > 0,
{
    assert(top_bottom_values(rgba, width, height, c, width).len() > 0);
}

/// A captured image with the recognition border added.
pub struct PaddedImage {
    pub height: u32,
    pub padding: u32,
    pub rgba: Vec<u8>,
    pub width: u32,
}

/// The border added on each side: as much as recognition wants, as long as
/// the padded image still fits within `max_dimension` both ways.
pub open spec fn padding_for(width: u32, height: u32, max_dimension: u32) -> int {
    let horizontal = (if max_dimension >= width {
        max_dimension - width
    } else {
        0
    }) / 2;
    let vertical = (if max_dimension >= height {
        max_dimension - height
    } else {
        0
    }) / 2;
    let p = if horizontal < OCR_PADDING {
        horizontal
    } else {
        OCR_PADDING as int
    };
    if vertical < p {
        vertical
    } else {
        p
    }
}

/// Channel `c` of pixel (`x`, `y`) of the padded image: the source pixel it
/// covers, or the background colour in the border.
pub open spec fn padded_channel(
    rgba: Seq<u8>,
    width: int,
    height: int,
    padding: int,
    background: [u8; 4],
    x: int,
    y: int,
    c: int,
) -> u8 {
    if padding <= x < padding + width && padding <= y < padding + height {
        channel_at(rgba, width, x - padding, y - padding, c)
    } else {
        background[c]
    }
}

proof fn lemma_padded_pixel_before_row(x: int, y: int, row: int, width: int)
    requires
        0 <= x < width,
        0 <= y < row,
    ensures
        (y * width + x) * 4 + 3 < row * width * 4,
{
    assert((y * width + x) * 4 + 3 < row * width * 4) by (nonlinear_arith)
        requires
            0 <= x < width,
            0 <= y < row,
    ;
}

/// Surrounds an RGBA image with a border of its own background colour (the
/// median of its edge pixels), as wide as `OCR_PADDING` where the padded image
/// still fits within `max_dimension`. Empty images, images whose byte count
/// does not fit in a `u32`, pixel data of the wrong length and padded images
/// too large for a `u32` byte count are refused.
pub fn pad_for_ocr(rgba: &[u8], width: u32, height: u32, max_dimension: u32) -> (r: Result<
    PaddedImage,
    String,
>)
    ensures
        width == 0 || height == 0 ==> (r matches Err(m) && m@
            == "Text recognition image dimensions must be non-zero"@),
        width > 0 && height > 0 && width * height * 4 > u32::MAX ==> (r matches Err(m) && m@
            == "Text recognition image dimensions are too large"@),
        width > 0 && height > 0 && width * height * 4 <= u32::MAX && rgba@.len() != width * height
            * 4 ==> (r matches Err(m) && m@ == "Text recognition image data has an unexpected size"@),
        ({
            let p = padding_for(width, height, max_dimension);
            let pw = width + 2 * p;
            let ph = height + 2 * p;
            width > 0 && height > 0 && width * height * 4 <= u32::MAX && rgba@.len() == width
                * height * 4 ==> if pw * ph * 4 > u32::MAX {
                (r matches Err(m) && m@ == "Padded text recognition image dimensions are too large"@)
            } else {
                r matches Ok(image) && image.width == pw && image.height == ph && image.padding == p
                    && image.rgba@.len() == pw * ph * 4 && exists|background: [u8; 4]|
                    is_border_background(rgba@, width, height, background) && forall|
                        x: int,
                        y: int,
                        c: int,
                    |
                        0 <= x < pw && 0 <= y < ph && 0 <= c < 4 ==> #[trigger] image.rgba@[(y * pw
                            + x) * 4 + c] == padded_channel(
                            rgba@,
                            width as int,
                            height as int,
                            p,
                            background,
                            x,
                            y,
                            c,
                        )
            }
        }),
{
    if width == 0 || height == 0 {
        return Err(String::from_str("Text recognition image dimensions must be non-zero"));
    }
    let w = width as u128;
    let h = height as u128;
    assert(w * h <= 0xffff_ffff * 0xffff_ffff) by (nonlinear_arith)
        requires
            w <= 0xffff_ffff,
            h <= 0xffff_ffff,
    ;
    let source_length = w * h * 4;
    if source_length > u32::MAX as u128 {
        return Err(String::from_str("Text recognition image dimensions are too large"));
    }
    if rgba.len() as u128 != source_length {
        return Err(String::from_str("Text recognition image data has an unexpected size"));
    }
    let horizontal_room = max_dimension.saturating_sub(width) / 2;
    let vertical_room = max_dimension.saturating_sub(height) / 2;
    let mut padding = OCR_PADDING;
    if horizontal_room < padding {
        padding = horizontal_room;
    }
    if vertical_room < padding {
        padding = vertical_room;
    }
    assert(width + 2 * padding <= 0xffff_ffff);
    assert(height + 2 * padding <= 0xffff_ffff);
    let padded_width = width + padding * 2;
    let padded_height = height + padding * 2;
    let pw128 = padded_width as u128;
    let ph128 = padded_height as u128;
    assert(pw128 * ph128 <= 0xffff_ffff * 0xffff_ffff) by (nonlinear_arith)
        requires
            pw128 <= 0xffff_ffff,
            ph128 <= 0xffff_ffff,
    ;
    let padded_length = pw128 * ph128 * 4;
    if padded_length > u32::MAX as u128 {
        return Err(String::from_str("Padded text recognition image dimensions are too large"));
    }
    let background = border_background(rgba, width, height);
    let ghost pw = padded_width as int;
    let ghost src = rgba@;
    let mut padded: Vec<u8> = Vec::new();
    let mut y: u32 = 0;
    while y < padded_height
        invariant
            0 < width,
            0 < height,
            pw == padded_width,
            src == rgba@,
            src.len() == width * height * 4,
            padded_width == width + 2 * padding,
            padded_height == height + 2 * padding,
            padded_width * padded_height * 4 <= u32::MAX,
            y <= padded_height,
            padded@.len() == y * pw * 4,
            forall|px: int, py: int, c: int|
                0 <= px < pw && 0 <= py < y && 0 <= c < 4 ==> #[trigger] padded@[(py * pw + px) * 4
                    + c] == padded_channel(
                    src,
                    width as int,
                    height as int,
                    padding as int,
                    background,
                    px,
                    py,
                    c,
                ),
        decreases padded_height - y,
    {
        let mut x: u32 = 0;
        while x < padded_width
            invariant
                0 < width,
                0 < height,
                pw == padded_width,
                src == rgba@,
                src.len() == width * height * 4,
                padded_width == width + 2 * padding,
                padded_height == height + 2 * padding,
                padded_width * padded_height * 4 <= u32::MAX,
                y < padded_height,
                x <= padded_width,
                padded@.len() == (y * pw + x) * 4,
                forall|px: int, py: int, c: int|
                    0 <= px < pw && 0 <= py < y && 0 <= c < 4 ==> #[trigger] padded@[(py * pw + px)
                        * 4 + c] == padded_channel(
                        src,
                        width as int,
                        height as int,
                        padding as int,
                        background,
                        px,
                        py,
                        c,
                    ),
                forall|px: int, c: int|
                    0 <= px < x && 0 <= c < 4 ==> #[trigger] padded@[(y * pw + px) * 4 + c]
                        == padded_channel(
                        src,
                        width as int,
                        height as int,
                        padding as int,
                        background,
                        px,
                        y as int,
                        c,
                    ),
            decreases padded_width - x,
        {
            let inside = padding <= x && x < padding + width && padding <= y && y < padding
                + height;
            let ghost before = padded@;
            assert((y * pw + x) * 4 + 4 <= padded_width * padded_height * 4) by (nonlinear_arith)
                requires
                    x < pw,
                    y < padded_height,
                    pw == padded_width,
            ;
            if inside {
                let sx = x - padding;
                let sy = y - padding;
                padded.push(pixel_channel(rgba, width, height, sx, sy, 0));
                padded.push(pixel_channel(rgba, width, height, sx, sy, 1));
                padded.push(pixel_channel(rgba, width, height, sx, sy, 2));
                padded.push(pixel_channel(rgba, width, height, sx, sy, 3));
            } else {
                padded.push(background[0]);
                padded.push(background[1]);
                padded.push(background[2]);
                padded.push(background[3]);
            }
            proof {
                let base = (y * pw + x) * 4;
                assert(padded@.len() == base + 4);
                assert forall|px: int, py: int, c: int|
                    0 <= px < pw && 0 <= py < y && 0 <= c < 4 implies #[trigger] padded@[(py * pw
                        + px) * 4 + c] == padded_channel(
                        src,
                        width as int,
                        height as int,
                        padding as int,
                        background,
                        px,
                        py,
                        c,
                    ) by {
                    lemma_padded_pixel_before_row(px, py, y as int, pw);
                    assert(y * pw * 4 <= base) by (nonlinear_arith)
                        requires
                            base == (y * pw + x) * 4,
                            0 <= x,
                    ;
                    assert(padded@[(py * pw + px) * 4 + c] == before[(py * pw + px) * 4 + c]);
                }
                assert forall|px: int, c: int|
                    0 <= px < x + 1 && 0 <= c < 4 implies #[trigger] padded@[(y * pw + px) * 4 + c]
                        == padded_channel(
                        src,
                        width as int,
                        height as int,
                        padding as int,
                        background,
                        px,
                        y as int,
                        c,
                    ) by {
                    if px < x {
                        assert((y * pw + px) * 4 + c < base) by (nonlinear_arith)
                            requires
                                base == (y * pw + x) * 4,
                                px < x,
                                c < 4,
                        ;
                        assert(padded@[(y * pw + px) * 4 + c] == before[(y * pw + px) * 4 + c]);
                    } else {
                        assert((y * pw + px) * 4 + c == base + c);
                    }
                }
            }
            x = x + 1;
        }
        proof {
            assert((y * pw + pw) * 4 == (y + 1) * pw * 4) by (nonlinear_arith);
            assert forall|px: int, py: int, c: int|
                0 <= px < pw && 0 <= py < y + 1 && 0 <= c < 4 implies #[trigger] padded@[(py * pw
                    + px) * 4 + c] == padded_channel(
                    src,
                    width as int,
                    height as int,
                    padding as int,
                    background,
                    px,
                    py,
                    c,
                ) by {
                if py == y {
                } else {
                }
            }
        }
        y = y + 1;
    }
    assert(padded_height * pw * 4 == padded_width * padded_height * 4) by (nonlinear_arith)
        requires
            pw == padded_width,
    ;
    Ok(PaddedImage { height: padded_height, padding, rgba: padded, width: padded_width })
}

/// How many values are at most `v` grows, from `v - 1` to `v`, by how many
/// equal `v`.
proof fn lemma_count_step(s: Seq<u8>, v: int)
    requires
        0 <= v <= 255,
    ensures
        count_at_most(s, v) == count_at_most(s, v - 1) + s.to_multiset().count(v as u8),
    decreases s.len(),
{
    broadcast use vstd::seq_lib::group_to_multiset_ensures;

    if s.len() == 0 {
        assert(s.to_multiset().len() == 0);
        assert(s.to_multiset() =~= vstd::multiset::Multiset::<u8>::empty());
    } else {
        let rest = s.drop_last();
        lemma_count_step(rest, v);
        assert(s =~= rest.push(s.last()));
        assert(s.to_multiset() =~= rest.to_multiset().insert(s.last()));
    }
}

/// Two sequences holding the same values have as many at most `v`.
proof fn lemma_counts_agree(a: Seq<u8>, b: Seq<u8>, v: int)
    requires
        a.to_multiset() == b.to_multiset(),
        -1 <= v <= 255,
    ensures
        count_at_most(a, v) == count_at_most(b, v),
    decreases v + 1,
{
    if v == -1 {
        lemma_count_bounds(a);
        lemma_count_bounds(b);
    } else {
        lemma_counts_agree(a, b, v - 1);
        lemma_count_step(a, v);
        lemma_count_step(b, v);
    }
}

/// No more values are at most `w` than there are values.
proof fn lemma_count_at_most_len(s: Seq<u8>, w: int)
    ensures
        count_at_most(s, w) <= s.len(),
    decreases s.len(),
{
    if s.len() > 0 {
        lemma_count_at_most_len(s.drop_last(), w);
    }
}

/// When the first `m` values are at most `w`, at least `m` are.
proof fn lemma_count_from_front(s: Seq<u8>, w: int, m: int)
    requires
        0 <= m <= s.len(),
        forall|i: int| 0 <= i < m ==> s[i] <= w,
    ensures
        count_at_most(s, w) >= m,
    decreases s.len(),
{
    if s.len() > 0 {
        let rest = s.drop_last();
        if m == s.len() {
            lemma_count_from_front(rest, w, m - 1);
        } else {
            lemma_count_from_front(rest, w, m);
        }
    }
}

/// When every value from place `m` on is above `w`, at most `m` are at most
/// `w`.
proof fn lemma_count_to_back(s: Seq<u8>, w: int, m: int)
    requires
        0 <= m,
        forall|i: int| m <= i < s.len() ==> s[i] > w,
    ensures
        count_at_most(s, w) <= m,
    decreases s.len(),
{
    if s.len() > m {
        lemma_count_to_back(s.drop_last(), w, m);
    } else {
        lemma_count_at_most_len(s, w);
    }
}

/// The median by counting is the middle value once sorted: in any sorted
/// arrangement of the same values, the value at place `len / 2`.
pub proof fn lemma_median_is_the_sorted_middle(values: Seq<u8>, sorted: Seq<u8>, v: u8)
    requires
        values.len() > 0,
        is_median(values, v),
        sorted.to_multiset() == values.to_multiset(),
        forall|i: int, j: int| 0 <= i <= j < sorted.len() ==> sorted[i] <= sorted[j],
    ensures
        sorted.len() == values.len(),
        sorted[(values.len() / 2) as int] == v,
{
    broadcast use vstd::seq_lib::group_to_multiset_ensures;

    assert(sorted.len() == values.len()) by {
        assert(sorted.to_multiset().len() == sorted.len());
        assert(values.to_multiset().len() == values.len());
    }
    let k: int = (values.len() / 2) as int;
    lemma_counts_agree(values, sorted, v - 1);
    lemma_counts_agree(values, sorted, v as int);
    let x = sorted[k];
    if x < v {
        lemma_count_from_front(sorted, v - 1, k + 1);
    } else if x > v {
        lemma_count_to_back(sorted, v as int, k);
    }
}

/// The colour padding is drawn in is, per channel, the value in the middle of
/// the edge pixels' values once they are sorted (at place `len / 2`): whatever
/// sorted arrangement of them is taken.
pub proof fn law_border_background_is_the_sorted_middle(
    rgba: Seq<u8>,
    width: u32,
    height: u32,
    r: [u8; 4],
    c: int,
    sorted: Seq<u8>,
)
    requires
        width > 0,
        height > 0,
        is_border_background(rgba, width, height, r),
        0 <= c < 3,
        sorted.to_multiset() == border_values(rgba, width as int, height as int, c).to_multiset(),
        forall|i: int, j: int| 0 <= i <= j < sorted.len() ==> sorted[i] <= sorted[j],
    ensures
        sorted.len() == border_values(rgba, width as int, height as int, c).len(),
        r[c] == sorted[(sorted.len() / 2) as int],
{
    lemma_border_not_empty(rgba, width as int, height as int, c);
    lemma_median_is_the_sorted_middle(
        border_values(rgba, width as int, height as int, c),
        sorted,
        r[c],
    );
}

/// `lines` as one text, a line feed between each line and the next.
pub open spec fn joined_lines(lines: Seq<Seq<char>>) -> Seq<char>
    decreases lines.len(),
{
    if lines.len() == 0 {
        Seq::empty()
    } else if lines.len() == 1 {
        lines[0]
    } else {
        joined_lines(lines.drop_last()) + seq!['\n'] + lines.last()
    }
}

/// The text of a recognition: the recognised lines in order, one per line.
pub fn recognized_text(lines: &Vec<String>) -> (text: String)
    ensures
        text@ == joined_lines(lines@.map_values(|line: String| line@)),
{
    let ghost views = lines@.map_values(|line: String| line@);
    let mut text = String::new();
    let mut i: usize = 0;
    while i < lines.len()
        invariant
            i <= lines.len(),
            views == lines@.map_values(|line: String| line@),
            text@ == joined_lines(views.take(i as int)),
        decreases lines.len() - i,
    {
        if i > 0 {
            text.append("\n");
        }
        text.append(lines[i].as_str());
        proof {
            reveal_strlit("\n");
            assert(views.take(i + 1).drop_last() =~= views.take(i as int));
            assert(views.take(i + 1).last() == lines@[i as int]@);
        }
        i += 1;
    }
    assert(views.take(i as int) =~= views);
    text
}

} // verus!
