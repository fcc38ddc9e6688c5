//! Pixels of a frame: three bytes each, row by row.

use crate::rounding::{is_rounding, whole};
use crate::screen::Rgb;
use vstd::prelude::*;

verus! {

/// What a brightness setting makes of the pixels.
pub struct Tone {
    /// For each value of a color channel the value that is shown.
    pub channel: [u8; 256],
    /// The least luma of a lit pixel.
    pub lit_from: u32,
}

/// `i`, or the last index below `n` where it is beyond.
pub open spec fn clamped(i: int, n: int) -> int {
    if i < n {
        i
    } else {
        n - 1
    }
}

/// Where the bytes of a pixel begin. A pixel beyond the frame stands for the nearest in it.
pub open spec fn pixel_base(src_x: int, src_y: int, frame_w: int, frame_h: int) -> int {
    (clamped(src_y, frame_h) * frame_w + clamped(src_x, frame_w)) * 3
}

/// Whether the frame has pixels and holds this one.
pub open spec fn pixel_held(len: int, src_x: int, src_y: int, frame_w: int, frame_h: int) -> bool {
    &&& frame_w > 0
    &&& frame_h > 0
    &&& pixel_base(src_x, src_y, frame_w, frame_h) + 2 < len
}

/// The color of a pixel.
pub open spec fn rgb_at(frame: Seq<u8>, src_x: int, src_y: int, frame_w: int, frame_h: int) -> Rgb {
    let base = pixel_base(src_x, src_y, frame_w, frame_h);
    (frame[base], frame[base + 1], frame[base + 2])
}

/// The weighted brightness of a color, in thousandths of a channel value.
pub open spec fn luma(rgb: Rgb) -> int {
    rgb.0 * 299 + rgb.1 * 587 + rgb.2 * 114
}

/// A color as it is shown.
pub open spec fn toned(rgb: Rgb, tone: Tone) -> Rgb {
    (tone.channel@[rgb.0 as int], tone.channel@[rgb.1 as int], tone.channel@[rgb.2 as int])
}

/// Whether a color counts as lit.
pub open spec fn is_lit(rgb: Rgb, tone: Tone) -> bool {
    luma(rgb) >= tone.lit_from
}

proof fn lemma_pixel_base(src_x: int, src_y: int, frame_w: int, frame_h: int)
    requires
        frame_w > 0,
        frame_h > 0,
        src_x >= 0,
        src_y >= 0,
    ensures
        0 <= clamped(src_y, frame_h) * frame_w <= pixel_base(src_x, src_y, frame_w, frame_h),
        0 <= clamped(src_y, frame_h) * frame_w + clamped(src_x, frame_w) <= pixel_base(
            src_x,
            src_y,
            frame_w,
            frame_h,
        ),
{
    vstd::arithmetic::mul::lemma_mul_nonnegative(clamped(src_y, frame_h), frame_w);
}

/// The frame holds every pixel, where it has three bytes for each.
pub proof fn whole_frame_holds_pixels(
    len: int,
    src_x: int,
    src_y: int,
    frame_w: int,
    frame_h: int,
)
    requires
        frame_w > 0,
        frame_h > 0,
        src_x >= 0,
        src_y >= 0,
        frame_w * frame_h * 3 <= len,
    ensures
        pixel_held(len, src_x, src_y, frame_w, frame_h),
{
    let y = clamped(src_y, frame_h);
    let x = clamped(src_x, frame_w);
    assert(y * frame_w + frame_w <= frame_w * frame_h) by (nonlinear_arith)
        requires
            0 <= y <= frame_h - 1,
            frame_w > 0,
    ;
}

/// The color of a pixel. A pixel beyond the frame stands for the nearest in it.
pub fn get_rgb(frame: &[u8], src_x: usize, src_y: usize, frame_w: usize, frame_h: usize) -> (r: Rgb)
    requires
        pixel_held(
            frame@.len() as int,
            src_x as int,
            src_y as int,
            frame_w as int,
            frame_h as int,
        ),
    ensures
        r == rgb_at(frame@, src_x as int, src_y as int, frame_w as int, frame_h as int),
        src_x < frame_w && src_y < frame_h ==> {
            let at = 3 * (src_y * frame_w + src_x);
            r.0 == frame@[at] && r.1 == frame@[at + 1] && r.2 == frame@[at + 2]
        },
{
    proof {
        assert(frame.len() <= usize::MAX);
        lemma_pixel_base(src_x as int, src_y as int, frame_w as int, frame_h as int);
    }
    let x: usize = if src_x < frame_w {
        src_x
    } else {
        frame_w - 1
    };
    let y: usize = if src_y < frame_h {
        src_y
    } else {
        frame_h - 1
    };
    let base: usize = (y * frame_w + x) * 3;
    (frame[base], frame[base + 1], frame[base + 2])
}

/// Whether a frame of `len` bytes has pixels and holds this one.
pub fn has_pixel(len: usize, src_x: usize, src_y: usize, frame_w: usize, frame_h: usize) -> (r: bool)
    ensures
        r == pixel_held(
            len as int,
            src_x as int,
            src_y as int,
            frame_w as int,
            frame_h as int,
        ),
{
    if frame_w == 0 || frame_h == 0 {
        return false;
    }
    proof {
        lemma_pixel_base(src_x as int, src_y as int, frame_w as int, frame_h as int);
    }
    let x: usize = if src_x < frame_w {
        src_x
    } else {
        frame_w - 1
    };
    let y: usize = if src_y < frame_h {
        src_y
    } else {
        frame_h - 1
    };
    match y.checked_mul(frame_w) {
        None => false,
        Some(row) => match row.checked_add(x) {
            None => false,
            Some(pixel) => len > 2 && pixel <= (len - 3) / 3,
        },
    }
}

/// Shift each channel by the brightness of `tone`.
pub fn adjust_rgb(rgb: Rgb, tone: &Tone) -> (r: Rgb)
    ensures
        r == toned(rgb, *tone),
        r.0 == tone.channel@[rgb.0 as int],
        r.1 == tone.channel@[rgb.1 as int],
        r.2 == tone.channel@[rgb.2 as int],
{
    (tone.channel[rgb.0 as usize], tone.channel[rgb.1 as usize], tone.channel[rgb.2 as usize])
}

/// Returns true if the pixel is "lit", by the luminance threshold of `tone`.
pub fn get_pixel(
    frame: &[u8],
    src_x: usize,
    src_y: usize,
    frame_w: usize,
    frame_h: usize,
    tone: &Tone,
) -> (r: bool)
    requires
        pixel_held(
            frame@.len() as int,
            src_x as int,
            src_y as int,
            frame_w as int,
            frame_h as int,
        ),
    ensures
        r == is_lit(
            rgb_at(frame@, src_x as int, src_y as int, frame_w as int, frame_h as int),
            *tone,
        ),
        src_x < frame_w && src_y < frame_h ==> {
            let at = 3 * (src_y * frame_w + src_x);
            r == (299 * frame@[at] + 587 * frame@[at + 1] + 114 * frame@[at + 2] >= tone.lit_from)
        },
{
    let rgb = get_rgb(frame, src_x, src_y, frame_w, frame_h);
    let luma: u32 = rgb.0 as u32 * 299 + rgb.1 as u32 * 587 + rgb.2 as u32 * 114;
    luma >= tone.lit_from
}

/// A lower threshold makes no lit pixel unlit, and of two pixels the brighter is lit where the
/// darker is.
pub proof fn brighter_is_lit(rgb: Rgb, other: Rgb, tone: Tone, lower: Tone)
    requires
        lower.lit_from <= tone.lit_from,
        luma(rgb) <= luma(other),
        is_lit(rgb, tone),
    ensures
        is_lit(rgb, lower),
        is_lit(other, tone),
{
}

/// A channel value shifted by the brightness, cut to a whole number, and kept within the range.
/// The brightness is counted in units of which `one` make up the full range, and every result is
/// rounded.
pub open spec fn shifted(value: int, brightness: int, one: int, round: spec_fn(int) -> int) -> int {
    let v = round(whole(value, one) + round(brightness * 255)) / one;
    if v < 0 {
        0
    } else if v > 255 {
        255
    } else {
        v
    }
}

/// Whether a luma, shifted by the brightness, is above the middle.
pub open spec fn above_middle(
    luma: int,
    brightness: int,
    one: int,
    round: spec_fn(int) -> int,
) -> bool {
    round(whole(luma, one) + round(brightness * 128_000)) > whole(128_000, one)
}

/// Whether `tone` is that of a brightness, from `-one` (black) to `one` (white).
pub open spec fn is_tone_of(
    tone: Tone,
    brightness: int,
    one: int,
    round: spec_fn(int) -> int,
) -> bool {
    &&& forall|v: int|
        0 <= v <= 255 ==> #[trigger] tone.channel@[v] == shifted(v, brightness, one, round)
    &&& forall|rgb: Rgb|
        #[trigger] is_lit(rgb, tone) <==> above_middle(luma(rgb), brightness, one, round)
}

proof fn lemma_sum_ordered(
    v: int,
    w: int,
    b: int,
    bb: int,
    factor: int,
    one: int,
    round: spec_fn(int) -> int,
)
    requires
        is_rounding(round, one),
        v <= w,
        b <= bb,
        factor >= 0,
    ensures
        round(whole(v, one) + round(b * factor)) <= round(whole(w, one) + round(bb * factor)),
{
    vstd::arithmetic::mul::lemma_mul_inequality(v, w, one);
    vstd::arithmetic::mul::lemma_mul_inequality(b, bb, factor);
    assert(round(b * factor) <= round(bb * factor));
}

/// More brightness never turns a lit pixel off, nor the lit pixel's brighter neighbor.
pub proof fn more_brightness_keeps_lit(
    rgb: Rgb,
    other: Rgb,
    tone: Tone,
    brighter: Tone,
    b: int,
    bb: int,
    one: int,
    round: spec_fn(int) -> int,
)
    requires
        is_rounding(round, one),
        b <= bb,
        is_tone_of(tone, b, one, round),
        is_tone_of(brighter, bb, one, round),
        luma(rgb) <= luma(other),
        is_lit(rgb, tone),
    ensures
        is_lit(other, brighter),
{
    lemma_sum_ordered(luma(rgb), luma(other), b, bb, 128_000, one, round);
}

proof fn lemma_shifted_ordered(
    v: int,
    w: int,
    b: int,
    bb: int,
    one: int,
    round: spec_fn(int) -> int,
)
    requires
        is_rounding(round, one),
        v <= w,
        b <= bb,
    ensures
        shifted(v, b, one, round) <= shifted(w, bb, one, round),
{
    lemma_sum_ordered(v, w, b, bb, 255, one, round);
    vstd::arithmetic::div_mod::lemma_div_is_ordered(
        round(whole(v, one) + round(b * 255)),
        round(whole(w, one) + round(bb * 255)),
        one,
    );
}

/// A color that is no darker, at a brightness that is no lower, is shown no darker.
pub proof fn brighter_is_shown_no_darker(
    rgb: Rgb,
    other: Rgb,
    tone: Tone,
    brighter: Tone,
    b: int,
    bb: int,
    one: int,
    round: spec_fn(int) -> int,
)
    requires
        is_rounding(round, one),
        b <= bb,
        is_tone_of(tone, b, one, round),
        is_tone_of(brighter, bb, one, round),
        rgb.0 <= other.0,
        rgb.1 <= other.1,
        rgb.2 <= other.2,
    ensures
        toned(rgb, tone).0 <= toned(other, brighter).0,
        toned(rgb, tone).1 <= toned(other, brighter).1,
        toned(rgb, tone).2 <= toned(other, brighter).2,
{
    lemma_shifted_ordered(rgb.0 as int, other.0 as int, b, bb, one, round);
    lemma_shifted_ordered(rgb.1 as int, other.1 as int, b, bb, one, round);
    lemma_shifted_ordered(rgb.2 as int, other.2 as int, b, bb, one, round);
}

/// At a whole brightness `k` nothing is off: a value `v` is shifted by `k` times the factor.
proof fn lemma_whole_brightness(
    v: int,
    k: int,
    factor: int,
    one: int,
    round: spec_fn(int) -> int,
)
    requires
        is_rounding(round, one),
        -1 <= k <= 1,
        0 <= factor <= 128_000,
        0 <= v <= 255_000,
    ensures
        round(whole(v, one) + round(whole(k, one) * factor)) == whole(v + k * factor, one),
        round(whole(v, one) + round(whole(k, one) * factor)) / one == v + k * factor,
{
    assert(-128_000 <= k * factor <= 128_000) by (nonlinear_arith)
        requires
            -1 <= k <= 1,
            0 <= factor <= 128_000,
    ;
    assert(whole(k, one) * factor == whole(k * factor, one)) by (nonlinear_arith)
        requires
            whole(k, one) == k * one,
            whole(k * factor, one) == (k * factor) * one,
    ;
    assert(whole(v, one) + whole(k * factor, one) == whole(v + k * factor, one)) by (nonlinear_arith)
        requires
            whole(v, one) == v * one,
            whole(k * factor, one) == (k * factor) * one,
            whole(v + k * factor, one) == (v + k * factor) * one,
    ;
    assert(round(whole(k * factor, one)) == whole(k * factor, one));
    vstd::arithmetic::div_mod::lemma_div_multiples_vanish(v + k * factor, one);
    vstd::arithmetic::mul::lemma_mul_is_commutative(v + k * factor, one);
}

proof fn lemma_whole_tone(rgb: Rgb, tone: Tone, k: int, one: int, round: spec_fn(int) -> int)
    requires
        is_rounding(round, one),
        -1 <= k <= 1,
        is_tone_of(tone, whole(k, one), one, round),
    ensures
        k == 0 ==> toned(rgb, tone) == rgb,
        k == -1 ==> toned(rgb, tone) == (0u8, 0u8, 0u8),
        k == 1 ==> toned(rgb, tone) == (255u8, 255u8, 255u8),
        is_lit(rgb, tone) <==> luma(rgb) + k * 128_000 > 128_000,
{
    lemma_whole_brightness(rgb.0 as int, k, 255, one, round);
    lemma_whole_brightness(rgb.1 as int, k, 255, one, round);
    lemma_whole_brightness(rgb.2 as int, k, 255, one, round);
    let l = luma(rgb);
    lemma_whole_brightness(l, k, 128_000, one, round);
    let shown = l + k * 128_000;
    assert(whole(shown, one) > whole(128_000, one) <==> shown > 128_000) by (nonlinear_arith)
        requires
            one > 0,
            whole(shown, one) == shown * one,
            whole(128_000, one) == 128_000 * one,
    ;
}

/// Without any brightness setting colors are shown as they are, and a pixel is lit where its luma
/// is above the middle.
pub proof fn no_brightness_changes_nothing(
    rgb: Rgb,
    tone: Tone,
    one: int,
    round: spec_fn(int) -> int,
)
    requires
        is_rounding(round, one),
        is_tone_of(tone, 0, one, round),
    ensures
        toned(rgb, tone) == rgb,
        is_lit(rgb, tone) <==> luma(rgb) > 128_000,
{
    assert(whole(0, one) == 0) by (nonlinear_arith)
        requires
            whole(0, one) == 0 * one,
    ;
    lemma_whole_tone(rgb, tone, 0, one, round);
}

/// At the lowest brightness every color is black and no pixel is lit.
pub proof fn lowest_brightness_is_black(
    rgb: Rgb,
    tone: Tone,
    one: int,
    round: spec_fn(int) -> int,
)
    requires
        is_rounding(round, one),
        is_tone_of(tone, -one, one, round),
    ensures
        toned(rgb, tone) == (0u8, 0u8, 0u8),
        !is_lit(rgb, tone),
{
    assert(whole(-1, one) == -one) by (nonlinear_arith)
        requires
            whole(-1, one) == -1 * one,
    ;
    lemma_whole_tone(rgb, tone, -1, one, round);
}

/// At the highest brightness every color is white, and every pixel but a black one is lit.
pub proof fn highest_brightness_is_white(
    rgb: Rgb,
    tone: Tone,
    one: int,
    round: spec_fn(int) -> int,
)
    requires
        is_rounding(round, one),
        is_tone_of(tone, one, one, round),
    ensures
        toned(rgb, tone) == (255u8, 255u8, 255u8),
        is_lit(rgb, tone) <==> rgb != (0u8, 0u8, 0u8),
{
    assert(whole(1, one) == one) by (nonlinear_arith)
        requires
            whole(1, one) == 1 * one,
    ;
    lemma_whole_tone(rgb, tone, 1, one, round);
}

/// Whether the bit of pixel `i` is set in a byte: the first pixel has the highest bit.
pub open spec fn bit_set(byte: u8, i: int) -> bool {
    (byte >> ((7 - i) as u8)) & 1 == 1
}

/// Whether `packed` holds one bit for each of `pixels`, set where the pixel is above the middle.
/// Eight pixels make a byte; where the last byte is not full its further bits are zero.
pub open spec fn is_packed(packed: Seq<u8>, pixels: Seq<u8>) -> bool {
    &&& packed.len() == (pixels.len() + 7) / 8
    &&& forall|j: int, i: int|
        0 <= j < packed.len() && 0 <= i < 8 ==> #[trigger] bit_set(packed[j], i) == (8 * j + i
            < pixels.len() && pixels[8 * j + i] > 128)
}

/// Packs a frame of one byte per pixel into one bit per pixel.
pub fn pack_pixels(pixels: &[u8]) -> (packed: Vec<u8>)
    ensures
        is_packed(packed@, pixels@),
{
    let mut packed: Vec<u8> = Vec::new();
    let mut at: usize = 0;
    while at < pixels.len()
        invariant
            at <= pixels@.len(),
            at < pixels@.len() ==> at == 8 * packed@.len(),
            packed@.len() == (at + 7) / 8,
            forall|j: int, i: int|
                0 <= j < packed@.len() && 0 <= i < 8 ==> #[trigger] bit_set(packed@[j], i) == (8 * j
                    + i < pixels@.len() && pixels@[8 * j + i] > 128),
        decreases pixels@.len() - at,
    {
        let mut byte: u8 = 0;
        let mut i: u8 = 0;
        assert(forall|k: u8| k < 8 ==> (0u8 >> k) & 1 == 0) by (bit_vector);
        while i < 8 && (i as usize) < pixels.len() - at
            invariant
                at < pixels@.len(),
                i <= 8,
                at + i <= pixels@.len(),
                forall|k: int|
                    0 <= k < 8 ==> #[trigger] bit_set(byte, k) == (k < i && pixels@[at + k] > 128),
            decreases 8 - i,
        {
            if pixels[at + i as usize] > 128 {
                let shift: u8 = 7 - i;
                let with_bit: u8 = byte | (1u8 << shift);
                assert forall|k: int| 0 <= k < 8 implies #[trigger] bit_set(with_bit, k) == (k < i
                    + 1 && pixels@[at + k] > 128) by {
                    let m = (7 - k) as u8;
                    assert(bit_set(byte, k) == (k < i && pixels@[at + k] > 128));
                    assert(m < 8 && shift < 8 ==> (((byte | (1u8 << shift)) >> m) & 1 == 1) == (m
                        == shift || (byte >> m) & 1 == 1)) by (bit_vector);
                }
                byte = with_bit;
            } else {
                assert forall|k: int| 0 <= k < 8 implies #[trigger] bit_set(byte, k) == (k < i + 1
                    && pixels@[at + k] > 128) by {
                }
            }
            i = i + 1;
        }
        let ghost before = packed@;
        packed.push(byte);
        assert forall|j: int, k: int| 0 <= j < packed@.len() && 0 <= k < 8 implies #[trigger] bit_set(
            packed@[j],
            k,
        ) == (8 * j + k < pixels@.len() && pixels@[8 * j + k] > 128) by {
            if j < before.len() {
                assert(bit_set(before[j], k) == (8 * j + k < pixels@.len() && pixels@[8 * j + k]
                    > 128));
            } else {
                assert(bit_set(byte, k) == (k < i && pixels@[at + k] > 128));
            }
        }
        at = at + i as usize;
    }
    packed
}

/// The color of a pixel inside the frame is three bytes of it, red, green and blue in this order:
/// those behind three for each pixel of the rows above and of the row before it. A pixel beyond the
/// right edge or the last row has the color of the nearest inside.
pub proof fn colors_are_bytes_of_the_frame(
    frame: Seq<u8>,
    x: int,
    y: int,
    frame_w: int,
    frame_h: int,
)
    requires
        0 < frame_w,
        0 < frame_h,
        0 <= x,
        0 <= y,
    ensures
        x < frame_w && y < frame_h ==> {
            let rgb = rgb_at(frame, x, y, frame_w, frame_h);
            &&& rgb.0 == frame[3 * (y * frame_w + x)]
            &&& rgb.1 == frame[3 * (y * frame_w + x) + 1]
            &&& rgb.2 == frame[3 * (y * frame_w + x) + 2]
        },
        x >= frame_w ==> rgb_at(frame, x, y, frame_w, frame_h) == rgb_at(
            frame,
            frame_w - 1,
            y,
            frame_w,
            frame_h,
        ),
        y >= frame_h ==> rgb_at(frame, x, y, frame_w, frame_h) == rgb_at(
            frame,
            x,
            frame_h - 1,
            frame_w,
            frame_h,
        ),
{
}

/// A frame holds a pixel inside it where it has the pixel's three bytes, and one beyond it where it
/// holds the nearest inside. A frame without width or height holds none.
pub proof fn held_pixels_have_their_bytes(len: int, x: int, y: int, frame_w: int, frame_h: int)
    requires
        0 <= x,
        0 <= y,
    ensures
        frame_w <= 0 || frame_h <= 0 ==> !pixel_held(len, x, y, frame_w, frame_h),
        x < frame_w && y < frame_h ==> (pixel_held(len, x, y, frame_w, frame_h) <==> 3 * (y
            * frame_w + x) + 3 <= len),
        0 < frame_w <= x ==> pixel_held(len, x, y, frame_w, frame_h) == pixel_held(
            len,
            frame_w - 1,
            y,
            frame_w,
            frame_h,
        ),
        0 < frame_h <= y ==> pixel_held(len, x, y, frame_w, frame_h) == pixel_held(
            len,
            x,
            frame_h - 1,
            frame_w,
            frame_h,
        ),
{
}

/// A color is lit where the sum of its channels, red by 299, green by 587 and blue by 114, reaches
/// the threshold. Each channel is shown by its own entry of the table.
pub proof fn channels_are_weighted(rgb: Rgb, tone: Tone)
    ensures
        luma(rgb) == 299 * rgb.0 + 587 * rgb.1 + 114 * rgb.2,
        is_lit(rgb, tone) <==> 299 * rgb.0 + 587 * rgb.1 + 114 * rgb.2 >= tone.lit_from,
        toned(rgb, tone).0 == tone.channel@[rgb.0 as int],
        toned(rgb, tone).1 == tone.channel@[rgb.1 as int],
        toned(rgb, tone).2 == tone.channel@[rgb.2 as int],
{
}

/// Pixel `k` has its bit in byte `k / 8`, the first of eight pixels the highest, and it is set
/// exactly where the pixel is above 128. There are as many bytes as the pixels need, and bits without
/// a pixel are not set.
pub proof fn pixels_have_their_bits(packed: Seq<u8>, pixels: Seq<u8>, k: int)
    requires
        is_packed(packed, pixels),
    ensures
        8 * packed.len() - 8 < pixels.len() <= 8 * packed.len(),
        0 <= k < 8 * packed.len() ==> (packed[k / 8] & (128u8 >> ((k % 8) as u8)) != 0 <==> k
            < pixels.len() && pixels[k] > 128),
{
    if 0 <= k < 8 * packed.len() {
        let byte = packed[k / 8];
        let i = (k % 8) as u8;
        let m = (7 - k % 8) as u8;
        assert(bit_set(packed[k / 8], k % 8) == (8 * (k / 8) + k % 8 < pixels.len() && pixels[8 * (k / 8)
            + k % 8] > 128));
        assert(8 * (k / 8) + k % 8 == k);
        assert(i < 8 && m == 7 - i ==> ((byte & (128u8 >> i) != 0) <==> ((byte >> m) & 1 == 1)))
            by (bit_vector);
    }
}

} // verus!
