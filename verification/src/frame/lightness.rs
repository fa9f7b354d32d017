use vstd::prelude::*;

verus! {

/// Most pixels that one call accepts, so that the sums of squares stay
/// within 128 bits.
pub const MAX_PIXELS: usize = 0xffff_ffff;

/// Bytes per pixel.
pub open spec fn channel_count(has_alpha: bool) -> int {
    if has_alpha {
        4
    } else {
        3
    }
}

/// Sum of the channel at `offset` over the first `pixels` pixels.
pub open spec fn channel_sum(rgbas: Seq<u8>, channels: int, pixels: nat, offset: int) -> int
    decreases pixels,
{
    if pixels == 0 {
        0
    } else {
        channel_sum(rgbas, channels, (pixels - 1) as nat, offset) + rgbas[(pixels - 1) * channels
            + offset] as int
    }
}

/// `1000 * pixels^2` times the weighted mean square of the three channels:
/// the weights 0.241, 0.691 and 0.068 on the squared channel means.
pub open spec fn weighted_square_sum(red: int, green: int, blue: int) -> int {
    241 * (red * red) + 691 * (green * green) + 68 * (blue * blue)
}

/// Whether `percent` is `sqrt(0.241 r^2 + 0.691 g^2 + 0.068 b^2) * 100 / 255`
/// rounded to the nearest integer, halves upward, where `r`, `g`, `b` are
/// the channel sums divided by `pixels`. Both sides of the two rounding
/// bounds are squared and cleared of fractions.
pub open spec fn is_lightness_percent(
    percent: int,
    red: int,
    green: int,
    blue: int,
    pixels: int,
) -> bool {
    let scaled = 8 * weighted_square_sum(red, green, blue);
    let unit = 13005 * (pixels * pixels);
    &&& 0 <= percent <= 100
    &&& percent >= 1 ==> (2 * percent - 1) * (2 * percent - 1) * unit <= scaled
    &&& scaled < (2 * percent + 1) * (2 * percent + 1) * unit
}

/// The perceived lightness of `rgbas`, as a percentage.
pub open spec fn spec_lightness_percent(rgbas: Seq<u8>, has_alpha: bool, pixels: nat, percent: int) -> bool {
    let channels = channel_count(has_alpha);
    is_lightness_percent(
        percent,
        channel_sum(rgbas, channels, pixels, 0),
        channel_sum(rgbas, channels, pixels, 1),
        channel_sum(rgbas, channels, pixels, 2),
        pixels as int,
    )
}

proof fn lemma_channel_sum_bound(rgbas: Seq<u8>, channels: int, pixels: nat, offset: int)
    ensures
        0 <= channel_sum(rgbas, channels, pixels, offset) <= 255 * pixels,
    decreases pixels,
{
    if pixels > 0 {
        lemma_channel_sum_bound(rgbas, channels, (pixels - 1) as nat, offset);
    }
}

proof fn lemma_percent_at_most_100(red: int, green: int, blue: int, pixels: int)
    requires
        pixels >= 1,
        0 <= red <= 255 * pixels,
        0 <= green <= 255 * pixels,
        0 <= blue <= 255 * pixels,
    ensures
        8 * weighted_square_sum(red, green, blue) < 525415005 * (pixels * pixels),
        0 <= weighted_square_sum(red, green, blue) <= 65025000 * (pixels * pixels),
{
    let m = 255 * pixels;
    let square = pixels * pixels;
    assert(0 <= red * red <= m * m) by (nonlinear_arith)
        requires
            0 <= red <= m,
    ;
    assert(0 <= green * green <= m * m) by (nonlinear_arith)
        requires
            0 <= green <= m,
    ;
    assert(0 <= blue * blue <= m * m) by (nonlinear_arith)
        requires
            0 <= blue <= m,
    ;
    assert(m * m == 65025 * square && square >= 1) by (nonlinear_arith)
        requires
            m == 255 * pixels,
            square == pixels * pixels,
            pixels >= 1,
    ;
}

/// Two percentages that both round the same sums are the same.
pub proof fn lemma_lightness_percent_unique(
    first: int,
    second: int,
    red: int,
    green: int,
    blue: int,
    pixels: int,
)
    requires
        pixels >= 1,
        is_lightness_percent(first, red, green, blue, pixels),
        is_lightness_percent(second, red, green, blue, pixels),
    ensures
        first == second,
{
    let unit = 13005 * (pixels * pixels);
    assert(unit >= 1) by (nonlinear_arith)
        requires
            unit == 13005 * (pixels * pixels),
            pixels >= 1,
    ;
    if first < second {
        lemma_odd_square_order(first, second, unit);
    } else if second < first {
        lemma_odd_square_order(second, first, unit);
    }
}

proof fn lemma_odd_square_order(low: int, high: int, unit: int)
    requires
        0 <= low < high,
        unit >= 1,
    ensures
        (2 * low + 1) * (2 * low + 1) * unit <= (2 * high - 1) * (2 * high - 1) * unit,
{
    let a = 2 * low + 1;
    let b = 2 * high - 1;
    assert(a * a <= b * b) by (nonlinear_arith)
        requires
            0 <= a <= b,
    ;
    assert(a * a * unit <= b * b * unit) by (nonlinear_arith)
        requires
            a * a <= b * b,
            unit >= 1,
    ;
}

/// The perceived lightness of a pixel buffer, from 0 to 100.
///
/// `rgbas` holds `pixels` pixels of three bytes, or of four where
/// `has_alpha`; the fourth is not read. Each channel is averaged over the
/// pixels, the squared averages are weighted with 0.241, 0.691 and 0.068,
/// and the root of their sum is scaled from 255 to 100 and rounded.
pub fn compute_perceived_lightness_percent(rgbas: &[u8], has_alpha: bool, pixels: usize) -> (percent: u8)
    requires
        1 <= pixels <= MAX_PIXELS,
        channel_count(has_alpha) * pixels <= rgbas@.len(),
    ensures
        percent <= 100,
        spec_lightness_percent(rgbas@, has_alpha, pixels as nat, percent as int),
{
    let channels: usize = if has_alpha {
        4
    } else {
        3
    };
    let mut red: u128 = 0;
    let mut green: u128 = 0;
    let mut blue: u128 = 0;
    let mut i: usize = 0;
    let length: usize = rgbas.len();
    while i < pixels
        invariant
            i <= pixels <= MAX_PIXELS,
            length == rgbas@.len(),
            3 <= channels <= 4,
            channels as int == channel_count(has_alpha),
            channels * pixels <= rgbas@.len(),
            red == channel_sum(rgbas@, channels as int, i as nat, 0),
            green == channel_sum(rgbas@, channels as int, i as nat, 1),
            blue == channel_sum(rgbas@, channels as int, i as nat, 2),
        decreases pixels - i,
    {
        proof {
            lemma_channel_sum_bound(rgbas@, channels as int, i as nat, 0);
            lemma_channel_sum_bound(rgbas@, channels as int, i as nat, 1);
            lemma_channel_sum_bound(rgbas@, channels as int, i as nat, 2);
            assert(0 <= i * channels && i * channels + channels <= channels * pixels)
                by (nonlinear_arith)
                requires
                    0 <= i < pixels,
                    channels >= 0,
            ;
        }
        let base: usize = i * channels;
        red = red + rgbas[base] as u128;
        green = green + rgbas[base + 1] as u128;
        blue = blue + rgbas[base + 2] as u128;
        i += 1;
    }
    let count: u128 = pixels as u128;
    proof {
        lemma_channel_sum_bound(rgbas@, channels as int, pixels as nat, 0);
        lemma_channel_sum_bound(rgbas@, channels as int, pixels as nat, 1);
        lemma_channel_sum_bound(rgbas@, channels as int, pixels as nat, 2);
        lemma_percent_at_most_100(red as int, green as int, blue as int, count as int);
        assert(count * count <= 18446744065119617025) by (nonlinear_arith)
            requires
                0 <= count <= 0xffff_ffff,
        ;
    }
    let square: u128 = count * count;
    let scaled: u128 = 8 * (241 * (red * red) + 691 * (green * green) + 68 * (blue * blue));
    let unit: u128 = 13005 * square;
    let mut percent: u8 = 0;
    let mut found: bool = false;
    while !found
        invariant
            percent <= 100,
            unit == 13005 * square,
            square <= 18446744065119617025,
            scaled < 525415005 * square,
            percent >= 1 ==> (2 * percent - 1) * (2 * percent - 1) * unit <= scaled,
            found ==> scaled < (2 * percent + 1) * (2 * percent + 1) * unit,
        decreases 101 - percent - (if found { 1int } else { 0int }),
    {
        let odd: u128 = 2 * (percent as u128) + 1;
        assert(0 <= odd * odd <= 40401) by (nonlinear_arith)
            requires
                0 <= odd <= 201,
        ;
        let odd_square: u128 = odd * odd;
        assert(percent == 100 ==> odd_square == 40401) by (nonlinear_arith)
            requires
                odd_square == odd * odd,
                percent == 100 ==> odd == 201,
        ;
        assert(odd_square * unit <= 40401 * unit) by (nonlinear_arith)
            requires
                0 <= odd_square <= 40401,
                0 <= unit,
        ;
        assert(odd_square * unit == (2 * percent + 1) * (2 * percent + 1) * unit);
        if scaled < odd_square * unit {
            found = true;
        } else {
            percent += 1;
        }
    }
    percent
}

} // verus!
