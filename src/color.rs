//! Display colors derived deterministically from a genome's bytes.
use vstd::arithmetic::div_mod::{lemma_add_mod_noop, lemma_mod_twice, lemma_mul_mod_noop_right};
use vstd::prelude::*;

verus! {

/// A color with 8-bit red, green, blue and alpha channels.
#[derive(Debug, Clone, Copy, PartialEq, Eq, Structural)]
pub struct Rgba {
    pub r: u8,
    pub g: u8,
    pub b: u8,
    pub a: u8,
}

/// Sum of the bytes.
pub open spec fn byte_sum(s: Seq<u8>) -> nat
    decreases s.len(),
{
    if s.len() == 0 {
        0
    } else {
        byte_sum(s.drop_last()) + s.last() as nat
    }
}

/// Smallest byte (255 for no bytes).
pub open spec fn byte_min(s: Seq<u8>) -> int
    decreases s.len(),
{
    if s.len() == 0 {
        255
    } else if (s.last() as int) < byte_min(s.drop_last()) {
        s.last() as int
    } else {
        byte_min(s.drop_last())
    }
}

/// Largest byte (0 for no bytes).
pub open spec fn byte_max(s: Seq<u8>) -> int
    decreases s.len(),
{
    if s.len() == 0 {
        0
    } else if (s.last() as int) > byte_max(s.drop_last()) {
        s.last() as int
    } else {
        byte_max(s.drop_last())
    }
}

/// Each byte weighted by its one-based position, summed.
pub open spec fn weighted_sum(s: Seq<u8>) -> nat
    decreases s.len(),
{
    if s.len() == 0 {
        0
    } else {
        weighted_sum(s.drop_last()) + (s.last() as nat) * s.len()
    }
}

/// Hue in degrees, in `[0, 360)`.
pub open spec fn hue_of(s: Seq<u8>) -> int {
    (weighted_sum(s) % 360) as int
}

/// Saturation in thousandths: wider byte spread gives a more vivid color.
pub open spec fn saturation_of(s: Seq<u8>) -> int {
    600 + (350 * (byte_max(s) - byte_min(s))) / 255
}

/// Value (brightness) in thousandths, from the mean byte.
pub open spec fn value_of(s: Seq<u8>) -> int {
    600 + (400 * byte_sum(s) as int) / (255 * s.len() as int)
}

/// The red, green and blue channels, in thousandths, of a hue in degrees and
/// a saturation and value in thousandths.
pub open spec fn hsv_channels(h: int, s: int, v: int) -> (int, int, int) {
    let f = h % 60;
    let p = v * (1000 - s) / 1000;
    let q = v * (60000 - s * f) / 60000;
    let t = v * (60000 - s * (60 - f)) / 60000;
    let sector = h / 60;
    if sector == 0 {
        (v, t, p)
    } else if sector == 1 {
        (q, v, p)
    } else if sector == 2 {
        (p, v, t)
    } else if sector == 3 {
        (p, q, v)
    } else if sector == 4 {
        (t, p, v)
    } else {
        (v, p, q)
    }
}

/// A channel in thousandths scaled to a byte, rounded to nearest.
pub open spec fn channel_byte(x: int) -> int {
    (x * 255 + 500) / 1000
}

/// The color of a byte sequence: opaque white for none, else the HSV color
/// whose hue, saturation and value the bytes give.
pub open spec fn color_of(s: Seq<u8>) -> Rgba {
    if s.len() == 0 {
        Rgba { r: 255, g: 255, b: 255, a: 255 }
    } else {
        let c = hsv_channels(hue_of(s), saturation_of(s), value_of(s));
        Rgba {
            r: channel_byte(c.0) as u8,
            g: channel_byte(c.1) as u8,
            b: channel_byte(c.2) as u8,
            a: 255,
        }
    }
}

proof fn lemma_min_max_bounds(s: Seq<u8>)
    ensures
        0 <= byte_min(s) <= 255,
        0 <= byte_max(s) <= 255,
        s.len() > 0 ==> byte_min(s) <= byte_max(s),
        byte_sum(s) <= 255 * s.len(),
    decreases s.len(),
{
    if s.len() > 0 {
        lemma_min_max_bounds(s.drop_last());
    }
}

proof fn lemma_channel_bounds(h: int, s: int, v: int)
    requires
        0 <= h < 360,
        0 <= s <= 1000,
        0 <= v <= 1000,
    ensures
        0 <= hsv_channels(h, s, v).0 <= 1000,
        0 <= hsv_channels(h, s, v).1 <= 1000,
        0 <= hsv_channels(h, s, v).2 <= 1000,
        hsv_channels(h, s, v).0 <= v && hsv_channels(h, s, v).1 <= v && hsv_channels(h, s, v).2 <= v,
{
    let f = h % 60;
    assert(0 <= v * (1000 - s) / 1000 <= v) by (nonlinear_arith)
        requires 0 <= s <= 1000, 0 <= v <= 1000;
    assert(0 <= v * (60000 - s * f) / 60000 <= v) by (nonlinear_arith)
        requires 0 <= s <= 1000, 0 <= v <= 1000, 0 <= f < 60;
    assert(0 <= v * (60000 - s * (60 - f)) / 60000 <= v) by (nonlinear_arith)
        requires 0 <= s <= 1000, 0 <= v <= 1000, 0 <= f < 60;
}

fn scale_channel(x: u64) -> (r: u8)
    requires
        x <= 1000,
    ensures
        r == channel_byte(x as int),
{
    ((x * 255 + 500) / 1000) as u8
}

/// Converts a hue in degrees (taken modulo 360) and a saturation and value
/// in thousandths to red, green and blue bytes; every channel lies between
/// the bytes of `v * (1 - s)` and of `v`.
pub fn hsv_to_rgb(h_deg: u64, s: u64, v: u64) -> (r: (u8, u8, u8))
    requires
        s <= 1000,
        v <= 1000,
    ensures
        r.0 == channel_byte(hsv_channels(h_deg as int % 360, s as int, v as int).0),
        r.1 == channel_byte(hsv_channels(h_deg as int % 360, s as int, v as int).1),
        r.2 == channel_byte(hsv_channels(h_deg as int % 360, s as int, v as int).2),
        r.0 <= channel_byte(v as int) && r.1 <= channel_byte(v as int) && r.2 <= channel_byte(v as int),
{
    let h_deg = h_deg % 360;
    proof {
        lemma_channel_bounds(h_deg as int, s as int, v as int);
        assert forall|x: int| 0 <= x <= v implies channel_byte(x) <= channel_byte(v as int) by {
            assert((x * 255 + 500) / 1000 <= (v * 255 + 500) / 1000) by (nonlinear_arith)
                requires 0 <= x <= v;
        }
    }
    let f = h_deg % 60;
    assert(s * f <= 60000 && s * (60 - f) <= 60000 && v * (1000 - s) <= 1000000) by (nonlinear_arith)
        requires s <= 1000, f < 60, v <= 1000;
    assert(v * (60000 - s * f) <= 60000000 && v * (60000 - s * (60 - f)) <= 60000000) by (nonlinear_arith)
        requires s <= 1000, f < 60, v <= 1000;
    let p = v * (1000 - s) / 1000;
    let q = v * (60000 - s * f) / 60000;
    let t = v * (60000 - s * (60 - f)) / 60000;
    let (cr, cg, cb) = match h_deg / 60 {
        0 => (v, t, p),
        1 => (q, v, p),
        2 => (p, v, t),
        3 => (p, q, v),
        4 => (t, p, v),
        _ => (v, p, q),
    };
    (scale_channel(cr), scale_channel(cg), scale_channel(cb))
}

/// Derives a stable display color from a byte sequence.
#[verifier::rlimit(30)]
pub fn rgba_from_bytes(bytes: &[u8]) -> (r: Rgba)
    ensures
        r == color_of(bytes@),
{
    if bytes.len() == 0 {
        return Rgba { r: 255, g: 255, b: 255, a: 255 };
    }
    let mut mn: u8 = 255;
    let mut mx: u8 = 0;
    let mut sum: u128 = 0;
    let mut hue: u64 = 0;
    let mut i: usize = 0;
    while i < bytes.len()
        invariant
            i <= bytes@.len(),
            mn as int == byte_min(bytes@.subrange(0, i as int)),
            mx as int == byte_max(bytes@.subrange(0, i as int)),
            sum as int == byte_sum(bytes@.subrange(0, i as int)),
            hue < 360,
            hue as int == weighted_sum(bytes@.subrange(0, i as int)) % 360,
            byte_sum(bytes@.subrange(0, i as int)) <= 255 * i,
        decreases bytes@.len() - i,
    {
        let b = bytes[i];
        proof {
            let pre = bytes@.subrange(0, i as int);
            let cur = bytes@.subrange(0, i as int + 1);
            assert(cur.drop_last() =~= pre);
            let a = weighted_sum(pre) as int;
            let x = (b as int) * (((i + 1) % 360) as int);
            let y = (b as int) * (i + 1);
            lemma_mod_twice(a, 360);
            lemma_add_mod_noop(a % 360, x, 360);
            lemma_add_mod_noop(a, y, 360);
            lemma_mul_mod_noop_right(b as int, i + 1, 360);
            assert(weighted_sum(cur) == weighted_sum(pre) + (b as nat) * (i + 1) as nat);
        }
        if b < mn {
            mn = b;
        }
        if b > mx {
            mx = b;
        }
        sum = sum + b as u128;
        let k = ((i + 1) % 360) as u64;
        assert((b as u64) * k <= 255 * 360) by (nonlinear_arith)
            requires b <= 255, k < 360;
        hue = (hue + (b as u64) * k) % 360;
        i = i + 1;
    }
    assert(bytes@.subrange(0, bytes@.len() as int) =~= bytes@);
    proof {
        lemma_min_max_bounds(bytes@);
    }
    let n = bytes.len() as u128;
    let s = 600 + (350 * ((mx - mn) as u64)) / 255;
    assert(400 * sum / (255 * n) <= 400) by (nonlinear_arith)
        requires sum <= 255 * n, n > 0;
    let v = 600 + ((400 * sum) / (255 * n)) as u64;
    assert(hue as int % 360 == hue as int);
    let (r, g, b) = hsv_to_rgb(hue, s, v);
    Rgba { r, g, b, a: 255 }
}

} // verus!
