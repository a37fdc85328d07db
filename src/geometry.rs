//! Points on the unit torus, in fixed point, and headings in whole steps.
use vstd::prelude::*;

verus! {

/// The world's side: coordinates are millionths of it.
pub const WORLD_SIZE: i64 = 1_000_000;

/// Headings are multiples of five degrees: a full turn has this many.
pub const HEADING_STEPS: u32 = 72;

/// A position in the world.
#[derive(Clone, Copy, Debug, PartialEq, Eq, Structural)]
pub struct Point {
    pub x: i64,
    pub y: i64,
}

impl Point {
    /// Both coordinates lie in `[0, WORLD_SIZE)`.
    pub open spec fn on_torus(&self) -> bool {
        0 <= self.x < WORLD_SIZE && 0 <= self.y < WORLD_SIZE
    }
}

/// A coordinate brought into `[0, WORLD_SIZE)` by whole turns of the torus.
pub open spec fn wrap_spec(c: int) -> int {
    c % (WORLD_SIZE as int)
}

/// Wraps a coordinate that has moved less than one world's width past
/// either edge.
pub fn wrap(c: i64) -> (r: i64)
    requires
        -WORLD_SIZE <= c < 2 * WORLD_SIZE,
    ensures
        r == wrap_spec(c as int),
        0 <= r < WORLD_SIZE,
{
    if c < 0 {
        c + WORLD_SIZE
    } else if c >= WORLD_SIZE {
        c - WORLD_SIZE
    } else {
        c
    }
}

/// Squared Euclidean distance.
pub open spec fn dist_sq_spec(a: Point, b: Point) -> int {
    (a.x - b.x) * (a.x - b.x) + (a.y - b.y) * (a.y - b.y)
}

pub fn dist_sq(a: Point, b: Point) -> (r: i64)
    requires
        a.on_torus(),
        b.on_torus(),
    ensures
        r == dist_sq_spec(a, b),
        0 <= r <= 2 * WORLD_SIZE * WORLD_SIZE,
{
    let dx = a.x - b.x;
    let dy = a.y - b.y;
    assert(0 <= dx * dx <= WORLD_SIZE * WORLD_SIZE) by (nonlinear_arith)
        requires -WORLD_SIZE < dx < WORLD_SIZE;
    assert(0 <= dy * dy <= WORLD_SIZE * WORLD_SIZE) by (nonlinear_arith)
        requires -WORLD_SIZE < dy < WORLD_SIZE;
    dx * dx + dy * dy
}

/// Cosine of `5 * m` degrees, in thousandths, for `m` in `0..=18`.
#[verifier::opaque]
pub open spec fn quarter_cos_spec(m: int) -> int {
    if m <= 0 { 1000 }
    else if m == 1 { 996 }
    else if m == 2 { 985 }
    else if m == 3 { 966 }
    else if m == 4 { 940 }
    else if m == 5 { 906 }
    else if m == 6 { 866 }
    else if m == 7 { 819 }
    else if m == 8 { 766 }
    else if m == 9 { 707 }
    else if m == 10 { 643 }
    else if m == 11 { 574 }
    else if m == 12 { 500 }
    else if m == 13 { 423 }
    else if m == 14 { 342 }
    else if m == 15 { 259 }
    else if m == 16 { 174 }
    else if m == 17 { 87 }
    else { 0 }
}

fn quarter_cos(m: u32) -> (r: i64)
    ensures
        r == quarter_cos_spec(m as int),
        0 <= r <= 1000,
{
    reveal(quarter_cos_spec);
    match m {
        0 => 1000,
        1 => 996,
        2 => 985,
        3 => 966,
        4 => 940,
        5 => 906,
        6 => 866,
        7 => 819,
        8 => 766,
        9 => 707,
        10 => 643,
        11 => 574,
        12 => 500,
        13 => 423,
        14 => 342,
        15 => 259,
        16 => 174,
        17 => 87,
        _ => 0,
    }
}

/// Cosine of heading `k` (of `5 * k` degrees), in thousandths.
#[verifier::opaque]
pub open spec fn cos_spec(k: int) -> int {
    let q = (k % 72) / 18;
    let m = (k % 72) % 18;
    if q == 0 {
        quarter_cos_spec(m)
    } else if q == 1 {
        -quarter_cos_spec(18 - m)
    } else if q == 2 {
        -quarter_cos_spec(m)
    } else {
        quarter_cos_spec(18 - m)
    }
}

/// Sine of heading `k`, in thousandths.
pub open spec fn sin_spec(k: int) -> int {
    cos_spec(k + 54)
}

pub fn cos_of(k: u32) -> (r: i64)
    requires
        k < 2 * HEADING_STEPS,
    ensures
        r == cos_spec(k as int),
        -1000 <= r <= 1000,
{
    reveal(cos_spec);
    let j = k % 72;
    let q = j / 18;
    let m = j % 18;
    if q == 0 {
        quarter_cos(m)
    } else if q == 1 {
        -quarter_cos(18 - m)
    } else if q == 2 {
        -quarter_cos(m)
    } else {
        quarter_cos(18 - m)
    }
}

pub fn sin_of(k: u32) -> (r: i64)
    requires
        k < HEADING_STEPS,
    ensures
        r == sin_spec(k as int),
        -1000 <= r <= 1000,
{
    cos_of(k + 54)
}

/// `len * t / 1000`, rounded toward zero, for a non-negative length.
pub open spec fn scale_spec(len: int, t: int) -> int {
    if t < 0 {
        -((len * -t) / 1000)
    } else {
        (len * t) / 1000
    }
}

fn scale(len: i64, t: i64) -> (r: i64)
    requires
        0 <= len <= WORLD_SIZE,
        -1000 <= t <= 1000,
    ensures
        r == scale_spec(len as int, t as int),
        -len <= r <= len,
{
    if t < 0 {
        assert(0 <= len * -t <= len * 1000) by (nonlinear_arith)
            requires 0 <= len, 0 < -t <= 1000;
        -((len * -t) / 1000)
    } else {
        assert(0 <= len * t <= len * 1000) by (nonlinear_arith)
            requires 0 <= len, 0 <= t <= 1000;
        (len * t) / 1000
    }
}

/// Where a step of length `len` along heading `k` from `p` ends, wrapped
/// round the torus. Heading zero points along `+y`, and headings turn
/// counter-clockwise.
pub open spec fn advance_spec(p: Point, k: int, len: int) -> Point {
    Point {
        x: wrap_spec(p.x - scale_spec(len, sin_spec(k))) as i64,
        y: wrap_spec(p.y + scale_spec(len, cos_spec(k))) as i64,
    }
}

/// Moves `p` by `len` along heading `k`; the result stays on the torus.
pub fn advance(p: Point, k: u32, len: i64) -> (r: Point)
    requires
        p.on_torus(),
        k < HEADING_STEPS,
        0 <= len <= WORLD_SIZE,
    ensures
        r == advance_spec(p, k as int, len as int),
        r.on_torus(),
{
    let dx = scale(len, sin_of(k));
    let dy = scale(len, cos_of(k));
    Point { x: wrap(p.x - dx), y: wrap(p.y + dy) }
}

/// A heading turned by `delta` steps, kept in `[0, HEADING_STEPS)`.
pub open spec fn turn_spec(k: int, delta: int) -> int {
    (k + delta) % (HEADING_STEPS as int)
}

pub fn turn(k: u32, delta: i64) -> (r: u32)
    requires
        k < HEADING_STEPS,
        -(HEADING_STEPS as i64) <= delta <= HEADING_STEPS as i64,
    ensures
        r == turn_spec(k as int, delta as int),
        r < HEADING_STEPS,
{
    let s = k as i64 + delta;
    if s < 0 {
        (s + 72) as u32
    } else if s >= 72 {
        (s - 72) as u32
    } else {
        s as u32
    }
}

/// A coordinate that has crossed an edge of the world, moving less than a
/// world's width, comes back inside it.
pub proof fn lemma_wrap_stays_on_torus(c: int)
    ensures
        0 <= wrap_spec(c) < WORLD_SIZE,
        0 <= c < WORLD_SIZE ==> wrap_spec(c) == c,
        WORLD_SIZE <= c < 2 * WORLD_SIZE ==> wrap_spec(c) == c - WORLD_SIZE,
        -WORLD_SIZE <= c < 0 ==> wrap_spec(c) == c + WORLD_SIZE,
{
}

} // verus!
