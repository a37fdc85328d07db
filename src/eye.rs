//! Vision: nearby points turned into per-sector proximity values.
use crate::geometry::{HEADING_STEPS, Point, WORLD_SIZE, cos_of, cos_spec, sin_of, sin_spec};
use vstd::prelude::*;

verus! {

/// The most points one look may take in.
pub const MAX_TARGETS: usize = 1_000_000;

/// The most cells an eye may have.
pub const MAX_CELLS: usize = 64;

/// A proximity value of one target at distance zero, in thousandths.
pub const FULL_ENERGY: i64 = 1000;

/// How squarely heading `k` faces the vector `(vx, vy)`.
pub open spec fn facing(k: int, vx: int, vy: int) -> int {
    cos_spec(k) * vy - sin_spec(k) * vx
}

/// Among the first `n` headings, the one that faces `(vx, vy)` most
/// squarely, the lowest on a tie.
pub open spec fn best_step(vx: int, vy: int, n: int) -> int
    decreases n,
{
    if n <= 1 {
        0
    } else {
        let b = best_step(vx, vy, n - 1);
        if facing(n - 1, vx, vy) > facing(b, vx, vy) {
            n - 1
        } else {
            b
        }
    }
}

/// The heading nearest to the direction of `(vx, vy)`.
pub open spec fn bearing_spec(vx: int, vy: int) -> int {
    best_step(vx, vy, HEADING_STEPS as int)
}

/// A bearing relative to a heading, in `(-36, 36]` steps.
pub open spec fn relative_spec(bearing: int, heading: int) -> int {
    let d = (bearing - heading) % (HEADING_STEPS as int);
    if d > 36 {
        d - 72
    } else {
        d
    }
}

proof fn lemma_best_step_range(vx: int, vy: int, n: int)
    ensures
        0 <= best_step(vx, vy, n) < if n < 1 { 1 } else { n },
    decreases n,
{
    if n > 1 {
        lemma_best_step_range(vx, vy, n - 1);
    }
}

/// Finds the heading nearest to the direction of `(vx, vy)`.
pub fn bearing(vx: i64, vy: i64) -> (r: u32)
    requires
        -WORLD_SIZE < vx < WORLD_SIZE,
        -WORLD_SIZE < vy < WORLD_SIZE,
    ensures
        r == bearing_spec(vx as int, vy as int),
        r < HEADING_STEPS,
{
    let mut best: u32 = 0;
    let s0 = sin_of(0);
    let c0 = cos_of(0);
    assert(-1000 * WORLD_SIZE <= s0 * vx <= 1000 * WORLD_SIZE) by (nonlinear_arith)
        requires -1000 <= s0 <= 1000, -WORLD_SIZE < vx < WORLD_SIZE;
    assert(-1000 * WORLD_SIZE <= c0 * vy <= 1000 * WORLD_SIZE) by (nonlinear_arith)
        requires -1000 <= c0 <= 1000, -WORLD_SIZE < vy < WORLD_SIZE;
    let mut best_score: i64 = c0 * vy - s0 * vx;
    let mut k: u32 = 1;
    while k < HEADING_STEPS
        invariant
            1 <= k <= HEADING_STEPS,
            -WORLD_SIZE < vx < WORLD_SIZE,
            -WORLD_SIZE < vy < WORLD_SIZE,
            best == best_step(vx as int, vy as int, k as int),
            best < k,
            best_score == facing(best as int, vx as int, vy as int),
        decreases HEADING_STEPS - k,
    {
        let s = sin_of(k);
        let c = cos_of(k);
        assert(-1000 * WORLD_SIZE <= s * vx <= 1000 * WORLD_SIZE) by (nonlinear_arith)
            requires -1000 <= s <= 1000, -WORLD_SIZE < vx < WORLD_SIZE;
        assert(-1000 * WORLD_SIZE <= c * vy <= 1000 * WORLD_SIZE) by (nonlinear_arith)
            requires -1000 <= c <= 1000, -WORLD_SIZE < vy < WORLD_SIZE;
        let score = c * vy - s * vx;
        if score > best_score {
            best = k;
            best_score = score;
        }
        k = k + 1;
    }
    best
}

/// A sensor that sees points within a range and a field of view, split
/// into equal angular cells.
#[derive(Clone, Copy, Debug)]
pub struct Eye {
    fov_steps: u32,
    range: i64,
    cells: usize,
}

impl Eye {
    #[verifier::type_invariant]
    spec fn wf(&self) -> bool {
        &&& 0 < self.fov_steps <= HEADING_STEPS
        &&& 0 < self.range <= WORLD_SIZE
        &&& 0 < self.cells <= MAX_CELLS
    }

    /// The field of view, in heading steps.
    pub closed spec fn fov_spec(&self) -> int {
        self.fov_steps as int
    }

    /// The range, in world units.
    pub closed spec fn range_spec(&self) -> int {
        self.range as int
    }

    /// The number of cells.
    pub closed spec fn cells_spec(&self) -> nat {
        self.cells as nat
    }

    pub fn new(fov_steps: u32, range: i64, cells: usize) -> (r: Self)
        requires
            0 < fov_steps <= HEADING_STEPS,
            0 < range <= WORLD_SIZE,
            0 < cells <= MAX_CELLS,
        ensures
            r.fov_spec() == fov_steps,
            r.range_spec() == range,
            r.cells_spec() == cells,
    {
        Eye { fov_steps, range, cells }
    }

    pub fn cells(&self) -> (r: usize)
        ensures
            r == self.cells_spec(),
            0 < r <= MAX_CELLS,
    {
        proof {
            use_type_invariant(self);
        }
        self.cells
    }

    /// The cell that a relative bearing inside the field of view falls in.
    pub open spec fn cell_of(&self, rel: int) -> int {
        let half = self.fov_spec() / 2;
        let c = ((rel + half) * self.cells_spec()) / self.fov_spec();
        if c > self.cells_spec() - 1 {
            self.cells_spec() - 1
        } else {
            c
        }
    }

    /// What target `t` adds to cell `c`: nothing when it is out of range or
    /// out of view or falls in another cell, and more the nearer it is.
    pub open spec fn contribution(&self, origin: Point, heading: int, t: Point, c: int) -> int {
        let vx = t.x - origin.x;
        let vy = t.y - origin.y;
        let d2 = vx * vx + vy * vy;
        let r2 = self.range_spec() * self.range_spec();
        let rel = relative_spec(bearing_spec(vx, vy), heading);
        let half = self.fov_spec() / 2;
        if d2 >= r2 || rel < -half || rel > half || self.cell_of(rel) != c {
            0
        } else {
            ((r2 - d2) * FULL_ENERGY) / r2
        }
    }

    /// What the first `n` targets add to cell `c`.
    pub open spec fn cell_total(&self, origin: Point, heading: int, ts: Seq<Point>, c: int, n: int) -> int
        decreases n,
    {
        if n <= 0 {
            0
        } else {
            self.cell_total(origin, heading, ts, c, n - 1) + self.contribution(origin, heading, ts[n - 1], c)
        }
    }

    /// The vision of each cell.
    pub open spec fn vision_spec(&self, origin: Point, heading: int, ts: Seq<Point>) -> Seq<int> {
        Seq::new(self.cells_spec(), |c: int| self.cell_total(origin, heading, ts, c, ts.len() as int))
    }

    /// Where target `t` falls, if anywhere: its cell and what it adds there.
    pub fn look_at(&self, origin: Point, heading: u32, t: Point) -> (r: Option<(usize, u64)>)
        requires
            origin.on_torus(),
            heading < HEADING_STEPS,
            t.on_torus(),
        ensures
            r matches Some((cell, e)) ==> cell < self.cells_spec() && e <= FULL_ENERGY,
            forall|c: int| #[trigger] self.contribution(origin, heading as int, t, c) == match r {
                Some((cell, e)) => if c == cell as int { e as int } else { 0 },
                None => 0,
            },
    {
        proof {
            use_type_invariant(self);
        }
        assert(self.range * self.range <= WORLD_SIZE * WORLD_SIZE) by (nonlinear_arith)
            requires 0 < self.range <= WORLD_SIZE;
        let r2 = self.range * self.range;
        let half = self.fov_steps / 2;
        let vx = t.x - origin.x;
        let vy = t.y - origin.y;
        assert(0 <= vx * vx <= WORLD_SIZE * WORLD_SIZE) by (nonlinear_arith)
            requires -WORLD_SIZE < vx < WORLD_SIZE;
        assert(0 <= vy * vy <= WORLD_SIZE * WORLD_SIZE) by (nonlinear_arith)
            requires -WORLD_SIZE < vy < WORLD_SIZE;
        let d2 = vx * vx + vy * vy;
        if d2 >= r2 {
            return None;
        }
        let b = bearing(vx, vy);
        let diff: i64 = (b as i64 - heading as i64 + 72) % 72;
        let rel: i64 = if diff > 36 { diff - 72 } else { diff };
        assert(relative_spec(b as int, heading as int) == rel);
        if d2 < r2 && -(half as i64) <= rel && rel <= half as i64 {
            assert(0 <= (rel + half as i64) * (self.cells as i64) <= 72 * 64) by (nonlinear_arith)
                requires 0 <= rel + half <= 72, 0 < self.cells <= 64;
            let raw = ((rel + half as i64) * (self.cells as i64)) / (self.fov_steps as i64);
            let cell: usize = if raw > self.cells as i64 - 1 { self.cells - 1 } else { raw as usize };
            assert(0 <= (r2 - d2) * FULL_ENERGY <= r2 * FULL_ENERGY) by (nonlinear_arith)
                requires 0 < r2 - d2 <= r2;
            let energy = ((r2 - d2) * FULL_ENERGY) / r2;
            assert(((r2 - d2) * FULL_ENERGY) / (r2 as int) <= FULL_ENERGY) by (nonlinear_arith)
                requires 0 < r2 - d2 <= r2;
            assert(self.cell_of(rel as int) == cell);
            Some((cell, energy as u64))
        } else {
            None
        }
    }

    /// Looks from `origin` along `heading` at the target points.
    pub fn process_vision(&self, origin: Point, heading: u32, targets: &Vec<Point>) -> (r: Vec<u64>)
        requires
            origin.on_torus(),
            heading < HEADING_STEPS,
            targets@.len() <= MAX_TARGETS,
            forall|i: int| 0 <= i < targets@.len() ==> (#[trigger] targets@[i]).on_torus(),
        ensures
            r@.len() == self.cells_spec(),
            forall|c: int| 0 <= c < r@.len() ==> #[trigger] r@[c] as int == self.vision_spec(origin, heading as int, targets@)[c],
            forall|c: int| 0 <= c < r@.len() ==> #[trigger] r@[c] <= FULL_ENERGY * targets@.len(),
    {
        proof {
            use_type_invariant(self);
        }
        let mut out: Vec<u64> = Vec::new();
        let mut c: usize = 0;
        while c < self.cells
            invariant
                c <= self.cells,
                out@.len() == c,
                forall|k: int| 0 <= k < c ==> #[trigger] out@[k] == 0,
            decreases self.cells - c,
        {
            out.push(0);
            c = c + 1;
        }
        let mut i: usize = 0;
        while i < targets.len()
            invariant
                0 < self.fov_steps <= HEADING_STEPS,
                0 < self.range <= WORLD_SIZE,
                0 < self.cells <= MAX_CELLS,
                origin.on_torus(),
                heading < HEADING_STEPS,
                targets@.len() <= MAX_TARGETS,
                forall|k: int| 0 <= k < targets@.len() ==> (#[trigger] targets@[k]).on_torus(),
                i <= targets@.len(),
                out@.len() == self.cells,
                forall|k: int| 0 <= k < out@.len() ==> #[trigger] out@[k] as int == self.cell_total(origin, heading as int, targets@, k, i as int),
                forall|k: int| 0 <= k < out@.len() ==> #[trigger] out@[k] <= FULL_ENERGY * i,
            decreases targets@.len() - i,
        {
            let t = targets[i];
            let seen = self.look_at(origin, heading, t);
            let ghost old_out = out@;
            match seen {
                Some((cell, energy)) => {
                    let v = out[cell];
                    out.set(cell, v + energy);
                },
                None => {},
            }
            proof {
                assert forall|k: int| 0 <= k < out@.len() implies #[trigger] out@[k] as int == self.cell_total(origin, heading as int, targets@, k, i + 1) by {
                    assert(self.cell_total(origin, heading as int, targets@, k, i + 1)
                        == self.cell_total(origin, heading as int, targets@, k, i as int) + self.contribution(origin, heading as int, t, k));
                    assert(old_out[k] as int == self.cell_total(origin, heading as int, targets@, k, i as int));
                }
                assert forall|k: int| 0 <= k < out@.len() implies #[trigger] out@[k] <= FULL_ENERGY * (i + 1) by {
                    assert(old_out[k] <= FULL_ENERGY * i);
                }
            }
            i = i + 1;
        }
        out
    }
}

impl Default for Eye {
    /// A field of view of 225 degrees, a quarter of the world's width as
    /// range, and nine cells.
    fn default() -> (r: Self)
        ensures
            r.fov_spec() == 45,
            r.range_spec() == WORLD_SIZE / 4,
            r.cells_spec() == 9,
    {
        Eye { fov_steps: 45, range: WORLD_SIZE / 4, cells: 9 }
    }
}

} // verus!
