//! A creature's brain: a feed-forward network read from a chromosome.
use crate::chromosome::{Chromosome, genes_bytes};
use crate::color::{Rgba, color_of, rgba_from_bytes};
use crate::rng::draw_between;
use rand_chacha::ChaCha8Rng;
use vstd::prelude::*;

verus! {

/// The most input neurons a brain may have.
pub const MAX_INPUTS: usize = 128;

/// The largest value a neuron gives, in thousandths.
pub const ACTIVATION_CAP: i64 = 1_000_000_000;

/// The largest weight that a random brain starts with, in thousandths.
pub const INITIAL_WEIGHT: i64 = 1000;

/// Genes of a layer of `outs` neurons over `ins` inputs: a bias and a
/// weight per input for each neuron.
pub open spec fn layer_len(ins: int, outs: int) -> int {
    (ins + 1) * outs
}

/// Genes of a brain with `n` inputs: `n` inputs, `2n` hidden neurons and
/// two outputs (a change of speed and a change of heading).
pub open spec fn weight_count(n: int) -> int {
    layer_len(n, 2 * n) + layer_len(2 * n, 2)
}

/// `sum_{i < n} g[off + i] * x[i]`.
pub open spec fn dot(g: Seq<i32>, off: int, x: Seq<i64>, n: int) -> int
    decreases n,
{
    if n <= 0 {
        0
    } else {
        dot(g, off, x, n - 1) + g[off + n - 1] * x[n - 1]
    }
}

/// A neuron's output: the bias plus the weighted inputs, rectified and
/// capped. Weights and values are in thousandths.
pub open spec fn neuron_spec(g: Seq<i32>, off: int, x: Seq<i64>) -> i64 {
    let sum = g[off] * 1000 + dot(g, off + 1, x, x.len() as int);
    if sum <= 0 {
        0
    } else if sum / 1000 > ACTIVATION_CAP {
        ACTIVATION_CAP
    } else {
        (sum / 1000) as i64
    }
}

/// The outputs of a layer of `outs` neurons whose genes start at `off`.
pub open spec fn layer_spec(g: Seq<i32>, off: int, x: Seq<i64>, outs: int) -> Seq<i64> {
    Seq::new(outs as nat, |j: int| neuron_spec(g, off + j * (x.len() + 1), x))
}

/// The network's two outputs for input `x`.
pub open spec fn propagate_spec(g: Seq<i32>, x: Seq<i64>) -> Seq<i64> {
    let n = x.len() as int;
    let hidden = layer_spec(g, 0, x, 2 * n);
    layer_spec(g, layer_len(n, 2 * n), hidden, 2)
}

pub open spec fn inputs_in_range(x: Seq<i64>) -> bool {
    forall|i: int| 0 <= i < x.len() ==> 0 <= #[trigger] x[i] <= ACTIVATION_CAP
}

proof fn lemma_dot_bound(g: Seq<i32>, off: int, x: Seq<i64>, n: int)
    requires
        0 <= n <= x.len(),
        0 <= off,
        off + n <= g.len(),
        inputs_in_range(x),
    ensures
        -(0x8000_0000 * ACTIVATION_CAP) * n <= dot(g, off, x, n) <= (0x8000_0000 * ACTIVATION_CAP) * n,
    decreases n,
{
    if n > 0 {
        lemma_dot_bound(g, off, x, n - 1);
        let w = g[off + n - 1] as int;
        let v = x[n - 1] as int;
        assert(-(0x8000_0000 * ACTIVATION_CAP) <= w * v <= 0x8000_0000 * ACTIVATION_CAP) by (nonlinear_arith)
            requires -0x8000_0000 <= w < 0x8000_0000, 0 <= v <= ACTIVATION_CAP;
        let b = 0x8000_0000 * ACTIVATION_CAP;
        assert(b * n == b * (n - 1) + b) by (nonlinear_arith);
    }
}

/// Evaluates one neuron whose genes start at `off`.
fn neuron(g: &Vec<i32>, off: usize, x: &Vec<i64>) -> (r: i64)
    requires
        off + x@.len() + 1 <= g@.len(),
        x@.len() <= 2 * MAX_INPUTS,
        inputs_in_range(x@),
    ensures
        r == neuron_spec(g@, off as int, x@),
        0 <= r <= ACTIVATION_CAP,
{
    let mut sum: i128 = g[off] as i128 * 1000;
    let glen = g.len();
    let mut i: usize = 0;
    while i < x.len()
        invariant
            glen == g@.len(),
            off + x@.len() + 1 <= g@.len(),
            x@.len() <= 2 * MAX_INPUTS,
            inputs_in_range(x@),
            i <= x@.len(),
            sum == g@[off as int] * 1000 + dot(g@, off + 1, x@, i as int),
        decreases x@.len() - i,
    {
        proof {
            lemma_dot_bound(g@, off + 1, x@, i + 1);
            lemma_dot_bound(g@, off + 1, x@, i as int);
        }
        sum = sum + g[off + 1 + i] as i128 * x[i] as i128;
        i = i + 1;
    }
    if sum <= 0 {
        0
    } else if sum / 1000 > ACTIVATION_CAP as i128 {
        ACTIVATION_CAP
    } else {
        (sum / 1000) as i64
    }
}

/// Evaluates a layer of `outs` neurons whose genes start at `off`.
fn layer(g: &Vec<i32>, off: usize, x: &Vec<i64>, outs: usize) -> (r: Vec<i64>)
    requires
        off + layer_len(x@.len() as int, outs as int) <= g@.len(),
        x@.len() <= 2 * MAX_INPUTS,
        inputs_in_range(x@),
    ensures
        r@ == layer_spec(g@, off as int, x@, outs as int),
        inputs_in_range(r@),
{
    let mut out: Vec<i64> = Vec::new();
    let glen = g.len();
    let mut j: usize = 0;
    while j < outs
        invariant
            glen == g@.len(),
            off + layer_len(x@.len() as int, outs as int) <= g@.len(),
            x@.len() <= 2 * MAX_INPUTS,
            inputs_in_range(x@),
            j <= outs,
            out@ =~= layer_spec(g@, off as int, x@, outs as int).subrange(0, j as int),
            inputs_in_range(out@),
        decreases outs - j,
    {
        assert((j + 1) * (x@.len() + 1) <= (x@.len() + 1) * outs) by (nonlinear_arith)
            requires j < outs;
        assert(j * (x@.len() + 1) <= (j + 1) * (x@.len() + 1)) by (nonlinear_arith);
        assert((j + 1) * (x@.len() + 1) == j * (x@.len() + 1) + x@.len() + 1) by (nonlinear_arith);
        let v = neuron(g, off + j * (x.len() + 1), x);
        out.push(v);
        j = j + 1;
    }
    out
}

/// The number of genes of a brain with `n` inputs.
pub fn weight_count_of(n: usize) -> (r: usize)
    requires
        0 < n <= MAX_INPUTS,
    ensures
        r == weight_count(n as int),
{
    proof {
        Brain::lemma_sizes(n as int);
    }
    (n + 1) * (2 * n) + (2 * n + 1) * 2
}

/// A network of `inputs` inputs, held as the flat genes it is read from.
pub struct Brain {
    genes: Chromosome,
    inputs: usize,
}

impl Brain {
    #[verifier::type_invariant]
    spec fn wf(&self) -> bool {
        &&& 0 < self.inputs <= MAX_INPUTS
        &&& self.genes@.len() == weight_count(self.inputs as int)
    }

    /// The genes.
    pub closed spec fn genome(&self) -> Seq<i32> {
        self.genes@
    }

    /// The number of inputs.
    pub closed spec fn inputs_spec(&self) -> nat {
        self.inputs as nat
    }

    proof fn lemma_sizes(n: int)
        requires
            0 < n <= MAX_INPUTS,
        ensures
            0 < weight_count(n) <= 0x10_0000,
            layer_len(n, 2 * n) + layer_len(2 * n, 2) == weight_count(n),
    {
        assert(0 < (n + 1) * (2 * n) <= 129 * 256) by (nonlinear_arith)
            requires 0 < n <= 128;
    }

    /// A brain with random weights in `[-1, 1]`.
    pub fn random(rng: &mut ChaCha8Rng, inputs: usize) -> (r: Self)
        requires
            0 < inputs <= MAX_INPUTS,
        ensures
            r.inputs_spec() == inputs,
            r.genome().len() == weight_count(inputs as int),
            forall|i: int| 0 <= i < r.genome().len() ==> -INITIAL_WEIGHT <= #[trigger] r.genome()[i] <= INITIAL_WEIGHT,
    {
        proof {
            Brain::lemma_sizes(inputs as int);
        }
        let count = (inputs + 1) * (2 * inputs) + (2 * inputs + 1) * 2;
        let mut genes: Vec<i32> = Vec::new();
        let mut i: usize = 0;
        while i < count
            invariant
                i <= count,
                genes@.len() == i,
                forall|k: int| 0 <= k < i ==> -INITIAL_WEIGHT <= #[trigger] genes@[k] <= INITIAL_WEIGHT,
            decreases count - i,
        {
            genes.push(draw_between(rng, -INITIAL_WEIGHT, INITIAL_WEIGHT) as i32);
            i = i + 1;
        }
        Brain { genes: Chromosome::from_genes(genes), inputs }
    }

    /// The brain that a chromosome of the right length encodes.
    pub fn from_chromosome(chromosome: Chromosome, inputs: usize) -> (r: Self)
        requires
            0 < inputs <= MAX_INPUTS,
            chromosome@.len() == weight_count(inputs as int),
        ensures
            r.inputs_spec() == inputs,
            r.genome() == chromosome@,
    {
        Brain { genes: chromosome, inputs }
    }

    /// The genes as a chromosome, as many as the brain's inputs call for.
    pub fn as_chromosome(&self) -> (r: Chromosome)
        ensures
            r@ == self.genome(),
            0 < self.inputs_spec() <= MAX_INPUTS,
            r@.len() == weight_count(self.inputs_spec() as int),
            r@.len() <= 0x10_0000,
    {
        proof {
            use_type_invariant(self);
            Brain::lemma_sizes(self.inputs as int);
        }
        let g = self.genes.genes();
        let mut out: Vec<i32> = Vec::new();
        let mut i: usize = 0;
        while i < g.len()
            invariant
                i <= g@.len(),
                out@ =~= g@.subrange(0, i as int),
            decreases g@.len() - i,
        {
            out.push(g[i]);
            i = i + 1;
        }
        Chromosome::from_genes(out)
    }

    /// The display color of the genes.
    pub fn color(&self) -> (r: Rgba)
        ensures
            r == color_of(genes_bytes(self.genome())),
    {
        proof {
            use_type_invariant(self);
            Brain::lemma_sizes(self.inputs as int);
        }
        let bytes = self.genes.to_bytes();
        rgba_from_bytes(bytes.as_slice())
    }

    /// The two outputs for the given inputs.
    pub fn propagate(&self, input: &Vec<i64>) -> (r: Vec<i64>)
        requires
            input@.len() == self.inputs_spec(),
            inputs_in_range(input@),
        ensures
            r@ == propagate_spec(self.genome(), input@),
            r@.len() == 2,
            inputs_in_range(r@),
    {
        proof {
            use_type_invariant(self);
            Brain::lemma_sizes(self.inputs as int);
        }
        let n = input.len();
        let g = self.genes.genes();
        let hidden = layer(g, 0, input, 2 * n);
        layer(g, (n + 1) * (2 * n), &hidden, 2)
    }
}

} // verus!
