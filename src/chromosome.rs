//! The genome: a fixed-length sequence of integer genes.
use vstd::prelude::*;

verus! {

/// One byte of the little-endian two's-complement encoding of `x`.
pub open spec fn le_byte(x: i32, j: int) -> u8 {
    let u: int = if x < 0 { x + 0x1_0000_0000 } else { x as int };
    ((u / pow256(j)) % 256) as u8
}

pub open spec fn pow256(j: int) -> int {
    if j == 0 {
        1
    } else if j == 1 {
        0x100
    } else if j == 2 {
        0x1_0000
    } else {
        0x100_0000
    }
}

/// The little-endian bytes of each gene in turn, four per gene.
pub open spec fn genes_bytes(g: Seq<i32>) -> Seq<u8> {
    Seq::new(4 * g.len(), |k: int| le_byte(g[k / 4], k % 4))
}

/// An ordered sequence of genes, each a fixed-point weight in thousandths.
#[derive(Clone, Debug)]
pub struct Chromosome {
    genes: Vec<i32>,
}

impl View for Chromosome {
    type V = Seq<i32>;

    closed spec fn view(&self) -> Seq<i32> {
        self.genes@
    }
}

impl Chromosome {
    /// Builds a chromosome holding the given genes in order.
    pub fn from_genes(genes: Vec<i32>) -> (r: Self)
        ensures
            r@ == genes@,
    {
        Chromosome { genes }
    }

    /// Gives the genes back, in order.
    pub fn into_genes(self) -> (r: Vec<i32>)
        ensures
            r@ == self@,
    {
        self.genes
    }

    /// The genes, read-only.
    pub fn genes(&self) -> (r: &Vec<i32>)
        ensures
            r@ == self@,
    {
        &self.genes
    }

    /// Iterates over the genes in order.
    pub fn iter(&self) -> std::slice::Iter<'_, i32> {
        self.genes.iter()
    }

    pub fn len(&self) -> (r: usize)
        ensures
            r == self@.len(),
    {
        self.genes.len()
    }

    /// The gene at `index`.
    pub fn get(&self, index: usize) -> (r: i32)
        requires
            index < self@.len(),
        ensures
            r == self@[index as int],
    {
        self.genes[index]
    }

    /// Replaces the gene at `index`.
    pub fn set(&mut self, index: usize, value: i32)
        requires
            index < old(self)@.len(),
        ensures
            final(self)@ == old(self)@.update(index as int, value),
    {
        self.genes.set(index, value);
    }

    /// The genes as little-endian bytes, four per gene.
    pub fn to_bytes(&self) -> (r: Vec<u8>)
        requires
            4 * self@.len() <= usize::MAX,
        ensures
            r@ == genes_bytes(self@),
    {
        let mut out: Vec<u8> = Vec::new();
        let mut i: usize = 0;
        while i < self.genes.len()
            invariant
                i <= self@.len(),
                4 * self@.len() <= usize::MAX,
                out@.len() == 4 * i,
                forall|k: int| 0 <= k < 4 * i ==> #[trigger] out@[k] == le_byte(self@[k / 4], k % 4),
            decreases self@.len() - i,
        {
            let g = self.genes[i];
            let u: u32 = if g < 0 {
                (g as i64 + 0x1_0000_0000) as u32
            } else {
                g as u32
            };
            out.push((u % 0x100) as u8);
            out.push(((u / 0x100) % 0x100) as u8);
            out.push(((u / 0x1_0000) % 0x100) as u8);
            out.push(((u / 0x100_0000) % 0x100) as u8);
            proof {
                assert forall|k: int| 4 * i <= k < 4 * i + 4 implies #[trigger] out@[k] == le_byte(self@[k / 4], k % 4) by {
                    assert(k / 4 == i);
                }
            }
            i = i + 1;
        }
        assert(out@ =~= genes_bytes(self@));
        out
    }
}

} // verus!
