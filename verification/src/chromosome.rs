//! A chromosome: a flat ordered sequence of fixed-point genes.

use vstd::prelude::*;
use crate::fx::fx_in_range;

verus! {

/// All genes of a sequence lie in the representable fixed-point range.
pub open spec fn genes_in_range(s: Seq<i64>) -> bool {
    forall|i: int| 0 <= i < s.len() ==> fx_in_range(#[trigger] s[i] as int)
}

/// A flat ordered sequence of fixed-point genes; its view is that sequence.
#[derive(Clone, Debug, PartialEq, Eq)]
pub struct Chromosome {
    genes: Vec<i64>,
}

impl View for Chromosome {
    type V = Seq<i64>;

    closed spec fn view(&self) -> Seq<i64> {
        self.genes@
    }
}

impl Chromosome {
    /// Wrap a flat gene vector.
    pub fn from_genes(genes: Vec<i64>) -> (r: Self)
        ensures
            r@ == genes@,
    {
        Chromosome { genes }
    }

    /// Number of genes.
    pub fn len(&self) -> (r: usize)
        ensures
            r == self@.len(),
    {
        self.genes.len()
    }

    /// The gene at `index`.
    pub fn gene(&self, index: usize) -> (r: i64)
        requires
            index < self@.len(),
        ensures
            r == self@[index as int],
    {
        self.genes[index]
    }

    /// Replace the gene at `index`.
    pub fn set_gene(&mut self, index: usize, value: i64)
        requires
            index < old(self)@.len(),
        ensures
            final(self)@ == old(self)@.update(index as int, value),
    {
        self.genes.set(index, value);
    }

    /// The genes as a plain vector, in order.
    pub fn genes(&self) -> (r: &Vec<i64>)
        ensures
            r@ == self@,
    {
        &self.genes
    }
}

} // verus!
