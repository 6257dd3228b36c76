use vstd::prelude::*;
use vstd::arithmetic::power2::{pow2, lemma_pow2_unfold, lemma_pow2_strictly_increases, lemma2_to64};
use crate::circuit::{row_bits, row_bits_exec};

verus! {

/// A truth table as rows of bits: `input_size` input columns followed by
/// `output_size` output columns.
#[derive(Debug)]
pub struct TruthTable {
    pub data: Vec<Vec<usize>>,
    pub input_size: usize,
    pub output_size: usize,
}

/// Row `i` of a blank table: the input bits of row `i`, then one empty
/// cell per output.
pub open spec fn blank_row(input_size: nat, output_size: nat, i: nat) -> Seq<Option<usize>> {
    row_bits(input_size, i).map_values(|u: usize| Some(u)) + Seq::new(output_size, |j: int| None::<usize>)
}

impl TruthTable {
    pub fn new(data: Vec<Vec<usize>>, input_size: usize, output_size: usize) -> (r: TruthTable)
        ensures
            r.data == data,
            r.input_size == input_size,
            r.output_size == output_size,
    {
        TruthTable { data, input_size, output_size }
    }

    pub fn input_size(&self) -> (r: usize)
        ensures
            r == self.input_size,
    {
        self.input_size
    }

    pub fn output_size(&self) -> (r: usize)
        ensures
            r == self.output_size,
    {
        self.output_size
    }

    /// The blank table to be filled in by hand: all `2^input_size` input
    /// rows in increasing binary order, input 0 most significant, with the
    /// output cells left empty.
    pub fn prepare_print(input_size: usize, output_size: usize) -> (r: Vec<Vec<Option<usize>>>)
        requires
            pow2(input_size as nat) <= usize::MAX,
        ensures
            r@.len() == pow2(input_size as nat),
            forall|i: int|
                0 <= i < r@.len() ==> (#[trigger] r@[i])@ == blank_row(input_size as nat, output_size as nat, i as nat),
    {
        let mut n: usize = 1;
        let mut e: usize = 0;
        proof {
            lemma2_to64();
        }
        while e < input_size
            invariant
                0 <= e <= input_size,
                pow2(input_size as nat) <= usize::MAX,
                n == pow2(e as nat),
            decreases input_size - e,
        {
            proof {
                lemma_pow2_unfold((e + 1) as nat);
                if e + 1 < input_size {
                    lemma_pow2_strictly_increases((e + 1) as nat, input_size as nat);
                }
            }
            n = n * 2;
            e = e + 1;
        }
        let mut data: Vec<Vec<Option<usize>>> = Vec::new();
        let mut i: usize = 0;
        while i < n
            invariant
                0 <= i <= n,
                n == pow2(input_size as nat),
                data@.len() == i,
                forall|k: int|
                    0 <= k < i ==> (#[trigger] data@[k])@ == blank_row(input_size as nat, output_size as nat, k as nat),
            decreases n - i,
        {
            let bits = row_bits_exec(input_size, i);
            let mut line: Vec<Option<usize>> = Vec::new();
            let mut j: usize = 0;
            while j < input_size
                invariant
                    0 <= j <= input_size,
                    bits@ == row_bits(input_size as nat, i as nat),
                    line@ =~= bits@.take(j as int).map_values(|u: usize| Some(u)),
                decreases input_size - j,
            {
                line.push(Some(bits[j]));
                assert(bits@.take(j + 1) =~= bits@.take(j as int).push(bits@[j as int]));
                j = j + 1;
            }
            assert(bits@.take(j as int) =~= bits@);
            let mut j: usize = 0;
            while j < output_size
                invariant
                    0 <= j <= output_size,
                    line@ =~= row_bits(input_size as nat, i as nat).map_values(|u: usize| Some(u)) + Seq::new(
                        j as nat,
                        |k: int| None::<usize>,
                    ),
                decreases output_size - j,
            {
                line.push(None);
                j = j + 1;
            }
            data.push(line);
            i = i + 1;
        }
        data
    }
}

} // verus!
