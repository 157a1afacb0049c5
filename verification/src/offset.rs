//! Offsets of the grid families: by how much of the spacing between two
//! lines each family is shifted.
//!
//! An offset is a fraction of 2^53 in `[0, 1)`, made from the upper 53 bits
//! of a random 64-bit word. Every such fraction is the exact value of a
//! double-precision number, so nothing is lost when the caller turns an
//! offset into one.

use vstd::prelude::*;
use rand::Rng;

verus! {

/// Number of random bits in an offset.
pub const OFFSET_BITS: u32 = 53;

/// The denominator of every offset: 2^53.
pub const OFFSET_SCALE: u64 = 0x20_0000_0000_0000;

/// The offset `numerator / 2^53` of one grid family.
#[derive(Clone, Copy, Debug, PartialEq, Eq, Structural)]
pub struct Offset {
    /// How many steps of 2^-53 the family is shifted.
    pub numerator: u64,
}

impl Offset {
    /// An offset is below 1.
    pub open spec fn wf(&self) -> bool {
        self.numerator < OFFSET_SCALE
    }

    /// The offset as a real number.
    pub open spec fn value(&self) -> real {
        self.numerator as real / (OFFSET_SCALE as real)
    }

    /// The offset made from the upper 53 bits of `word`.
    pub fn from_word(word: u64) -> (offset: Offset)
        ensures
            offset.wf(),
            offset.numerator == word / 2048,
    {
        assert(word >> 11 == word / 2048 && (word >> 11) < 0x20_0000_0000_0000u64) by (bit_vector);
        Offset { numerator: word >> (64 - OFFSET_BITS) }
    }

    /// Every offset lies in `[0, 1)`.
    pub proof fn lemma_in_unit_interval(&self)
        requires
            self.wf(),
        ensures
            0real <= self.value() < 1real,
    {
        let n = self.numerator as real;
        let d = OFFSET_SCALE as real;
        assert(0real <= n / d < 1real) by (nonlinear_arith)
            requires
                0real <= n < d,
        ;
    }
}

/// One random 64-bit word from `rand`'s generator of the current thread,
/// by `Rng::random`. Nothing is claimed of the word.
#[verifier::external_body]
fn random_word() -> u64 {
    rand::rng().random::<u64>()
}

/// One offset for each word, in order.
pub fn offsets_from_words(words: &Vec<u64>) -> (offsets: Vec<Offset>)
    ensures
        offsets.len() == words.len(),
        forall|i: int|
            0 <= i < words.len() ==> (#[trigger] offsets[i]).numerator == words[i] / 2048
                && offsets[i].wf(),
{
    let mut offsets: Vec<Offset> = Vec::with_capacity(words.len());
    let mut i: usize = 0;
    while i < words.len()
        invariant
            i <= words.len(),
            offsets.len() == i,
            forall|j: int|
                0 <= j < i ==> (#[trigger] offsets[j]).numerator == words[j] / 2048
                    && offsets[j].wf(),
        decreases words.len() - i,
    {
        offsets.push(Offset::from_word(words[i]));
        i += 1;
    }
    offsets
}

/// One offset for each of `dimension` families, each drawn independently
/// from the random generator of the current thread.
pub fn random_offsets(dimension: usize) -> (offsets: Vec<Offset>)
    ensures
        offsets.len() == dimension,
        forall|i: int| 0 <= i < dimension ==> (#[trigger] offsets[i]).wf(),
{
    let mut offsets: Vec<Offset> = Vec::new();
    let mut i: usize = 0;
    while i < dimension
        invariant
            i <= dimension,
            offsets.len() == i,
            forall|j: int| 0 <= j < i ==> (#[trigger] offsets[j]).wf(),
        decreases dimension - i,
    {
        let word = random_word();
        offsets.push(Offset::from_word(word));
        i += 1;
    }
    offsets
}

} // verus!
