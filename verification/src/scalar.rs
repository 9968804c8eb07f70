//! Reals as they cross the interface: a real is carried as the 64-bit binary
//! encoding of a double-precision number, which holds the sign, then the
//! exponent, then the fraction. Among the encodings of reals of one sign a
//! greater encoding stands for a real of greater magnitude, so the ranges
//! of reals that this crate tells apart are ranges of encodings, and among
//! activations the greatest encoding is that of the greatest real.
use vstd::prelude::*;

verus! {

/// The encoding of one.
pub const ONE: u64 = 0x3FF0_0000_0000_0000;

/// The encoding of one half.
pub const HALF: u64 = 0x3FE0_0000_0000_0000;

/// The encoding of zero with the sign set: the least encoding of a real
/// that is not positive.
pub const MINUS_ZERO: u64 = 0x8000_0000_0000_0000;

/// The encoding of minus one half.
pub const MINUS_HALF: u64 = 0xBFE0_0000_0000_0000;

/// The encodings of the reals from minus one half up to, but without, one
/// half: the range that a parameter of a new network is drawn from.
pub open spec fn is_initial(code: u64) -> bool {
    code < HALF || MINUS_ZERO <= code <= MINUS_HALF
}

/// Every entry encodes a real from minus one half up to, but without, one
/// half.
pub open spec fn all_initial(codes: Seq<u64>) -> bool {
    forall|i: int| 0 <= i < codes.len() ==> is_initial(#[trigger] codes[i])
}

/// The encodings of the finite reals strictly between zero and one.
pub open spec fn is_activation(code: u64) -> bool {
    0 < code < ONE
}

/// The activation that stands for the outcome `code` of the logistic
/// function: where rounding has carried the outcome to zero or to one, the
/// nearest real strictly between them; every other encoding as it is.
pub open spec fn settled(code: u64) -> u64 {
    if code == 0 || code == MINUS_ZERO {
        1
    } else if code == ONE {
        (ONE - 1) as u64
    } else {
        code
    }
}

/// Every entry encodes a real strictly between zero and one.
pub open spec fn all_activations(codes: Seq<u64>) -> bool {
    forall|i: int| 0 <= i < codes.len() ==> is_activation(#[trigger] codes[i])
}

/// `at` is the position of the greatest entry, the lowest such position where
/// several entries are greatest.
pub open spec fn is_first_max(codes: Seq<u64>, at: int) -> bool {
    &&& 0 <= at < codes.len()
    &&& forall|j: int| 0 <= j < codes.len() ==> #[trigger] codes[j] <= codes[at]
    &&& forall|j: int| 0 <= j < at ==> #[trigger] codes[j] < codes[at]
}

/// The position of the first maximum of a sequence that is not empty.
pub open spec fn first_max_at(codes: Seq<u64>) -> int {
    choose|at: int| is_first_max(codes, at)
}

/// Whether `code` encodes a real strictly between zero and one.
pub fn check_activation(code: u64) -> (ok: bool)
    ensures
        ok == is_activation(code),
{
    0 < code && code < ONE
}

/// The activation that stands for the outcome `code` of the logistic
/// function. It lies strictly between zero and one exactly when `code`
/// encodes a real from zero to one.
pub fn settle(code: u64) -> (activation: u64)
    ensures
        activation == settled(code),
        is_activation(activation) <==> (code <= ONE || code == MINUS_ZERO),
{
    if code == 0 || code == MINUS_ZERO {
        1
    } else if code == ONE {
        ONE - 1
    } else {
        code
    }
}

/// Whether `code` encodes a real from minus one half up to, but without,
/// one half.
pub fn check_initial(code: u64) -> (ok: bool)
    ensures
        ok == is_initial(code),
{
    code < HALF || (MINUS_ZERO <= code && code <= MINUS_HALF)
}

/// Whether every entry encodes a real from minus one half up to, but
/// without, one half.
pub fn check_initials(codes: &Vec<u64>) -> (ok: bool)
    ensures
        ok == all_initial(codes@),
{
    let mut i: usize = 0;
    while i < codes.len()
        invariant
            i <= codes.len(),
            forall|j: int| 0 <= j < i ==> is_initial(#[trigger] codes@[j]),
        decreases codes.len() - i,
    {
        if !check_initial(codes[i]) {
            return false;
        }
        i += 1;
    }
    true
}

/// Whether every entry encodes a real strictly between zero and one.
pub fn check_activations(codes: &Vec<u64>) -> (ok: bool)
    ensures
        ok == all_activations(codes@),
{
    let mut i: usize = 0;
    while i < codes.len()
        invariant
            i <= codes.len(),
            forall|j: int| 0 <= j < i ==> is_activation(#[trigger] codes@[j]),
        decreases codes.len() - i,
    {
        if !check_activation(codes[i]) {
            return false;
        }
        i += 1;
    }
    true
}

/// The position of the greatest entry; the first one wins a tie.
pub fn first_max(codes: &Vec<u64>) -> (at: usize)
    requires
        codes.len() > 0,
    ensures
        is_first_max(codes@, at as int),
        at == first_max_at(codes@),
{
    let mut at: usize = 0;
    let mut i: usize = 1;
    while i < codes.len()
        invariant
            1 <= i <= codes.len(),
            at < i,
            forall|j: int| 0 <= j < i ==> #[trigger] codes@[j] <= codes@[at as int],
            forall|j: int| 0 <= j < at ==> #[trigger] codes@[j] < codes@[at as int],
        decreases codes.len() - i,
    {
        if codes[i] > codes[at] {
            at = i;
        }
        i += 1;
    }
    proof {
        assert(is_first_max(codes@, at as int));
        lemma_first_max_unique(codes@, at as int, first_max_at(codes@));
    }
    at
}

/// A position can be the first maximum of a sequence in one way only.
pub proof fn lemma_first_max_unique(codes: Seq<u64>, a: int, b: int)
    requires
        is_first_max(codes, a),
        is_first_max(codes, b),
    ensures
        a == b,
{
    if a < b {
        assert(codes[a] < codes[b]);
        assert(codes[b] <= codes[a]);
    } else if b < a {
        assert(codes[b] < codes[a]);
        assert(codes[a] <= codes[b]);
    }
}

/// An owned copy of a vector of encodings.
pub fn copy_codes(codes: &Vec<u64>) -> (copy: Vec<u64>)
    ensures
        copy@ == codes@,
{
    let mut copy: Vec<u64> = Vec::new();
    let mut i: usize = 0;
    while i < codes.len()
        invariant
            i <= codes.len(),
            copy@ == codes@.subrange(0, i as int),
        decreases codes.len() - i,
    {
        copy.push(codes[i]);
        i += 1;
    }
    copy
}

} // verus!
