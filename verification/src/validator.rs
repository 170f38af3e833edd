//! The validator: the symmetry scan and the polyndrome check built on it.

use vstd::prelude::*;
use vstd::string::StrSliceExecFns;

verus! {

/// Why a string fails the polyndrome check.
#[derive(Clone, Copy, Debug, PartialEq, Eq, Structural)]
pub enum PolyndromeError {
    /// The string has fewer than three characters.
    TooShort,
    /// The string has an even number of characters.
    EvenLength,
    /// The character at this index differs from its mirror-position
    /// counterpart; it is the lowest such index.
    Asymmetric(usize),
}

/// How many indices the symmetry scan visits: the first half of the string,
/// center index included when the length is odd.
pub open spec fn scan_len(len: nat) -> nat {
    (len + 1) / 2
}

/// The character at index `i` differs from the one at its mirror position.
pub open spec fn mismatch_at(s: Seq<char>, i: int) -> bool {
    s[i] != s[s.len() - 1 - i]
}

/// Every index below `n` carries a character equal to its mirror.
pub open spec fn symmetric_below(s: Seq<char>, n: int) -> bool {
    forall|i: int| 0 <= i < n ==> !mismatch_at(s, i)
}

/// The lowest index in `[from, scan_len)` at which the character differs from
/// its mirror, or -1 when every scanned pair from `from` on matches.
pub open spec fn first_mismatch_from(s: Seq<char>, from: nat) -> int
    decreases scan_len(s.len()) - from,
{
    if from >= scan_len(s.len()) {
        -1
    } else if mismatch_at(s, from as int) {
        from as int
    } else {
        first_mismatch_from(s, from + 1)
    }
}

/// The asymmetry index of a string: the lowest index at which a character and
/// its mirror-position counterpart differ, or -1 when no scanned pair differs.
pub open spec fn first_mismatch(s: Seq<char>) -> int {
    first_mismatch_from(s, 0)
}

proof fn lemma_first_mismatch_from_characterization(s: Seq<char>, from: nat)
    ensures
        first_mismatch_from(s, from) == -1 ==> (forall|i: int|
            from <= i < scan_len(s.len()) ==> !mismatch_at(s, i)),
        first_mismatch_from(s, from) != -1 ==> {
            let r = first_mismatch_from(s, from);
            &&& from <= r < scan_len(s.len())
            &&& mismatch_at(s, r)
            &&& (forall|i: int| from <= i < r ==> !mismatch_at(s, i))
        },
    decreases scan_len(s.len()) - from,
{
    if from >= scan_len(s.len()) {
    } else if mismatch_at(s, from as int) {
    } else {
        lemma_first_mismatch_from_characterization(s, from + 1);
    }
}

/// The asymmetry index pinned down without recursion: -1 exactly when every
/// scanned pair matches; otherwise it is the lowest mismatching index.
pub proof fn lemma_first_mismatch_characterization(s: Seq<char>)
    ensures
        first_mismatch(s) == -1 <==> symmetric_below(s, scan_len(s.len()) as int),
        first_mismatch(s) != -1 ==> {
            let r = first_mismatch(s);
            &&& 0 <= r < scan_len(s.len())
            &&& mismatch_at(s, r)
            &&& symmetric_below(s, r)
        },
{
    lemma_first_mismatch_from_characterization(s, 0);
    if symmetric_below(s, scan_len(s.len()) as int) && first_mismatch(s) != -1 {
        assert(mismatch_at(s, first_mismatch(s)));
    }
}

/// Finds the asymmetry index of `input`: the lowest index whose character
/// differs from the one at the mirror position, scanning the first half of
/// the string (center included for odd lengths). Returns -1 when every
/// scanned pair matches.
pub fn invalid_index(input: &str) -> (r: i64)
    ensures
        r == first_mismatch(input@),
        r == -1 <==> symmetric_below(input@, scan_len(input@.len()) as int),
{
    proof {
        lemma_first_mismatch_characterization(input@);
    }
    let len: usize = input.unicode_len();
    let half: usize = len / 2 + len % 2;
    let mut i: usize = 0;
    while i < half
        invariant
            len == input@.len(),
            half == scan_len(input@.len()),
            i <= half,
            first_mismatch(input@) == first_mismatch_from(input@, i as nat),
        decreases half - i,
    {
        let current = input.get_char(i);
        let opposite = input.get_char(len - i - 1);
        if current != opposite {
            return i as i64;
        }
        i = i + 1;
    }
    -1
}

/// A polyndrome: at least three characters, odd length, and every character
/// in the first half equal to its mirror-position counterpart (the center
/// index is exempt).
pub open spec fn is_polyndrome(s: Seq<char>) -> bool {
    &&& s.len() >= 3
    &&& s.len() % 2 == 1
    &&& symmetric_below(s, (s.len() / 2) as int)
}

/// What validation returns, by the ordered guards: length first, then parity,
/// then the symmetry scan; the first failing guard names the error.
pub open spec fn check_result(s: Seq<char>) -> Result<bool, PolyndromeError> {
    if s.len() < 3 {
        Err(PolyndromeError::TooShort)
    } else if s.len() % 2 == 0 {
        Err(PolyndromeError::EvenLength)
    } else if first_mismatch(s) != -1 {
        Err(PolyndromeError::Asymmetric(first_mismatch(s) as usize))
    } else {
        Ok(true)
    }
}

/// In an odd-length string the center character always equals itself, so
/// scanning through the center decides exactly the symmetry of the first half.
pub proof fn lemma_center_exempt(s: Seq<char>)
    requires
        s.len() % 2 == 1,
    ensures
        symmetric_below(s, scan_len(s.len()) as int) <==> symmetric_below(s, (s.len() / 2) as int),
{
    let c = (s.len() / 2) as int;
    assert(s.len() - 1 - c == c);
    assert(!mismatch_at(s, c));
    assert(scan_len(s.len()) == c + 1);
}

/// Checks whether `input` is a polyndrome. The guards run in order: a string
/// of fewer than three characters is too short; one of even length cannot be
/// a polyndrome; otherwise the symmetry scan either names the lowest
/// asymmetric index or the string is valid.
pub fn check_polyndrome(input: &str) -> (r: Result<bool, PolyndromeError>)
    ensures
        r == check_result(input@),
        input@.len() < 3 ==> r == Err::<bool, PolyndromeError>(PolyndromeError::TooShort),
        input@.len() >= 3 && input@.len() % 2 == 0 ==> r == Err::<bool, PolyndromeError>(
            PolyndromeError::EvenLength,
        ),
        r == Ok::<bool, PolyndromeError>(true) <==> is_polyndrome(input@),
{
    let ghost s = input@;
    let len: usize = input.unicode_len();
    if len < 3 {
        return Err(PolyndromeError::TooShort);
    }
    if len % 2 == 0 {
        return Err(PolyndromeError::EvenLength);
    }
    proof {
        lemma_first_mismatch_characterization(s);
        lemma_center_exempt(s);
    }
    let index: i64 = invalid_index(input);
    if index != -1 {
        return Err(PolyndromeError::Asymmetric(index as usize));
    }
    Ok(true)
}

/// Law: validation is deterministic. Any two results that meet
/// `check_polyndrome`'s contract for the same character sequence are equal,
/// so calling it twice on one input yields the same result both times.
pub proof fn lemma_check_polyndrome_deterministic(
    s: Seq<char>,
    r1: Result<bool, PolyndromeError>,
    r2: Result<bool, PolyndromeError>,
)
    requires
        r1 == check_result(s),
        r2 == check_result(s),
    ensures
        r1 == r2,
{
}

} // verus!
