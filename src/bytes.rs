use bstr::ByteSlice;
use vstd::prelude::*;

verus! {

/// `needle` occurs in `haystack` starting at `i`.
pub open spec fn occurs_at(haystack: Seq<u8>, needle: Seq<u8>, i: int) -> bool {
    0 <= i && i + needle.len() <= haystack.len() && haystack.subrange(i, i + needle.len())
        == needle
}

/// `i` is the first position where `needle` occurs in `haystack`.
pub open spec fn is_first_occurrence(haystack: Seq<u8>, needle: Seq<u8>, i: int) -> bool {
    occurs_at(haystack, needle, i) && forall|j: int| 0 <= j < i ==> !occurs_at(haystack, needle, j)
}

/// `i` is the last position where `needle` occurs in `haystack`.
pub open spec fn is_last_occurrence(haystack: Seq<u8>, needle: Seq<u8>, i: int) -> bool {
    occurs_at(haystack, needle, i) && forall|j: int|
        i < j <= haystack.len() ==> !occurs_at(haystack, needle, j)
}

/// `needle` occurs somewhere in `haystack`.
pub open spec fn occurs(haystack: Seq<u8>, needle: Seq<u8>) -> bool {
    exists|i: int| occurs_at(haystack, needle, i)
}

/// The first position where `needle` occurs in `haystack`, if any.
pub open spec fn first_occurrence(haystack: Seq<u8>, needle: Seq<u8>) -> Option<int> {
    if exists|i: int| is_first_occurrence(haystack, needle, i) {
        Some(choose|i: int| is_first_occurrence(haystack, needle, i))
    } else {
        None
    }
}

/// The last position where `needle` occurs in `haystack`, if any.
pub open spec fn last_occurrence(haystack: Seq<u8>, needle: Seq<u8>) -> Option<int> {
    if exists|i: int| is_last_occurrence(haystack, needle, i) {
        Some(choose|i: int| is_last_occurrence(haystack, needle, i))
    } else {
        None
    }
}

/// A last occurrence is unique, so `last_occurrence` names it.
pub proof fn lemma_last_occurrence(haystack: Seq<u8>, needle: Seq<u8>, i: int)
    requires
        is_last_occurrence(haystack, needle, i),
    ensures
        last_occurrence(haystack, needle) == Some(i),
{
    let c = choose|j: int| is_last_occurrence(haystack, needle, j);
    assert(is_last_occurrence(haystack, needle, c));
    if c < i {
        assert(!occurs_at(haystack, needle, i));
    } else if c > i {
        assert(!occurs_at(haystack, needle, c));
    }
}

/// Without an occurrence there is no last one.
pub proof fn lemma_no_last_occurrence(haystack: Seq<u8>, needle: Seq<u8>)
    requires
        !occurs(haystack, needle),
    ensures
        last_occurrence(haystack, needle) is None,
{
    assert forall|i: int| !is_last_occurrence(haystack, needle, i) by {
        if is_last_occurrence(haystack, needle, i) {
            assert(occurs_at(haystack, needle, i));
        }
    }
}

/// Offsets of the bytes strictly between the first `a` and the first `b`
/// after it, where both occur and something lies between.
pub open spec fn spec_offsets_between(data: Seq<u8>, a: Seq<u8>, b: Seq<u8>) -> Option<(int, int)> {
    match first_occurrence(data, a) {
        Some(i) => {
            let from = i + a.len();
            match first_occurrence(data.subrange(from, data.len() as int), b) {
                Some(j) => if j > 0 {
                    Some((from, from + j))
                } else {
                    None
                },
                None => None,
            }
        },
        None => None,
    }
}

/// `i` is the first position of `byte` in `s`.
pub open spec fn is_first_byte(s: Seq<u8>, byte: u8, i: int) -> bool {
    0 <= i < s.len() && s[i] == byte && forall|j: int| 0 <= j < i ==> s[j] != byte
}

/// `i` is the last position of `byte` in `s`.
pub open spec fn is_last_byte(s: Seq<u8>, byte: u8, i: int) -> bool {
    0 <= i < s.len() && s[i] == byte && forall|j: int| i < j < s.len() ==> s[j] != byte
}

/// The first position of `byte` in `s`, if any.
pub open spec fn first_byte(s: Seq<u8>, byte: u8) -> Option<int> {
    if exists|i: int| is_first_byte(s, byte, i) {
        Some(choose|i: int| is_first_byte(s, byte, i))
    } else {
        None
    }
}

/// The last position of `byte` in `s`, if any.
pub open spec fn last_byte(s: Seq<u8>, byte: u8) -> Option<int> {
    if exists|i: int| is_last_byte(s, byte, i) {
        Some(choose|i: int| is_last_byte(s, byte, i))
    } else {
        None
    }
}

/// A first occurrence is unique, so `first_occurrence` names it.
pub proof fn lemma_first_occurrence(haystack: Seq<u8>, needle: Seq<u8>, i: int)
    requires
        is_first_occurrence(haystack, needle, i),
    ensures
        first_occurrence(haystack, needle) == Some(i),
{
    let c = choose|j: int| is_first_occurrence(haystack, needle, j);
    assert(is_first_occurrence(haystack, needle, c));
    if c < i {
        assert(!occurs_at(haystack, needle, c));
    } else if c > i {
        assert(!occurs_at(haystack, needle, i));
    }
}

/// Without an occurrence there is no first one.
pub proof fn lemma_no_occurrence(haystack: Seq<u8>, needle: Seq<u8>)
    requires
        !occurs(haystack, needle),
    ensures
        first_occurrence(haystack, needle) is None,
{
    assert forall|i: int| !is_first_occurrence(haystack, needle, i) by {
        if is_first_occurrence(haystack, needle, i) {
            assert(occurs_at(haystack, needle, i));
        }
    }
}

/// A first or last position of a byte is unique.
pub proof fn lemma_byte_positions(s: Seq<u8>, byte: u8)
    ensures
        forall|i: int| #[trigger] is_first_byte(s, byte, i) ==> first_byte(s, byte) == Some(i),
        forall|i: int| #[trigger] is_last_byte(s, byte, i) ==> last_byte(s, byte) == Some(i),
        (forall|j: int| 0 <= j < s.len() ==> s[j] != byte) ==> first_byte(s, byte) is None
            && last_byte(s, byte) is None,
{
    assert forall|i: int| #[trigger] is_first_byte(s, byte, i) implies first_byte(s, byte) == Some(i) by {
        let c = choose|j: int| is_first_byte(s, byte, j);
        assert(is_first_byte(s, byte, c));
    }
    assert forall|i: int| #[trigger] is_last_byte(s, byte, i) implies last_byte(s, byte) == Some(i) by {
        let c = choose|j: int| is_last_byte(s, byte, j);
        assert(is_last_byte(s, byte, c));
    }
}

/// Relies on bstr's `ByteSlice::find`: the index of the first occurrence of
/// the needle, or `None` where it does not occur.
#[verifier::external_body]
pub(crate) fn find(haystack: &[u8], needle: &[u8]) -> (r: Option<usize>)
    ensures
        match r {
            Some(i) => is_first_occurrence(haystack@, needle@, i as int),
            None => !occurs(haystack@, needle@),
        },
{
    haystack.find(needle)
}

/// Relies on bstr's `ByteSlice::rfind`: the index of the last occurrence of
/// the needle, or `None` where it does not occur.
#[verifier::external_body]
pub(crate) fn rfind(haystack: &[u8], needle: &[u8]) -> (r: Option<usize>)
    ensures
        match r {
            Some(i) => is_last_occurrence(haystack@, needle@, i as int),
            None => !occurs(haystack@, needle@),
        },
{
    haystack.rfind(needle)
}

/// Relies on bstr's `ByteSlice::find_byte`: the index of the first
/// occurrence of the byte, or `None` where it does not occur.
#[verifier::external_body]
pub(crate) fn find_byte(haystack: &[u8], byte: u8) -> (r: Option<usize>)
    ensures
        match r {
            Some(i) => 0 <= i < haystack@.len() && haystack@[i as int] == byte && forall|j: int|
                0 <= j < i ==> haystack@[j] != byte,
            None => forall|j: int| 0 <= j < haystack@.len() ==> haystack@[j] != byte,
        },
{
    haystack.find_byte(byte)
}

/// Relies on bstr's `ByteSlice::rfind_byte`: the index of the last
/// occurrence of the byte, or `None` where it does not occur.
#[verifier::external_body]
pub(crate) fn rfind_byte(haystack: &[u8], byte: u8) -> (r: Option<usize>)
    ensures
        match r {
            Some(i) => 0 <= i < haystack@.len() && haystack@[i as int] == byte && forall|j: int|
                i < j < haystack@.len() ==> haystack@[j] != byte,
            None => forall|j: int| 0 <= j < haystack@.len() ==> haystack@[j] != byte,
        },
{
    haystack.rfind_byte(byte)
}

/// A copy of `data[from..to]`.
pub fn copy_range(data: &[u8], from: usize, to: usize) -> (r: Vec<u8>)
    requires
        from <= to <= data@.len(),
    ensures
        r@ == data@.subrange(from as int, to as int),
{
    vstd::slice::slice_to_vec(&data[from..to])
}

/// The bytes strictly between the first `a` and the first `b` after it, as a
/// pair of offsets; `None` where either is missing or nothing lies between.
pub fn offsets_between(data: &[u8], a: &[u8], b: &[u8]) -> (r: Option<(usize, usize)>)
    ensures
        match spec_offsets_between(data@, a@, b@) {
            Some((from, to)) => r == Some((from as usize, to as usize)),
            None => r is None,
        },
{
    let i = match find(data, a) {
        Some(i) => i,
        None => {
            proof {
                lemma_no_occurrence(data@, a@);
            }
            return None;
        },
    };
    proof {
        lemma_first_occurrence(data@, a@, i as int);
    }
    let len = data.len();
    let from = i + a.len();
    let rest = &data[from..len];
    let j = match find(rest, b) {
        Some(j) => j,
        None => {
            proof {
                lemma_no_occurrence(rest@, b@);
            }
            return None;
        },
    };
    proof {
        lemma_first_occurrence(rest@, b@, j as int);
    }
    if j > 0 {
        Some((from, from + j))
    } else {
        None
    }
}

} // verus!
