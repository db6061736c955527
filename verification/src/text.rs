//! Text handling shared by the credential check and the router: splitting at
//! the first separator and comparing without an early exit.
use vstd::prelude::*;
use vstd::string::*;
use vstd::utf8::*;

verus! {

/// The two parts of `s` around its first `sep`, or `None` where `s` holds no
/// `sep`. The separator itself belongs to neither part.
pub open spec fn split_first(s: Seq<char>, sep: char) -> Option<(Seq<char>, Seq<char>)> {
    match s.index_of_first(sep) {
        Some(at) => Some((s.subrange(0, at), s.subrange(at + 1, s.len() as int))),
        None => None,
    }
}

/// `at` is the first place where `s` holds `sep`.
pub open spec fn is_first_occurrence(s: Seq<char>, sep: char, at: int) -> bool {
    &&& 0 <= at < s.len()
    &&& s[at] == sep
    &&& forall|j: int| 0 <= j < at ==> s[j] != sep
}

/// A sequence has one first occurrence of a value at most, and
/// `index_of_first` names it.
pub proof fn lemma_first_occurrence(s: Seq<char>, sep: char, at: int)
    requires
        is_first_occurrence(s, sep, at),
    ensures
        s.index_of_first(sep) == Some(at),
        split_first(s, sep) == Some((s.subrange(0, at), s.subrange(at + 1, s.len() as int))),
{
    assert(s.contains(sep));
    s.index_of_first_ensures(sep);
    let found = s.index_of_first(sep).unwrap();
    // Whichever of the two came first would contradict the other.
    if found < at {
        assert(s[found] == sep);
    } else if at < found {
        assert(s[at] == sep);
    }
}

/// A sequence without the separator does not split.
pub proof fn lemma_no_occurrence(s: Seq<char>, sep: char)
    requires
        forall|j: int| 0 <= j < s.len() ==> s[j] != sep,
    ensures
        s.index_of_first(sep) is None,
        split_first(s, sep) is None,
{
    s.index_of_first_ensures(sep);
}

/// Joining `head`, the separator and `tail` and splitting again gives the
/// two parts back, as long as `head` holds no separator of its own.
pub proof fn lemma_split_joined(head: Seq<char>, sep: char, tail: Seq<char>)
    requires
        !head.contains(sep),
    ensures
        split_first(head + seq![sep] + tail, sep) == Some((head, tail)),
{
    let joined = head + seq![sep] + tail;
    let at = head.len() as int;
    assert forall|j: int| 0 <= j < at implies joined[j] != sep by {
        assert(head.contains(head[j]));
    }
    lemma_first_occurrence(joined, sep, at);
    assert(joined.subrange(0, at) =~= head);
    assert(joined.subrange(at + 1, joined.len() as int) =~= tail);
}

/// The place of the first `sep` in `s`, counted in characters.
pub fn find_first(s: &str, sep: char) -> (found: Option<usize>)
    ensures
        found matches Some(at) ==> s@.index_of_first(sep) == Some(at as int),
        found is None ==> s@.index_of_first(sep) is None,
{
    let total = s.unicode_len();
    let mut at: usize = 0;
    for c in it: s.chars()
        invariant
            at == it.index(),
            it.seq() == s@,
            total == s@.len(),
            forall|j: int| 0 <= j < at ==> s@[j] != sep,
    {
        if c == sep {
            proof {
                lemma_first_occurrence(s@, sep, at as int);
            }
            return Some(at);
        }
        at = at + 1;
    }
    proof {
        lemma_no_occurrence(s@, sep);
    }
    None
}

/// Splits `s` at its first `sep`.
pub fn split_once<'a>(s: &'a str, sep: char) -> (parts: Option<(&'a str, &'a str)>)
    ensures
        parts matches Some(pair) ==> split_first(s@, sep) == Some((pair.0@, pair.1@)),
        parts is None ==> split_first(s@, sep) is None,
{
    match find_first(s, sep) {
        Some(at) => {
            proof {
                s@.index_of_first_ensures(sep);
            }
            let total = s.unicode_len();
            let head = s.substring_char(0, at);
            let tail = s.substring_char(at + 1, total);
            Some((head, tail))
        },
        None => None,
    }
}

/// Whether two texts are the same, decided without leaving the loop at the
/// first difference: the time taken depends on the lengths alone.
pub fn same_text(left: &str, right: &str) -> (same: bool)
    ensures
        same == (left@ == right@),
{
    let a = left.as_bytes();
    let b = right.as_bytes();
    proof {
        encode_utf8_decode_utf8(left@);
        encode_utf8_decode_utf8(right@);
    }
    if a.len() != b.len() {
        return false;
    }
    let mut differing: u8 = 0;
    let mut i: usize = 0;
    while i < a.len()
        invariant
            i <= a.len(),
            a.len() == b.len(),
            differing == 0 <==> forall|j: int| 0 <= j < i ==> a@[j] == b@[j],
        decreases a.len() - i,
    {
        let x: u8 = a[i];
        let y: u8 = b[i];
        assert(((differing | (x ^ y)) == 0) <==> (differing == 0 && x == y)) by (bit_vector);
        differing = differing | (x ^ y);
        i = i + 1;
    }
    assert(differing == 0 ==> a@ =~= b@);
    differing == 0
}

} // verus!
