//! Splitting and comparing text at the level of its UTF-8 bytes.
//!
//! All delimiters that this crate looks for are ASCII. An ASCII byte never
//! occurs inside the encoding of a longer character, so a slice may be cut
//! directly before and directly behind one.
use core::str::Utf8Error;
use vstd::prelude::*;
use vstd::string::*;
use vstd::utf8::*;

verus! {

/// `core::str::Utf8Error`, the error of `core::str::from_utf8`. Nothing is
/// read from it.
#[verifier::external_type_specification]
#[verifier::external_body]
pub struct ExUtf8Error(Utf8Error);

/// `core::str::from_utf8` is taken to succeed on exactly the byte sequences
/// that are well-formed UTF-8, and then to hand back a string slice over the
/// very same bytes. This is not proved here.
pub assume_specification[ core::str::from_utf8 ](v: &[u8]) -> (r: Result<&str, Utf8Error>)
    ensures
        r is Ok <==> valid_utf8(v@),
        r matches Ok(s) ==> s.spec_bytes() == v@,
;

/// The index of the first byte of `s` that belongs to `stops`, or the length
/// of `s` if none does.
pub open spec fn first_of(s: Seq<u8>, stops: Set<u8>) -> int
    decreases s.len(),
{
    if s.len() == 0 || stops.contains(s[0]) {
        0
    } else {
        1 + first_of(s.drop_first(), stops)
    }
}

/// The parts of `s` before and behind its first byte that belongs to `stops`;
/// `None` if no byte of `s` does.
pub open spec fn split_first(s: Seq<u8>, stops: Set<u8>) -> Option<(Seq<u8>, Seq<u8>)> {
    let i = first_of(s, stops);
    if i < s.len() {
        Some((s.take(i), s.skip(i + 1)))
    } else {
        None
    }
}

/// `first_of` is in range, no byte before it is a stop, and the byte at it is
/// one unless it is the length.
pub proof fn lemma_first_of(s: Seq<u8>, stops: Set<u8>)
    ensures
        0 <= first_of(s, stops) <= s.len(),
        forall|j: int| 0 <= j < first_of(s, stops) ==> !stops.contains(#[trigger] s[j]),
        first_of(s, stops) < s.len() ==> stops.contains(s[first_of(s, stops)]),
    decreases s.len(),
{
    if s.len() != 0 && !stops.contains(s[0]) {
        let rest = s.drop_first();
        lemma_first_of(rest, stops);
        assert forall|j: int| 0 <= j < first_of(s, stops) implies !stops.contains(
            #[trigger] s[j],
        ) by {
            if j > 0 {
                assert(s[j] == rest[j - 1]);
            }
        }
        assert(first_of(rest, stops) < rest.len() ==> s[first_of(s, stops)] == rest[first_of(
            rest,
            stops,
        )]);
    }
}

/// An index with the three properties of `lemma_first_of` is `first_of`.
pub proof fn lemma_first_of_is(s: Seq<u8>, stops: Set<u8>, i: int)
    requires
        0 <= i <= s.len(),
        forall|j: int| 0 <= j < i ==> !stops.contains(#[trigger] s[j]),
        i < s.len() ==> stops.contains(s[i]),
    ensures
        first_of(s, stops) == i,
    decreases s.len(),
{
    if s.len() != 0 && !stops.contains(s[0]) {
        let rest = s.drop_first();
        assert forall|j: int| 0 <= j < i - 1 implies !stops.contains(#[trigger] rest[j]) by {
            assert(rest[j] == s[j + 1]);
        }
        lemma_first_of_is(rest, stops, i - 1);
    }
}

/// What `split_first` cuts apart, put together again around the stop, is `s`;
/// the first part holds no stop.
pub proof fn lemma_split_first(s: Seq<u8>, stops: Set<u8>)
    ensures
        match split_first(s, stops) {
            Some((head, tail)) => {
                &&& head.len() < s.len()
                &&& stops.contains(s[head.len() as int])
                &&& s == head + seq![s[head.len() as int]] + tail
                &&& forall|j: int| 0 <= j < head.len() ==> !stops.contains(#[trigger] head[j])
            },
            None => forall|j: int| 0 <= j < s.len() ==> !stops.contains(#[trigger] s[j]),
        },
{
    lemma_first_of(s, stops);
    if let Some((head, tail)) = split_first(s, stops) {
        assert(s =~= head + seq![s[head.len() as int]] + tail);
    }
}

/// A text without a stop, then a stop, then any text: `split_first` cuts
/// them apart at that stop.
pub proof fn lemma_split_first_of_join(head: Seq<u8>, stop: u8, tail: Seq<u8>, stops: Set<u8>)
    requires
        forall|j: int| 0 <= j < head.len() ==> !stops.contains(#[trigger] head[j]),
        stops.contains(stop),
    ensures
        split_first(head + seq![stop] + tail, stops) == Some((head, tail)),
{
    let s = head + seq![stop] + tail;
    assert forall|j: int| 0 <= j < head.len() implies !stops.contains(#[trigger] s[j]) by {
        assert(s[j] == head[j]);
    }
    assert(s[head.len() as int] == stop);
    lemma_first_of_is(s, stops, head.len() as int);
    assert(s.take(head.len() as int) =~= head);
    assert(s.skip(head.len() as int + 1) =~= tail);
}

/// Two string slices with the same bytes hold the same characters.
pub proof fn lemma_same_bytes_same_chars(a: &str, b: &str)
    requires
        a.spec_bytes() == b.spec_bytes(),
    ensures
        a@ == b@,
{
    encode_utf8_decode_utf8(a@);
    encode_utf8_decode_utf8(b@);
}

/// Whether two string slices hold the same text.
pub(crate) fn eq(a: &str, b: &str) -> (r: bool)
    ensures
        r == (a.spec_bytes() == b.spec_bytes()),
        r == (a@ == b@),
{
    let x = a.as_bytes();
    let y = b.as_bytes();
    if x.len() != y.len() {
        return false;
    }
    let mut i: usize = 0;
    while i < x.len()
        invariant
            x@ == a.spec_bytes(),
            y@ == b.spec_bytes(),
            x.len() == y.len(),
            i <= x.len(),
            forall|j: int| 0 <= j < i ==> x@[j] == y@[j],
        decreases x.len() - i,
    {
        if x[i] != y[i] {
            return false;
        }
        i += 1;
    }
    proof {
        assert(x@ =~= y@);
        lemma_same_bytes_same_chars(a, b);
    }
    true
}

/// Cuts `s` at its first byte that is `stop`, an ASCII byte: the text before
/// that byte, and the text behind it. `None` if `s` does not hold the byte.
pub(crate) fn split_once<'a>(s: &'a str, stop: u8) -> (r: Option<(&'a str, &'a str)>)
    requires
        stop < 0x80,
    ensures
        match split_first(s.spec_bytes(), set![stop]) {
            Some((head, tail)) => r matches Some((h, t)) && h.spec_bytes() == head
                && t.spec_bytes() == tail,
            None => r is None,
        },
{
    assert(set![stop, stop] =~= set![stop]);
    split_once_either(s, stop, stop)
}

/// Cuts `s` at its first byte that is `a` or `b`, both ASCII: the text before
/// that byte, and the text behind it. `None` if `s` holds neither byte.
pub(crate) fn split_once_either<'a>(s: &'a str, a: u8, b: u8) -> (r: Option<(&'a str, &'a str)>)
    requires
        a < 0x80,
        b < 0x80,
    ensures
        match split_first(s.spec_bytes(), set![a, b]) {
            Some((head, tail)) => r matches Some((h, t)) && h.spec_bytes() == head
                && t.spec_bytes() == tail,
            None => r is None,
        },
{
    let bytes = s.as_bytes();
    let ghost stops = set![a, b];
    let mut i: usize = 0;
    while i < bytes.len()
        invariant
            a < 0x80,
            b < 0x80,
            bytes@ == s.spec_bytes(),
            stops == set![a, b],
            i <= bytes.len(),
            forall|j: int| 0 <= j < i ==> !stops.contains(#[trigger] bytes@[j]),
        decreases bytes.len() - i,
    {
        if bytes[i] == a || bytes[i] == b {
            proof {
                lemma_first_of_is(bytes@, stops, i as int);
                encode_utf8_valid_utf8(s@);
                is_char_boundary_iff_not_is_continuation_byte(bytes@, i as int);
            }
            let (head, rest) = s.split_at(i);
            proof {
                valid_utf8_split(bytes@, i as int);
                assert(rest.spec_bytes()[0] == bytes@[i as int]);
                reveal_with_fuel(valid_utf8, 2);
                reveal_with_fuel(is_char_boundary, 2);
            }
            let (_, tail) = rest.split_at(1);
            assert(tail.spec_bytes() =~= bytes@.skip(i + 1));
            assert(head.spec_bytes() =~= bytes@.take(i as int));
            return Some((head, tail));
        }
        i += 1;
    }
    proof {
        lemma_first_of_is(bytes@, stops, bytes.len() as int);
    }
    None
}

} // verus!
