//! Tab-delimited record text: splitting into fields and UTF-8 decoding.

use vstd::prelude::*;
use vstd::utf8::{decode_utf8, valid_utf8};

verus! {

/// The field delimiter inside a record: an ASCII tab.
pub const DELIM: u8 = 9;

/// Index of the first occurrence of `d` in `b`, or `b.len()` if none occurs.
pub open spec fn first_at(b: Seq<u8>, d: u8) -> nat
    decreases b.len(),
{
    if b.len() == 0 {
        0
    } else if b[0] == d {
        0
    } else {
        1 + first_at(b.subrange(1, b.len() as int), d)
    }
}

pub proof fn lemma_first_at(b: Seq<u8>, d: u8)
    ensures
        first_at(b, d) <= b.len(),
        forall|i: int| 0 <= i < first_at(b, d) ==> b[i] != d,
        first_at(b, d) < b.len() ==> b[first_at(b, d) as int] == d,
    decreases b.len(),
{
    if b.len() != 0 && b[0] != d {
        let t = b.subrange(1, b.len() as int);
        lemma_first_at(t, d);
        assert forall|i: int| 0 <= i < first_at(b, d) implies b[i] != d by {
            if i > 0 {
                assert(t[i - 1] == b[i]);
                assert(i - 1 < first_at(t, d));
            }
        }
        if first_at(b, d) < b.len() {
            assert(b[first_at(b, d) as int] == t[first_at(t, d) as int]);
        }
    }
}

/// `first_at` is pinned by its characteristic properties.
pub proof fn lemma_first_at_is(b: Seq<u8>, d: u8, k: int)
    requires
        0 <= k <= b.len(),
        forall|i: int| 0 <= i < k ==> b[i] != d,
        k < b.len() ==> b[k] == d,
    ensures
        first_at(b, d) == k,
{
    lemma_first_at(b, d);
    if first_at(b, d) < k {
        assert(b[first_at(b, d) as int] == d);
    }
}

/// The segments of `b` between occurrences of the delimiter `d`, in order.
/// A sequence with no delimiter is one segment; each delimiter ends a segment,
/// so `n` delimiters give `n + 1` segments, empty ones included.
pub open spec fn spec_split(b: Seq<u8>, d: u8) -> Seq<Seq<u8>>
    decreases b.len(),
{
    let k = first_at(b, d);
    if k >= b.len() {
        seq![b]
    } else {
        seq![b.subrange(0, k as int)] + spec_split(b.subrange(k as int + 1, b.len() as int), d)
    }
}

pub proof fn lemma_split_len(b: Seq<u8>, d: u8)
    ensures
        spec_split(b, d).len() >= 1,
    decreases b.len(),
{
}

/// What projecting a record under a leading-field skip of `off` yields:
/// the record is split on the delimiter, every segment must decode as UTF-8,
/// and the segments from position `off` on are the result. A skip reaching
/// past the last segment leaves an empty result, never an error.
pub open spec fn spec_project(b: Seq<u8>, off: nat) -> Result<Seq<Seq<char>>, crate::err::Error> {
    let parts = spec_split(b, DELIM);
    if exists|i: int| 0 <= i < parts.len() && !valid_utf8(parts[i]) {
        Err(crate::err::Error::InvalidEncoding)
    } else {
        Ok(
            Seq::new(
                if off >= parts.len() {
                    0
                } else {
                    (parts.len() - off) as nat
                },
                |i: int| decode_utf8(parts[off + i]),
            ),
        )
    }
}

/// A byte sequence is valid UTF-8 exactly when each of its delimited
/// segments is: an ASCII delimiter never lands inside a multi-byte
/// encoding, so segment-wise validity and whole-record validity coincide.
pub proof fn lemma_split_validity(b: Seq<u8>, d: u8)
    requires
        d < 0x80,
    ensures
        valid_utf8(b) <==> (forall|i: int|
            0 <= i < spec_split(b, d).len() ==> valid_utf8(#[trigger] spec_split(b, d)[i])),
    decreases b.len(),
{
    lemma_first_at(b, d);
    let k = first_at(b, d);
    if k >= b.len() {
        assert(spec_split(b, d) == seq![b]);
        assert(spec_split(b, d)[0] == b);
    } else {
        let head = b.subrange(0, k as int);
        let tail = b.subrange(k as int + 1, b.len() as int);
        assert(spec_split(b, d) == seq![head] + spec_split(tail, d));
        lemma_split_validity(tail, d);
        if valid_utf8(b) {
            vstd::utf8::is_char_boundary_iff_not_is_continuation_byte(b, k as int);
            vstd::utf8::valid_utf8_split(b, k as int);
            let suffix = b.subrange(k as int, b.len() as int);
            assert(valid_utf8(suffix));
            assert(suffix[0] == d);
            assert(vstd::utf8::is_leading_byte_width_1(d));
            assert(vstd::utf8::length_of_first_scalar(suffix) == 1);
            assert(vstd::utf8::pop_first_scalar(suffix) =~= tail);
            assert(valid_utf8(tail));
            assert forall|i: int| 0 <= i < spec_split(b, d).len() implies valid_utf8(
                #[trigger] spec_split(b, d)[i],
            ) by {
                if i == 0 {
                    assert(spec_split(b, d)[0] == head);
                } else {
                    assert(spec_split(b, d)[i] == spec_split(tail, d)[i - 1]);
                }
            }
        }
        if forall|i: int| 0 <= i < spec_split(b, d).len() ==> valid_utf8(
            #[trigger] spec_split(b, d)[i],
        ) {
            assert(valid_utf8(head)) by {
                assert(spec_split(b, d)[0] == head);
            }
            assert(valid_utf8(tail)) by {
                assert forall|i: int| 0 <= i < spec_split(tail, d).len() implies valid_utf8(
                    #[trigger] spec_split(tail, d)[i],
                ) by {
                    assert(spec_split(tail, d)[i] == spec_split(b, d)[i + 1]);
                }
            }
            let dt = seq![d] + tail;
            assert(dt[0] == d);
            assert(vstd::utf8::is_leading_byte_width_1(d));
            assert(vstd::utf8::valid_first_scalar(dt)) by {
                assert(vstd::utf8::not_surrogate(vstd::utf8::codepoint_width_1(d))) by {
                    assert((d & 0x7f) < 0xD800) by (bit_vector);
                }
            }
            assert(vstd::utf8::length_of_first_scalar(dt) == 1);
            assert(vstd::utf8::pop_first_scalar(dt) =~= tail);
            assert(valid_utf8(dt));
            vstd::utf8::valid_utf8_concat(head, dt);
            assert(head + dt =~= b);
            assert(valid_utf8(b));
        }
    }
}

/// Projection fails exactly when the record as a whole is not valid UTF-8,
/// and the only failure it reports is `InvalidEncoding`.
pub proof fn lemma_project_encoding(b: Seq<u8>, off: nat)
    ensures
        spec_project(b, off) is Err <==> !valid_utf8(b),
        spec_project(b, off) is Err ==> spec_project(b, off) == Err::<
            Seq<Seq<char>>,
            crate::err::Error,
        >(crate::err::Error::InvalidEncoding),
{
    lemma_split_validity(b, DELIM);
}

/// Field `i` of a projected result, or the empty string when the result has
/// fewer fields: fixed-schema views tolerate short records.
pub open spec fn spec_field(s: Seq<Seq<char>>, i: int) -> Seq<char> {
    if 0 <= i < s.len() {
        s[i]
    } else {
        Seq::empty()
    }
}

/// Relies on `core::str::from_utf8`: succeeds exactly when the bytes are
/// valid UTF-8, and then yields the text they encode.
#[verifier::external_body]
fn str_from_utf8(b: &[u8]) -> (r: Option<&str>)
    ensures
        r is Some <==> valid_utf8(b@),
        r matches Some(s) ==> s@ == decode_utf8(b@),
{
    core::str::from_utf8(b).ok()
}

/// Decodes one byte segment into an owned string.
///
/// Succeeds exactly when the segment is valid UTF-8.
pub fn decode_field(b: &[u8]) -> (r: Option<String>)
    ensures
        r is Some <==> valid_utf8(b@),
        r matches Some(s) ==> s@ == decode_utf8(b@),
{
    match str_from_utf8(b) {
        Some(s) => Some(s.to_owned()),
        None => None,
    }
}

/// Splits `record` on the delimiter, decodes every segment, and returns the
/// segments from position `off` on, in order.
pub fn project(record: &[u8], off: u64) -> (r: Result<Vec<String>, crate::err::Error>)
    ensures
        r matches Ok(v) ==> spec_project(record@, off as nat) matches Ok(s) && v.deep_view()
            == s,
        r matches Err(e) ==> spec_project(record@, off as nat) == Err::<Seq<Seq<char>>,
            crate::err::Error,
        >(e),
{
    let ghost parts = spec_split(record@, DELIM);
    let mut out: Vec<String> = Vec::new();
    let mut start: usize = 0;
    let mut j: usize = 0;
    let mut seg_idx: usize = 0;
    proof {
        assert(record@.subrange(0, record@.len() as int) =~= record@);
    }
    while j < record.len()
        invariant
            parts == spec_split(record@, DELIM),
            0 <= start <= j <= record@.len(),
            seg_idx <= start,
            seg_idx <= parts.len(),
            parts.skip(seg_idx as int) == spec_split(
                record@.subrange(start as int, record@.len() as int),
                DELIM,
            ),
            forall|t: int| start <= t < j ==> record@[t] != DELIM,
            forall|i: int| 0 <= i < seg_idx ==> valid_utf8(#[trigger] parts[i]),
            out.deep_view() == Seq::new(
                if seg_idx >= off {
                    (seg_idx - off) as nat
                } else {
                    0
                },
                |i: int| decode_utf8(parts[off + i]),
            ),
        decreases record@.len() - j,
    {
        if record[j] == DELIM {
            let ghost tail = record@.subrange(start as int, record@.len() as int);
            let ghost k = j - start;
            let ghost seg = tail.subrange(0, k);
            let ghost rest = tail.subrange(k + 1, tail.len() as int);
            proof {
                lemma_first_at_is(tail, DELIM, k);
                assert(seg =~= record@.subrange(start as int, j as int));
                assert(rest =~= record@.subrange(j + 1, record@.len() as int));
                assert(spec_split(tail, DELIM) == seq![seg] + spec_split(rest, DELIM));
                lemma_split_len(rest, DELIM);
                assert(parts.skip(seg_idx as int).len() == parts.len() - seg_idx);
                assert(parts.len() > seg_idx);
                assert(parts[seg_idx as int] == parts.skip(seg_idx as int)[0]);
                assert(parts[seg_idx as int] == seg);
                assert forall|i: int| 0 <= i < spec_split(rest, DELIM).len() implies parts.skip(
                    seg_idx as int + 1,
                )[i] == spec_split(rest, DELIM)[i] by {
                    assert(parts.skip(seg_idx as int + 1)[i] == parts[seg_idx + 1 + i]);
                    assert(parts.skip(seg_idx as int)[1 + i] == parts[seg_idx + 1 + i]);
                    assert((seq![seg] + spec_split(rest, DELIM))[1 + i] == spec_split(
                        rest,
                        DELIM,
                    )[i]);
                }
                assert(parts.skip(seg_idx as int + 1) =~= spec_split(rest, DELIM));
            }
            let ghost prev = out.deep_view();
            match decode_field(&record[start..j]) {
                None => {
                    return Err(crate::err::Error::InvalidEncoding);
                },
                Some(s) => {
                    proof {
                        assert(s@ == decode_utf8(parts[seg_idx as int]));
                    }
                    if seg_idx as u64 >= off {
                        out.push(s);
                        proof {
                            assert(out.deep_view() =~= prev.push(
                                decode_utf8(parts[seg_idx as int]),
                            ));
                        }
                    }
                },
            }
            seg_idx = seg_idx + 1;
            start = j + 1;
            proof {
                assert(out.deep_view() =~= Seq::new(
                    if seg_idx >= off {
                        (seg_idx - off) as nat
                    } else {
                        0
                    },
                    |i: int| decode_utf8(parts[off + i]),
                ));
            }
        }
        j = j + 1;
    }
    let ghost tail = record@.subrange(start as int, record@.len() as int);
    proof {
        lemma_first_at_is(tail, DELIM, tail.len() as int);
        assert(spec_split(tail, DELIM) == seq![tail]);
        assert(parts.skip(seg_idx as int) == seq![tail]);
        assert(parts.skip(seg_idx as int).len() == parts.len() - seg_idx);
        assert(parts[seg_idx as int] == parts.skip(seg_idx as int)[0]);
        assert(parts[seg_idx as int] == tail);
    }
    let ghost prev = out.deep_view();
    match decode_field(&record[start..record.len()]) {
        None => {
            return Err(crate::err::Error::InvalidEncoding);
        },
        Some(s) => {
            proof {
                assert(s@ == decode_utf8(parts[seg_idx as int]));
            }
            if seg_idx as u64 >= off {
                out.push(s);
                proof {
                    assert(out.deep_view() =~= prev.push(decode_utf8(parts[seg_idx as int])));
                }
            }
        },
    }
    proof {
        assert(parts.len() == seg_idx + 1);
        assert(out.deep_view() =~= Seq::new(
            if seg_idx + 1 >= off {
                (seg_idx + 1 - off) as nat
            } else {
                0
            },
            |i: int| decode_utf8(parts[off + i]),
        ));
    }
    Ok(out)
}

} // verus!
