use vstd::prelude::*;

use crate::error::Error;

verus! {

/// One header as the bridge forwards it: a name and raw value bytes.
/// Duplicate names are preserved; insertion order is kept as given.
pub struct Header {
    pub name: Vec<u8>,
    pub value: Vec<u8>,
}

/// The (name, value) byte views of a vector of headers, in order.
pub open spec fn headers_view(hs: Seq<Header>) -> Seq<(Seq<u8>, Seq<u8>)> {
    hs.map_values(|h: Header| (h.name@, h.value@))
}

/// ASCII lowercasing of one byte.
pub open spec fn lower_byte(b: u8) -> u8 {
    if 65 <= b && b <= 90 {
        (b + 32) as u8
    } else {
        b
    }
}

/// Whether a header name is "te", compared ASCII-case-insensitively,
/// as HTTP header names are.
pub open spec fn is_te_name(name: Seq<u8>) -> bool {
    name.len() == 2 && lower_byte(name[0]) == 116 && lower_byte(name[1]) == 101
}

/// Whether some header in the list is named "te".
pub open spec fn has_te(hs: Seq<(Seq<u8>, Seq<u8>)>) -> bool {
    exists|i: int| 0 <= i < hs.len() && is_te_name(hs[i].0)
}

/// The headers with every "te" header removed; all others keep their
/// order and their bytes.
pub open spec fn strip_te_spec(hs: Seq<(Seq<u8>, Seq<u8>)>) -> Seq<(Seq<u8>, Seq<u8>)>
    decreases hs.len(),
{
    if hs.len() == 0 {
        Seq::empty()
    } else if is_te_name(hs.first().0) {
        strip_te_spec(hs.drop_first())
    } else {
        seq![hs.first()] + strip_te_spec(hs.drop_first())
    }
}

/// Whether one byte may appear in a header value as the host header
/// type accepts it: horizontal tab, or any byte at or above 32 other
/// than DEL (127).
pub open spec fn is_valid_value_byte(b: u8) -> bool {
    b == 9 || (b >= 32 && b != 127)
}

/// Whether value bytes form a well-formed header value.
pub open spec fn is_valid_value(value: Seq<u8>) -> bool {
    forall|i: int| 0 <= i < value.len() ==> is_valid_value_byte(value[i])
}

/// The headers whose value bytes are well-formed, order and bytes kept;
/// the rest are dropped.
pub open spec fn keep_valid_spec(hs: Seq<(Seq<u8>, Seq<u8>)>) -> Seq<(Seq<u8>, Seq<u8>)>
    decreases hs.len(),
{
    if hs.len() == 0 {
        Seq::empty()
    } else if is_valid_value(hs.first().1) {
        seq![hs.first()] + keep_valid_spec(hs.drop_first())
    } else {
        keep_valid_spec(hs.drop_first())
    }
}

/// Relies on http::HeaderValue::from_bytes, which returns Ok exactly
/// when every byte of the value is horizontal tab or at least 32 and
/// not DEL (127).
#[verifier::external_body]
fn value_is_forwardable(value: &Vec<u8>) -> (r: bool)
    ensures
        r == is_valid_value(value@),
{
    http::HeaderValue::from_bytes(value.as_slice()).is_ok()
}

/// Whether a header name is "te", compared ASCII-case-insensitively.
pub fn name_is_te(name: &Vec<u8>) -> (r: bool)
    ensures
        r == is_te_name(name@),
{
    name.len() == 2 && to_lower(name[0]) == 116 && to_lower(name[1]) == 101
}

/// ASCII lowercasing of one byte.
fn to_lower(b: u8) -> (r: u8)
    ensures
        r == lower_byte(b),
{
    if 65 <= b && b <= 90 {
        b + 32
    } else {
        b
    }
}

/// No header named "te" survives the stripping.
pub proof fn lemma_strip_te_removes_all(hs: Seq<(Seq<u8>, Seq<u8>)>)
    ensures
        forall|i: int|
            0 <= i < strip_te_spec(hs).len() ==> !is_te_name(#[trigger] strip_te_spec(hs)[i].0),
    decreases hs.len(),
{
    if hs.len() > 0 {
        lemma_strip_te_removes_all(hs.drop_first());
        assert forall|i: int| 0 <= i < strip_te_spec(hs).len() implies !is_te_name(
            #[trigger] strip_te_spec(hs)[i].0,
        ) by {
            if is_te_name(hs.first().0) {
                assert(strip_te_spec(hs) == strip_te_spec(hs.drop_first()));
                assert(!is_te_name(strip_te_spec(hs.drop_first())[i].0));
            } else if i == 0 {
                assert(strip_te_spec(hs)[0] == hs.first());
            } else {
                assert(strip_te_spec(hs)[i] == strip_te_spec(hs.drop_first())[i - 1]);
                assert(!is_te_name(strip_te_spec(hs.drop_first())[i - 1].0));
            }
        }
    }
}

/// Splitting off the first header commutes with the presence check.
proof fn lemma_has_te_unfold(hs: Seq<(Seq<u8>, Seq<u8>)>)
    requires
        hs.len() > 0,
    ensures
        has_te(hs) == (is_te_name(hs.first().0) || has_te(hs.drop_first())),
{
    if is_te_name(hs.first().0) {
        assert(has_te(hs));
    } else if has_te(hs.drop_first()) {
        let i = choose|i: int| 0 <= i < hs.drop_first().len() && is_te_name(hs.drop_first()[i].0);
        assert(is_te_name(hs[i + 1].0));
        assert(has_te(hs));
    } else {
        assert(!has_te(hs)) by {
            assert forall|i: int| 0 < i < hs.len() implies !is_te_name(hs[i].0) by {
                assert(hs.drop_first()[i - 1] == hs[i]);
            }
        }
    }
}

/// Remove every header named "te" from an outgoing request's header
/// list; the mandatory "te" header must be present, and its absence is
/// a protocol precondition violation.
pub fn strip_te(headers: Vec<Header>) -> (r: Result<Vec<Header>, Error>)
    ensures
        match r {
            Ok(out) => {
                &&& has_te(headers_view(headers@))
                &&& headers_view(out@) == strip_te_spec(headers_view(headers@))
                &&& forall|i: int| 0 <= i < out@.len() ==> !is_te_name(#[trigger] out@[i].name@)
            },
            Err(e) => e == Error::MissingTeHeader && !has_te(headers_view(headers@)),
        },
{
    let ghost orig = headers_view(headers@);
    let mut rest = headers;
    let mut out: Vec<Header> = Vec::new();
    let mut found = false;
    proof {
        assert(Seq::<(Seq<u8>, Seq<u8>)>::empty() + strip_te_spec(headers_view(rest@))
            =~= strip_te_spec(headers_view(rest@)));
    }
    while rest.len() > 0
        invariant
            strip_te_spec(orig) == headers_view(out@) + strip_te_spec(headers_view(rest@)),
            has_te(orig) == (found || has_te(headers_view(rest@))),
            forall|i: int| 0 <= i < out@.len() ==> !is_te_name(#[trigger] out@[i].name@),
        decreases rest.len(),
    {
        let ghost pre = headers_view(rest@);
        let h = rest.remove(0);
        proof {
            assert(headers_view(rest@) =~= pre.drop_first());
            assert(pre.first() == (h.name@, h.value@));
            lemma_has_te_unfold(pre);
        }
        if name_is_te(&h.name) {
            found = true;
        } else {
            let ghost out_pre = headers_view(out@);
            out.push(h);
            proof {
                assert(headers_view(out@) =~= out_pre.push((h.name@, h.value@)));
                assert(out_pre.push((h.name@, h.value@)) =~= out_pre + seq![(h.name@, h.value@)]);
                assert((out_pre + seq![pre.first()]) + strip_te_spec(pre.drop_first()) =~= out_pre
                    + (seq![pre.first()] + strip_te_spec(pre.drop_first())));
            }
        }
    }
    proof {
        assert(strip_te_spec(orig) =~= headers_view(out@));
    }
    if found {
        Ok(out)
    } else {
        Err(Error::MissingTeHeader)
    }
}

/// Keep exactly the response headers whose value bytes are well-formed
/// header values; a header with invalid value bytes is dropped, never a
/// reason to fail the call.
pub fn keep_valid(headers: Vec<Header>) -> (r: Vec<Header>)
    ensures
        headers_view(r@) == keep_valid_spec(headers_view(headers@)),
{
    let ghost orig = headers_view(headers@);
    let mut rest = headers;
    let mut out: Vec<Header> = Vec::new();
    proof {
        assert(Seq::<(Seq<u8>, Seq<u8>)>::empty() + keep_valid_spec(headers_view(rest@))
            =~= keep_valid_spec(headers_view(rest@)));
    }
    while rest.len() > 0
        invariant
            keep_valid_spec(orig) == headers_view(out@) + keep_valid_spec(headers_view(rest@)),
        decreases rest.len(),
    {
        let ghost pre = headers_view(rest@);
        let h = rest.remove(0);
        proof {
            assert(headers_view(rest@) =~= pre.drop_first());
            assert(pre.first() == (h.name@, h.value@));
        }
        if value_is_forwardable(&h.value) {
            let ghost out_pre = headers_view(out@);
            out.push(h);
            proof {
                assert(headers_view(out@) =~= out_pre.push((h.name@, h.value@)));
                assert(out_pre.push((h.name@, h.value@)) =~= out_pre + seq![(h.name@, h.value@)]);
                assert((out_pre + seq![pre.first()]) + keep_valid_spec(pre.drop_first()) =~= out_pre
                    + (seq![pre.first()] + keep_valid_spec(pre.drop_first())));
            }
        }
    }
    proof {
        assert(keep_valid_spec(orig) =~= headers_view(out@));
    }
    out
}

/// Every header the response filter keeps has a well-formed value, and
/// a header list whose values are all well-formed passes through the
/// filter unchanged.
pub proof fn lemma_keep_valid_sound(hs: Seq<(Seq<u8>, Seq<u8>)>)
    ensures
        forall|i: int|
            0 <= i < keep_valid_spec(hs).len() ==> is_valid_value(
                #[trigger] keep_valid_spec(hs)[i].1,
            ),
        (forall|i: int| 0 <= i < hs.len() ==> is_valid_value(#[trigger] hs[i].1))
            ==> keep_valid_spec(hs) == hs,
    decreases hs.len(),
{
    if hs.len() > 0 {
        lemma_keep_valid_sound(hs.drop_first());
        assert forall|i: int| 0 <= i < keep_valid_spec(hs).len() implies is_valid_value(
            #[trigger] keep_valid_spec(hs)[i].1,
        ) by {
            if !is_valid_value(hs.first().1) {
                assert(keep_valid_spec(hs) == keep_valid_spec(hs.drop_first()));
                assert(is_valid_value(keep_valid_spec(hs.drop_first())[i].1));
            } else if i == 0 {
                assert(keep_valid_spec(hs)[0] == hs.first());
            } else {
                assert(keep_valid_spec(hs)[i] == keep_valid_spec(hs.drop_first())[i - 1]);
                assert(is_valid_value(keep_valid_spec(hs.drop_first())[i - 1].1));
            }
        }
        if forall|i: int| 0 <= i < hs.len() ==> is_valid_value(#[trigger] hs[i].1) {
            assert forall|i: int| 0 <= i < hs.drop_first().len() implies is_valid_value(
                #[trigger] hs.drop_first()[i].1,
            ) by {
                assert(hs.drop_first()[i] == hs[i + 1]);
            }
            assert(is_valid_value(hs.first().1));
            assert(seq![hs.first()] + hs.drop_first() =~= hs);
        }
    }
}

} // verus!
