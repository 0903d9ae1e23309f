//! Query strings: an ordered sequence of `(key, optional value)` pairs is
//! turned into `k1=v1&k2=v2...`, where keys and values are form-urlencoded
//! and pairs whose value is absent are dropped.  A spec-level parser runs the
//! other way and gives the round-trip law its statement.
use crate::encoding::{
    form_decoded, form_encoded, form_urlencode, lemma_form_encoded_no_separators,
    lemma_form_round_trip,
};
use vstd::prelude::*;

verus! {

/// The mathematical value of one executable parameter pair.
pub open spec fn param_view(p: (Vec<u8>, Option<Vec<u8>>)) -> (Seq<u8>, Option<Seq<u8>>) {
    (
        p.0@,
        match p.1 {
            Some(v) => Some(v@),
            None => None,
        },
    )
}

/// The mathematical value of an executable parameter sequence.
pub open spec fn params_view(params: Seq<(Vec<u8>, Option<Vec<u8>>)>) -> Seq<
    (Seq<u8>, Option<Seq<u8>>),
> {
    Seq::new(params.len(), |i: int| param_view(params[i]))
}

/// The pairs that actually appear in the query: those with a present value,
/// in their original order, keys kept as given (no deduplication).
pub open spec fn present_pairs(params: Seq<(Seq<u8>, Option<Seq<u8>>)>) -> Seq<(Seq<u8>, Seq<u8>)>
    decreases params.len(),
{
    if params.len() == 0 {
        Seq::<(Seq<u8>, Seq<u8>)>::empty()
    } else {
        let rest = present_pairs(params.drop_first());
        match params[0].1 {
            Some(v) => seq![(params[0].0, v)] + rest,
            None => rest,
        }
    }
}

/// One encoded `key=value` chunk.
pub open spec fn encoded_pair(p: (Seq<u8>, Seq<u8>)) -> Seq<u8> {
    form_encoded(p.0) + seq![61u8] + form_encoded(p.1)
}

/// Encoded pairs joined with `&`.
pub open spec fn query_string(pairs: Seq<(Seq<u8>, Seq<u8>)>) -> Seq<u8>
    decreases pairs.len(),
{
    if pairs.len() == 0 {
        Seq::<u8>::empty()
    } else if pairs.len() == 1 {
        encoded_pair(pairs[0])
    } else {
        encoded_pair(pairs[0]) + seq![38u8] + query_string(pairs.drop_first())
    }
}

/// Index of the first occurrence of `x`, or `-1`.
pub open spec fn find_byte(s: Seq<u8>, x: u8) -> int
    decreases s.len(),
{
    if s.len() == 0 {
        -1
    } else if s[0] == x {
        0
    } else {
        let r = find_byte(s.drop_first(), x);
        if r < 0 {
            -1
        } else {
            r + 1
        }
    }
}

pub proof fn lemma_find_byte_props(s: Seq<u8>, x: u8)
    ensures
        -1 <= find_byte(s, x) < s.len(),
        find_byte(s, x) == -1 <==> (forall|j: int| 0 <= j < s.len() ==> s[j] != x),
        find_byte(s, x) >= 0 ==> s[find_byte(s, x)] == x,
        forall|j: int| 0 <= j < find_byte(s, x) ==> s[j] != x,
    decreases s.len(),
{
    if s.len() > 0 && s[0] != x {
        lemma_find_byte_props(s.drop_first(), x);
        assert(forall|j: int| 1 <= j < s.len() ==> s[j] == s.drop_first()[j - 1]);
    }
}

/// Finding in a concatenation whose first part holds no `x` reduces to
/// finding in the second part.
pub proof fn lemma_find_byte_skip_prefix(a: Seq<u8>, b: Seq<u8>, x: u8)
    requires
        forall|i: int| 0 <= i < a.len() ==> a[i] != x,
    ensures
        find_byte(a + b, x) == (if find_byte(b, x) < 0 {
            -1
        } else {
            a.len() + find_byte(b, x)
        }),
    decreases a.len(),
{
    if a.len() == 0 {
        assert(a + b =~= b);
    } else {
        let s = a + b;
        assert(s[0] == a[0]);
        assert(s.drop_first() =~= a.drop_first() + b);
        lemma_find_byte_skip_prefix(a.drop_first(), b, x);
        lemma_find_byte_props(b, x);
    }
}

/// Splitting on every occurrence of `sep`.
pub open spec fn split_on(s: Seq<u8>, sep: u8) -> Seq<Seq<u8>>
    decreases s.len(),
    via split_on_decreases
{
    let i = find_byte(s, sep);
    if i < 0 {
        seq![s]
    } else {
        seq![s.take(i)] + split_on(s.skip(i + 1), sep)
    }
}

#[via_fn]
proof fn split_on_decreases(s: Seq<u8>, sep: u8) {
    lemma_find_byte_props(s, sep);
}

/// Decoding one `key=value` chunk; a chunk without `=` is a bare key with an
/// empty value.
pub open spec fn decode_chunk(c: Seq<u8>) -> Option<(Seq<u8>, Seq<u8>)> {
    let i = find_byte(c, 61);
    if i < 0 {
        match form_decoded(c) {
            Some(k) => Some((k, Seq::<u8>::empty())),
            None => None,
        }
    } else {
        match (form_decoded(c.take(i)), form_decoded(c.skip(i + 1))) {
            (Some(k), Some(v)) => Some((k, v)),
            _ => None,
        }
    }
}

pub open spec fn decode_chunks(cs: Seq<Seq<u8>>) -> Option<Seq<(Seq<u8>, Seq<u8>)>>
    decreases cs.len(),
{
    if cs.len() == 0 {
        Some(Seq::<(Seq<u8>, Seq<u8>)>::empty())
    } else {
        match (decode_chunk(cs[0]), decode_chunks(cs.drop_first())) {
            (Some(p), Some(r)) => Some(seq![p] + r),
            _ => None,
        }
    }
}

/// Decoding a whole query string back into its pairs.
pub open spec fn parse_query(q: Seq<u8>) -> Option<Seq<(Seq<u8>, Seq<u8>)>> {
    decode_chunks(split_on(q, 38))
}

/// An encoded pair holds no `&` and decodes back to the pair itself.
proof fn lemma_decode_encoded_pair(p: (Seq<u8>, Seq<u8>))
    ensures
        forall|i: int| 0 <= i < encoded_pair(p).len() ==> encoded_pair(p)[i] != 38,
        decode_chunk(encoded_pair(p)) == Some(p),
{
    let ek = form_encoded(p.0);
    let ev = form_encoded(p.1);
    let c = encoded_pair(p);
    lemma_form_encoded_no_separators(p.0);
    lemma_form_encoded_no_separators(p.1);
    assert(c =~= ek + (seq![61u8] + ev));
    assert forall|i: int| 0 <= i < c.len() implies c[i] != 38 by {
        if i < ek.len() {
            assert(c[i] == ek[i]);
        } else if i == ek.len() {
            assert(c[i] == 61);
        } else {
            assert(c[i] == ev[i - ek.len() - 1]);
        }
    }
    lemma_find_byte_skip_prefix(ek, seq![61u8] + ev, 61);
    assert(find_byte(seq![61u8] + ev, 61) == 0);
    let i = find_byte(c, 61);
    assert(i == ek.len());
    assert(c.take(i) =~= ek);
    assert(c.skip(i + 1) =~= ev);
    lemma_form_round_trip(p.0);
    lemma_form_round_trip(p.1);
}

/// Round trip: parsing the query string built from a non-empty pair sequence
/// gives exactly those pairs back, in order.
pub proof fn lemma_query_round_trip(pairs: Seq<(Seq<u8>, Seq<u8>)>)
    requires
        pairs.len() > 0,
    ensures
        parse_query(query_string(pairs)) == Some(pairs),
    decreases pairs.len(),
{
    let q = query_string(pairs);
    let p0 = pairs[0];
    lemma_decode_encoded_pair(p0);
    assert(decode_chunks(Seq::<Seq<u8>>::empty()) == Some(Seq::<(Seq<u8>, Seq<u8>)>::empty()));
    if pairs.len() == 1 {
        assert(q == encoded_pair(p0));
        lemma_find_byte_props(q, 38);
        assert(find_byte(q, 38) == -1);
        assert(split_on(q, 38) == seq![q]);
        let cs = split_on(q, 38);
        assert(cs.drop_first() =~= Seq::<Seq<u8>>::empty());
        assert(decode_chunks(cs) == Some(seq![p0] + Seq::<(Seq<u8>, Seq<u8>)>::empty()));
        assert(seq![p0] + Seq::<(Seq<u8>, Seq<u8>)>::empty() =~= pairs);
    } else {
        let rest = query_string(pairs.drop_first());
        assert(q == encoded_pair(p0) + seq![38u8] + rest);
        assert(q =~= encoded_pair(p0) + (seq![38u8] + rest));
        lemma_find_byte_skip_prefix(encoded_pair(p0), seq![38u8] + rest, 38);
        assert(find_byte(seq![38u8] + rest, 38) == 0);
        let i = find_byte(q, 38);
        assert(i == encoded_pair(p0).len());
        assert(q.take(i) =~= encoded_pair(p0));
        assert(q.skip(i + 1) =~= rest);
        lemma_query_round_trip(pairs.drop_first());
        assert(split_on(q, 38) == seq![encoded_pair(p0)] + split_on(rest, 38));
        let cs = split_on(q, 38);
        assert(cs[0] == encoded_pair(p0));
        assert(cs.drop_first() =~= split_on(rest, 38));
        assert(decode_chunks(split_on(rest, 38)) == Some(pairs.drop_first()));
        assert(decode_chunks(cs) == Some(seq![p0] + pairs.drop_first()));
        assert(seq![p0] + pairs.drop_first() =~= pairs);
    }
}

/// Appending a parameter appends its present pair, if any.
pub proof fn lemma_present_pairs_push(params: Seq<(Seq<u8>, Option<Seq<u8>>)>, p: (Seq<u8>, Option<Seq<u8>>))
    ensures
        present_pairs(params.push(p)) == (match p.1 {
            Some(v) => present_pairs(params) + seq![(p.0, v)],
            None => present_pairs(params),
        }),
    decreases params.len(),
{
    let t = params.push(p);
    assert(t[0] == if params.len() == 0 { p } else { params[0] });
    assert(present_pairs(Seq::<(Seq<u8>, Option<Seq<u8>>)>::empty()) == Seq::<
        (Seq<u8>, Seq<u8>),
    >::empty());
    if params.len() == 0 {
        assert(t.drop_first() =~= Seq::<(Seq<u8>, Option<Seq<u8>>)>::empty());
        assert(present_pairs(t.drop_first()) == Seq::<(Seq<u8>, Seq<u8>)>::empty());
        match p.1 {
            Some(v) => {
                assert(present_pairs(t) =~= present_pairs(params) + seq![(p.0, v)]);
            },
            None => {
                assert(present_pairs(t) =~= present_pairs(params));
            },
        }
    } else {
        assert(t.drop_first() =~= params.drop_first().push(p));
        lemma_present_pairs_push(params.drop_first(), p);
        match p.1 {
            Some(v) => {
                match params[0].1 {
                    Some(v0) => {
                        assert(present_pairs(t) =~= present_pairs(params) + seq![(p.0, v)]);
                    },
                    None => {},
                }
            },
            None => {},
        }
    }
}

/// Appending a pair appends its chunk, after a `&` when pairs came before.
pub proof fn lemma_query_string_push(pairs: Seq<(Seq<u8>, Seq<u8>)>, p: (Seq<u8>, Seq<u8>))
    ensures
        query_string(pairs.push(p)) == (if pairs.len() == 0 {
            encoded_pair(p)
        } else {
            query_string(pairs) + seq![38u8] + encoded_pair(p)
        }),
    decreases pairs.len(),
{
    let t = pairs.push(p);
    assert(t[0] == if pairs.len() == 0 { p } else { pairs[0] });
    if pairs.len() == 0 {
        assert(t.len() == 1);
    } else {
        assert(t.drop_first() =~= pairs.drop_first().push(p));
        lemma_query_string_push(pairs.drop_first(), p);
        if pairs.len() == 1 {
            assert(t.len() == 2);
            assert(query_string(t) == encoded_pair(t[0]) + seq![38u8] + query_string(
                t.drop_first(),
            ));
            assert(query_string(t.drop_first()) == encoded_pair(p));
        } else {
            assert(query_string(t) =~= query_string(pairs) + seq![38u8] + encoded_pair(p));
        }
    }
}

/// A query string over at least one present pair is never empty: its first
/// chunk holds at least the `=`.
pub proof fn lemma_query_string_nonempty(params: Seq<(Seq<u8>, Option<Seq<u8>>)>)
    requires
        present_pairs(params).len() > 0,
    ensures
        query_string(present_pairs(params)).len() > 0,
{
    let pairs = present_pairs(params);
    assert(encoded_pair(pairs[0]).len() >= 1);
}

/// Builds the query string for a parameter sequence: present pairs encoded and
/// joined with `&`; empty when every value is absent.
pub fn build_query_string(params: &Vec<(Vec<u8>, Option<Vec<u8>>)>) -> (r: Vec<u8>)
    ensures
        r@ == query_string(present_pairs(params_view(params@))),
{
    let ghost vp = params_view(params@);
    let mut out: Vec<u8> = Vec::new();
    let mut any: bool = false;
    let mut i: usize = 0;
    proof {
        assert(vp.take(0) =~= Seq::<(Seq<u8>, Option<Seq<u8>>)>::empty());
        assert(present_pairs(vp.take(0)) == Seq::<(Seq<u8>, Seq<u8>)>::empty());
        assert(query_string(present_pairs(vp.take(0))) == Seq::<u8>::empty());
    }
    while i < params.len()
        invariant
            i <= params@.len(),
            vp == params_view(params@),
            vp.len() == params@.len(),
            any <==> present_pairs(vp.take(i as int)).len() > 0,
            out@ == query_string(present_pairs(vp.take(i as int))),
        decreases params@.len() - i,
    {
        proof {
            lemma_present_pairs_push(vp.take(i as int), vp[i as int]);
            assert(vp.take(i as int).push(vp[i as int]) =~= vp.take(i + 1));
        }
        let pair = &params[i];
        match &pair.1 {
            Some(v) => {
                proof {
                    let pp0 = present_pairs(vp.take(i as int));
                    let p = (vp[i as int].0, vp[i as int].1->Some_0);
                    lemma_query_string_push(pp0, p);
                    assert(pp0.push(p) =~= pp0 + seq![p]);
                    assert(present_pairs(vp.take(i + 1)) == pp0.push(p));
                }
                if any {
                    out.push(38);
                }
                let mut ek = form_urlencode(pair.0.as_slice());
                out.append(&mut ek);
                out.push(61);
                let mut ev = form_urlencode(v.as_slice());
                out.append(&mut ev);
                any = true;
                proof {
                    assert(out@ =~= query_string(present_pairs(vp.take(i + 1))));
                }
            },
            None => {},
        }
        i = i + 1;
    }
    proof {
        assert(vp.take(vp.len() as int) =~= vp);
    }
    out
}

} // verus!
