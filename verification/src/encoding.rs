//! Form-urlencoding of byte strings: the `application/x-www-form-urlencoded`
//! byte escaping used in query strings.  A byte that is ASCII alphanumeric or
//! one of `*`, `-`, `.`, `_` stands for itself, a space becomes `+`, and every
//! other byte becomes `%` followed by two uppercase hex digits.
use vstd::prelude::*;

verus! {

/// Bytes that the encoding leaves unchanged.
pub open spec fn is_form_unreserved(b: u8) -> bool {
    (65 <= b <= 90)  // A-Z
    || (97 <= b <= 122)  // a-z
    || (48 <= b <= 57)  // 0-9
    || b == 42  // *
    || b == 45  // -
    || b == 46  // .
    || b == 95  // _
}

/// The uppercase hex digit for a nibble.
pub open spec fn hex_upper(n: u8) -> u8
    recommends
        n < 16,
{
    if n < 10 {
        (48 + n) as u8  // '0'..'9'
    } else {
        (55 + n) as u8  // 'A'..'F'
    }
}

/// The value of a hex digit byte, uppercase or lowercase.
pub open spec fn is_hex_digit(b: u8) -> bool {
    (48 <= b <= 57) || (65 <= b <= 70) || (97 <= b <= 102)
}

pub open spec fn hex_value(b: u8) -> u8
    recommends
        is_hex_digit(b),
{
    if 48 <= b <= 57 {
        (b - 48) as u8
    } else if 65 <= b <= 70 {
        (b - 55) as u8
    } else {
        (b - 87) as u8
    }
}

/// The encoding of one byte.
pub open spec fn encode_byte(b: u8) -> Seq<u8> {
    if b == 32 {
        seq![43u8]  // space -> '+'
    } else if is_form_unreserved(b) {
        seq![b]
    } else {
        seq![37u8, hex_upper(b / 16), hex_upper(b % 16)]  // '%' XX
    }
}

/// The encoding of a whole byte string.
pub open spec fn form_encoded(s: Seq<u8>) -> Seq<u8>
    decreases s.len(),
{
    if s.len() == 0 {
        Seq::<u8>::empty()
    } else {
        encode_byte(s[0]) + form_encoded(s.drop_first())
    }
}

/// The decoding of an encoded byte string: `+` becomes a space, `%` followed
/// by two hex digits becomes the byte they denote, any other byte stands for
/// itself.  `None` when a `%` is not followed by two hex digits.
pub open spec fn form_decoded(s: Seq<u8>) -> Option<Seq<u8>>
    decreases s.len(),
{
    if s.len() == 0 {
        Some(Seq::<u8>::empty())
    } else if s[0] == 43 {
        match form_decoded(s.drop_first()) {
            Some(r) => Some(seq![32u8] + r),
            None => None,
        }
    } else if s[0] == 37 {
        if s.len() >= 3 && is_hex_digit(s[1]) && is_hex_digit(s[2]) {
            match form_decoded(s.skip(3)) {
                Some(r) => Some(seq![(hex_value(s[1]) * 16 + hex_value(s[2])) as u8] + r),
                None => None,
            }
        } else {
            None
        }
    } else {
        match form_decoded(s.drop_first()) {
            Some(r) => Some(seq![s[0]] + r),
            None => None,
        }
    }
}

/// Appending one byte to the input appends that byte's encoding to the output.
pub proof fn lemma_form_encoded_push(s: Seq<u8>, b: u8)
    ensures
        form_encoded(s.push(b)) == form_encoded(s) + encode_byte(b),
    decreases s.len(),
{
    let t = s.push(b);
    assert(t.len() == s.len() + 1);
    assert(t[0] == if s.len() == 0 { b } else { s[0] });
    assert(form_encoded(t) == encode_byte(t[0]) + form_encoded(t.drop_first()));
    if s.len() == 0 {
        assert(t.drop_first() =~= Seq::<u8>::empty());
        assert(form_encoded(t.drop_first()) =~= Seq::<u8>::empty());
        assert(form_encoded(s) =~= Seq::<u8>::empty());
        assert(encode_byte(b) + Seq::<u8>::empty() =~= encode_byte(b));
        assert(Seq::<u8>::empty() + encode_byte(b) =~= encode_byte(b));
    } else {
        assert(t.drop_first() =~= s.drop_first().push(b));
        lemma_form_encoded_push(s.drop_first(), b);
        assert(form_encoded(t) == encode_byte(s[0]) + (form_encoded(s.drop_first())
            + encode_byte(b)));
        assert(encode_byte(s[0]) + (form_encoded(s.drop_first()) + encode_byte(b))
            =~= (encode_byte(s[0]) + form_encoded(s.drop_first())) + encode_byte(b));
        assert(form_encoded(s) == encode_byte(s[0]) + form_encoded(s.drop_first()));
    }
}

/// Encoding one byte and then an unrelated suffix decodes back to the byte
/// followed by the decoding of the suffix.
proof fn lemma_decode_encoded_byte(b: u8, rest: Seq<u8>)
    ensures
        form_decoded(encode_byte(b) + rest) == (match form_decoded(rest) {
            Some(r) => Some(seq![b] + r),
            None => None::<Seq<u8>>,
        }),
{
    let s = encode_byte(b) + rest;
    if b == 32 {
        assert(s[0] == 43);
        assert(s.drop_first() =~= rest);
    } else if is_form_unreserved(b) {
        assert(s[0] == b);
        assert(b != 43 && b != 37);
        assert(s.drop_first() =~= rest);
    } else {
        assert(s[0] == 37);
        let hi = hex_upper(b / 16);
        let lo = hex_upper(b % 16);
        assert(s.len() >= 3 && s[1] == hi && s[2] == lo);
        assert(is_hex_digit(hi) && is_hex_digit(lo));
        assert(hex_value(hi) == b / 16 && hex_value(lo) == b % 16);
        assert(hex_value(hi) * 16 + hex_value(lo) == b) by {
            assert(b / 16 * 16 + b % 16 == b) by (nonlinear_arith);
        }
        assert(s.skip(3) =~= rest);
    }
}

/// Round trip: decoding an encoded byte string gives the original back.
pub proof fn lemma_form_round_trip(s: Seq<u8>)
    ensures
        form_decoded(form_encoded(s)) == Some(s),
    decreases s.len(),
{
    if s.len() == 0 {
        assert(form_encoded(s) =~= Seq::<u8>::empty());
    } else {
        lemma_form_round_trip(s.drop_first());
        lemma_decode_encoded_byte(s[0], form_encoded(s.drop_first()));
        assert(seq![s[0]] + s.drop_first() =~= s);
    }
}

/// The encoding never produces a separator or structure byte of a query
/// string: no `&`, `=`, `?` or `#` stands in an encoded byte string.
pub proof fn lemma_form_encoded_no_separators(s: Seq<u8>)
    ensures
        forall|i: int|
            0 <= i < form_encoded(s).len() ==> form_encoded(s)[i] != 38 && form_encoded(s)[i] != 61
                && form_encoded(s)[i] != 63 && form_encoded(s)[i] != 35,
    decreases s.len(),
{
    if s.len() > 0 {
        lemma_form_encoded_no_separators(s.drop_first());
        let e = form_encoded(s);
        let head = encode_byte(s[0]);
        let rest = form_encoded(s.drop_first());
        assert(e == head + rest);
        assert(head.len() <= 3);
        assert forall|i: int| 0 <= i < e.len() implies e[i] != 38 && e[i] != 61 && e[i] != 63
            && e[i] != 35 by {
            if i < head.len() {
                assert(e[i] == head[i]);
            } else {
                assert(e[i] == rest[i - head.len()]);
            }
        }
    }
}

/// Encodes a byte string.
pub fn form_urlencode(s: &[u8]) -> (r: Vec<u8>)
    ensures
        r@ == form_encoded(s@),
{
    let mut out: Vec<u8> = Vec::new();
    let mut i: usize = 0;
    while i < s.len()
        invariant
            i <= s@.len(),
            out@ == form_encoded(s@.take(i as int)),
        decreases s@.len() - i,
    {
        let b = s[i];
        proof {
            lemma_form_encoded_push(s@.take(i as int), b);
            assert(s@.take(i as int).push(b) =~= s@.take(i + 1));
        }
        if b == 32 {
            out.push(43);
        } else if (65 <= b && b <= 90) || (97 <= b && b <= 122) || (48 <= b && b <= 57) || b == 42
            || b == 45 || b == 46 || b == 95 {
            out.push(b);
        } else {
            out.push(37);
            let hi = b / 16;
            let lo = b % 16;
            out.push(if hi < 10 { 48 + hi } else { 55 + hi });
            out.push(if lo < 10 { 48 + lo } else { 55 + lo });
        }
        i = i + 1;
    }
    proof {
        assert(s@.take(s@.len() as int) =~= s@);
    }
    out
}

} // verus!
