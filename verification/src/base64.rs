//! Base64 with the standard alphabet and mandatory padding.
//!
//! Only canonical text is accepted: the length is a multiple of four, padding
//! stands at the very end, and the bits of the last symbol that carry no data
//! are zero. Every byte string therefore has exactly one encoding, and
//! decoding is the inverse of encoding in both directions.

use vstd::prelude::*;

verus! {

/// The padding symbol, `=`.
pub open spec fn pad() -> u8 {
    '=' as u8
}

/// The symbol that stands for the six-bit value `v`.
pub open spec fn symbol(v: int) -> u8 {
    if v < 26 {
        ('A' as u8 + v) as u8
    } else if v < 52 {
        ('a' as u8 + (v - 26)) as u8
    } else if v < 62 {
        ('0' as u8 + (v - 52)) as u8
    } else if v == 62 {
        '+' as u8
    } else {
        '/' as u8
    }
}

/// The six-bit value that the symbol `c` stands for, if `c` is a symbol.
pub open spec fn value(c: u8) -> Option<int> {
    if 'A' as u8 <= c && c <= 'Z' as u8 {
        Some(c - 'A' as u8)
    } else if 'a' as u8 <= c && c <= 'z' as u8 {
        Some(c - 'a' as u8 + 26)
    } else if '0' as u8 <= c && c <= '9' as u8 {
        Some(c - '0' as u8 + 52)
    } else if c == '+' as u8 {
        Some(62)
    } else if c == '/' as u8 {
        Some(63)
    } else {
        None
    }
}

/// The four symbols that stand for the three bytes `b0`, `b1`, `b2`.
pub open spec fn quad(b0: int, b1: int, b2: int) -> Seq<u8> {
    seq![
        symbol(b0 / 4),
        symbol(b0 % 4 * 16 + b1 / 16),
        symbol(b1 % 16 * 4 + b2 / 64),
        symbol(b2 % 64),
    ]
}

/// The encoding of `b`: four symbols for every three bytes. A last group of
/// one or two bytes is filled up with zero bytes, and the symbols that stand
/// for the filling alone are replaced by `=`.
pub open spec fn encoded(b: Seq<u8>) -> Seq<u8>
    decreases b.len(),
{
    if b.len() == 0 {
        Seq::empty()
    } else if b.len() == 1 {
        quad(b[0] as int, 0, 0).take(2) + seq![pad(), pad()]
    } else if b.len() == 2 {
        quad(b[0] as int, b[1] as int, 0).take(3) + seq![pad()]
    } else {
        quad(b[0] as int, b[1] as int, b[2] as int) + encoded(b.skip(3))
    }
}

/// The three bytes that four symbols stand for.
pub open spec fn group(c0: u8, c1: u8, c2: u8, c3: u8) -> Option<Seq<u8>> {
    match (value(c0), value(c1), value(c2), value(c3)) {
        (Some(v0), Some(v1), Some(v2), Some(v3)) => Some(
            seq![(v0 * 4 + v1 / 16) as u8, (v1 % 16 * 16 + v2 / 4) as u8, (v2 % 4 * 64 + v3) as u8],
        ),
        _ => None,
    }
}

/// The one, two or three bytes that the last four characters stand for.
pub open spec fn last_group(c0: u8, c1: u8, c2: u8, c3: u8) -> Option<Seq<u8>> {
    if c3 != pad() {
        group(c0, c1, c2, c3)
    } else if c2 != pad() {
        match (value(c0), value(c1), value(c2)) {
            (Some(v0), Some(v1), Some(v2)) => if v2 % 4 == 0 {
                Some(seq![(v0 * 4 + v1 / 16) as u8, (v1 % 16 * 16 + v2 / 4) as u8])
            } else {
                None
            },
            _ => None,
        }
    } else {
        match (value(c0), value(c1)) {
            (Some(v0), Some(v1)) => if v1 % 16 == 0 {
                Some(seq![(v0 * 4 + v1 / 16) as u8])
            } else {
                None
            },
            _ => None,
        }
    }
}

/// `head` followed by `tail`, where there is a tail.
pub open spec fn prepend(head: Seq<u8>, tail: Option<Seq<u8>>) -> Option<Seq<u8>> {
    match tail {
        Some(t) => Some(head + t),
        None => None,
    }
}

/// The bytes that the text `s` stands for, if `s` is canonical Base64.
pub open spec fn decoded(s: Seq<u8>) -> Option<Seq<u8>>
    decreases s.len(),
{
    if s.len() == 0 {
        Some(Seq::empty())
    } else if s.len() < 4 {
        None
    } else if s.len() == 4 {
        last_group(s[0], s[1], s[2], s[3])
    } else {
        match group(s[0], s[1], s[2], s[3]) {
            Some(h) => prepend(h, decoded(s.skip(4))),
            None => None,
        }
    }
}

/// Every six-bit value has a symbol, no symbol is the padding, and the
/// symbol's value is the value it was made from.
pub proof fn lemma_value_of_symbol(v: int)
    requires
        0 <= v < 64,
    ensures
        value(symbol(v)) == Some(v),
        symbol(v) != pad(),
{
}

/// A symbol is the symbol of its value, and that value has six bits.
pub proof fn lemma_symbol_of_value(c: u8)
    requires
        value(c).is_some(),
    ensures
        0 <= value(c).unwrap() < 64,
        symbol(value(c).unwrap()) == c,
        c != pad(),
{
}

/// Decoding undoes encoding: every byte string comes back from its encoding.
pub proof fn lemma_decode_encode(b: Seq<u8>)
    ensures
        decoded(encoded(b)) == Some(b),
    decreases b.len(),
{
    let e = encoded(b);
    if b.len() == 0 {
        assert(decoded(e).unwrap() =~= b);
    } else if b.len() == 1 {
        let b0 = b[0] as int;
        lemma_value_of_symbol(b0 / 4);
        lemma_value_of_symbol(b0 % 4 * 16);
        assert(e.len() == 4);
        assert(decoded(e) == last_group(e[0], e[1], e[2], e[3]));
        assert(decoded(e).unwrap() =~= b);
    } else if b.len() == 2 {
        let b0 = b[0] as int;
        let b1 = b[1] as int;
        lemma_value_of_symbol(b0 / 4);
        lemma_value_of_symbol(b0 % 4 * 16 + b1 / 16);
        lemma_value_of_symbol(b1 % 16 * 4);
        assert(e.len() == 4);
        assert(decoded(e) == last_group(e[0], e[1], e[2], e[3]));
        assert(decoded(e).unwrap() =~= b);
    } else {
        let b0 = b[0] as int;
        let b1 = b[1] as int;
        let b2 = b[2] as int;
        let rest = b.skip(3);
        lemma_decode_encode(rest);
        lemma_value_of_symbol(b0 / 4);
        lemma_value_of_symbol(b0 % 4 * 16 + b1 / 16);
        lemma_value_of_symbol(b1 % 16 * 4 + b2 / 64);
        lemma_value_of_symbol(b2 % 64);
        let g = group(e[0], e[1], e[2], e[3]);
        assert(g.is_some());
        assert(g.unwrap() =~= b.subrange(0, 3));
        assert(e.skip(4) =~= encoded(rest));
        if rest.len() == 0 {
            assert(e.len() == 4);
            assert(decoded(e) == last_group(e[0], e[1], e[2], e[3]));
            assert(g.unwrap() =~= b);
        } else {
            assert(encoded(rest).len() > 0);
            assert(e.len() > 4);
            assert(decoded(e) == prepend(g.unwrap(), decoded(e.skip(4))));
            assert(b.subrange(0, 3) + rest =~= b);
        }
    }
}

/// Four six-bit values, packed into three bytes and unpacked again, are
/// themselves.
proof fn lemma_regroup(v0: int, v1: int, v2: int, v3: int)
    requires
        0 <= v0 < 64,
        0 <= v1 < 64,
        0 <= v2 < 64,
        0 <= v3 < 64,
    ensures
        ({
            let b0 = v0 * 4 + v1 / 16;
            let b1 = v1 % 16 * 16 + v2 / 4;
            let b2 = v2 % 4 * 64 + v3;
            &&& 0 <= b0 < 256
            &&& 0 <= b1 < 256
            &&& 0 <= b2 < 256
            &&& b0 / 4 == v0
            &&& b0 % 4 * 16 + b1 / 16 == v1
            &&& b1 % 16 * 4 + b2 / 64 == v2
            &&& b2 % 64 == v3
        }),
{
}

/// Four symbols are the symbols of the three bytes they stand for.
proof fn lemma_quad_of_group(c0: u8, c1: u8, c2: u8, c3: u8)
    requires
        group(c0, c1, c2, c3).is_some(),
    ensures
        ({
            let h = group(c0, c1, c2, c3).unwrap();
            &&& h.len() == 3
            &&& quad(h[0] as int, h[1] as int, h[2] as int) == seq![c0, c1, c2, c3]
        }),
{
    lemma_symbol_of_value(c0);
    lemma_symbol_of_value(c1);
    lemma_symbol_of_value(c2);
    lemma_symbol_of_value(c3);
    lemma_regroup(
        value(c0).unwrap(),
        value(c1).unwrap(),
        value(c2).unwrap(),
        value(c3).unwrap(),
    );
    let h = group(c0, c1, c2, c3).unwrap();
    assert(quad(h[0] as int, h[1] as int, h[2] as int) =~= seq![c0, c1, c2, c3]);
}

/// A padded last group is the encoding of the one or two bytes it stands
/// for.
proof fn lemma_encoded_last_group(c0: u8, c1: u8, c2: u8)
    requires
        last_group(c0, c1, c2, pad()).is_some(),
    ensures
        encoded(last_group(c0, c1, c2, pad()).unwrap()) == seq![c0, c1, c2, pad()],
{
    let h = last_group(c0, c1, c2, pad()).unwrap();
    lemma_symbol_of_value(c0);
    lemma_symbol_of_value(c1);
    if c2 != pad() {
        lemma_symbol_of_value(c2);
        lemma_regroup(value(c0).unwrap(), value(c1).unwrap(), value(c2).unwrap(), 0);
        assert(h.len() == 2);
        assert(encoded(h) =~= seq![c0, c1, c2, pad()]);
    } else {
        lemma_regroup(value(c0).unwrap(), value(c1).unwrap(), 0, 0);
        assert(h.len() == 1);
        assert(encoded(h) =~= seq![c0, c1, c2, pad()]);
    }
}

/// Encoding undoes decoding: text that decodes is the encoding of what it
/// decodes to.
pub proof fn lemma_encode_decode(s: Seq<u8>)
    requires
        decoded(s).is_some(),
    ensures
        encoded(decoded(s).unwrap()) == s,
    decreases s.len(),
{
    let b = decoded(s).unwrap();
    if s.len() == 0 {
        assert(encoded(b) =~= s);
    } else if s.len() == 4 {
        if s[3] != pad() {
            lemma_quad_of_group(s[0], s[1], s[2], s[3]);
            assert(encoded(b.skip(3)) =~= Seq::<u8>::empty());
            assert(encoded(b) =~= s);
        } else {
            lemma_encoded_last_group(s[0], s[1], s[2]);
            assert(seq![s[0], s[1], s[2], pad()] =~= s);
        }
    } else {
        let t = s.skip(4);
        let h = group(s[0], s[1], s[2], s[3]).unwrap();
        let r = decoded(t).unwrap();
        lemma_quad_of_group(s[0], s[1], s[2], s[3]);
        lemma_encode_decode(t);
        assert(b == h + r);
        assert(b.skip(3) =~= r);
        assert(b[0] == h[0] && b[1] == h[1] && b[2] == h[2]);
        assert(seq![s[0], s[1], s[2], s[3]] + t =~= s);
    }
}

/// Two byte strings with the same encoding are the same string.
pub proof fn lemma_encoding_is_injective(a: Seq<u8>, b: Seq<u8>)
    requires
        encoded(a) == encoded(b),
    ensures
        a == b,
{
    lemma_decode_encode(a);
    lemma_decode_encode(b);
}

/// The symbol for a six-bit value.
fn symbol_of(v: u8) -> (c: u8)
    requires
        v < 64,
    ensures
        c == symbol(v as int),
{
    if v < 26 {
        'A' as u8 + v
    } else if v < 52 {
        'a' as u8 + (v - 26)
    } else if v < 62 {
        '0' as u8 + (v - 52)
    } else if v == 62 {
        '+' as u8
    } else {
        '/' as u8
    }
}

/// The six-bit value of a symbol.
fn value_of(c: u8) -> (v: Option<u8>)
    ensures
        match v {
            Some(x) => value(c) == Some(x as int),
            None => value(c).is_none(),
        },
{
    if 'A' as u8 <= c && c <= 'Z' as u8 {
        Some(c - 'A' as u8)
    } else if 'a' as u8 <= c && c <= 'z' as u8 {
        Some(c - 'a' as u8 + 26)
    } else if '0' as u8 <= c && c <= '9' as u8 {
        Some(c - '0' as u8 + 52)
    } else if c == '+' as u8 {
        Some(62)
    } else if c == '/' as u8 {
        Some(63)
    } else {
        None
    }
}

/// Encodes `b`.
pub fn encode(b: &[u8]) -> (r: Vec<u8>)
    ensures
        r@ == encoded(b@),
{
    let n = b.len();
    let mut out: Vec<u8> = Vec::new();
    let mut i: usize = 0;
    assert(b@.skip(0) =~= b@);
    while n - i >= 3
        invariant
            i <= n == b.len(),
            encoded(b@) == out@ + encoded(b@.skip(i as int)),
        decreases n - i,
    {
        let b0 = b[i];
        let b1 = b[i + 1];
        let b2 = b[i + 2];
        proof {
            let t = b@.skip(i as int);
            assert(t[0] == b0 && t[1] == b1 && t[2] == b2);
            assert(t.skip(3) =~= b@.skip(i + 3));
            let head = quad(b0 as int, b1 as int, b2 as int);
            assert(encoded(t) == head + encoded(t.skip(3)));
            assert(out@ + (head + encoded(t.skip(3))) =~= out@.push(head[0]).push(head[1]).push(
                head[2],
            ).push(head[3]) + encoded(t.skip(3)));
        }
        out.push(symbol_of(b0 / 4));
        out.push(symbol_of(b0 % 4 * 16 + b1 / 16));
        out.push(symbol_of(b1 % 16 * 4 + b2 / 64));
        out.push(symbol_of(b2 % 64));
        i += 3;
    }
    proof {
        let t = b@.skip(i as int);
        if n - i >= 1 {
            assert(t[0] == b@[i as int]);
        }
        if n - i == 2 {
            assert(t[1] == b@[i + 1]);
        }
        assert(out@ + encoded(t) =~= if n - i == 0 {
            out@
        } else {
            out@.push(encoded(t)[0]).push(encoded(t)[1]).push(encoded(t)[2]).push(encoded(t)[3])
        });
    }
    if n - i == 1 {
        let b0 = b[i];
        out.push(symbol_of(b0 / 4));
        out.push(symbol_of(b0 % 4 * 16));
        out.push('=' as u8);
        out.push('=' as u8);
    } else if n - i == 2 {
        let b0 = b[i];
        let b1 = b[i + 1];
        out.push(symbol_of(b0 / 4));
        out.push(symbol_of(b0 % 4 * 16 + b1 / 16));
        out.push(symbol_of(b1 % 16 * 4));
        out.push('=' as u8);
    }
    out
}

/// Decodes `s`, or tells that it is not canonical Base64.
pub fn decode(s: &[u8]) -> (r: Option<Vec<u8>>)
    ensures
        match r {
            Some(b) => decoded(s@) == Some(b@),
            None => decoded(s@).is_none(),
        },
{
    let n = s.len();
    let mut out: Vec<u8> = Vec::new();
    let mut i: usize = 0;
    assert(s@.skip(0) =~= s@);
    assert(Seq::<u8>::empty() + decoded(s@).unwrap() =~= decoded(s@).unwrap());
    while i < n
        invariant
            i <= n == s.len(),
            decoded(s@) == prepend(out@, decoded(s@.skip(i as int))),
        decreases n - i,
    {
        let ghost t = s@.skip(i as int);
        let ghost before = out@;
        if n - i < 4 {
            return None;
        }
        let c0 = s[i];
        let c1 = s[i + 1];
        let c2 = s[i + 2];
        let c3 = s[i + 3];
        assert(t[0] == c0 && t[1] == c1 && t[2] == c2 && t[3] == c3);
        let v0 = match value_of(c0) {
            Some(v) => v,
            None => { return None; },
        };
        let v1 = match value_of(c1) {
            Some(v) => v,
            None => { return None; },
        };
        let last = n - i == 4;
        if last && c3 == '=' as u8 {
            if c2 == '=' as u8 {
                if v1 % 16 != 0 {
                    return None;
                }
                out.push(v0 * 4 + v1 / 16);
            } else {
                let v2 = match value_of(c2) {
                    Some(v) => v,
                    None => { return None; },
                };
                if v2 % 4 != 0 {
                    return None;
                }
                out.push(v0 * 4 + v1 / 16);
                out.push(v1 % 16 * 16 + v2 / 4);
            }
        } else {
            let v2 = match value_of(c2) {
                Some(v) => v,
                None => { return None; },
            };
            let v3 = match value_of(c3) {
                Some(v) => v,
                None => { return None; },
            };
            out.push(v0 * 4 + v1 / 16);
            out.push(v1 % 16 * 16 + v2 / 4);
            out.push(v2 % 4 * 64 + v3);
        }
        proof {
            let u = s@.skip(i + 4);
            assert(t.skip(4) =~= u);
            if last {
                let h = last_group(c0, c1, c2, c3).unwrap();
                assert(decoded(t) == Some(h));
                assert(out@ =~= before + h);
                assert(out@ + Seq::<u8>::empty() =~= out@);
            } else {
                let h = group(c0, c1, c2, c3).unwrap();
                assert(decoded(t) == prepend(h, decoded(u)));
                assert(out@ =~= before + h);
                if decoded(u).is_some() {
                    let w = decoded(u).unwrap();
                    assert(out@ + w =~= before + (h + w));
                }
            }
        }
        i += 4;
    }
    Some(out)
}

} // verus!
