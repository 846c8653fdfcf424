//! RFC 4648 Base64 encoding (standard alphabet, `=` padding).
use vstd::prelude::*;
use crate::text::push_char;

verus! {

/// The character for a 6-bit value in the standard alphabet.
pub open spec fn b64_char(v: int) -> char {
    if v < 26 {
        ((65 + v) as u32) as char
    } else if v < 52 {
        ((97 + v - 26) as u32) as char
    } else if v < 62 {
        ((48 + v - 52) as u32) as char
    } else if v == 62 {
        '+'
    } else {
        '/'
    }
}

/// Encoding of one group of one to three bytes.
pub open spec fn b64_group(g: Seq<u8>) -> Seq<char> {
    let b0 = g[0] as int;
    let b1 = if g.len() > 1 {
        g[1] as int
    } else {
        0
    };
    let b2 = if g.len() > 2 {
        g[2] as int
    } else {
        0
    };
    seq![
        b64_char(b0 / 4),
        b64_char((b0 % 4) * 16 + b1 / 16),
        if g.len() > 1 {
            b64_char((b1 % 16) * 4 + b2 / 64)
        } else {
            '='
        },
        if g.len() > 2 {
            b64_char(b2 % 64)
        } else {
            '='
        },
    ]
}

/// Base64 encoding of `data`, three bytes at a time.
pub open spec fn b64(data: Seq<u8>) -> Seq<char>
    decreases data.len(),
{
    if data.len() == 0 {
        Seq::empty()
    } else if data.len() <= 3 {
        b64_group(data)
    } else {
        b64_group(data.take(3)) + b64(data.skip(3))
    }
}

fn b64_char_v(v: u32) -> (c: char)
    requires
        v < 64,
    ensures
        c == b64_char(v as int),
{
    if v < 26 {
        crate::text::char_of_u32(65 + v)
    } else if v < 52 {
        crate::text::char_of_u32(97 + v - 26)
    } else if v < 62 {
        crate::text::char_of_u32(48 + v - 52)
    } else if v == 62 {
        '+'
    } else {
        '/'
    }
}

proof fn lemma_b64_step(data: Seq<u8>, i: int)
    requires
        0 <= i < data.len(),
        i % 3 == 0,
    ensures
        b64(data.skip(i)) == b64_group(data.subrange(i, if i + 3 <= data.len() { i + 3 } else { data.len() as int }))
            + b64(data.skip(if i + 3 <= data.len() { i + 3 } else { data.len() as int })),
{
    let s = data.skip(i);
    if s.len() <= 3 {
        assert(s =~= data.subrange(i, data.len() as int));
        assert(data.skip(data.len() as int) =~= Seq::<u8>::empty());
        assert(b64(Seq::<u8>::empty()) =~= Seq::<char>::empty());
        assert(b64(s) + Seq::<char>::empty() =~= b64(s));
    } else {
        assert(s.take(3) =~= data.subrange(i, i + 3));
        assert(s.skip(3) =~= data.skip(i + 3));
    }
}

/// Base64 (RFC 4648, standard alphabet, padded) encoding of `data`.
pub fn base64_encode(data: &[u8]) -> (r: String)
    ensures
        r@ == b64(data@),
{
    let mut out = String::new();
    let n = data.len();
    let mut i: usize = 0;
    assert(data@.skip(0) =~= data@);
    while i < n
        invariant
            n == data@.len(),
            i <= n,
            i % 3 == 0 || i == n,
            out@ + b64(data@.skip(i as int)) == b64(data@),
        decreases n - i,
    {
        let len = if n - i >= 3 {
            3
        } else {
            n - i
        };
        let b0 = data[i] as u32;
        let b1 = if len > 1 {
            data[i + 1] as u32
        } else {
            0
        };
        let b2 = if len > 2 {
            data[i + 2] as u32
        } else {
            0
        };
        let v: u32 = (b0 << 16) | (b1 << 8) | b2;
        assert(b0 < 256 && b1 < 256 && b2 < 256);
        assert((((b0 << 16) | (b1 << 8) | b2) >> 18) & 63 == b0 / 4 && (((b0 << 16) | (b1 << 8) | b2)
            >> 12) & 63 == (b0 % 4) * 16 + b1 / 16 && (((b0 << 16) | (b1 << 8) | b2) >> 6) & 63
            == (b1 % 16) * 4 + b2 / 64 && ((b0 << 16) | (b1 << 8) | b2) & 63 == b2 % 64)
            by (bit_vector)
            requires
                b0 < 256 && b1 < 256 && b2 < 256,
        ;
        assert(b0 / 4 < 64 && (b0 % 4) * 16 + b1 / 16 < 64 && (b1 % 16) * 4 + b2 / 64 < 64);
        let c0 = b64_char_v((v >> 18) & 63);
        let c1 = b64_char_v((v >> 12) & 63);
        let c2 = if len > 1 {
            b64_char_v((v >> 6) & 63)
        } else {
            '='
        };
        let c3 = if len > 2 {
            b64_char_v(v & 63)
        } else {
            '='
        };
        proof {
            lemma_b64_step(data@, i as int);
            let g = data@.subrange(i as int, (i + len) as int);
            assert(g.len() == len);
            assert(g[0] == data@[i as int]);
            if len > 1 {
                assert(g[1] == data@[i + 1]);
            }
            if len > 2 {
                assert(g[2] == data@[i + 2]);
            }
            assert(b64_group(g) =~= seq![c0, c1, c2, c3]);
        }
        let ghost before = out@;
        push_char(&mut out, c0);
        push_char(&mut out, c1);
        push_char(&mut out, c2);
        push_char(&mut out, c3);
        assert(out@ =~= before + seq![c0, c1, c2, c3]);
        i = i + len;
    }
    assert(data@.skip(n as int) =~= Seq::<u8>::empty());
    assert(out@ + Seq::<char>::empty() =~= out@);
    out
}

/// Length of the encoding: four characters per started group of three bytes.
pub proof fn law_base64_length(data: Seq<u8>)
    ensures
        b64(data).len() == 4 * ((data.len() + 2) / 3),
    decreases data.len(),
{
    if data.len() > 3 {
        law_base64_length(data.skip(3));
    }
}

} // verus!
