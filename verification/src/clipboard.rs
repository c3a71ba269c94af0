//! The OSC 52 clipboard payload: standard Base64 (RFC 4648).
use vstd::prelude::*;

use crate::text::string_of;

verus! {

/// The Base64 alphabet: `A-Z`, `a-z`, `0-9`, `+`, `/`.
pub open spec fn b64_char(i: int) -> char {
    if i < 26 {
        (('A' as u32) + i) as char
    } else if i < 52 {
        (('a' as u32) + i - 26) as char
    } else if i < 62 {
        (('0' as u32) + i - 52) as char
    } else if i == 62 {
        '+'
    } else {
        '/'
    }
}

/// The four output characters of a group of one to three bytes (missing
/// bytes count as zero and their characters become `=`).
pub open spec fn b64_group(g: Seq<u8>) -> Seq<char> {
    let b0 = g[0] as int;
    let b1 = if g.len() > 1 {
        g[1] as int
    } else {
        0
    };
    let b2 = if g.len() > 2 {
        g[2] as int
    } else {
        0
    };
    let n = b0 * 65536 + b1 * 256 + b2;
    seq![
        b64_char(n / 262144 % 64),
        b64_char(n / 4096 % 64),
        if g.len() > 1 {
            b64_char(n / 64 % 64)
        } else {
            '='
        },
        if g.len() > 2 {
            b64_char(n % 64)
        } else {
            '='
        },
    ]
}

/// Base64 of `data`: each group of three bytes (the last may be shorter)
/// becomes four characters.
pub open spec fn base64_of(data: Seq<u8>) -> Seq<char>
    decreases data.len(),
{
    if data.len() == 0 {
        seq![]
    } else if data.len() <= 3 {
        b64_group(data)
    } else {
        b64_group(data.take(3)) + base64_of(data.skip(3))
    }
}

/// Base64 text has four characters for each started group of three bytes.
pub proof fn lemma_base64_len(data: Seq<u8>)
    ensures
        base64_of(data).len() == 4 * ((data.len() + 2) / 3),
    decreases data.len(),
{
    if data.len() > 3 {
        lemma_base64_len(data.skip(3));
    }
}

fn table_char(i: u32) -> (r: char)
    requires
        i < 64,
    ensures
        r == b64_char(i as int),
{
    if i < 26 {
        let b: u8 = (65 + i) as u8;
        b as char
    } else if i < 52 {
        let b: u8 = (97 + i - 26) as u8;
        b as char
    } else if i < 62 {
        let b: u8 = (48 + i - 52) as u8;
        b as char
    } else if i == 62 {
        '+'
    } else {
        '/'
    }
}

fn push_group(out: &mut Vec<char>, data: &[u8], k: usize)
    requires
        k < data.len(),
    ensures
        final(out)@ == old(out)@ + b64_group(data@.subrange(k as int, if k + 3 <= data.len() {
            k + 3
        } else {
            data.len() as int
        })),
{
    let ghost g = data@.subrange(k as int, if k + 3 <= data.len() {
        k + 3
    } else {
        data.len() as int
    });
    let len: usize = if data.len() - k >= 3 {
        3
    } else {
        data.len() - k
    };
    assert(g.len() == len);
    let b0: u32 = data[k] as u32;
    let b1: u32 = if len > 1 {
        data[k + 1] as u32
    } else {
        0
    };
    let b2: u32 = if len > 2 {
        data[k + 2] as u32
    } else {
        0
    };
    assert(g[0] == data@[k as int]);
    assert(len > 1 ==> g[1] == data@[k + 1]);
    assert(len > 2 ==> g[2] == data@[k + 2]);
    let n: u32 = b0 * 65536 + b1 * 256 + b2;
    out.push(table_char(n / 262144 % 64));
    out.push(table_char(n / 4096 % 64));
    if len > 1 {
        out.push(table_char(n / 64 % 64));
    } else {
        out.push('=');
    }
    if len > 2 {
        out.push(table_char(n % 64));
    } else {
        out.push('=');
    }
}

/// Standard Base64 (RFC 4648): enough for the OSC 52 payload.
pub fn base64_encode(data: &[u8]) -> (r: String)
    ensures
        r@ == base64_of(data@),
        r@.len() == 4 * ((data@.len() + 2) / 3),
{
    let mut out: Vec<char> = Vec::new();
    let mut k: usize = 0;
    proof {
        lemma_base64_len(data@);
    }
    assert(data@.skip(0) =~= data@);
    while k < data.len()
        invariant
            k <= data.len(),
            out@ + base64_of(data@.skip(k as int)) == base64_of(data@),
        decreases data.len() - k,
    {
        let ghost o0 = out@;
        let ghost rest = data@.skip(k as int);
        push_group(&mut out, data, k);
        if data.len() - k > 3 {
            assert(rest.take(3) =~= data@.subrange(k as int, k + 3));
            assert(rest.skip(3) =~= data@.skip(k + 3));
            assert(base64_of(rest) == b64_group(rest.take(3)) + base64_of(rest.skip(3)));
            assert(out@ + base64_of(data@.skip(k + 3)) =~= o0 + base64_of(rest));
            k = k + 3;
        } else {
            assert(rest =~= data@.subrange(k as int, data.len() as int));
            assert(base64_of(rest) == b64_group(rest));
            assert(data@.skip(data.len() as int) =~= Seq::<u8>::empty());
            assert(out@ + base64_of(data@.skip(data.len() as int)) =~= o0 + base64_of(rest));
            k = data.len();
        }
    }
    assert(data@.skip(k as int) =~= Seq::<u8>::empty());
    assert(out@ + base64_of(Seq::<u8>::empty()) =~= out@);
    string_of(out.as_slice())
}

} // verus!
