//! The wire codec: big-endian integers, length-prefixed byte strings and
//! optional values, each decoder reading from the front of a buffer and
//! handing back what follows.
use vstd::prelude::*;

verus! {

pub open spec fn enc_u32(n: u32) -> Seq<u8> {
    seq![(n >> 24u32) as u8, (n >> 16u32) as u8, (n >> 8u32) as u8, n as u8]
}

pub open spec fn u32_of(b0: u8, b1: u8, b2: u8, b3: u8) -> u32 {
    ((b0 as u32) << 24u32) | ((b1 as u32) << 16u32) | ((b2 as u32) << 8u32) | (b3 as u32)
}

pub open spec fn dec_u32(s: Seq<u8>) -> Option<(u32, Seq<u8>)> {
    if s.len() < 4 {
        None
    } else {
        Some((u32_of(s[0], s[1], s[2], s[3]), s.subrange(4, s.len() as int)))
    }
}

pub open spec fn enc_u64(n: u64) -> Seq<u8> {
    enc_u32((n >> 32u64) as u32) + enc_u32(n as u32)
}

pub open spec fn dec_u64(s: Seq<u8>) -> Option<(u64, Seq<u8>)> {
    match dec_u32(s) {
        None => None,
        Some((hi, r)) => match dec_u32(r) {
            None => None,
            Some((lo, r2)) => Some((((hi as u64) << 32u64) | (lo as u64), r2)),
        },
    }
}

/// A byte string: its length, then its bytes.
pub open spec fn enc_bytes(b: Seq<u8>) -> Seq<u8> {
    enc_u32(b.len() as u32) + b
}

pub open spec fn dec_bytes(s: Seq<u8>) -> Option<(Seq<u8>, Seq<u8>)> {
    match dec_u32(s) {
        None => None,
        Some((n, r)) => if r.len() < n {
            None
        } else {
            Some((r.subrange(0, n as int), r.subrange(n as int, r.len() as int)))
        },
    }
}

/// An optional byte string: a tag byte, `0` for none and `1` for some.
pub open spec fn enc_opt_bytes(o: Option<Seq<u8>>) -> Seq<u8> {
    match o {
        None => seq![0u8],
        Some(b) => seq![1u8] + enc_bytes(b),
    }
}

pub open spec fn dec_opt_bytes(s: Seq<u8>) -> Option<(Option<Seq<u8>>, Seq<u8>)> {
    if s.len() < 1 {
        None
    } else if s[0] == 0 {
        Some((None, s.drop_first()))
    } else if s[0] == 1 {
        match dec_bytes(s.drop_first()) {
            None => None,
            Some((b, r)) => Some((Some(b), r)),
        }
    } else {
        None
    }
}

pub proof fn lemma_u32_round_trip(n: u32, rest: Seq<u8>)
    ensures
        dec_u32(enc_u32(n) + rest) == Some((n, rest)),
{
    let s = enc_u32(n) + rest;
    assert(u32_of((n >> 24u32) as u8, (n >> 16u32) as u8, (n >> 8u32) as u8, n as u8) == n) by (bit_vector);
    assert(s.subrange(4, s.len() as int) =~= rest);
}

pub proof fn lemma_u64_round_trip(n: u64, rest: Seq<u8>)
    ensures
        dec_u64(enc_u64(n) + rest) == Some((n, rest)),
{
    let lo = enc_u32(n as u32) + rest;
    assert(enc_u64(n) + rest =~= enc_u32((n >> 32u64) as u32) + lo);
    lemma_u32_round_trip((n >> 32u64) as u32, lo);
    lemma_u32_round_trip(n as u32, rest);
    assert((((((n >> 32u64) as u32) as u64) << 32u64) | ((n as u32) as u64)) == n) by (bit_vector);
}

pub proof fn lemma_bytes_round_trip(b: Seq<u8>, rest: Seq<u8>)
    requires
        b.len() <= u32::MAX,
    ensures
        dec_bytes(enc_bytes(b) + rest) == Some((b, rest)),
{
    let r = b + rest;
    assert(enc_bytes(b) + rest =~= enc_u32(b.len() as u32) + r);
    lemma_u32_round_trip(b.len() as u32, r);
    assert(r.subrange(0, b.len() as int) =~= b);
    assert(r.subrange(b.len() as int, r.len() as int) =~= rest);
}

pub proof fn lemma_opt_bytes_round_trip(o: Option<Seq<u8>>, rest: Seq<u8>)
    requires
        o is Some ==> o->Some_0.len() <= u32::MAX,
    ensures
        dec_opt_bytes(enc_opt_bytes(o) + rest) == Some((o, rest)),
{
    let s = enc_opt_bytes(o) + rest;
    match o {
        None => {
            assert(s.drop_first() =~= rest);
        },
        Some(b) => {
            assert(s.drop_first() =~= enc_bytes(b) + rest);
            lemma_bytes_round_trip(b, rest);
        },
    }
}

/// Appends the encoding of `n`.
pub fn put_u32(out: &mut Vec<u8>, n: u32)
    ensures
        final(out)@ == old(out)@ + enc_u32(n),
{
    out.push((n >> 24u32) as u8);
    out.push((n >> 16u32) as u8);
    out.push((n >> 8u32) as u8);
    out.push(n as u8);
    assert(final(out)@ =~= old(out)@ + enc_u32(n));
}

pub fn put_u64(out: &mut Vec<u8>, n: u64)
    ensures
        final(out)@ == old(out)@ + enc_u64(n),
{
    put_u32(out, (n >> 32u64) as u32);
    put_u32(out, n as u32);
    assert(final(out)@ =~= old(out)@ + enc_u64(n));
}

pub fn put_bytes(out: &mut Vec<u8>, b: &Vec<u8>)
    requires
        b@.len() <= u32::MAX,
    ensures
        final(out)@ == old(out)@ + enc_bytes(b@),
{
    put_u32(out, b.len() as u32);
    let ghost mid = out@;
    let mut i: usize = 0;
    while i < b.len()
        invariant
            i <= b@.len(),
            out@ == mid + b@.subrange(0, i as int),
        decreases b@.len() - i,
    {
        out.push(b[i]);
        i = i + 1;
        assert(out@ =~= mid + b@.subrange(0, i as int));
    }
    assert(b@.subrange(0, b@.len() as int) =~= b@);
    assert(final(out)@ =~= old(out)@ + enc_bytes(b@));
}

pub fn put_opt_bytes(out: &mut Vec<u8>, o: &Option<Vec<u8>>)
    requires
        o is Some ==> o->Some_0@.len() <= u32::MAX,
    ensures
        final(out)@ == old(out)@ + enc_opt_bytes(match o {
            Some(b) => Some(b@),
            None => None,
        }),
{
    match o {
        None => {
            out.push(0u8);
            assert(final(out)@ =~= old(out)@ + seq![0u8]);
        },
        Some(b) => {
            out.push(1u8);
            put_bytes(out, b);
            assert(final(out)@ =~= old(out)@ + (seq![1u8] + enc_bytes(b@)));
        },
    }
}

/// Reads a `u32` at `pos`; the result names the position after it.
pub fn get_u32(s: &Vec<u8>, pos: usize) -> (r: Option<(u32, usize)>)
    requires
        pos <= s@.len(),
    ensures
        match dec_u32(s@.subrange(pos as int, s@.len() as int)) {
            None => r is None,
            Some((v, rest)) => r matches Some((w, p)) && w == v && p <= s@.len()
                && rest == s@.subrange(p as int, s@.len() as int),
        },
{
    let ghost t = s@.subrange(pos as int, s@.len() as int);
    if s.len() - pos < 4 {
        return None;
    }
    let v = ((s[pos] as u32) << 24u32) | ((s[pos + 1] as u32) << 16u32) | ((s[pos + 2] as u32) << 8u32)
        | (s[pos + 3] as u32);
    assert(t.subrange(4, t.len() as int) =~= s@.subrange(pos + 4, s@.len() as int));
    Some((v, pos + 4))
}

pub fn get_u64(s: &Vec<u8>, pos: usize) -> (r: Option<(u64, usize)>)
    requires
        pos <= s@.len(),
    ensures
        match dec_u64(s@.subrange(pos as int, s@.len() as int)) {
            None => r is None,
            Some((v, rest)) => r matches Some((w, p)) && w == v && p <= s@.len()
                && rest == s@.subrange(p as int, s@.len() as int),
        },
{
    match get_u32(s, pos) {
        None => None,
        Some((hi, p)) => match get_u32(s, p) {
            None => None,
            Some((lo, p2)) => Some((((hi as u64) << 32u64) | (lo as u64), p2)),
        },
    }
}

pub fn get_bytes(s: &Vec<u8>, pos: usize) -> (r: Option<(Vec<u8>, usize)>)
    requires
        pos <= s@.len(),
    ensures
        match dec_bytes(s@.subrange(pos as int, s@.len() as int)) {
            None => r is None,
            Some((v, rest)) => r matches Some((w, p)) && w@ == v && p <= s@.len()
                && rest == s@.subrange(p as int, s@.len() as int),
        },
{
    match get_u32(s, pos) {
        None => None,
        Some((n, p)) => {
            if s.len() - p < n as usize {
                return None;
            }
            let end = p + n as usize;
            let mut b: Vec<u8> = Vec::with_capacity(n as usize);
            let mut i: usize = p;
            while i < end
                invariant
                    p <= i <= end <= s@.len(),
                    b@ == s@.subrange(p as int, i as int),
                decreases end - i,
            {
                b.push(s[i]);
                i = i + 1;
                assert(b@ =~= s@.subrange(p as int, i as int));
            }
            let ghost r = s@.subrange(p as int, s@.len() as int);
            assert(r.subrange(0, n as int) =~= b@);
            assert(r.subrange(n as int, r.len() as int) =~= s@.subrange(end as int, s@.len() as int));
            Some((b, end))
        },
    }
}

pub fn get_opt_bytes(s: &Vec<u8>, pos: usize) -> (r: Option<(Option<Vec<u8>>, usize)>)
    requires
        pos <= s@.len(),
    ensures
        match dec_opt_bytes(s@.subrange(pos as int, s@.len() as int)) {
            None => r is None,
            Some((v, rest)) => r matches Some((w, p)) && p <= s@.len()
                && v == match w {
                    Some(b) => Some(b@),
                    None => None::<Seq<u8>>,
                } && rest == s@.subrange(p as int, s@.len() as int),
        },
{
    let ghost t = s@.subrange(pos as int, s@.len() as int);
    if pos >= s.len() {
        return None;
    }
    assert(t.drop_first() =~= s@.subrange(pos + 1, s@.len() as int));
    if s[pos] == 0 {
        Some((None, pos + 1))
    } else if s[pos] == 1 {
        match get_bytes(s, pos + 1) {
            None => None,
            Some((b, p)) => Some((Some(b), p)),
        }
    } else {
        None
    }
}

} // verus!
