//! Encoding of records, record batches and the request envelope.
use vstd::prelude::*;
use crate::codec::{enc_u32,u32_of,dec_u32,enc_u64,dec_u64,enc_bytes,dec_bytes,enc_opt_bytes,dec_opt_bytes,lemma_u32_round_trip,lemma_u64_round_trip,lemma_bytes_round_trip,lemma_opt_bytes_round_trip,put_u32,put_u64,put_bytes,put_opt_bytes,get_u32,get_u64,get_bytes,get_opt_bytes};
use crate::join::{Record, RecordModel};

verus! {

/// A record whose key and value fit the length prefix.
pub open spec fn record_ok(m: RecordModel) -> bool {
    &&& m.value.len() <= u32::MAX
    &&& m.key is Some ==> m.key->Some_0.len() <= u32::MAX
}

pub open spec fn enc_record(m: RecordModel) -> Seq<u8> {
    enc_opt_bytes(m.key) + enc_bytes(m.value) + enc_u64(m.offset as u64)
}

pub open spec fn dec_record(s: Seq<u8>) -> Option<(RecordModel, Seq<u8>)> {
    match dec_opt_bytes(s) {
        None => None,
        Some((key, r1)) => match dec_bytes(r1) {
            None => None,
            Some((value, r2)) => match dec_u64(r2) {
                None => None,
                Some((o, r3)) => Some((RecordModel { key, value, offset: o as i64 }, r3)),
            },
        },
    }
}

pub open spec fn enc_record_list(ms: Seq<RecordModel>) -> Seq<u8>
    decreases ms.len(),
{
    if ms.len() == 0 {
        Seq::empty()
    } else {
        enc_record_list(ms.drop_last()) + enc_record(ms.last())
    }
}

/// Decodes `n` records, front first.
pub open spec fn dec_record_list(s: Seq<u8>, n: nat) -> Option<(Seq<RecordModel>, Seq<u8>)>
    decreases n,
{
    if n == 0 {
        Some((Seq::empty(), s))
    } else {
        match dec_record(s) {
            None => None,
            Some((m, r)) => match dec_record_list(r, (n - 1) as nat) {
                None => None,
                Some((ms, r2)) => Some((seq![m] + ms, r2)),
            },
        }
    }
}

/// A batch: the number of records, then each record.
pub open spec fn enc_records(ms: Seq<RecordModel>) -> Seq<u8> {
    enc_u32(ms.len() as u32) + enc_record_list(ms)
}

pub open spec fn dec_records(s: Seq<u8>) -> Option<Seq<RecordModel>> {
    match dec_u32(s) {
        None => None,
        Some((n, r)) => match dec_record_list(r, n as nat) {
            None => None,
            Some((ms, _)) => Some(ms),
        },
    }
}

pub open spec fn records_ok(ms: Seq<RecordModel>) -> bool {
    &&& ms.len() <= u32::MAX
    &&& forall|i: int| 0 <= i < ms.len() ==> record_ok(#[trigger] ms[i])
}

/// A record encodes and decodes back to itself, leaving what follows.
pub proof fn lemma_record_round_trip(m: RecordModel, rest: Seq<u8>)
    requires
        record_ok(m),
    ensures
        dec_record(enc_record(m) + rest) == Some((m, rest)),
{
    let r3 = enc_u64(m.offset as u64) + rest;
    let r2 = enc_bytes(m.value) + r3;
    assert(enc_record(m) + rest =~= enc_opt_bytes(m.key) + r2);
    lemma_opt_bytes_round_trip(m.key, r2);
    lemma_bytes_round_trip(m.value, r3);
    lemma_u64_round_trip(m.offset as u64, rest);
    let o = m.offset;
    assert(((o as u64) as i64) == o) by (bit_vector);
}

pub proof fn lemma_record_list_round_trip(ms: Seq<RecordModel>, rest: Seq<u8>)
    requires
        forall|i: int| 0 <= i < ms.len() ==> record_ok(#[trigger] ms[i]),
    ensures
        dec_record_list(enc_record_list(ms) + rest, ms.len()) == Some((ms, rest)),
    decreases ms.len(),
{
    if ms.len() > 0 {
        let m = ms[0];
        let tail = ms.drop_first();
        lemma_enc_record_list_front(ms);
        assert(enc_record_list(ms) + rest =~= enc_record(m) + (enc_record_list(tail) + rest));
        lemma_record_round_trip(m, enc_record_list(tail) + rest);
        lemma_record_list_round_trip(tail, rest);
        assert(seq![m] + tail =~= ms);
    }
}

/// The encoding of a list is that of its first record, then of the rest.
pub proof fn lemma_enc_record_list_front(ms: Seq<RecordModel>)
    requires
        ms.len() > 0,
    ensures
        enc_record_list(ms) == enc_record(ms[0]) + enc_record_list(ms.drop_first()),
    decreases ms.len(),
{
    if ms.len() == 1 {
        assert(ms.drop_last() =~= Seq::<RecordModel>::empty());
        assert(ms.drop_first() =~= Seq::<RecordModel>::empty());
        assert(enc_record_list(ms) =~= enc_record(ms[0]) + enc_record_list(ms.drop_first()));
    } else {
        let init = ms.drop_last();
        lemma_enc_record_list_front(init);
        assert(init.drop_first() =~= ms.drop_first().drop_last());
        assert(ms.drop_first().last() == ms.last());
        assert(enc_record_list(ms) =~= enc_record(ms[0]) + enc_record_list(ms.drop_first()));
    }
}

/// A valid batch encodes and decodes back to itself.
pub proof fn lemma_records_round_trip(ms: Seq<RecordModel>)
    requires
        records_ok(ms),
    ensures
        dec_records(enc_records(ms)) == Some(ms),
{
    let body = enc_record_list(ms);
    lemma_u32_round_trip(ms.len() as u32, body);
    lemma_record_list_round_trip(ms, Seq::empty());
    assert(body + Seq::<u8>::empty() =~= body);
}

pub fn put_record(out: &mut Vec<u8>, r: &Record)
    requires
        record_ok(r@),
    ensures
        final(out)@ == old(out)@ + enc_record(r@),
{
    put_opt_bytes(out, &r.key);
    put_bytes(out, &r.value);
    put_u64(out, r.offset as u64);
    assert(final(out)@ =~= old(out)@ + enc_record(r@));
}

pub fn get_record(s: &Vec<u8>, pos: usize) -> (r: Option<(Record, usize)>)
    requires
        pos <= s@.len(),
    ensures
        match dec_record(s@.subrange(pos as int, s@.len() as int)) {
            None => r is None,
            Some((v, rest)) => r matches Some((w, p)) && w@ == v && p <= s@.len()
                && rest == s@.subrange(p as int, s@.len() as int),
        },
{
    match get_opt_bytes(s, pos) {
        None => None,
        Some((key, p1)) => match get_bytes(s, p1) {
            None => None,
            Some((value, p2)) => match get_u64(s, p2) {
                None => None,
                Some((o, p3)) => Some((Record { key, value, offset: o as i64 }, p3)),
            },
        },
    }
}

/// Appends a batch.
pub fn put_records(out: &mut Vec<u8>, rs: &Vec<Record>)
    requires
        records_ok(rs@.map_values(|r: Record| r@)),
    ensures
        final(out)@ == old(out)@ + enc_records(rs@.map_values(|r: Record| r@)),
{
    let ghost ms = rs@.map_values(|r: Record| r@);
    put_u32(out, rs.len() as u32);
    let ghost mid = out@;
    let mut i: usize = 0;
    while i < rs.len()
        invariant
            i <= rs@.len(),
            ms == rs@.map_values(|r: Record| r@),
            records_ok(ms),
            out@ == mid + enc_record_list(ms.subrange(0, i as int)),
        decreases rs@.len() - i,
    {
        assert(record_ok(ms[i as int]));
        put_record(out, &rs[i]);
        assert(ms.subrange(0, i + 1).drop_last() =~= ms.subrange(0, i as int));
        i = i + 1;
    }
    assert(ms.subrange(0, rs@.len() as int) =~= ms);
    assert(final(out)@ =~= old(out)@ + enc_records(ms));
}

/// Reads a whole batch from `s`.
#[verifier::rlimit(30)]
pub fn get_records(s: &Vec<u8>) -> (r: Option<Vec<Record>>)
    ensures
        match dec_records(s@) {
            None => r is None,
            Some(ms) => r matches Some(v) && v@.map_values(|x: Record| x@) == ms,
        },
{
    assert(s@.subrange(0, s@.len() as int) =~= s@);
    let (n, p0) = match get_u32(s, 0) {
        None => return None,
        Some(x) => x,
    };
    let ghost start = s@.subrange(p0 as int, s@.len() as int);
    let mut out: Vec<Record> = Vec::new();
    let mut p: usize = p0;
    let mut i: u32 = 0;
    while i < n
        invariant
            p <= s@.len(),
            i <= n,
            dec_records(s@) == match dec_record_list(s@.subrange(p as int, s@.len() as int), (n - i) as nat) {
                Some((vs, _)) => Some(out@.map_values(|x: Record| x@) + vs),
                None => None::<Seq<RecordModel>>,
            },
        decreases n - i,
    {
        let ghost before = out@.map_values(|x: Record| x@);
        match get_record(s, p) {
            None => return None,
            Some((rec, p2)) => {
                let ghost m = rec@;
                out.push(rec);
                assert(out@.map_values(|x: Record| x@) =~= before.push(m));
                proof {
                    match dec_record_list(s@.subrange(p2 as int, s@.len() as int), (n - i - 1) as nat) {
                        Some((vs, _)) => {
                            assert(before + (seq![m] + vs) =~= before.push(m) + vs);
                        },
                        None => {},
                    }
                }
                p = p2;
            },
        }
        i = i + 1;
    }
    assert(out@.map_values(|x: Record| x@) + Seq::<RecordModel>::empty() =~= out@.map_values(|x: Record| x@));
    Some(out)
}

/// A record that decodes has lengths that fit their prefixes.
pub proof fn lemma_dec_record_fits(s: Seq<u8>)
    requires
        dec_record(s) is Some,
    ensures
        record_ok(dec_record(s)->Some_0.0),
{
}

/// A list that decodes has the asked number of records, each fitting.
pub proof fn lemma_dec_record_list_fits(s: Seq<u8>, n: nat)
    requires
        dec_record_list(s, n) is Some,
    ensures
        dec_record_list(s, n)->Some_0.0.len() == n,
        forall|i: int| 0 <= i < n ==> record_ok(#[trigger] dec_record_list(s, n)->Some_0.0[i]),
    decreases n,
{
    if n > 0 {
        let (m, r) = dec_record(s)->Some_0;
        lemma_dec_record_fits(s);
        lemma_dec_record_list_fits(r, (n - 1) as nat);
        let ms = dec_record_list(s, n)->Some_0.0;
        let tail = dec_record_list(r, (n - 1) as nat)->Some_0.0;
        assert(ms == seq![m] + tail);
        assert forall|i: int| 0 <= i < n implies record_ok(#[trigger] ms[i]) by {
            if i > 0 {
                assert(ms[i] == tail[i - 1]);
            }
        }
    }
}

/// A batch that decodes fits its prefixes.
pub proof fn lemma_dec_records_fit(s: Seq<u8>)
    requires
        dec_records(s) is Some,
    ensures
        records_ok(dec_records(s)->Some_0),
{
    let (n, r) = dec_u32(s)->Some_0;
    lemma_dec_record_list_fits(r, n as nat);
}

} // verus!
