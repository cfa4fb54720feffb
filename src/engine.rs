//! One join invocation from bytes to bytes: decode the request, run the
//! transform, encode the response; and the integer that reports it.
use vstd::prelude::*;
use crate::codec::{enc_u32, dec_u32, enc_u64, dec_u64, enc_bytes, dec_bytes, lemma_bytes_round_trip, lemma_u32_round_trip, lemma_u64_round_trip, put_u64, put_bytes, get_u64, get_bytes};
use crate::envelope::{lemma_dec_records_fit, lemma_dec_record_fits, enc_record_list, dec_record_list, lemma_record_round_trip, lemma_record_list_round_trip, record_ok, records_ok, enc_record, dec_record, enc_records, dec_records, put_record, put_records, get_record, get_records};
use crate::join::{Record, RecordModel, RuntimeError, JoinOutput, SmartModuleKind, TransformResult, join_records, join_records_with, join_post, join_post_with, transformed, transformed_with};

verus! {

/// Failures of the protocol itself, as opposed to failures of user logic.
#[derive(Debug, Clone, Copy, PartialEq, Eq)]
pub enum InternalError {
    DecodingBaseInput,
    DecodingRecords,
    UndefinedRightRecord,
    ParsingExtraParams,
    EncodingOutput,
}

impl InternalError {
    pub open spec fn spec_code(self) -> i32 {
        match self {
            InternalError::DecodingBaseInput => -11i32,
            InternalError::DecodingRecords => -22i32,
            InternalError::UndefinedRightRecord => -33i32,
            InternalError::ParsingExtraParams => -44i32,
            InternalError::EncodingOutput => -55i32,
        }
    }

    /// The integer that reports this failure to the host.
    pub fn code(self) -> (r: i32)
        ensures
            r == self.spec_code(),
    {
        match self {
            InternalError::DecodingBaseInput => -11,
            InternalError::DecodingRecords => -22,
            InternalError::UndefinedRightRecord => -33,
            InternalError::ParsingExtraParams => -44,
            InternalError::EncodingOutput => -55,
        }
    }
}

/// The result of one invocation: a count of successes, or a protocol failure.
#[derive(Debug, Clone, Copy, PartialEq, Eq)]
pub enum Outcome {
    Count(u32),
    ProtocolError(InternalError),
}

pub open spec fn spec_outcome_code(o: Outcome) -> int {
    match o {
        Outcome::Count(n) => n as int,
        Outcome::ProtocolError(e) => e.spec_code() as int,
    }
}

impl Outcome {
    /// The integer handed back to the host: the count itself, or the
    /// failure's negative code. `None` where a count does not fit an `i32`.
    pub fn to_i32(self) -> (r: Option<i32>)
        ensures
            match self {
                Outcome::Count(n) => n <= i32::MAX ==> r == Some(n as i32),
                Outcome::ProtocolError(_) => r is Some,
            },
            n_fits(self) ==> (r matches Some(v) && v == spec_outcome_code(self)),
            !n_fits(self) ==> r is None,
    {
        match self {
            Outcome::Count(n) => if n <= 2147483647u32 {
                Some(n as i32)
            } else {
                None
            },
            Outcome::ProtocolError(e) => Some(e.code()),
        }
    }
}

pub open spec fn n_fits(o: Outcome) -> bool {
    match o {
        Outcome::Count(n) => n <= i32::MAX,
        Outcome::ProtocolError(_) => true,
    }
}

/// A count of successes is never read as a protocol failure: counts are
/// non-negative and every failure code is negative.
pub proof fn lemma_count_disjoint_from_sentinels(n: u32, e: InternalError)
    requires
        n <= i32::MAX,
    ensures
        spec_outcome_code(Outcome::Count(n)) >= 0,
        spec_outcome_code(Outcome::ProtocolError(e)) < 0,
        spec_outcome_code(Outcome::Count(n)) != spec_outcome_code(Outcome::ProtocolError(e)),
{
}

/// Distinct failures report distinct integers.
pub proof fn lemma_sentinels_distinct(a: InternalError, b: InternalError)
    ensures
        a.spec_code() == b.spec_code() <==> a == b,
{
}

/// The request envelope, as sequences.
pub struct RequestModel {
    pub record_data: Seq<u8>,
    pub join_record: Seq<u8>,
    pub params: Seq<u8>,
    pub base_offset: i64,
}

pub open spec fn request_ok(q: RequestModel) -> bool {
    &&& q.record_data.len() <= u32::MAX
    &&& q.join_record.len() <= u32::MAX
    &&& q.params.len() <= u32::MAX
}

pub open spec fn enc_request(q: RequestModel) -> Seq<u8> {
    enc_bytes(q.record_data) + enc_bytes(q.join_record) + enc_bytes(q.params) + enc_u64(q.base_offset as u64)
}

/// Decodes a request; bytes after it are ignored.
pub open spec fn dec_request(s: Seq<u8>) -> Option<RequestModel> {
    match dec_bytes(s) {
        None => None,
        Some((record_data, r1)) => match dec_bytes(r1) {
            None => None,
            Some((join_record, r2)) => match dec_bytes(r2) {
                None => None,
                Some((params, r3)) => match dec_u64(r3) {
                    None => None,
                    Some((o, _)) => Some(RequestModel { record_data, join_record, params, base_offset: o as i64 }),
                },
            },
        },
    }
}

/// A valid request envelope encodes and decodes back to itself, whatever
/// follows it.
pub proof fn lemma_request_round_trip(q: RequestModel, rest: Seq<u8>)
    requires
        request_ok(q),
    ensures
        dec_request(enc_request(q) + rest) == Some(q),
{
    let r3 = enc_u64(q.base_offset as u64) + rest;
    let r2 = enc_bytes(q.params) + r3;
    let r1 = enc_bytes(q.join_record) + r2;
    assert(enc_request(q) + rest =~= enc_bytes(q.record_data) + r1);
    lemma_bytes_round_trip(q.record_data, r1);
    lemma_bytes_round_trip(q.join_record, r2);
    lemma_bytes_round_trip(q.params, r3);
    lemma_u64_round_trip(q.base_offset as u64, rest);
    let o = q.base_offset;
    assert(((o as u64) as i64) == o) by (bit_vector);
}

/// The join record's buffer: a tag byte, then the record if the tag is `1`.
pub open spec fn enc_join_record(o: Option<RecordModel>) -> Seq<u8> {
    match o {
        None => seq![0u8],
        Some(m) => seq![1u8] + enc_record(m),
    }
}

pub open spec fn dec_join_record(s: Seq<u8>) -> Option<Option<RecordModel>> {
    if s.len() < 1 {
        None
    } else if s[0] == 0 {
        Some(None)
    } else if s[0] == 1 {
        match dec_record(s.drop_first()) {
            None => None,
            Some((m, _)) => Some(Some(m)),
        }
    } else {
        None
    }
}

/// A join-record buffer encodes and decodes back to itself.
pub proof fn lemma_join_record_round_trip(o: Option<RecordModel>)
    requires
        o is Some ==> record_ok(o->Some_0),
    ensures
        dec_join_record(enc_join_record(o)) == Some(o),
{
    match o {
        None => {},
        Some(m) => {
            assert(enc_join_record(o).drop_first() =~= enc_record(m) + Seq::<u8>::empty());
            lemma_record_round_trip(m, Seq::empty());
        },
    }
}

/// A decoded request.
#[derive(Debug)]
pub struct JoinInput {
    pub records: Vec<Record>,
    pub join_record: Record,
    pub params: Vec<u8>,
    pub base_offset: i64,
}

/// How decoding `s` turns out: the failure, or the batch, the join record
/// and the base offset.
#[verifier::opaque]
pub open spec fn decode_outcome(s: Seq<u8>) -> Result<(Seq<RecordModel>, RecordModel, i64), InternalError> {
    match dec_request(s) {
        None => Err(InternalError::DecodingBaseInput),
        Some(q) => match dec_records(q.record_data) {
            None => Err(InternalError::DecodingRecords),
            Some(ms) => match dec_join_record(q.join_record) {
                Some(Some(j)) => Ok((ms, j, q.base_offset)),
                _ => Err(InternalError::UndefinedRightRecord),
            },
        },
    }
}

/// A request whose join record decodes as absent fails with
/// `UndefinedRightRecord`, whether its batch is empty or not.
pub proof fn lemma_join_record_mandatory(s: Seq<u8>)
    requires
        dec_request(s) matches Some(q) && dec_records(q.record_data) is Some
            && dec_join_record(q.join_record) == Some(None::<RecordModel>),
    ensures
        decode_outcome(s) == Err::<(Seq<RecordModel>, RecordModel, i64), InternalError>(InternalError::UndefinedRightRecord),
{
    reveal(decode_outcome);
}

/// Decodes a request: the envelope, then the batch inside it, then the
/// join record inside it, each failure reported by what failed. A join
/// record that decodes as absent is a failure too.
pub fn decode_join_input(input: &Vec<u8>) -> (r: Result<JoinInput, InternalError>)
    ensures
        match decode_outcome(input@) {
            Err(e) => r == Err::<JoinInput, InternalError>(e),
            Ok((ms, j, base)) => r matches Ok(inp) && inp.records@.map_values(|x: Record| x@) == ms
                && inp.join_record@ == j && inp.base_offset == base && inp.params@ == request_params(input@),
        },
{
    reveal(decode_outcome);
    assert(input@.subrange(0, input@.len() as int) =~= input@);
    let (record_data, p1) = match get_bytes(input, 0) {
        None => return Err(InternalError::DecodingBaseInput),
        Some(x) => x,
    };
    let (join_data, p2) = match get_bytes(input, p1) {
        None => return Err(InternalError::DecodingBaseInput),
        Some(x) => x,
    };
    let (params, p3) = match get_bytes(input, p2) {
        None => return Err(InternalError::DecodingBaseInput),
        Some(x) => x,
    };
    let base_offset = match get_u64(input, p3) {
        None => return Err(InternalError::DecodingBaseInput),
        Some((o, _)) => o as i64,
    };
    let records = match get_records(&record_data) {
        None => return Err(InternalError::DecodingRecords),
        Some(rs) => rs,
    };
    if join_data.len() < 1 || join_data[0] != 1 {
        return Err(InternalError::UndefinedRightRecord);
    }
    assert(join_data@.drop_first() =~= join_data@.subrange(1, join_data@.len() as int));
    let join_record = match get_record(&join_data, 1) {
        None => return Err(InternalError::UndefinedRightRecord),
        Some((j, _)) => j,
    };
    Ok(JoinInput { records, join_record, params, base_offset })
}

/// A runtime error, as sequences.
pub struct ErrorModel {
    pub record: RecordModel,
    pub offset: i64,
    pub cause: Seq<u8>,
}

/// A response, as sequences.
pub struct OutputModel {
    pub successes: Seq<RecordModel>,
    pub error: Option<ErrorModel>,
}

pub open spec fn output_model(o: JoinOutput) -> OutputModel {
    OutputModel {
        successes: o.successes@.map_values(|x: Record| x@),
        error: match o.error {
            None => None,
            Some(e) => Some(ErrorModel { record: e.record@, offset: e.offset, cause: e.cause@ }),
        },
    }
}

/// A runtime error: the record, the offset, a kind byte (`0` for join),
/// then the cause.
pub open spec fn enc_error(e: ErrorModel) -> Seq<u8> {
    enc_record(e.record) + enc_u64(e.offset as u64) + seq![0u8] + enc_bytes(e.cause)
}

pub open spec fn dec_error(s: Seq<u8>) -> Option<ErrorModel> {
    match dec_record(s) {
        None => None,
        Some((record, r1)) => match dec_u64(r1) {
            None => None,
            Some((o, r2)) => if r2.len() < 1 || r2[0] != 0 {
                None
            } else {
                match dec_bytes(r2.drop_first()) {
                    None => None,
                    Some((cause, _)) => Some(ErrorModel { record, offset: o as i64, cause }),
                }
            },
        },
    }
}

/// The response: the successes as a batch, then a tag byte and the
/// runtime error if there is one.
pub open spec fn enc_output_model(m: OutputModel) -> Seq<u8> {
    enc_records(m.successes) + match m.error {
        None => seq![0u8],
        Some(e) => seq![1u8] + enc_error(e),
    }
}

pub open spec fn enc_output(o: JoinOutput) -> Seq<u8> {
    enc_output_model(output_model(o))
}

/// Decodes a response; bytes after it are ignored.
pub open spec fn dec_output(s: Seq<u8>) -> Option<OutputModel> {
    match dec_u32(s) {
        None => None,
        Some((n, r)) => match dec_record_list(r, n as nat) {
            None => None,
            Some((successes, r2)) => if r2.len() < 1 {
                None
            } else if r2[0] == 0 {
                Some(OutputModel { successes, error: None })
            } else if r2[0] == 1 {
                match dec_error(r2.drop_first()) {
                    None => None,
                    Some(e) => Some(OutputModel { successes, error: Some(e) }),
                }
            } else {
                None
            },
        },
    }
}

pub open spec fn output_model_ok(m: OutputModel) -> bool {
    &&& records_ok(m.successes)
    &&& m.error is Some ==> record_ok(m.error->Some_0.record) && m.error->Some_0.cause.len() <= u32::MAX
}

/// A runtime error with fitting lengths encodes and decodes back to itself.
pub proof fn lemma_error_round_trip(e: ErrorModel, rest: Seq<u8>)
    requires
        record_ok(e.record),
        e.cause.len() <= u32::MAX,
    ensures
        dec_error(enc_error(e) + rest) == Some(e),
{
    let r3 = enc_bytes(e.cause) + rest;
    let r2 = seq![0u8] + r3;
    let r1 = enc_u64(e.offset as u64) + r2;
    assert(enc_error(e) + rest =~= enc_record(e.record) + r1);
    lemma_record_round_trip(e.record, r1);
    lemma_u64_round_trip(e.offset as u64, r2);
    assert(r2.drop_first() =~= r3);
    lemma_bytes_round_trip(e.cause, rest);
    let o = e.offset;
    assert(((o as u64) as i64) == o) by (bit_vector);
}

/// A valid response encodes and decodes back to itself, whatever follows it.
#[verifier::rlimit(50)]
pub proof fn lemma_output_round_trip(m: OutputModel, rest: Seq<u8>)
    requires
        output_model_ok(m),
    ensures
        dec_output(enc_output_model(m) + rest) == Some(m),
{
    let tag = match m.error {
        None => seq![0u8],
        Some(e) => seq![1u8] + enc_error(e),
    };
    let tail = tag + rest;
    let body = enc_record_list(m.successes);
    assert(enc_output_model(m) + rest =~= enc_u32(m.successes.len() as u32) + (body + tail));
    let n = m.successes.len() as u32;
    lemma_u32_round_trip(n, body + tail);
    assert(dec_u32(enc_output_model(m) + rest) == Some((n, body + tail)));
    assert(n as nat == m.successes.len());
    lemma_record_list_round_trip(m.successes, tail);
    assert(dec_record_list(body + tail, n as nat) == Some((m.successes, tail)));
    match m.error {
        None => {
            assert(tail[0] == 0);
        },
        Some(e) => {
            assert(tail[0] == 1);
            assert(tail.drop_first() =~= enc_error(e) + rest);
            lemma_error_round_trip(e, rest);
        },
    }
}

/// What the response must hold for its lengths to fit their prefixes.
pub open spec fn output_ok(o: JoinOutput) -> bool {
    &&& records_ok(o.successes@.map_values(|x: Record| x@))
    &&& o.error is Some ==> {
        let e = o.error->Some_0;
        record_ok(e.record@) && e.cause@.len() <= u32::MAX
    }
}

fn record_fits(r: &Record) -> (b: bool)
    ensures
        b == record_ok(r@),
{
    r.value.len() <= 4294967295usize && match &r.key {
        Some(k) => k.len() <= 4294967295usize,
        None => true,
    }
}

/// Encodes the response, or fails where a length does not fit.
pub fn encode_output(o: &JoinOutput) -> (r: Result<Vec<u8>, InternalError>)
    ensures
        output_ok(*o) ==> (r matches Ok(b) && b@ == enc_output(*o)),
        !output_ok(*o) ==> r == Err::<Vec<u8>, InternalError>(InternalError::EncodingOutput),
{
    let ghost ms = o.successes@.map_values(|x: Record| x@);
    if o.successes.len() > 4294967295usize {
        return Err(InternalError::EncodingOutput);
    }
    let mut i: usize = 0;
    while i < o.successes.len()
        invariant
            i <= o.successes@.len(),
            ms == o.successes@.map_values(|x: Record| x@),
            forall|k: int| 0 <= k < i ==> record_ok(#[trigger] ms[k]),
        decreases o.successes@.len() - i,
    {
        if !record_fits(&o.successes[i]) {
            assert(ms[i as int] == o.successes@[i as int]@);
            return Err(InternalError::EncodingOutput);
        }
        i = i + 1;
    }
    let mut out: Vec<u8> = Vec::new();
    put_records(&mut out, &o.successes);
    match &o.error {
        None => {
            out.push(0u8);
        },
        Some(e) => {
            if !record_fits(&e.record) || e.cause.len() > 4294967295usize {
                return Err(InternalError::EncodingOutput);
            }
            out.push(1u8);
            put_record(&mut out, &e.record);
            put_u64(&mut out, e.offset as u64);
            out.push(0u8);
            put_bytes(&mut out, &e.cause);
        },
    }
    assert(out@ =~= enc_output(*o));
    Ok(out)
}

/// The parameter bytes of a request that decodes.
pub open spec fn request_params(s: Seq<u8>) -> Seq<u8> {
    dec_request(s)->Some_0.params
}

/// A request that decodes carries a batch and a join record that fit their
/// prefixes.
pub proof fn lemma_decoded_fits(s: Seq<u8>)
    requires
        decode_outcome(s) is Ok,
    ensures
        records_ok(decode_outcome(s)->Ok_0.0),
        record_ok(decode_outcome(s)->Ok_0.1),
{
    reveal(decode_outcome);
    let q = dec_request(s)->Some_0;
    lemma_dec_records_fit(q.record_data);
    lemma_dec_record_fits(q.join_record.drop_first());
}

/// A result of user logic whose bytes fit their length prefixes.
pub open spec fn result_fits(res: TransformResult) -> bool {
    match res {
        Ok((k, v)) => v@.len() <= u32::MAX && (k is Some ==> k->Some_0@.len() <= u32::MAX),
        Err(c) => c@.len() <= u32::MAX,
    }
}

/// Every result `f` can return fits its length prefixes.
pub open spec fn results_fit<F: Fn(&Record, &Record) -> TransformResult>(f: F) -> bool {
    forall|a: &Record, b: &Record, res: TransformResult| #[trigger] f.ensures((a, b), res) ==> result_fits(res)
}

/// Every result `f` can return under parameters fits its length prefixes.
pub open spec fn results_fit_with<P, F: Fn(&Record, &Record, &P) -> TransformResult>(f: F) -> bool {
    forall|a: &Record, b: &Record, p: &P, res: TransformResult| #[trigger] f.ensures((a, b, p), res) ==> result_fits(res)
}

/// `parse` never rejects parameter bytes.
pub open spec fn parse_total<P, G: Fn(&Vec<u8>) -> Option<P>>(parse: G) -> bool {
    forall|v: &Vec<u8>, o: Option<P>| #[trigger] parse.ensures((v,), o) ==> o is Some
}

/// One invocation: the decoded request, what the join made of it, and the
/// encoded response.
#[derive(Debug)]
pub struct JoinRun {
    pub input: JoinInput,
    pub output: JoinOutput,
    pub bytes: Vec<u8>,
}

/// `run` holds the request that `s` decodes to, and its encoded output.
pub open spec fn run_matches(s: Seq<u8>, run: JoinRun) -> bool {
    &&& decode_outcome(s) is Ok
    &&& run.input.records@.map_values(|x: Record| x@) == decode_outcome(s)->Ok_0.0
    &&& run.input.join_record@ == decode_outcome(s)->Ok_0.1
    &&& run.input.base_offset == decode_outcome(s)->Ok_0.2
    &&& run.input.params@ == request_params(s)
    &&& output_ok(run.output)
    &&& run.bytes@ == enc_output(run.output)
}

/// An output whose successes and failure come from fitting records and
/// fitting results fits its prefixes.
proof fn lemma_output_fits(records: Seq<Record>, out: JoinOutput)
    requires
        records_ok(records.map_values(|x: Record| x@)),
        out.successes@.len() <= records.len(),
        forall|i: int| 0 <= i < out.successes@.len() ==> {
            let o = #[trigger] out.successes@[i];
            o.value@.len() <= u32::MAX && (o.key is Some ==> o.key->Some_0@.len() <= u32::MAX)
        },
        out.error is Some ==> out.successes@.len() < records.len()
            && out.error->Some_0.record@ == records[out.successes@.len() as int]@
            && out.error->Some_0.cause@.len() <= u32::MAX,
    ensures
        output_ok(out),
{
    let ms = out.successes@.map_values(|x: Record| x@);
    assert forall|i: int| 0 <= i < ms.len() implies record_ok(#[trigger] ms[i]) by {
        assert(ms[i] == out.successes@[i]@);
    }
    if out.error is Some {
        let n = out.successes@.len() as int;
        assert(records.map_values(|x: Record| x@)[n] == records[n]@);
    }
}

/// Runs one join invocation on the request bytes `input`. A protocol
/// failure comes back as `Err`, with no response; otherwise the decoded
/// request, the output of the join over it, and the encoded response,
/// whether or not user logic failed on a record.
pub fn process_join<F: Fn(&Record, &Record) -> TransformResult>(input: &Vec<u8>, f: &F) -> (r: Result<JoinRun, InternalError>)
    requires
        forall|a: &Record, b: &Record| f.requires((a, b)),
    ensures
        match decode_outcome(input@) {
            Err(e) => r == Err::<JoinRun, InternalError>(e),
            Ok((ms, j, base)) => {
                &&& match r {
                    Ok(run) => run_matches(input@, run) && join_post(*f, run.input.records@, run.input.join_record,
                        run.input.base_offset, run.output),
                    Err(e) => e == InternalError::EncodingOutput,
                }
                &&& results_fit(*f) ==> r is Ok
                &&& ms.len() == 0 ==> (r matches Ok(run) && run.output.successes@.len() == 0 && run.output.error is None)
            },
        },
{
    let inp = match decode_join_input(input) {
        Err(e) => return Err(e),
        Ok(i) => i,
    };
    proof {
        lemma_decoded_fits(input@);
    }
    let output = join_records(&inp.records, &inp.join_record, inp.base_offset, f);
    proof {
        if results_fit(*f) || inp.records@.len() == 0 {
            assert forall|i: int| 0 <= i < output.successes@.len() implies {
                let o = #[trigger] output.successes@[i];
                o.value@.len() <= u32::MAX && (o.key is Some ==> o.key->Some_0@.len() <= u32::MAX)
            } by {
                let o = output.successes@[i];
                assert(transformed(*f, inp.records@[i], inp.join_record, o));
                assert(result_fits(Ok::<(Option<Vec<u8>>, Vec<u8>), Vec<u8>>((o.key, o.value))));
            }
            if output.error is Some {
                let n = output.successes@.len() as int;
                assert(result_fits(Err::<(Option<Vec<u8>>, Vec<u8>), Vec<u8>>(output.error->Some_0.cause)));
            }
            lemma_output_fits(inp.records@, output);
        }
    }
    match encode_output(&output) {
        Err(e) => Err(e),
        Ok(bytes) => Ok(JoinRun { input: inp, output, bytes }),
    }
}

/// Runs one join invocation whose user logic takes parameters: `parse`
/// turns the request's parameter bytes into them first, and a rejection is
/// `ParsingExtraParams`.
pub fn process_join_with<P, G: Fn(&Vec<u8>) -> Option<P>, F: Fn(&Record, &Record, &P) -> TransformResult>(
    input: &Vec<u8>,
    parse: &G,
    f: &F,
) -> (r: Result<(JoinRun, P), InternalError>)
    requires
        forall|v: &Vec<u8>| parse.requires((v,)),
        forall|a: &Record, b: &Record, p: &P| f.requires((a, b, p)),
    ensures
        match decode_outcome(input@) {
            Err(e) => r == Err::<(JoinRun, P), InternalError>(e),
            Ok((ms, j, base)) => {
                &&& match r {
                    Ok((run, p)) => run_matches(input@, run)
                        && parse.ensures((&run.input.params,), Some(p))
                        && join_post_with(*f, run.input.records@, run.input.join_record, p,
                        run.input.base_offset, run.output),
                    Err(e) => e == InternalError::EncodingOutput || (e == InternalError::ParsingExtraParams
                        && exists|v: Vec<u8>| v@ == request_params(input@) && #[trigger] parse.ensures((&v,), None::<P>)),
                }
                &&& parse_total(*parse) ==> r != Err::<(JoinRun, P), InternalError>(InternalError::ParsingExtraParams)
                &&& parse_total(*parse) && results_fit_with(*f) ==> r is Ok
                &&& parse_total(*parse) && ms.len() == 0 ==> (r matches Ok((run, _))
                    && run.output.successes@.len() == 0 && run.output.error is None)
            },
        },
{
    let inp = match decode_join_input(input) {
        Err(e) => return Err(e),
        Ok(i) => i,
    };
    proof {
        lemma_decoded_fits(input@);
    }
    let params = match parse(&inp.params) {
        Some(p) => p,
        None => {
            assert(parse.ensures((&inp.params,), None::<P>));
            return Err(InternalError::ParsingExtraParams);
        },
    };
    let output = join_records_with(&inp.records, &inp.join_record, &params, inp.base_offset, f);
    proof {
        if results_fit_with(*f) || inp.records@.len() == 0 {
            assert forall|i: int| 0 <= i < output.successes@.len() implies {
                let o = #[trigger] output.successes@[i];
                o.value@.len() <= u32::MAX && (o.key is Some ==> o.key->Some_0@.len() <= u32::MAX)
            } by {
                let o = output.successes@[i];
                assert(transformed_with(*f, inp.records@[i], inp.join_record, params, o));
                assert(result_fits(Ok::<(Option<Vec<u8>>, Vec<u8>), Vec<u8>>((o.key, o.value))));
            }
            if output.error is Some {
                assert(result_fits(Err::<(Option<Vec<u8>>, Vec<u8>), Vec<u8>>(output.error->Some_0.cause)));
            }
            lemma_output_fits(inp.records@, output);
        }
    }
    match encode_output(&output) {
        Err(e) => Err(e),
        Ok(bytes) => Ok((JoinRun { input: inp, output, bytes }, params)),
    }
}

/// What the host gets back from an invocation: the integer it reads, and
/// whether a response buffer is handed over. A count that does not fit an
/// `i32` is reported as `EncodingOutput`, with no buffer.
pub fn host_reply(r: &Result<JoinRun, InternalError>) -> (reply: (i32, bool))
    ensures
        match r {
            Err(e) => reply == (e.spec_code(), false),
            Ok(run) => if run.output.successes@.len() <= i32::MAX {
                reply == (run.output.successes@.len() as i32, true)
            } else {
                reply == (InternalError::EncodingOutput.spec_code(), false)
            },
        },
        reply.1 <==> reply.0 >= 0,
{
    match r {
        Err(e) => (e.code(), false),
        Ok(run) => if run.output.successes.len() <= 2147483647usize {
            (run.output.successes.len() as i32, true)
        } else {
            (InternalError::EncodingOutput.code(), false)
        },
    }
}

/// The outcome of an invocation: the number of successes, or the failure.
pub fn outcome_of(r: &Result<JoinRun, InternalError>) -> (o: Outcome)
    ensures
        match r {
            Err(e) => o == Outcome::ProtocolError(*e),
            Ok(run) => run.output.successes@.len() <= u32::MAX ==> o == Outcome::Count(run.output.successes@.len() as u32),
        },
{
    match r {
        Err(e) => Outcome::ProtocolError(*e),
        Ok(run) => if run.output.successes.len() <= 4294967295usize {
            Outcome::Count(run.output.successes.len() as u32)
        } else {
            Outcome::ProtocolError(InternalError::EncodingOutput)
        },
    }
}

} // verus!
