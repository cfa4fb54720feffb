use smartjoin::codec::{put_bytes, put_u64};
use smartjoin::engine::{decode_join_input, encode_output, host_reply, outcome_of, process_join, process_join_with, InternalError, Outcome};
use smartjoin::envelope::{get_records, put_record, put_records};
use smartjoin::join::{join_records, JoinOutput, Record, SmartModuleKind, TransformResult};

fn rec(value: &str, offset: i64) -> Record {
    Record { key: None, value: value.as_bytes().to_vec(), offset }
}

fn join_buffer(j: Option<&Record>) -> Vec<u8> {
    let mut b = Vec::new();
    match j {
        None => b.push(0u8),
        Some(r) => {
            b.push(1u8);
            put_record(&mut b, r);
        }
    }
    b
}

fn request(records: &Vec<Record>, join: Option<&Record>, base_offset: i64) -> Vec<u8> {
    request_with(records, join, &Vec::new(), base_offset)
}

fn request_with(records: &Vec<Record>, join: Option<&Record>, params: &Vec<u8>, base_offset: i64) -> Vec<u8> {
    let mut data = Vec::new();
    put_records(&mut data, records);
    let mut out = Vec::new();
    put_bytes(&mut out, &data);
    put_bytes(&mut out, &join_buffer(join));
    put_bytes(&mut out, params);
    put_u64(&mut out, base_offset as u64);
    out
}

fn append_join(r: &Record, j: &Record) -> TransformResult {
    let mut v = r.value.clone();
    v.extend_from_slice(&j.value);
    Ok((r.key.clone(), v))
}

fn fail_on_b(r: &Record, j: &Record) -> TransformResult {
    if r.value == b"b".to_vec() {
        Err(b"bad record".to_vec())
    } else {
        append_join(r, j)
    }
}

#[test]
fn three_records_append_join_value() {
    let records = vec![rec("a", 0), rec("b", 1), rec("c", 2)];
    let input = request(&records, Some(&rec("J", 7)), 100);
    let r = process_join(&input, &append_join).unwrap();
    let values: Vec<Vec<u8>> = r.output.successes.iter().map(|x| x.value.clone()).collect();
    assert_eq!(values, vec![b"aJ".to_vec(), b"bJ".to_vec(), b"cJ".to_vec()]);
    assert!(r.output.error.is_none());
    assert_eq!(outcome_of(&Ok(r)), Outcome::Count(3));
}

#[test]
fn failure_on_second_record_stops_batch() {
    let records = vec![rec("a", 0), rec("b", 1), rec("c", 2)];
    let input = request(&records, Some(&rec("J", 7)), 100);
    let out = process_join(&input, &fail_on_b).unwrap().output;
    assert_eq!(out.successes.len(), 1);
    assert_eq!(out.successes[0].value, b"aJ".to_vec());
    let e = out.error.unwrap();
    assert_eq!(e.record, rec("b", 1));
    assert_eq!(e.offset, 100);
    assert_eq!(e.kind, SmartModuleKind::Join);
    assert_eq!(e.cause, b"bad record".to_vec());
}

#[test]
fn truncated_envelope_is_decoding_base_input() {
    let records = vec![rec("a", 0)];
    let mut input = request(&records, Some(&rec("J", 7)), 0);
    input.truncate(input.len() - 3);
    let r = process_join(&input, &append_join);
    assert_eq!(r.as_ref().err(), Some(&InternalError::DecodingBaseInput));
    assert_eq!(outcome_of(&r).to_i32(), Some(-11));
}

#[test]
fn absent_join_record_is_undefined_right_record() {
    let empty: Vec<Record> = vec![];
    let input = request(&empty, None, 0);
    assert_eq!(process_join(&input, &append_join).err(), Some(InternalError::UndefinedRightRecord));
    let input = request(&vec![rec("a", 0)], None, 0);
    assert_eq!(process_join(&input, &append_join).err(), Some(InternalError::UndefinedRightRecord));
}

#[test]
fn malformed_batch_is_decoding_records() {
    let mut out = Vec::new();
    put_bytes(&mut out, &vec![0u8, 0, 0, 2, 9]);
    put_bytes(&mut out, &join_buffer(Some(&rec("J", 0))));
    put_bytes(&mut out, &Vec::new());
    put_u64(&mut out, 0);
    assert_eq!(decode_join_input(&out).err(), Some(InternalError::DecodingRecords));
}

#[test]
fn empty_batch_yields_empty_output() {
    let empty: Vec<Record> = vec![];
    let input = request(&empty, Some(&rec("J", 0)), 5);
    let run = process_join(&input, &append_join).unwrap();
    let (out, bytes) = (run.output, run.bytes);
    assert!(out.successes.is_empty());
    assert!(out.error.is_none());
    assert_eq!(bytes, vec![0u8, 0, 0, 0, 0]);
}

#[test]
fn order_is_kept_and_keys_replaced() {
    let records = vec![rec("x", 3), rec("y", 4)];
    let set_key = |r: &Record, _j: &Record| -> TransformResult { Ok((Some(r.value.clone()), b"v".to_vec())) };
    let out = join_records(&records, &rec("J", 0), 0, &set_key);
    assert_eq!(out.successes[0].key, Some(b"x".to_vec()));
    assert_eq!(out.successes[1].key, Some(b"y".to_vec()));
    assert_eq!(out.successes[1].offset, 4);
}

#[test]
fn batch_round_trip() {
    let records = vec![Record { key: Some(b"k".to_vec()), value: b"val".to_vec(), offset: -5 }, rec("", 9)];
    let mut data = Vec::new();
    put_records(&mut data, &records);
    assert_eq!(get_records(&data), Some(records));
}

#[test]
fn request_round_trip() {
    let records = vec![rec("a", 1)];
    let input = request(&records, Some(&rec("J", 2)), -3);
    let d = decode_join_input(&input).unwrap();
    assert_eq!(d.records, records);
    assert_eq!(d.join_record, rec("J", 2));
    assert_eq!(d.base_offset, -3);
}

#[test]
fn response_encoding_with_error() {
    let out = JoinOutput {
        successes: vec![],
        error: Some(smartjoin::join::RuntimeError { record: rec("b", 1), offset: 2, kind: SmartModuleKind::Join, cause: vec![7] }),
    };
    let bytes = encode_output(&out).unwrap();
    assert_eq!(&bytes[..5], &[0u8, 0, 0, 0, 1]);
    assert_eq!(bytes[bytes.len() - 5..].to_vec(), vec![0u8, 0, 0, 1, 7]);
}

#[test]
fn sentinel_codes_are_negative_and_distinct() {
    let all = [
        InternalError::DecodingBaseInput,
        InternalError::DecodingRecords,
        InternalError::UndefinedRightRecord,
        InternalError::ParsingExtraParams,
        InternalError::EncodingOutput,
    ];
    let codes: Vec<i32> = all.iter().map(|e| e.code()).collect();
    assert_eq!(codes, vec![-11, -22, -33, -44, -55]);
    assert_eq!(Outcome::Count(0).to_i32(), Some(0));
    assert_eq!(Outcome::Count(2147483647).to_i32(), Some(2147483647));
    assert_eq!(Outcome::Count(2147483648).to_i32(), None);
}

fn parse_separator(b: &Vec<u8>) -> Option<u8> {
    if b.len() == 1 { Some(b[0]) } else { None }
}

fn append_with_separator(r: &Record, j: &Record, sep: &u8) -> TransformResult {
    let mut v = r.value.clone();
    v.push(*sep);
    v.extend_from_slice(&j.value);
    Ok((r.key.clone(), v))
}

#[test]
fn params_are_parsed_and_passed() {
    let records = vec![rec("a", 0), rec("b", 1)];
    let input = request_with(&records, Some(&rec("J", 0)), &vec![b'-'], 0);
    let (run, sep) = process_join_with(&input, &parse_separator, &append_with_separator).unwrap();
    assert_eq!(sep, b'-');
    let values: Vec<Vec<u8>> = run.output.successes.iter().map(|x| x.value.clone()).collect();
    assert_eq!(values, vec![b"a-J".to_vec(), b"b-J".to_vec()]);
}

#[test]
fn rejected_params_are_parsing_extra_params() {
    let records = vec![rec("a", 0)];
    let input = request_with(&records, Some(&rec("J", 0)), &vec![], 0);
    let r = process_join_with(&input, &parse_separator, &append_with_separator);
    assert_eq!(r.err(), Some(InternalError::ParsingExtraParams));
}

#[test]
fn host_reply_hands_off_only_on_success() {
    let records = vec![rec("a", 0), rec("b", 1)];
    let ok = process_join(&request(&records, Some(&rec("J", 0)), 0), &append_join);
    assert_eq!(host_reply(&ok), (2, true));
    let bad = process_join(&request(&records, None, 0), &append_join);
    assert_eq!(host_reply(&bad), (-33, false));
}
