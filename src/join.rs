//! The join transform engine: runs user logic over a batch of records,
//! against one join record, stopping at the first failure.
use vstd::prelude::*;

verus! {

/// A stream record: an optional key, a value, and its offset in the batch.
#[derive(Debug, Clone, PartialEq, Eq)]
pub struct Record {
    pub key: Option<Vec<u8>>,
    pub value: Vec<u8>,
    pub offset: i64,
}

/// The contents of a record, as sequences.
pub struct RecordModel {
    pub key: Option<Seq<u8>>,
    pub value: Seq<u8>,
    pub offset: i64,
}

impl View for Record {
    type V = RecordModel;

    open spec fn view(&self) -> RecordModel {
        RecordModel {
            key: match self.key {
                Some(k) => Some(k@),
                None => None,
            },
            value: self.value@,
            offset: self.offset,
        }
    }
}

fn copy_bytes(b: &Vec<u8>) -> (r: Vec<u8>)
    ensures
        r@ == b@,
{
    let mut r: Vec<u8> = Vec::with_capacity(b.len());
    let mut i: usize = 0;
    while i < b.len()
        invariant
            i <= b@.len(),
            r@ == b@.subrange(0, i as int),
        decreases b@.len() - i,
    {
        r.push(b[i]);
        i = i + 1;
    }
    assert(b@.subrange(0, b@.len() as int) == b@);
    r
}

impl Record {
    /// A copy of the record.
    pub fn duplicate(&self) -> (r: Record)
        ensures
            r@ == self@,
    {
        let key = match &self.key {
            Some(k) => Some(copy_bytes(k)),
            None => None,
        };
        Record { key, value: copy_bytes(&self.value), offset: self.offset }
    }
}

/// What user logic returns for one record: the new key and value, or a cause.
pub type TransformResult = Result<(Option<Vec<u8>>, Vec<u8>), Vec<u8>>;

/// The kind of transform a runtime error came from.
#[derive(Debug, Clone, Copy, PartialEq, Eq)]
pub enum SmartModuleKind {
    Join,
}

/// A failure of user logic on one record.
#[derive(Debug, Clone, PartialEq, Eq)]
pub struct RuntimeError {
    /// The record that failed, as it was handed to user logic.
    pub record: Record,
    /// The base offset of the batch.
    pub offset: i64,
    pub kind: SmartModuleKind,
    /// What user logic gave as the reason.
    pub cause: Vec<u8>,
}

/// The records that succeeded, in order, and the failure that stopped the
/// batch, if any.
#[derive(Debug, Clone, PartialEq, Eq)]
pub struct JoinOutput {
    pub successes: Vec<Record>,
    pub error: Option<RuntimeError>,
}

/// `out` is `input` with the key and value that user logic returned for it.
pub open spec fn transformed<F: Fn(&Record, &Record) -> TransformResult>(
    f: F,
    input: Record,
    join: Record,
    out: Record,
) -> bool {
    &&& f.ensures((&input, &join), Ok::<(Option<Vec<u8>>, Vec<u8>), Vec<u8>>((out.key, out.value)))
    &&& out.offset == input.offset
}

/// What a join pass over `records` owes: the successes are the leading
/// records, in order, each transformed; the first failure, if any, names
/// the record after them, the base offset and the cause.
pub open spec fn join_post<F: Fn(&Record, &Record) -> TransformResult>(
    f: F,
    records: Seq<Record>,
    join: Record,
    base_offset: i64,
    out: JoinOutput,
) -> bool {
    &&& out.successes@.len() <= records.len()
    &&& records.len() == 0 ==> out.successes@.len() == 0 && out.error is None
    &&& forall|i: int|
        0 <= i < out.successes@.len() ==> transformed(f, records[i], join, #[trigger] out.successes@[i])
    &&& match out.error {
        None => out.successes@.len() == records.len(),
        Some(e) => {
            let n = out.successes@.len() as int;
            &&& n < records.len()
            &&& e.record@ == records[n]@
            &&& e.offset == base_offset
            &&& e.kind == SmartModuleKind::Join
            &&& f.ensures((&records[n], &join), Err::<(Option<Vec<u8>>, Vec<u8>), Vec<u8>>(e.cause))
        },
    }
}

/// Runs `f` on each record of `records` in order, with `join` beside it.
/// Each success takes the record with the key and value that `f` returned
/// into the output; the first failure is recorded with the batch's base
/// offset, and the records after it are left out.
pub fn join_records<F: Fn(&Record, &Record) -> TransformResult>(
    records: &Vec<Record>,
    join: &Record,
    base_offset: i64,
    f: &F,
) -> (out: JoinOutput)
    requires
        forall|r: &Record, j: &Record| f.requires((r, j)),
    ensures
        join_post(*f, records@, *join, base_offset, out),
{
    let mut output = JoinOutput { successes: Vec::with_capacity(records.len()), error: None };
    let n = records.len();
    let mut i: usize = 0;
    while i < n
        invariant
            n == records@.len(),
            i <= n,
            output.error is None,
            output.successes@.len() == i,
            forall|r: &Record, j: &Record| f.requires((r, j)),
            forall|k: int|
                0 <= k < i ==> transformed(*f, records@[k], *join, #[trigger] output.successes@[k]),
        decreases n - i,
    {
        let record = &records[i];
        let result = f(record, join);
        match result {
            Ok((maybe_key, value)) => {
                let r = Record { key: maybe_key, value, offset: record.offset };
                output.successes.push(r);
            },
            Err(cause) => {
                let error = RuntimeError {
                    record: record.duplicate(),
                    offset: base_offset,
                    kind: SmartModuleKind::Join,
                    cause,
                };
                output.error = Some(error);
                return output;
            },
        }
        i = i + 1;
    }
    output
}

/// `out` is `input` with the key and value that user logic returned for it
/// under `params`.
pub open spec fn transformed_with<P, F: Fn(&Record, &Record, &P) -> TransformResult>(
    f: F,
    input: Record,
    join: Record,
    params: P,
    out: Record,
) -> bool {
    &&& f.ensures((&input, &join, &params), Ok::<(Option<Vec<u8>>, Vec<u8>), Vec<u8>>((out.key, out.value)))
    &&& out.offset == input.offset
}

/// `join_post` for user logic that also takes parameters.
pub open spec fn join_post_with<P, F: Fn(&Record, &Record, &P) -> TransformResult>(
    f: F,
    records: Seq<Record>,
    join: Record,
    params: P,
    base_offset: i64,
    out: JoinOutput,
) -> bool {
    &&& out.successes@.len() <= records.len()
    &&& records.len() == 0 ==> out.successes@.len() == 0 && out.error is None
    &&& forall|i: int|
        0 <= i < out.successes@.len() ==> transformed_with(f, records[i], join, params, #[trigger] out.successes@[i])
    &&& match out.error {
        None => out.successes@.len() == records.len(),
        Some(e) => {
            let n = out.successes@.len() as int;
            &&& n < records.len()
            &&& e.record@ == records[n]@
            &&& e.offset == base_offset
            &&& e.kind == SmartModuleKind::Join
            &&& f.ensures((&records[n], &join, &params), Err::<(Option<Vec<u8>>, Vec<u8>), Vec<u8>>(e.cause))
        },
    }
}

/// `join_records` for user logic that also takes parameters.
pub fn join_records_with<P, F: Fn(&Record, &Record, &P) -> TransformResult>(
    records: &Vec<Record>,
    join: &Record,
    params: &P,
    base_offset: i64,
    f: &F,
) -> (out: JoinOutput)
    requires
        forall|r: &Record, j: &Record, p: &P| f.requires((r, j, p)),
    ensures
        join_post_with(*f, records@, *join, *params, base_offset, out),
{
    let mut output = JoinOutput { successes: Vec::with_capacity(records.len()), error: None };
    let n = records.len();
    let mut i: usize = 0;
    while i < n
        invariant
            n == records@.len(),
            i <= n,
            output.error is None,
            output.successes@.len() == i,
            forall|r: &Record, j: &Record, p: &P| f.requires((r, j, p)),
            forall|k: int|
                0 <= k < i ==> transformed_with(*f, records@[k], *join, *params, #[trigger] output.successes@[k]),
        decreases n - i,
    {
        let record = &records[i];
        let result = f(record, join, params);
        match result {
            Ok((maybe_key, value)) => {
                let r = Record { key: maybe_key, value, offset: record.offset };
                output.successes.push(r);
            },
            Err(cause) => {
                let error = RuntimeError {
                    record: record.duplicate(),
                    offset: base_offset,
                    kind: SmartModuleKind::Join,
                    cause,
                };
                output.error = Some(error);
                return output;
            },
        }
        i = i + 1;
    }
    output
}

} // verus!
