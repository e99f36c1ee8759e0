//! A store: records one after another, with nothing before, between or behind them.

use vstd::prelude::*;
use crate::error::{CliError, CliErrorView};
use crate::stream::{ByteStream, ReadError};
use crate::record::{
    decode_record, encodable, encode_record, lemma_record_bytes_of_read,
    lemma_record_round_trip,
};
use crate::task::{task_views, Task, TaskView};

verus! {

/// The bytes of a store that holds `tasks` in this order.
pub open spec fn encode_records(tasks: Seq<TaskView>) -> Seq<u8>
    decreases tasks.len(),
{
    if tasks.len() == 0 {
        Seq::empty()
    } else {
        encode_records(tasks.drop_last()) + encode_record(tasks.last())
    }
}

/// The tasks of a store with these bytes, or the reason why the bytes are no
/// store: a record that is cut short or holds a text that is not UTF-8.
pub open spec fn decode_records(bytes: Seq<u8>) -> Result<Seq<TaskView>, ReadError>
    decreases bytes.len(),
{
    if bytes.len() == 0 {
        Ok(Seq::empty())
    } else {
        match decode_record(bytes) {
            Err(e) => Err(e),
            Ok((task, size)) => {
                proof {
                    lemma_record_bytes_of_read(bytes);
                }
                match decode_records(bytes.skip(size as int)) {
                    Err(e) => Err(e),
                    Ok(rest) => Ok(seq![task] + rest),
                }
            },
        }
    }
}

/// Whether every task of `tasks` has texts that fit their length prefixes.
pub open spec fn all_encodable(tasks: Seq<TaskView>) -> bool {
    forall|i: int| 0 <= i < tasks.len() ==> encodable(#[trigger] tasks[i])
}

/// What is to be done to the stored file after a command.
#[derive(Debug)]
pub enum StoreUpdate {
    /// Remove the file.
    Delete,
    /// Replace the file's contents by these bytes, creating the file if need
    /// be.
    Overwrite(Vec<u8>),
    /// Write these bytes behind the file's contents, creating the file if need
    /// be.
    Append(Vec<u8>),
}

/// A [`StoreUpdate`] with its bytes as a sequence.
pub enum StoreUpdateView {
    Delete,
    Overwrite(Seq<u8>),
    Append(Seq<u8>),
}

impl View for StoreUpdate {
    type V = StoreUpdateView;

    open spec fn view(&self) -> StoreUpdateView {
        match self {
            StoreUpdate::Delete => StoreUpdateView::Delete,
            StoreUpdate::Overwrite(bytes) => StoreUpdateView::Overwrite(bytes@),
            StoreUpdate::Append(bytes) => StoreUpdateView::Append(bytes@),
        }
    }
}

/// The file after `update`: `None` where there is no file.
pub open spec fn updated(store: Option<Seq<u8>>, update: StoreUpdateView) -> Option<Seq<u8>> {
    match update {
        StoreUpdateView::Delete => None,
        StoreUpdateView::Overwrite(bytes) => Some(bytes),
        StoreUpdateView::Append(bytes) => match store {
            Some(old) => Some(old + bytes),
            None => Some(bytes),
        },
    }
}

/// The update that leaves a store of exactly `tasks`: no file when there is no
/// task.
pub open spec fn rewrite_of(tasks: Seq<TaskView>) -> StoreUpdateView {
    if tasks.len() == 0 {
        StoreUpdateView::Delete
    } else {
        StoreUpdateView::Overwrite(encode_records(tasks))
    }
}

impl StoreUpdate {
    /// Carries the update out on a store held in memory.
    pub fn apply(self, store: Option<Vec<u8>>) -> (after: Option<Vec<u8>>)
        ensures
            after.deep_view() == updated(store.deep_view(), self@),
    {
        match self {
            StoreUpdate::Delete => None,
            StoreUpdate::Overwrite(bytes) => {
                assert(bytes.deep_view() =~= bytes@);
                Some(bytes)
            },
            StoreUpdate::Append(bytes) => match store {
                Some(mut old) => {
                    let ghost before = old@;
                    old.extend_from_slice(bytes.as_slice());
                    assert(old.deep_view() =~= before + bytes@);
                    assert(before =~= store.deep_view()->0);
                    Some(old)
                },
                None => {
                    assert(bytes.deep_view() =~= bytes@);
                    Some(bytes)
                },
            },
        }
    }
}

/// Encoding goes record by record.
pub proof fn lemma_encode_records_concat(first: Seq<TaskView>, second: Seq<TaskView>)
    ensures
        encode_records(first + second) == encode_records(first) + encode_records(second),
    decreases second.len(),
{
    if second.len() == 0 {
        assert(first + second =~= first);
        assert(encode_records(first) + encode_records(second) =~= encode_records(first));
    } else {
        lemma_encode_records_concat(first, second.drop_last());
        assert((first + second).drop_last() =~= first + second.drop_last());
        assert(encode_records(first + second) =~= encode_records(first) + encode_records(second));
    }
}

/// The bytes of a store of one task are that task's record.
pub proof fn lemma_encode_records_single(task: TaskView)
    ensures
        encode_records(seq![task]) == encode_record(task),
{
    reveal_with_fuel(encode_records, 2);
    assert(seq![task].drop_last() =~= Seq::<TaskView>::empty());
    assert(encode_records(seq![task]) =~= encode_record(task));
}

/// A store that was written from `tasks` is read back as `tasks`, in the same
/// order.
pub proof fn lemma_store_round_trip(tasks: Seq<TaskView>)
    requires
        all_encodable(tasks),
    ensures
        decode_records(encode_records(tasks)) == Ok::<_, ReadError>(tasks),
    decreases tasks.len(),
{
    if tasks.len() == 0 {
        assert(tasks =~= Seq::empty());
    } else {
        let first = tasks[0];
        let others = tasks.drop_first();
        lemma_encode_records_concat(seq![first], others);
        lemma_encode_records_single(first);
        assert(seq![first] + others =~= tasks);
        lemma_record_round_trip(first, encode_records(others));
        lemma_store_round_trip(others);
        assert(encode_records(tasks).skip(encode_record(first).len() as int) =~= encode_records(
            others,
        ));
    }
}

/// What was read as a store encodes to the bytes it was read from: the bytes of
/// a store are exactly its records.
pub proof fn lemma_store_bytes_of_read(bytes: Seq<u8>)
    requires
        decode_records(bytes) is Ok,
    ensures
        encode_records(decode_records(bytes)->Ok_0) == bytes,
        all_encodable(decode_records(bytes)->Ok_0),
    decreases bytes.len(),
{
    if bytes.len() == 0 {
        assert(bytes =~= Seq::empty());
    } else {
        let (first, size) = decode_record(bytes)->Ok_0;
        let after = bytes.skip(size as int);
        let others = decode_records(after)->Ok_0;
        lemma_record_bytes_of_read(bytes);
        lemma_store_bytes_of_read(after);
        lemma_encode_records_concat(seq![first], others);
        lemma_encode_records_single(first);
        assert(bytes =~= bytes.take(size as int) + after);
    }
}

/// Appending a record to a store adds its task behind the others.
pub proof fn lemma_append_adds_last(bytes: Seq<u8>, task: TaskView)
    requires
        decode_records(bytes) is Ok,
        encodable(task),
    ensures
        decode_records(bytes + encode_record(task)) == Ok::<_, ReadError>(
            decode_records(bytes)->Ok_0.push(task),
        ),
{
    let tasks = decode_records(bytes)->Ok_0;
    lemma_store_bytes_of_read(bytes);
    lemma_encode_records_concat(tasks, seq![task]);
    lemma_encode_records_single(task);
    assert(tasks + seq![task] =~= tasks.push(task));
    lemma_store_round_trip(tasks.push(task));
}

/// A record that lost its last byte is no record.
pub proof fn lemma_truncated_record_is_rejected(task: TaskView)
    requires
        encodable(task),
    ensures
        encode_record(task).len() > 0,
        decode_record(encode_record(task).drop_last()) is Err,
{
    let whole = encode_record(task);
    let cut = whole.drop_last();
    lemma_record_round_trip(task, Seq::empty());
    assert(whole + Seq::<u8>::empty() =~= whole);
    if decode_record(cut) is Ok {
        let (other, size) = decode_record(cut)->Ok_0;
        lemma_record_bytes_of_read(cut);
        let after = cut.skip(size as int).push(whole.last());
        lemma_record_round_trip(other, after);
        assert(whole =~= encode_record(other) + after);
    }
}

/// A store of at least one task that lost its last byte is not read as a store.
pub proof fn lemma_truncated_store_is_rejected(tasks: Seq<TaskView>)
    requires
        tasks.len() > 0,
        all_encodable(tasks),
    ensures
        encode_records(tasks).len() > 0,
        decode_records(encode_records(tasks).drop_last()) is Err,
    decreases tasks.len(),
{
    let first = tasks[0];
    let others = tasks.drop_first();
    lemma_encode_records_concat(seq![first], others);
    lemma_encode_records_single(first);
    assert(seq![first] + others =~= tasks);
    let whole = encode_records(tasks);
    if others.len() == 0 {
        assert(encode_records(others) =~= Seq::<u8>::empty());
        assert(whole =~= encode_record(first));
        lemma_truncated_record_is_rejected(first);
        lemma_record_round_trip(first, Seq::empty());
    } else {
        lemma_truncated_store_is_rejected(others);
        let rest = encode_records(others).drop_last();
        lemma_record_round_trip(first, rest);
        assert(whole.drop_last() =~= encode_record(first) + rest);
        assert(whole.drop_last().skip(encode_record(first).len() as int) =~= rest);
    }
}

/// Reads every record of a store.
///
/// Succeeds exactly when `bytes` are whole records and nothing else; no part of
/// a list is returned otherwise.
pub fn read_tasks(bytes: &[u8]) -> (r: Result<Vec<Task>, CliError>)
    ensures
        match r {
            Ok(tasks) => decode_records(bytes@) == Ok::<_, ReadError>(task_views(tasks@)),
            Err(e) => decode_records(bytes@) is Err && e@ == CliErrorView::CorruptFile,
        },
{
    let mut tasks: Vec<Task> = Vec::new();
    let mut stream = ByteStream::new(bytes);
    assert(stream.remaining() =~= bytes@);
    assert(task_views(tasks@) =~= Seq::empty());
    while !stream.is_at_end()
        invariant
            stream.data() == bytes@,
            stream.in_range(),
            decode_records(bytes@) == behind(
                task_views(tasks@),
                decode_records(stream.remaining()),
            ),
        decreases stream.remaining().len(),
    {
        let ghost left = stream.remaining();
        let ghost done = task_views(tasks@);
        match Task::from(&mut stream) {
            Ok(task) => {
                proof {
                    lemma_record_bytes_of_read(left);
                    let size = decode_record(left)->Ok_0.1;
                    assert(stream.remaining() =~= left.skip(size as int));
                    let rest = decode_records(stream.remaining());
                    assert(task_views(tasks@.push(task)) =~= done.push(task@));
                    if rest is Ok {
                        assert(done + (seq![task@] + rest->Ok_0) =~= done.push(task@) + rest->Ok_0);
                    }
                }
                tasks.push(task);
            },
            Err(_) => {
                return Err(CliError::CorruptFile);
            },
        }
    }
    proof {
        assert(task_views(tasks@) + Seq::<TaskView>::empty() =~= task_views(tasks@));
    }
    Ok(tasks)
}

/// What is read when `done` has been read and `rest` is what the bytes left
/// give.
pub open spec fn behind(done: Seq<TaskView>, rest: Result<Seq<TaskView>, ReadError>) -> Result<
    Seq<TaskView>,
    ReadError,
> {
    match rest {
        Ok(tasks) => Ok(done + tasks),
        Err(e) => Err(e),
    }
}

/// The bytes of a store that holds `tasks` in this order. Read back, the bytes
/// give the tasks.
pub fn encode_tasks(tasks: &[Task]) -> (bytes: Vec<u8>)
    ensures
        bytes@ == encode_records(task_views(tasks@)),
        all_encodable(task_views(tasks@)),
        decode_records(bytes@) == Ok::<_, ReadError>(task_views(tasks@)),
{
    let mut bytes: Vec<u8> = Vec::new();
    let mut i: usize = 0;
    assert(task_views(tasks@).take(0) =~= Seq::empty());
    while i < tasks.len()
        invariant
            i <= tasks.len(),
            bytes@ == encode_records(task_views(tasks@).take(i as int)),
            all_encodable(task_views(tasks@).take(i as int)),
        decreases tasks.len() - i,
    {
        let record = tasks[i].serialize();
        bytes.extend_from_slice(record.as_slice());
        proof {
            let views = task_views(tasks@);
            assert(views.take(i + 1).drop_last() =~= views.take(i as int));
            assert(views.take(i + 1).last() == tasks[i as int]@);
            assert forall|k: int| 0 <= k < i + 1 implies encodable(
                #[trigger] views.take(i + 1)[k],
            ) by {
                if k < i {
                    assert(views.take(i as int)[k] == views.take(i + 1)[k]);
                }
            }
        }
        i += 1;
    }
    proof {
        assert(task_views(tasks@).take(i as int) =~= task_views(tasks@));
        lemma_store_round_trip(task_views(tasks@));
    }
    bytes
}

/// The update that stores `tasks`: in place of what the file holds, or behind
/// it.
pub fn save_tasks(tasks: &[Task], overwrite: bool) -> (update: StoreUpdate)
    ensures
        all_encodable(task_views(tasks@)),
        overwrite ==> update@ == StoreUpdateView::Overwrite(encode_records(task_views(tasks@))),
        !overwrite ==> update@ == StoreUpdateView::Append(encode_records(task_views(tasks@))),
{
    let bytes = encode_tasks(tasks);
    if overwrite {
        StoreUpdate::Overwrite(bytes)
    } else {
        StoreUpdate::Append(bytes)
    }
}

/// The update that leaves exactly `tasks` in the store: the file goes when no
/// task is left, and is written anew otherwise.
pub fn delete_if_empty(tasks: &[Task]) -> (update: StoreUpdate)
    ensures
        all_encodable(task_views(tasks@)),
        update@ == rewrite_of(task_views(tasks@)),
{
    if tasks.len() == 0 {
        assert(task_views(tasks@) =~= Seq::empty());
        StoreUpdate::Delete
    } else {
        save_tasks(tasks, true)
    }
}

} // verus!
