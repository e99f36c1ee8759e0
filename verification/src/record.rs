//! The record of a task in a store: four numbers of eight bytes each, then
//! the name and the description, each behind its length in bytes. All numbers
//! are big-endian; a length takes one machine word of the host.

use vstd::prelude::*;
use vstd::utf8::{decode_utf8, encode_utf8, valid_utf8};
use crate::stream::{read_i64, read_str, read_usize, ByteStream, ReadError};
use crate::task::{Task, TaskView};
use crate::wire::{
    be_value, from_twos_complement, i64_bytes, i64_to_bits, lemma_be_bytes_len,
    lemma_be_bytes_of_value, lemma_be_value_bound, lemma_be_value_of_bytes, lemma_pow256_values,
    lemma_word_size, put_be, twos_complement, word_bytes, word_size, word_width,
};

verus! {

/// The signed number in the eight bytes of `bytes` from `at` on.
pub open spec fn i64_at(bytes: Seq<u8>, at: int) -> i64 {
    from_twos_complement(be_value(bytes.subrange(at, at + 8))) as i64
}

/// The bytes of a text: its length in bytes as one machine word, then its
/// UTF-8.
pub open spec fn encode_text(text: Seq<char>) -> Seq<u8> {
    word_bytes(encode_utf8(text).len()) + encode_utf8(text)
}

/// The bytes of the four numbers that a record starts with.
pub open spec fn encode_numbers(id: i64, progress: i64, deadline: i64, estimated_time: i64) -> Seq<
    u8,
> {
    i64_bytes(id) + i64_bytes(progress) + i64_bytes(deadline) + i64_bytes(estimated_time)
}

/// The bytes of one record: four numbers, then the name and the description.
#[verifier::opaque]
pub open spec fn encode_record(task: TaskView) -> Seq<u8> {
    encode_numbers(task.id, task.progress, task.deadline, task.estimated_time) + encode_text(
        task.name,
    ) + encode_text(task.description)
}

/// Whether the texts of `task` are short enough for their length prefixes.
pub open spec fn encodable(task: TaskView) -> bool {
    &&& encode_utf8(task.name).len() <= usize::MAX
    &&& encode_utf8(task.description).len() <= usize::MAX
}

/// The four numbers at the start of `bytes`.
pub open spec fn decode_numbers(bytes: Seq<u8>) -> Result<(i64, i64, i64, i64), ReadError> {
    if bytes.len() < 32 {
        Err(ReadError::UnexpectedEnd)
    } else {
        Ok((i64_at(bytes, 0), i64_at(bytes, 8), i64_at(bytes, 16), i64_at(bytes, 24)))
    }
}

/// The text at the start of `bytes` and the number of bytes that it takes with
/// its length prefix, or the reason why there is none.
pub open spec fn decode_text(bytes: Seq<u8>) -> Result<(Seq<char>, nat), ReadError> {
    let w = word_size() as int;
    if bytes.len() < w {
        Err(ReadError::UnexpectedEnd)
    } else {
        let end = w + be_value(bytes.take(w));
        if bytes.len() < end {
            Err(ReadError::UnexpectedEnd)
        } else if !valid_utf8(bytes.subrange(w, end)) {
            Err(ReadError::InvalidUtf8)
        } else {
            Ok((decode_utf8(bytes.subrange(w, end)), end as nat))
        }
    }
}

/// The record at the start of `bytes` and the number of bytes that it takes, or
/// the reason why there is none.
#[verifier::opaque]
pub open spec fn decode_record(bytes: Seq<u8>) -> Result<(TaskView, nat), ReadError> {
    match decode_numbers(bytes) {
        Err(e) => Err(e),
        Ok((id, progress, deadline, estimated_time)) => match decode_text(bytes.skip(32)) {
            Err(e) => Err(e),
            Ok((name, name_size)) => match decode_text(bytes.skip(32 + name_size as int)) {
                Err(e) => Err(e),
                Ok((description, description_size)) => Ok(
                    (
                        TaskView { id, progress, deadline, estimated_time, name, description },
                        32 + name_size + description_size,
                    ),
                ),
            },
        },
    }
}

/// A number is read back from its eight bytes, wherever they stand.
pub proof fn lemma_i64_round_trip(x: i64, before: Seq<u8>, after: Seq<u8>)
    ensures
        i64_bytes(x).len() == 8,
        i64_at(before + i64_bytes(x) + after, before.len() as int) == x,
{
    lemma_be_bytes_len(twos_complement(x), 8);
    lemma_pow256_values();
    lemma_be_value_of_bytes(twos_complement(x), 8);
    let at = before.len() as int;
    assert((before + i64_bytes(x) + after).subrange(at, at + 8) =~= i64_bytes(x));
}

/// Eight bytes are the bytes of the number read from them.
pub proof fn lemma_i64_bytes_of_read(bytes: Seq<u8>, at: int)
    requires
        0 <= at,
        at + 8 <= bytes.len(),
    ensures
        i64_bytes(i64_at(bytes, at)) == bytes.subrange(at, at + 8),
{
    let part = bytes.subrange(at, at + 8);
    lemma_be_value_bound(part);
    lemma_pow256_values();
    lemma_be_bytes_of_value(part);
}

/// A text is read back from its bytes, whatever follows them.
pub proof fn lemma_text_round_trip(text: Seq<char>, after: Seq<u8>)
    requires
        encode_utf8(text).len() <= usize::MAX,
    ensures
        encode_text(text).len() == word_size() + encode_utf8(text).len(),
        decode_text(encode_text(text) + after) == Ok::<_, ReadError>(
            (text, encode_text(text).len()),
        ),
{
    broadcast use vstd::utf8::encode_utf8_valid_utf8, vstd::utf8::encode_utf8_decode_utf8;

    let utf = encode_utf8(text);
    let w = word_size();
    let all = encode_text(text) + after;
    lemma_be_bytes_len(utf.len(), w);
    lemma_word_size();
    lemma_be_value_of_bytes(utf.len(), w);
    assert(all.take(w as int) =~= word_bytes(utf.len()));
    assert(all.subrange(w as int, w as int + utf.len()) =~= utf);
}

/// What was read as a text is the text's encoding.
pub proof fn lemma_text_bytes_of_read(bytes: Seq<u8>)
    requires
        decode_text(bytes) is Ok,
    ensures
        ({
            let (text, size) = decode_text(bytes)->Ok_0;
            &&& word_size() <= size <= bytes.len()
            &&& encode_text(text) == bytes.take(size as int)
            &&& encode_utf8(text).len() <= usize::MAX
        }),
{
    broadcast use vstd::utf8::decode_utf8_encode_utf8;

    let w = word_size() as int;
    let prefix = bytes.take(w);
    let utf = bytes.subrange(w, w + be_value(prefix));
    lemma_be_value_bound(prefix);
    lemma_word_size();
    lemma_be_bytes_of_value(prefix);
    assert(encode_utf8(decode_utf8(utf)) == utf);
    assert(prefix + utf =~= bytes.take(w + be_value(prefix)));
}

/// Four numbers are read back from their bytes, whatever follows them.
pub proof fn lemma_numbers_round_trip(
    id: i64,
    progress: i64,
    deadline: i64,
    estimated_time: i64,
    after: Seq<u8>,
)
    ensures
        encode_numbers(id, progress, deadline, estimated_time).len() == 32,
        decode_numbers(encode_numbers(id, progress, deadline, estimated_time) + after) == Ok::<
            _,
            ReadError,
        >((id, progress, deadline, estimated_time)),
{
    let empty = Seq::<u8>::empty();
    let a = i64_bytes(id);
    let b = i64_bytes(progress);
    let c = i64_bytes(deadline);
    let d = i64_bytes(estimated_time);
    let all = encode_numbers(id, progress, deadline, estimated_time) + after;
    lemma_i64_round_trip(id, empty, b + c + d + after);
    lemma_i64_round_trip(progress, a, c + d + after);
    lemma_i64_round_trip(deadline, a + b, d + after);
    lemma_i64_round_trip(estimated_time, a + b + c, after);
    assert(all =~= empty + a + (b + c + d + after));
    assert(all =~= a + b + (c + d + after));
    assert(all =~= a + b + c + (d + after));
    assert(all =~= a + b + c + d + after);
}

/// Thirty-two bytes are the bytes of the four numbers read from them.
pub proof fn lemma_numbers_bytes_of_read(bytes: Seq<u8>)
    requires
        bytes.len() >= 32,
    ensures
        encode_numbers(i64_at(bytes, 0), i64_at(bytes, 8), i64_at(bytes, 16), i64_at(bytes, 24))
            == bytes.take(32),
{
    lemma_i64_bytes_of_read(bytes, 0);
    lemma_i64_bytes_of_read(bytes, 8);
    lemma_i64_bytes_of_read(bytes, 16);
    lemma_i64_bytes_of_read(bytes, 24);
    assert(bytes.take(32) =~= bytes.subrange(0, 8) + bytes.subrange(8, 16) + bytes.subrange(16, 24)
        + bytes.subrange(24, 32));
}

/// A task is read back from the bytes of its record, whatever follows them.
pub proof fn lemma_record_round_trip(task: TaskView, after: Seq<u8>)
    requires
        encodable(task),
    ensures
        decode_record(encode_record(task) + after) == Ok::<_, ReadError>(
            (task, encode_record(task).len()),
        ),
        encode_record(task).len() >= 32 + 2 * word_size(),
{
    reveal(encode_record);
    reveal(decode_record);
    let numbers = encode_numbers(task.id, task.progress, task.deadline, task.estimated_time);
    let name = encode_text(task.name);
    let description = encode_text(task.description);
    let all = encode_record(task) + after;
    lemma_numbers_round_trip(
        task.id,
        task.progress,
        task.deadline,
        task.estimated_time,
        name + description + after,
    );
    assert(all =~= numbers + (name + description + after));
    lemma_text_round_trip(task.name, description + after);
    lemma_text_round_trip(task.description, after);
    assert(all.skip(32) =~= name + (description + after));
    assert(all.skip(32 + name.len() as int) =~= description + after);
}

/// What was read as a record is the record's encoding, byte for byte.
pub proof fn lemma_record_bytes_of_read(bytes: Seq<u8>)
    requires
        decode_record(bytes) is Ok,
    ensures
        ({
            let (task, size) = decode_record(bytes)->Ok_0;
            &&& 32 + 2 * word_size() <= size <= bytes.len()
            &&& encode_record(task) == bytes.take(size as int)
            &&& encodable(task)
        }),
{
    reveal(encode_record);
    reveal(decode_record);
    let (task, size) = decode_record(bytes)->Ok_0;
    lemma_numbers_bytes_of_read(bytes);
    let names = bytes.skip(32);
    lemma_text_bytes_of_read(names);
    let name_size = decode_text(names)->Ok_0.1;
    let descriptions = bytes.skip(32 + name_size as int);
    lemma_text_bytes_of_read(descriptions);
    let description_size = decode_text(descriptions)->Ok_0.1;
    assert(bytes.take(size as int) =~= bytes.take(32) + names.take(name_size as int)
        + descriptions.take(description_size as int));
}

/// Reads the four numbers that a record starts with.
pub fn read_numbers(stream: &mut ByteStream) -> (r: Result<(i64, i64, i64, i64), ReadError>)
    ensures
        final(stream).data() == old(stream).data(),
        old(stream).in_range(),
        final(stream).in_range(),
        r == decode_numbers(old(stream).remaining()),
        r is Ok ==> final(stream).offset() == old(stream).offset() + 32,
{
    let ghost bytes = stream.remaining();
    let id = match read_i64(stream) {
        Ok(value) => value,
        Err(e) => return Err(e),
    };
    assert(bytes.take(8) =~= bytes.subrange(0, 8));
    assert(stream.remaining() =~= bytes.skip(8));
    let progress = match read_i64(stream) {
        Ok(value) => value,
        Err(e) => return Err(e),
    };
    assert(bytes.skip(8).take(8) =~= bytes.subrange(8, 16));
    assert(stream.remaining() =~= bytes.skip(16));
    let deadline = match read_i64(stream) {
        Ok(value) => value,
        Err(e) => return Err(e),
    };
    assert(bytes.skip(16).take(8) =~= bytes.subrange(16, 24));
    assert(stream.remaining() =~= bytes.skip(24));
    let estimated_time = match read_i64(stream) {
        Ok(value) => value,
        Err(e) => return Err(e),
    };
    assert(bytes.skip(24).take(8) =~= bytes.subrange(24, 32));
    Ok((id, progress, deadline, estimated_time))
}

/// Reads a length prefix and the text of that many bytes behind it.
pub fn read_text(stream: &mut ByteStream) -> (r: Result<String, ReadError>)
    ensures
        final(stream).data() == old(stream).data(),
        old(stream).in_range(),
        final(stream).in_range(),
        match r {
            Ok(text) => {
                &&& decode_text(old(stream).remaining()) matches Ok((chars, size))
                &&& text@ == chars
                &&& final(stream).offset() == old(stream).offset() + size
            },
            Err(e) => decode_text(old(stream).remaining()) == Err::<(Seq<char>, nat), _>(e),
        },
{
    let ghost bytes = stream.remaining();
    let ghost w = word_size() as int;
    let size = match read_usize(stream) {
        Ok(value) => value,
        Err(e) => return Err(e),
    };
    assert(stream.remaining() =~= bytes.skip(w));
    assert(bytes.len() >= w + size ==> bytes.skip(w).take(size as int) =~= bytes.subrange(
        w,
        w + size,
    ));
    read_str(stream, size)
}

/// Appends the bytes of `text`, behind their number as a length prefix.
pub fn write_text(out: &mut Vec<u8>, text: &str)
    ensures
        final(out)@ == old(out)@ + encode_text(text@),
        encode_utf8(text@).len() <= usize::MAX,
{
    let bytes = text.as_bytes();
    put_be(out, bytes.len() as u64, word_width());
    out.extend_from_slice(bytes);
    assert(final(out)@ =~= old(out)@ + encode_text(text@));
}

impl Task {
    /// Reads one record from `stream`.
    ///
    /// The stream's bytes stay as they are. After a success the stream stands
    /// behind the record.
    pub fn from(stream: &mut ByteStream) -> (r: Result<Self, ReadError>)
        ensures
            final(stream).data() == old(stream).data(),
            old(stream).in_range(),
            final(stream).in_range(),
            match r {
                Ok(task) => {
                    &&& decode_record(old(stream).remaining()) matches Ok((view, size))
                    &&& task@ == view
                    &&& final(stream).offset() == old(stream).offset() + size
                },
                Err(e) => decode_record(old(stream).remaining()) == Err::<(TaskView, nat), _>(e),
            },
    {
        proof {
            reveal(decode_record);
        }
        let ghost bytes = stream.remaining();
        let (id, progress, due, estimated_time) = match read_numbers(stream) {
            Ok(numbers) => numbers,
            Err(e) => return Err(e),
        };
        let mut task = Task::with_details(
            id,
            progress,
            due,
            estimated_time,
            String::new(),
            String::new(),
        );
        assert(stream.remaining() =~= bytes.skip(32));
        let ghost after_numbers = stream.offset();
        task.name = match read_text(stream) {
            Ok(text) => text,
            Err(e) => return Err(e),
        };
        assert(stream.remaining() =~= bytes.skip(32 + (stream.offset() - after_numbers)));
        task.description = match read_text(stream) {
            Ok(text) => text,
            Err(e) => return Err(e),
        };
        Ok(task)
    }

    /// The record of the task, as bytes. Read back, the bytes give the task.
    pub fn serialize(&self) -> (bytes: Vec<u8>)
        ensures
            bytes@ == encode_record(self@),
            encodable(self@),
            decode_record(bytes@) == Ok::<_, ReadError>((self@, bytes@.len())),
    {
        proof {
            reveal(encode_record);
        }
        let mut bytes: Vec<u8> = Vec::new();
        put_be(&mut bytes, i64_to_bits(self.id), 8);
        put_be(&mut bytes, i64_to_bits(self.progress), 8);
        put_be(&mut bytes, i64_to_bits(self.deadline), 8);
        put_be(&mut bytes, i64_to_bits(self.estimated_time), 8);

        write_text(&mut bytes, self.name.as_str());
        write_text(&mut bytes, self.description.as_str());
        proof {
            lemma_record_round_trip(self@, Seq::empty());
            assert(encode_record(self@) + Seq::<u8>::empty() =~= encode_record(self@));
        }
        bytes
    }
}

} // verus!
