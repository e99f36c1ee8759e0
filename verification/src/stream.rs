//! A cursor over the bytes of a store, and the three readers a record is made of.

use vstd::prelude::*;
use vstd::slice::slice_subrange;
use vstd::utf8::{decode_utf8, valid_utf8};
use crate::wire::{
    be_value, from_twos_complement, get_be, i64_from_bits, lemma_be_value_bound, lemma_word_size,
    word_size, word_width,
};

verus! {

/// Why a read failed.
#[derive(Clone, Copy, Debug, PartialEq, Eq, Structural)]
pub enum ReadError {
    /// Fewer bytes were left than the read asked for.
    UnexpectedEnd,
    /// The bytes handed to a conversion were not as many as the value takes.
    Corrupt,
    /// The bytes of a text are not UTF-8.
    InvalidUtf8,
}

/// Bytes with a read position.
pub struct ByteStream<'a> {
    bytes: &'a [u8],
    position: usize,
}

impl<'a> ByteStream<'a> {
    #[verifier::type_invariant]
    spec fn within(&self) -> bool {
        self.position <= self.bytes@.len()
    }

    /// All the bytes, read or not.
    pub closed spec fn data(&self) -> Seq<u8> {
        self.bytes@
    }

    /// How many bytes have been read.
    pub closed spec fn offset(&self) -> nat {
        self.position as nat
    }

    /// The read position lies within the bytes. This holds of every stream.
    pub open spec fn in_range(&self) -> bool {
        self.offset() <= self.data().len()
    }

    /// The bytes not yet read.
    pub open spec fn remaining(&self) -> Seq<u8> {
        self.data().skip(self.offset() as int)
    }

    /// A stream at the start of `bytes`.
    pub fn new(bytes: &'a [u8]) -> (stream: Self)
        ensures
            stream.data() == bytes@,
            stream.offset() == 0,
            stream.in_range(),
    {
        ByteStream { bytes, position: 0 }
    }

    /// The read position.
    pub fn position(&self) -> (position: usize)
        ensures
            position == self.offset(),
            self.in_range(),
    {
        proof {
            use_type_invariant(self);
        }
        self.position
    }

    /// How many bytes are left to read.
    pub fn remaining_len(&self) -> (left: usize)
        ensures
            left == self.remaining().len(),
            self.in_range(),
    {
        proof {
            use_type_invariant(self);
        }
        self.bytes.len() - self.position
    }

    /// Whether every byte has been read.
    pub fn is_at_end(&self) -> (done: bool)
        ensures
            done == (self.remaining().len() == 0),
            self.in_range(),
    {
        proof {
            use_type_invariant(self);
        }
        self.position == self.bytes.len()
    }

    /// Takes the next `size` bytes, or none of them when fewer are left.
    pub fn take(&mut self, size: usize) -> (taken: Option<&'a [u8]>)
        ensures
            final(self).data() == old(self).data(),
            old(self).in_range(),
            final(self).in_range(),
            match taken {
                Some(bytes) => {
                    &&& size <= old(self).remaining().len()
                    &&& bytes@ == old(self).remaining().take(size as int)
                    &&& final(self).offset() == old(self).offset() + size
                },
                None => {
                    &&& size > old(self).remaining().len()
                    &&& final(self).offset() == old(self).offset()
                },
            },
    {
        proof {
            use_type_invariant(&*self);
        }
        if size > self.bytes.len() - self.position {
            return None;
        }
        let start = self.position;
        let bytes = slice_subrange(self.bytes, start, start + size);
        self.position = start + size;
        assert(bytes@ =~= old(self).remaining().take(size as int));
        Some(bytes)
    }
}

/// The text that `bytes` encode: `std::str::from_utf8`. As its documentation
/// says, the call succeeds exactly on well-formed UTF-8 and then gives the
/// characters that the bytes encode.
#[verifier::external_body]
fn text_of_utf8(bytes: &[u8]) -> (text: Option<&str>)
    ensures
        text is Some <==> valid_utf8(bytes@),
        text matches Some(s) ==> s@ == decode_utf8(bytes@),
{
    std::str::from_utf8(bytes).ok()
}

/// The signed number in eight big-endian bytes.
pub fn decode_i64(bytes: &[u8]) -> (r: Result<i64, ReadError>)
    ensures
        bytes@.len() == 8 ==> r == Ok::<i64, ReadError>(
            from_twos_complement(be_value(bytes@)) as i64,
        ),
        bytes@.len() != 8 ==> r == Err::<i64, ReadError>(ReadError::Corrupt),
        r matches Ok(v) ==> v == from_twos_complement(be_value(bytes@)),
{
    if bytes.len() != 8 {
        return Err(ReadError::Corrupt);
    }
    let bits = get_be(bytes, 0, 8);
    assert(bytes@.subrange(0, 8) =~= bytes@);
    Ok(i64_from_bits(bits))
}

/// The length in one machine word of big-endian bytes.
pub fn decode_usize(bytes: &[u8]) -> (r: Result<usize, ReadError>)
    ensures
        bytes@.len() == word_size() ==> r == Ok::<usize, ReadError>(be_value(bytes@) as usize),
        bytes@.len() != word_size() ==> r == Err::<usize, ReadError>(ReadError::Corrupt),
        r matches Ok(v) ==> v == be_value(bytes@),
{
    let width = word_width();
    if bytes.len() != width {
        return Err(ReadError::Corrupt);
    }
    let value = get_be(bytes, 0, width);
    proof {
        assert(bytes@.subrange(0, width as int) =~= bytes@);
        lemma_be_value_bound(bytes@);
        lemma_word_size();
    }
    Ok(value as usize)
}

/// The text in UTF-8 bytes.
pub fn decode_str(bytes: &[u8]) -> (r: Result<String, ReadError>)
    ensures
        match r {
            Ok(text) => valid_utf8(bytes@) && text@ == decode_utf8(bytes@),
            Err(e) => !valid_utf8(bytes@) && e == ReadError::InvalidUtf8,
        },
{
    match text_of_utf8(bytes) {
        Some(text) => Ok(text.to_owned()),
        None => Err(ReadError::InvalidUtf8),
    }
}

/// Takes `size` bytes from `stream` and converts them.
///
/// When fewer than `size` bytes are left the read fails and the stream stays
/// where it was. Otherwise the bytes are consumed, whatever `convert` makes of
/// them, and its answer is handed on.
pub fn read<V, F>(stream: &mut ByteStream, convert: F, size: usize) -> (r: Result<V, ReadError>)
    where F: Fn(&[u8]) -> Result<V, ReadError>
    requires
        forall|bytes: &[u8]| bytes@.len() == size ==> call_requires(convert, (bytes,)),
    ensures
        final(stream).data() == old(stream).data(),
        old(stream).in_range(),
        final(stream).in_range(),
        old(stream).remaining().len() < size ==> {
            &&& r == Err::<V, ReadError>(ReadError::UnexpectedEnd)
            &&& final(stream).offset() == old(stream).offset()
        },
        old(stream).remaining().len() >= size ==> {
            &&& final(stream).offset() == old(stream).offset() + size
            &&& exists|bytes: &[u8]|
                {
                    &&& bytes@ == old(stream).remaining().take(size as int)
                    &&& #[trigger] call_ensures(convert, (bytes,), r)
                }
        },
{
    match stream.take(size) {
        Some(bytes) => convert(bytes),
        None => Err(ReadError::UnexpectedEnd),
    }
}

/// Reads a signed 64-bit number.
pub fn read_i64(stream: &mut ByteStream) -> (r: Result<i64, ReadError>)
    ensures
        final(stream).data() == old(stream).data(),
        old(stream).in_range(),
        final(stream).in_range(),
        match r {
            Ok(v) => {
                &&& old(stream).remaining().len() >= 8
                &&& v == from_twos_complement(be_value(old(stream).remaining().take(8)))
                &&& final(stream).offset() == old(stream).offset() + 8
            },
            Err(e) => {
                &&& e == ReadError::UnexpectedEnd
                &&& old(stream).remaining().len() < 8
                &&& final(stream).offset() == old(stream).offset()
            },
        },
{
    read(stream, decode_i64, 8)
}

/// Reads a length prefix.
pub fn read_usize(stream: &mut ByteStream) -> (r: Result<usize, ReadError>)
    ensures
        final(stream).data() == old(stream).data(),
        old(stream).in_range(),
        final(stream).in_range(),
        match r {
            Ok(v) => {
                &&& old(stream).remaining().len() >= word_size()
                &&& v == be_value(old(stream).remaining().take(word_size() as int))
                &&& final(stream).offset() == old(stream).offset() + word_size()
            },
            Err(e) => {
                &&& e == ReadError::UnexpectedEnd
                &&& old(stream).remaining().len() < word_size()
                &&& final(stream).offset() == old(stream).offset()
            },
        },
{
    read(stream, decode_usize, word_width())
}

/// Reads a text of `size` bytes.
pub fn read_str(stream: &mut ByteStream, size: usize) -> (r: Result<String, ReadError>)
    ensures
        final(stream).data() == old(stream).data(),
        old(stream).in_range(),
        final(stream).in_range(),
        match r {
            Ok(text) => {
                &&& old(stream).remaining().len() >= size
                &&& valid_utf8(old(stream).remaining().take(size as int))
                &&& text@ == decode_utf8(old(stream).remaining().take(size as int))
                &&& final(stream).offset() == old(stream).offset() + size
            },
            Err(e) => if old(stream).remaining().len() < size {
                &&& e == ReadError::UnexpectedEnd
                &&& final(stream).offset() == old(stream).offset()
            } else {
                &&& e == ReadError::InvalidUtf8
                &&& !valid_utf8(old(stream).remaining().take(size as int))
                &&& final(stream).offset() == old(stream).offset() + size
            },
        },
{
    read(stream, decode_str, size)
}

} // verus!
