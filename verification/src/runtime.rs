//! What a guest sees of the host during one invocation: its input, its
//! bounded output, and the limits on what it may allocate.

use crate::error::Error;
use crate::text::{chars_of, utf8_text};
use vstd::prelude::*;
use vstd::slice::slice_subrange;
use vstd::utf8::{char_is_scalar, decode_utf8, encode_scalar, encode_utf8, valid_utf8};

verus! {

/// The ceiling of a guest's linear memory, in bytes.
pub const MEMORY_LIMIT: usize = 1048576;

/// The ceiling of a guest's tables, in elements.
pub const TABLE_LIMIT: usize = 10240;

/// The capacity of the output of one invocation, in bytes.
pub const OUTPUT_CAPACITY: usize = 512;

/// The limits on what a guest may allocate.
#[derive(Debug, Clone, Copy, PartialEq, Eq)]
pub struct Limits {
    pub memory_size: usize,
    pub table_elements: usize,
}

/// The payload of the store of one invocation.
#[derive(Debug)]
pub struct RuntimeData {
    message: String,
    output: String,
    capacity: usize,
    limits: Limits,
}

/// The number of bytes of a character in UTF-8.
pub open spec fn char_width(c: char) -> int {
    encode_scalar(c as u32).len() as int
}

/// The number of bytes of a text in UTF-8.
pub open spec fn utf8_len(text: Seq<char>) -> int {
    encode_utf8(text).len() as int
}

/// How many characters from the start of `text` fit into `room` bytes.
pub open spec fn fit(text: Seq<char>, room: int) -> int
    decreases text.len(),
{
    if text.len() == 0 || char_width(text[0]) > room {
        0
    } else {
        1 + fit(text.drop_first(), room - char_width(text[0]))
    }
}

/// A character takes from one to four bytes.
pub proof fn lemma_char_width(c: char)
    ensures
        1 <= char_width(c) <= 4,
{
}

/// A text with one more character is longer by the width of the
/// character.
pub proof fn lemma_utf8_len_push(text: Seq<char>, c: char)
    ensures
        utf8_len(text.push(c)) == utf8_len(text) + char_width(c),
    decreases text.len(),
{
    let longer = text.push(c);
    if text.len() == 0 {
        assert(longer.drop_first() =~= Seq::<char>::empty());
        assert(encode_utf8(longer.drop_first()) =~= Seq::<u8>::empty());
        assert(encode_utf8(text) =~= Seq::<u8>::empty());
    } else {
        assert(longer.drop_first() =~= text.drop_first().push(c));
        lemma_utf8_len_push(text.drop_first(), c);
    }
}

/// What `fit` takes is as much as fits: the characters that it takes fit
/// into the room, and the next character, where there is one, does not
/// fit any more.
pub proof fn lemma_fit(text: Seq<char>, room: int)
    requires
        room >= 0,
    ensures
        0 <= fit(text, room) <= text.len(),
        utf8_len(text.take(fit(text, room))) <= room,
        fit(text, room) < text.len() ==> utf8_len(text.take(fit(text, room) + 1)) > room,
    decreases text.len(),
{
    if text.len() == 0 || char_width(text[0]) > room {
        assert(text.take(0) =~= Seq::<char>::empty());
        if text.len() > 0 {
            assert(text.take(1) =~= Seq::<char>::empty().push(text[0]));
            lemma_utf8_len_push(Seq::<char>::empty(), text[0]);
        }
    } else {
        let rest = text.drop_first();
        let left = room - char_width(text[0]);
        lemma_fit(rest, left);
        let k = fit(rest, left);
        lemma_utf8_len_front(text, k + 1);
        if k < rest.len() {
            lemma_utf8_len_front(text, k + 2);
        }
    }
}

/// The length of a prefix is the width of the first character and the
/// length of the rest of the prefix.
proof fn lemma_utf8_len_front(text: Seq<char>, n: int)
    requires
        1 <= n <= text.len(),
    ensures
        utf8_len(text.take(n)) == char_width(text[0]) + utf8_len(text.drop_first().take(n - 1)),
{
    assert(text.take(n).drop_first() =~= text.drop_first().take(n - 1));
}

/// The number of bytes of `c` in UTF-8.
pub fn width(c: char) -> (w: usize)
    ensures
        w == char_width(c),
        1 <= w <= 4,
{
    proof {
        char_is_scalar(c);
    }
    let u: u32 = c as u32;
    if u < 0x80 {
        1
    } else if u < 0x800 {
        2
    } else if u < 0x10000 {
        3
    } else {
        4
    }
}

impl RuntimeData {
    /// The input of the invocation.
    pub closed spec fn input_text(&self) -> Seq<char> {
        self.message@
    }

    /// The output that the guest has produced so far.
    pub closed spec fn output_text(&self) -> Seq<char> {
        self.output@
    }

    /// The capacity of the output, in bytes.
    pub closed spec fn capacity(&self) -> int {
        self.capacity as int
    }

    /// The limits of the invocation.
    pub closed spec fn limits_of(&self) -> Limits {
        self.limits
    }

    /// The bytes that the output may still take.
    pub open spec fn room(&self) -> int {
        self.capacity() - utf8_len(self.output_text())
    }

    /// The data of an invocation with the input `message`, no output yet,
    /// room for `output_capacity` bytes of output, and the service's
    /// limits.
    pub fn new(message: String, output_capacity: usize) -> (r: Self)
        ensures
            r.input_text() == message@,
            r.output_text().len() == 0,
            r.capacity() == output_capacity,
            r.limits_of() == (Limits { memory_size: MEMORY_LIMIT, table_elements: TABLE_LIMIT }),
    {
        RuntimeData {
            message,
            output: String::new(),
            capacity: output_capacity,
            limits: Limits { memory_size: MEMORY_LIMIT, table_elements: TABLE_LIMIT },
        }
    }

    pub fn input(&self) -> (r: &str)
        ensures
            r@ == self.input_text(),
    {
        self.message.as_str()
    }

    pub fn limits(&self) -> (r: Limits)
        ensures
            r == self.limits_of(),
    {
        self.limits
    }

    /// The output so far.
    pub fn output_str(&self) -> (r: &str)
        ensures
            r@ == self.output_text(),
    {
        self.output.as_str()
    }

    /// Ends the invocation and hands back its output.
    pub fn into_output(self) -> (r: String)
        ensures
            r@ == self.output_text(),
    {
        self.output
    }

    /// Appends `text` to the output as far as the capacity allows: the
    /// characters from the start of `text` that fit into the room that is
    /// left, whole characters only. The input and the capacity stay.
    pub fn output(&mut self, text: &str)
        ensures
            final(self).output_text() == old(self).output_text() + text@.take(
                fit(text@, old(self).room()),
            ),
            final(self).input_text() == old(self).input_text(),
            final(self).capacity() == old(self).capacity(),
            final(self).limits_of() == old(self).limits_of(),
            old(self).room() >= 0 ==> final(self).room() >= 0,
    {
        let used = self.output.as_str().as_bytes().len();
        if used > self.capacity {
            proof {
                assert(fit(text@, self.room()) == 0) by {
                    if text@.len() > 0 {
                        lemma_char_width(text@[0]);
                    }
                }
                assert(text@.take(0) =~= Seq::<char>::empty());
                assert(self.output@ + Seq::<char>::empty() =~= self.output@);
            }
            return ;
        }
        let mut room: usize = self.capacity - used;
        let chars = chars_of(text);
        let mut k: usize = 0;
        proof {
            assert(chars@.skip(0) =~= chars@);
            assert(chars@.take(0) =~= Seq::<char>::empty());
            assert(self.output@ + Seq::<char>::empty() =~= self.output@);
        }
        while k < chars.len()
            invariant
                k <= chars@.len(),
                chars@ == text@,
                self.capacity == old(self).capacity,
                self.message == old(self).message,
                self.limits == old(self).limits,
                self.output@ == old(self).output@ + chars@.take(k as int),
                room == self.capacity - utf8_len(self.output@),
                fit(chars@, old(self).room()) == k + fit(chars@.skip(k as int), room as int),
            decreases chars@.len() - k,
        {
            let c = chars[k];
            let w = width(c);
            proof {
                assert(chars@.skip(k as int)[0] == c);
                assert(chars@.skip(k as int).drop_first() =~= chars@.skip(k + 1));
                assert(chars@.take(k + 1) =~= chars@.take(k as int).push(c));
            }
            if w > room {
                proof {
                    assert(self.output@ == old(self).output@ + text@.take(
                        fit(text@, old(self).room()),
                    ));
                }
                return ;
            }
            proof {
                lemma_utf8_len_push(self.output@, c);
                assert((old(self).output@ + chars@.take(k as int)).push(c) =~= old(self).output@
                    + chars@.take(k + 1));
            }
            self.output.push(c);
            room -= w;
            k += 1;
        }
        proof {
            assert(chars@.skip(k as int).len() == 0);
        }
    }
}

/// The memory of a guest, given what looking up its export `memory`
/// gave: nothing, or an export that is a memory or is none. A guest
/// without that export, or with one that is no memory, has no memory to
/// share with the host.
pub fn get_memory<M>(export: Option<Option<M>>) -> (r: Result<M, Error>)
    ensures
        r == match export {
            Some(Some(memory)) => Ok::<M, Error>(memory),
            _ => Err::<M, Error>(Error::MemoryNotExported),
        },
{
    match export {
        Some(Some(memory)) => Ok(memory),
        _ => Err(Error::MemoryNotExported),
    }
}

/// Whether the `len` bytes at `ptr` lie within a memory of `size` bytes.
pub open spec fn in_memory(size: int, ptr: u32, len: u32) -> bool {
    ptr + len <= size
}

/// The host function `output`: appends the text that the guest has
/// written at `ptr` to the output of the invocation, as far as the
/// capacity allows.
///
/// A region that does not lie within the memory is an invalid pointer;
/// bytes that are no UTF-8 are an error of the call. In both cases the
/// data of the invocation stays as it is.
pub fn output(memory: &[u8], data: &mut RuntimeData, ptr: u32, len: u32) -> (r: Result<(), Error>)
    ensures
        final(data).input_text() == old(data).input_text(),
        final(data).capacity() == old(data).capacity(),
        final(data).limits_of() == old(data).limits_of(),
        old(data).room() >= 0 ==> final(data).room() >= 0,
        match r {
            Ok(()) => in_memory(memory@.len() as int, ptr, len) && ({
                let bytes = memory@.subrange(ptr as int, ptr + len);
                let text = decode_utf8(bytes);
                valid_utf8(bytes) && final(data).output_text() == old(data).output_text()
                    + text.take(fit(text, old(data).room()))
            }),
            Err(Error::InvalidPointer) => {
                &&& !in_memory(memory@.len() as int, ptr, len)
                &&& final(data).output_text() == old(data).output_text()
            },
            Err(Error::Wasm(message)) => in_memory(memory@.len() as int, ptr, len) && !valid_utf8(
                memory@.subrange(ptr as int, ptr + len),
            ) && final(data).output_text() == old(data).output_text() && message@
                == "output is not valid UTF-8"@,
            Err(_) => false,
        },
{
    let size = memory.len();
    let start = ptr as usize;
    let count = len as usize;
    if start > size || count > size - start {
        return Err(Error::InvalidPointer);
    }
    let bytes = slice_subrange(memory, start, start + count);
    match utf8_text(bytes) {
        Some(text) => {
            proof {
                vstd::utf8::encode_utf8_decode_utf8(text@);
            }
            data.output(text);
            Ok(())
        },
        None => Err(Error::Wasm("output is not valid UTF-8".to_owned())),
    }
}

/// How many bytes the host function `input` copies: the whole input, or
/// as much of it as the guest's buffer takes.
pub open spec fn copied(input: Seq<u8>, len: u32) -> int {
    if input.len() <= len {
        input.len() as int
    } else {
        len as int
    }
}

/// The host function `input`: copies the input of the invocation, in
/// UTF-8, into the guest's buffer of `len` bytes at `ptr`, as far as the
/// buffer takes it, and hands back the length of the whole input in
/// bytes, so that the guest can tell whether it has all of it.
///
/// A buffer that does not lie within the memory is an invalid pointer,
/// and the memory stays as it is. An input whose length does not fit the
/// guest's integers is an error of the call.
pub fn input(memory: &mut [u8], data: &RuntimeData, ptr: u32, len: u32) -> (r: Result<u32, Error>)
    ensures
        final(memory)@.len() == old(memory)@.len(),
        match r {
            Ok(actual) => in_memory(old(memory)@.len() as int, ptr, len) && ({
                let input = encode_utf8(data.input_text());
                let n = copied(input, len);
                actual == input.len() && final(memory)@ == old(memory)@.subrange(0, ptr as int)
                    + input.take(n) + old(memory)@.subrange(ptr + n, old(memory)@.len() as int)
            }),
            Err(Error::InvalidPointer) => !in_memory(old(memory)@.len() as int, ptr, len)
                && final(memory)@ == old(memory)@,
            Err(Error::Wasm(message)) => {
                &&& in_memory(old(memory)@.len() as int, ptr, len)
                &&& encode_utf8(data.input_text()).len() > u32::MAX
                &&& final(memory)@ == old(memory)@
                &&& message@ == "input is too long"@
            },
            Err(_) => false,
        },
{
    let size = memory.len();
    let start = ptr as usize;
    let count = len as usize;
    if start > size || count > size - start {
        return Err(Error::InvalidPointer);
    }
    let message = data.input().as_bytes();
    let actual = message.len();
    if actual > u32::MAX as usize {
        return Err(Error::Wasm("input is too long".to_owned()));
    }
    let n = if count >= actual {
        actual
    } else {
        count
    };
    let mut i: usize = 0;
    while i < n
        invariant
            i <= n <= count,
            n <= message@.len(),
            start + count <= size == memory@.len(),
            size == old(memory)@.len(),
            memory@ == old(memory)@.subrange(0, start as int) + message@.take(i as int) + old(
                memory,
            )@.subrange(start + i, size as int),
        decreases n - i,
    {
        memory[start + i] = message[i];
        i += 1;
    }
    Ok(actual as u32)
}

} // verus!
