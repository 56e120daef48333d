//! AssemblyScript support: the strings of an AssemblyScript guest, read
//! from its linear memory.
//!
//! An AssemblyScript object is a payload with a header of five 32-bit
//! words right before it: memory manager info, two words of garbage
//! collector info, the id of the object's class, and the size of the
//! payload in bytes. A guest hands over the address of the payload.

use crate::error::Error;
use crate::text::{decimal, push_decimal};
use vstd::prelude::*;
use vstd::string::StringExecFns;

verus! {

/// The class id of a string.
pub const AS_CLASS_ID_STRING: u32 = 2;

/// The size of an object's header, in bytes.
pub const HEADER_SIZE: usize = 20;

/// The 32-bit word that the four bytes at `at` hold, least significant
/// byte first.
pub open spec fn word_at(memory: Seq<u8>, at: int) -> int {
    memory[at] + 0x100 * memory[at + 1] + 0x1_0000 * memory[at + 2] + 0x100_0000 * memory[at + 3]
}

/// The 16-bit code unit that the two bytes at `at` hold, least
/// significant byte first.
pub open spec fn unit_at(memory: Seq<u8>, at: int) -> int {
    memory[at] + 0x100 * memory[at + 1]
}

/// What the header of an object says of it.
pub struct ObjectHeader {
    pub class_id: int,
    pub size: int,
}

/// The header of the object at `ptr`, where `ptr` is the address of an
/// object: a multiple of four, as the words of the header ask, with the
/// header before it and the payload behind it within the memory.
pub open spec fn object_at(memory: Seq<u8>, ptr: u32) -> Option<ObjectHeader> {
    if ptr % 4 != 0 || ptr < HEADER_SIZE || ptr > memory.len() {
        None
    } else if ptr + word_at(memory, ptr - 4) > memory.len() {
        None
    } else {
        Some(ObjectHeader { class_id: word_at(memory, ptr - 8), size: word_at(memory, ptr - 4) })
    }
}

/// The code units of the string at `ptr`, where `ptr` is the address of
/// a string. A last byte without a partner is left out.
pub open spec fn string_at(memory: Seq<u8>, ptr: u32) -> Option<Seq<u16>> {
    match object_at(memory, ptr) {
        Some(header) => if header.class_id == AS_CLASS_ID_STRING {
            Some(Seq::new((header.size / 2) as nat, |i: int| unit_at(memory, ptr + 2 * i) as u16))
        } else {
            None
        },
        None => None,
    }
}

/// The word at `at`.
fn read_word(memory: &[u8], at: usize) -> (r: u32)
    requires
        at + 4 <= memory@.len(),
    ensures
        r == word_at(memory@, at as int),
{
    let b0: u32 = memory[at] as u32;
    let b1: u32 = memory[at + 1] as u32;
    let b2: u32 = memory[at + 2] as u32;
    let b3: u32 = memory[at + 3] as u32;
    b0 + 0x100 * b1 + 0x1_0000 * b2 + 0x100_0000 * b3
}

/// An object in the memory of a guest.
#[derive(Debug, Clone, Copy)]
pub struct AssemblyScriptObject<'m> {
    memory: &'m [u8],
    ptr: u32,
    class_id: u32,
    size: u32,
}

impl<'m> AssemblyScriptObject<'m> {
    #[verifier::type_invariant]
    spec fn well_formed(self) -> bool {
        object_at(self.memory@, self.ptr) == Some(
            ObjectHeader { class_id: self.class_id as int, size: self.size as int },
        )
    }

    /// The memory that holds the object.
    pub closed spec fn memory_of(self) -> Seq<u8> {
        self.memory@
    }

    /// The address of the object's payload.
    pub closed spec fn address(self) -> u32 {
        self.ptr
    }

    /// The object at `ptr`, where `ptr` is the address of an object.
    pub fn from_memory(memory: &'m [u8], ptr: u32) -> (r: Option<Self>)
        ensures
            match r {
                Some(object) => object_at(memory@, ptr) is Some && object.memory_of() == memory@
                    && object.address() == ptr,
                None => object_at(memory@, ptr) is None,
            },
    {
        let offset = ptr as usize;
        if ptr % 4 != 0 || offset < HEADER_SIZE || offset > memory.len() {
            return None;
        }
        let class_id = read_word(memory, offset - 8);
        let size = read_word(memory, offset - 4);
        if size as usize > memory.len() - offset {
            return None;
        }
        Some(AssemblyScriptObject { memory, ptr, class_id, size })
    }

    /// The id of the object's class.
    pub fn class_id(&self) -> (r: u32)
        ensures
            object_at(self.memory_of(), self.address()) matches Some(header) && header.class_id
                == r,
    {
        proof {
            use_type_invariant(self);
        }
        self.class_id
    }

    /// The bytes of the object.
    pub fn payload(&self) -> (r: &'m [u8])
        ensures
            object_at(self.memory_of(), self.address()) matches Some(header) && r@
                == self.memory_of().subrange(
                self.address() as int,
                self.address() + header.size,
            ),
    {
        proof {
            use_type_invariant(self);
        }
        let total = self.memory.len();
        let start = self.ptr as usize;
        vstd::slice::slice_subrange(self.memory, start, start + self.size as usize)
    }
}

/// A string in the memory of a guest.
#[derive(Debug, Clone, Copy)]
pub struct AssemblyScriptString<'m> {
    inner: AssemblyScriptObject<'m>,
}

/// The text that `String::from_utf16_lossy` makes of the code units: they
/// are read as UTF-16, and what is no UTF-16 is replaced by U+FFFD.
pub uninterp spec fn utf16_lossy(units: Seq<u16>) -> Seq<char>;

/// Calls `String::from_utf16_lossy`. The contract only gives the outcome
/// its name: the text is a function of the code units alone.
#[verifier::external_body]
fn from_utf16_lossy(units: &Vec<u16>) -> (r: String)
    ensures
        r@ == utf16_lossy(units@),
{
    String::from_utf16_lossy(units)
}

impl<'m> AssemblyScriptString<'m> {
    #[verifier::type_invariant]
    spec fn well_formed(self) -> bool {
        string_at(self.inner.memory_of(), self.inner.address()) is Some
    }

    /// The code units of the string.
    pub closed spec fn units(self) -> Seq<u16> {
        string_at(self.inner.memory_of(), self.inner.address())->0
    }

    /// The string at `ptr`, where `ptr` is the address of an object of
    /// the string class.
    pub fn from_memory(memory: &'m [u8], ptr: u32) -> (r: Option<Self>)
        ensures
            match r {
                Some(string) => string_at(memory@, ptr) == Some(string.units()),
                None => string_at(memory@, ptr) is None,
            },
    {
        match AssemblyScriptObject::from_memory(memory, ptr) {
            Some(object) => if object.class_id() == AS_CLASS_ID_STRING {
                Some(AssemblyScriptString { inner: object })
            } else {
                None
            },
            None => None,
        }
    }

    /// The code units of the string.
    pub fn code_units(&self) -> (r: Vec<u16>)
        ensures
            r@ == self.units(),
    {
        proof {
            use_type_invariant(self);
        }
        let bytes = self.inner.payload();
        let ghost memory = self.inner.memory_of();
        let ghost ptr = self.inner.address();
        let n = bytes.len() / 2;
        let mut units: Vec<u16> = Vec::new();
        let mut i: usize = 0;
        while i < n
            invariant
                i <= n,
                2 * n <= bytes@.len() <= usize::MAX,
                ptr + bytes@.len() <= memory.len(),
                bytes@ == memory.subrange(ptr as int, ptr + bytes@.len()),
                units@.len() == i,
                forall|k: int| 0 <= k < i ==> units@[k] == unit_at(memory, ptr + 2 * k) as u16,
            decreases n - i,
        {
            let low: u16 = bytes[2 * i] as u16;
            let high: u16 = bytes[2 * i + 1] as u16;
            units.push(low + 0x100 * high);
            i += 1;
        }
        proof {
            assert(units@ =~= self.units());
        }
        units
    }

    /// The text of the string.
    pub fn string(&self) -> (r: String)
        ensures
            r@ == utf16_lossy(self.units()),
    {
        let units = self.code_units();
        from_utf16_lossy(&units)
    }
}

/// The line that the host logs for the host function `print`.
pub open spec fn print_line(text: Seq<char>) -> Seq<char> {
    "wotto.print "@ + text
}

/// The line that the host logs when a guest aborts.
pub open spec fn abort_line(
    message: Seq<char>,
    file_name: Seq<char>,
    line: u32,
    column: u32,
) -> Seq<char> {
    "env.abort "@ + message + " "@ + file_name + ":"@ + decimal(line as nat) + ":"@ + decimal(
        column as nat,
    )
}

/// The host function `print`: the line to log for the string at `ptr`.
/// An address that is not that of a string is an invalid pointer.
pub fn print(memory: &[u8], ptr: u32) -> (r: Result<String, Error>)
    ensures
        match r {
            Ok(line) => string_at(memory@, ptr) matches Some(units) && line@ == print_line(
                utf16_lossy(units),
            ),
            Err(e) => string_at(memory@, ptr) is None && e == Error::InvalidPointer,
        },
{
    match AssemblyScriptString::from_memory(memory, ptr) {
        Some(text) => {
            let mut line = "wotto.print ".to_owned();
            line.append(text.string().as_str());
            Ok(line)
        },
        None => Err(Error::InvalidPointer),
    }
}

/// The line to log for an abort with this message at this place.
pub fn abort_message(message: &str, file_name: &str, line: u32, column: u32) -> (r: String)
    ensures
        r@ == abort_line(message@, file_name@, line, column),
{
    let mut text = "env.abort ".to_owned();
    text.append(message);
    text.append(" ");
    text.append(file_name);
    text.append(":");
    push_decimal(&mut text, line as u128);
    text.append(":");
    push_decimal(&mut text, column as u128);
    text
}

/// The host function `env.abort`: the line to log for an abort whose
/// message and file name are the strings at the two addresses. After it
/// the call traps. An address that is not that of a string is an invalid
/// pointer.
pub fn env_abort(memory: &[u8], message_ptr: u32, file_name_ptr: u32, line: u32, column: u32) -> (r:
    Result<String, Error>)
    ensures
        match r {
            Ok(text) => string_at(memory@, message_ptr) matches Some(message) && (string_at(
                memory@,
                file_name_ptr,
            ) matches Some(file_name) && text@ == abort_line(
                utf16_lossy(message),
                utf16_lossy(file_name),
                line,
                column,
            )),
            Err(e) => (string_at(memory@, message_ptr) is None || string_at(
                memory@,
                file_name_ptr,
            ) is None) && e == Error::InvalidPointer,
        },
{
    let message = match AssemblyScriptString::from_memory(memory, message_ptr) {
        Some(message) => message,
        None => { return Err(Error::InvalidPointer); },
    };
    let file_name = match AssemblyScriptString::from_memory(memory, file_name_ptr) {
        Some(file_name) => file_name,
        None => { return Err(Error::InvalidPointer); },
    };
    Ok(abort_message(message.string().as_str(), file_name.string().as_str(), line, column))
}

} // verus!
