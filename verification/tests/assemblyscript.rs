use wotto::assemblyscript::{abort_message, env_abort, print};
use wotto::assemblyscript::{AssemblyScriptObject, AssemblyScriptString};
use wotto::error::Error;

/// A memory with one object, whose payload starts at `at`.
fn memory_with(at: usize, class_id: u32, payload: &[u8], total: usize) -> Vec<u8> {
    let mut memory = vec![0xaa; total];
    memory[at - 8..at - 4].copy_from_slice(&class_id.to_le_bytes());
    memory[at - 4..at].copy_from_slice(&(payload.len() as u32).to_le_bytes());
    memory[at..at + payload.len()].copy_from_slice(payload);
    memory
}

fn utf16(text: &str) -> Vec<u8> {
    text.encode_utf16().flat_map(|u| u.to_le_bytes()).collect()
}

#[test]
fn a_string_is_read_from_its_header_and_payload() {
    let memory = memory_with(32, 2, &utf16("h\u{e9}llo \u{1f600}"), 64);
    let text = AssemblyScriptString::from_memory(&memory, 32).unwrap();
    assert_eq!(text.string(), "h\u{e9}llo \u{1f600}");
    assert_eq!(text.code_units().len(), 8);
    let object = AssemblyScriptObject::from_memory(&memory, 32).unwrap();
    assert_eq!(object.class_id(), 2);
    assert_eq!(object.payload(), &utf16("h\u{e9}llo \u{1f600}")[..]);
}

#[test]
fn what_is_no_utf16_is_replaced() {
    let memory = memory_with(20, 2, &[0x00, 0xd8, b'a', 0x00, 0xff], 28);
    let text = AssemblyScriptString::from_memory(&memory, 20).unwrap();
    // a lone surrogate, then `a`; the last byte has no partner
    assert_eq!(text.code_units(), vec![0xd800, 0x0061]);
    assert_eq!(text.string(), "\u{fffd}a");
}

#[test]
fn addresses_that_are_refused() {
    let memory = memory_with(32, 2, &utf16("hi"), 36);
    assert!(AssemblyScriptString::from_memory(&memory, 32).is_some());
    // not a multiple of four
    assert!(AssemblyScriptString::from_memory(&memory, 33).is_none());
    assert!(AssemblyScriptString::from_memory(&memory, 34).is_none());
    // no room for the header
    assert!(AssemblyScriptString::from_memory(&memory, 0).is_none());
    assert!(AssemblyScriptString::from_memory(&memory, 16).is_none());
    // beyond the memory
    assert!(AssemblyScriptString::from_memory(&memory, 40).is_none());
    assert!(AssemblyScriptString::from_memory(&memory, u32::MAX - 3).is_none());
    // the payload does not fit
    let short = memory_with(32, 2, &utf16("hi"), 36)[..35].to_vec();
    assert!(AssemblyScriptString::from_memory(&short, 32).is_none());
    let mut huge = memory.clone();
    huge[28..32].copy_from_slice(&u32::MAX.to_le_bytes());
    assert!(AssemblyScriptString::from_memory(&huge, 32).is_none());
    // an object of another class is an object, but no string
    let buffer = memory_with(32, 1, &[1, 2, 3], 36);
    assert!(AssemblyScriptObject::from_memory(&buffer, 32).is_some());
    assert!(AssemblyScriptString::from_memory(&buffer, 32).is_none());
    // an empty string at the very end of the memory
    let empty = memory_with(20, 2, &[], 20);
    assert_eq!(AssemblyScriptString::from_memory(&empty, 20).unwrap().string(), "");
}

#[test]
fn print_gives_the_line_to_log() {
    let memory = memory_with(32, 2, &utf16("hello"), 64);
    assert_eq!(print(&memory, 32), Ok("wotto.print hello".to_string()));
    assert_eq!(print(&memory, 36), Err(Error::InvalidPointer));
}

#[test]
fn abort_gives_the_line_to_log() {
    let mut memory = memory_with(32, 2, &utf16("boom"), 128);
    let file = memory_with(96, 2, &utf16("a.ts"), 128);
    memory[76..128].copy_from_slice(&file[76..128]);
    assert_eq!(
        env_abort(&memory, 32, 96, 12, 3),
        Ok("env.abort boom a.ts:12:3".to_string())
    );
    assert_eq!(env_abort(&memory, 32, 100, 12, 3), Err(Error::InvalidPointer));
    assert_eq!(env_abort(&memory, 2, 96, 12, 3), Err(Error::InvalidPointer));
    assert_eq!(
        abort_message("m", "f", 0, u32::MAX),
        "env.abort m f:0:4294967295"
    );
}
