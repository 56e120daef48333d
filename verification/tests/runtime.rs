use wotto::error::Error;
use wotto::runtime::{get_memory, input, output, width, Limits, RuntimeData};
use wotto::runtime::{MEMORY_LIMIT, OUTPUT_CAPACITY, TABLE_LIMIT};

#[test]
fn limits_of_an_invocation() {
    let data = RuntimeData::new("args".to_string(), OUTPUT_CAPACITY);
    assert_eq!(data.input(), "args");
    assert_eq!(data.output_str(), "");
    assert_eq!(
        data.limits(),
        Limits { memory_size: 1 << 20, table_elements: 10 << 10 }
    );
    assert_eq!(MEMORY_LIMIT, 1048576);
    assert_eq!(TABLE_LIMIT, 10240);
    assert_eq!(OUTPUT_CAPACITY, 512);
}

#[test]
fn output_is_cut_at_the_capacity() {
    let mut data = RuntimeData::new(String::new(), 10);
    data.output("hello");
    assert_eq!(data.output_str(), "hello");
    data.output(", world");
    assert_eq!(data.output_str(), "hello, wor");
    data.output("more");
    assert_eq!(data.output_str(), "hello, wor");
    assert_eq!(data.into_output(), "hello, wor");
}

#[test]
fn output_of_many_calls_adds_up_to_the_capacity() {
    let mut data = RuntimeData::new(String::new(), OUTPUT_CAPACITY);
    for _ in 0..100 {
        data.output("0123456789");
    }
    let text = data.into_output();
    assert_eq!(text.len(), 512);
    assert_eq!(text, "0123456789".repeat(52)[..512]);
}

#[test]
fn output_never_splits_a_character() {
    let mut data = RuntimeData::new(String::new(), 4);
    data.output("a\u{e9}\u{e9}b");
    // `a` takes one byte, each accented letter two: the second does not fit
    assert_eq!(data.output_str(), "a\u{e9}");
    data.output("\u{1f600}");
    assert_eq!(data.output_str(), "a\u{e9}");
    data.output("z");
    assert_eq!(data.output_str(), "a\u{e9}z");
    data.output("z");
    assert_eq!(data.output_str(), "a\u{e9}z");

    let mut none = RuntimeData::new(String::new(), 0);
    none.output("x");
    assert_eq!(none.output_str(), "");
}

#[test]
fn widths_are_those_of_utf8() {
    for c in ['\0', 'a', '\u{7f}', '\u{80}', '\u{7ff}', '\u{800}', '\u{ffff}', '\u{10000}', '\u{10ffff}'] {
        assert_eq!(width(c), c.len_utf8(), "{c:?}");
    }
}

#[test]
fn host_output_reads_text_from_memory() {
    let memory = b"..hello, world..".to_vec();
    let mut data = RuntimeData::new(String::new(), 8);
    assert_eq!(output(&memory, &mut data, 2, 5), Ok(()));
    assert_eq!(data.output_str(), "hello");
    assert_eq!(output(&memory, &mut data, 7, 7), Ok(()));
    assert_eq!(data.output_str(), "hello, w");
    assert_eq!(output(&memory, &mut data, 16, 0), Ok(()));
    assert_eq!(output(&memory, &mut data, 10, 7), Err(Error::InvalidPointer));
    assert_eq!(output(&memory, &mut data, 17, 0), Err(Error::InvalidPointer));
    assert_eq!(
        output(&memory, &mut data, u32::MAX, u32::MAX),
        Err(Error::InvalidPointer)
    );
    assert_eq!(data.output_str(), "hello, w");
}

#[test]
fn host_output_refuses_what_is_not_utf8() {
    let memory = vec![b'a', 0xff, b'b', 0xc3, 0xa9];
    let mut data = RuntimeData::new(String::new(), 8);
    assert!(matches!(output(&memory, &mut data, 0, 3), Err(Error::Wasm(_))));
    assert!(matches!(output(&memory, &mut data, 3, 1), Err(Error::Wasm(_))));
    assert_eq!(data.output_str(), "");
    assert_eq!(output(&memory, &mut data, 3, 2), Ok(()));
    assert_eq!(data.output_str(), "\u{e9}");
}

#[test]
fn host_input_copies_what_fits_and_tells_the_whole_length() {
    let data = RuntimeData::new("hello".to_string(), 8);
    let mut memory = vec![b'.'; 10];
    assert_eq!(input(&mut memory, &data, 2, 8), Ok(5));
    assert_eq!(memory, b"..hello...".to_vec());

    let mut memory = vec![b'.'; 10];
    assert_eq!(input(&mut memory, &data, 2, 3), Ok(5));
    assert_eq!(memory, b"..hel.....".to_vec());

    let mut memory = vec![b'.'; 10];
    assert_eq!(input(&mut memory, &data, 4, 0), Ok(5));
    assert_eq!(memory, b"..........".to_vec());

    assert_eq!(input(&mut memory, &data, 6, 5), Err(Error::InvalidPointer));
    assert_eq!(input(&mut memory, &data, 11, 0), Err(Error::InvalidPointer));
    assert_eq!(memory, b"..........".to_vec());

    let accented = RuntimeData::new("\u{e9}".to_string(), 8);
    let mut memory = vec![0; 4];
    assert_eq!(input(&mut memory, &accented, 1, 1), Ok(2));
    assert_eq!(memory, vec![0, 0xc3, 0, 0]);
}

#[test]
fn a_guest_without_a_memory_has_none_to_share() {
    assert_eq!(get_memory(Some(Some(7))), Ok(7));
    assert_eq!(get_memory::<i32>(Some(None)), Err(Error::MemoryNotExported));
    assert_eq!(get_memory::<i32>(None), Err(Error::MemoryNotExported));
}
