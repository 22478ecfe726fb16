use wasm_interop::io::{stdin, stdout, ByteIo};

#[test]
fn read_byte_serves_bytes_then_end_marker() {
    let mut io = ByteIo::new(vec![7u8, 255]);
    assert_eq!(io.read_byte(), 7);
    assert_eq!(io.read_byte(), 255);
    assert_eq!(io.read_byte(), -1);
    assert_eq!(io.read_byte(), -1);
}

#[test]
fn read_fills_front_of_buffer() {
    let mut io = ByteIo::new(b"abcdef".to_vec());
    let reader = stdin();

    let mut buf = vec![0u8; 4];
    let n = reader.read(&mut io, &mut buf);
    assert_eq!(n, 4);
    assert_eq!(buf, b"abcd".to_vec());

    let mut buf2 = vec![9u8; 4];
    let n2 = reader.read(&mut io, &mut buf2);
    assert_eq!(n2, 2);
    assert_eq!(buf2, vec![b'e', b'f', 9, 9]);

    let n3 = reader.read(&mut io, &mut buf2);
    assert_eq!(n3, 0);
    assert_eq!(buf2, vec![b'e', b'f', 9, 9]);
}

#[test]
fn read_line_keeps_newline_and_counts_bytes() {
    let mut io = ByteIo::new(b"hello\nworld".to_vec());
    let reader = stdin();

    let mut line = String::new();
    let n = reader.read_line(&mut io, &mut line);
    assert_eq!(n, 6);
    assert_eq!(line, "hello\n");

    let mut rest = String::new();
    let n2 = reader.read_line(&mut io, &mut rest);
    assert_eq!(n2, 5);
    assert_eq!(rest, "world");

    let n3 = reader.read_line(&mut io, &mut rest);
    assert_eq!(n3, 0);
    assert_eq!(rest, "world");
}

#[test]
fn read_line_appends_to_existing_text() {
    let mut io = ByteIo::new(b"tail\n".to_vec());
    let reader = stdin();
    let mut line = String::from("head ");
    let n = reader.read_line(&mut io, &mut line);
    assert_eq!(n, 5);
    assert_eq!(line, "head tail\n");
}

#[test]
fn lines_split_and_strip_terminators() {
    let mut io = ByteIo::new(b"a\r\nb\nc".to_vec());
    let reader = stdin();
    let ls = reader.lines(&mut io);
    assert_eq!(ls, vec!["a".to_string(), "b".to_string(), "c".to_string()]);
}

#[test]
fn lines_keep_empty_lines_and_drop_trailing_newline() {
    let mut io = ByteIo::new(b"a\n\nb\n".to_vec());
    let reader = stdin();
    let ls = reader.lines(&mut io);
    assert_eq!(ls, vec!["a".to_string(), String::new(), "b".to_string()]);

    let mut empty = ByteIo::new(Vec::new());
    assert_eq!(reader.lines(&mut empty), Vec::<String>::new());
}

#[test]
fn write_sends_every_byte_in_order() {
    let mut io = ByteIo::new(Vec::new());
    let writer = stdout();
    let n = writer.write(&mut io, &b"hi".to_vec());
    assert_eq!(n, 2);
    let n2 = writer.write(&mut io, &b" there".to_vec());
    assert_eq!(n2, 6);
    writer.flush(&mut io);
    assert_eq!(io.written().as_slice(), b"hi there");
}
