use zim::file_io::FileIO;

fn fchars(t: &str) -> Vec<char> {
    t.chars().collect()
}

fn ftext(v: &Vec<char>) -> String {
    v.iter().collect()
}

fn round_trip(input: &str) -> String {
    let (buffer, trailing) = FileIO::decode(&fchars(input));
    ftext(&FileIO::encode(&buffer, trailing))
}

#[test]
fn test_decode_trailing_newline() {
    let (buffer, trailing) = FileIO::decode(&fchars("one\ntwo\n"));
    assert!(trailing);
    assert_eq!(buffer.len(), 2);
    assert_eq!(ftext(buffer.row(0).unwrap().chars()), "one");
    assert_eq!(ftext(buffer.row(1).unwrap().chars()), "two");
}

#[test]
fn test_decode_no_trailing_newline() {
    let (buffer, trailing) = FileIO::decode(&fchars("one\ntwo"));
    assert!(!trailing);
    assert_eq!(buffer.len(), 2);
    assert_eq!(ftext(buffer.row(0).unwrap().chars()), "one");
    assert_eq!(ftext(buffer.row(1).unwrap().chars()), "two");
}

#[test]
fn test_decode_empty_file() {
    let (buffer, trailing) = FileIO::decode(&fchars(""));
    assert!(!trailing);
    assert_eq!(buffer.len(), 0);
}

#[test]
fn test_decode_single_newline() {
    // A file holding only a newline is one empty row, distinct from an
    // empty file.
    let (buffer, trailing) = FileIO::decode(&fchars("\n"));
    assert!(trailing);
    assert_eq!(buffer.len(), 1);
    assert_eq!(buffer.row(0).unwrap().len(), 0);
}

#[test]
fn test_decode_empty_last_line() {
    let (buffer, trailing) = FileIO::decode(&fchars("a\n\n"));
    assert!(trailing);
    assert_eq!(buffer.len(), 2);
    assert_eq!(ftext(buffer.row(0).unwrap().chars()), "a");
    assert_eq!(buffer.row(1).unwrap().len(), 0);
}

#[test]
fn test_encode_decode_round_trips() {
    // Encoding what was decoded reproduces the original content exactly:
    // trailing newline present, absent, empty file, a lone newline, and a
    // multi-line file with an empty last line.
    assert_eq!(round_trip("alpha\nbeta\n"), "alpha\nbeta\n");
    assert_eq!(round_trip("alpha\nbeta"), "alpha\nbeta");
    assert_eq!(round_trip(""), "");
    assert_eq!(round_trip("\n"), "\n");
    assert_eq!(round_trip("alpha\n\n"), "alpha\n\n");
}

#[test]
fn test_encode_respects_flag() {
    let (buffer, _) = FileIO::decode(&fchars("x"));
    assert_eq!(ftext(&FileIO::encode(&buffer, true)), "x\n");
    assert_eq!(ftext(&FileIO::encode(&buffer, false)), "x");
}
