use sea_tf::state::{Reader, State};

#[test]
fn test() {
    let mut state = State::new();
    state.write_all("a\nb\n\nc".as_bytes());
    let mut reader = Reader::from(&state);
    let mut buf: Vec<u8> = Vec::new();
    let n = reader.read_to_end(&mut buf);
    assert_eq!(n, buf.len());
    assert_eq!(
        String::from_utf8(buf).ok().unwrap_or(String::from("invalid utf8")),
        "\x1b[5;73~a\nb\n\nc\x1b[4;2H"
    );
    drop(reader);
    state.write("d".as_bytes());
}
