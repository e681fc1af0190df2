use fi::ascii::runs::{parse_sequences, Run};

fn text(bytes: &[u8]) -> Run {
    Run::Text(bytes.to_vec())
}

fn escape(bytes: &[u8]) -> Run {
    Run::Escape(bytes.to_vec())
}

#[test]
fn runs_of_text_and_escapes() {
    assert_eq!(
        parse_sequences(b"ab\x1b[31mcd\x1b[0m"),
        vec![text(b"ab"), escape(b"\x1b[31m"), text(b"cd"), escape(b"\x1b[0m")]
    );
}

#[test]
fn runs_of_nothing() {
    assert_eq!(parse_sequences(b""), Vec::<Run>::new());
}

#[test]
fn run_of_text_alone() {
    assert_eq!(parse_sequences(b"hello [world]"), vec![text(b"hello [world]")]);
}

#[test]
fn escape_character_without_bracket_stands_alone() {
    assert_eq!(
        parse_sequences(b"\x1b7x\x1b"),
        vec![escape(b"\x1b"), text(b"7x"), escape(b"\x1b")]
    );
    assert_eq!(parse_sequences(b"\x1b\x1b"), vec![escape(b"\x1b"), escape(b"\x1b")]);
}

#[test]
fn escape_runs_to_its_first_letter() {
    assert_eq!(
        parse_sequences(b"\x1b[?1049h\x1b[38;5;9mZ"),
        vec![escape(b"\x1b[?1049h"), escape(b"\x1b[38;5;9m"), text(b"Z")]
    );
    assert_eq!(parse_sequences(b"\x1b[12;"), vec![escape(b"\x1b[12;")]);
    assert_eq!(parse_sequences(b"\x1b["), vec![escape(b"\x1b[")]);
    assert_eq!(parse_sequences(b"\x1b[1\x1b[2Jx"), vec![escape(b"\x1b[1\x1b[2J"), text(b"x")]);
    assert_eq!(parse_sequences(b"\x1b[@Ax"), vec![escape(b"\x1b[@A"), text(b"x")]);
    assert_eq!(parse_sequences(b"\x1b[{zx"), vec![escape(b"\x1b[{z"), text(b"x")]);
}

#[test]
fn runs_put_together_are_the_stream() {
    let inputs: [&[u8]; 5] = [
        b"",
        b"plain",
        b"\x1b[1mbold\x1b[0m and \x1b7 more\x1b",
        b"\x1b[\x1b[\x1b[",
        b"\xff\x00\x1b[\xff\x00m\x1b",
    ];
    for input in inputs {
        let mut joined = Vec::new();
        for run in parse_sequences(input) {
            match run {
                Run::Text(bytes) => {
                    assert!(!bytes.is_empty());
                    assert!(!bytes.contains(&0x1b));
                    joined.extend(bytes);
                }
                Run::Escape(bytes) => {
                    assert_eq!(bytes[0], 0x1b);
                    joined.extend(bytes);
                }
            }
        }
        assert_eq!(joined, input.to_vec());
    }
}
