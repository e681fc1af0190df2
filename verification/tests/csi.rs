use fi::ascii::csi::{
    control_effects, param_byte, parse_long_seq, push_sgr, scan_field, scan_params,
    screen_mode_of, select_rendition,
};
use fi::ascii::escapes::{Escape, Intermediate};
use fi::error::Error;

#[test]
fn parameter_bytes_are_digits_and_semicolon() {
    for b in 0u8..=255 {
        assert_eq!(param_byte(b), b.is_ascii_digit() || b == b';', "{}", b);
    }
}

#[test]
fn scanning_stops_at_the_first_other_byte() {
    assert_eq!(scan_params(b"12;3m4", 0), 4);
    assert_eq!(scan_params(b"12;3m4", 2), 4);
    assert_eq!(scan_params(b"12;3m4", 4), 4);
    assert_eq!(scan_params(b"12;3", 0), 4);
    assert_eq!(scan_params(b"", 0), 0);
    assert_eq!(scan_field(b"12;345;", 0), 2);
    assert_eq!(scan_field(b"12;345;", 2), 2);
    assert_eq!(scan_field(b"12;345;", 3), 6);
    assert_eq!(scan_field(b"12;345;", 7), 7);
    assert_eq!(scan_field(b"12", 0), 2);
}

#[test]
fn rendition_table() {
    let mut out = Vec::new();
    push_sgr(&mut out, 31);
    push_sgr(&mut out, 22);
    push_sgr(&mut out, 6);
    push_sgr(&mut out, 38);
    push_sgr(&mut out, 107);
    push_sgr(&mut out, 108);
    assert_eq!(
        out,
        vec![
            Escape::SetForegroundRed,
            Escape::ResetBold,
            Escape::ResetDim,
            Escape::SetBackgroundBriWhite,
        ]
    );
}

#[test]
fn screen_mode_table() {
    assert_eq!(screen_mode_of(7), Some(Escape::EnableLineWrap));
    assert_eq!(screen_mode_of(16), Some(Escape::Set640_350ColorScreen));
    assert_eq!(screen_mode_of(8), None);
    assert_eq!(screen_mode_of(20), None);
}

#[test]
fn rendition_of_parameters() {
    assert_eq!(
        select_rendition(b"1;32;48;5;9"),
        Ok(vec![
            Escape::SetBold,
            Escape::SetForegroundGreen,
            Escape::SetBackgroundCustomColor(9),
        ])
    );
    assert_eq!(select_rendition(b""), Ok(vec![]));
    assert_eq!(select_rendition(b"38;2"), Err(Error::Unsupported("truecolor")));
}

#[test]
fn effects_by_intermediate_parameters_and_final_byte() {
    assert_eq!(
        control_effects(Intermediate::Plain, b"10;20", b'H'),
        Ok(vec![Escape::MoveCursorTo(10, 20)])
    );
    assert_eq!(
        control_effects(Intermediate::Private, b"1049", b'l'),
        Ok(vec![Escape::ExitAltScreen])
    );
    assert_eq!(
        control_effects(Intermediate::Screen, b"3", b'h'),
        Ok(vec![Escape::Set80_25ColorScreen])
    );
    assert_eq!(
        control_effects(Intermediate::Screen, b"3", b'l'),
        Ok(vec![Escape::ResetScreenSet(3)])
    );
    assert_eq!(control_effects(Intermediate::Plain, b"3", b'h'), Ok(vec![]));
    assert_eq!(control_effects(Intermediate::Plain, b"", b'm'), Ok(vec![]));
    assert_eq!(control_effects(Intermediate::Plain, b"1", b'x'), Ok(vec![]));
    assert_eq!(
        control_effects(Intermediate::Plain, b"48;2;0;0;0", b'm'),
        Err(Error::Unsupported("truecolor"))
    );
}

#[test]
fn long_sequence_from_its_first_byte() {
    assert_eq!(parse_long_seq(b"\x1b[2Jx", 2), Some((Ok(vec![Escape::ClearAll]), 4)));
    assert_eq!(parse_long_seq(b"\x1b[?25lx", 2), Some((Ok(vec![Escape::SetCursorInvisible]), 6)));
    assert_eq!(parse_long_seq(b"\x1b[Hx", 2), Some((Ok(vec![Escape::ZeroCursor]), 3)));
    assert_eq!(parse_long_seq(b"\x1b[", 2), None);
    assert_eq!(parse_long_seq(b"\x1b[=", 2), None);
    assert_eq!(parse_long_seq(b"\x1b[1;2", 2), None);
}
