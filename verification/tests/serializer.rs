use fi::ascii::escapes::{Escape, Sequence};
use fi::ascii::parser::parse_sequences;

fn fixed_forms() -> Vec<(Escape, &'static [u8])> {
    vec![
        (Escape::ResetAllModes, b"\x1b[0m"),
        (Escape::ZeroCursor, b"\x1b[H"),
        (Escape::CursorMoveOneLineUp, b"\x1bM"),
        (Escape::ClearInDisplay, b"\x1b[J"),
        (Escape::ClearDisplayUntilScreenEnd, b"\x1b[0J"),
        (Escape::ClearDisplayUntilScreenStart, b"\x1b[1J"),
        (Escape::ClearAll, b"\x1b[2J"),
        (Escape::EraseSavedLine, b"\x1b[3J"),
        (Escape::EraseInLine, b"\x1b[K"),
        (Escape::EraseFromCursorToEnd, b"\x1b[0K"),
        (Escape::EraseFromCursorToStart, b"\x1b[1K"),
        (Escape::EraseLine, b"\x1b[2K"),
        (Escape::SetBold, b"\x1b[1m"),
        (Escape::SetDim, b"\x1b[2m"),
        (Escape::SetItalic, b"\x1b[3m"),
        (Escape::SetUnderline, b"\x1b[4m"),
        (Escape::SetBlinking, b"\x1b[5m"),
        (Escape::SetInverse, b"\x1b[7m"),
        (Escape::SetHidden, b"\x1b[8m"),
        (Escape::SetStrikethrough, b"\x1b[9m"),
        (Escape::SetForegroundBlack, b"\x1b[30m"),
        (Escape::SetBackgroundBlack, b"\x1b[40m"),
        (Escape::SetForegroundRed, b"\x1b[31m"),
        (Escape::SetBackgroundRed, b"\x1b[41m"),
        (Escape::SetForegroundGreen, b"\x1b[32m"),
        (Escape::SetBackgroundGreen, b"\x1b[42m"),
        (Escape::SetForegroundYellow, b"\x1b[33m"),
        (Escape::SetBackgroundYellow, b"\x1b[43m"),
        (Escape::SetForegroundBlue, b"\x1b[34m"),
        (Escape::SetBackgroundBlue, b"\x1b[44m"),
        (Escape::SetForegroundMagenta, b"\x1b[35m"),
        (Escape::SetBackgroundMagenta, b"\x1b[45m"),
        (Escape::SetForegroundCyan, b"\x1b[36m"),
        (Escape::SetBackgroundCyan, b"\x1b[46m"),
        (Escape::SetForegroundWhite, b"\x1b[37m"),
        (Escape::SetBackgroundWhite, b"\x1b[47m"),
        (Escape::SetForegroundDefault, b"\x1b[39m"),
        (Escape::SetBackgroundDefault, b"\x1b[49m"),
        (Escape::SetForegroundBriBlack, b"\x1b[90m"),
        (Escape::SetBackgroundBriBlack, b"\x1b[100m"),
        (Escape::SetForegroundBriRed, b"\x1b[91m"),
        (Escape::SetBackgroundBriRed, b"\x1b[101m"),
        (Escape::SetForegroundBriGreen, b"\x1b[92m"),
        (Escape::SetBackgroundBriGreen, b"\x1b[102m"),
        (Escape::SetForegroundBriYellow, b"\x1b[93m"),
        (Escape::SetBackgroundBriYellow, b"\x1b[103m"),
        (Escape::SetForegroundBriBlue, b"\x1b[94m"),
        (Escape::SetBackgroundBriBlue, b"\x1b[104m"),
        (Escape::SetForegroundBriMagenta, b"\x1b[95m"),
        (Escape::SetBackgroundBriMagenta, b"\x1b[105m"),
        (Escape::SetForegroundBriCyan, b"\x1b[96m"),
        (Escape::SetBackgroundBriCyan, b"\x1b[106m"),
        (Escape::SetForegroundBriWhite, b"\x1b[97m"),
        (Escape::SetBackgroundBriWhite, b"\x1b[107m"),
        (Escape::ResetBold, b"\x1b[22m"),
        (Escape::ResetDim, b"\x1b[22m"),
        (Escape::ResetItalic, b"\x1b[23m"),
        (Escape::ResetUnderline, b"\x1b[24m"),
        (Escape::ResetBlinking, b"\x1b[25m"),
        (Escape::ResetInverse, b"\x1b[27m"),
        (Escape::ResetHidden, b"\x1b[28m"),
        (Escape::ResetStrikethrough, b"\x1b[29m"),
        (Escape::SaveCursorPos, b"\x1b7"),
        (Escape::RestoreCursorPos, b"\x1b8"),
        (Escape::RequestCursorPos, b"\x1b[6n"),
        (Escape::Set40_25MonoScreen, b"\x1b[=0h"),
        (Escape::Set40_25ColorScreen, b"\x1b[=1h"),
        (Escape::Set80_25MonoScreen, b"\x1b[=2h"),
        (Escape::Set80_25ColorScreen, b"\x1b[=3h"),
        (Escape::Set320_2004ColorScreen, b"\x1b[=4h"),
        (Escape::Set320_200MonoScreen, b"\x1b[=5h"),
        (Escape::Set640_200MonoScreen, b"\x1b[=6h"),
        (Escape::EnableLineWrap, b"\x1b[=7h"),
        (Escape::Set320_200ColorScreen, b"\x1b[=13h"),
        (Escape::Set640_200ColorScreen, b"\x1b[=14h"),
        (Escape::Set640_350MonoScreen, b"\x1b[=15h"),
        (Escape::Set640_350ColorScreen, b"\x1b[=16h"),
        (Escape::Set640_480MonoScreen, b"\x1b[=17h"),
        (Escape::Set640_480ColorScreen, b"\x1b[=18h"),
        (Escape::Set320_200ColorScreen256, b"\x1b[=19h"),
        (Escape::SetCursorVisible, b"\x1b[?25h"),
        (Escape::SetCursorInvisible, b"\x1b[?25l"),
        (Escape::SaveScreen, b"\x1b[?47h"),
        (Escape::RestoreScreen, b"\x1b[?47l"),
        (Escape::EnterAltScreen, b"\x1b[?1049h"),
        (Escape::ExitAltScreen, b"\x1b[?1049l"),
    ]
}

fn carrying_forms() -> Vec<(Escape, &'static [u8])> {
    vec![
        (Escape::MoveCursorTo(1, 1), b"\x1b[1;1H"),
        (Escape::MoveCursorTo(10, 20), b"\x1b[10;20H"),
        (Escape::MoveCursorTo(0, 4294967295), b"\x1b[0;4294967295H"),
        (Escape::CursorUp(0), b"\x1b[0A"),
        (Escape::CursorUp(7), b"\x1b[7A"),
        (Escape::CursorDown(12), b"\x1b[12B"),
        (Escape::CursorRight(345), b"\x1b[345C"),
        (Escape::CursorLeft(1000), b"\x1b[1000D"),
        (Escape::CursorToNextLineStart(3), b"\x1b[3E"),
        (Escape::CursorToPastLineStart(4294967295), b"\x1b[4294967295F"),
        (Escape::CursorToCol(80), b"\x1b[80G"),
        (Escape::SetForegroundCustomColor(0), b"\x1b[38;5;0m"),
        (Escape::SetForegroundCustomColor(208), b"\x1b[38;5;208m"),
        (Escape::SetBackgroundCustomColor(9), b"\x1b[48;5;9m"),
        (Escape::SetBackgroundCustomColor(255), b"\x1b[48;5;255m"),
        (Escape::ResetScreenSet(0), b"\x1b[=0l"),
        (Escape::ResetScreenSet(7), b"\x1b[=7l"),
        (Escape::ResetScreenSet(255), b"\x1b[=255l"),
    ]
}

#[test]
fn every_fixed_escape_has_its_byte_form() {
    let forms = fixed_forms();
    assert_eq!(forms.len(), 86);
    for (escape, bytes) in forms {
        assert_eq!(escape.into_bytes(), bytes.to_vec(), "{:?}", escape);
    }
}

#[test]
fn every_carrying_escape_has_its_byte_form() {
    for (escape, bytes) in carrying_forms() {
        assert_eq!(escape.into_bytes(), bytes.to_vec(), "{:?}", escape);
    }
}

#[test]
fn static_bytes_agree_with_into_bytes() {
    for (escape, bytes) in fixed_forms() {
        assert_eq!(escape.as_static_bytes(), Some(bytes), "{:?}", escape);
        assert_eq!(escape.as_static_bytes().map(|b| b.to_vec()), Some(escape.into_bytes()));
    }
}

#[test]
fn static_bytes_are_missing_for_carrying_escapes() {
    for (escape, _) in carrying_forms() {
        assert_eq!(escape.as_static_bytes(), None, "{:?}", escape);
    }
}

#[test]
fn into_bytes_gives_the_same_bytes_each_time() {
    for (escape, _) in carrying_forms() {
        assert_eq!(escape.into_bytes(), escape.into_bytes());
    }
    for (escape, _) in fixed_forms() {
        assert_eq!(escape.into_bytes(), escape.into_bytes());
    }
}

#[test]
fn write_to_appends_behind_what_is_there() {
    let mut buf = b"abc".to_vec();
    Escape::MoveCursorTo(3, 4).write_to(&mut buf);
    Escape::ClearAll.write_to(&mut buf);
    assert_eq!(buf, b"abc\x1b[3;4H\x1b[2J".to_vec());
}

#[test]
fn sequence_renders_text_and_escapes() {
    let mut buf = Vec::new();
    Sequence::Text(b'x').write_to(&mut buf);
    Sequence::Escape(vec![Escape::SetBold, Escape::CursorUp(2)]).write_to(&mut buf);
    Sequence::Escape(vec![]).write_to(&mut buf);
    Sequence::Text(0xff).write_to(&mut buf);
    assert_eq!(buf, b"x\x1b[1m\x1b[2A\xff".to_vec());
}

#[test]
fn both_normal_intensity_escapes_share_one_form() {
    assert_eq!(Escape::ResetBold.into_bytes(), b"\x1b[22m".to_vec());
    assert_eq!(Escape::ResetDim.into_bytes(), b"\x1b[22m".to_vec());
}

#[test]
fn round_trip_of_every_fixed_escape() {
    for (escape, _) in fixed_forms() {
        if escape == Escape::ResetBold || escape == Escape::ResetDim {
            continue;
        }
        assert_eq!(
            parse_sequences(&escape.into_bytes()),
            Ok(vec![Sequence::Escape(vec![escape])]),
            "{:?}",
            escape
        );
    }
}

#[test]
fn round_trip_of_carrying_escapes() {
    for (escape, _) in carrying_forms() {
        assert_eq!(
            parse_sequences(&escape.into_bytes()),
            Ok(vec![Sequence::Escape(vec![escape])]),
            "{:?}",
            escape
        );
    }
}

#[test]
fn round_trip_of_the_short_escapes() {
    assert_eq!(
        parse_sequences(b"\x1b7"),
        Ok(vec![Sequence::Escape(vec![Escape::SaveCursorPos])])
    );
    assert_eq!(
        parse_sequences(b"\x1b8"),
        Ok(vec![Sequence::Escape(vec![Escape::RestoreCursorPos])])
    );
    assert_eq!(
        parse_sequences(b"\x1bM"),
        Ok(vec![Sequence::Escape(vec![Escape::CursorMoveOneLineUp])])
    );
}

#[test]
fn normal_intensity_escapes_come_back_as_both() {
    for escape in [Escape::ResetBold, Escape::ResetDim] {
        assert_eq!(
            parse_sequences(&escape.into_bytes()),
            Ok(vec![Sequence::Escape(vec![Escape::ResetBold, Escape::ResetDim])])
        );
    }
}

#[test]
fn rendering_a_parsed_canonical_stream_gives_it_back() {
    let mut stream = Vec::new();
    for (escape, _) in fixed_forms() {
        if escape == Escape::ResetBold || escape == Escape::ResetDim {
            continue;
        }
        stream.extend_from_slice(&escape.into_bytes());
        stream.push(b'.');
    }
    for (escape, _) in carrying_forms() {
        stream.extend_from_slice(&escape.into_bytes());
    }
    let items = parse_sequences(&stream).unwrap();
    let mut rendered = Vec::new();
    for item in &items {
        item.write_to(&mut rendered);
    }
    assert_eq!(rendered, stream);
}
