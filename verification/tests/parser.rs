use fi::ascii::escapes::{Escape, Sequence};
use fi::ascii::parser::{parse_sequences, short_escape};
use fi::error::Error;

#[test]
fn plain_text_passes_through() {
    assert_eq!(
        parse_sequences(b"hello"),
        Ok(vec![
            Sequence::Text(b'h'),
            Sequence::Text(b'e'),
            Sequence::Text(b'l'),
            Sequence::Text(b'l'),
            Sequence::Text(b'o'),
        ])
    );
}

#[test]
fn colour_then_text_then_reset() {
    assert_eq!(
        parse_sequences(b"\x1b[31mA\x1b[0m"),
        Ok(vec![
            Sequence::Escape(vec![Escape::SetForegroundRed]),
            Sequence::Text(b'A'),
            Sequence::Escape(vec![Escape::ResetAllModes]),
        ])
    );
}

#[test]
fn packed_rendition_with_indexed_background() {
    assert_eq!(
        parse_sequences(b"\x1b[1;32;48;5;9mX"),
        Ok(vec![
            Sequence::Escape(vec![
                Escape::SetBold,
                Escape::SetForegroundGreen,
                Escape::SetBackgroundCustomColor(9),
            ]),
            Sequence::Text(b'X'),
        ])
    );
}

#[test]
fn alt_screen_clear_and_home() {
    assert_eq!(
        parse_sequences(b"\x1b[?1049h\x1b[2J\x1b[H"),
        Ok(vec![
            Sequence::Escape(vec![Escape::EnterAltScreen]),
            Sequence::Escape(vec![Escape::ClearAll]),
            Sequence::Escape(vec![Escape::ZeroCursor]),
        ])
    );
}

#[test]
fn screen_mode_line_wrap() {
    assert_eq!(
        parse_sequences(b"\x1b[=7h"),
        Ok(vec![Sequence::Escape(vec![Escape::EnableLineWrap])])
    );
}

#[test]
fn truecolor_is_refused() {
    assert_eq!(
        parse_sequences(b"ab\x1b[38;2;10;20;30mcd"),
        Err(Error::Unsupported("truecolor"))
    );
}

#[test]
fn normal_intensity_resets_bold_then_dim() {
    assert_eq!(
        parse_sequences(b"\x1b[22m"),
        Ok(vec![Sequence::Escape(vec![Escape::ResetBold, Escape::ResetDim])])
    );
}

fn texts(bytes: &[u8]) -> Vec<Sequence> {
    bytes.iter().map(|b| Sequence::Text(*b)).collect()
}

fn one(escapes: Vec<Escape>) -> Result<Vec<Sequence>, Error> {
    Ok(vec![Sequence::Escape(escapes)])
}

fn nothing() -> Result<Vec<Sequence>, Error> {
    Ok(vec![])
}

#[test]
fn empty_input_has_no_items() {
    assert_eq!(parse_sequences(b""), nothing());
}

#[test]
fn bytes_without_escape_pass_through_in_order() {
    let input: Vec<u8> = (0u8..=255).filter(|b| *b != 0x1b).collect();
    assert_eq!(parse_sequences(&input), Ok(texts(&input)));
    assert_eq!(parse_sequences(b"[31m;?=\r\n\t"), Ok(texts(b"[31m;?=\r\n\t")));
}

#[test]
fn unrecognized_final_byte_leaves_nothing_and_parsing_resumes() {
    assert_eq!(parse_sequences(b"\x1b[5zA"), Ok(texts(b"A")));
    assert_eq!(parse_sequences(b"\x1b[zA"), Ok(texts(b"A")));
    assert_eq!(parse_sequences(b"\x1b[?12;7~\x1b[1m"), one(vec![Escape::SetBold]));
    assert_eq!(parse_sequences(b"a\x1b[=3qb"), Ok(texts(b"ab")));
    assert_eq!(parse_sequences(b"\x1b[1 qx"), Ok(texts(b"qx")));
    assert_eq!(
        parse_sequences(b"\x1b[12\x1b[1m"),
        Ok(texts(b"[1m")),
        "an escape character ends the pending sequence as its final byte"
    );
}

#[test]
fn intermediate_counts_only_right_after_the_bracket() {
    assert_eq!(parse_sequences(b"\x1b[1?h"), Ok(texts(b"h")));
    assert_eq!(parse_sequences(b"\x1b[??25h"), Ok(texts(b"25h")));
    assert_eq!(parse_sequences(b"\x1b[=?7h"), Ok(texts(b"7h")));
}

#[test]
fn escape_cut_short_by_the_end_is_dropped() {
    assert_eq!(parse_sequences(b"ab\x1b"), Ok(texts(b"ab")));
    assert_eq!(parse_sequences(b"ab\x1b["), Ok(texts(b"ab")));
    assert_eq!(parse_sequences(b"ab\x1b[?"), Ok(texts(b"ab")));
    assert_eq!(parse_sequences(b"ab\x1b[12;3"), Ok(texts(b"ab")));
    assert_eq!(parse_sequences(b"ab\x1b[38;2"), Ok(texts(b"ab")));
}

#[test]
fn byte_after_escape_character_is_consumed() {
    assert_eq!(parse_sequences(b"\x1bxy"), Ok(texts(b"y")));
    assert_eq!(parse_sequences(b"\x1b\x1b[1m"), Ok(texts(b"[1m")));
    assert_eq!(
        parse_sequences(b"\x1b7\x1b8\x1bM"),
        Ok(vec![
            Sequence::Escape(vec![Escape::SaveCursorPos]),
            Sequence::Escape(vec![Escape::RestoreCursorPos]),
            Sequence::Escape(vec![Escape::CursorMoveOneLineUp]),
        ])
    );
}

#[test]
fn cursor_movements_take_one_count() {
    assert_eq!(parse_sequences(b"\x1b[3A"), one(vec![Escape::CursorUp(3)]));
    assert_eq!(parse_sequences(b"\x1b[3B"), one(vec![Escape::CursorDown(3)]));
    assert_eq!(parse_sequences(b"\x1b[3C"), one(vec![Escape::CursorRight(3)]));
    assert_eq!(parse_sequences(b"\x1b[3D"), one(vec![Escape::CursorLeft(3)]));
    assert_eq!(parse_sequences(b"\x1b[3E"), one(vec![Escape::CursorToNextLineStart(3)]));
    assert_eq!(parse_sequences(b"\x1b[3F"), one(vec![Escape::CursorToPastLineStart(3)]));
    assert_eq!(parse_sequences(b"\x1b[3G"), one(vec![Escape::CursorToCol(3)]));
    assert_eq!(parse_sequences(b"\x1b[007A"), one(vec![Escape::CursorUp(7)]));
    assert_eq!(parse_sequences(b"\x1b[4294967295A"), one(vec![Escape::CursorUp(4294967295)]));
    assert_eq!(parse_sequences(b"\x1b[?3A"), one(vec![Escape::CursorUp(3)]));
}

#[test]
fn cursor_movement_without_a_number_is_dropped() {
    assert_eq!(parse_sequences(b"\x1b[A"), nothing());
    assert_eq!(parse_sequences(b"\x1b[;A"), nothing());
    assert_eq!(parse_sequences(b"\x1b[1;2A"), nothing());
    assert_eq!(parse_sequences(b"\x1b[4294967296A"), nothing());
    assert_eq!(parse_sequences(b"\x1b[99999999999999999999999999G"), nothing());
}

#[test]
fn position_takes_nothing_or_two_numbers() {
    assert_eq!(parse_sequences(b"\x1b[H"), one(vec![Escape::ZeroCursor]));
    assert_eq!(parse_sequences(b"\x1b[1;1H"), one(vec![Escape::MoveCursorTo(1, 1)]));
    assert_eq!(parse_sequences(b"\x1b[10;20H"), one(vec![Escape::MoveCursorTo(10, 20)]));
    assert_eq!(parse_sequences(b"\x1b[010;0020H"), one(vec![Escape::MoveCursorTo(10, 20)]));
    assert_eq!(parse_sequences(b"\x1b[5H"), nothing());
    assert_eq!(parse_sequences(b"\x1b[;H"), nothing());
    assert_eq!(parse_sequences(b"\x1b[5;H"), nothing());
    assert_eq!(parse_sequences(b"\x1b[;5H"), nothing());
    assert_eq!(parse_sequences(b"\x1b[1;2;3H"), nothing());
    assert_eq!(parse_sequences(b"\x1b[1;4294967296H"), nothing());
}

#[test]
fn erase_sequences() {
    assert_eq!(parse_sequences(b"\x1b[J"), one(vec![Escape::ClearInDisplay]));
    assert_eq!(parse_sequences(b"\x1b[0J"), one(vec![Escape::ClearDisplayUntilScreenEnd]));
    assert_eq!(parse_sequences(b"\x1b[1J"), one(vec![Escape::ClearDisplayUntilScreenStart]));
    assert_eq!(parse_sequences(b"\x1b[2J"), one(vec![Escape::ClearAll]));
    assert_eq!(parse_sequences(b"\x1b[3J"), one(vec![Escape::EraseSavedLine]));
    assert_eq!(parse_sequences(b"\x1b[4J"), nothing());
    assert_eq!(parse_sequences(b"\x1b[02J"), nothing());
    assert_eq!(parse_sequences(b"\x1b[K"), one(vec![Escape::EraseInLine]));
    assert_eq!(parse_sequences(b"\x1b[0K"), one(vec![Escape::EraseFromCursorToEnd]));
    assert_eq!(parse_sequences(b"\x1b[1K"), one(vec![Escape::EraseFromCursorToStart]));
    assert_eq!(parse_sequences(b"\x1b[2K"), one(vec![Escape::EraseLine]));
    assert_eq!(parse_sequences(b"\x1b[3K"), nothing());
    assert_eq!(parse_sequences(b"\x1b[;K"), nothing());
}

#[test]
fn cursor_report_save_and_restore() {
    assert_eq!(parse_sequences(b"\x1b[6n"), one(vec![Escape::RequestCursorPos]));
    assert_eq!(parse_sequences(b"\x1b[5n"), nothing());
    assert_eq!(parse_sequences(b"\x1b[n"), nothing());
    assert_eq!(parse_sequences(b"\x1b[s"), one(vec![Escape::SaveCursorPos]));
    assert_eq!(parse_sequences(b"\x1b[u"), one(vec![Escape::RestoreCursorPos]));
    assert_eq!(parse_sequences(b"\x1b[1s"), nothing());
    assert_eq!(parse_sequences(b"\x1b[;u"), nothing());
    assert_eq!(parse_sequences(b"\x1b[?s"), nothing());
    assert_eq!(parse_sequences(b"\x1b[=u"), nothing());
}

#[test]
fn screen_modes() {
    assert_eq!(parse_sequences(b"\x1b[=0h"), one(vec![Escape::Set40_25MonoScreen]));
    assert_eq!(parse_sequences(b"\x1b[=4h"), one(vec![Escape::Set320_2004ColorScreen]));
    assert_eq!(parse_sequences(b"\x1b[=13h"), one(vec![Escape::Set320_200ColorScreen]));
    assert_eq!(parse_sequences(b"\x1b[=19h"), one(vec![Escape::Set320_200ColorScreen256]));
    assert_eq!(parse_sequences(b"\x1b[=8h"), nothing());
    assert_eq!(parse_sequences(b"\x1b[=12h"), nothing());
    assert_eq!(parse_sequences(b"\x1b[=20h"), nothing());
    assert_eq!(parse_sequences(b"\x1b[=h"), nothing());
    assert_eq!(parse_sequences(b"\x1b[=07h"), nothing());
    assert_eq!(parse_sequences(b"\x1b[=7l"), one(vec![Escape::ResetScreenSet(7)]));
    assert_eq!(parse_sequences(b"\x1b[=255l"), one(vec![Escape::ResetScreenSet(255)]));
    assert_eq!(parse_sequences(b"\x1b[=007l"), one(vec![Escape::ResetScreenSet(7)]));
    assert_eq!(parse_sequences(b"\x1b[=256l"), nothing());
    assert_eq!(parse_sequences(b"\x1b[=l"), nothing());
    assert_eq!(parse_sequences(b"\x1b[=1;2l"), nothing());
}

#[test]
fn private_modes() {
    assert_eq!(parse_sequences(b"\x1b[?25h"), one(vec![Escape::SetCursorVisible]));
    assert_eq!(parse_sequences(b"\x1b[?25l"), one(vec![Escape::SetCursorInvisible]));
    assert_eq!(parse_sequences(b"\x1b[?47h"), one(vec![Escape::SaveScreen]));
    assert_eq!(parse_sequences(b"\x1b[?47l"), one(vec![Escape::RestoreScreen]));
    assert_eq!(parse_sequences(b"\x1b[?1049h"), one(vec![Escape::EnterAltScreen]));
    assert_eq!(parse_sequences(b"\x1b[?1049l"), one(vec![Escape::ExitAltScreen]));
    assert_eq!(parse_sequences(b"\x1b[?1h"), nothing());
    assert_eq!(parse_sequences(b"\x1b[?2004l"), nothing());
    assert_eq!(parse_sequences(b"\x1b[?025h"), nothing());
}

#[test]
fn modes_without_intermediate_are_dropped() {
    assert_eq!(parse_sequences(b"\x1b[25h"), nothing());
    assert_eq!(parse_sequences(b"\x1b[7l"), nothing());
    assert_eq!(parse_sequences(b"\x1b[h"), nothing());
}

#[test]
fn rendition_keeps_the_order_of_its_parameters() {
    assert_eq!(
        parse_sequences(b"\x1b[9;4;1;0m"),
        one(vec![
            Escape::SetStrikethrough,
            Escape::SetUnderline,
            Escape::SetBold,
            Escape::ResetAllModes,
        ])
    );
    assert_eq!(
        parse_sequences(b"\x1b[1;22;2m"),
        one(vec![Escape::SetBold, Escape::ResetBold, Escape::ResetDim, Escape::SetDim])
    );
    assert_eq!(
        parse_sequences(b"\x1b[97;107m"),
        one(vec![Escape::SetForegroundBriWhite, Escape::SetBackgroundBriWhite])
    );
}

#[test]
fn rendition_ignores_what_it_does_not_know() {
    assert_eq!(parse_sequences(b"\x1b[m"), nothing());
    assert_eq!(parse_sequences(b"\x1b[;m"), nothing());
    assert_eq!(parse_sequences(b"\x1b[6m"), nothing());
    assert_eq!(parse_sequences(b"\x1b[01m"), nothing());
    assert_eq!(parse_sequences(b"\x1b[108m"), nothing());
    assert_eq!(parse_sequences(b"\x1b[99999999999999999999m"), nothing());
    assert_eq!(parse_sequences(b"\x1b[1;;2m"), one(vec![Escape::SetBold, Escape::SetDim]));
    assert_eq!(parse_sequences(b"\x1b[;1;6;m"), one(vec![Escape::SetBold]));
    assert_eq!(parse_sequences(b"\x1b[38m"), nothing());
    assert_eq!(parse_sequences(b"\x1b[2m"), one(vec![Escape::SetDim]));
    assert_eq!(parse_sequences(b"\x1b[5m"), one(vec![Escape::SetBlinking]));
}

#[test]
fn indexed_colour_ends_the_rendition() {
    assert_eq!(
        parse_sequences(b"\x1b[38;5;208m"),
        one(vec![Escape::SetForegroundCustomColor(208)])
    );
    assert_eq!(
        parse_sequences(b"\x1b[48;5;0m"),
        one(vec![Escape::SetBackgroundCustomColor(0)])
    );
    assert_eq!(
        parse_sequences(b"\x1b[38;5;009m"),
        one(vec![Escape::SetForegroundCustomColor(9)])
    );
    assert_eq!(
        parse_sequences(b"\x1b[1;38;5;9;4;7m"),
        one(vec![Escape::SetBold, Escape::SetForegroundCustomColor(9)])
    );
    assert_eq!(parse_sequences(b"\x1b[38;5m"), nothing());
    assert_eq!(parse_sequences(b"\x1b[38;5;m"), nothing());
    assert_eq!(parse_sequences(b"\x1b[38;5;256m"), nothing());
    assert_eq!(parse_sequences(b"\x1b[1;48;5;256;4m"), one(vec![Escape::SetBold]));
}

#[test]
fn colour_selector_waits_for_its_kind() {
    assert_eq!(
        parse_sequences(b"\x1b[38;1;5;9m"),
        one(vec![Escape::SetBold, Escape::SetForegroundCustomColor(9)])
    );
    assert_eq!(
        parse_sequences(b"\x1b[38;48;5;7m"),
        one(vec![Escape::SetBackgroundCustomColor(7)])
    );
    assert_eq!(
        parse_sequences(b"\x1b[48;38;5;7m"),
        one(vec![Escape::SetForegroundCustomColor(7)])
    );
}

#[test]
fn truecolor_is_refused_wherever_it_stands() {
    let refused = Err(Error::Unsupported("truecolor"));
    assert_eq!(parse_sequences(b"\x1b[38;2;10;20;30m"), refused);
    assert_eq!(parse_sequences(b"\x1b[48;2;1;2;3m"), refused);
    assert_eq!(parse_sequences(b"\x1b[48;2m"), refused);
    assert_eq!(parse_sequences(b"\x1b[1;38;2;0;0;0m"), refused);
    assert_eq!(parse_sequences(b"\x1b[38;1;2m"), refused);
    assert_eq!(parse_sequences(b"\x1b[1mtext\x1b[0m\x1b[38;2;1;1;1mrest"), refused);
    assert_eq!(
        parse_sequences(b"\x1b[38;5;2m"),
        one(vec![Escape::SetForegroundCustomColor(2)])
    );
}

#[test]
fn sequence_parser_and_free_function_agree() {
    let input = b"a\x1b[1;31mb\x1b[0m\x1b[2J\x1b7c";
    assert_eq!(Sequence::parse_sequence(input), parse_sequences(input));
    assert_eq!(
        parse_sequences(input),
        Ok(vec![
            Sequence::Text(b'a'),
            Sequence::Escape(vec![Escape::SetBold, Escape::SetForegroundRed]),
            Sequence::Text(b'b'),
            Sequence::Escape(vec![Escape::ResetAllModes]),
            Sequence::Escape(vec![Escape::ClearAll]),
            Sequence::Escape(vec![Escape::SaveCursorPos]),
            Sequence::Text(b'c'),
        ])
    );
}

#[test]
fn escape_recognizer_reports_where_it_stopped() {
    let input = b"\x1b[31mA";
    assert_eq!(
        Escape::parse_sequence(input, 1),
        Some((Ok(vec![Escape::SetForegroundRed]), 5))
    );
    assert_eq!(Escape::parse_sequence(b"\x1b7x", 1), Some((Ok(vec![Escape::SaveCursorPos]), 2)));
    assert_eq!(Escape::parse_sequence(b"\x1bqx", 1), Some((Ok(vec![]), 2)));
    assert_eq!(Escape::parse_sequence(b"\x1b", 1), None);
    assert_eq!(Escape::parse_sequence(b"\x1b[12", 1), None);
    assert_eq!(
        Escape::parse_sequence(b"\x1b[38;2;1;2;3m", 1),
        Some((Err(Error::Unsupported("truecolor")), 13))
    );
}

#[test]
fn short_escapes_by_their_byte() {
    assert_eq!(short_escape(b'7'), vec![Escape::SaveCursorPos]);
    assert_eq!(short_escape(b'8'), vec![Escape::RestoreCursorPos]);
    assert_eq!(short_escape(b'M'), vec![Escape::CursorMoveOneLineUp]);
    for b in 0u8..=255 {
        if b != b'7' && b != b'8' && b != b'M' {
            assert_eq!(short_escape(b), vec![], "{}", b);
        }
    }
}
