//! The recognizer of control sequences: from the bytes of one sequence to
//! its effects.

use vstd::prelude::*;
use vstd::slice::slice_subrange;
use crate::ascii::decimal::{numeral_value, read_number, read_numeral, NINE, ZERO};
use crate::ascii::escapes::{
    Escape, Intermediate, EQUALS, FINAL_COLUMN, FINAL_DOWN, FINAL_ERASE_DISPLAY, FINAL_ERASE_LINE,
    FINAL_LEFT, FINAL_NEXT_LINE, FINAL_PAST_LINE, FINAL_POSITION, FINAL_REPORT, FINAL_RESET,
    FINAL_RESTORE, FINAL_RIGHT, FINAL_SAVE, FINAL_SET, FINAL_SGR, FINAL_UP, QUESTION, SEMICOLON,
};
use crate::ascii::grammar::{
    and_then, count, counted, csi_at, csi_effects, erase_display, erase_line, field_end, fields,
    fields_from, indexed_colour, is_param_byte, lemma_and_then_empty, lemma_and_then_twice, mode,
    params_end, position, private_mode, reset_screen, screen_mode, set_screen, sgr, sgr_effects,
    sgr_field, Pending, Recognized,
};
use crate::error::Error;

verus! {

/// The effects that a recognizer found, as a mathematical value.
pub open spec fn found(r: Result<Vec<Escape>, Error>) -> Result<Seq<Escape>, Error> {
    match r {
        Ok(effects) => Ok(effects@),
        Err(e) => Err(e),
    }
}

/// Whether what a recognizer returned is what the grammar recognizes.
pub open spec fn agrees(
    r: Option<(Result<Vec<Escape>, Error>, usize)>,
    expected: Option<Recognized>,
) -> bool {
    match expected {
        Some(e) => r matches Some((effects, next)) && found(effects) == e.effects && next
            == e.next,
        None => r is None,
    }
}

/// Whether `b` may stand among the parameters of a control sequence.
pub fn param_byte(b: u8) -> (r: bool)
    ensures
        r == is_param_byte(b),
{
    (ZERO <= b && b <= NINE) || b == SEMICOLON
}

/// The index of the first byte of `input` at or after `from` that is no
/// parameter byte.
pub fn scan_params(input: &[u8], from: usize) -> (end: usize)
    requires
        from <= input@.len(),
    ensures
        end == params_end(input@, from as int),
        from <= end <= input@.len(),
{
    let mut end: usize = from;
    while end < input.len() && param_byte(input[end])
        invariant
            from <= end <= input@.len(),
            params_end(input@, from as int) == params_end(input@, end as int),
        decreases input@.len() - end,
    {
        end = end + 1;
    }
    end
}

/// The index of the first `;` of `s` at or after `from`.
pub fn scan_field(s: &[u8], from: usize) -> (end: usize)
    requires
        from <= s@.len(),
    ensures
        end == field_end(s@, from as int),
        from <= end <= s@.len(),
{
    let mut end: usize = from;
    while end < s.len() && s[end] != SEMICOLON
        invariant
            from <= end <= s@.len(),
            field_end(s@, from as int) == field_end(s@, end as int),
        decreases s@.len() - end,
    {
        end = end + 1;
    }
    end
}

/// Appends what the rendition code `code` stands for.
pub fn push_sgr(out: &mut Vec<Escape>, code: u32)
    ensures
        final(out)@ == old(out)@ + sgr_effects(code as nat),
{
    match code {
        0 => out.push(Escape::ResetAllModes),
        1 => out.push(Escape::SetBold),
        2 => out.push(Escape::SetDim),
        3 => out.push(Escape::SetItalic),
        4 => out.push(Escape::SetUnderline),
        5 => out.push(Escape::SetBlinking),
        7 => out.push(Escape::SetInverse),
        8 => out.push(Escape::SetHidden),
        9 => out.push(Escape::SetStrikethrough),
        22 => {
            out.push(Escape::ResetBold);
            out.push(Escape::ResetDim);
        },
        23 => out.push(Escape::ResetItalic),
        24 => out.push(Escape::ResetUnderline),
        25 => out.push(Escape::ResetBlinking),
        27 => out.push(Escape::ResetInverse),
        28 => out.push(Escape::ResetHidden),
        29 => out.push(Escape::ResetStrikethrough),
        30 => out.push(Escape::SetForegroundBlack),
        31 => out.push(Escape::SetForegroundRed),
        32 => out.push(Escape::SetForegroundGreen),
        33 => out.push(Escape::SetForegroundYellow),
        34 => out.push(Escape::SetForegroundBlue),
        35 => out.push(Escape::SetForegroundMagenta),
        36 => out.push(Escape::SetForegroundCyan),
        37 => out.push(Escape::SetForegroundWhite),
        39 => out.push(Escape::SetForegroundDefault),
        40 => out.push(Escape::SetBackgroundBlack),
        41 => out.push(Escape::SetBackgroundRed),
        42 => out.push(Escape::SetBackgroundGreen),
        43 => out.push(Escape::SetBackgroundYellow),
        44 => out.push(Escape::SetBackgroundBlue),
        45 => out.push(Escape::SetBackgroundMagenta),
        46 => out.push(Escape::SetBackgroundCyan),
        47 => out.push(Escape::SetBackgroundWhite),
        49 => out.push(Escape::SetBackgroundDefault),
        90 => out.push(Escape::SetForegroundBriBlack),
        91 => out.push(Escape::SetForegroundBriRed),
        92 => out.push(Escape::SetForegroundBriGreen),
        93 => out.push(Escape::SetForegroundBriYellow),
        94 => out.push(Escape::SetForegroundBriBlue),
        95 => out.push(Escape::SetForegroundBriMagenta),
        96 => out.push(Escape::SetForegroundBriCyan),
        97 => out.push(Escape::SetForegroundBriWhite),
        100 => out.push(Escape::SetBackgroundBriBlack),
        101 => out.push(Escape::SetBackgroundBriRed),
        102 => out.push(Escape::SetBackgroundBriGreen),
        103 => out.push(Escape::SetBackgroundBriYellow),
        104 => out.push(Escape::SetBackgroundBriBlue),
        105 => out.push(Escape::SetBackgroundBriMagenta),
        106 => out.push(Escape::SetBackgroundBriCyan),
        107 => out.push(Escape::SetBackgroundBriWhite),
        _ => {},
    }
    proof {
        assert(out@ =~= old(out)@ + sgr_effects(code as nat));
    }
}

/// The screen mode that `= code h` sets.
pub fn screen_mode_of(code: u32) -> (r: Option<Escape>)
    ensures
        r == screen_mode(code as nat),
{
    match code {
        0 => Some(Escape::Set40_25MonoScreen),
        1 => Some(Escape::Set40_25ColorScreen),
        2 => Some(Escape::Set80_25MonoScreen),
        3 => Some(Escape::Set80_25ColorScreen),
        4 => Some(Escape::Set320_2004ColorScreen),
        5 => Some(Escape::Set320_200MonoScreen),
        6 => Some(Escape::Set640_200MonoScreen),
        7 => Some(Escape::EnableLineWrap),
        13 => Some(Escape::Set320_200ColorScreen),
        14 => Some(Escape::Set640_200ColorScreen),
        15 => Some(Escape::Set640_350MonoScreen),
        16 => Some(Escape::Set640_350ColorScreen),
        17 => Some(Escape::Set640_480MonoScreen),
        18 => Some(Escape::Set640_480ColorScreen),
        19 => Some(Escape::Set320_200ColorScreen256),
        _ => None,
    }
}

/// The effects of the fields of a rendition sequence, from left to right.
pub fn select_rendition(params: &[u8]) -> (r: Result<Vec<Escape>, Error>)
    ensures
        found(r) == sgr(fields(params@), Pending::Nothing),
{
    let mut out: Vec<Escape> = Vec::new();
    let mut pending: Pending = Pending::Nothing;
    let mut from: usize = 0;
    proof {
        assert(sgr(fields(params@), Pending::Nothing) == and_then(
            out@,
            sgr(fields_from(params@, 0), pending),
        )) by {
            lemma_and_then_empty(sgr(fields(params@), Pending::Nothing));
        }
    }
    loop
        invariant
            from <= params@.len(),
            sgr(fields(params@), Pending::Nothing) == and_then(
                out@,
                sgr(fields_from(params@, from as int), pending),
            ),
        decreases params@.len() - from,
    {
        let end: usize = scan_field(params, from);
        let code: Option<u32> = read_numeral(params, from, end);
        let awaited: bool = match pending {
            Pending::Nothing => false,
            _ => true,
        };
        let ghost field = params@.subrange(from as int, end as int);
        let ghost rest = fields_from(params@, from as int).drop_first();
        let ghost before = out@;
        proof {
            assert(fields_from(params@, from as int)[0] == field);
            if end < params@.len() {
                assert(rest =~= fields_from(params@, end as int + 1));
            } else {
                assert(rest =~= Seq::<Seq<u8>>::empty());
            }
        }
        match code {
            Some(5) if awaited => {
                if end < params.len() {
                    let stop: usize = scan_field(params, end + 1);
                    proof {
                        assert(rest[0] == params@.subrange(end as int + 1, stop as int));
                    }
                    match read_number(params, end + 1, stop, 255) {
                        Some(id) => match pending {
                            Pending::Background => out.push(
                                Escape::SetBackgroundCustomColor(id as u8),
                            ),
                            _ => out.push(Escape::SetForegroundCustomColor(id as u8)),
                        },
                        None => {},
                    }
                }
                proof {
                    assert(out@ =~= before + indexed_colour(pending, rest));
                }
                return Ok(out);
            },
            Some(2) if awaited => {
                return Err(Error::Unsupported("truecolor"));
            },
            Some(38) => {
                pending = Pending::Foreground;
            },
            Some(48) => {
                pending = Pending::Background;
            },
            Some(other) => {
                push_sgr(&mut out, other);
                proof {
                    lemma_and_then_twice(before, sgr_field(field), sgr(rest, pending));
                }
            },
            None => {
                proof {
                    assert(sgr_field(field) =~= Seq::<Escape>::empty());
                    lemma_and_then_twice(before, sgr_field(field), sgr(rest, pending));
                }
            },
        }
        if end >= params.len() {
            proof {
                assert(sgr(rest, pending) == Ok::<Seq<Escape>, Error>(Seq::empty()));
                assert(out@ + Seq::<Escape>::empty() =~= out@);
            }
            return Ok(out);
        }
        from = end + 1;
    }
}

/// The count that a cursor movement carries, if `params` is one number.
fn read_count(params: &[u8]) -> (r: Option<u32>)
    ensures
        r == count(params@),
{
    proof {
        assert(params@.subrange(0, params@.len() as int) =~= params@);
    }
    read_number(params, 0, params.len(), u32::MAX)
}

/// The code of which `params` is the shortest numeral, if it is one that
/// fits 32 bits.
fn read_code(params: &[u8]) -> (r: Option<u32>)
    ensures
        match numeral_value(params@) {
            Some(n) => if n <= u32::MAX {
                r == Some(n as u32)
            } else {
                r is None
            },
            None => r is None,
        },
{
    proof {
        assert(params@.subrange(0, params@.len() as int) =~= params@);
    }
    read_numeral(params, 0, params.len())
}

/// The effect of a cursor movement with one count.
fn move_cursor(params: &[u8], last: u8) -> (r: Vec<Escape>)
    requires
        FINAL_UP <= last <= FINAL_COLUMN,
    ensures
        r@ == counted(params@, last),
{
    let mut out: Vec<Escape> = Vec::new();
    if let Some(n) = read_count(params) {
        if last == FINAL_UP {
            out.push(Escape::CursorUp(n));
        } else if last == FINAL_DOWN {
            out.push(Escape::CursorDown(n));
        } else if last == FINAL_RIGHT {
            out.push(Escape::CursorRight(n));
        } else if last == FINAL_LEFT {
            out.push(Escape::CursorLeft(n));
        } else if last == FINAL_NEXT_LINE {
            out.push(Escape::CursorToNextLineStart(n));
        } else if last == FINAL_PAST_LINE {
            out.push(Escape::CursorToPastLineStart(n));
        } else {
            out.push(Escape::CursorToCol(n));
        }
    }
    proof {
        assert(out@ =~= counted(params@, last));
    }
    out
}

/// The effect of `ESC [ params H`.
fn move_to(params: &[u8]) -> (r: Vec<Escape>)
    ensures
        r@ == position(params@),
{
    let mut out: Vec<Escape> = Vec::new();
    if params.len() == 0 {
        out.push(Escape::ZeroCursor);
    } else {
        let at: usize = scan_field(params, 0);
        if at < params.len() {
            let line: Option<u32> = read_number(params, 0, at, u32::MAX);
            let col: Option<u32> = read_number(params, at + 1, params.len(), u32::MAX);
            match (line, col) {
                (Some(line), Some(col)) => out.push(Escape::MoveCursorTo(line, col)),
                _ => {},
            }
        }
    }
    proof {
        assert(out@ =~= position(params@));
    }
    out
}

/// The effect of `ESC [ params J`.
fn clear_display(params: &[u8]) -> (r: Vec<Escape>)
    ensures
        r@ == erase_display(params@),
{
    let mut out: Vec<Escape> = Vec::new();
    if params.len() == 0 {
        out.push(Escape::ClearInDisplay);
    } else {
        match read_code(params) {
            Some(0) => out.push(Escape::ClearDisplayUntilScreenEnd),
            Some(1) => out.push(Escape::ClearDisplayUntilScreenStart),
            Some(2) => out.push(Escape::ClearAll),
            Some(3) => out.push(Escape::EraseSavedLine),
            _ => {},
        }
    }
    proof {
        assert(out@ =~= erase_display(params@));
    }
    out
}

/// The effect of `ESC [ params K`.
fn clear_line(params: &[u8]) -> (r: Vec<Escape>)
    ensures
        r@ == erase_line(params@),
{
    let mut out: Vec<Escape> = Vec::new();
    if params.len() == 0 {
        out.push(Escape::EraseInLine);
    } else {
        match read_code(params) {
            Some(0) => out.push(Escape::EraseFromCursorToEnd),
            Some(1) => out.push(Escape::EraseFromCursorToStart),
            Some(2) => out.push(Escape::EraseLine),
            _ => {},
        }
    }
    proof {
        assert(out@ =~= erase_line(params@));
    }
    out
}

/// The effect of setting (`set`) or resetting a mode.
fn switch_mode(intermediate: Intermediate, params: &[u8], set: bool) -> (r: Vec<Escape>)
    ensures
        r@ == mode(intermediate, params@, set),
{
    let mut out: Vec<Escape> = Vec::new();
    match intermediate {
        Intermediate::Plain => {},
        Intermediate::Screen => {
            if set {
                if let Some(code) = read_code(params) {
                    if let Some(e) = screen_mode_of(code) {
                        out.push(e);
                    }
                }
                proof {
                    assert(out@ =~= set_screen(params@));
                }
            } else {
                proof {
                    assert(params@.subrange(0, params@.len() as int) =~= params@);
                }
                if let Some(n) = read_number(params, 0, params.len(), 255) {
                    out.push(Escape::ResetScreenSet(n as u8));
                }
                proof {
                    assert(out@ =~= reset_screen(params@));
                }
            }
        },
        Intermediate::Private => {
            match read_code(params) {
                Some(25) => out.push(
                    if set {
                        Escape::SetCursorVisible
                    } else {
                        Escape::SetCursorInvisible
                    },
                ),
                Some(47) => out.push(
                    if set {
                        Escape::SaveScreen
                    } else {
                        Escape::RestoreScreen
                    },
                ),
                Some(1049) => out.push(
                    if set {
                        Escape::EnterAltScreen
                    } else {
                        Escape::ExitAltScreen
                    },
                ),
                _ => {},
            }
            proof {
                assert(out@ =~= private_mode(params@, set));
            }
        },
    }
    proof {
        assert(out@ =~= mode(intermediate, params@, set));
    }
    out
}

/// The effects of the control sequence `ESC [ intermediate params last`.
pub fn control_effects(intermediate: Intermediate, params: &[u8], last: u8) -> (r: Result<
    Vec<Escape>,
    Error,
>)
    ensures
        found(r) == csi_effects(intermediate, params@, last),
{
    let plain: bool = match intermediate {
        Intermediate::Plain => true,
        _ => false,
    };
    if last == FINAL_SGR {
        if params.len() == 0 {
            Ok(Vec::new())
        } else {
            select_rendition(params)
        }
    } else if FINAL_UP <= last && last <= FINAL_COLUMN {
        Ok(move_cursor(params, last))
    } else if last == FINAL_POSITION {
        Ok(move_to(params))
    } else if last == FINAL_ERASE_DISPLAY {
        Ok(clear_display(params))
    } else if last == FINAL_ERASE_LINE {
        Ok(clear_line(params))
    } else if last == FINAL_REPORT {
        let mut out: Vec<Escape> = Vec::new();
        match read_code(params) {
            Some(6) => out.push(Escape::RequestCursorPos),
            _ => {},
        }
        proof {
            assert(found(Ok(out)) =~= csi_effects(intermediate, params@, last));
        }
        Ok(out)
    } else if last == FINAL_SAVE {
        let mut out: Vec<Escape> = Vec::new();
        if params.len() == 0 && plain {
            out.push(Escape::SaveCursorPos);
        }
        proof {
            assert(found(Ok(out)) =~= csi_effects(intermediate, params@, last));
        }
        Ok(out)
    } else if last == FINAL_RESTORE {
        let mut out: Vec<Escape> = Vec::new();
        if params.len() == 0 && plain {
            out.push(Escape::RestoreCursorPos);
        }
        proof {
            assert(found(Ok(out)) =~= csi_effects(intermediate, params@, last));
        }
        Ok(out)
    } else if last == FINAL_SET {
        Ok(switch_mode(intermediate, params, true))
    } else if last == FINAL_RESET {
        Ok(switch_mode(intermediate, params, false))
    } else {
        Ok(Vec::new())
    }
}

/// Recognizes the control sequence whose first byte after `ESC [` stands at
/// `from`: gives its effects and the index of the byte after it, or nothing
/// where `input` ends before the sequence does.
pub fn parse_long_seq(input: &[u8], from: usize) -> (r: Option<
    (Result<Vec<Escape>, Error>, usize),
>)
    requires
        from <= input@.len(),
    ensures
        agrees(r, csi_at(input@, from as int)),
{
    let mut intermediate: Intermediate = Intermediate::Plain;
    let mut start: usize = from;
    if from < input.len() {
        if input[from] == EQUALS {
            intermediate = Intermediate::Screen;
            start = from + 1;
        } else if input[from] == QUESTION {
            intermediate = Intermediate::Private;
            start = from + 1;
        }
    }
    let end: usize = scan_params(input, start);
    if end < input.len() {
        let effects = control_effects(intermediate, slice_subrange(input, start, end), input[end]);
        Some((effects, end + 1))
    } else {
        None
    }
}

} // verus!
