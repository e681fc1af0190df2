//! The grammar of the recognizer: what a byte stream means.

use vstd::prelude::*;
use crate::ascii::decimal::{is_digit, number, numeral_value};
use crate::ascii::escapes::{
    Escape, Intermediate, SequenceView, BRACKET, EQUALS, ESC, FINAL_COLUMN, FINAL_DOWN,
    FINAL_ERASE_DISPLAY, FINAL_ERASE_LINE, FINAL_LEFT, FINAL_NEXT_LINE, FINAL_PAST_LINE,
    FINAL_POSITION, FINAL_REPORT, FINAL_RESET, FINAL_RESTORE, FINAL_RIGHT, FINAL_SAVE, FINAL_SET,
    FINAL_SGR, FINAL_UP, QUESTION, SEMICOLON,
};
use crate::error::{truecolor, Error};

verus! {

/// Whether `b` may stand among the parameters of a control sequence.
pub open spec fn is_param_byte(b: u8) -> bool {
    is_digit(b) || b == SEMICOLON
}

/// The index of the first byte at or after `from` that is no parameter
/// byte, or the length of `input` where there is none.
pub open spec fn params_end(input: Seq<u8>, from: int) -> int
    decreases input.len() - from,
{
    if 0 <= from < input.len() && is_param_byte(input[from]) {
        params_end(input, from + 1)
    } else {
        from
    }
}

/// The index of the first `;` at or after `from`, or the length of `s`
/// where there is none.
pub open spec fn field_end(s: Seq<u8>, from: int) -> int
    decreases s.len() - from,
{
    if 0 <= from < s.len() && s[from] != SEMICOLON {
        field_end(s, from + 1)
    } else {
        from
    }
}

/// The fields of `s` from `from` on: what stands between one `;` and the
/// next. A string without `;` is one field, and so is the empty string.
pub open spec fn fields_from(s: Seq<u8>, from: int) -> Seq<Seq<u8>>
    decreases s.len() - from,
    via fields_from_terminates
{
    let end = field_end(s, from);
    if 0 <= from && end < s.len() {
        seq![s.subrange(from, end)] + fields_from(s, end + 1)
    } else {
        seq![s.subrange(from, s.len() as int)]
    }
}

#[via_fn]
proof fn fields_from_terminates(s: Seq<u8>, from: int) {
    lemma_field_end(s, from);
}

/// `field_end` stays within the string, passes no `;` and stops at one.
pub proof fn lemma_field_end(s: Seq<u8>, from: int)
    ensures
        from <= field_end(s, from),
        0 <= from <= s.len() ==> field_end(s, from) <= s.len(),
        forall|i: int| from <= i < field_end(s, from) ==> #[trigger] s[i] != SEMICOLON,
        0 <= from && field_end(s, from) < s.len() ==> s[field_end(s, from)] == SEMICOLON,
    decreases s.len() - from,
{
    if 0 <= from < s.len() && s[from] != SEMICOLON {
        lemma_field_end(s, from + 1);
    }
}

/// `params_end` stays within the input, passes parameter bytes only and
/// stops at a byte that is none.
pub proof fn lemma_params_end(input: Seq<u8>, from: int)
    ensures
        from <= params_end(input, from),
        0 <= from <= input.len() ==> params_end(input, from) <= input.len(),
        forall|i: int| from <= i < params_end(input, from) ==> is_param_byte(#[trigger] input[i]),
        0 <= from && params_end(input, from) < input.len() ==> !is_param_byte(
            input[params_end(input, from)],
        ),
    decreases input.len() - from,
{
    if 0 <= from < input.len() && is_param_byte(input[from]) {
        lemma_params_end(input, from + 1);
    }
}

/// The fields of `s`, parted at each `;`.
pub open spec fn fields(s: Seq<u8>) -> Seq<Seq<u8>> {
    fields_from(s, 0)
}

/// Whether `38` or `48` has been read and the kind of colour is awaited.
#[derive(Debug, Clone, Copy, PartialEq, Eq)]
pub enum Pending {
    /// No extended colour is being selected.
    Nothing,
    /// `38` was read: a foreground colour.
    Foreground,
    /// `48` was read: a background colour.
    Background,
}

/// What a plain rendition code stands for: nothing for a code outside the
/// table, two effects for `22`.
pub open spec fn sgr_effects(code: nat) -> Seq<Escape> {
    if code == 0 {
        seq![Escape::ResetAllModes]
    } else if code == 1 {
        seq![Escape::SetBold]
    } else if code == 2 {
        seq![Escape::SetDim]
    } else if code == 3 {
        seq![Escape::SetItalic]
    } else if code == 4 {
        seq![Escape::SetUnderline]
    } else if code == 5 {
        seq![Escape::SetBlinking]
    } else if code == 7 {
        seq![Escape::SetInverse]
    } else if code == 8 {
        seq![Escape::SetHidden]
    } else if code == 9 {
        seq![Escape::SetStrikethrough]
    } else if code == 22 {
        seq![Escape::ResetBold, Escape::ResetDim]
    } else if code == 23 {
        seq![Escape::ResetItalic]
    } else if code == 24 {
        seq![Escape::ResetUnderline]
    } else if code == 25 {
        seq![Escape::ResetBlinking]
    } else if code == 27 {
        seq![Escape::ResetInverse]
    } else if code == 28 {
        seq![Escape::ResetHidden]
    } else if code == 29 {
        seq![Escape::ResetStrikethrough]
    } else if code == 30 {
        seq![Escape::SetForegroundBlack]
    } else if code == 31 {
        seq![Escape::SetForegroundRed]
    } else if code == 32 {
        seq![Escape::SetForegroundGreen]
    } else if code == 33 {
        seq![Escape::SetForegroundYellow]
    } else if code == 34 {
        seq![Escape::SetForegroundBlue]
    } else if code == 35 {
        seq![Escape::SetForegroundMagenta]
    } else if code == 36 {
        seq![Escape::SetForegroundCyan]
    } else if code == 37 {
        seq![Escape::SetForegroundWhite]
    } else if code == 39 {
        seq![Escape::SetForegroundDefault]
    } else if code == 40 {
        seq![Escape::SetBackgroundBlack]
    } else if code == 41 {
        seq![Escape::SetBackgroundRed]
    } else if code == 42 {
        seq![Escape::SetBackgroundGreen]
    } else if code == 43 {
        seq![Escape::SetBackgroundYellow]
    } else if code == 44 {
        seq![Escape::SetBackgroundBlue]
    } else if code == 45 {
        seq![Escape::SetBackgroundMagenta]
    } else if code == 46 {
        seq![Escape::SetBackgroundCyan]
    } else if code == 47 {
        seq![Escape::SetBackgroundWhite]
    } else if code == 49 {
        seq![Escape::SetBackgroundDefault]
    } else if code == 90 {
        seq![Escape::SetForegroundBriBlack]
    } else if code == 91 {
        seq![Escape::SetForegroundBriRed]
    } else if code == 92 {
        seq![Escape::SetForegroundBriGreen]
    } else if code == 93 {
        seq![Escape::SetForegroundBriYellow]
    } else if code == 94 {
        seq![Escape::SetForegroundBriBlue]
    } else if code == 95 {
        seq![Escape::SetForegroundBriMagenta]
    } else if code == 96 {
        seq![Escape::SetForegroundBriCyan]
    } else if code == 97 {
        seq![Escape::SetForegroundBriWhite]
    } else if code == 100 {
        seq![Escape::SetBackgroundBriBlack]
    } else if code == 101 {
        seq![Escape::SetBackgroundBriRed]
    } else if code == 102 {
        seq![Escape::SetBackgroundBriGreen]
    } else if code == 103 {
        seq![Escape::SetBackgroundBriYellow]
    } else if code == 104 {
        seq![Escape::SetBackgroundBriBlue]
    } else if code == 105 {
        seq![Escape::SetBackgroundBriMagenta]
    } else if code == 106 {
        seq![Escape::SetBackgroundBriCyan]
    } else if code == 107 {
        seq![Escape::SetBackgroundBriWhite]
    } else {
        Seq::empty()
    }
}

/// The screen mode that `= code h` sets.
pub open spec fn screen_mode(code: nat) -> Option<Escape> {
    if code == 0 {
        Some(Escape::Set40_25MonoScreen)
    } else if code == 1 {
        Some(Escape::Set40_25ColorScreen)
    } else if code == 2 {
        Some(Escape::Set80_25MonoScreen)
    } else if code == 3 {
        Some(Escape::Set80_25ColorScreen)
    } else if code == 4 {
        Some(Escape::Set320_2004ColorScreen)
    } else if code == 5 {
        Some(Escape::Set320_200MonoScreen)
    } else if code == 6 {
        Some(Escape::Set640_200MonoScreen)
    } else if code == 7 {
        Some(Escape::EnableLineWrap)
    } else if code == 13 {
        Some(Escape::Set320_200ColorScreen)
    } else if code == 14 {
        Some(Escape::Set640_200ColorScreen)
    } else if code == 15 {
        Some(Escape::Set640_350MonoScreen)
    } else if code == 16 {
        Some(Escape::Set640_350ColorScreen)
    } else if code == 17 {
        Some(Escape::Set640_480MonoScreen)
    } else if code == 18 {
        Some(Escape::Set640_480ColorScreen)
    } else if code == 19 {
        Some(Escape::Set320_200ColorScreen256)
    } else {
        None
    }
}

/// The effects of one field of a rendition sequence: the field must be the
/// shortest numeral of a code of the table.
pub open spec fn sgr_field(field: Seq<u8>) -> Seq<Escape> {
    match numeral_value(field) {
        Some(code) => sgr_effects(code),
        None => Seq::empty(),
    }
}

/// The colour that the fields after `38;5` or `48;5` select: the first of
/// them, read as a number up to 255. Nothing where it is missing or no such
/// number.
pub open spec fn indexed_colour(pending: Pending, rest: Seq<Seq<u8>>) -> Seq<Escape> {
    if rest.len() > 0 {
        match number(rest[0], 255) {
            Some(id) => match pending {
                Pending::Background => seq![Escape::SetBackgroundCustomColor(id as u8)],
                _ => seq![Escape::SetForegroundCustomColor(id as u8)],
            },
            None => Seq::empty(),
        }
    } else {
        Seq::empty()
    }
}

/// `head` followed by what `tail` holds, if it holds anything.
pub open spec fn and_then<T>(head: Seq<T>, tail: Result<Seq<T>, Error>) -> Result<Seq<T>, Error> {
    match tail {
        Ok(items) => Ok(head + items),
        Err(e) => Err(e),
    }
}

/// Putting nothing before a result leaves it as it is.
pub proof fn lemma_and_then_empty<T>(tail: Result<Seq<T>, Error>)
    ensures
        and_then(Seq::<T>::empty(), tail) == tail,
{
    if let Ok(items) = tail {
        assert(Seq::<T>::empty() + items =~= items);
    }
}

/// Putting two lists before a result, one after the other, is putting
/// their concatenation before it.
pub proof fn lemma_and_then_twice<T>(first: Seq<T>, second: Seq<T>, tail: Result<Seq<T>, Error>)
    ensures
        and_then(first, and_then(second, tail)) == and_then(first + second, tail),
{
    if let Ok(items) = tail {
        assert(first + (second + items) =~= (first + second) + items);
    }
}

/// The effects of the fields of a rendition sequence, from left to right.
/// After `38` or `48`, a field `5` takes the next field as a colour index
/// and ends the sequence; a field `2` asks for a 24-bit colour, which is
/// refused.
pub open spec fn sgr(fields: Seq<Seq<u8>>, pending: Pending) -> Result<Seq<Escape>, Error>
    decreases fields.len(),
{
    if fields.len() == 0 {
        Ok(Seq::empty())
    } else {
        let code = numeral_value(fields[0]);
        let rest = fields.drop_first();
        if pending != Pending::Nothing && code == Some(5nat) {
            Ok(indexed_colour(pending, rest))
        } else if pending != Pending::Nothing && code == Some(2nat) {
            Err(truecolor())
        } else if code == Some(38nat) {
            sgr(rest, Pending::Foreground)
        } else if code == Some(48nat) {
            sgr(rest, Pending::Background)
        } else {
            and_then(sgr_field(fields[0]), sgr(rest, pending))
        }
    }
}

/// The count that a cursor movement carries.
pub open spec fn count(params: Seq<u8>) -> Option<u32> {
    match number(params, u32::MAX as nat) {
        Some(n) => Some(n as u32),
        None => None,
    }
}

/// The effect of `ESC [ params H`: home for no parameters, a position for
/// two numbers with one `;` between them.
pub open spec fn position(params: Seq<u8>) -> Seq<Escape> {
    let at = field_end(params, 0);
    if params.len() == 0 {
        seq![Escape::ZeroCursor]
    } else if at < params.len() {
        match (count(params.subrange(0, at)), count(params.subrange(at + 1, params.len() as int))) {
            (Some(line), Some(col)) => seq![Escape::MoveCursorTo(line, col)],
            _ => Seq::empty(),
        }
    } else {
        Seq::empty()
    }
}

/// The effect of `ESC [ params J`.
pub open spec fn erase_display(params: Seq<u8>) -> Seq<Escape> {
    let code = numeral_value(params);
    if params.len() == 0 {
        seq![Escape::ClearInDisplay]
    } else if code == Some(0nat) {
        seq![Escape::ClearDisplayUntilScreenEnd]
    } else if code == Some(1nat) {
        seq![Escape::ClearDisplayUntilScreenStart]
    } else if code == Some(2nat) {
        seq![Escape::ClearAll]
    } else if code == Some(3nat) {
        seq![Escape::EraseSavedLine]
    } else {
        Seq::empty()
    }
}

/// The effect of `ESC [ params K`.
pub open spec fn erase_line(params: Seq<u8>) -> Seq<Escape> {
    let code = numeral_value(params);
    if params.len() == 0 {
        seq![Escape::EraseInLine]
    } else if code == Some(0nat) {
        seq![Escape::EraseFromCursorToEnd]
    } else if code == Some(1nat) {
        seq![Escape::EraseFromCursorToStart]
    } else if code == Some(2nat) {
        seq![Escape::EraseLine]
    } else {
        Seq::empty()
    }
}

/// The effect of `ESC [ = params h`: a screen mode of the table.
pub open spec fn set_screen(params: Seq<u8>) -> Seq<Escape> {
    match numeral_value(params) {
        Some(code) => match screen_mode(code) {
            Some(e) => seq![e],
            None => Seq::empty(),
        },
        None => Seq::empty(),
    }
}

/// The effect of `ESC [ = params l`: the parameters are read as a number
/// up to 255.
pub open spec fn reset_screen(params: Seq<u8>) -> Seq<Escape> {
    match number(params, 255) {
        Some(n) => seq![Escape::ResetScreenSet(n as u8)],
        None => Seq::empty(),
    }
}

/// The effect of `ESC [ ? params h` (`set`) or `ESC [ ? params l`.
pub open spec fn private_mode(params: Seq<u8>, set: bool) -> Seq<Escape> {
    let code = numeral_value(params);
    if code == Some(25nat) {
        seq![
            if set {
                Escape::SetCursorVisible
            } else {
                Escape::SetCursorInvisible
            },
        ]
    } else if code == Some(47nat) {
        seq![
            if set {
                Escape::SaveScreen
            } else {
                Escape::RestoreScreen
            },
        ]
    } else if code == Some(1049nat) {
        seq![
            if set {
                Escape::EnterAltScreen
            } else {
                Escape::ExitAltScreen
            },
        ]
    } else {
        Seq::empty()
    }
}

/// The effect of setting (`h`) or resetting (`l`) a mode: none without an
/// intermediate.
pub open spec fn mode(intermediate: Intermediate, params: Seq<u8>, set: bool) -> Seq<Escape> {
    match intermediate {
        Intermediate::Plain => Seq::empty(),
        Intermediate::Screen => if set {
            set_screen(params)
        } else {
            reset_screen(params)
        },
        Intermediate::Private => private_mode(params, set),
    }
}

/// The effect of a cursor movement with one count.
pub open spec fn counted(params: Seq<u8>, last: u8) -> Seq<Escape> {
    match count(params) {
        Some(n) => if last == FINAL_UP {
            seq![Escape::CursorUp(n)]
        } else if last == FINAL_DOWN {
            seq![Escape::CursorDown(n)]
        } else if last == FINAL_RIGHT {
            seq![Escape::CursorRight(n)]
        } else if last == FINAL_LEFT {
            seq![Escape::CursorLeft(n)]
        } else if last == FINAL_NEXT_LINE {
            seq![Escape::CursorToNextLineStart(n)]
        } else if last == FINAL_PAST_LINE {
            seq![Escape::CursorToPastLineStart(n)]
        } else if last == FINAL_COLUMN {
            seq![Escape::CursorToCol(n)]
        } else {
            Seq::empty()
        },
        None => Seq::empty(),
    }
}

/// Whether `last` ends a cursor movement with one count.
pub open spec fn is_counted_final(last: u8) -> bool {
    FINAL_UP <= last <= FINAL_COLUMN
}

/// Whether a control sequence that ends in `last` is recognized at all.
pub open spec fn is_recognized_final(last: u8) -> bool {
    is_counted_final(last) || last == FINAL_POSITION || last == FINAL_ERASE_DISPLAY || last
        == FINAL_ERASE_LINE || last == FINAL_SGR || last == FINAL_REPORT || last == FINAL_SET
        || last == FINAL_RESET || last == FINAL_SAVE || last == FINAL_RESTORE
}

/// The effects of the control sequence `ESC [ intermediate params last`.
/// An intermediate bears on `h`, `l`, `s` and `u` only. A sequence that is
/// not recognized, or whose parameters are malformed, has no effect; a
/// 24-bit colour is an error.
pub open spec fn csi_effects(intermediate: Intermediate, params: Seq<u8>, last: u8) -> Result<
    Seq<Escape>,
    Error,
> {
    if last == FINAL_SGR {
        if params.len() == 0 {
            Ok(Seq::empty())
        } else {
            sgr(fields(params), Pending::Nothing)
        }
    } else if is_counted_final(last) {
        Ok(counted(params, last))
    } else if last == FINAL_POSITION {
        Ok(position(params))
    } else if last == FINAL_ERASE_DISPLAY {
        Ok(erase_display(params))
    } else if last == FINAL_ERASE_LINE {
        Ok(erase_line(params))
    } else if last == FINAL_REPORT {
        Ok(
            if numeral_value(params) == Some(6nat) {
                seq![Escape::RequestCursorPos]
            } else {
                Seq::empty()
            },
        )
    } else if last == FINAL_SAVE {
        Ok(
            if params.len() == 0 && intermediate == Intermediate::Plain {
                seq![Escape::SaveCursorPos]
            } else {
                Seq::empty()
            },
        )
    } else if last == FINAL_RESTORE {
        Ok(
            if params.len() == 0 && intermediate == Intermediate::Plain {
                seq![Escape::RestoreCursorPos]
            } else {
                Seq::empty()
            },
        )
    } else if last == FINAL_SET {
        Ok(mode(intermediate, params, true))
    } else if last == FINAL_RESET {
        Ok(mode(intermediate, params, false))
    } else {
        Ok(Seq::empty())
    }
}

/// The effect of `ESC b` where `b` is not `[`.
pub open spec fn short_effects(b: u8) -> Seq<Escape> {
    if b == '7' as u8 {
        seq![Escape::SaveCursorPos]
    } else if b == '8' as u8 {
        seq![Escape::RestoreCursorPos]
    } else if b == 'M' as u8 {
        seq![Escape::CursorMoveOneLineUp]
    } else {
        Seq::empty()
    }
}

/// A recognized escape: its effects, and the index of the byte after it.
pub struct Recognized {
    /// The effects, or the error that the sequence raises.
    pub effects: Result<Seq<Escape>, Error>,
    /// Where the next item starts.
    pub next: int,
}

/// The intermediate that the byte at `from`, the first after `ESC [`, sets.
pub open spec fn intermediate_at(input: Seq<u8>, from: int) -> Intermediate {
    if 0 <= from < input.len() && input[from] == EQUALS {
        Intermediate::Screen
    } else if 0 <= from < input.len() && input[from] == QUESTION {
        Intermediate::Private
    } else {
        Intermediate::Plain
    }
}

/// The control sequence whose first byte after `ESC [` stands at `from`:
/// an intermediate if there is one, the parameter bytes, and the first byte
/// that is none, which ends it. Nothing where the input ends before that.
pub open spec fn csi_at(input: Seq<u8>, from: int) -> Option<Recognized> {
    let intermediate = intermediate_at(input, from);
    let start = if intermediate == Intermediate::Plain {
        from
    } else {
        from + 1
    };
    let end = params_end(input, start);
    if 0 <= end < input.len() {
        Some(
            Recognized {
                effects: csi_effects(intermediate, input.subrange(start, end), input[end]),
                next: end + 1,
            },
        )
    } else {
        None
    }
}

/// The escape whose first byte after `ESC` stands at `from`. Nothing where
/// the input ends before the escape does.
pub open spec fn escape_at(input: Seq<u8>, from: int) -> Option<Recognized> {
    if 0 <= from < input.len() {
        if input[from] == BRACKET {
            csi_at(input, from + 1)
        } else {
            Some(Recognized { effects: Ok(short_effects(input[from])), next: from + 1 })
        }
    } else {
        None
    }
}

/// The item that a list of effects makes: none where the list is empty.
pub open spec fn item_of(effects: Seq<Escape>) -> Seq<SequenceView> {
    if effects.len() > 0 {
        seq![SequenceView::Escape(effects)]
    } else {
        Seq::empty()
    }
}

/// The items of `input` from `from` on. A byte other than `ESC` is text.
/// An escape gives one item if it has an effect; one that the end of the
/// input cuts short gives none. The first 24-bit colour is the error of
/// the whole.
pub open spec fn parse_from(input: Seq<u8>, from: int) -> Result<Seq<SequenceView>, Error>
    decreases input.len() - from,
    via parse_from_terminates
{
    if 0 <= from < input.len() {
        if input[from] != ESC {
            and_then(seq![SequenceView::Text(input[from])], parse_from(input, from + 1))
        } else {
            match escape_at(input, from + 1) {
                Some(found) => match found.effects {
                    Ok(effects) => and_then(item_of(effects), parse_from(input, found.next)),
                    Err(e) => Err(e),
                },
                None => Ok(Seq::empty()),
            }
        }
    } else {
        Ok(Seq::empty())
    }
}

#[via_fn]
proof fn parse_from_terminates(input: Seq<u8>, from: int) {
    lemma_escape_at(input, from + 1);
}

/// A recognized escape ends after where it starts and within the input.
pub proof fn lemma_escape_at(input: Seq<u8>, from: int)
    ensures
        escape_at(input, from) matches Some(found) ==> from < found.next <= input.len(),
{
    if 0 <= from < input.len() && input[from] == BRACKET {
        let intermediate = intermediate_at(input, from + 1);
        let start = if intermediate == Intermediate::Plain {
            from + 1
        } else {
            from + 2
        };
        lemma_params_end(input, start);
    }
}

/// What the bytes `s` make as one item of a stream: nothing while they are
/// the unfinished beginning of an escape; else the item, none for an escape
/// without effect, or the error that the escape raises.
pub open spec fn unit(s: Seq<u8>) -> Option<Result<Seq<SequenceView>, Error>> {
    if s.len() == 0 {
        None
    } else if s[0] != ESC {
        Some(Ok(seq![SequenceView::Text(s[0])]))
    } else {
        match escape_at(s, 1) {
            Some(found) => Some(
                match found.effects {
                    Ok(effects) => Ok(item_of(effects)),
                    Err(e) => Err(e),
                },
            ),
            None => None,
        }
    }
}

/// The items that come out where the bytes of `input` from `at` on are
/// taken one at a time, after the bytes `pending` of an unfinished item. As
/// in a parse of the whole, the first error ends it.
pub open spec fn stream_from(pending: Seq<u8>, input: Seq<u8>, at: int) -> Result<
    Seq<SequenceView>,
    Error,
>
    decreases input.len() - at,
{
    if 0 <= at < input.len() {
        let taken = pending.push(input[at]);
        match unit(taken) {
            None => stream_from(taken, input, at + 1),
            Some(Ok(items)) => and_then(items, stream_from(Seq::empty(), input, at + 1)),
            Some(Err(e)) => Err(e),
        }
    } else {
        Ok(Seq::empty())
    }
}

/// The items of the whole of `input`.
pub open spec fn parse_all(input: Seq<u8>) -> Result<Seq<SequenceView>, Error> {
    parse_from(input, 0)
}

} // verus!
