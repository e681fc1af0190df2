//! The recognized control sequences and the one byte form of each.

use vstd::prelude::*;
use vstd::slice::slice_to_vec;
use crate::ascii::decimal::{decimal, push_decimal};

verus! {

/// The escape character that starts every control sequence.
pub const ESC: u8 = 0x1b;

/// `[`, which after `ESC` makes the control sequence introducer.
pub const BRACKET: u8 = 0x5b;

/// `;`, which parts the parameters of a control sequence.
pub const SEMICOLON: u8 = 0x3b;

/// `=`, the intermediate of the screen mode sequences.
pub const EQUALS: u8 = 0x3d;

/// `?`, the intermediate of the private mode sequences.
pub const QUESTION: u8 = 0x3f;

/// The final byte `A`: cursor up.
pub const FINAL_UP: u8 = 'A' as u8;

/// The final byte `B`: cursor down.
pub const FINAL_DOWN: u8 = 'B' as u8;

/// The final byte `C`: cursor right.
pub const FINAL_RIGHT: u8 = 'C' as u8;

/// The final byte `D`: cursor left.
pub const FINAL_LEFT: u8 = 'D' as u8;

/// The final byte `E`: cursor to the start of a following line.
pub const FINAL_NEXT_LINE: u8 = 'E' as u8;

/// The final byte `F`: cursor to the start of a preceding line.
pub const FINAL_PAST_LINE: u8 = 'F' as u8;

/// The final byte `G`: cursor to a column.
pub const FINAL_COLUMN: u8 = 'G' as u8;

/// The final byte `H`: cursor to a position.
pub const FINAL_POSITION: u8 = 'H' as u8;

/// The final byte `J`: erase in the display.
pub const FINAL_ERASE_DISPLAY: u8 = 'J' as u8;

/// The final byte `K`: erase in the line.
pub const FINAL_ERASE_LINE: u8 = 'K' as u8;

/// The final byte `m`: select graphic rendition.
pub const FINAL_SGR: u8 = 'm' as u8;

/// The final byte `n`: device status report.
pub const FINAL_REPORT: u8 = 'n' as u8;

/// The final byte `h`: set a mode.
pub const FINAL_SET: u8 = 'h' as u8;

/// The final byte `l`: reset a mode.
pub const FINAL_RESET: u8 = 'l' as u8;

/// The final byte `s`: save the cursor position.
pub const FINAL_SAVE: u8 = 's' as u8;

/// The final byte `u`: restore the cursor position.
pub const FINAL_RESTORE: u8 = 'u' as u8;

/// What may stand between the introducer and the parameters.
#[derive(Debug, Clone, Copy, PartialEq, Eq)]
pub enum Intermediate {
    /// Nothing.
    Plain,
    /// `=`: a screen mode.
    Screen,
    /// `?`: a private mode.
    Private,
}

impl Intermediate {
    /// The bytes that the intermediate takes in a sequence.
    pub open spec fn bytes(self) -> Seq<u8> {
        match self {
            Intermediate::Plain => Seq::empty(),
            Intermediate::Screen => seq![EQUALS],
            Intermediate::Private => seq![QUESTION],
        }
    }
}

/// The parts of which the byte form of an escape is made.
pub struct Shape {
    /// Whether `[` follows the escape character.
    pub csi: bool,
    /// The intermediate, for a control sequence.
    pub intermediate: Intermediate,
    /// The parameter bytes: digits and `;`.
    pub params: Seq<u8>,
    /// The byte that ends the sequence.
    pub last: u8,
}

impl Shape {
    /// `ESC` and one final byte.
    pub open spec fn short(last: u8) -> Shape {
        Shape { csi: false, intermediate: Intermediate::Plain, params: Seq::empty(), last }
    }

    /// `ESC [`, an intermediate, parameters and a final byte.
    pub open spec fn csi(intermediate: Intermediate, params: Seq<u8>, last: u8) -> Shape {
        Shape { csi: true, intermediate, params, last }
    }

    /// `ESC [`, parameters and a final byte.
    pub open spec fn plain(params: Seq<u8>, last: u8) -> Shape {
        Shape::csi(Intermediate::Plain, params, last)
    }

    /// `ESC [ code m`: a graphic rendition.
    pub open spec fn sgr(code: nat) -> Shape {
        Shape::plain(decimal(code), FINAL_SGR)
    }

    /// `ESC [ = code h`: a screen mode.
    pub open spec fn screen(code: nat) -> Shape {
        Shape::csi(Intermediate::Screen, decimal(code), FINAL_SET)
    }

    /// `ESC [ ? code last`: a private mode, set or reset.
    pub open spec fn private(code: nat, last: u8) -> Shape {
        Shape::csi(Intermediate::Private, decimal(code), last)
    }

    /// The bytes of a sequence of this shape.
    pub open spec fn bytes(self) -> Seq<u8> {
        if self.csi {
            seq![ESC, BRACKET] + self.intermediate.bytes() + self.params + seq![self.last]
        } else {
            seq![ESC, self.last]
        }
    }
}

/// A recognized control sequence.
#[allow(non_camel_case_types)]
#[derive(Debug, Clone, Copy, PartialEq, Eq)]
pub enum Escape {
    /// `ESC [ 0 m`.
    ResetAllModes,
    /// `ESC [ H`.
    ZeroCursor,
    /// `ESC [ line ; col H`: to the given line and column, counted from one.
    MoveCursorTo(u32, u32),
    /// `ESC [ n A`.
    CursorUp(u32),
    /// `ESC M`.
    CursorMoveOneLineUp,
    /// `ESC [ n B`.
    CursorDown(u32),
    /// `ESC [ n C`.
    CursorRight(u32),
    /// `ESC [ n D`.
    CursorLeft(u32),
    /// `ESC [ n E`.
    CursorToNextLineStart(u32),
    /// `ESC [ n F`.
    CursorToPastLineStart(u32),
    /// `ESC [ J`.
    ClearInDisplay,
    /// `ESC [ 0 J`.
    ClearDisplayUntilScreenEnd,
    /// `ESC [ 1 J`.
    ClearDisplayUntilScreenStart,
    /// `ESC [ 2 J`.
    ClearAll,
    /// `ESC [ 3 J`.
    EraseSavedLine,
    /// `ESC [ K`.
    EraseInLine,
    /// `ESC [ 0 K`.
    EraseFromCursorToEnd,
    /// `ESC [ 1 K`.
    EraseFromCursorToStart,
    /// `ESC [ 2 K`.
    EraseLine,
    /// `ESC [ n G`.
    CursorToCol(u32),
    /// `ESC [ 1 m`.
    SetBold,
    /// `ESC [ 2 m`.
    SetDim,
    /// `ESC [ 3 m`.
    SetItalic,
    /// `ESC [ 4 m`.
    SetUnderline,
    /// `ESC [ 5 m`.
    SetBlinking,
    /// `ESC [ 7 m`.
    SetInverse,
    /// `ESC [ 8 m`.
    SetHidden,
    /// `ESC [ 9 m`.
    SetStrikethrough,
    /// `ESC [ 3 0 m`.
    SetForegroundBlack,
    /// `ESC [ 4 0 m`.
    SetBackgroundBlack,
    /// `ESC [ 3 1 m`.
    SetForegroundRed,
    /// `ESC [ 4 1 m`.
    SetBackgroundRed,
    /// `ESC [ 3 2 m`.
    SetForegroundGreen,
    /// `ESC [ 4 2 m`.
    SetBackgroundGreen,
    /// `ESC [ 3 3 m`.
    SetForegroundYellow,
    /// `ESC [ 4 3 m`.
    SetBackgroundYellow,
    /// `ESC [ 3 4 m`.
    SetForegroundBlue,
    /// `ESC [ 4 4 m`.
    SetBackgroundBlue,
    /// `ESC [ 3 5 m`.
    SetForegroundMagenta,
    /// `ESC [ 4 5 m`.
    SetBackgroundMagenta,
    /// `ESC [ 3 6 m`.
    SetForegroundCyan,
    /// `ESC [ 4 6 m`.
    SetBackgroundCyan,
    /// `ESC [ 3 7 m`.
    SetForegroundWhite,
    /// `ESC [ 4 7 m`.
    SetBackgroundWhite,
    /// `ESC [ 3 9 m`.
    SetForegroundDefault,
    /// `ESC [ 4 9 m`.
    SetBackgroundDefault,
    /// `ESC [ 9 0 m`.
    SetForegroundBriBlack,
    /// `ESC [ 1 0 0 m`.
    SetBackgroundBriBlack,
    /// `ESC [ 9 1 m`.
    SetForegroundBriRed,
    /// `ESC [ 1 0 1 m`.
    SetBackgroundBriRed,
    /// `ESC [ 9 2 m`.
    SetForegroundBriGreen,
    /// `ESC [ 1 0 2 m`.
    SetBackgroundBriGreen,
    /// `ESC [ 9 3 m`.
    SetForegroundBriYellow,
    /// `ESC [ 1 0 3 m`.
    SetBackgroundBriYellow,
    /// `ESC [ 9 4 m`.
    SetForegroundBriBlue,
    /// `ESC [ 1 0 4 m`.
    SetBackgroundBriBlue,
    /// `ESC [ 9 5 m`.
    SetForegroundBriMagenta,
    /// `ESC [ 1 0 5 m`.
    SetBackgroundBriMagenta,
    /// `ESC [ 9 6 m`.
    SetForegroundBriCyan,
    /// `ESC [ 1 0 6 m`.
    SetBackgroundBriCyan,
    /// `ESC [ 9 7 m`.
    SetForegroundBriWhite,
    /// `ESC [ 1 0 7 m`.
    SetBackgroundBriWhite,
    /// `ESC [ 38 ; 5 ; id m`: a foreground colour by its index among 256.
    SetForegroundCustomColor(u8),
    /// `ESC [ 48 ; 5 ; id m`: a background colour by its index among 256.
    SetBackgroundCustomColor(u8),
    /// `ESC [ 2 2 m`.
    ResetBold,
    /// `ESC [ 2 2 m`.
    ResetDim,
    /// `ESC [ 2 3 m`.
    ResetItalic,
    /// `ESC [ 2 4 m`.
    ResetUnderline,
    /// `ESC [ 2 5 m`.
    ResetBlinking,
    /// `ESC [ 2 7 m`.
    ResetInverse,
    /// `ESC [ 2 8 m`.
    ResetHidden,
    /// `ESC [ 2 9 m`.
    ResetStrikethrough,
    /// `ESC 7`.
    SaveCursorPos,
    /// `ESC 8`.
    RestoreCursorPos,
    /// `ESC [ 6 n`.
    RequestCursorPos,
    /// `ESC [ = 0 h`.
    Set40_25MonoScreen,
    /// `ESC [ = 1 h`.
    Set40_25ColorScreen,
    /// `ESC [ = 2 h`.
    Set80_25MonoScreen,
    /// `ESC [ = 3 h`.
    Set80_25ColorScreen,
    /// `ESC [ = 4 h`.
    Set320_2004ColorScreen,
    /// `ESC [ = 5 h`.
    Set320_200MonoScreen,
    /// `ESC [ = 6 h`.
    Set640_200MonoScreen,
    /// `ESC [ = 7 h`.
    EnableLineWrap,
    /// `ESC [ = 1 3 h`.
    Set320_200ColorScreen,
    /// `ESC [ = 1 4 h`.
    Set640_200ColorScreen,
    /// `ESC [ = 1 5 h`.
    Set640_350MonoScreen,
    /// `ESC [ = 1 6 h`.
    Set640_350ColorScreen,
    /// `ESC [ = 1 7 h`.
    Set640_480MonoScreen,
    /// `ESC [ = 1 8 h`.
    Set640_480ColorScreen,
    /// `ESC [ = 1 9 h`.
    Set320_200ColorScreen256,
    /// `ESC [ = n l`.
    ResetScreenSet(u8),
    /// `ESC [ ? 2 5 h`.
    SetCursorVisible,
    /// `ESC [ ? 2 5 l`.
    SetCursorInvisible,
    /// `ESC [ ? 4 7 h`.
    SaveScreen,
    /// `ESC [ ? 4 7 l`.
    RestoreScreen,
    /// `ESC [ ? 1 0 4 9 h`.
    EnterAltScreen,
    /// `ESC [ ? 1 0 4 9 l`.
    ExitAltScreen,
}

impl Escape {
    /// Whether the byte form depends on a value that the escape carries.
    pub open spec fn is_parameterized(self) -> bool {
        match self {
            Escape::MoveCursorTo(_, _)
            | Escape::CursorUp(_)
            | Escape::CursorDown(_)
            | Escape::CursorRight(_)
            | Escape::CursorLeft(_)
            | Escape::CursorToNextLineStart(_)
            | Escape::CursorToPastLineStart(_)
            | Escape::CursorToCol(_)
            | Escape::SetForegroundCustomColor(_)
            | Escape::SetBackgroundCustomColor(_)
            | Escape::ResetScreenSet(_) => true,
            _ => false,
        }
    }

    /// The parts of the byte form: the table of all sequences.
    pub open spec fn shape(self) -> Shape {
        match self {
            Escape::ResetAllModes => Shape::sgr(0),
            Escape::ZeroCursor => Shape::plain(Seq::empty(), FINAL_POSITION),
            Escape::MoveCursorTo(line, col) => Shape::plain(
                decimal(line as nat) + seq![SEMICOLON] + decimal(col as nat),
                FINAL_POSITION,
            ),
            Escape::CursorUp(n) => Shape::plain(decimal(n as nat), FINAL_UP),
            Escape::CursorMoveOneLineUp => Shape::short('M' as u8),
            Escape::CursorDown(n) => Shape::plain(decimal(n as nat), FINAL_DOWN),
            Escape::CursorRight(n) => Shape::plain(decimal(n as nat), FINAL_RIGHT),
            Escape::CursorLeft(n) => Shape::plain(decimal(n as nat), FINAL_LEFT),
            Escape::CursorToNextLineStart(n) => Shape::plain(decimal(n as nat), FINAL_NEXT_LINE),
            Escape::CursorToPastLineStart(n) => Shape::plain(decimal(n as nat), FINAL_PAST_LINE),
            Escape::ClearInDisplay => Shape::plain(Seq::empty(), FINAL_ERASE_DISPLAY),
            Escape::ClearDisplayUntilScreenEnd => Shape::plain(decimal(0), FINAL_ERASE_DISPLAY),
            Escape::ClearDisplayUntilScreenStart => Shape::plain(decimal(1), FINAL_ERASE_DISPLAY),
            Escape::ClearAll => Shape::plain(decimal(2), FINAL_ERASE_DISPLAY),
            Escape::EraseSavedLine => Shape::plain(decimal(3), FINAL_ERASE_DISPLAY),
            Escape::EraseInLine => Shape::plain(Seq::empty(), FINAL_ERASE_LINE),
            Escape::EraseFromCursorToEnd => Shape::plain(decimal(0), FINAL_ERASE_LINE),
            Escape::EraseFromCursorToStart => Shape::plain(decimal(1), FINAL_ERASE_LINE),
            Escape::EraseLine => Shape::plain(decimal(2), FINAL_ERASE_LINE),
            Escape::CursorToCol(n) => Shape::plain(decimal(n as nat), FINAL_COLUMN),
            Escape::SetBold => Shape::sgr(1),
            Escape::SetDim => Shape::sgr(2),
            Escape::SetItalic => Shape::sgr(3),
            Escape::SetUnderline => Shape::sgr(4),
            Escape::SetBlinking => Shape::sgr(5),
            Escape::SetInverse => Shape::sgr(7),
            Escape::SetHidden => Shape::sgr(8),
            Escape::SetStrikethrough => Shape::sgr(9),
            Escape::SetForegroundBlack => Shape::sgr(30),
            Escape::SetBackgroundBlack => Shape::sgr(40),
            Escape::SetForegroundRed => Shape::sgr(31),
            Escape::SetBackgroundRed => Shape::sgr(41),
            Escape::SetForegroundGreen => Shape::sgr(32),
            Escape::SetBackgroundGreen => Shape::sgr(42),
            Escape::SetForegroundYellow => Shape::sgr(33),
            Escape::SetBackgroundYellow => Shape::sgr(43),
            Escape::SetForegroundBlue => Shape::sgr(34),
            Escape::SetBackgroundBlue => Shape::sgr(44),
            Escape::SetForegroundMagenta => Shape::sgr(35),
            Escape::SetBackgroundMagenta => Shape::sgr(45),
            Escape::SetForegroundCyan => Shape::sgr(36),
            Escape::SetBackgroundCyan => Shape::sgr(46),
            Escape::SetForegroundWhite => Shape::sgr(37),
            Escape::SetBackgroundWhite => Shape::sgr(47),
            Escape::SetForegroundDefault => Shape::sgr(39),
            Escape::SetBackgroundDefault => Shape::sgr(49),
            Escape::SetForegroundBriBlack => Shape::sgr(90),
            Escape::SetBackgroundBriBlack => Shape::sgr(100),
            Escape::SetForegroundBriRed => Shape::sgr(91),
            Escape::SetBackgroundBriRed => Shape::sgr(101),
            Escape::SetForegroundBriGreen => Shape::sgr(92),
            Escape::SetBackgroundBriGreen => Shape::sgr(102),
            Escape::SetForegroundBriYellow => Shape::sgr(93),
            Escape::SetBackgroundBriYellow => Shape::sgr(103),
            Escape::SetForegroundBriBlue => Shape::sgr(94),
            Escape::SetBackgroundBriBlue => Shape::sgr(104),
            Escape::SetForegroundBriMagenta => Shape::sgr(95),
            Escape::SetBackgroundBriMagenta => Shape::sgr(105),
            Escape::SetForegroundBriCyan => Shape::sgr(96),
            Escape::SetBackgroundBriCyan => Shape::sgr(106),
            Escape::SetForegroundBriWhite => Shape::sgr(97),
            Escape::SetBackgroundBriWhite => Shape::sgr(107),
            Escape::SetForegroundCustomColor(id) => Shape::plain(
                decimal(38) + seq![SEMICOLON] + decimal(5) + seq![SEMICOLON] + decimal(id as nat),
                FINAL_SGR,
            ),
            Escape::SetBackgroundCustomColor(id) => Shape::plain(
                decimal(48) + seq![SEMICOLON] + decimal(5) + seq![SEMICOLON] + decimal(id as nat),
                FINAL_SGR,
            ),
            Escape::ResetBold => Shape::sgr(22),
            Escape::ResetDim => Shape::sgr(22),
            Escape::ResetItalic => Shape::sgr(23),
            Escape::ResetUnderline => Shape::sgr(24),
            Escape::ResetBlinking => Shape::sgr(25),
            Escape::ResetInverse => Shape::sgr(27),
            Escape::ResetHidden => Shape::sgr(28),
            Escape::ResetStrikethrough => Shape::sgr(29),
            Escape::SaveCursorPos => Shape::short('7' as u8),
            Escape::RestoreCursorPos => Shape::short('8' as u8),
            Escape::RequestCursorPos => Shape::plain(decimal(6), FINAL_REPORT),
            Escape::Set40_25MonoScreen => Shape::screen(0),
            Escape::Set40_25ColorScreen => Shape::screen(1),
            Escape::Set80_25MonoScreen => Shape::screen(2),
            Escape::Set80_25ColorScreen => Shape::screen(3),
            Escape::Set320_2004ColorScreen => Shape::screen(4),
            Escape::Set320_200MonoScreen => Shape::screen(5),
            Escape::Set640_200MonoScreen => Shape::screen(6),
            Escape::EnableLineWrap => Shape::screen(7),
            Escape::Set320_200ColorScreen => Shape::screen(13),
            Escape::Set640_200ColorScreen => Shape::screen(14),
            Escape::Set640_350MonoScreen => Shape::screen(15),
            Escape::Set640_350ColorScreen => Shape::screen(16),
            Escape::Set640_480MonoScreen => Shape::screen(17),
            Escape::Set640_480ColorScreen => Shape::screen(18),
            Escape::Set320_200ColorScreen256 => Shape::screen(19),
            Escape::ResetScreenSet(n) => Shape::csi(
                Intermediate::Screen,
                decimal(n as nat),
                FINAL_RESET,
            ),
            Escape::SetCursorVisible => Shape::private(25, FINAL_SET),
            Escape::SetCursorInvisible => Shape::private(25, FINAL_RESET),
            Escape::SaveScreen => Shape::private(47, FINAL_SET),
            Escape::RestoreScreen => Shape::private(47, FINAL_RESET),
            Escape::EnterAltScreen => Shape::private(1049, FINAL_SET),
            Escape::ExitAltScreen => Shape::private(1049, FINAL_RESET),
        }
    }

    /// The canonical byte form.
    pub open spec fn encoding(self) -> Seq<u8> {
        self.shape().bytes()
    }

    /// The byte form of an escape that carries no value, without allocation;
    /// nothing for one that carries a value.
    pub fn as_static_bytes(&self) -> (r: Option<&'static [u8]>)
        ensures
            r is None <==> self.is_parameterized(),
            r matches Some(bytes) ==> bytes@ == self.encoding(),
    {
        proof {
            reveal_with_fuel(decimal, 4);
        }
        let r: Option<&'static [u8]> = match self {
            Escape::ResetAllModes => Some(&[ESC, BRACKET, '0' as u8, 'm' as u8]),
            Escape::ZeroCursor => Some(&[ESC, BRACKET, 'H' as u8]),
            Escape::CursorMoveOneLineUp => Some(&[ESC, 'M' as u8]),
            Escape::ClearInDisplay => Some(&[ESC, BRACKET, 'J' as u8]),
            Escape::ClearDisplayUntilScreenEnd => Some(&[ESC, BRACKET, '0' as u8, 'J' as u8]),
            Escape::ClearDisplayUntilScreenStart => Some(&[ESC, BRACKET, '1' as u8, 'J' as u8]),
            Escape::ClearAll => Some(&[ESC, BRACKET, '2' as u8, 'J' as u8]),
            Escape::EraseSavedLine => Some(&[ESC, BRACKET, '3' as u8, 'J' as u8]),
            Escape::EraseInLine => Some(&[ESC, BRACKET, 'K' as u8]),
            Escape::EraseFromCursorToEnd => Some(&[ESC, BRACKET, '0' as u8, 'K' as u8]),
            Escape::EraseFromCursorToStart => Some(&[ESC, BRACKET, '1' as u8, 'K' as u8]),
            Escape::EraseLine => Some(&[ESC, BRACKET, '2' as u8, 'K' as u8]),
            Escape::SetBold => Some(&[ESC, BRACKET, '1' as u8, 'm' as u8]),
            Escape::SetDim => Some(&[ESC, BRACKET, '2' as u8, 'm' as u8]),
            Escape::SetItalic => Some(&[ESC, BRACKET, '3' as u8, 'm' as u8]),
            Escape::SetUnderline => Some(&[ESC, BRACKET, '4' as u8, 'm' as u8]),
            Escape::SetBlinking => Some(&[ESC, BRACKET, '5' as u8, 'm' as u8]),
            Escape::SetInverse => Some(&[ESC, BRACKET, '7' as u8, 'm' as u8]),
            Escape::SetHidden => Some(&[ESC, BRACKET, '8' as u8, 'm' as u8]),
            Escape::SetStrikethrough => Some(&[ESC, BRACKET, '9' as u8, 'm' as u8]),
            Escape::SetForegroundBlack => Some(&[ESC, BRACKET, '3' as u8, '0' as u8, 'm' as u8]),
            Escape::SetBackgroundBlack => Some(&[ESC, BRACKET, '4' as u8, '0' as u8, 'm' as u8]),
            Escape::SetForegroundRed => Some(&[ESC, BRACKET, '3' as u8, '1' as u8, 'm' as u8]),
            Escape::SetBackgroundRed => Some(&[ESC, BRACKET, '4' as u8, '1' as u8, 'm' as u8]),
            Escape::SetForegroundGreen => Some(&[ESC, BRACKET, '3' as u8, '2' as u8, 'm' as u8]),
            Escape::SetBackgroundGreen => Some(&[ESC, BRACKET, '4' as u8, '2' as u8, 'm' as u8]),
            Escape::SetForegroundYellow => Some(&[ESC, BRACKET, '3' as u8, '3' as u8, 'm' as u8]),
            Escape::SetBackgroundYellow => Some(&[ESC, BRACKET, '4' as u8, '3' as u8, 'm' as u8]),
            Escape::SetForegroundBlue => Some(&[ESC, BRACKET, '3' as u8, '4' as u8, 'm' as u8]),
            Escape::SetBackgroundBlue => Some(&[ESC, BRACKET, '4' as u8, '4' as u8, 'm' as u8]),
            Escape::SetForegroundMagenta => Some(&[ESC, BRACKET, '3' as u8, '5' as u8, 'm' as u8]),
            Escape::SetBackgroundMagenta => Some(&[ESC, BRACKET, '4' as u8, '5' as u8, 'm' as u8]),
            Escape::SetForegroundCyan => Some(&[ESC, BRACKET, '3' as u8, '6' as u8, 'm' as u8]),
            Escape::SetBackgroundCyan => Some(&[ESC, BRACKET, '4' as u8, '6' as u8, 'm' as u8]),
            Escape::SetForegroundWhite => Some(&[ESC, BRACKET, '3' as u8, '7' as u8, 'm' as u8]),
            Escape::SetBackgroundWhite => Some(&[ESC, BRACKET, '4' as u8, '7' as u8, 'm' as u8]),
            Escape::SetForegroundDefault => Some(&[ESC, BRACKET, '3' as u8, '9' as u8, 'm' as u8]),
            Escape::SetBackgroundDefault => Some(&[ESC, BRACKET, '4' as u8, '9' as u8, 'm' as u8]),
            Escape::SetForegroundBriBlack => Some(&[ESC, BRACKET, '9' as u8, '0' as u8, 'm' as u8]),
            Escape::SetBackgroundBriBlack => {
                Some(&[ESC, BRACKET, '1' as u8, '0' as u8, '0' as u8, 'm' as u8])
            },
            Escape::SetForegroundBriRed => Some(&[ESC, BRACKET, '9' as u8, '1' as u8, 'm' as u8]),
            Escape::SetBackgroundBriRed => {
                Some(&[ESC, BRACKET, '1' as u8, '0' as u8, '1' as u8, 'm' as u8])
            },
            Escape::SetForegroundBriGreen => Some(&[ESC, BRACKET, '9' as u8, '2' as u8, 'm' as u8]),
            Escape::SetBackgroundBriGreen => {
                Some(&[ESC, BRACKET, '1' as u8, '0' as u8, '2' as u8, 'm' as u8])
            },
            Escape::SetForegroundBriYellow => {
                Some(&[ESC, BRACKET, '9' as u8, '3' as u8, 'm' as u8])
            },
            Escape::SetBackgroundBriYellow => {
                Some(&[ESC, BRACKET, '1' as u8, '0' as u8, '3' as u8, 'm' as u8])
            },
            Escape::SetForegroundBriBlue => Some(&[ESC, BRACKET, '9' as u8, '4' as u8, 'm' as u8]),
            Escape::SetBackgroundBriBlue => {
                Some(&[ESC, BRACKET, '1' as u8, '0' as u8, '4' as u8, 'm' as u8])
            },
            Escape::SetForegroundBriMagenta => {
                Some(&[ESC, BRACKET, '9' as u8, '5' as u8, 'm' as u8])
            },
            Escape::SetBackgroundBriMagenta => {
                Some(&[ESC, BRACKET, '1' as u8, '0' as u8, '5' as u8, 'm' as u8])
            },
            Escape::SetForegroundBriCyan => Some(&[ESC, BRACKET, '9' as u8, '6' as u8, 'm' as u8]),
            Escape::SetBackgroundBriCyan => {
                Some(&[ESC, BRACKET, '1' as u8, '0' as u8, '6' as u8, 'm' as u8])
            },
            Escape::SetForegroundBriWhite => Some(&[ESC, BRACKET, '9' as u8, '7' as u8, 'm' as u8]),
            Escape::SetBackgroundBriWhite => {
                Some(&[ESC, BRACKET, '1' as u8, '0' as u8, '7' as u8, 'm' as u8])
            },
            Escape::ResetBold => Some(&[ESC, BRACKET, '2' as u8, '2' as u8, 'm' as u8]),
            Escape::ResetDim => Some(&[ESC, BRACKET, '2' as u8, '2' as u8, 'm' as u8]),
            Escape::ResetItalic => Some(&[ESC, BRACKET, '2' as u8, '3' as u8, 'm' as u8]),
            Escape::ResetUnderline => Some(&[ESC, BRACKET, '2' as u8, '4' as u8, 'm' as u8]),
            Escape::ResetBlinking => Some(&[ESC, BRACKET, '2' as u8, '5' as u8, 'm' as u8]),
            Escape::ResetInverse => Some(&[ESC, BRACKET, '2' as u8, '7' as u8, 'm' as u8]),
            Escape::ResetHidden => Some(&[ESC, BRACKET, '2' as u8, '8' as u8, 'm' as u8]),
            Escape::ResetStrikethrough => Some(&[ESC, BRACKET, '2' as u8, '9' as u8, 'm' as u8]),
            Escape::SaveCursorPos => Some(&[ESC, '7' as u8]),
            Escape::RestoreCursorPos => Some(&[ESC, '8' as u8]),
            Escape::RequestCursorPos => Some(&[ESC, BRACKET, '6' as u8, 'n' as u8]),
            Escape::Set40_25MonoScreen => Some(&[ESC, BRACKET, EQUALS, '0' as u8, 'h' as u8]),
            Escape::Set40_25ColorScreen => Some(&[ESC, BRACKET, EQUALS, '1' as u8, 'h' as u8]),
            Escape::Set80_25MonoScreen => Some(&[ESC, BRACKET, EQUALS, '2' as u8, 'h' as u8]),
            Escape::Set80_25ColorScreen => Some(&[ESC, BRACKET, EQUALS, '3' as u8, 'h' as u8]),
            Escape::Set320_2004ColorScreen => Some(&[ESC, BRACKET, EQUALS, '4' as u8, 'h' as u8]),
            Escape::Set320_200MonoScreen => Some(&[ESC, BRACKET, EQUALS, '5' as u8, 'h' as u8]),
            Escape::Set640_200MonoScreen => Some(&[ESC, BRACKET, EQUALS, '6' as u8, 'h' as u8]),
            Escape::EnableLineWrap => Some(&[ESC, BRACKET, EQUALS, '7' as u8, 'h' as u8]),
            Escape::Set320_200ColorScreen => {
                Some(&[ESC, BRACKET, EQUALS, '1' as u8, '3' as u8, 'h' as u8])
            },
            Escape::Set640_200ColorScreen => {
                Some(&[ESC, BRACKET, EQUALS, '1' as u8, '4' as u8, 'h' as u8])
            },
            Escape::Set640_350MonoScreen => {
                Some(&[ESC, BRACKET, EQUALS, '1' as u8, '5' as u8, 'h' as u8])
            },
            Escape::Set640_350ColorScreen => {
                Some(&[ESC, BRACKET, EQUALS, '1' as u8, '6' as u8, 'h' as u8])
            },
            Escape::Set640_480MonoScreen => {
                Some(&[ESC, BRACKET, EQUALS, '1' as u8, '7' as u8, 'h' as u8])
            },
            Escape::Set640_480ColorScreen => {
                Some(&[ESC, BRACKET, EQUALS, '1' as u8, '8' as u8, 'h' as u8])
            },
            Escape::Set320_200ColorScreen256 => {
                Some(&[ESC, BRACKET, EQUALS, '1' as u8, '9' as u8, 'h' as u8])
            },
            Escape::SetCursorVisible => {
                Some(&[ESC, BRACKET, QUESTION, '2' as u8, '5' as u8, 'h' as u8])
            },
            Escape::SetCursorInvisible => {
                Some(&[ESC, BRACKET, QUESTION, '2' as u8, '5' as u8, 'l' as u8])
            },
            Escape::SaveScreen => Some(&[ESC, BRACKET, QUESTION, '4' as u8, '7' as u8, 'h' as u8]),
            Escape::RestoreScreen => {
                Some(&[ESC, BRACKET, QUESTION, '4' as u8, '7' as u8, 'l' as u8])
            },
            Escape::EnterAltScreen => {
                Some(
                    &[
                        ESC,
                        BRACKET,
                        QUESTION,
                        '1' as u8,
                        '0' as u8,
                        '4' as u8,
                        '9' as u8,
                        'h' as u8,
                    ],
                )
            },
            Escape::ExitAltScreen => {
                Some(
                    &[
                        ESC,
                        BRACKET,
                        QUESTION,
                        '1' as u8,
                        '0' as u8,
                        '4' as u8,
                        '9' as u8,
                        'l' as u8,
                    ],
                )
            },
            _ => None,
        };
        proof {
            if let Some(bytes) = r {
                assert(bytes@ =~= self.encoding());
            }
        }
        r
    }

    /// Appends the canonical byte form to `buf`.
    pub fn write_to(&self, buf: &mut Vec<u8>)
        ensures
            final(buf)@ == old(buf)@ + self.encoding(),
    {
        match self {
            Escape::MoveCursorTo(line, col) => {
                buf.push(ESC);
                buf.push(BRACKET);
                push_decimal(buf, *line);
                buf.push(SEMICOLON);
                push_decimal(buf, *col);
                buf.push(FINAL_POSITION);
            },
            Escape::CursorUp(n) => push_counted(buf, *n, FINAL_UP),
            Escape::CursorDown(n) => push_counted(buf, *n, FINAL_DOWN),
            Escape::CursorRight(n) => push_counted(buf, *n, FINAL_RIGHT),
            Escape::CursorLeft(n) => push_counted(buf, *n, FINAL_LEFT),
            Escape::CursorToNextLineStart(n) => push_counted(buf, *n, FINAL_NEXT_LINE),
            Escape::CursorToPastLineStart(n) => push_counted(buf, *n, FINAL_PAST_LINE),
            Escape::CursorToCol(n) => push_counted(buf, *n, FINAL_COLUMN),
            Escape::SetForegroundCustomColor(id) => push_indexed_colour(buf, 38, *id),
            Escape::SetBackgroundCustomColor(id) => push_indexed_colour(buf, 48, *id),
            Escape::ResetScreenSet(n) => {
                buf.push(ESC);
                buf.push(BRACKET);
                buf.push(EQUALS);
                push_decimal(buf, *n as u32);
                buf.push(FINAL_RESET);
            },
            _ => {
                if let Some(bytes) = self.as_static_bytes() {
                    push_all(buf, bytes);
                }
            },
        }
        proof {
            assert(buf@ =~= old(buf)@ + self.encoding());
        }
    }

    /// The canonical byte form.
    pub fn into_bytes(&self) -> (bytes: Vec<u8>)
        ensures
            bytes@ == self.encoding(),
    {
        match self.as_static_bytes() {
            Some(bytes) => slice_to_vec(bytes),
            None => {
                let mut bytes: Vec<u8> = Vec::new();
                self.write_to(&mut bytes);
                bytes
            },
        }
    }
}

/// One item of a parsed stream: a byte of text, or the effects of one
/// control sequence.
#[derive(Debug, Clone, PartialEq, Eq)]
pub enum Sequence {
    /// A byte that passes through as it is.
    Text(u8),
    /// The effects of one control sequence, in the order of their parameters.
    Escape(Vec<Escape>),
}

/// An item of a parsed stream as a mathematical value.
pub enum SequenceView {
    /// A byte that passes through as it is.
    Text(u8),
    /// The effects of one control sequence, in the order of their parameters.
    Escape(Seq<Escape>),
}

impl View for Sequence {
    type V = SequenceView;

    open spec fn view(&self) -> SequenceView {
        match self {
            Sequence::Text(b) => SequenceView::Text(*b),
            Sequence::Escape(effects) => SequenceView::Escape(effects@),
        }
    }
}

impl DeepView for Sequence {
    type V = SequenceView;

    open spec fn deep_view(&self) -> SequenceView {
        self@
    }
}

/// The byte forms of `escapes`, one after the other.
pub open spec fn encode_all(escapes: Seq<Escape>) -> Seq<u8>
    decreases escapes.len(),
{
    if escapes.len() == 0 {
        Seq::empty()
    } else {
        encode_all(escapes.drop_last()) + escapes.last().encoding()
    }
}

impl SequenceView {
    /// The bytes that render the item: the byte of a text, the byte forms
    /// of the effects of an escape.
    pub open spec fn encoding(self) -> Seq<u8> {
        match self {
            SequenceView::Text(b) => seq![b],
            SequenceView::Escape(effects) => encode_all(effects),
        }
    }
}

/// The bytes that render `items`, one item after the other.
pub open spec fn render(items: Seq<SequenceView>) -> Seq<u8>
    decreases items.len(),
{
    if items.len() == 0 {
        Seq::empty()
    } else {
        render(items.drop_last()) + items.last().encoding()
    }
}

impl Sequence {
    /// Appends the bytes that render the item to `buf`.
    pub fn write_to(&self, buf: &mut Vec<u8>)
        ensures
            final(buf)@ == old(buf)@ + self@.encoding(),
    {
        match self {
            Sequence::Text(b) => {
                buf.push(*b);
                proof {
                    assert(buf@ =~= old(buf)@ + seq![*b]);
                }
            },
            Sequence::Escape(effects) => {
                let mut i: usize = 0;
                proof {
                    assert(effects@.subrange(0, 0) =~= Seq::<Escape>::empty());
                    assert(buf@ =~= old(buf)@ + encode_all(effects@.subrange(0, 0)));
                }
                while i < effects.len()
                    invariant
                        i <= effects@.len(),
                        buf@ == old(buf)@ + encode_all(effects@.subrange(0, i as int)),
                    decreases effects@.len() - i,
                {
                    effects[i].write_to(buf);
                    proof {
                        let seen = effects@.subrange(0, i as int + 1);
                        assert(seen.drop_last() =~= effects@.subrange(0, i as int));
                        assert(buf@ =~= old(buf)@ + encode_all(seen));
                    }
                    i = i + 1;
                }
                proof {
                    assert(effects@.subrange(0, i as int) =~= effects@);
                }
            },
        }
    }
}

/// Appends `ESC [ n last`.
fn push_counted(buf: &mut Vec<u8>, n: u32, last: u8)
    ensures
        final(buf)@ == old(buf)@ + Shape::csi(Intermediate::Plain, decimal(n as nat), last).bytes(),
{
    buf.push(ESC);
    buf.push(BRACKET);
    push_decimal(buf, n);
    buf.push(last);
    proof {
        assert(buf@ =~= old(buf)@ + Shape::csi(
            Intermediate::Plain,
            decimal(n as nat),
            last,
        ).bytes());
    }
}

/// Appends `ESC [ selector ; 5 ; id m`.
fn push_indexed_colour(buf: &mut Vec<u8>, selector: u32, id: u8)
    ensures
        final(buf)@ == old(buf)@ + Shape::csi(
            Intermediate::Plain,
            decimal(selector as nat) + seq![SEMICOLON] + decimal(5) + seq![SEMICOLON] + decimal(
                id as nat,
            ),
            FINAL_SGR,
        ).bytes(),
{
    buf.push(ESC);
    buf.push(BRACKET);
    push_decimal(buf, selector);
    buf.push(SEMICOLON);
    push_decimal(buf, 5);
    buf.push(SEMICOLON);
    push_decimal(buf, id as u32);
    buf.push(FINAL_SGR);
    proof {
        assert(buf@ =~= old(buf)@ + Shape::csi(
            Intermediate::Plain,
            decimal(selector as nat) + seq![SEMICOLON] + decimal(5) + seq![SEMICOLON] + decimal(
                id as nat,
            ),
            FINAL_SGR,
        ).bytes());
    }
}

/// Appends the bytes of `bytes` to `buf`.
pub fn push_all(buf: &mut Vec<u8>, bytes: &[u8])
    ensures
        final(buf)@ == old(buf)@ + bytes@,
{
    let mut i: usize = 0;
    while i < bytes.len()
        invariant
            i <= bytes@.len(),
            buf@ == old(buf)@ + bytes@.subrange(0, i as int),
        decreases bytes@.len() - i,
    {
        buf.push(bytes[i]);
        proof {
            assert(bytes@.subrange(0, i as int + 1) =~= bytes@.subrange(0, i as int).push(
                bytes@[i as int],
            ));
        }
        i = i + 1;
    }
    proof {
        assert(bytes@.subrange(0, i as int) =~= bytes@);
    }
}

} // verus!
