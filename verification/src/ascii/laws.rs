//! What holds of the byte forms and the recognizer together.

use vstd::prelude::*;
use crate::ascii::decimal::{decimal, lemma_decimal, number};
use crate::ascii::escapes::{
    encode_all, render, Escape, Intermediate, SequenceView, Shape, BRACKET, ESC, FINAL_SET,
    FINAL_SGR, SEMICOLON,
};
use crate::ascii::grammar::{
    and_then, count, counted, csi_effects, escape_at, fields, indexed_colour, intermediate_at,
    is_counted_final, is_param_byte, is_recognized_final, item_of, lemma_and_then_empty,
    lemma_escape_at, parse_all, parse_from, position, screen_mode, sgr, sgr_effects, sgr_field,
    stream_from, Pending,
};
use crate::ascii::lemmas::{
    lemma_escape_window, lemma_field_run, lemma_fields_cons, lemma_fields_of_digits, lemma_frame,
    lemma_numerals, lemma_params_run, lemma_parse_suffix, lemma_render_first,
};
use crate::error::Error;

verus! {

/// The byte form of every escape is made of parts that can be told apart.
proof fn lemma_shape_well_formed(e: Escape)
    ensures
        e.shape().well_formed(),
{
    lemma_numerals();
    let shape = e.shape();
    if shape.csi {
        match e {
            Escape::MoveCursorTo(line, col) => {
                let a = decimal(line as nat);
                let b = decimal(col as nat);
                assert forall|i: int| 0 <= i < shape.params.len() implies is_param_byte(
                    #[trigger] shape.params[i],
                ) by {
                    if i < a.len() {
                        assert(shape.params[i] == a[i]);
                    } else if i > a.len() {
                        assert(shape.params[i] == b[i - a.len() - 1]);
                    }
                }
            },
            Escape::SetForegroundCustomColor(id) => {
                lemma_colour_params(38, id);
            },
            Escape::SetBackgroundCustomColor(id) => {
                lemma_colour_params(48, id);
            },
            _ => {},
        }
    }
}

/// The parameters that select an indexed colour are parameter bytes.
proof fn lemma_colour_params(selector: nat, id: u8)
    ensures
        forall|i: int|
            0 <= i < (decimal(selector) + seq![SEMICOLON] + decimal(5) + seq![SEMICOLON] + decimal(
                id as nat,
            )).len() ==> is_param_byte(
                #[trigger] (decimal(selector) + seq![SEMICOLON] + decimal(5) + seq![SEMICOLON]
                    + decimal(id as nat))[i],
            ),
{
    lemma_numerals();
    let a = decimal(selector);
    let b = decimal(5);
    let c = decimal(id as nat);
    let s = a + seq![SEMICOLON] + b + seq![SEMICOLON] + c;
    assert forall|i: int| 0 <= i < s.len() implies is_param_byte(#[trigger] s[i]) by {
        if i < a.len() {
            assert(s[i] == a[i]);
        } else if i == a.len() {
        } else if i < a.len() + 1 + b.len() {
            assert(s[i] == b[i - a.len() - 1]);
        } else if i == a.len() + 1 + b.len() {
        } else {
            assert(s[i] == c[i - a.len() - b.len() - 2]);
        }
    }
}

/// The recognizer reads a position back from its two numerals.
proof fn lemma_position_effects(line: u32, col: u32)
    ensures
        position(decimal(line as nat) + seq![SEMICOLON] + decimal(col as nat)) == seq![
            Escape::MoveCursorTo(line, col),
        ],
{
    lemma_numerals();
    let a = decimal(line as nat);
    let b = decimal(col as nat);
    let s = a + seq![SEMICOLON] + b;
    lemma_field_run(s, 0, a.len() as int);
    assert(s.subrange(0, a.len() as int) =~= a);
    assert(s.subrange(a.len() as int + 1, s.len() as int) =~= b);
}

/// The recognizer reads an indexed colour back from `selector;5;id`.
proof fn lemma_colour_effects(selector: nat, id: u8)
    requires
        selector == 38 || selector == 48,
    ensures
        sgr(
            fields(
                decimal(selector) + seq![SEMICOLON] + decimal(5) + seq![SEMICOLON] + decimal(
                    id as nat,
                ),
            ),
            Pending::Nothing,
        ) == Ok::<Seq<Escape>, Error>(
            seq![
                if selector == 38 {
                    Escape::SetForegroundCustomColor(id)
                } else {
                    Escape::SetBackgroundCustomColor(id)
                },
            ],
        ),
{
    lemma_numerals();
    let a = decimal(selector);
    let b = decimal(5);
    let c = decimal(id as nat);
    let s = a + seq![SEMICOLON] + b + seq![SEMICOLON] + c;
    let tail = b + seq![SEMICOLON] + c;
    assert(s =~= a + seq![SEMICOLON] + tail);
    lemma_fields_cons(a, tail);
    lemma_fields_cons(b, c);
    let all = seq![a] + (seq![b] + seq![c]);
    assert(fields(s) == all);
    let pending = if selector == 38 {
        Pending::Foreground
    } else {
        Pending::Background
    };
    assert(all[0] == a);
    assert(all.drop_first() =~= seq![b] + seq![c]);
    assert(all.drop_first()[0] == b);
    assert(all.drop_first().drop_first() =~= seq![c]);
    assert(sgr(all, Pending::Nothing) == sgr(all.drop_first(), pending));
    assert(sgr(all.drop_first(), pending) == Ok::<Seq<Escape>, Error>(
        indexed_colour(pending, seq![c]),
    ));
    assert(number(c, 255) == Some(id as nat));
}

/// The effects of one field that is the numeral of a code other than `38`
/// and `48` are those of the table.
proof fn lemma_single_field(code: nat)
    requires
        code != 38,
        code != 48,
    ensures
        sgr(fields(decimal(code)), Pending::Nothing) == Ok::<Seq<Escape>, Error>(
            sgr_effects(code),
        ),
        decimal(code).len() > 0,
{
    lemma_decimal(code);
    lemma_fields_of_digits(decimal(code));
    let f = seq![decimal(code)];
    assert(f.drop_first() =~= Seq::<Seq<u8>>::empty());
    assert(sgr(f.drop_first(), Pending::Nothing) == Ok::<Seq<Escape>, Error>(Seq::empty()));
    assert(sgr_field(f[0]) + Seq::<Escape>::empty() =~= sgr_field(f[0]));
}

/// The rendition code of an escape that is selected by one code.
spec fn sgr_code(e: Escape) -> Option<nat> {
    match e {
        Escape::ResetAllModes => Some(0),
        Escape::SetBold => Some(1),
        Escape::SetDim => Some(2),
        Escape::SetItalic => Some(3),
        Escape::SetUnderline => Some(4),
        Escape::SetBlinking => Some(5),
        Escape::SetInverse => Some(7),
        Escape::SetHidden => Some(8),
        Escape::SetStrikethrough => Some(9),
        Escape::SetForegroundBlack => Some(30),
        Escape::SetBackgroundBlack => Some(40),
        Escape::SetForegroundRed => Some(31),
        Escape::SetBackgroundRed => Some(41),
        Escape::SetForegroundGreen => Some(32),
        Escape::SetBackgroundGreen => Some(42),
        Escape::SetForegroundYellow => Some(33),
        Escape::SetBackgroundYellow => Some(43),
        Escape::SetForegroundBlue => Some(34),
        Escape::SetBackgroundBlue => Some(44),
        Escape::SetForegroundMagenta => Some(35),
        Escape::SetBackgroundMagenta => Some(45),
        Escape::SetForegroundCyan => Some(36),
        Escape::SetBackgroundCyan => Some(46),
        Escape::SetForegroundWhite => Some(37),
        Escape::SetBackgroundWhite => Some(47),
        Escape::SetForegroundDefault => Some(39),
        Escape::SetBackgroundDefault => Some(49),
        Escape::SetForegroundBriBlack => Some(90),
        Escape::SetBackgroundBriBlack => Some(100),
        Escape::SetForegroundBriRed => Some(91),
        Escape::SetBackgroundBriRed => Some(101),
        Escape::SetForegroundBriGreen => Some(92),
        Escape::SetBackgroundBriGreen => Some(102),
        Escape::SetForegroundBriYellow => Some(93),
        Escape::SetBackgroundBriYellow => Some(103),
        Escape::SetForegroundBriBlue => Some(94),
        Escape::SetBackgroundBriBlue => Some(104),
        Escape::SetForegroundBriMagenta => Some(95),
        Escape::SetBackgroundBriMagenta => Some(105),
        Escape::SetForegroundBriCyan => Some(96),
        Escape::SetBackgroundBriCyan => Some(106),
        Escape::SetForegroundBriWhite => Some(97),
        Escape::SetBackgroundBriWhite => Some(107),
        Escape::ResetBold => Some(22),
        Escape::ResetDim => Some(22),
        Escape::ResetItalic => Some(23),
        Escape::ResetUnderline => Some(24),
        Escape::ResetBlinking => Some(25),
        Escape::ResetInverse => Some(27),
        Escape::ResetHidden => Some(28),
        Escape::ResetStrikethrough => Some(29),
        _ => None,
    }
}

/// The code of an escape that sets a screen mode.
spec fn screen_code(e: Escape) -> Option<nat> {
    match e {
        Escape::Set40_25MonoScreen => Some(0),
        Escape::Set40_25ColorScreen => Some(1),
        Escape::Set80_25MonoScreen => Some(2),
        Escape::Set80_25ColorScreen => Some(3),
        Escape::Set320_2004ColorScreen => Some(4),
        Escape::Set320_200MonoScreen => Some(5),
        Escape::Set640_200MonoScreen => Some(6),
        Escape::EnableLineWrap => Some(7),
        Escape::Set320_200ColorScreen => Some(13),
        Escape::Set640_200ColorScreen => Some(14),
        Escape::Set640_350MonoScreen => Some(15),
        Escape::Set640_350ColorScreen => Some(16),
        Escape::Set640_480MonoScreen => Some(17),
        Escape::Set640_480ColorScreen => Some(18),
        Escape::Set320_200ColorScreen256 => Some(19),
        _ => None,
    }
}

/// The byte form of an escape with a rendition code is `ESC [ code m`, and
/// the table of codes leads back from the code to the escape: but for the
/// two that share `22`.
proof fn lemma_sgr_table(e: Escape)
    requires
        sgr_code(e) is Some,
    ensures
        e.shape() == Shape::csi(Intermediate::Plain, decimal(sgr_code(e)->0), FINAL_SGR),
        sgr_code(e)->0 != 38,
        sgr_code(e)->0 != 48,
        e != Escape::ResetBold && e != Escape::ResetDim ==> sgr_effects(
            sgr_code(e)->0,
        ) == seq![e],
{
}

/// The byte form of an escape that sets a screen mode is `ESC [ = code h`,
/// and the table of modes leads back from the code to the escape.
proof fn lemma_screen_table(e: Escape)
    requires
        screen_code(e) is Some,
    ensures
        e.shape() == Shape::csi(
            Intermediate::Screen,
            decimal(screen_code(e)->0),
            FINAL_SET,
        ),
        screen_mode(screen_code(e)->0) == Some(e),
{
}

/// The recognizer reads a count back from its numeral.
proof fn lemma_counted_effects(n: u32, last: u8)
    requires
        is_counted_final(last),
    ensures
        csi_effects(Intermediate::Plain, decimal(n as nat), last) == Ok::<Seq<Escape>, Error>(
            counted(decimal(n as nat), last),
        ),
        count(decimal(n as nat)) == Some(n),
{
    lemma_decimal(n as nat);
}

/// The effects of the byte forms that carry neither a value nor a code of
/// the rendition and screen mode tables.
proof fn lemma_fixed_effects(e: Escape)
    requires
        e.shape().csi,
        !e.is_parameterized(),
        sgr_code(e) is None,
        screen_code(e) is None,
    ensures
        csi_effects(e.shape().intermediate, e.shape().params, e.shape().last) == Ok::<
            Seq<Escape>,
            Error,
        >(seq![e]),
{
    lemma_decimal(0);
    lemma_decimal(1);
    lemma_decimal(2);
    lemma_decimal(3);
    lemma_decimal(6);
    lemma_decimal(25);
    lemma_decimal(47);
    lemma_decimal(1049);
}

/// The effects that the grammar gives to the parts of the byte form of an
/// escape are that escape alone: but for the two that share `22`.
proof fn lemma_effects(e: Escape)
    requires
        e.shape().csi,
        e != Escape::ResetBold,
        e != Escape::ResetDim,
    ensures
        csi_effects(e.shape().intermediate, e.shape().params, e.shape().last) == Ok::<
            Seq<Escape>,
            Error,
        >(seq![e]),
{
    match e {
        Escape::MoveCursorTo(line, col) => {
            lemma_position_effects(line, col);
        },
        Escape::SetForegroundCustomColor(id) => {
            lemma_colour_effects(38, id);
        },
        Escape::SetBackgroundCustomColor(id) => {
            lemma_colour_effects(48, id);
        },
        Escape::CursorUp(n)
        | Escape::CursorDown(n)
        | Escape::CursorRight(n)
        | Escape::CursorLeft(n)
        | Escape::CursorToNextLineStart(n)
        | Escape::CursorToPastLineStart(n)
        | Escape::CursorToCol(n) => {
            lemma_counted_effects(n, e.shape().last);
        },
        Escape::ResetScreenSet(n) => {
            lemma_decimal(n as nat);
        },
        _ => {
            if sgr_code(e) is Some {
                lemma_sgr_table(e);
                lemma_single_field(sgr_code(e)->0);
            } else if screen_code(e) is Some {
                lemma_screen_table(e);
                lemma_decimal(screen_code(e)->0);
            } else {
                lemma_fixed_effects(e);
            }
        },
    }
}

/// Parsing the byte form of an escape gives that escape back, alone in one
/// item. The two escapes that share the code `22` are left out: their byte
/// form is read as both of them.
pub proof fn law_round_trip(e: Escape)
    requires
        e != Escape::ResetBold,
        e != Escape::ResetDim,
    ensures
        parse_all(e.encoding()) == Ok::<Seq<SequenceView>, Error>(
            seq![SequenceView::Escape(seq![e])],
        ),
{
    let input = e.encoding();
    let shape = e.shape();
    lemma_shape_well_formed(e);
    let items = seq![SequenceView::Escape(seq![e])];
    assert(items + Seq::<SequenceView>::empty() =~= items);
    if shape.csi {
        lemma_frame(shape, Seq::empty());
        lemma_effects(e);
        assert(shape.bytes() + Seq::<u8>::empty() =~= input);
        assert(input[1] == BRACKET);
        assert(parse_from(input, input.len() as int) == Ok::<Seq<SequenceView>, Error>(
            Seq::empty(),
        ));
    } else {
        assert(parse_from(input, 2) == Ok::<Seq<SequenceView>, Error>(Seq::empty()));
    }
}

/// The byte form of either escape with the code `22` is read as both, the
/// bold one first.
pub proof fn law_normal_intensity(e: Escape)
    requires
        e == Escape::ResetBold || e == Escape::ResetDim,
    ensures
        parse_all(e.encoding()) == Ok::<Seq<SequenceView>, Error>(
            seq![SequenceView::Escape(seq![Escape::ResetBold, Escape::ResetDim])],
        ),
{
    let input = e.encoding();
    let shape = e.shape();
    lemma_shape_well_formed(e);
    lemma_frame(shape, Seq::empty());
    lemma_single_field(22);
    let items = seq![SequenceView::Escape(seq![Escape::ResetBold, Escape::ResetDim])];
    assert(items + Seq::<SequenceView>::empty() =~= items);
    assert(shape.bytes() + Seq::<u8>::empty() =~= input);
    assert(input[1] == BRACKET);
    assert(parse_from(input, input.len() as int) == Ok::<Seq<SequenceView>, Error>(Seq::empty()));
}

/// Parsing the byte form of an escape and rendering what was found gives
/// the byte form back. The two escapes that share the code `22` are left
/// out: their byte form is read as both of them, and rendered twice.
pub proof fn law_canonical_form(e: Escape)
    requires
        e != Escape::ResetBold,
        e != Escape::ResetDim,
    ensures
        parse_all(e.encoding()) matches Ok(items) && render(items) == e.encoding(),
{
    law_round_trip(e);
    let effects = seq![e];
    let items = seq![SequenceView::Escape(effects)];
    assert(effects.drop_last() =~= Seq::<Escape>::empty());
    assert(encode_all(effects.drop_last()) == Seq::<u8>::empty());
    assert(Seq::<u8>::empty() + e.encoding() =~= e.encoding());
    assert(items.drop_last() =~= Seq::<SequenceView>::empty());
    assert(render(items.drop_last()) == Seq::<u8>::empty());
}

/// Each byte of `bytes` as a text item.
pub open spec fn texts(bytes: Seq<u8>) -> Seq<SequenceView> {
    Seq::new(bytes.len(), |i: int| SequenceView::Text(bytes[i]))
}

/// From `from` on, an input without escape character parses into its bytes.
proof fn lemma_text_from(input: Seq<u8>, from: int)
    requires
        0 <= from <= input.len(),
        forall|i: int| 0 <= i < input.len() ==> input[i] != ESC,
    ensures
        parse_from(input, from) == Ok::<Seq<SequenceView>, Error>(
            texts(input.subrange(from, input.len() as int)),
        ),
    decreases input.len() - from,
{
    let tail = input.subrange(from, input.len() as int);
    if from < input.len() {
        lemma_text_from(input, from + 1);
        let rest = input.subrange(from + 1, input.len() as int);
        assert(seq![SequenceView::Text(input[from])] + texts(rest) =~= texts(tail));
    } else {
        assert(texts(tail) =~= Seq::<SequenceView>::empty());
    }
}

/// An input that holds no escape character parses into its bytes, one text
/// item each, in their order.
pub proof fn law_text_passthrough(input: Seq<u8>)
    requires
        forall|i: int| 0 <= i < input.len() ==> input[i] != ESC,
    ensures
        parse_all(input) == Ok::<Seq<SequenceView>, Error>(texts(input)),
{
    lemma_text_from(input, 0);
    assert(input.subrange(0, input.len() as int) =~= input);
}

/// Where the parameters of the control sequence that starts at `at` begin:
/// after `ESC [` and an intermediate, if there is one.
pub open spec fn params_start(input: Seq<u8>, at: int) -> int {
    if intermediate_at(input, at + 2) == Intermediate::Plain {
        at + 2
    } else {
        at + 3
    }
}

/// A control sequence whose final byte is not one of the recognized ones
/// leaves no item, and the parse goes on at the byte after that final byte.
/// The sequence starts with `ESC [` at `at`; parameter bytes alone stand
/// between its start of parameters and its final byte at `last`.
pub proof fn law_unrecognized_csi(input: Seq<u8>, at: int, last: int)
    requires
        0 <= at,
        last < input.len(),
        input[at] == ESC,
        input[at + 1] == BRACKET,
        params_start(input, at) <= last,
        forall|i: int| params_start(input, at) <= i < last ==> is_param_byte(#[trigger] input[i]),
        !is_param_byte(input[last]),
        !is_recognized_final(input[last]),
    ensures
        parse_from(input, at) == parse_from(input, last + 1),
{
    let start = params_start(input, at);
    lemma_params_run(input, start, last - start);
    let rest = parse_from(input, last + 1);
    lemma_and_then_empty(rest);
    assert(item_of(Seq::<Escape>::empty()) =~= Seq::<SequenceView>::empty());
}

/// Taking the bytes one at a time from `at` on, after the bytes from
/// `start` on were taken without finishing an item, gives what a parse of
/// the whole gives from `start` on.
proof fn lemma_stream(input: Seq<u8>, start: int, at: int)
    requires
        0 <= start <= at <= input.len(),
        start < at ==> input[start] == ESC && !(escape_at(input, start + 1) matches Some(found)
            && found.next <= at),
    ensures
        stream_from(input.subrange(start, at), input, at) == parse_from(input, start),
    decreases input.len() - at,
{
    let pending = input.subrange(start, at);
    lemma_escape_at(input, start + 1);
    if at < input.len() {
        let taken = pending.push(input[at]);
        assert(taken =~= input.subrange(start, at + 1));
        assert(taken[0] == input[start]);
        lemma_escape_window(input, start, at + 1);
        if start == at && input[at] != ESC {
            lemma_stream(input, at + 1, at + 1);
            assert(input.subrange(at + 1, at + 1) =~= Seq::<u8>::empty());
        } else {
            match escape_at(input, start + 1) {
                Some(found) => {
                    if found.next <= at + 1 {
                        lemma_stream(input, at + 1, at + 1);
                        assert(input.subrange(at + 1, at + 1) =~= Seq::<u8>::empty());
                    } else {
                        lemma_stream(input, start, at + 1);
                    }
                },
                None => {
                    lemma_stream(input, start, at + 1);
                },
            }
        }
    }
}

/// Taking the bytes of a stream one at a time brings out what a parse of
/// the whole stream brings out.
pub proof fn law_streaming(input: Seq<u8>)
    ensures
        stream_from(Seq::empty(), input, 0) == parse_all(input),
{
    lemma_stream(input, 0, 0);
    assert(input.subrange(0, 0) =~= Seq::<u8>::empty());
}

/// Whether an item is one that a stream renders in one way only: a text
/// byte other than the escape character, or one escape alone that is not
/// one of the two that share the code `22`.
pub open spec fn is_canonical(item: SequenceView) -> bool {
    match item {
        SequenceView::Text(b) => b != ESC,
        SequenceView::Escape(effects) => effects.len() == 1 && effects[0] != Escape::ResetBold
            && effects[0] != Escape::ResetDim,
    }
}

/// A stream that starts with the rendering of a canonical item parses into
/// that item and what the rest of the stream parses into.
proof fn lemma_first_item(first: SequenceView, rest: Seq<u8>)
    requires
        is_canonical(first),
    ensures
        parse_all(first.encoding() + rest) == and_then(seq![first], parse_all(rest)),
{
    let head = first.encoding();
    let input = head + rest;
    match first {
        SequenceView::Text(b) => {
            assert(input[0] == b);
            assert(input.subrange(1, input.len() as int) =~= rest);
            lemma_parse_suffix(input, 1);
        },
        SequenceView::Escape(effects) => {
            let e = effects[0];
            assert(effects =~= seq![e]);
            assert(effects.drop_last() =~= Seq::<Escape>::empty());
            assert(encode_all(effects.drop_last()) == Seq::<u8>::empty());
            assert(head =~= e.encoding());
            let shape = e.shape();
            lemma_shape_well_formed(e);
            assert(input[0] == ESC);
            assert(input.subrange(head.len() as int, input.len() as int) =~= rest);
            lemma_parse_suffix(input, head.len() as int);
            if shape.csi {
                lemma_frame(shape, rest);
                lemma_effects(e);
                assert(input[1] == BRACKET);
            } else {
                assert(input[1] == shape.last);
            }
        },
    }
}

/// A stream rendered from canonical items parses back into those items:
/// what goes to the screen is what came from the child.
pub proof fn law_stream_round_trip(items: Seq<SequenceView>)
    requires
        forall|i: int| 0 <= i < items.len() ==> is_canonical(#[trigger] items[i]),
    ensures
        parse_all(render(items)) == Ok::<Seq<SequenceView>, Error>(items),
    decreases items.len(),
{
    if items.len() == 0 {
        assert(render(items) =~= Seq::<u8>::empty());
        assert(items =~= Seq::<SequenceView>::empty());
    } else {
        let first = items[0];
        let others = items.drop_first();
        assert(items =~= seq![first] + others);
        assert forall|i: int| 0 <= i < others.len() implies is_canonical(#[trigger] others[i]) by {
            assert(others[i] == items[i + 1]);
        }
        law_stream_round_trip(others);
        lemma_render_first(first, others);
        lemma_first_item(first, render(others));
        assert(render(items) == first.encoding() + render(others));
        assert(parse_all(render(others)) == Ok::<Seq<SequenceView>, Error>(others));
    }
}

} // verus!
