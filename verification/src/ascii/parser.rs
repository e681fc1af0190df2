//! The recognizer over a whole buffer.

use vstd::prelude::*;
use crate::ascii::csi::{agrees, parse_long_seq};
use crate::ascii::escapes::{Escape, Sequence, SequenceView, BRACKET, ESC};
use crate::ascii::grammar::{
    and_then, escape_at, item_of, lemma_and_then_empty, lemma_and_then_twice, lemma_escape_at,
    parse_all, parse_from, short_effects,
};
use crate::error::Error;

verus! {

/// The items that a recognizer found, as a mathematical value.
pub open spec fn parsed(r: Result<Vec<Sequence>, Error>) -> Result<Seq<SequenceView>, Error> {
    match r {
        Ok(items) => Ok(items.deep_view()),
        Err(e) => Err(e),
    }
}

/// The effect of `ESC b` where `b` is not `[`: one of the three short
/// escapes, or none.
pub fn short_escape(b: u8) -> (effects: Vec<Escape>)
    ensures
        effects@ == short_effects(b),
{
    let mut effects: Vec<Escape> = Vec::new();
    if b == '7' as u8 {
        effects.push(Escape::SaveCursorPos);
    } else if b == '8' as u8 {
        effects.push(Escape::RestoreCursorPos);
    } else if b == 'M' as u8 {
        effects.push(Escape::CursorMoveOneLineUp);
    }
    proof {
        assert(effects@ =~= short_effects(b));
    }
    effects
}

impl Escape {
    /// Recognizes the escape whose first byte after `ESC` stands at `from`:
    /// gives its effects and the index of the byte after it, or nothing
    /// where `input` ends before the escape does.
    pub fn parse_sequence(input: &[u8], from: usize) -> (r: Option<
        (Result<Vec<Escape>, Error>, usize),
    >)
        requires
            from <= input@.len(),
        ensures
            agrees(r, escape_at(input@, from as int)),
    {
        if from >= input.len() {
            return None;
        }
        let b: u8 = input[from];
        if b == BRACKET {
            return parse_long_seq(input, from + 1);
        }
        Some((Ok(short_escape(b)), from + 1))
    }
}

impl Sequence {
    /// Parses the whole of `input` into its items, in order. Bytes outside
    /// an escape pass through as text; an escape that is not recognized, or
    /// that the end of the input cuts short, leaves no item. A 24-bit colour
    /// anywhere in the input is the one error.
    pub fn parse_sequence(input: &[u8]) -> (r: Result<Vec<Sequence>, Error>)
        ensures
            parsed(r) == parse_all(input@),
    {
        let mut items: Vec<Sequence> = Vec::new();
        let mut at: usize = 0;
        proof {
            assert(items.deep_view() =~= Seq::<SequenceView>::empty());
            lemma_and_then_empty(parse_all(input@));
        }
        while at < input.len()
            invariant
                at <= input@.len(),
                parse_all(input@) == and_then(items.deep_view(), parse_from(input@, at as int)),
            decreases input@.len() - at,
        {
            let b: u8 = input[at];
            let ghost before = items.deep_view();
            if b != ESC {
                items.push(Sequence::Text(b));
                proof {
                    assert(items.deep_view() =~= before + seq![SequenceView::Text(b)]);
                    lemma_and_then_twice(
                        before,
                        seq![SequenceView::Text(b)],
                        parse_from(input@, at as int + 1),
                    );
                }
                at = at + 1;
            } else {
                proof {
                    lemma_escape_at(input@, at as int + 1);
                }
                match Escape::parse_sequence(input, at + 1) {
                    None => {
                        proof {
                            assert(before + Seq::<SequenceView>::empty() =~= before);
                        }
                        return Ok(items);
                    },
                    Some((Err(e), _)) => {
                        return Err(e);
                    },
                    Some((Ok(effects), next)) => {
                        let ghost found = effects@;
                        if effects.len() > 0 {
                            items.push(Sequence::Escape(effects));
                        }
                        proof {
                            assert(items.deep_view() =~= before + item_of(found));
                            lemma_and_then_twice(
                                before,
                                item_of(found),
                                parse_from(input@, next as int),
                            );
                        }
                        at = next;
                    },
                }
            }
        }
        proof {
            assert(items.deep_view() + Seq::<SequenceView>::empty() =~= items.deep_view());
        }
        Ok(items)
    }
}

/// Parses the whole of `input` into text bytes and escapes.
pub fn parse_sequences(input: &[u8]) -> (r: Result<Vec<Sequence>, Error>)
    ensures
        parsed(r) == parse_all(input@),
{
    Sequence::parse_sequence(input)
}

} // verus!
