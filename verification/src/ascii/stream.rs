//! The recognizer over a stream that arrives byte by byte.

use vstd::prelude::*;
use crate::ascii::csi::{control_effects, param_byte};
use crate::ascii::escapes::{
    Intermediate, Sequence, SequenceView, Shape, BRACKET, EQUALS, ESC, QUESTION,
};
use crate::ascii::grammar::{is_param_byte, unit};
use crate::ascii::lemmas::{lemma_frame, lemma_params_run};
use crate::ascii::parser::short_escape;
use crate::error::Error;

verus! {

/// Where the recognizer stands between two bytes.
#[derive(Debug, Clone, Copy, PartialEq, Eq)]
pub enum State {
    /// Between items.
    Normal,
    /// After `ESC`.
    AfterEsc,
    /// After `ESC [`, among the intermediate and the parameters.
    AfterCsi,
}

/// What one byte brought out, as a mathematical value.
pub open spec fn emitted(r: Result<Option<Sequence>, Error>) -> Result<Seq<SequenceView>, Error> {
    match r {
        Ok(Some(item)) => Ok(seq![item@]),
        Ok(None) => Ok(Seq::empty()),
        Err(e) => Err(e),
    }
}

/// A recognizer that takes the stream one byte at a time and holds no more
/// than the unfinished escape.
pub struct Parser {
    state: State,
    intermediate: Intermediate,
    params: Vec<u8>,
}

impl Parser {
    /// Whether the recognizer holds what a run of `feed` from a new one can
    /// leave: parameter bytes alone, and those only within a control
    /// sequence.
    pub closed spec fn wf(&self) -> bool {
        match self.state {
            State::AfterCsi => forall|i: int|
                0 <= i < self.params@.len() ==> is_param_byte(#[trigger] self.params@[i]),
            _ => self.intermediate == Intermediate::Plain && self.params@.len() == 0,
        }
    }

    /// The bytes taken since the last item ended: the beginning of an
    /// escape that is not finished.
    pub closed spec fn pending(&self) -> Seq<u8> {
        match self.state {
            State::Normal => Seq::empty(),
            State::AfterEsc => seq![ESC],
            State::AfterCsi => seq![ESC, BRACKET] + self.intermediate.bytes() + self.params@,
        }
    }

    /// A recognizer between items.
    pub fn new() -> (p: Parser)
        ensures
            p.wf(),
            p.pending() == Seq::<u8>::empty(),
    {
        Parser { state: State::Normal, intermediate: Intermediate::Plain, params: Vec::new() }
    }

    /// Where the recognizer stands: between items with nothing pending,
    /// after the escape character alone, or within a control sequence.
    pub fn state(&self) -> (state: State)
        ensures
            state == State::Normal <==> self.pending().len() == 0,
            state == State::AfterEsc <==> self.pending() == seq![ESC],
            state == State::AfterCsi <==> self.pending().len() >= 2,
    {
        proof {
            if self.pending() == seq![ESC] {
                assert(self.pending().len() == 1);
            }
        }
        self.state
    }

    /// Whether the recognizer stands between items, with nothing pending.
    pub fn is_idle(&self) -> (r: bool)
        ensures
            r == (self.pending().len() == 0),
    {
        match self.state {
            State::Normal => true,
            _ => false,
        }
    }

    /// Takes the next byte of the stream. While the bytes taken are the
    /// unfinished beginning of an escape, nothing comes out and the byte is
    /// kept. A byte that completes an item brings out the item, none for an
    /// escape without effect, or the error of a 24-bit colour, and leaves
    /// the recognizer between items.
    pub fn feed(&mut self, byte: u8) -> (r: Result<Option<Sequence>, Error>)
        requires
            old(self).wf(),
        ensures
            final(self).wf(),
            match unit(old(self).pending().push(byte)) {
                None => final(self).pending() == old(self).pending().push(byte) && r == Ok::<
                    Option<Sequence>,
                    Error,
                >(None),
                Some(outcome) => final(self).pending() == Seq::<u8>::empty() && emitted(r)
                    == outcome,
            },
    {
        let ghost taken = self.pending().push(byte);
        match self.state {
            State::Normal => {
                if byte == ESC {
                    self.state = State::AfterEsc;
                    proof {
                        assert(taken =~= seq![ESC]);
                    }
                    Ok(None)
                } else {
                    Ok(Some(Sequence::Text(byte)))
                }
            },
            State::AfterEsc => {
                proof {
                    assert(taken =~= seq![ESC, byte]);
                }
                if byte == BRACKET {
                    self.state = State::AfterCsi;
                    proof {
                        assert(self.pending() =~= taken);
                    }
                    Ok(None)
                } else {
                    self.state = State::Normal;
                    let effects = short_escape(byte);
                    if effects.len() > 0 {
                        Ok(Some(Sequence::Escape(effects)))
                    } else {
                        Ok(None)
                    }
                }
            },
            State::AfterCsi => {
                let fresh: bool = self.params.len() == 0 && match self.intermediate {
                    Intermediate::Plain => true,
                    _ => false,
                };
                if fresh && (byte == EQUALS || byte == QUESTION) {
                    self.intermediate = if byte == EQUALS {
                        Intermediate::Screen
                    } else {
                        Intermediate::Private
                    };
                    proof {
                        assert(taken =~= seq![ESC, BRACKET, byte]);
                        assert(self.pending() =~= taken);
                    }
                    Ok(None)
                } else if param_byte(byte) {
                    let ghost before = self.params@;
                    self.params.push(byte);
                    proof {
                        let start = 2 + self.intermediate.bytes().len() as int;
                        assert(self.pending() =~= taken);
                        assert(forall|i: int|
                            start <= i < taken.len() ==> taken[i] == self.params@[i - start]);
                        lemma_params_run(taken, start, self.params@.len() as int);
                        if before.len() > 0 {
                            assert(taken[2 + self.intermediate.bytes().len() as int] == before[0]);
                        }
                    }
                    Ok(None)
                } else {
                    proof {
                        let shape = Shape::csi(self.intermediate, self.params@, byte);
                        assert(shape.bytes() + Seq::<u8>::empty() =~= taken);
                        lemma_frame(shape, Seq::empty());
                    }
                    let outcome = control_effects(self.intermediate, self.params.as_slice(), byte);
                    self.params.clear();
                    self.intermediate = Intermediate::Plain;
                    self.state = State::Normal;
                    match outcome {
                        Ok(effects) => {
                            if effects.len() > 0 {
                                Ok(Some(Sequence::Escape(effects)))
                            } else {
                                Ok(None)
                            }
                        },
                        Err(e) => Err(e),
                    }
                }
            },
        }
    }
}

} // verus!
