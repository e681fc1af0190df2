//! A coarse split of a stream into runs of text and raw escape sequences,
//! for looking at a stream without interpreting it.

use vstd::prelude::*;
use vstd::slice::{slice_subrange, slice_to_vec};
use crate::ascii::escapes::{BRACKET, ESC};

verus! {

/// A stretch of a stream.
#[derive(Debug, Clone, PartialEq, Eq)]
pub enum Run {
    /// Bytes up to the next escape character.
    Text(Vec<u8>),
    /// An escape sequence as it stands in the stream.
    Escape(Vec<u8>),
}

/// A stretch of a stream as a mathematical value.
pub enum RunView {
    /// Bytes up to the next escape character.
    Text(Seq<u8>),
    /// An escape sequence as it stands in the stream.
    Escape(Seq<u8>),
}

impl RunView {
    /// The bytes of the stretch.
    pub open spec fn bytes(self) -> Seq<u8> {
        match self {
            RunView::Text(bytes) => bytes,
            RunView::Escape(bytes) => bytes,
        }
    }
}

impl View for Run {
    type V = RunView;

    open spec fn view(&self) -> RunView {
        match self {
            Run::Text(bytes) => RunView::Text(bytes@),
            Run::Escape(bytes) => RunView::Escape(bytes@),
        }
    }
}

impl DeepView for Run {
    type V = RunView;

    open spec fn deep_view(&self) -> RunView {
        self@
    }
}

/// Whether `b` is an ASCII letter.
pub open spec fn is_letter(b: u8) -> bool {
    ('A' as u8 <= b && b <= 'Z' as u8) || ('a' as u8 <= b && b <= 'z' as u8)
}

/// The index of the first escape character at or after `from`, or the
/// length of `input` where there is none.
pub open spec fn text_end(input: Seq<u8>, from: int) -> int
    decreases input.len() - from,
{
    if 0 <= from < input.len() && input[from] != ESC {
        text_end(input, from + 1)
    } else {
        from
    }
}

/// The index after the first letter at or after `from`, or the length of
/// `input` where there is none.
pub open spec fn letter_end(input: Seq<u8>, from: int) -> int
    decreases input.len() - from,
{
    if 0 <= from < input.len() {
        if is_letter(input[from]) {
            from + 1
        } else {
            letter_end(input, from + 1)
        }
    } else {
        from
    }
}

/// Where the stretch that starts at `from` ends. Text runs up to the next
/// escape character. An escape is the escape character alone, or, where
/// `[` follows it, all up to the first letter after that.
pub open spec fn run_end(input: Seq<u8>, from: int) -> int {
    if input[from] != ESC {
        text_end(input, from)
    } else if from + 1 < input.len() && input[from + 1] == BRACKET {
        letter_end(input, from + 2)
    } else {
        from + 1
    }
}

/// The stretches of `input` from `from` on.
pub open spec fn runs_from(input: Seq<u8>, from: int) -> Seq<RunView>
    decreases input.len() - from,
    via runs_from_terminates
{
    if 0 <= from < input.len() {
        let end = run_end(input, from);
        let bytes = input.subrange(from, end);
        let run = if input[from] == ESC {
            RunView::Escape(bytes)
        } else {
            RunView::Text(bytes)
        };
        seq![run] + runs_from(input, end)
    } else {
        Seq::empty()
    }
}

#[via_fn]
proof fn runs_from_terminates(input: Seq<u8>, from: int) {
    if 0 <= from < input.len() {
        lemma_run_end(input, from);
    }
}

/// A stretch is not empty and ends within the input.
pub proof fn lemma_run_end(input: Seq<u8>, from: int)
    requires
        0 <= from < input.len(),
    ensures
        from < run_end(input, from) <= input.len(),
{
    lemma_text_end(input, from);
    lemma_letter_end(input, from + 2);
}

proof fn lemma_text_end(input: Seq<u8>, from: int)
    requires
        0 <= from <= input.len(),
    ensures
        from <= text_end(input, from) <= input.len(),
        from < input.len() && input[from] != ESC ==> from < text_end(input, from),
    decreases input.len() - from,
{
    if from < input.len() && input[from] != ESC {
        lemma_text_end(input, from + 1);
    }
}

proof fn lemma_letter_end(input: Seq<u8>, from: int)
    requires
        0 <= from,
    ensures
        from <= letter_end(input, from),
        from <= input.len() ==> letter_end(input, from) <= input.len(),
    decreases input.len() - from,
{
    if from < input.len() && !is_letter(input[from]) {
        lemma_letter_end(input, from + 1);
    }
}

/// The bytes of `runs`, one stretch after the other.
pub open spec fn joined(runs: Seq<RunView>) -> Seq<u8>
    decreases runs.len(),
{
    if runs.len() == 0 {
        Seq::empty()
    } else {
        runs[0].bytes() + joined(runs.drop_first())
    }
}

proof fn lemma_joined_from(input: Seq<u8>, from: int)
    requires
        0 <= from <= input.len(),
    ensures
        joined(runs_from(input, from)) == input.subrange(from, input.len() as int),
    decreases input.len() - from,
{
    if from < input.len() {
        lemma_run_end(input, from);
        let end = run_end(input, from);
        lemma_joined_from(input, end);
        let runs = runs_from(input, from);
        assert(runs.drop_first() =~= runs_from(input, end));
        assert(runs[0].bytes() == input.subrange(from, end));
        assert(input.subrange(from, end) + input.subrange(end, input.len() as int)
            =~= input.subrange(from, input.len() as int));
    } else {
        assert(input.subrange(from, input.len() as int) =~= Seq::<u8>::empty());
    }
}

/// The stretches of a stream, put together again, are the stream: nothing
/// is lost and nothing added.
pub proof fn law_runs_cover(input: Seq<u8>)
    ensures
        joined(runs_from(input, 0)) == input,
{
    lemma_joined_from(input, 0);
    assert(input.subrange(0, input.len() as int) =~= input);
}

/// Splits `input` into its stretches of text and its escape sequences, in
/// order.
pub fn parse_sequences(input: &[u8]) -> (sequences: Vec<Run>)
    ensures
        sequences.deep_view() == runs_from(input@, 0),
{
    let mut sequences: Vec<Run> = Vec::new();
    let mut at: usize = 0;
    proof {
        assert(sequences.deep_view() + runs_from(input@, 0) =~= runs_from(input@, 0));
    }
    while at < input.len()
        invariant
            at <= input@.len(),
            sequences.deep_view() + runs_from(input@, at as int) == runs_from(input@, 0),
        decreases input@.len() - at,
    {
        let ghost before = sequences.deep_view();
        let mut end: usize = at + 1;
        proof {
            lemma_run_end(input@, at as int);
        }
        if input[at] == ESC {
            if end < input.len() && input[end] == BRACKET {
                end = end + 1;
                let mut found: bool = false;
                while end < input.len() && !found
                    invariant
                        at + 2 <= end <= input@.len(),
                        !found ==> letter_end(input@, at as int + 2) == letter_end(
                            input@,
                            end as int,
                        ),
                        found ==> letter_end(input@, at as int + 2) == end,
                    decreases input@.len() - end + if found { 0int } else { 1int },
                {
                    let b: u8 = input[end];
                    found = (0x41 <= b && b <= 0x5a) || (0x61 <= b && b <= 0x7a);
                    end = end + 1;
                }
            }
            sequences.push(Run::Escape(slice_to_vec(slice_subrange(input, at, end))));
        } else {
            while end < input.len() && input[end] != ESC
                invariant
                    at < end <= input@.len(),
                    text_end(input@, at as int) == text_end(input@, end as int),
                decreases input@.len() - end,
            {
                end = end + 1;
            }
            sequences.push(Run::Text(slice_to_vec(slice_subrange(input, at, end))));
        }
        proof {
            let run = runs_from(input@, at as int)[0];
            assert(sequences.deep_view() =~= before + seq![run]);
            assert((before + seq![run]) + runs_from(input@, end as int) =~= before + runs_from(
                input@,
                at as int,
            ));
        }
        at = end;
    }
    proof {
        assert(sequences.deep_view() + Seq::<RunView>::empty() =~= sequences.deep_view());
    }
    sequences
}

} // verus!
