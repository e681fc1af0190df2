//! What the session decides between its reads and writes: the commands it
//! spawns, what it puts on the screen, and how it relays and closes.

use portable_pty::CommandBuilder;
use std::io::Write;
use vstd::prelude::*;
use vstd::string::StringExecFns;
use crate::ascii::escapes::{render, Escape, Sequence, SequenceView};
use crate::ascii::grammar::unit;
use crate::ascii::stream::Parser;
use crate::ascii::writer::EscapeWriter;
use crate::error::Error;

verus! {

/// A command that `portable_pty` can spawn. Nothing is known of a value of
/// it but its argument list, which `command_argv` names.
#[verifier::external_type_specification]
#[verifier::external_body]
pub struct ExCommandBuilder(CommandBuilder);

/// The argument list of a command, the program first.
pub uninterp spec fn command_argv(cmd: CommandBuilder) -> Seq<Seq<char>>;

/// Calls `CommandBuilder::new`, which makes a command whose argument list
/// holds the program alone.
#[verifier::external_body]
fn command_new(program: &str) -> (cmd: CommandBuilder)
    ensures
        command_argv(cmd) == seq![program@],
{
    CommandBuilder::new(program)
}

/// Calls `CommandBuilder::arg`, which appends one argument. It panics on a
/// command without program, which is left out here.
#[verifier::external_body]
fn command_arg(cmd: &mut CommandBuilder, arg: &str)
    requires
        command_argv(*old(cmd)).len() > 0,
    ensures
        command_argv(*final(cmd)) == command_argv(*old(cmd)).push(arg@),
{
    cmd.arg(arg)
}

/// The command of a new session: `bash -l`.
pub fn login_shell() -> (cmd: CommandBuilder)
    ensures
        command_argv(cmd) == seq!["bash"@, "-l"@],
{
    let mut cmd = command_new("bash");
    command_arg(&mut cmd, "-l");
    cmd
}

/// The command that starts the shell again in the directory `dir`:
/// `sh -c "cd <dir>; bash"`.
pub fn respawn_command(dir: &str) -> (cmd: CommandBuilder)
    ensures
        command_argv(cmd) == seq!["sh"@, "-c"@, "cd "@ + dir@ + "; bash"@],
{
    let mut cmd = command_new("sh");
    command_arg(&mut cmd, "-c");
    let script = String::from_str("cd ").concat(dir).concat("; bash");
    command_arg(&mut cmd, script.as_str());
    cmd
}

/// What a session puts on the screen when it opens: it enters the
/// alternate screen and clears it.
pub fn enter_screen() -> (seq: Sequence)
    ensures
        seq@ == SequenceView::Escape(seq![Escape::EnterAltScreen, Escape::ClearAll]),
{
    let mut effects: Vec<Escape> = Vec::new();
    effects.push(Escape::EnterAltScreen);
    effects.push(Escape::ClearAll);
    proof {
        assert(effects@ =~= seq![Escape::EnterAltScreen, Escape::ClearAll]);
    }
    Sequence::Escape(effects)
}

/// What a session puts on the screen when it closes: it leaves the
/// alternate screen.
pub fn leave_screen() -> (seq: Sequence)
    ensures
        seq@ == SequenceView::Escape(seq![Escape::ExitAltScreen]),
{
    let mut effects: Vec<Escape> = Vec::new();
    effects.push(Escape::ExitAltScreen);
    proof {
        assert(effects@ =~= seq![Escape::ExitAltScreen]);
    }
    Sequence::Escape(effects)
}

/// One step of the output pump: takes a byte that the child wrote and
/// queues, rendered again, the item that it completes. Says whether an
/// item was queued. An error of the recognizer queues nothing.
pub fn relay<T: Write>(parser: &mut Parser, queue: &mut EscapeWriter<T>, byte: u8) -> (r: Result<
    bool,
    Error,
>)
    requires
        old(parser).wf(),
    ensures
        final(parser).wf(),
        match unit(old(parser).pending().push(byte)) {
            None => {
                &&& final(parser).pending() == old(parser).pending().push(byte)
                &&& final(queue).pending() == old(queue).pending()
                &&& r == Ok::<bool, Error>(false)
            },
            Some(Ok(items)) => {
                &&& final(parser).pending() == Seq::<u8>::empty()
                &&& final(queue).pending() == old(queue).pending() + render(items)
                &&& r == Ok::<bool, Error>(items.len() > 0)
            },
            Some(Err(e)) => {
                &&& final(parser).pending() == Seq::<u8>::empty()
                &&& final(queue).pending() == old(queue).pending()
                &&& r == Err::<bool, Error>(e)
            },
        },
{
    match parser.feed(byte) {
        Ok(Some(item)) => {
            proof {
                let items = seq![item@];
                assert(items.drop_last() =~= Seq::<SequenceView>::empty());
                assert(render(items.drop_last()) == Seq::<u8>::empty());
                assert(render(items) =~= item@.encoding());
            }
            queue.queue(item);
            Ok(true)
        },
        Ok(None) => {
            proof {
                assert(old(queue).pending() + render(Seq::<SequenceView>::empty()) =~= old(
                    queue,
                ).pending());
            }
            Ok(false)
        },
        Err(e) => Err(e),
    }
}

/// The mark that a session has been closed. Both pumps read it before each
/// of their steps.
#[derive(Debug, Clone, Copy, PartialEq, Eq)]
pub struct Shutdown {
    closed: bool,
}

impl Shutdown {
    /// Whether the session has been closed.
    pub closed spec fn is_closed(self) -> bool {
        self.closed
    }

    /// The mark of a running session.
    pub fn new() -> (mark: Shutdown)
        ensures
            !mark.is_closed(),
    {
        Shutdown { closed: false }
    }

    /// Whether the session has been closed.
    pub fn is_set(&self) -> (r: bool)
        ensures
            r == self.is_closed(),
    {
        self.closed
    }

    /// Marks the session as closed, and says whether this call is the one
    /// that closes it: the steps of a close are taken once, however often
    /// a close is asked for.
    pub fn close(&mut self) -> (first: bool)
        ensures
            final(self).is_closed(),
            first == !old(self).is_closed(),
    {
        let first = !self.closed;
        self.closed = true;
        first
    }
}

/// The first failure among `outcomes`, in their order.
pub open spec fn first_error(outcomes: Seq<Result<(), Error>>) -> Option<Error>
    decreases outcomes.len(),
{
    if outcomes.len() == 0 {
        None
    } else {
        match outcomes[0] {
            Err(e) => Some(e),
            Ok(_) => first_error(outcomes.drop_first()),
        }
    }
}

/// The outcome of a close whose steps had the outcomes `outcomes`, in
/// their order: every step was tried, and the first failure is reported.
pub fn first_failure(outcomes: &[Result<(), Error>]) -> (r: Result<(), Error>)
    ensures
        r == match first_error(outcomes@) {
            Some(e) => Err::<(), Error>(e),
            None => Ok::<(), Error>(()),
        },
{
    let mut i: usize = 0;
    proof {
        assert(outcomes@.subrange(0, outcomes@.len() as int) =~= outcomes@);
    }
    while i < outcomes.len()
        invariant
            i <= outcomes@.len(),
            first_error(outcomes@) == first_error(
                outcomes@.subrange(i as int, outcomes@.len() as int),
            ),
        decreases outcomes@.len() - i,
    {
        let ghost rest = outcomes@.subrange(i as int, outcomes@.len() as int);
        proof {
            assert(rest[0] == outcomes@[i as int]);
            assert(rest.drop_first() =~= outcomes@.subrange(i as int + 1, outcomes@.len() as int));
        }
        match outcomes[i] {
            Err(e) => {
                return Err(e);
            },
            Ok(_) => {},
        }
        i = i + 1;
    }
    Ok(())
}

} // verus!
