//! Finding the working directory of the child: which links of the process
//! table are read, and in which order.

use vstd::prelude::*;
use crate::ascii::decimal::{decimal, push_decimal};
use crate::ascii::escapes::push_all;
use crate::error::Error;

verus! {

/// The size of the buffer into which a link is read.
pub const LINK_BUFFER: usize = 4096;

/// `/proc/`, as bytes.
pub open spec fn proc_prefix() -> Seq<u8> {
    seq!['/' as u8, 'p' as u8, 'r' as u8, 'o' as u8, 'c' as u8, '/' as u8]
}

/// `/cwd`, as bytes.
pub open spec fn cwd_suffix() -> Seq<u8> {
    seq!['/' as u8, 'c' as u8, 'w' as u8, 'd' as u8]
}

/// The path of the link to the working directory of the process `pid`:
/// `/proc/<pid>/cwd`.
pub open spec fn cwd_link(pid: u32) -> Seq<u8> {
    proc_prefix() + decimal(pid as nat) + cwd_suffix()
}

/// The path of the link to the working directory of the process `pid`.
pub fn cwd_link_path(pid: u32) -> (path: Vec<u8>)
    ensures
        path@ == cwd_link(pid),
{
    let mut path: Vec<u8> = Vec::new();
    push_all(&mut path, &['/' as u8, 'p' as u8, 'r' as u8, 'o' as u8, 'c' as u8, '/' as u8]);
    push_decimal(&mut path, pid);
    push_all(&mut path, &['/' as u8, 'c' as u8, 'w' as u8, 'd' as u8]);
    proof {
        assert(path@ =~= cwd_link(pid));
    }
    path
}

/// Whose link is being read.
#[derive(Debug, Clone, Copy, PartialEq, Eq)]
pub enum Probe {
    /// That of the leader of the foreground process group, with its id.
    Leader(u32),
    /// That of the session.
    Session,
}

/// What the lookup asks for next, or how it ended.
#[derive(Debug, Clone, PartialEq, Eq)]
pub enum Step {
    /// Read the link at the path, and come back with `after_link`.
    ReadLink(Probe, Vec<u8>),
    /// Ask for the session id of the process, and come back with
    /// `after_session`.
    AskSession(u32),
    /// The working directory, as the bytes of the link's target.
    Found(Vec<u8>),
    /// No link could be read.
    Failed(Error),
}

/// A step of the lookup as a mathematical value.
pub enum StepView {
    /// Read the link at the path.
    ReadLink(Probe, Seq<u8>),
    /// Ask for the session id of the process.
    AskSession(u32),
    /// The working directory.
    Found(Seq<u8>),
    /// No link could be read.
    Failed(Error),
}

impl View for Step {
    type V = StepView;

    open spec fn view(&self) -> StepView {
        match self {
            Step::ReadLink(probe, path) => StepView::ReadLink(*probe, path@),
            Step::AskSession(pid) => StepView::AskSession(*pid),
            Step::Found(target) => StepView::Found(target@),
            Step::Failed(e) => StepView::Failed(*e),
        }
    }
}

/// The first step, once the pseudo-terminal was asked for the leader of its
/// foreground process group: the link of the leader is read; without a
/// leader nothing is found.
pub fn begin(leader: Option<u32>) -> (step: Step)
    ensures
        step@ == match leader {
            Some(pid) => StepView::ReadLink(Probe::Leader(pid), cwd_link(pid)),
            None => StepView::Failed(Error::NotFound),
        },
{
    match leader {
        Some(pid) => Step::ReadLink(Probe::Leader(pid), cwd_link_path(pid)),
        None => Step::Failed(Error::NotFound),
    }
}

/// The step after a link was read, `target` being what it points to, if it
/// could be read. A target that is not empty is the answer. Else the
/// session of the leader is asked for; after the link of the session,
/// nothing is left to try.
pub fn after_link(probe: Probe, target: Option<Vec<u8>>) -> (step: Step)
    ensures
        step@ == match target {
            Some(bytes) if bytes@.len() > 0 => StepView::Found(bytes@),
            _ => match probe {
                Probe::Leader(pid) => StepView::AskSession(pid),
                Probe::Session => StepView::Failed(Error::NotFound),
            },
        },
{
    match target {
        Some(bytes) if bytes.len() > 0 => Step::Found(bytes),
        _ => match probe {
            Probe::Leader(pid) => Step::AskSession(pid),
            Probe::Session => Step::Failed(Error::NotFound),
        },
    }
}

/// The step after the session id was asked for: its link is read; without
/// a session id nothing is found.
pub fn after_session(session: Option<u32>) -> (step: Step)
    ensures
        step@ == match session {
            Some(sid) => StepView::ReadLink(Probe::Session, cwd_link(sid)),
            None => StepView::Failed(Error::NotFound),
        },
{
    match session {
        Some(sid) => Step::ReadLink(Probe::Session, cwd_link_path(sid)),
        None => Step::Failed(Error::NotFound),
    }
}

} // verus!
