//! What is to be done in a frame of the game.
//!
//! The exporter acts only while a game is loaded, and only when the coach has asked,
//! so that the data is fresh and nothing is exported wastefully.

use crate::paths::{PORTRAIT_REQUEST_FILE, REQUEST_FILE};
use vstd::prelude::*;

verus! {

/// What the coach can ask for.
#[derive(Debug, Clone, Copy, PartialEq, Eq, Structural)]
pub enum Request {
    Export,
    Portraits,
}

/// A step of a frame.
#[derive(Debug, Clone, Copy, PartialEq, Eq, Structural)]
pub enum FrameStep {
    /// Look whether the coach has asked.
    Look(Request),
    /// Export what the coach has asked for.
    Run(Request),
    /// Remove the request, so that each is handled once.
    Clear(Request),
    /// Nothing is left to do in this frame.
    Done,
}

impl Request {
    /// The file with which the coach asks.
    pub open spec fn file_name(self) -> Seq<char> {
        match self {
            Request::Export => REQUEST_FILE@,
            Request::Portraits => PORTRAIT_REQUEST_FILE@,
        }
    }

    /// The file with which the coach asks.
    pub fn file(&self) -> (name: &'static str)
        ensures
            name@ == self.file_name(),
    {
        match self {
            Request::Export => REQUEST_FILE,
            Request::Portraits => PORTRAIT_REQUEST_FILE,
        }
    }
}

impl FrameStep {
    /// The first step of a frame.
    pub open spec fn first_step(in_game: bool) -> FrameStep {
        if in_game {
            FrameStep::Look(Request::Portraits)
        } else {
            FrameStep::Done
        }
    }

    /// The step after this one. What was seen counts where the step was to look.
    pub open spec fn next_step(self, seen: bool) -> FrameStep {
        match self {
            FrameStep::Look(request) => if seen {
                FrameStep::Run(request)
            } else if request == Request::Portraits {
                FrameStep::Look(Request::Export)
            } else {
                FrameStep::Done
            },
            FrameStep::Run(request) => FrameStep::Clear(request),
            FrameStep::Clear(_) => FrameStep::Done,
            FrameStep::Done => FrameStep::Done,
        }
    }

    /// The first step of a frame.
    pub fn first(in_game: bool) -> (step: FrameStep)
        ensures
            step == FrameStep::first_step(in_game),
    {
        if in_game {
            FrameStep::Look(Request::Portraits)
        } else {
            FrameStep::Done
        }
    }

    /// The step after this one, given whether a request was seen.
    pub fn next(self, seen: bool) -> (step: FrameStep)
        ensures
            step == self.next_step(seen),
    {
        match self {
            FrameStep::Look(request) => {
                if seen {
                    FrameStep::Run(request)
                } else {
                    match request {
                        Request::Portraits => FrameStep::Look(Request::Export),
                        Request::Export => FrameStep::Done,
                    }
                }
            },
            FrameStep::Run(request) => FrameStep::Clear(request),
            FrameStep::Clear(_) => FrameStep::Done,
            FrameStep::Done => FrameStep::Done,
        }
    }

    /// How many steps are left at most.
    pub open spec fn steps_left(self) -> nat {
        match self {
            FrameStep::Look(Request::Portraits) => 4,
            FrameStep::Look(Request::Export) => 3,
            FrameStep::Run(_) => 2,
            FrameStep::Clear(_) => 1,
            FrameStep::Done => 0,
        }
    }
}

/// The steps from a step on, given which requests are there.
pub open spec fn steps_from(step: FrameStep, portraits: bool, export: bool) -> Seq<FrameStep>
    decreases step.steps_left(),
{
    let seen = match step {
        FrameStep::Look(Request::Portraits) => portraits,
        _ => export,
    };
    if step == FrameStep::Done {
        Seq::empty()
    } else {
        seq![step] + steps_from(step.next_step(seen), portraits, export)
    }
}

/// Outside a game nothing is done. In a game, a request for portraits is handled and
/// removed, and comes before a request for an export, which is handled and removed
/// otherwise. Without a request nothing is exported and nothing is removed.
pub proof fn law_each_request_is_handled_once(in_game: bool, portraits: bool, export: bool)
    ensures
        steps_from(FrameStep::first_step(in_game), portraits, export) == (if !in_game {
            Seq::<FrameStep>::empty()
        } else if portraits {
            seq![
                FrameStep::Look(Request::Portraits),
                FrameStep::Run(Request::Portraits),
                FrameStep::Clear(Request::Portraits),
            ]
        } else if export {
            seq![
                FrameStep::Look(Request::Portraits),
                FrameStep::Look(Request::Export),
                FrameStep::Run(Request::Export),
                FrameStep::Clear(Request::Export),
            ]
        } else {
            seq![FrameStep::Look(Request::Portraits), FrameStep::Look(Request::Export)]
        }),
{
    reveal_with_fuel(steps_from, 6);
}

/// A frame comes to an end: each step leaves fewer steps.
pub proof fn law_frames_end(step: FrameStep, seen: bool)
    ensures
        step != FrameStep::Done ==> step.next_step(seen).steps_left() < step.steps_left(),
        step == FrameStep::Done <==> step.steps_left() == 0,
{
}

} // verus!
