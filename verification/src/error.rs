//! Errors of the collaborator services the demo starts up with.
//!
//! Every one of these is fatal: the entry point prints the message and
//! terminates with a non-zero status. None is recoverable or retried.

use vstd::prelude::*;

verus! {

/// A failure while bringing up a windowing, drawing or font service.
#[derive(Clone, Copy, Debug)]
pub enum SDLError {
    /// The media-library context could not be initialized.
    LoadSDLContext,
    /// The video subsystem could not be initialized.
    LoadVideoSubsystem,
    /// The font-rendering context could not be initialized.
    LoadTtfContext,
    /// The window could not be built.
    BuildWindow,
    /// The drawing canvas could not be built.
    BuildCanvas,
}

/// The diagnostic text of each failure.
pub open spec fn spec_message(e: SDLError) -> Seq<char> {
    match e {
        SDLError::LoadSDLContext => "Failt at loading SDL context."@,
        SDLError::LoadVideoSubsystem => "Fail at loading SDL video subsystem."@,
        SDLError::LoadTtfContext => "Failt at loading ttf context."@,
        SDLError::BuildWindow => "Fail at building window."@,
        SDLError::BuildCanvas => "Fail at building canvas."@,
    }
}

impl SDLError {
    /// The human-readable diagnostic for this failure.
    pub fn message(&self) -> (text: &'static str)
        ensures
            text@ == spec_message(*self),
    {
        match self {
            SDLError::LoadSDLContext => "Failt at loading SDL context.",
            SDLError::LoadVideoSubsystem => "Fail at loading SDL video subsystem.",
            SDLError::LoadTtfContext => "Failt at loading ttf context.",
            SDLError::BuildWindow => "Fail at building window.",
            SDLError::BuildCanvas => "Fail at building canvas.",
        }
    }
}

} // verus!
