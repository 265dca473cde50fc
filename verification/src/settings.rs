//! Settings of an editor window.

use crate::indent::Indent;
use vstd::prelude::*;

verus! {

/// How much of the screen the editor takes.
#[derive(Debug, Clone, Copy, PartialEq, Eq, Structural)]
pub enum Fullscreen {
    Off,
    Half,
    Full,
}

impl Fullscreen {
    /// The next setting in the cycle off, half, full, off.
    pub fn toggle(&self) -> (r: Fullscreen)
        ensures
            r == match *self {
                Fullscreen::Off => Fullscreen::Half,
                Fullscreen::Half => Fullscreen::Full,
                Fullscreen::Full => Fullscreen::Off,
            },
    {
        match self {
            Fullscreen::Off => Fullscreen::Half,
            Fullscreen::Half => Fullscreen::Full,
            Fullscreen::Full => Fullscreen::Off,
        }
    }

    /// Toggling three times gives the setting back.
    pub proof fn lemma_toggle_cycle(self)
        ensures
            self.spec_toggle().spec_toggle().spec_toggle() == self,
            self.spec_toggle() != self,
    {
    }

    /// The next setting in the cycle.
    pub open spec fn spec_toggle(self) -> Fullscreen {
        match self {
            Fullscreen::Off => Fullscreen::Half,
            Fullscreen::Half => Fullscreen::Full,
            Fullscreen::Full => Fullscreen::Off,
        }
    }
}

impl Default for Fullscreen {
    fn default() -> (r: Fullscreen)
        ensures
            r == Fullscreen::Off,
    {
        Fullscreen::Off
    }
}

/// What a user can set for an editor window.
#[derive(Debug)]
pub struct Settings {
    pub indent: Indent,
    pub line_numbers: bool,
    pub fullscreen: Fullscreen,
}

impl Default for Settings {
    /// Indentation with four spaces, no line numbers, not full screen.
    fn default() -> (r: Settings)
        ensures
            r.indent.wf(),
            r.indent.tab_width() == 4,
            !r.line_numbers,
            r.fullscreen == Fullscreen::Off,
    {
        Settings { indent: Indent::default(), line_numbers: false, fullscreen: Fullscreen::Off }
    }
}

} // verus!
