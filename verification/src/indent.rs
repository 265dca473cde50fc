//! The unit of indentation of a buffer.

use vstd::prelude::*;
use vstd::string::*;

verus! {

/// How a buffer indents: with one tab character, or with a fixed run of
/// spaces.
#[derive(Debug)]
pub enum Indent {
    Tabs,
    Spaces(String),
}

/// A run of `n` spaces.
pub open spec fn blanks(n: nat) -> Seq<char> {
    Seq::new(n, |i: int| ' ')
}

/// The width in columns at which a tab is shown where the buffer indents with
/// tabs.
pub const TAB_WIDTH: usize = 4;

impl Indent {
    /// An indentation with spaces is a run of at least one space and of
    /// nothing else.
    pub open spec fn wf(&self) -> bool {
        match self {
            Indent::Tabs => true,
            Indent::Spaces(run) => run@.len() >= 1 && run@ == blanks(run@.len()),
        }
    }

    /// The number of columns that a tab character takes on the screen.
    pub open spec fn tab_width(&self) -> nat {
        match self {
            Indent::Tabs => TAB_WIDTH as nat,
            Indent::Spaces(run) => run@.len(),
        }
    }

    /// The text that one step of indentation puts at the start of a line.
    pub open spec fn unit(&self) -> Seq<char> {
        match self {
            Indent::Tabs => seq!['\t'],
            Indent::Spaces(run) => run@,
        }
    }

    /// The text that stands for a tab on the screen: four spaces where the
    /// buffer indents with tabs, else the run of spaces that it indents with.
    pub open spec fn tab_text(&self) -> Seq<char> {
        match self {
            Indent::Tabs => blanks(TAB_WIDTH as nat),
            Indent::Spaces(run) => run@,
        }
    }

    /// The spaces that stand for a tab on the screen.
    pub fn spaces(&self) -> (r: &str)
        ensures
            r@ == self.tab_text(),
            r@.len() == self.tab_width(),
    {
        match self {
            Indent::Tabs => {
                proof {
                    reveal_strlit("    ");
                    assert("    "@ =~= blanks(4));
                }
                "    "
            },
            Indent::Spaces(run) => run.as_str(),
        }
    }

    /// The number of columns that one step of indentation moves text by: one
    /// for a tab, the length of the run for spaces.
    pub fn step(&self) -> (n: usize)
        ensures
            n == self.unit().len(),
            2 * n <= usize::MAX,
    {
        match self {
            Indent::Tabs => 1,
            Indent::Spaces(run) => {
                let _ = run.len();
                proof {
                    crate::text::lemma_byte_len_bounds(run@);
                }
                run.as_str().unicode_len()
            },
        }
    }

    /// Indentation with a run of `width` spaces.
    pub fn with_spaces(width: usize) -> (r: Indent)
        ensures
            r matches Indent::Spaces(run) && run@ == blanks(width as nat),
            width >= 1 ==> r.wf(),
    {
        let mut run = String::new();
        let mut i: usize = 0;
        while i < width
            invariant
                i <= width,
                run@ == blanks(i as nat),
            decreases width - i,
        {
            run.push(' ');
            i = i + 1;
            assert(run@ =~= blanks(i as nat));
        }
        assert(run@ =~= blanks(run@.len()));
        Indent::Spaces(run)
    }

    /// Whether the indentation is well formed.
    #[verifier::loop_isolation(false)]
    pub fn is_valid(&self) -> (r: bool)
        ensures
            r == self.wf(),
    {
        match self {
            Indent::Tabs => true,
            Indent::Spaces(run) => {
                let chars = crate::text::to_chars(run.as_str());
                let mut i: usize = 0;
                while i < chars.len()
                    invariant
                        i <= chars.len(),
                        chars@ == run@,
                        forall|k: int| 0 <= k < i ==> run@[k] == ' ',
                    decreases chars.len() - i,
                {
                    if chars[i] != ' ' {
                        assert(run@[i as int] != ' ');
                        assert(blanks(run@.len())[i as int] == ' ');
                        return false;
                    }
                    i = i + 1;
                }
                assert(run@ =~= blanks(run@.len()));
                chars.len() >= 1
            },
        }
    }

    /// A copy of the indentation.
    pub fn duplicate(&self) -> (r: Indent)
        ensures
            r == *self,
    {
        match self {
            Indent::Tabs => Indent::Tabs,
            Indent::Spaces(run) => Indent::Spaces(run.clone()),
        }
    }
}

impl Default for Indent {
    /// Four spaces.
    fn default() -> (r: Indent)
        ensures
            r matches Indent::Spaces(run) && run@ == blanks(4),
            r.wf(),
    {
        Indent::with_spaces(4)
    }
}

} // verus!
