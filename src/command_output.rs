//! The output of a command and its conversion to text for the next stage.
use vstd::prelude::*;
use crate::text::{join_spaced, join_spec, views};

verus! {

/// Represents the output of a command: a single line, several lines, or nothing.
#[derive(Clone, Debug)]
pub enum CommandOutput {
    Single(String),
    List(Vec<String>),
    Empty,
}

/// The mathematical value of a `CommandOutput`.
pub enum OutputView {
    Single(Seq<char>),
    List(Seq<Seq<char>>),
    Empty,
}

impl View for CommandOutput {
    type V = OutputView;

    open spec fn view(&self) -> OutputView {
        match self {
            CommandOutput::Single(s) => OutputView::Single(s@),
            CommandOutput::List(v) => OutputView::List(views(v@)),
            CommandOutput::Empty => OutputView::Empty,
        }
    }
}

/// The text an output hands to the next stage of a pipe: a single line as it is,
/// lines joined by single spaces, and no text at all for an empty output.
pub open spec fn text_of(o: OutputView) -> Option<Seq<char>> {
    match o {
        OutputView::Single(s) => Some(s),
        OutputView::List(lines) => Some(join_spec(lines)),
        OutputView::Empty => None,
    }
}

/// The lines a user sees for an output, one per displayed line.
pub open spec fn display_lines(o: OutputView) -> Seq<Seq<char>> {
    match o {
        OutputView::Single(s) => seq![s],
        OutputView::List(lines) => lines,
        OutputView::Empty => Seq::empty(),
    }
}

impl CommandOutput {
    /// Converts the output into a single string; `None` has no text.
    pub fn to_string(self) -> (r: Option<String>)
        ensures
            r matches Some(s) ==> text_of(self@) == Some(s@),
            r is None <==> text_of(self@) is None,
    {
        match self {
            CommandOutput::List(results) => Some(join_spaced(&results)),
            CommandOutput::Single(result) => Some(result),
            CommandOutput::Empty => None,
        }
    }

    /// The lines that displaying this output prints, in order.
    pub fn display(&self) -> (r: Vec<String>)
        ensures
            views(r@) == display_lines(self@),
    {
        match self {
            CommandOutput::Single(s) => {
                let r = vec![s.clone()];
                proof {
                    assert(views(r@) =~= seq![s@]);
                }
                r
            },
            CommandOutput::List(v) => {
                let mut r: Vec<String> = Vec::new();
                let mut i: usize = 0;
                while i < v.len()
                    invariant
                        i <= v@.len(),
                        views(r@) == views(v@).subrange(0, i as int),
                    decreases v@.len() - i,
                {
                    let ghost before = r@;
                    r.push(v[i].clone());
                    proof {
                        assert(views(r@) =~= views(before).push(v@[i as int]@));
                        assert(views(v@).subrange(0, i + 1) =~= views(v@).subrange(0, i as int).push(
                            v@[i as int]@,
                        ));
                    }
                    i = i + 1;
                }
                proof {
                    assert(views(v@).subrange(0, v@.len() as int) =~= views(v@));
                }
                r
            },
            CommandOutput::Empty => {
                let r: Vec<String> = Vec::new();
                proof {
                    assert(views(r@) =~= Seq::<Seq<char>>::empty());
                }
                r
            },
        }
    }
}

} // verus!
