//! The computing commands: line search, substitution and concatenation.
use vstd::prelude::*;
use crate::command_output::{CommandOutput, OutputView};
use crate::text::{concat_all, concat_spec, contains, contains_spec, replace, replace_spec, split_on, split_spec, views};

verus! {

/// The lines of `content` (separated by `'\n'`) in which `pattern` occurs, in order.
pub open spec fn matching_lines(content: Seq<char>, pattern: Seq<char>) -> Seq<Seq<char>> {
    split_spec(content, '\n').filter(|line: Seq<char>| contains_spec(line, pattern))
}

/// "grep"-like search: all the lines of `content` in which `search_str` occurs.
pub fn find_string(content: &String, search_str: &String) -> (r: CommandOutput)
    ensures
        r@ == OutputView::List(matching_lines(content@, search_str@)),
{
    let lines = split_on(content.as_str(), '\n');
    let ghost all = views(lines@);
    let mut matches: Vec<String> = Vec::new();
    let mut i: usize = 0;
    while i < lines.len()
        invariant
            i <= lines@.len(),
            all == views(lines@),
            all == split_spec(content@, '\n'),
            views(matches@) == all.subrange(0, i as int).filter(
                |line: Seq<char>| contains_spec(line, search_str@),
            ),
        decreases lines@.len() - i,
    {
        let ghost before = matches@;
        let ghost pred = |line: Seq<char>| contains_spec(line, search_str@);
        proof {
            reveal(Seq::filter);
            assert(all.subrange(0, i + 1).drop_last() =~= all.subrange(0, i as int));
            assert(all.subrange(0, i + 1).last() == lines@[i as int]@);
        }
        if contains(lines[i].as_str(), search_str.as_str()) {
            matches.push(lines[i].clone());
            proof {
                assert(views(matches@) =~= views(before).push(lines@[i as int]@));
            }
        }
        i = i + 1;
    }
    proof {
        assert(all.subrange(0, lines@.len() as int) =~= all);
    }
    CommandOutput::List(matches)
}

/// Changes every occurrence of `from` in `original` to `to`.
pub fn subs_string(original: &String, from: &String, to: &String) -> (r: CommandOutput)
    ensures
        r@ == OutputView::Single(replace_spec(original@, from@, to@)),
{
    CommandOutput::Single(replace(original.as_str(), from.as_str(), to.as_str()))
}

/// The contents of several files, already read in argument order, as one output.
pub fn cat_files(contents: &Vec<String>) -> (r: CommandOutput)
    ensures
        r@ == OutputView::Single(concat_spec(views(contents@))),
{
    CommandOutput::Single(concat_all(contents))
}

} // verus!
