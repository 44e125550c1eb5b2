//! Properties that relate the parser and the interpreter, proved over their models.
use vstd::prelude::*;
use crate::command_output::OutputView;
use crate::error::ErrorView;
use crate::shell_command::{
    execute_spec, first_blank, parse_spec, parse_stage_spec, parse_stages_spec, request_spec,
    CommandView, RequestView,
};
use crate::text::{is_space, split_spec, tokens_spec, trim_end_spec, trim_spec, trim_start_spec};

verus! {

/// A text without the separator is a single piece.
pub proof fn lemma_split_without_sep(s: Seq<char>, sep: char)
    requires
        !s.contains(sep),
    ensures
        split_spec(s, sep) == seq![s],
    decreases s.len(),
{
    if s.len() > 0 {
        assert(!s.drop_last().contains(sep)) by {
            if s.drop_last().contains(sep) {
                let k = choose|k: int| 0 <= k < s.drop_last().len() && s.drop_last()[k] == sep;
                assert(s[k] == sep);
            }
        }
        lemma_split_without_sep(s.drop_last(), sep);
        assert(s.last() != sep) by {
            assert(s[s.len() - 1] == s.last());
        }
        assert(s.drop_last().push(s.last()) =~= s);
        assert(seq![s.drop_last()].update(0, s.drop_last().push(s.last())) =~= seq![s]);
    } else {
        assert(s =~= Seq::<char>::empty());
    }
}

/// Splitting `x`, a separator, then `y` splits `x` and `y` apart.
pub proof fn lemma_split_append(x: Seq<char>, y: Seq<char>, sep: char)
    ensures
        split_spec(x + seq![sep] + y, sep) == split_spec(x, sep) + split_spec(y, sep),
    decreases y.len(),
{
    let s = x + seq![sep] + y;
    if y.len() == 0 {
        assert(s.drop_last() =~= x);
        assert(split_spec(y, sep) =~= seq![Seq::<char>::empty()]);
    } else {
        assert(s.drop_last() =~= x + seq![sep] + y.drop_last());
        lemma_split_append(x, y.drop_last(), sep);
        crate::text::lemma_split_nonempty(y.drop_last(), sep);
        crate::text::lemma_split_nonempty(x, sep);
        let a = split_spec(x, sep);
        let b = split_spec(y.drop_last(), sep);
        assert(s.last() == y.last());
        if y.last() == sep {
            assert((a + b).push(Seq::<char>::empty()) =~= a + b.push(Seq::<char>::empty()));
        } else {
            assert((a + b).update((a + b).len() - 1, (a + b).last().push(y.last())) =~= a
                + b.update(b.len() - 1, b.last().push(y.last())));
        }
    }
}

/// A text whose tokens are not all gone has a character that is not whitespace.
proof fn lemma_tokens_nonempty(s: Seq<char>)
    requires
        tokens_spec(s).len() > 0,
    ensures
        exists|i: int| 0 <= i < s.len() && !is_space(s[i]),
    decreases s.len(),
{
    if is_space(s.last()) {
        lemma_tokens_nonempty(s.drop_last());
        let i = choose|i: int| 0 <= i < s.drop_last().len() && !is_space(s.drop_last()[i]);
        assert(!is_space(s[i]));
    } else {
        assert(!is_space(s[s.len() - 1]));
    }
}

proof fn lemma_trim_start_keeps(s: Seq<char>, i: int)
    requires
        0 <= i < s.len(),
        !is_space(s[i]),
    ensures
        trim_start_spec(s).len() > 0,
        exists|j: int| 0 <= j < trim_start_spec(s).len() && !is_space(trim_start_spec(s)[j]),
    decreases s.len(),
{
    if is_space(s[0]) {
        assert(s.drop_first()[i - 1] == s[i]);
        lemma_trim_start_keeps(s.drop_first(), i - 1);
    } else {
        assert(trim_start_spec(s)[0] == s[0]);
    }
}

proof fn lemma_trim_end_keeps(s: Seq<char>, i: int)
    requires
        0 <= i < s.len(),
        !is_space(s[i]),
    ensures
        trim_end_spec(s).len() > 0,
    decreases s.len(),
{
    if is_space(s.last()) {
        assert(i != s.len() - 1);
        assert(s.drop_last()[i] == s[i]);
        lemma_trim_end_keeps(s.drop_last(), i);
    }
}

/// A stage that parses is not blank.
pub proof fn lemma_parsed_stage_not_blank(s: Seq<char>)
    requires
        parse_stage_spec(s) is Ok,
    ensures
        trim_spec(s).len() > 0,
{
    lemma_tokens_nonempty(s);
    let i = choose|i: int| 0 <= i < s.len() && !is_space(s[i]);
    lemma_trim_start_keeps(s, i);
    let t = trim_start_spec(s);
    let j = choose|j: int| 0 <= j < t.len() && !is_space(t[j]);
    lemma_trim_end_keeps(t, j);
}

/// The pipe is right-associative: for stages `a`, `b` and `c` that hold no `|` and
/// each parse on their own, `a|b|c` parses to `Pipe(a, Pipe(b, c))`.
pub proof fn pipe_is_right_associative(a: Seq<char>, b: Seq<char>, c: Seq<char>)
    requires
        !a.contains('|'),
        !b.contains('|'),
        !c.contains('|'),
        parse_stage_spec(a) is Ok,
        parse_stage_spec(b) is Ok,
        parse_stage_spec(c) is Ok,
    ensures
        parse_spec(a + seq!['|'] + b + seq!['|'] + c) == Ok::<CommandView, ErrorView>(
            CommandView::Pipe(
                Box::new(parse_stage_spec(a)->Ok_0),
                Box::new(
                    CommandView::Pipe(
                        Box::new(parse_stage_spec(b)->Ok_0),
                        Box::new(parse_stage_spec(c)->Ok_0),
                    ),
                ),
            ),
        ),
{
    let raw = a + seq!['|'] + b + seq!['|'] + c;
    lemma_split_append(a + seq!['|'] + b, c, '|');
    lemma_split_append(a, b, '|');
    lemma_split_without_sep(a, '|');
    lemma_split_without_sep(b, '|');
    lemma_split_without_sep(c, '|');
    let stages = split_spec(raw, '|');
    assert(stages =~= seq![a, b, c]);
    lemma_parsed_stage_not_blank(a);
    lemma_parsed_stage_not_blank(b);
    lemma_parsed_stage_not_blank(c);
    lemma_no_blank_one(c);
    assert(seq![b, c].drop_first() =~= seq![c]);
    assert(seq![b, c][0] == b);
    assert(first_blank(seq![b, c]) is None);
    assert(stages.drop_first() =~= seq![b, c]);
    assert(stages[0] == a);
    assert(first_blank(stages) is None);
    assert(parse_stages_spec(seq![c]) == parse_stage_spec(c));
    assert(parse_stages_spec(seq![b, c]) == Ok::<CommandView, ErrorView>(
        CommandView::Pipe(
            Box::new(parse_stage_spec(b)->Ok_0),
            Box::new(parse_stage_spec(c)->Ok_0),
        ),
    ));
}

proof fn lemma_no_blank_one(c: Seq<char>)
    requires
        trim_spec(c).len() > 0,
    ensures
        first_blank(seq![c]) is None,
{
    assert(seq![c][0] == c);
    assert(seq![c].drop_first() =~= Seq::<Seq<char>>::empty());
    assert(first_blank(Seq::<Seq<char>>::empty()) is None);
}

/// A line with a stage that is empty once trimmed fails to parse with
/// `EmptyCommandInPipe`, whatever the other stages hold.
pub proof fn empty_stage_is_rejected(raw: Seq<char>, i: int)
    requires
        0 <= i < split_spec(raw, '|').len(),
        trim_spec(split_spec(raw, '|')[i]).len() == 0,
    ensures
        parse_spec(raw) matches Err(ErrorView::EmptyCommandInPipe(_)),
{
    lemma_first_blank_found(split_spec(raw, '|'), i);
}

proof fn lemma_first_blank_found(stages: Seq<Seq<char>>, i: int)
    requires
        0 <= i < stages.len(),
        trim_spec(stages[i]).len() == 0,
    ensures
        first_blank(stages) is Some,
    decreases i,
{
    if i > 0 && trim_spec(stages[0]).len() != 0 {
        assert(stages.drop_first()[i - 1] == stages[i]);
        lemma_first_blank_found(stages.drop_first(), i - 1);
    }
}

/// How a stage parses depends on its tokens alone, not on the whitespace around them.
pub proof fn stage_depends_on_tokens_only(a: Seq<char>, b: Seq<char>)
    requires
        tokens_spec(a) == tokens_spec(b),
    ensures
        parse_stage_spec(a) == parse_stage_spec(b),
{
}

/// A stage whose first token is `cat` is never an unknown command: without a file it
/// has the wrong number of arguments, and with one or more files it is `Cat` of those
/// files, in order.
pub proof fn cat_stage_arity(stage: Seq<char>)
    requires
        tokens_spec(stage).len() >= 1,
        tokens_spec(stage)[0] == "cat"@,
    ensures
        tokens_spec(stage).len() == 1 ==> parse_stage_spec(stage) == Err::<CommandView, ErrorView>(
            ErrorView::KnownCommandWrongArgs("cat"@),
        ),
        tokens_spec(stage).len() >= 2 ==> parse_stage_spec(stage) == Ok::<CommandView, ErrorView>(
            CommandView::Cat(tokens_spec(stage).subrange(1, tokens_spec(stage).len() as int)),
        ),
{
    reveal_strlit("cat");
    reveal_strlit("more");
    reveal_strlit("ls");
    reveal_strlit("cd");
    reveal_strlit("find-file");
    reveal_strlit("find-string");
    reveal_strlit("subs-string");
    let t = tokens_spec(stage);
    assert(t[0] != "more"@ && t[0] != "ls"@ && t[0] != "cd"@ && t[0] != "find-file"@ && t[0]
        != "find-string"@ && t[0] != "subs-string"@) by {
        assert(t[0].len() == 3);
        assert(t[0][0] == 'c' && t[0][1] == 'a');
    }
}

/// The same holds of a whole command line made of one such stage.
pub proof fn cat_arity(raw: Seq<char>)
    requires
        !raw.contains('|'),
        tokens_spec(raw).len() >= 1,
        tokens_spec(raw)[0] == "cat"@,
    ensures
        tokens_spec(raw).len() == 1 ==> parse_spec(raw) == Err::<CommandView, ErrorView>(
            ErrorView::KnownCommandWrongArgs("cat"@),
        ),
        tokens_spec(raw).len() >= 2 ==> parse_spec(raw) == Ok::<CommandView, ErrorView>(
            CommandView::Cat(tokens_spec(raw).subrange(1, tokens_spec(raw).len() as int)),
        ),
{
    cat_stage_arity(raw);
    lemma_split_without_sep(raw, '|');
    lemma_tokens_nonempty(raw);
    let i = choose|i: int| 0 <= i < raw.len() && !is_space(raw[i]);
    lemma_trim_start_keeps(raw, i);
    let ts = trim_start_spec(raw);
    let j = choose|j: int| 0 <= j < ts.len() && !is_space(ts[j]);
    lemma_trim_end_keeps(ts, j);
    lemma_no_blank_one(raw);
}

/// Reading a file is the same as concatenating that one file: the same filesystem
/// request, and the same result for every answer.
pub proof fn read_is_cat_of_one(path: Seq<char>, answer: Result<Seq<Seq<char>>, std::io::Error>)
    ensures
        request_spec(CommandView::More(path)) == request_spec(CommandView::Cat(seq![path])),
        execute_spec(CommandView::More(path), answer) == execute_spec(
            CommandView::Cat(seq![path]),
            answer,
        ),
        forall|content: Seq<char>|
            execute_spec(CommandView::More(path), Ok(seq![content])) == Ok::<
                OutputView,
                ErrorView,
            >(OutputView::Single(content)),
{
    assert forall|content: Seq<char>|
        execute_spec(CommandView::More(path), Ok(seq![content])) == Ok::<OutputView, ErrorView>(
            OutputView::Single(content),
        ) by {
        let cs = seq![content];
        assert(cs.drop_last() =~= Seq::<Seq<char>>::empty());
        assert(cs.last() == content);
        assert(crate::text::concat_spec(Seq::<Seq<char>>::empty()) == Seq::<char>::empty());
        assert(crate::text::concat_spec(cs) =~= content);
    }
}

/// Concatenating two files gives the first file's contents immediately followed by the
/// second's: `Cat([a, b])` asks for both files in order, and for their contents yields
/// what reading `a` yields followed by what reading `b` yields.
pub proof fn cat_is_reads_in_order(
    a: Seq<char>,
    b: Seq<char>,
    content_a: Seq<char>,
    content_b: Seq<char>,
)
    ensures
        request_spec(CommandView::Cat(seq![a, b])) == Some(RequestView::ReadFiles(seq![a, b])),
        request_spec(CommandView::More(a)) == Some(RequestView::ReadFiles(seq![a])),
        request_spec(CommandView::More(b)) == Some(RequestView::ReadFiles(seq![b])),
        execute_spec(CommandView::More(a), Ok(seq![content_a])) == Ok::<OutputView, ErrorView>(
            OutputView::Single(content_a),
        ),
        execute_spec(CommandView::More(b), Ok(seq![content_b])) == Ok::<OutputView, ErrorView>(
            OutputView::Single(content_b),
        ),
        execute_spec(CommandView::Cat(seq![a, b]), Ok(seq![content_a, content_b])) == Ok::<
            OutputView,
            ErrorView,
        >(OutputView::Single(content_a + content_b)),
{
    read_is_cat_of_one(a, Ok(seq![content_a]));
    read_is_cat_of_one(b, Ok(seq![content_b]));
    let cs = seq![content_a, content_b];
    assert(cs.drop_last() =~= seq![content_a]);
    assert(seq![content_a].drop_last() =~= Seq::<Seq<char>>::empty());
    assert(crate::text::concat_spec(seq![content_a]) =~= content_a);
}

/// A search that needs piped input fails with `ExpectedPipeInput` when run on its own,
/// and with `NoInputForPipe` when its left stage produced no output.
pub proof fn search_needs_input(
    pattern: Seq<char>,
    left: CommandView,
    answer: Result<Seq<Seq<char>>, std::io::Error>,
)
    ensures
        execute_spec(CommandView::FindString(None, pattern), answer) == Err::<
            OutputView,
            ErrorView,
        >(ErrorView::ExpectedPipeInput(CommandView::FindString(None, pattern))),
        execute_spec(left, answer) == Ok::<OutputView, ErrorView>(OutputView::Empty)
            ==> execute_spec(
            CommandView::Pipe(Box::new(left), Box::new(CommandView::FindString(None, pattern))),
            answer,
        ) == Err::<OutputView, ErrorView>(
            ErrorView::NoInputForPipe(
                CommandView::Pipe(
                    Box::new(left),
                    Box::new(CommandView::FindString(None, pattern)),
                ),
            ),
        ),
{
}

} // verus!
