//! The command tree, its parser, and the sequential interpreter.
use vstd::prelude::*;
use crate::command_output::{CommandOutput, OutputView, text_of};
use crate::commands::{cat_files, find_string, matching_lines, subs_string};
use crate::error::{ErrorView, ShellError};
use crate::text::{
    concat_spec, replace_spec, split_on, split_spec, tokens, tokens_spec, trim,
    trim_spec, views,
};

verus! {

/// All the commands the shell can execute.
#[derive(Debug)]
pub enum ShellCommand {
    /// Print the contents of a file.
    More(String),
    /// Concatenate the contents of files, in argument order.
    Cat(Vec<String>),
    /// List the entries of a directory.
    Ls(String),
    /// Change the current working directory.
    Cd(String),
    /// `FindFile(starting_dir, search_name)`: look for entries named `search_name`,
    /// recursively under `starting_dir`. Written `find-file <starting_dir> <search_name>`.
    FindFile(String, String),
    /// `FindString(content, pattern)`: the lines of `content` in which `pattern` occurs.
    /// Without content the stage takes its content from a pipe.
    FindString(Option<String>, String),
    /// `SubsString(content, from, to)`: replace `from` by `to` in `content`.
    /// Without content the stage takes its content from a pipe.
    SubsString(Option<String>, String, String),
    /// The output of the first command is piped into the second.
    Pipe(Box<ShellCommand>, Box<ShellCommand>),
}

/// The mathematical value of a `ShellCommand`.
pub enum CommandView {
    More(Seq<char>),
    Cat(Seq<Seq<char>>),
    Ls(Seq<char>),
    Cd(Seq<char>),
    FindFile(Seq<char>, Seq<char>),
    FindString(Option<Seq<char>>, Seq<char>),
    SubsString(Option<Seq<char>>, Seq<char>, Seq<char>),
    Pipe(Box<CommandView>, Box<CommandView>),
}

pub open spec fn opt_view(o: Option<String>) -> Option<Seq<char>> {
    match o {
        Some(s) => Some(s@),
        None => None,
    }
}

pub open spec fn command_view(c: ShellCommand) -> CommandView
    decreases c,
{
    match c {
        ShellCommand::More(p) => CommandView::More(p@),
        ShellCommand::Cat(ps) => CommandView::Cat(views(ps@)),
        ShellCommand::Ls(p) => CommandView::Ls(p@),
        ShellCommand::Cd(p) => CommandView::Cd(p@),
        ShellCommand::FindFile(d, n) => CommandView::FindFile(d@, n@),
        ShellCommand::FindString(c, p) => CommandView::FindString(opt_view(c), p@),
        ShellCommand::SubsString(c, f, t) => CommandView::SubsString(opt_view(c), f@, t@),
        ShellCommand::Pipe(l, r) => CommandView::Pipe(
            Box::new(command_view(*l)),
            Box::new(command_view(*r)),
        ),
    }
}

impl View for ShellCommand {
    type V = CommandView;

    open spec fn view(&self) -> CommandView {
        command_view(*self)
    }
}

/// The value of a result whose two sides have views.
pub open spec fn result_view<T: View, E: View>(r: Result<T, E>) -> Result<T::V, E::V> {
    match r {
        Ok(t) => Ok(t@),
        Err(e) => Err(e@),
    }
}

/// The command names the shell knows.
pub open spec fn is_known_name(w: Seq<char>) -> bool {
    w == "more"@ || w == "cat"@ || w == "ls"@ || w == "cd"@ || w == "find-string"@ || w
        == "subs-string"@ || w == "find-file"@
}

/// The meaning of one stage of a command line: its whitespace-separated tokens
/// matched against the grammar of the known commands.
pub open spec fn parse_stage_spec(stage: Seq<char>) -> Result<CommandView, ErrorView> {
    let t = tokens_spec(stage);
    let n = t.len();
    if n == 0 {
        Err(ErrorView::UnknownCommand(Seq::empty()))
    } else if t[0] == "more"@ && n == 2 {
        Ok(CommandView::More(t[1]))
    } else if t[0] == "ls"@ && n == 1 {
        Ok(CommandView::Ls("."@))
    } else if t[0] == "ls"@ && n == 2 {
        Ok(CommandView::Ls(t[1]))
    } else if t[0] == "cd"@ && n == 2 {
        Ok(CommandView::Cd(t[1]))
    } else if t[0] == "find-file"@ && n == 3 {
        Ok(CommandView::FindFile(t[1], t[2]))
    } else if t[0] == "find-string"@ && n == 3 {
        Ok(CommandView::FindString(Some(t[1]), t[2]))
    } else if t[0] == "find-string"@ && n == 2 {
        Ok(CommandView::FindString(None, t[1]))
    } else if t[0] == "subs-string"@ && n == 4 {
        Ok(CommandView::SubsString(Some(t[1]), t[2], t[3]))
    } else if t[0] == "subs-string"@ && n == 3 {
        Ok(CommandView::SubsString(None, t[1], t[2]))
    } else if t[0] == "cat"@ && n >= 2 {
        Ok(CommandView::Cat(t.subrange(1, n as int)))
    } else if is_known_name(t[0]) {
        Err(ErrorView::KnownCommandWrongArgs(t[0]))
    } else {
        Err(ErrorView::UnknownCommand(t[0]))
    }
}

/// The stages folded right to left into a right-leaning tree of pipes.
pub open spec fn parse_stages_spec(stages: Seq<Seq<char>>) -> Result<CommandView, ErrorView>
    decreases stages.len(),
{
    if stages.len() <= 1 {
        parse_stage_spec(stages[0])
    } else {
        match parse_stage_spec(stages[0]) {
            Err(e) => Err(e),
            Ok(first) => match parse_stages_spec(stages.drop_first()) {
                Err(e) => Err(e),
                Ok(rest) => Ok(CommandView::Pipe(Box::new(first), Box::new(rest))),
            },
        }
    }
}

/// The first stage that is empty once trimmed, if any.
pub open spec fn first_blank(stages: Seq<Seq<char>>) -> Option<Seq<char>>
    decreases stages.len(),
{
    if stages.len() == 0 {
        None
    } else if trim_spec(stages[0]).len() == 0 {
        Some(stages[0])
    } else {
        first_blank(stages.drop_first())
    }
}

/// The meaning of a whole command line.
pub open spec fn parse_spec(raw: Seq<char>) -> Result<CommandView, ErrorView> {
    let stages = split_spec(raw, '|');
    match first_blank(stages) {
        Some(s) => Err(ErrorView::EmptyCommandInPipe(s)),
        None => parse_stages_spec(stages),
    }
}

/// What the leading stage of a command needs from the filesystem.
#[derive(Debug)]
pub enum FsRequest {
    /// The contents of these files, each read whole, in this order.
    ReadFiles(Vec<String>),
    /// The entries of this directory.
    ListDir(String),
    /// `FindFile(starting_dir, search_name)`: the paths of all entries named
    /// `search_name`, recursively under `starting_dir`.
    FindFile(String, String),
    /// Make this directory the current working directory.
    ChangeDir(String),
}

/// The mathematical value of an `FsRequest`.
pub enum RequestView {
    ReadFiles(Seq<Seq<char>>),
    ListDir(Seq<char>),
    FindFile(Seq<char>, Seq<char>),
    ChangeDir(Seq<char>),
}

impl View for FsRequest {
    type V = RequestView;

    open spec fn view(&self) -> RequestView {
        match self {
            FsRequest::ReadFiles(ps) => RequestView::ReadFiles(views(ps@)),
            FsRequest::ListDir(p) => RequestView::ListDir(p@),
            FsRequest::FindFile(d, n) => RequestView::FindFile(d@, n@),
            FsRequest::ChangeDir(p) => RequestView::ChangeDir(p@),
        }
    }
}

pub open spec fn opt_request_view(r: Option<FsRequest>) -> Option<RequestView> {
    match r {
        Some(q) => Some(q@),
        None => None,
    }
}

/// The filesystem work of a command: that of its leading (leftmost) stage, the only
/// stage whose output does not come from another stage.
pub open spec fn request_spec(c: CommandView) -> Option<RequestView>
    decreases c,
{
    match c {
        CommandView::More(p) => Some(RequestView::ReadFiles(seq![p])),
        CommandView::Cat(ps) => Some(RequestView::ReadFiles(ps)),
        CommandView::Ls(p) => Some(RequestView::ListDir(p)),
        CommandView::Cd(p) => Some(RequestView::ChangeDir(p)),
        CommandView::FindFile(d, n) => Some(RequestView::FindFile(d, n)),
        CommandView::FindString(_, _) => None,
        CommandView::SubsString(_, _, _) => None,
        CommandView::Pipe(l, _) => request_spec(*l),
    }
}

/// The value of the filesystem's answer: the strings it produced, or its error.
pub open spec fn answer_view(a: Result<Vec<String>, std::io::Error>) -> Result<
    Seq<Seq<char>>,
    std::io::Error,
> {
    match a {
        Ok(v) => Ok(views(v@)),
        Err(e) => Err(e),
    }
}

/// What a stage that is not a pipe produces, given the filesystem's answer to its
/// request (ignored by stages that make none).
pub open spec fn stage_spec(c: CommandView, answer: Result<Seq<Seq<char>>, std::io::Error>) -> Result<
    OutputView,
    ErrorView,
> {
    match c {
        CommandView::More(_) | CommandView::Cat(_) => match answer {
            Ok(contents) => Ok(OutputView::Single(concat_spec(contents))),
            Err(e) => Err(ErrorView::IoError(e)),
        },
        CommandView::Ls(_) | CommandView::FindFile(_, _) => match answer {
            Ok(names) => Ok(OutputView::List(names)),
            Err(e) => Err(ErrorView::IoError(e)),
        },
        CommandView::Cd(_) => match answer {
            Ok(_) => Ok(OutputView::Empty),
            Err(e) => Err(ErrorView::IoError(e)),
        },
        CommandView::FindString(Some(content), pattern) => Ok(
            OutputView::List(matching_lines(content, pattern)),
        ),
        CommandView::SubsString(Some(content), from, to) => Ok(
            OutputView::Single(replace_spec(content, from, to)),
        ),
        _ => Err(ErrorView::ExpectedPipeInput(c)),
    }
}

/// What the right side `right` of the pipe `whole` produces from the left side's output.
pub open spec fn pipe_into_spec(whole: CommandView, right: CommandView, input: OutputView) -> Result<
    OutputView,
    ErrorView,
> {
    match right {
        CommandView::FindString(None, pattern) => match text_of(input) {
            Some(text) => Ok(OutputView::List(matching_lines(text, pattern))),
            None => Err(ErrorView::NoInputForPipe(whole)),
        },
        CommandView::SubsString(None, from, to) => match text_of(input) {
            Some(text) => Ok(OutputView::Single(replace_spec(text, from, to))),
            None => Err(ErrorView::NoInputForPipe(whole)),
        },
        CommandView::FindString(Some(_), _) | CommandView::SubsString(Some(_), _, _) => Err(
            ErrorView::UnexpectedPipeInput(whole),
        ),
        _ => Err(ErrorView::PipeInputNotAccepted(whole)),
    }
}

/// The meaning of executing a command, given the filesystem's answer to its request.
pub open spec fn execute_spec(c: CommandView, answer: Result<Seq<Seq<char>>, std::io::Error>) -> Result<
    OutputView,
    ErrorView,
>
    decreases c,
{
    match c {
        CommandView::Pipe(l, r) => match execute_spec(*l, answer) {
            Err(e) => Err(e),
            Ok(out) => pipe_into_spec(c, *r, out),
        },
        _ => stage_spec(c, answer),
    }
}

/// Whether a token is the word `w`.
fn is_word(token: &String, w: &str) -> (r: bool)
    ensures
        r == (token@ == w@),
{
    *token == w.to_owned()
}

/// Copies of `v[from..]`.
fn clone_from(v: &Vec<String>, from: usize) -> (r: Vec<String>)
    requires
        from <= v@.len(),
    ensures
        views(r@) == views(v@).subrange(from as int, v@.len() as int),
{
    let mut r: Vec<String> = Vec::new();
    let mut i: usize = from;
    while i < v.len()
        invariant
            from <= i <= v@.len(),
            views(r@) == views(v@).subrange(from as int, i as int),
        decreases v@.len() - i,
    {
        let ghost before = r@;
        r.push(v[i].clone());
        proof {
            assert(views(r@) =~= views(before).push(v@[i as int]@));
            assert(views(v@).subrange(from as int, i + 1) =~= views(v@).subrange(
                from as int,
                i as int,
            ).push(v@[i as int]@));
        }
        i = i + 1;
    }
    r
}

fn clone_opt(o: &Option<String>) -> (r: Option<String>)
    ensures
        opt_view(r) == opt_view(*o),
{
    match o {
        Some(s) => Some(s.clone()),
        None => None,
    }
}

impl Clone for ShellCommand {
    fn clone(&self) -> (r: Self)
        ensures
            r@ == self@,
    {
        self.duplicate()
    }
}

impl ShellCommand {
    /// A copy of this command.
    fn duplicate(&self) -> (r: ShellCommand)
        ensures
            r@ == self@,
        decreases self,
    {
        match self {
            ShellCommand::More(p) => ShellCommand::More(p.clone()),
            ShellCommand::Cat(ps) => {
                let r = clone_from(ps, 0);
                proof {
                    assert(views(ps@).subrange(0, ps@.len() as int) =~= views(ps@));
                }
                ShellCommand::Cat(r)
            },
            ShellCommand::Ls(p) => ShellCommand::Ls(p.clone()),
            ShellCommand::Cd(p) => ShellCommand::Cd(p.clone()),
            ShellCommand::FindFile(d, n) => ShellCommand::FindFile(d.clone(), n.clone()),
            ShellCommand::FindString(c, p) => ShellCommand::FindString(clone_opt(c), p.clone()),
            ShellCommand::SubsString(c, f, t) => ShellCommand::SubsString(
                clone_opt(c),
                f.clone(),
                t.clone(),
            ),
            ShellCommand::Pipe(l, r) => {
                let l2 = l.duplicate();
                let r2 = r.duplicate();
                ShellCommand::Pipe(Box::new(l2), Box::new(r2))
            },
        }
    }

    /// Parses a command line: stages separated by `|`, each a command with its arguments.
    /// Parsing does no filesystem work: that is asked for only through `fs_request`.
    pub fn create_shell_command(cli_input: &str) -> (r: Result<ShellCommand, ShellError>)
        ensures
            result_view(r) == parse_spec(cli_input@),
    {
        let commands = split_on(cli_input, '|');
        let ghost stages = views(commands@);
        let mut i: usize = 0;
        proof {
            assert(stages.subrange(0, stages.len() as int) =~= stages);
        }
        while i < commands.len()
            invariant
                i <= commands@.len(),
                stages == views(commands@),
                stages == split_spec(cli_input@, '|'),
                first_blank(stages) == first_blank(stages.subrange(i as int, stages.len() as int)),
            decreases commands@.len() - i,
        {
            let ghost rest = stages.subrange(i as int, stages.len() as int);
            proof {
                assert(rest.drop_first() =~= stages.subrange(i + 1, stages.len() as int));
                assert(rest[0] == commands@[i as int]@);
            }
            let t = trim(commands[i].as_str());
            if t.as_str().is_empty() {
                proof {
                    assert(trim_spec(rest[0]).len() == 0);
                    assert(first_blank(rest) == Some(rest[0]));
                }
                return Err(ShellError::EmptyCommandInPipe(commands[i].clone()));
            }
            i = i + 1;
        }
        proof {
            crate::text::lemma_split_nonempty(cli_input@, '|');
            assert(stages.subrange(i as int, stages.len() as int) =~= Seq::<Seq<char>>::empty());
            assert(stages.subrange(0, stages.len() as int) =~= stages);
        }
        Self::make_pipe(&commands, 0)
    }

    /// Folds the stages `list[i..]` into a right-leaning tree of pipes.
    fn make_pipe(list: &Vec<String>, i: usize) -> (r: Result<ShellCommand, ShellError>)
        requires
            i < list@.len(),
        ensures
            result_view(r) == parse_stages_spec(views(list@).subrange(i as int, list@.len() as int)),
        decreases list@.len() - i,
    {
        let ghost stages = views(list@).subrange(i as int, list@.len() as int);
        if i == list.len() - 1 {
            return Self::parse_single_command(list[i].as_str());
        }
        let first = Self::parse_single_command(list[i].as_str());
        match first {
            Err(e) => Err(e),
            Ok(first) => {
                let second = Self::make_pipe(list, i + 1);
                proof {
                    assert(stages.drop_first() =~= views(list@).subrange(
                        i + 1,
                        list@.len() as int,
                    ));
                }
                match second {
                    Err(e) => Err(e),
                    Ok(second) => Ok(ShellCommand::Pipe(Box::new(first), Box::new(second))),
                }
            },
        }
    }

    /// The filesystem work that executing this command needs, if any.
    pub fn fs_request(&self) -> (r: Option<FsRequest>)
        ensures
            opt_request_view(r) == request_spec(self@),
        decreases self,
    {
        match self {
            ShellCommand::More(p) => {
                let r = vec![p.clone()];
                proof {
                    assert(views(r@) =~= seq![p@]);
                }
                Some(FsRequest::ReadFiles(r))
            },
            ShellCommand::Cat(ps) => {
                let r = clone_from(ps, 0);
                proof {
                    assert(views(ps@).subrange(0, ps@.len() as int) =~= views(ps@));
                }
                Some(FsRequest::ReadFiles(r))
            },
            ShellCommand::Ls(p) => Some(FsRequest::ListDir(p.clone())),
            ShellCommand::Cd(p) => Some(FsRequest::ChangeDir(p.clone())),
            ShellCommand::FindFile(d, n) => Some(FsRequest::FindFile(d.clone(), n.clone())),
            ShellCommand::FindString(_, _) => None,
            ShellCommand::SubsString(_, _, _) => None,
            ShellCommand::Pipe(l, _) => l.fs_request(),
        }
    }

    /// Executes the command. `answer` is what the filesystem did for `fs_request()`:
    /// the file contents in order, the directory entries, the paths found, or
    /// nothing for a change of directory; commands that make no request ignore it.
    pub fn execute_shell_command(&self, answer: Result<Vec<String>, std::io::Error>) -> (r: Result<
        CommandOutput,
        ShellError,
    >)
        ensures
            result_view(r) == execute_spec(self@, answer_view(answer)),
        decreases self,
    {
        match self {
            ShellCommand::More(_) | ShellCommand::Cat(_) => match answer {
                Ok(contents) => Ok(cat_files(&contents)),
                Err(e) => Err(ShellError::IoError(e)),
            },
            ShellCommand::Ls(_) | ShellCommand::FindFile(_, _) => match answer {
                Ok(names) => Ok(CommandOutput::List(names)),
                Err(e) => Err(ShellError::IoError(e)),
            },
            ShellCommand::Cd(_) => match answer {
                Ok(_) => Ok(CommandOutput::Empty),
                Err(e) => Err(ShellError::IoError(e)),
            },
            ShellCommand::FindString(Some(content), search_str) => Ok(
                find_string(content, search_str),
            ),
            ShellCommand::SubsString(Some(content), from, to) => Ok(subs_string(content, from, to)),
            ShellCommand::FindString(None, _) | ShellCommand::SubsString(None, _, _) => Err(
                ShellError::ExpectedPipeInput(self.clone()),
            ),
            ShellCommand::Pipe(c1, c2) => {
                let cmd_output = c1.execute_shell_command(answer);
                match cmd_output {
                    Err(e) => Err(e),
                    Ok(out) => self.pipe_into(c2, out),
                }
            },
        }
    }

    /// Feeds `input`, the output of the left side of the pipe `self`, to its right side `right`.
    fn pipe_into(&self, right: &ShellCommand, input: CommandOutput) -> (r: Result<
        CommandOutput,
        ShellError,
    >)
        ensures
            result_view(r) == pipe_into_spec(self@, right@, input@),
    {
        match right {
            ShellCommand::FindString(None, search_str) => match input.to_string() {
                Some(text) => Ok(find_string(&text, search_str)),
                None => Err(ShellError::NoInputForPipe(self.clone())),
            },
            ShellCommand::SubsString(None, from, to) => match input.to_string() {
                Some(text) => Ok(subs_string(&text, from, to)),
                None => Err(ShellError::NoInputForPipe(self.clone())),
            },
            ShellCommand::FindString(Some(_), _) | ShellCommand::SubsString(Some(_), _, _) => Err(
                ShellError::UnexpectedPipeInput(self.clone()),
            ),
            _ => Err(ShellError::PipeInputNotAccepted(self.clone())),
        }
    }

    /// Parses a single stage, which holds no pipe. A name that is not a command gives
    /// `UnknownCommand(name)`; a command with the wrong number of arguments gives
    /// `KnownCommandWrongArgs(name)`.
    pub fn parse_single_command(command: &str) -> (r: Result<ShellCommand, ShellError>)
        ensures
            result_view(r) == parse_stage_spec(command@),
    {
        let parts = tokens(command);
        let n = parts.len();
        proof {
            assert(views(parts@).len() == n);
            if n > 0 {
                assert(views(parts@)[0] == parts@[0]@);
            }
            if n > 1 {
                assert(views(parts@)[1] == parts@[1]@);
            }
            if n > 2 {
                assert(views(parts@)[2] == parts@[2]@);
            }
            if n > 3 {
                assert(views(parts@)[3] == parts@[3]@);
            }
        }
        if n == 0 {
            return Err(ShellError::UnknownCommand(String::new()));
        }
        let name = &parts[0];
        if is_word(name, "more") && n == 2 {
            Ok(ShellCommand::More(parts[1].clone()))
        } else if is_word(name, "ls") && n == 1 {
            Ok(ShellCommand::Ls(".".to_owned()))
        } else if is_word(name, "ls") && n == 2 {
            Ok(ShellCommand::Ls(parts[1].clone()))
        } else if is_word(name, "cd") && n == 2 {
            Ok(ShellCommand::Cd(parts[1].clone()))
        } else if is_word(name, "find-file") && n == 3 {
            Ok(ShellCommand::FindFile(parts[1].clone(), parts[2].clone()))
        } else if is_word(name, "find-string") && n == 3 {
            Ok(ShellCommand::FindString(Some(parts[1].clone()), parts[2].clone()))
        } else if is_word(name, "find-string") && n == 2 {
            Ok(ShellCommand::FindString(None, parts[1].clone()))
        } else if is_word(name, "subs-string") && n == 4 {
            Ok(ShellCommand::SubsString(Some(parts[1].clone()), parts[2].clone(), parts[3].clone()))
        } else if is_word(name, "subs-string") && n == 3 {
            Ok(ShellCommand::SubsString(None, parts[1].clone(), parts[2].clone()))
        } else if is_word(name, "cat") && n >= 2 {
            Ok(ShellCommand::Cat(clone_from(&parts, 1)))
        } else if is_word(name, "more") || is_word(name, "cat") || is_word(name, "ls") || is_word(
            name,
            "cd",
        ) || is_word(name, "find-string") || is_word(name, "subs-string") || is_word(
            name,
            "find-file",
        ) {
            Err(ShellError::KnownCommandWrongArgs(name.clone()))
        } else {
            Err(ShellError::UnknownCommand(name.clone()))
        }
    }
}

} // verus!
