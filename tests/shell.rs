use shell::command_output::CommandOutput;
use shell::commands::{cat_files, find_string, subs_string};
use shell::error::ShellError;
use shell::shell_command::{FsRequest, ShellCommand};

const CAT_FILE_TEST: &str = "The quick brown fox\njumps over\nthe lazy dog.\n";

fn text(out: CommandOutput) -> String {
    out.to_string().unwrap()
}

fn lines(out: CommandOutput) -> Vec<String> {
    match out {
        CommandOutput::List(v) => v,
        other => panic!("expected a list, got {:?}", other),
    }
}

fn parse(s: &str) -> ShellCommand {
    ShellCommand::create_shell_command(s).unwrap()
}

/// Verify contents of file match our more command.
#[test]
fn commands_more_file_test() {
    let test_file = "./resources/cat_file_test.txt";
    let more = ShellCommand::More(test_file.to_string());
    match more.fs_request() {
        Some(FsRequest::ReadFiles(paths)) => assert_eq!(paths, vec![test_file.to_string()]),
        other => panic!("unexpected request {:?}", other),
    }
    let out = more
        .execute_shell_command(Ok(vec![CAT_FILE_TEST.to_string()]))
        .unwrap();
    assert_eq!(text(out), CAT_FILE_TEST);
}

/// More-ing a file should be the same as cat-ing a single file.
#[test]
fn commands_cat_file_test_one_file() {
    let test_file = "./resources/cat_file_test.txt";
    let more = ShellCommand::More(test_file.to_string());
    let cat = ShellCommand::Cat(vec![test_file.to_string()]);
    let answer = || Ok(vec![CAT_FILE_TEST.to_string()]);
    assert_eq!(
        text(more.execute_shell_command(answer()).unwrap()),
        text(cat.execute_shell_command(answer()).unwrap())
    );
}

/// Cat-ing two files should be the same as more-ing two files and appending
/// their results.
#[test]
fn commands_cat_file_test() {
    let test_file = "./resources/cat_file_test.txt";
    let test_file2 = "./resources/cat_file_test.txt";
    let paths = vec![test_file.to_string(), test_file2.to_string()];
    let cat = ShellCommand::Cat(paths.clone());
    match cat.fs_request() {
        Some(FsRequest::ReadFiles(asked)) => assert_eq!(asked, paths),
        other => panic!("unexpected request {:?}", other),
    }
    let read = |p: &str| {
        text(
            ShellCommand::More(p.to_string())
                .execute_shell_command(Ok(vec![CAT_FILE_TEST.to_string()]))
                .unwrap(),
        )
    };
    let mut manual = read(test_file);
    manual.push_str(&read(test_file2));
    let answer = Ok(vec![CAT_FILE_TEST.to_string(), CAT_FILE_TEST.to_string()]);
    assert_eq!(manual, text(cat.execute_shell_command(answer).unwrap()));
}

/// Verify contents of file match our more command, parsed from a command line.
#[test]
fn more_file_test() {
    let test_file = "./resources/cat_file_test.txt";
    let more = parse("more ./resources/cat_file_test.txt");
    match more.fs_request() {
        Some(FsRequest::ReadFiles(paths)) => assert_eq!(paths, vec![test_file.to_string()]),
        other => panic!("unexpected request {:?}", other),
    }
    let out = more
        .execute_shell_command(Ok(vec![CAT_FILE_TEST.to_string()]))
        .unwrap();
    assert_eq!(text(out), CAT_FILE_TEST);
}

/// More-ing a file should be the same as cat-ing a single file, both parsed.
#[test]
fn cat_file_test_one_file() {
    let test_file = "./resources/cat_file_test.txt";
    let more = parse(&format!("more {}", test_file));
    let cat = parse(&format!("cat {}", test_file));
    assert_eq!(format!("{:?}", more.fs_request()), format!("{:?}", cat.fs_request()));
    let answer = || Ok(vec![CAT_FILE_TEST.to_string()]);
    assert_eq!(
        text(more.execute_shell_command(answer()).unwrap()),
        text(cat.execute_shell_command(answer()).unwrap())
    );
}

/// Cat-ing two files should be the same as more-ing two files and appending
/// their results, both parsed.
#[test]
fn cat_file_test() {
    let test_file = "./resources/cat_file_test.txt";
    let test_file2 = "./resources/cat_file_test.txt";
    let cat = parse(&format!("cat {} {}", test_file, test_file2));
    let mut manual = text(
        parse(&format!("more {}", test_file))
            .execute_shell_command(Ok(vec![CAT_FILE_TEST.to_string()]))
            .unwrap(),
    );
    manual.push_str(&text(
        parse(&format!("more {}", test_file2))
            .execute_shell_command(Ok(vec![CAT_FILE_TEST.to_string()]))
            .unwrap(),
    ));
    let answer = Ok(vec![CAT_FILE_TEST.to_string(), CAT_FILE_TEST.to_string()]);
    assert_eq!(manual, text(cat.execute_shell_command(answer).unwrap()));
}

#[test]
fn cat_of_two_different_files_keeps_order() {
    let cat = ShellCommand::Cat(vec!["a".to_string(), "b".to_string()]);
    let out = cat
        .execute_shell_command(Ok(vec!["first\n".to_string(), "second".to_string()]))
        .unwrap();
    assert_eq!(text(out), "first\nsecond");
}

#[test]
fn pipe_is_right_associative() {
    let cmd = parse("ls | find-string a | subs-string a b");
    match cmd {
        ShellCommand::Pipe(first, rest) => {
            assert!(matches!(*first, ShellCommand::Ls(ref p) if p == "."));
            match *rest {
                ShellCommand::Pipe(second, third) => {
                    assert!(matches!(*second, ShellCommand::FindString(None, ref p) if p == "a"));
                    assert!(matches!(
                        *third,
                        ShellCommand::SubsString(None, ref f, ref t) if f == "a" && t == "b"
                    ));
                }
                other => panic!("expected a pipe, got {:?}", other),
            }
        }
        other => panic!("expected a pipe, got {:?}", other),
    }
}

#[test]
fn empty_stages_are_rejected() {
    for raw in ["ls |", "|ls", "ls || find-string a", "", "   ", "ls |   | cd x"] {
        let r = ShellCommand::create_shell_command(raw);
        assert!(
            matches!(r, Err(ShellError::EmptyCommandInPipe(_))),
            "{:?} gave {:?}",
            raw,
            r
        );
    }
}

#[test]
fn empty_stage_reports_its_text() {
    let r = ShellCommand::create_shell_command("ls | ");
    assert!(matches!(r, Err(ShellError::EmptyCommandInPipe(ref s)) if s == " "));
}

#[test]
fn cat_arity() {
    let r = ShellCommand::create_shell_command("cat");
    assert!(matches!(r, Err(ShellError::KnownCommandWrongArgs(ref s)) if s == "cat"));
    let r = ShellCommand::create_shell_command("  cat   ");
    assert!(matches!(r, Err(ShellError::KnownCommandWrongArgs(ref s)) if s == "cat"));
    match parse("cat a.txt") {
        ShellCommand::Cat(files) => assert_eq!(files, vec!["a.txt".to_string()]),
        other => panic!("unexpected {:?}", other),
    }
    match parse("cat a b   c") {
        ShellCommand::Cat(files) => assert_eq!(files, vec!["a", "b", "c"]),
        other => panic!("unexpected {:?}", other),
    }
}

#[test]
fn grammar_of_each_command() {
    assert!(matches!(parse("more f.txt"), ShellCommand::More(ref p) if p == "f.txt"));
    assert!(matches!(parse("ls"), ShellCommand::Ls(ref p) if p == "."));
    assert!(matches!(parse("ls dir"), ShellCommand::Ls(ref p) if p == "dir"));
    assert!(matches!(parse("cd dir"), ShellCommand::Cd(ref p) if p == "dir"));
    assert!(matches!(
        parse("find-file src main.rs"),
        ShellCommand::FindFile(ref d, ref n) if d == "src" && n == "main.rs"
    ));
    assert!(matches!(
        parse("find-string abc b"),
        ShellCommand::FindString(Some(ref c), ref p) if c == "abc" && p == "b"
    ));
    assert!(matches!(
        parse("subs-string aaa a b"),
        ShellCommand::SubsString(Some(ref c), ref f, ref t) if c == "aaa" && f == "a" && t == "b"
    ));
    assert!(matches!(parse("\tmore   f.txt  "), ShellCommand::More(ref p) if p == "f.txt"));
}

#[test]
fn wrong_arity_and_unknown_commands() {
    for (raw, name) in [
        ("more", "more"),
        ("more a b", "more"),
        ("ls a b", "ls"),
        ("cd", "cd"),
        ("find-file a", "find-file"),
        ("find-string", "find-string"),
        ("  subs-string   a ", "subs-string"),
    ] {
        let r = ShellCommand::create_shell_command(raw);
        assert!(
            matches!(r, Err(ShellError::KnownCommandWrongArgs(ref s)) if s == name),
            "{:?} gave {:?}",
            raw,
            r
        );
    }
    let r = ShellCommand::create_shell_command(" grep x ");
    assert!(matches!(r, Err(ShellError::UnknownCommand(ref s)) if s == "grep"));
    let r = ShellCommand::create_shell_command("ls | frobnicate");
    assert!(matches!(r, Err(ShellError::UnknownCommand(ref s)) if s == "frobnicate"));
}

#[test]
fn spacing_between_tokens_does_not_matter() {
    for (a, b) in [("x  y", "x y"), ("cat  a", "cat a"), ("ls\t d", "ls d")] {
        let ra = ShellCommand::parse_single_command(a);
        let rb = ShellCommand::parse_single_command(b);
        assert_eq!(format!("{:?}", ra), format!("{:?}", rb));
    }
    assert!(matches!(parse("cat  a"), ShellCommand::Cat(ref f) if f == &vec!["a".to_string()]));
}

#[test]
fn unicode_whitespace_separates_tokens() {
    assert!(matches!(parse("\u{3000}more\u{A0}f.txt\u{2003}"), ShellCommand::More(ref p) if p == "f.txt"));
    let r = ShellCommand::create_shell_command("ls |\u{2028}");
    assert!(matches!(r, Err(ShellError::EmptyCommandInPipe(_))));
}

#[test]
fn search_without_pipe_input() {
    let search = parse("find-string a");
    let r = search.execute_shell_command(Ok(vec![]));
    assert!(matches!(r, Err(ShellError::ExpectedPipeInput(_))));
    assert!(search.fs_request().is_none());
}

#[test]
fn search_after_empty_output() {
    let cmd = parse("cd somewhere | find-string a");
    match cmd.fs_request() {
        Some(FsRequest::ChangeDir(p)) => assert_eq!(p, "somewhere"),
        other => panic!("unexpected request {:?}", other),
    }
    let r = cmd.execute_shell_command(Ok(vec![]));
    assert!(matches!(r, Err(ShellError::NoInputForPipe(_))));
}

#[test]
fn search_after_lines_joins_them_with_spaces() {
    let cmd = parse("ls | find-string a");
    let out = cmd
        .execute_shell_command(Ok(vec!["ab".to_string(), "cd".to_string()]))
        .unwrap();
    assert_eq!(lines(out), vec!["ab cd".to_string()]);
    let cmd = parse("ls | find-string x");
    let out = cmd
        .execute_shell_command(Ok(vec!["ab".to_string(), "cd".to_string()]))
        .unwrap();
    assert!(lines(out).is_empty());
}

#[test]
fn replace_with_inline_content() {
    let cmd = parse("subs-string aaa a b");
    assert!(cmd.fs_request().is_none());
    let out = cmd.execute_shell_command(Ok(vec![])).unwrap();
    assert!(matches!(out, CommandOutput::Single(ref s) if s == "bbb"));
}

#[test]
fn piping_into_inline_content_is_unexpected() {
    let r = parse("ls | subs-string aaa a b").execute_shell_command(Ok(vec!["x".to_string()]));
    assert!(matches!(r, Err(ShellError::UnexpectedPipeInput(_))));
    let r = parse("ls | find-string abc a").execute_shell_command(Ok(vec!["x".to_string()]));
    assert!(matches!(r, Err(ShellError::UnexpectedPipeInput(_))));
}

#[test]
fn piping_into_a_filesystem_command_is_not_accepted() {
    let r = parse("more f | ls").execute_shell_command(Ok(vec!["x".to_string()]));
    assert!(matches!(r, Err(ShellError::PipeInputNotAccepted(_))));
}

#[test]
fn pipe_of_text_through_replace() {
    let cmd = parse("more f | subs-string o 0");
    let out = cmd
        .execute_shell_command(Ok(vec!["foo\nbar".to_string()]))
        .unwrap();
    assert_eq!(text(out), "f00\nbar");
    let cmd = parse("more f | find-string ba");
    let out = cmd
        .execute_shell_command(Ok(vec!["foo\nbar\nbaz".to_string()]))
        .unwrap();
    assert_eq!(lines(out), vec!["bar".to_string(), "baz".to_string()]);
}

#[test]
fn three_stage_pipe_hands_its_input_to_a_pipe() {
    let r = parse("more f | subs-string o 0 | find-string 0")
        .execute_shell_command(Ok(vec!["foo".to_string()]));
    assert!(matches!(r, Err(ShellError::PipeInputNotAccepted(_))));
}

#[test]
fn io_errors_propagate() {
    let e = std::io::Error::new(std::io::ErrorKind::NotFound, "missing");
    let r = parse("more nothing | find-string a").execute_shell_command(Err(e));
    match r {
        Err(ShellError::IoError(e)) => assert_eq!(e.kind(), std::io::ErrorKind::NotFound),
        other => panic!("unexpected {:?}", other),
    }
}

#[test]
fn directory_listing_and_search_results_are_lists() {
    let out = parse("ls").execute_shell_command(Ok(vec!["a".to_string(), "b".to_string()]));
    assert_eq!(lines(out.unwrap()), vec!["a", "b"]);
    let cmd = parse("find-file . x.rs");
    match cmd.fs_request() {
        Some(FsRequest::FindFile(d, n)) => assert_eq!((d.as_str(), n.as_str()), (".", "x.rs")),
        other => panic!("unexpected request {:?}", other),
    }
    let out = cmd.execute_shell_command(Ok(vec!["./src/x.rs".to_string()]));
    assert_eq!(lines(out.unwrap()), vec!["./src/x.rs"]);
}

#[test]
fn output_to_string() {
    assert_eq!(CommandOutput::Single("a b".to_string()).to_string(), Some("a b".to_string()));
    let list = CommandOutput::List(vec!["x".to_string(), "y".to_string(), "z".to_string()]);
    assert_eq!(list.to_string(), Some("x y z".to_string()));
    assert_eq!(CommandOutput::List(vec![]).to_string(), Some(String::new()));
    assert_eq!(CommandOutput::Empty.to_string(), None);
}

#[test]
fn output_display_lines() {
    assert_eq!(CommandOutput::Single("a".to_string()).display(), vec!["a"]);
    let list = CommandOutput::List(vec!["x".to_string(), "y".to_string()]);
    assert_eq!(list.display(), vec!["x", "y"]);
    assert!(CommandOutput::Empty.display().is_empty());
}

#[test]
fn find_string_keeps_matching_lines() {
    let out = find_string(&"apple\nbanana\ncherry".to_string(), &"an".to_string());
    assert_eq!(lines(out), vec!["banana"]);
    let out = find_string(&"a\n\nb".to_string(), &"".to_string());
    assert_eq!(lines(out), vec!["a", "", "b"]);
}

#[test]
fn subs_string_replaces_every_occurrence() {
    let s = |a: &str, f: &str, t: &str| text(subs_string(&a.to_string(), &f.to_string(), &t.to_string()));
    assert_eq!(s("aaa", "a", "b"), "bbb");
    assert_eq!(s("aaaa", "aa", "b"), "bb");
    assert_eq!(s("aaa", "aa", "b"), "ba");
    assert_eq!(s("ab", "", "-"), "-a-b-");
    assert_eq!(s("hello", "xyz", "q"), "hello");
    assert_eq!(s("héllo wörld", "ö", "o"), "héllo world");
}

#[test]
fn cat_files_concatenates() {
    let out = cat_files(&vec!["ab".to_string(), "".to_string(), "c".to_string()]);
    assert_eq!(text(out), "abc");
    assert_eq!(text(cat_files(&vec![])), "");
}

#[test]
fn clone_copies_the_tree() {
    let cmd = parse("cat a b | find-string x");
    let copy = cmd.clone();
    assert_eq!(format!("{:?}", copy), format!("{:?}", cmd));
}

#[test]
fn io_error_converts() {
    let e: ShellError = std::io::Error::new(std::io::ErrorKind::Other, "boom").into();
    assert!(matches!(e, ShellError::IoError(_)));
}
