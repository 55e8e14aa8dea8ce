use llmctx::{
    assemble, Action, CandidateEntry, ContextAssembler, ContextError, EntryKind, Event,
};

fn file_entry(path: &str) -> Event {
    let name = path.rsplit('/').next().unwrap_or("");
    Event::Entry(CandidateEntry {
        path: path.to_string(),
        name: name.to_string(),
        kind: EntryKind::File,
    })
}

fn dir_entry(path: &str) -> Event {
    let name = path.rsplit('/').next().unwrap_or("");
    Event::Entry(CandidateEntry {
        path: path.to_string(),
        name: name.to_string(),
        kind: EntryKind::Directory,
    })
}

fn content(text: &str) -> Event {
    Event::Content(text.to_string())
}

fn assembler(max_units: u64, excludes: &[&str]) -> ContextAssembler {
    let excludes = excludes.iter().map(|pattern| pattern.to_string()).collect();
    ContextAssembler::new(max_units, excludes)
}

#[test]
fn single_file_under_budget_gives_exactly_one_block() {
    let mut run = assembler(1000, &[]);
    assert_eq!(run.step(&file_entry("notes.txt")), Action::Read("notes.txt".to_string()));
    assert_eq!(run.step(&content("remember the milk\n")), Action::Next);
    assert_eq!(run.consumed_units(), 9 + 17 + 12);
    assert!(run.skipped().is_empty());
    assert_eq!(run.finish().unwrap(), "notes.txt:\n```\nremember the milk\n```\n\n");
}

#[test]
fn hidden_file_beside_a_text_file_is_left_out() {
    let mut run = assembler(1_000_000, &[]);
    assert_eq!(run.step(&dir_entry("proj")), Action::Next);
    assert_eq!(run.step(&file_entry("proj/.secret")), Action::Next);
    assert_eq!(run.step(&file_entry("proj/a.txt")), Action::Read("proj/a.txt".to_string()));
    assert_eq!(run.step(&content("0123456789")), Action::Next);
    assert_eq!(run.consumed_units(), 10 + 10 + 12);
    assert_eq!(run.finish().unwrap(), "proj/a.txt:\n```\n0123456789\n```\n\n");
}

#[test]
fn first_file_fills_the_budget_and_ends_the_walk() {
    let first_size = 5 + 4 + 12;
    let mut run = assembler(first_size, &[]);
    assert_eq!(run.step(&file_entry("a.txt")), Action::Read("a.txt".to_string()));
    assert_eq!(run.step(&content("aaaa")), Action::Stop);
    assert!(run.is_exhausted());
    assert_eq!(run.step(&file_entry("b.txt")), Action::Stop);
    assert_eq!(run.step(&content("b")), Action::Stop);
    assert_eq!(run.consumed_units(), first_size);
    assert_eq!(run.finish().unwrap(), "a.txt:\n```\naaaa\n```\n\n");
}

#[test]
fn second_file_one_unit_over_is_passed_over_without_error() {
    let first_size = 5 + 4 + 12;
    let second_size = 5 + 6 + 12;
    let mut run = assembler(first_size + second_size - 1, &[]);
    assert_eq!(run.step(&file_entry("a.txt")), Action::Read("a.txt".to_string()));
    assert_eq!(run.step(&content("aaaa")), Action::Next);
    assert_eq!(run.step(&file_entry("b.txt")), Action::Read("b.txt".to_string()));
    assert_eq!(run.step(&content("bbbbbb")), Action::Next);
    assert!(!run.is_exhausted());
    assert_eq!(run.consumed_units(), first_size);
    assert_eq!(run.skipped(), &vec!["b.txt".to_string()]);
    assert_eq!(run.finish().unwrap(), "a.txt:\n```\naaaa\n```\n\n");
}

#[test]
fn exclude_pattern_leaves_the_test_file_out() {
    let mut run = assembler(1_000_000, &["test"]);
    assert_eq!(run.step(&file_entry("foo_test.go")), Action::Next);
    assert_eq!(run.step(&file_entry("foo.go")), Action::Read("foo.go".to_string()));
    assert_eq!(run.step(&content("package foo\n")), Action::Next);
    assert_eq!(run.finish().unwrap(), "foo.go:\n```\npackage foo\n```\n\n");
}

#[test]
fn a_smaller_file_after_an_oversized_one_still_fits() {
    let mut run = assembler(40, &[]);
    let events = [
        file_entry("big.txt"),
        content("0123456789012345678901234567890123456789"),
        file_entry("s.txt"),
        content("tiny"),
    ];
    run.run(&events);
    assert_eq!(run.skipped(), &vec!["big.txt".to_string()]);
    assert_eq!(run.consumed_units(), 5 + 4 + 12);
    assert_eq!(run.finish().unwrap(), "s.txt:\n```\ntiny\n```\n\n");
}

#[test]
fn blocks_come_in_the_order_of_the_walk() {
    let mut run = assembler(1000, &[]);
    let events = [
        dir_entry("r"),
        file_entry("r/z.txt"),
        content("last letter"),
        dir_entry("r/sub"),
        file_entry("r/sub/a.txt"),
        content("first letter"),
    ];
    run.run(&events);
    assert_eq!(
        run.finish().unwrap(),
        "r/z.txt:\n```\nlast letter\n```\n\nr/sub/a.txt:\n```\nfirst letter\n```\n\n"
    );
}

#[test]
fn running_sum_of_accepted_sizes_never_passes_the_budget() {
    let max_units = 100;
    let mut run = assembler(max_units, &[]);
    let paths = ["a", "b", "c", "d", "e", "f"];
    let contents = ["0123456789", "01234567890123456789", "x", "", "0123456789012345678901", "y"];
    for (path, text) in paths.iter().zip(contents.iter()) {
        match run.step(&file_entry(path)) {
            Action::Read(_) => {
                run.step(&content(text));
            }
            _ => {}
        }
        assert!(run.consumed_units() <= max_units);
    }
    assert_eq!(run.consumed_units(), 23 + 33 + 14 + 13 + 14);
    assert_eq!(run.skipped(), &vec!["e".to_string()]);
}

#[test]
fn same_inputs_give_the_same_output() {
    let events = [
        file_entry("one.rs"),
        content("fn one() {}\n"),
        file_entry("Cargo.lock"),
        file_entry("two.rs"),
        content("  fn two() {}  "),
        file_entry("three.rs"),
        content("fn three() {}"),
    ];
    let mut first = assembler(70, &["zzz"]);
    first.run(&events);
    let mut second = assembler(70, &["zzz"]);
    second.run(&events);
    assert_eq!(first.consumed_units(), second.consumed_units());
    assert_eq!(first.skipped(), second.skipped());
    let first_output = first.finish().unwrap();
    assert_eq!(first_output, second.finish().unwrap());
    assert_eq!(
        first_output,
        "one.rs:\n```\nfn one() {}\n```\n\ntwo.rs:\n```\nfn two() {}\n```\n\n"
    );
}

#[test]
fn nothing_is_appended_once_the_budget_is_exhausted() {
    let mut run = assembler(5 + 1 + 12, &[]);
    run.run(&[file_entry("a.txt"), content("a")]);
    assert!(run.is_exhausted());
    let before = run.consumed_units();
    let more = [
        file_entry("b.txt"),
        content(""),
        dir_entry("other_root"),
        file_entry("other_root/c.txt"),
        content("c"),
    ];
    for event in more.iter() {
        assert_eq!(run.step(event), Action::Stop);
    }
    assert_eq!(run.consumed_units(), before);
    assert_eq!(run.finish().unwrap(), "a.txt:\n```\na\n```\n\n");
}

#[test]
fn zero_budget_reads_the_first_file_then_stops() {
    let mut run = assembler(0, &[]);
    assert!(run.is_exhausted());
    assert_eq!(run.step(&file_entry("a.txt")), Action::Read("a.txt".to_string()));
    assert_eq!(run.step(&content("a")), Action::Stop);
    assert_eq!(run.skipped(), &vec!["a.txt".to_string()]);
    assert_eq!(run.finish().unwrap(), "");
}

#[test]
fn directories_are_never_read() {
    let mut run = assembler(100, &[]);
    assert_eq!(run.step(&dir_entry("src")), Action::Next);
    assert_eq!(run.step(&dir_entry("src/.git")), Action::Next);
    assert_eq!(run.finish().unwrap(), "");
}

#[test]
fn empty_walk_gives_empty_output() {
    let mut run = assembler(100, &[]);
    run.run(&[]);
    assert_eq!(run.consumed_units(), 0);
    assert_eq!(run.finish().unwrap(), "");
}

#[test]
fn unreadable_directory_fails_the_run() {
    let mut run = assembler(1000, &[]);
    run.run(&[file_entry("a.txt"), content("kept so far")]);
    let expected = ContextError::DirectoryUnreadable("locked".to_string());
    assert_eq!(
        run.step(&Event::WalkFailed("locked".to_string())),
        Action::Abort(ContextError::DirectoryUnreadable("locked".to_string()))
    );
    assert_eq!(run.step(&file_entry("b.txt")), Action::Abort(expected.duplicate()));
    assert_eq!(run.finish(), Err(expected));
}

#[test]
fn unreadable_file_fails_the_run_and_names_the_file() {
    let mut run = assembler(1000, &[]);
    assert_eq!(run.step(&file_entry("gone.txt")), Action::Read("gone.txt".to_string()));
    assert_eq!(
        run.step(&Event::ReadFailed),
        Action::Abort(ContextError::FileUnreadable("gone.txt".to_string()))
    );
    assert_eq!(run.finish(), Err(ContextError::FileUnreadable("gone.txt".to_string())));
}

#[test]
fn invalid_encoding_fails_the_run_and_names_the_file() {
    let mut run = assembler(1000, &[]);
    run.run(&[file_entry("ok.txt"), content("fine"), file_entry("blob.bin"), Event::BadEncoding]);
    assert_eq!(run.step(&content("late")), Action::Abort(
        ContextError::InvalidEncoding("blob.bin".to_string()),
    ));
    assert_eq!(run.finish(), Err(ContextError::InvalidEncoding("blob.bin".to_string())));
}

#[test]
fn walk_failure_while_a_read_is_outstanding_names_the_directory() {
    let mut run = assembler(1000, &[]);
    run.run(&[file_entry("a.txt"), Event::WalkFailed("sub".to_string())]);
    assert_eq!(run.finish(), Err(ContextError::DirectoryUnreadable("sub".to_string())));
}

#[test]
fn read_that_is_never_answered_fails_the_run() {
    let mut run = assembler(1000, &[]);
    assert_eq!(run.step(&file_entry("a.txt")), Action::Read("a.txt".to_string()));
    assert_eq!(
        run.step(&file_entry("b.txt")),
        Action::Abort(ContextError::FileUnreadable("a.txt".to_string()))
    );
    let mut other = assembler(1000, &[]);
    other.run(&[file_entry("c.txt")]);
    assert_eq!(other.finish(), Err(ContextError::FileUnreadable("c.txt".to_string())));
}

#[test]
fn content_that_was_not_asked_for_is_ignored() {
    let mut run = assembler(1000, &[]);
    assert_eq!(run.step(&content("stray")), Action::Next);
    assert_eq!(run.step(&Event::ReadFailed), Action::Next);
    assert_eq!(run.step(&Event::BadEncoding), Action::Next);
    assert_eq!(run.step(&file_entry(".env")), Action::Next);
    assert_eq!(run.step(&content("SECRET=1")), Action::Next);
    assert_eq!(run.consumed_units(), 0);
    assert_eq!(run.finish().unwrap(), "");
}

#[test]
fn failed_run_hands_over_no_partial_output() {
    let mut run = assembler(1000, &[]);
    run.run(&[
        file_entry("a.txt"),
        content("first"),
        file_entry("b.txt"),
        Event::ReadFailed,
        file_entry("c.txt"),
        content("third"),
    ]);
    assert_eq!(run.consumed_units(), 5 + 5 + 12);
    assert!(run.finish().is_err());
}

#[test]
fn a_path_is_read_once() {
    let mut run = assembler(1000, &[]);
    assert_eq!(run.step(&file_entry("src/a.rs")), Action::Read("src/a.rs".to_string()));
    assert_eq!(run.step(&content("one")), Action::Next);
    assert_eq!(run.step(&file_entry("src/a.rs")), Action::Next);
    assert_eq!(run.step(&content("stray")), Action::Next);
    assert_eq!(run.step(&file_entry("src/b.rs")), Action::Read("src/b.rs".to_string()));
    assert_eq!(run.step(&content("two")), Action::Next);
    assert_eq!(
        run.finish().unwrap(),
        "src/a.rs:\n```\none\n```\n\nsrc/b.rs:\n```\ntwo\n```\n\n"
    );
}

#[test]
fn a_file_that_did_not_fit_is_not_asked_for_again() {
    let mut run = assembler(20, &[]);
    run.run(&[file_entry("big.txt"), content("0123456789"), file_entry("big.txt")]);
    assert_eq!(run.skipped(), &vec!["big.txt".to_string()]);
    assert_eq!(run.finish().unwrap(), "");
}

#[test]
fn other_entries_are_never_read() {
    let mut run = assembler(100, &[]);
    let socket = Event::Entry(CandidateEntry {
        path: "run/app.sock".to_string(),
        name: "app.sock".to_string(),
        kind: EntryKind::Other,
    });
    assert_eq!(run.step(&socket), Action::Next);
    assert_eq!(run.finish().unwrap(), "");
}

#[test]
fn one_call_assembles_an_observed_walk() {
    let events = [
        dir_entry("proj"),
        file_entry("proj/.secret"),
        file_entry("proj/a.txt"),
        content("0123456789"),
    ];
    let output = assemble(1000, Vec::new(), &events).unwrap();
    assert_eq!(output, "proj/a.txt:\n```\n0123456789\n```\n\n");
    assert_eq!(assemble(1000, Vec::new(), &events).unwrap(), output);
    assert!(output.len() as u64 <= 1000);
}

#[test]
fn one_call_reports_the_failure_of_an_observed_walk() {
    let events = [file_entry("a.txt"), content("a"), file_entry("b.txt"), Event::BadEncoding];
    assert_eq!(
        assemble(1000, Vec::new(), &events),
        Err(ContextError::InvalidEncoding("b.txt".to_string()))
    );
    assert_eq!(assemble(1000, Vec::new(), &[]), Ok(String::new()));
}

#[test]
fn output_never_outgrows_the_budget() {
    let events = [
        file_entry("a"),
        content("0123456789"),
        file_entry("b"),
        content("01234567890123456789"),
        file_entry("c"),
        content(""),
        file_entry("d"),
        content("x"),
    ];
    for max_units in 0..80u64 {
        let output = assemble(max_units, Vec::new(), &events).unwrap();
        assert!(output.len() as u64 <= max_units);
    }
}
