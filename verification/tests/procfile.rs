use sudare::procfile::{
    group_entries, parse_entries, parse_line, parse_procfile, split_lines, split_title, Entry,
    Line, ParseError, Process, ProcessGroup,
};

fn command(label: &str, argv: &str) -> Process {
    Process::Command { label: label.to_string(), argv: argv.to_string() }
}

fn entry(title: &str, label: &str, argv: &str) -> Entry {
    Entry { title: title.to_string(), label: label.to_string(), argv: argv.to_string() }
}

#[test]
fn one_title_makes_one_group() {
    let groups = parse_procfile("web: echo hi\nweb[worker]: echo bye\n").unwrap();
    assert_eq!(groups.len(), 1);
    assert_eq!(groups[0].title, "web");
    assert_eq!(
        groups[0].members,
        vec![Process::Null, command("default", "echo hi"), command("worker", "echo bye")]
    );
}

#[test]
fn groups_keep_first_seen_order() {
    let text = "b[one]: 1\na[one]: 2\nb[two]: 3\nc: 4\na[two]: 5\n";
    let groups = parse_procfile(text).unwrap();
    let titles: Vec<&str> = groups.iter().map(|g| g.title.as_str()).collect();
    assert_eq!(titles, vec!["b", "a", "c"]);
    assert_eq!(groups[0].members, vec![Process::Null, command("one", "1"), command("two", "3")]);
    assert_eq!(groups[1].members, vec![Process::Null, command("one", "2"), command("two", "5")]);
    assert_eq!(groups[2].members, vec![Process::Null, command("default", "4")]);
}

#[test]
fn every_group_starts_with_the_placeholder() {
    let groups = parse_procfile("x: a\ny[l]: b\nx[m]: c\n").unwrap();
    for group in &groups {
        assert_eq!(group.members[0], Process::Null);
    }
}

#[test]
fn empty_text_has_no_groups() {
    assert_eq!(parse_procfile("").unwrap(), Vec::<ProcessGroup>::new());
}

#[test]
fn line_without_colon_is_an_error() {
    assert_eq!(
        parse_procfile("web: echo hi\nnonsense\n").unwrap_err(),
        ParseError::MissingColon { line: 2 }
    );
}

#[test]
fn empty_line_is_an_error() {
    assert_eq!(parse_procfile("web: a\n\nweb: b\n").unwrap_err(), ParseError::MissingColon { line: 2 });
}

#[test]
fn first_malformed_line_is_reported() {
    assert_eq!(parse_procfile("bad\nworse\n").unwrap_err(), ParseError::MissingColon { line: 1 });
}

#[test]
fn comment_lines_are_passed_over() {
    let groups = parse_procfile("# a comment\nweb: run\n#another\n").unwrap();
    assert_eq!(groups.len(), 1);
    assert_eq!(groups[0].members, vec![Process::Null, command("default", "run")]);
}

#[test]
fn hash_line_with_colon_is_a_command() {
    let groups = parse_procfile("#web: run\n").unwrap();
    assert_eq!(groups[0].title, "#web");
    assert_eq!(groups[0].members, vec![Process::Null, command("default", "run")]);
}

#[test]
fn command_is_split_at_the_first_colon() {
    let groups = parse_procfile("db[pg]: psql postgres://localhost:5432/x\n").unwrap();
    assert_eq!(groups[0].title, "db");
    assert_eq!(
        groups[0].members,
        vec![Process::Null, command("pg", "psql postgres://localhost:5432/x")]
    );
}

#[test]
fn command_is_trimmed() {
    assert_eq!(
        parse_line("web:  \t echo  hi \u{3000}\u{a0}"),
        Line::Command(entry("web", "default", "echo  hi"))
    );
    assert_eq!(parse_line("web:"), Line::Command(entry("web", "default", "")));
    assert_eq!(parse_line("web:   "), Line::Command(entry("web", "default", "")));
}

#[test]
fn trimming_agrees_with_the_standard_library() {
    for raw in ["", " ", "a", " a", "a ", "\t\na b\r\n", "\u{2003}x\u{2009}", "\u{200b}x", "x\u{180e}"] {
        let line = format!("t:{}", raw);
        assert_eq!(parse_line(&line), Line::Command(entry("t", "default", raw.trim())));
    }
}

#[test]
fn title_is_not_trimmed() {
    assert_eq!(parse_line(" web [x] : run"), Line::Command(entry(" web [x] ", "default", "run")));
}

#[test]
fn bracket_gives_the_label() {
    assert_eq!(parse_line("web[worker]: run"), Line::Command(entry("web", "worker", "run")));
    assert_eq!(parse_line("a[b][c]: run"), Line::Command(entry("a[b]", "c", "run")));
    assert_eq!(parse_line("[x]: run"), Line::Command(entry("[x]", "default", "run")));
    assert_eq!(parse_line("a[]: run"), Line::Command(entry("a[]", "default", "run")));
    assert_eq!(parse_line("a[b]c: run"), Line::Command(entry("a[b]c", "default", "run")));
}

#[test]
fn kinds_of_lines() {
    assert_eq!(parse_line("# note"), Line::Comment);
    assert_eq!(parse_line("#"), Line::Comment);
    assert_eq!(parse_line("note"), Line::Malformed);
    assert_eq!(parse_line(""), Line::Malformed);
    assert_eq!(parse_line(" # note"), Line::Malformed);
}

#[test]
fn split_title_takes_the_captures() {
    assert_eq!(
        split_title("web[x]", Some(("web".to_string(), "x".to_string()))),
        ("web".to_string(), "x".to_string())
    );
}

#[test]
fn split_title_defaults_the_label() {
    assert_eq!(split_title("web", None), ("web".to_string(), "default".to_string()));
}

#[test]
fn lines_end_at_line_feeds() {
    assert_eq!(split_lines("a\nb\n"), vec!["a", "b"]);
    assert_eq!(split_lines("a\nb"), vec!["a", "b"]);
    assert_eq!(split_lines("a\r\nb\r\n"), vec!["a", "b"]);
    assert_eq!(split_lines("a\n\nb"), vec!["a", "", "b"]);
    assert_eq!(split_lines("\n"), vec![""]);
    assert_eq!(split_lines(""), Vec::<String>::new());
    assert_eq!(split_lines("a\r"), vec!["a\r"]);
    assert_eq!(split_lines("a\r\r\n"), vec!["a\r"]);
}

#[test]
fn lines_agree_with_the_standard_library() {
    for text in ["", "x", "x\n", "\n\n", "a\r\nb\rc\n\r\n", "é\nü\r\n\u{1F600}", "a\r"] {
        let expected: Vec<String> = text.lines().map(|l| l.to_string()).collect();
        assert_eq!(split_lines(text), expected);
    }
}

#[test]
fn parse_entries_reads_in_order() {
    let lines = vec!["a: 1".to_string(), "# c".to_string(), "b[x]: 2".to_string()];
    assert_eq!(
        parse_entries(&lines).unwrap(),
        vec![entry("a", "default", "1"), entry("b", "x", "2")]
    );
}

#[test]
fn group_entries_merges_titles() {
    let entries = vec![entry("a", "x", "1"), entry("b", "y", "2"), entry("a", "z", "3")];
    let groups = group_entries(&entries);
    assert_eq!(groups.len(), 2);
    assert_eq!(groups[0].title, "a");
    assert_eq!(groups[0].members, vec![Process::Null, command("x", "1"), command("z", "3")]);
    assert_eq!(groups[1].title, "b");
    assert_eq!(groups[1].members, vec![Process::Null, command("y", "2")]);
}

#[test]
fn labels_of_members() {
    assert_eq!(Process::Null.label(), "disable");
    assert_eq!(command("worker", "run").label(), "worker");
}
