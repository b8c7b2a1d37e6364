//! Groups of commands and the line-oriented text that defines them.
//!
//! Every line of the text reads `Title[Label]: shell-command`. The bracket
//! may be left out, which gives the label `default`. A line that starts with
//! `#` and holds no `:` is a comment. Lines with the same title make one
//! group, in the order in which they stand.

use crate::text::{
    chars_of, find_char, lemma_position, position, trim, trim_range,
};
use vstd::prelude::*;

verus! {

/// Label under which the placeholder member of a group is shown.
pub const DEFAULT_TITLE: &'static str = "disable";

/// Label of a command whose line names none.
pub const DEFAULT_LABEL: &'static str = "default";

/// One alternative within a group.
#[derive(Debug, Clone, PartialEq, Eq)]
pub enum Process {
    /// The placeholder: selecting it runs nothing.
    Null,
    /// A shell command line with its display name.
    Command { label: String, argv: String },
}

/// Mathematical model of a [`Process`].
pub enum ProcessView {
    Null,
    Command { label: Seq<char>, argv: Seq<char> },
}

impl ProcessView {
    /// The name a member is shown and remembered by.
    pub open spec fn label(self) -> Seq<char> {
        match self {
            ProcessView::Null => DEFAULT_TITLE@,
            ProcessView::Command { label, argv } => label,
        }
    }
}

impl View for Process {
    type V = ProcessView;

    open spec fn view(&self) -> ProcessView {
        match self {
            Process::Null => ProcessView::Null,
            Process::Command { label, argv } => ProcessView::Command { label: label@, argv: argv@ },
        }
    }
}

impl Process {
    /// The name this member is shown and remembered by.
    pub fn label(&self) -> (r: String)
        ensures
            r@ == self@.label(),
    {
        match self {
            Process::Null => String::from_str(DEFAULT_TITLE),
            Process::Command { label, argv: _ } => label.clone(),
        }
    }
}

/// A named set of alternatives, the placeholder first.
#[derive(Debug, Clone, PartialEq, Eq)]
pub struct ProcessGroup {
    pub title: String,
    pub members: Vec<Process>,
}

/// The groups of one configuration, in display order.
pub type Procfile = Vec<ProcessGroup>;

/// Mathematical model of a [`ProcessGroup`].
pub struct GroupView {
    pub title: Seq<char>,
    pub members: Seq<ProcessView>,
}

impl GroupView {
    /// The placeholder stands at index 0.
    pub open spec fn wf(self) -> bool {
        self.members.len() > 0 && self.members[0] == ProcessView::Null
    }
}

/// The models of a sequence of members.
pub open spec fn members_view(members: Seq<Process>) -> Seq<ProcessView> {
    members.map_values(|p: Process| p@)
}

impl View for ProcessGroup {
    type V = GroupView;

    open spec fn view(&self) -> GroupView {
        GroupView { title: self.title@, members: members_view(self.members@) }
    }
}

/// The models of a sequence of groups.
pub open spec fn groups_view(groups: Seq<ProcessGroup>) -> Seq<GroupView> {
    groups.map_values(|g: ProcessGroup| g@)
}

/// What one command line of the text says.
#[derive(Debug, Clone, PartialEq, Eq)]
pub struct Entry {
    pub title: String,
    pub label: String,
    pub argv: String,
}

/// Mathematical model of an [`Entry`].
pub struct EntryView {
    pub title: Seq<char>,
    pub label: Seq<char>,
    pub argv: Seq<char>,
}

impl EntryView {
    /// The member that this line adds to its group.
    pub open spec fn member(self) -> ProcessView {
        ProcessView::Command { label: self.label, argv: self.argv }
    }
}

impl View for Entry {
    type V = EntryView;

    open spec fn view(&self) -> EntryView {
        EntryView { title: self.title@, label: self.label@, argv: self.argv@ }
    }
}

/// The models of a sequence of entries.
pub open spec fn entries_view(entries: Seq<Entry>) -> Seq<EntryView> {
    entries.map_values(|e: Entry| e@)
}

/// The regular expression that takes a bracketed label off a title.
pub open spec fn title_pattern() -> Seq<char> {
    "^(.+)\\[(.+)\\]$"@
}

/// The text of [`title_pattern`].
pub fn title_pattern_str() -> (r: &'static str)
    ensures
        r@ == title_pattern(),
{
    "^(.+)\\[(.+)\\]$"
}

/// What the regular expression [`title_pattern`] captures in `head`, by the
/// rules of the `regex` crate: the texts of its first and of its second
/// group, or `None` where `head` does not match.
pub uninterp spec fn bracket_captures(head: Seq<char>) -> Option<(Seq<char>, Seq<char>)>;

/// The model of a pair of captured texts.
pub open spec fn captured_view(captured: Option<(String, String)>) -> Option<
    (Seq<char>, Seq<char>),
> {
    match captured {
        None => None,
        Some((a, b)) => Some((a@, b@)),
    }
}

/// Compiles the pattern with `regex::Regex::new`, matches `head` against it
/// with `regex::Regex::captures`, and copies out the texts of groups 1 and
/// 2 (`regex::Captures::get`, `regex::Match::as_str`).
///
/// Not proved: that the result is a function of `head` alone, which is
/// named [`bracket_captures`]. Nothing else is claimed of it. The pattern
/// is the one of [`title_pattern`], which compiles, and in every match of
/// which both groups take part.
#[verifier::external_body]
fn capture_title(pattern: &str, head: &str) -> (r: Option<(String, String)>)
    requires
        pattern@ == title_pattern(),
    ensures
        captured_view(r) == bracket_captures(head@),
{
    let re = regex::Regex::new(pattern).unwrap();
    re.captures(head).map(
        |caps| (caps.get(1).unwrap().as_str().to_string(), caps.get(2).unwrap().as_str().to_string()),
    )
}

/// Title and label of a line's head, given what the pattern captured in it:
/// the two captures, or the whole head with the label `default`.
pub open spec fn title_label(head: Seq<char>, captured: Option<(Seq<char>, Seq<char>)>) -> (
    Seq<char>,
    Seq<char>,
) {
    match captured {
        Some((title, label)) => (title, label),
        None => (head, DEFAULT_LABEL@),
    }
}

/// Splits the head of a line into title and label, given what the pattern
/// captured in it.
pub fn split_title(head: &str, captured: Option<(String, String)>) -> (r: (String, String))
    ensures
        (r.0@, r.1@) == title_label(head@, captured_view(captured)),
{
    match captured {
        Some((title, label)) => (title, label),
        None => (String::from_str(head), String::from_str(DEFAULT_LABEL)),
    }
}

/// What a line of the text is.
#[derive(Debug, Clone, PartialEq, Eq)]
pub enum Line {
    /// It starts with `#` and holds no `:`.
    Comment,
    /// It holds no `:` and is no comment.
    Malformed,
    /// It defines a command.
    Command(Entry),
}

/// Mathematical model of a [`Line`].
pub enum LineView {
    Comment,
    Malformed,
    Command(EntryView),
}

impl View for Line {
    type V = LineView;

    open spec fn view(&self) -> LineView {
        match self {
            Line::Comment => LineView::Comment,
            Line::Malformed => LineView::Malformed,
            Line::Command(e) => LineView::Command(e@),
        }
    }
}

/// Reads one line. The head is what stands before the first `:`, the
/// command what follows it, without white space at its ends.
pub open spec fn line_entry(line: Seq<char>) -> LineView {
    let colon = position(line, ':');
    if colon == line.len() {
        if line.len() > 0 && line[0] == '#' {
            LineView::Comment
        } else {
            LineView::Malformed
        }
    } else {
        let head = line.take(colon);
        let (title, label) = title_label(head, bracket_captures(head));
        LineView::Command(EntryView { title, label, argv: trim(line.skip(colon + 1)) })
    }
}

/// Reads one line of the text.
pub fn parse_line(line: &str) -> (r: Line)
    ensures
        r@ == line_entry(line@),
{
    let chars = chars_of(line);
    let n = chars.len();
    let colon = find_char(&chars, 0, n, ':');
    proof {
        assert(chars@.subrange(0, n as int) == line@);
    }
    if colon == n {
        if n > 0 && chars[0] == '#' {
            Line::Comment
        } else {
            Line::Malformed
        }
    } else {
        let head = line.substring_char(0, colon);
        let captured = capture_title(title_pattern_str(), head);
        let (title, label) = split_title(head, captured);
        let (a, b) = trim_range(&chars, colon + 1, n);
        let argv = String::from_str(line.substring_char(a, b));
        proof {
            assert(line@.subrange(0, colon as int) == line@.take(colon as int));
            assert(chars@.subrange(colon + 1, n as int) == line@.skip(colon + 1));
        }
        Line::Command(Entry { title, label, argv })
    }
}

/// The models of a sequence of texts.
pub open spec fn strings_view(strings: Seq<String>) -> Seq<Seq<char>> {
    strings.map_values(|s: String| s@)
}

/// `line` without a carriage return at its end.
pub open spec fn without_cr(line: Seq<char>) -> Seq<char> {
    if line.len() > 0 && line.last() == '\r' {
        line.drop_last()
    } else {
        line
    }
}

/// The lines of a text. A line ends at a line feed, or at a carriage return
/// and a line feed, neither of which belongs to it. What follows the last
/// line feed is a line if it is not empty.
pub open spec fn lines(text: Seq<char>) -> Seq<Seq<char>>
    decreases text.len(),
{
    if text.len() == 0 {
        Seq::empty()
    } else {
        let end = position(text, '\n');
        if 0 <= end < text.len() {
            seq![without_cr(text.take(end))] + lines(text.skip(end + 1))
        } else {
            seq![text]
        }
    }
}

/// Splits a text into its lines.
pub fn split_lines(text: &str) -> (r: Vec<String>)
    ensures
        strings_view(r@) == lines(text@),
{
    let chars = chars_of(text);
    let n = chars.len();
    let mut out: Vec<String> = Vec::new();
    let mut pos: usize = 0;
    proof {
        assert(text@.skip(0) == text@);
    }
    while pos < n
        invariant
            pos <= n,
            n == chars.len(),
            chars@ == text@,
            lines(text@) == strings_view(out@) + lines(text@.skip(pos as int)),
        decreases n - pos,
    {
        let nl = find_char(&chars, pos, n, '\n');
        let ghost rest = text@.skip(pos as int);
        let ghost before = strings_view(out@);
        proof {
            assert(chars@.subrange(pos as int, n as int) == rest);
            lemma_position(rest, '\n');
        }
        if nl == n {
            out.push(String::from_str(text.substring_char(pos, n)));
            proof {
                assert(text@.subrange(pos as int, n as int) == rest);
                assert(strings_view(out@) == before.push(rest));
                assert(lines(text@.skip(n as int)) == Seq::<Seq<char>>::empty());
            }
            pos = n;
        } else {
            let end = if nl > pos && chars[nl - 1] == '\r' {
                nl - 1
            } else {
                nl
            };
            out.push(String::from_str(text.substring_char(pos, end)));
            proof {
                let line = rest.take(nl - pos);
                assert(line == text@.subrange(pos as int, nl as int));
                assert(text@.subrange(pos as int, end as int) == without_cr(line)) by {
                    if nl > pos && chars[nl - 1] == '\r' {
                        assert(line.last() == chars@[nl - 1]);
                        assert(line.drop_last() == text@.subrange(pos as int, end as int));
                    }
                }
                assert(strings_view(out@) == before.push(without_cr(line)));
                assert(rest.skip(nl - pos + 1) == text@.skip(nl + 1));
            }
            pos = nl + 1;
        }
    }
    proof {
        assert(lines(text@.skip(n as int)) == Seq::<Seq<char>>::empty());
    }
    out
}

/// Why a text defines no groups.
#[derive(Debug, Clone, Copy, PartialEq, Eq)]
pub enum ParseError {
    /// The line with this number, counted from 1, holds no `:` and is no
    /// comment.
    MissingColon { line: usize },
}

/// The entries that a sequence of lines defines, or the first line that is
/// malformed.
pub open spec fn entries_of(lines: Seq<Seq<char>>) -> Result<Seq<EntryView>, ParseError>
    decreases lines.len(),
{
    if lines.len() == 0 {
        Ok(Seq::empty())
    } else {
        match entries_of(lines.drop_last()) {
            Err(e) => Err(e),
            Ok(entries) => match line_entry(lines.last()) {
                LineView::Comment => Ok(entries),
                LineView::Malformed => Err(ParseError::MissingColon { line: lines.len() as usize }),
                LineView::Command(e) => Ok(entries.push(e)),
            },
        }
    }
}

/// The model of the outcome of reading the lines.
pub open spec fn parsed_view(r: Result<Vec<Entry>, ParseError>) -> Result<
    Seq<EntryView>,
    ParseError,
> {
    match r {
        Ok(entries) => Ok(entries_view(entries@)),
        Err(e) => Err(e),
    }
}

/// Reads the lines in order and stops at the first that is malformed.
pub fn parse_entries(lines: &Vec<String>) -> (r: Result<Vec<Entry>, ParseError>)
    ensures
        parsed_view(r) == entries_of(strings_view(lines@)),
        r is Ok <==> well_formed(strings_view(lines@)),
{
    let ghost all = strings_view(lines@);
    proof {
        assert(all.len() == lines.len());
        lemma_entries_of(all);
    }
    let mut out: Vec<Entry> = Vec::new();
    let mut i: usize = 0;
    proof {
        assert(entries_view(out@) == Seq::<EntryView>::empty());
        assert(all.take(0).len() == 0);
    }
    while i < lines.len()
        invariant
            i <= lines.len(),
            all == strings_view(lines@),
            entries_of(all.take(i as int)) == Ok::<Seq<EntryView>, ParseError>(
                entries_view(out@),
            ),
        decreases lines.len() - i,
    {
        let ghost before = entries_view(out@);
        proof {
            assert(all.take(i + 1).drop_last() == all.take(i as int));
            assert(all.take(i + 1).last() == lines@[i as int]@);
        }
        match parse_line(lines[i].as_str()) {
            Line::Comment => {},
            Line::Malformed => {
                proof {
                    lemma_entries_error_stays(all, i + 1);
                }
                return Err(ParseError::MissingColon { line: i + 1 });
            },
            Line::Command(e) => {
                out.push(e);
                assert(entries_view(out@) == before.push(e@));
            },
        }
        i += 1;
    }
    proof {
        assert(all.take(lines.len() as int) == all);
    }
    Ok(out)
}

/// Whether every line is a comment or defines a command.
pub open spec fn well_formed(lines: Seq<Seq<char>>) -> bool {
    forall|i: int| 0 <= i < lines.len() ==> !(#[trigger] line_entry(lines[i]) is Malformed)
}

/// Reading succeeds exactly on lines that are well formed, and else names
/// the first line that is not.
pub proof fn lemma_entries_of(lines: Seq<Seq<char>>)
    requires
        lines.len() <= usize::MAX,
    ensures
        entries_of(lines) is Ok <==> well_formed(lines),
        entries_of(lines) matches Err(ParseError::MissingColon { line }) ==> {
            &&& 1 <= line <= lines.len()
            &&& line_entry(lines[line - 1]) is Malformed
            &&& well_formed(lines.take(line - 1))
        },
    decreases lines.len(),
{
    if lines.len() > 0 {
        let init = lines.drop_last();
        lemma_entries_of(init);
        assert forall|i: int| 0 <= i < init.len() implies init[i] == lines[i] by {}
        match entries_of(init) {
            Err(ParseError::MissingColon { line }) => {
                assert(init.take(line - 1) == lines.take(line - 1));
                assert(line_entry(lines[line - 1]) is Malformed);
            },
            Ok(_) => {
                if line_entry(lines.last()) is Malformed {
                    assert(lines.take(lines.len() - 1) == init);
                } else {
                    assert forall|i: int| 0 <= i < lines.len() implies !(#[trigger] line_entry(
                        lines[i],
                    ) is Malformed) by {
                        if i < init.len() {
                            assert(!(line_entry(init[i]) is Malformed));
                        }
                    }
                }
            },
        }
    }
}

/// An error among the first `k` lines is the error of the whole.
pub proof fn lemma_entries_error_stays(lines: Seq<Seq<char>>, k: int)
    requires
        0 <= k <= lines.len(),
        entries_of(lines.take(k)) is Err,
    ensures
        entries_of(lines) == entries_of(lines.take(k)),
    decreases lines.len() - k,
{
    if k == lines.len() {
        assert(lines.take(k) == lines);
    } else {
        assert(lines.take(k + 1).drop_last() == lines.take(k));
        lemma_entries_error_stays(lines, k + 1);
    }
}

/// The titles of the entries, each once, in the order in which they first
/// occur.
pub open spec fn titles_of(entries: Seq<EntryView>) -> Seq<Seq<char>>
    decreases entries.len(),
{
    if entries.len() == 0 {
        Seq::empty()
    } else {
        let before = titles_of(entries.drop_last());
        if before.contains(entries.last().title) {
            before
        } else {
            before.push(entries.last().title)
        }
    }
}

/// The members of the group `title`: the placeholder, then the commands of
/// the entries with that title, in their order.
pub open spec fn members_of(entries: Seq<EntryView>, title: Seq<char>) -> Seq<ProcessView>
    decreases entries.len(),
{
    if entries.len() == 0 {
        seq![ProcessView::Null]
    } else {
        let before = members_of(entries.drop_last(), title);
        if entries.last().title == title {
            before.push(entries.last().member())
        } else {
            before
        }
    }
}

/// The groups that the entries make.
pub open spec fn groups_of(entries: Seq<EntryView>) -> Seq<GroupView> {
    Seq::new(
        titles_of(entries).len(),
        |i: int|
            GroupView {
                title: titles_of(entries)[i],
                members: members_of(entries, titles_of(entries)[i]),
            },
    )
}

/// `titles_of` holds exactly the titles of the entries, none twice.
pub proof fn lemma_titles_of(entries: Seq<EntryView>)
    ensures
        titles_of(entries).no_duplicates(),
        forall|t: Seq<char>| #[trigger]
            titles_of(entries).contains(t) <==> exists|i: int|
                0 <= i < entries.len() && (#[trigger] entries[i]).title == t,
    decreases entries.len(),
{
    if entries.len() > 0 {
        let init = entries.drop_last();
        let last = entries.last();
        let before = titles_of(init);
        lemma_titles_of(init);
        assert forall|t: Seq<char>| #[trigger]
            titles_of(entries).contains(t) <==> exists|i: int|
                0 <= i < entries.len() && (#[trigger] entries[i]).title == t by {
            if titles_of(entries).contains(t) {
                if before.contains(t) {
                    let i = choose|i: int| 0 <= i < init.len() && (#[trigger] init[i]).title == t;
                    assert(entries[i].title == t);
                } else {
                    let j = choose|j: int|
                        0 <= j < titles_of(entries).len() && titles_of(entries)[j] == t;
                    assert(j == before.len());
                    assert(entries[entries.len() - 1].title == t);
                }
            }
            if exists|i: int| 0 <= i < entries.len() && (#[trigger] entries[i]).title == t {
                let i = choose|i: int| 0 <= i < entries.len() && (#[trigger] entries[i]).title == t;
                if i < init.len() {
                    assert(init[i].title == t);
                    assert(before.contains(t));
                    let j = choose|j: int| 0 <= j < before.len() && before[j] == t;
                    assert(titles_of(entries)[j] == t);
                } else {
                    if before.contains(t) {
                    } else {
                        assert(titles_of(entries)[before.len() as int] == t);
                    }
                }
            }
        }
    }
}

/// A title that no entry has names a group of the placeholder alone.
pub proof fn lemma_members_of_absent(entries: Seq<EntryView>, title: Seq<char>)
    requires
        forall|i: int| 0 <= i < entries.len() ==> (#[trigger] entries[i]).title != title,
    ensures
        members_of(entries, title) == seq![ProcessView::Null],
    decreases entries.len(),
{
    if entries.len() > 0 {
        let init = entries.drop_last();
        assert forall|i: int| 0 <= i < init.len() implies (#[trigger] init[i]).title != title by {
            assert(init[i] == entries[i]);
        }
        lemma_members_of_absent(init, title);
        assert(entries[entries.len() - 1].title != title);
    }
}

/// Gathers the entries into groups: one group for each title, in the order
/// in which the titles first occur, each with the placeholder first and its
/// commands in the order of the entries.
pub fn group_entries(entries: &Vec<Entry>) -> (r: Vec<ProcessGroup>)
    ensures
        groups_view(r@) == groups_of(entries_view(entries@)),
{
    let ghost all = entries_view(entries@);
    let mut groups: Vec<ProcessGroup> = Vec::new();
    let mut k: usize = 0;
    proof {
        assert(all.take(0).len() == 0);
        assert(groups_view(groups@) == groups_of(all.take(0)));
    }
    while k < entries.len()
        invariant
            k <= entries.len(),
            all == entries_view(entries@),
            groups_view(groups@) == groups_of(all.take(k as int)),
        decreases entries.len() - k,
    {
        let entry = &entries[k];
        let ghost seen = all.take(k as int);
        let ghost next = all.take(k + 1);
        let ghost old_groups = groups_view(groups@);
        proof {
            assert(next.drop_last() == seen);
            assert(next.last() == entry@);
            lemma_titles_of(seen);
            assert(old_groups.len() == titles_of(seen).len());
            assert forall|i: int| 0 <= i < groups.len() implies (#[trigger] groups@[i]).title@
                == titles_of(seen)[i] by {
                assert(old_groups[i] == groups@[i]@);
            }
        }
        let mut j: usize = 0;
        while j < groups.len() && !(groups[j].title == entry.title)
            invariant
                j <= groups.len(),
                forall|i: int| 0 <= i < j ==> (#[trigger] groups@[i]).title@ != entry.title@,
            decreases groups.len() - j,
        {
            j += 1;
        }
        let member = Process::Command { label: entry.label.clone(), argv: entry.argv.clone() };
        let ghost member_value = member;
        let ghost member_view = member@;
        let ghost old_seq = groups@;
        if j < groups.len() {
            groups[j].members.push(member);
            proof {
                let t = titles_of(seen);
                assert(t[j as int] == entry@.title);
                assert(t.contains(entry@.title));
                assert(titles_of(next) == t);
                let new_groups = groups_view(groups@);
                assert(new_groups.len() == old_groups.len());
                assert forall|i: int| 0 <= i < new_groups.len() implies new_groups[i] == groups_of(
                    next,
                )[i] by {
                    assert(new_groups[i] == groups@[i]@);
                    assert(old_groups[i] == groups_of(seen)[i]);
                    if i == j {
                        assert(members_view(groups@[i].members@) == members_of(seen, t[i]).push(
                            entry@.member(),
                        ));
                    } else {
                        assert(t[i] != t[j as int]);
                    }
                }
                assert(new_groups == groups_of(next));
            }
        } else {
            let mut members: Vec<Process> = Vec::new();
            members.push(Process::Null);
            members.push(member);
            groups.push(ProcessGroup { title: entry.title.clone(), members });
            proof {
                let t = titles_of(seen);
                assert(!t.contains(entry@.title)) by {
                    if t.contains(entry@.title) {
                        let i = choose|i: int| 0 <= i < t.len() && t[i] == entry@.title;
                        assert(groups@[i].title@ == t[i]);
                    }
                }
                assert(titles_of(next) == t.push(entry@.title));
                assert forall|i: int| 0 <= i < seen.len() implies (#[trigger] seen[i]).title
                    != entry@.title by {
                    if seen[i].title == entry@.title {
                        assert(t.contains(entry@.title));
                    }
                }
                lemma_members_of_absent(seen, entry@.title);
                let new_groups = groups_view(groups@);
                assert forall|i: int| 0 <= i < new_groups.len() implies new_groups[i] == groups_of(
                    next,
                )[i] by {
                    assert(new_groups[i] == groups@[i]@);
                    if i < old_groups.len() {
                        assert(groups@[i] == old_seq[i]);
                        assert(old_groups[i] == old_seq[i]@);
                        assert(old_groups[i] == groups_of(seen)[i]);
                        assert(t.contains(t[i]));
                        assert(titles_of(next)[i] == t[i]);
                    } else {
                        assert(titles_of(next)[i] == entry@.title);
                        assert(member_view == entry@.member());
                        assert(groups@[i].members@ =~= seq![Process::Null, member_value]);
                        assert(members_view(groups@[i].members@) =~= seq![
                            ProcessView::Null,
                            entry@.member(),
                        ]);
                        assert(members_of(next, entry@.title) =~= seq![
                            ProcessView::Null,
                            entry@.member(),
                        ]);
                    }
                }
                assert(new_groups == groups_of(next));
            }
        }
        k += 1;
    }
    proof {
        assert(all.take(entries.len() as int) == all);
    }
    groups
}

/// Whether the groups are what a configuration gives: each with the
/// placeholder first, and no two with the same title.
pub open spec fn distinct_groups(procfile: Seq<ProcessGroup>) -> bool {
    &&& forall|i: int| 0 <= i < procfile.len() ==> (#[trigger] procfile[i])@.wf()
    &&& forall|i: int, j: int|
        0 <= i < j < procfile.len() ==> (#[trigger] procfile[i]).title@ != (
        #[trigger] procfile[j]).title@
}

/// The groups that a text defines, or why it defines none.
pub open spec fn procfile_of(text: Seq<char>) -> Result<Seq<GroupView>, ParseError> {
    match entries_of(lines(text)) {
        Ok(entries) => Ok(groups_of(entries)),
        Err(e) => Err(e),
    }
}

/// The model of the outcome of reading a text.
pub open spec fn procfile_view(r: Result<Vec<ProcessGroup>, ParseError>) -> Result<
    Seq<GroupView>,
    ParseError,
> {
    match r {
        Ok(groups) => Ok(groups_view(groups@)),
        Err(e) => Err(e),
    }
}

/// Reads the text of a group file. It fails on the first line that holds no
/// `:` and is no comment, and succeeds on every text without such a line.
pub fn parse_procfile(text: &str) -> (r: Result<Procfile, ParseError>)
    ensures
        procfile_view(r) == procfile_of(text@),
        r is Ok <==> well_formed(lines(text@)),
        r matches Ok(groups) ==> distinct_groups(groups@),
{
    let lines = split_lines(text);
    match parse_entries(&lines) {
        Ok(entries) => {
            let groups = group_entries(&entries);
            proof {
                let made = entries_view(entries@);
                lemma_titles_of(made);
                assert(groups_view(groups@).len() == groups.len());
                assert(titles_of(made).len() == groups.len());
                assert forall|i: int| 0 <= i < groups.len() implies (#[trigger] groups@[i])@.wf() by {
                    lemma_groups_of(made, i);
                    assert(groups_view(groups@)[i] == groups@[i]@);
                }
                assert forall|i: int, j: int| 0 <= i < j < groups.len() implies (
                #[trigger] groups@[i]).title@ != (#[trigger] groups@[j]).title@ by {
                    assert(groups_view(groups@)[i] == groups@[i]@);
                    assert(groups_view(groups@)[j] == groups@[j]@);
                    assert(groups_of(made)[i].title == titles_of(made)[i]);
                    assert(groups_of(made)[j].title == titles_of(made)[j]);
                }
            }
            Ok(groups)
        },
        Err(e) => Err(e),
    }
}

/// Every group has the placeholder at index 0, and after it the commands of
/// the entries with the group's title, in the order of the entries.
pub proof fn lemma_groups_of(entries: Seq<EntryView>, i: int)
    requires
        0 <= i < groups_of(entries).len(),
    ensures
        groups_of(entries)[i].wf(),
        groups_of(entries)[i].members == seq![ProcessView::Null] + entries.filter(
            |e: EntryView| e.title == groups_of(entries)[i].title,
        ).map_values(|e: EntryView| e.member()),
{
    lemma_members_of(entries, groups_of(entries)[i].title);
}

/// The members of a group are the placeholder and then the commands of the
/// entries with its title, in the order of the entries.
pub proof fn lemma_members_of(entries: Seq<EntryView>, title: Seq<char>)
    ensures
        members_of(entries, title).len() > 0,
        members_of(entries, title)[0] == ProcessView::Null,
        members_of(entries, title) == seq![ProcessView::Null] + entries.filter(
            |e: EntryView| e.title == title,
        ).map_values(|e: EntryView| e.member()),
    decreases entries.len(),
{
    let pred = |e: EntryView| e.title == title;
    let member = |e: EntryView| e.member();
    reveal(Seq::filter);
    if entries.len() == 0 {
        assert(members_of(entries, title) == seq![ProcessView::Null] + entries.filter(
            pred,
        ).map_values(member));
    } else {
        let init = entries.drop_last();
        lemma_members_of(init, title);
        if pred(entries.last()) {
            assert(entries.filter(pred) == init.filter(pred).push(entries.last()));
            assert(entries.filter(pred).map_values(member) == init.filter(pred).map_values(
                member,
            ).push(entries.last().member()));
        } else {
            assert(entries.filter(pred) == init.filter(pred));
        }
        assert(members_of(entries, title) == seq![ProcessView::Null] + entries.filter(
            pred,
        ).map_values(member));
    }
}

/// The groups stand in the order in which their titles are first seen: of
/// two groups, the earlier one's title occurs in an entry before any entry
/// has the later one's title.
pub proof fn lemma_groups_first_seen(entries: Seq<EntryView>, i: int, j: int)
    requires
        0 <= i < j < groups_of(entries).len(),
    ensures
        exists|a: int|
            0 <= a < entries.len() && (#[trigger] entries[a]).title == groups_of(entries)[i].title
                && forall|b: int|
                0 <= b <= a ==> (#[trigger] entries[b]).title != groups_of(entries)[j].title,
    decreases entries.len(),
{
    let titles = titles_of(entries);
    let init = entries.drop_last();
    let before = titles_of(init);
    lemma_titles_of(init);
    if j < before.len() {
        lemma_groups_first_seen(init, i, j);
        let a = choose|a: int|
            0 <= a < init.len() && (#[trigger] init[a]).title == groups_of(init)[i].title
                && forall|b: int|
                0 <= b <= a ==> (#[trigger] init[b]).title != groups_of(init)[j].title;
        assert(entries[a].title == titles[i]);
        assert forall|b: int| 0 <= b <= a implies (#[trigger] entries[b]).title != titles[j] by {
            assert(init[b] == entries[b]);
        }
    } else {
        let last = entries.last();
        assert(titles[j] == last.title);
        assert(before.contains(before[i]));
        let a = choose|a: int| 0 <= a < init.len() && (#[trigger] init[a]).title == before[i];
        assert(entries[a].title == titles[i]);
        assert forall|b: int| 0 <= b <= a implies (#[trigger] entries[b]).title != titles[j] by {
            assert(init[b] == entries[b]);
            if init[b].title == last.title {
                assert(before.contains(last.title));
            }
        }
    }
}

/// No two groups have the same title, and every entry's title is the title
/// of a group.
pub proof fn lemma_groups_titles(entries: Seq<EntryView>)
    ensures
        forall|i: int, j: int|
            0 <= i < j < groups_of(entries).len() ==> (#[trigger] groups_of(entries)[i]).title != (
            #[trigger] groups_of(entries)[j]).title,
        forall|a: int|
            0 <= a < entries.len() ==> exists|i: int|
                0 <= i < groups_of(entries).len() && (#[trigger] groups_of(entries)[i]).title == (
                #[trigger] entries[a]).title,
{
    lemma_titles_of(entries);
    let titles = titles_of(entries);
    assert forall|a: int| 0 <= a < entries.len() implies exists|i: int|
        0 <= i < groups_of(entries).len() && (#[trigger] groups_of(entries)[i]).title == (
        #[trigger] entries[a]).title by {
        assert(titles.contains(entries[a].title));
        let i = choose|i: int| 0 <= i < titles.len() && titles[i] == entries[a].title;
        assert(groups_of(entries)[i].title == entries[a].title);
    }
}

} // verus!
