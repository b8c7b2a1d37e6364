//! What is kept of a session between runs: the title of the focused group,
//! and for every group with a running command that command's label. The
//! record is filed under a name that is made from the path of the
//! configuration, so that two configurations do not share one.

use crate::procfile::Process;
use crate::text::{hex, hex_string, lemma_position, lemma_position_unique, position};
use crate::ui::{lemma_same_titles, titles, UiState};
use crate::window::{Switch, SwitchView, UiWindow};
use sha2::Digest;
use vstd::prelude::*;

verus! {

/// The SHA-256 digest of `data`, as the `sha2` crate computes it.
pub uninterp spec fn sha256(data: Seq<u8>) -> Seq<u8>;

/// Computes the SHA-256 digest of `data` with `sha2::Sha256::digest`.
///
/// Not proved: that the result is a function of `data` alone, which is
/// named [`sha256`]. Nothing else is claimed of it.
#[verifier::external_body]
fn sha256_digest(data: &[u8]) -> (r: Vec<u8>)
    ensures
        r@ == sha256(data@),
{
    sha2::Sha256::digest(data).to_vec()
}

/// The name under which the session of the configuration at `path` is
/// kept: the SHA-256 digest of the path's bytes, in hexadecimal.
pub fn procfile_hash(path: &[u8]) -> (r: String)
    ensures
        r@ == hex(sha256(path@)),
{
    let digest = sha256_digest(path);
    hex_string(&digest)
}

/// The record of a session.
#[derive(Debug, Clone, PartialEq, Eq)]
pub struct SavedState {
    /// The title of the group that had the focus.
    pub focused_group: String,
    /// For each group with a running command, its title and the label of
    /// that command. No title stands twice.
    pub active_processes: Vec<(String, String)>,
}

/// Mathematical model of a [`SavedState`].
pub struct SavedView {
    pub focused_group: Seq<char>,
    pub active_processes: Seq<(Seq<char>, Seq<char>)>,
}

/// The models of a sequence of pairs of texts.
pub open spec fn pairs_view(pairs: Seq<(String, String)>) -> Seq<(Seq<char>, Seq<char>)> {
    pairs.map_values(|p: (String, String)| (p.0@, p.1@))
}

impl View for SavedState {
    type V = SavedView;

    open spec fn view(&self) -> SavedView {
        SavedView {
            focused_group: self.focused_group@,
            active_processes: pairs_view(self.active_processes@),
        }
    }
}

/// The keys of a sequence of pairs.
pub open spec fn keys(pairs: Seq<(Seq<char>, Seq<char>)>) -> Seq<Seq<char>> {
    pairs.map_values(|p: (Seq<char>, Seq<char>)| p.0)
}

/// The pairs with `value` under `key`: in the place of the pair that has
/// the key, or at the end.
pub open spec fn put(pairs: Seq<(Seq<char>, Seq<char>)>, key: Seq<char>, value: Seq<char>) -> Seq<
    (Seq<char>, Seq<char>),
> {
    let i = position(keys(pairs), key);
    if 0 <= i < pairs.len() {
        pairs.update(i, (key, value))
    } else {
        pairs.push((key, value))
    }
}

/// Puts `value` under `key`.
pub fn put_pair(pairs: &mut Vec<(String, String)>, key: String, value: String)
    ensures
        pairs_view(final(pairs)@) == put(pairs_view(old(pairs)@), key@, value@),
{
    let ghost before = pairs_view(pairs@);
    let mut i: usize = 0;
    while i < pairs.len() && !(pairs[i].0 == key)
        invariant
            i <= pairs@.len(),
            before == pairs_view(pairs@),
            forall|j: int| 0 <= j < i ==> keys(before)[j] != key@,
        decreases pairs@.len() - i,
    {
        i += 1;
    }
    proof {
        lemma_position_unique(keys(before), key@, i as int);
    }
    if i < pairs.len() {
        pairs[i] = (key, value);
        assert(pairs_view(pairs@) == before.update(i as int, (key@, value@)));
    } else {
        pairs.push((key, value));
        assert(pairs_view(pairs@) == before.push((key@, value@)));
    }
}

/// The labels of a sequence of members.
pub open spec fn labels(members: Seq<Process>) -> Seq<Seq<char>> {
    members.map_values(|m: Process| m@.label())
}

/// What is remembered of the first `n` windows: title and label of each
/// that has a command selected.
pub open spec fn remembered(windows: Seq<UiWindow>, n: int) -> Seq<(Seq<char>, Seq<char>)>
    decreases n,
{
    if n <= 0 {
        Seq::empty()
    } else {
        let before = remembered(windows, n - 1);
        match windows[n - 1].active() {
            Some(p) => put(before, windows[n - 1].process_group.title@, p@.label()),
            None => before,
        }
    }
}

/// The window once it has selected its first member labelled `label`. A
/// window without such a member stays as it is.
pub open spec fn chosen(window: UiWindow, label: Seq<char>) -> UiWindow {
    let m = position(labels(window.process_group.members@), label);
    if 0 <= m < window.process_group.members@.len() {
        window.selected(m as usize)
    } else {
        window
    }
}

/// The windows once the first window titled `title` has selected its first
/// member labelled `label`. Where there is no such window or no such
/// member, nothing changes.
pub open spec fn restored(windows: Seq<UiWindow>, title: Seq<char>, label: Seq<char>) -> Seq<
    UiWindow,
> {
    let w = position(titles(windows), title);
    if 0 <= w < windows.len() {
        windows.update(w, chosen(windows[w], label))
    } else {
        windows
    }
}

/// The windows once the first `n` remembered pairs were restored, in their
/// order.
pub open spec fn reloaded(windows: Seq<UiWindow>, pairs: Seq<(Seq<char>, Seq<char>)>, n: int) -> Seq<
    UiWindow,
>
    decreases n,
{
    if n <= 0 {
        windows
    } else {
        restored(reloaded(windows, pairs, n - 1), pairs[n - 1].0, pairs[n - 1].1)
    }
}

/// What restoring the first `n` remembered pairs asks of the caller: for
/// each pair that selects a member, the index of the window and what is to
/// be torn down and started there.
pub open spec fn reload_switches(
    windows: Seq<UiWindow>,
    dimension: (usize, usize),
    pairs: Seq<(Seq<char>, Seq<char>)>,
    n: int,
) -> Seq<(int, SwitchView)>
    decreases n,
{
    if n <= 0 {
        Seq::empty()
    } else {
        let before = reload_switches(windows, dimension, pairs, n - 1);
        let now = reloaded(windows, pairs, n - 1);
        let w = position(titles(now), pairs[n - 1].0);
        if 0 <= w < now.len() {
            let m = position(labels(now[w].process_group.members@), pairs[n - 1].1);
            if 0 <= m < now[w].process_group.members@.len() {
                before.push((w, now[w].switch_of(dimension, m as usize)))
            } else {
                before
            }
        } else {
            before
        }
    }
}

/// The models of a sequence of switches, each with the index of its window.
pub open spec fn switches_view(switches: Seq<(usize, Switch)>) -> Seq<(int, SwitchView)> {
    switches.map_values(|s: (usize, Switch)| (s.0 as int, s.1@))
}

/// The model of a text that may be missing.
pub open spec fn text_view(text: Option<String>) -> Option<Seq<char>> {
    match text {
        Some(s) => Some(s@),
        None => None,
    }
}

/// The model of a borrowed text that may be missing.
pub open spec fn str_view(text: Option<&str>) -> Option<Seq<char>> {
    match text {
        Some(s) => Some(s@),
        None => None,
    }
}

/// The model of a record that may be missing.
pub open spec fn saved_view(saved: Option<SavedState>) -> Option<SavedView> {
    match saved {
        Some(s) => Some(s@),
        None => None,
    }
}

impl UiWindow {
    /// The index of the first member with the label `label`.
    pub fn find_member_by_label(&self, label: &String) -> (r: Option<usize>)
        ensures
            match r {
                Some(i) => i == position(labels(self.process_group.members@), label@) && i
                    < self.process_group.members@.len(),
                None => position(labels(self.process_group.members@), label@)
                    == self.process_group.members@.len(),
            },
    {
        let mut i: usize = 0;
        while i < self.process_group.members.len()
            invariant
                i <= self.process_group.members@.len(),
                forall|j: int| 0 <= j < i ==> labels(self.process_group.members@)[j] != label@,
            decreases self.process_group.members@.len() - i,
        {
            let found = self.process_group.members[i].label();
            if found == *label {
                proof {
                    lemma_position_unique(labels(self.process_group.members@), label@, i as int);
                }
                return Some(i);
            }
            i += 1;
        }
        proof {
            lemma_position_unique(labels(self.process_group.members@), label@, i as int);
        }
        None
    }
}

impl UiState {
    /// The record of this session: none where no window has the focus.
    pub open spec fn saved(self) -> Option<SavedView> {
        if self.focused_window_index < self.windows@.len() {
            Some(
                SavedView {
                    focused_group: self.windows@[self.focused_window_index as int].process_group.title@,
                    active_processes: remembered(self.windows@, self.windows@.len() as int),
                },
            )
        } else {
            None
        }
    }

    /// Makes the record of this session.
    pub fn save_state(&self) -> (r: Option<SavedState>)
        ensures
            saved_view(r) == self.saved(),
            r matches Some(record) ==> keys(record@.active_processes).no_duplicates(),
    {
        proof {
            lemma_remembered_keys(self.windows@, self.windows@.len() as int);
        }
        if self.focused_window_index >= self.windows.len() {
            return None;
        }
        let mut pairs: Vec<(String, String)> = Vec::new();
        let mut i: usize = 0;
        proof {
            assert(pairs_view(pairs@) == remembered(self.windows@, 0));
        }
        while i < self.windows.len()
            invariant
                i <= self.windows@.len(),
                pairs_view(pairs@) == remembered(self.windows@, i as int),
            decreases self.windows@.len() - i,
        {
            match self.windows[i].get_active() {
                Some(p) => {
                    put_pair(&mut pairs, self.windows[i].process_group.title.clone(), p.label());
                },
                None => {},
            }
            i += 1;
        }
        Some(
            SavedState {
                focused_group: self.windows[self.focused_window_index].process_group.title.clone(),
                active_processes: pairs,
            },
        )
    }

    /// The index of the focus once the group titled `title` was looked for:
    /// that of the first window with the title, or the same as before.
    pub open spec fn refocused(self, title: Seq<char>) -> usize {
        let i = position(titles(self.windows@), title);
        if 0 <= i < self.windows@.len() {
            i as usize
        } else {
            self.focused_window_index
        }
    }

    /// Brings back a recorded session: the focus goes to the group that had
    /// it, and every group selects the member with the recorded label.
    /// What the record says of groups or labels that are no longer there is
    /// passed over. The result says, for each selection made, in which
    /// window to tear down and start what. At a fresh start of the groups
    /// of a well-formed state, the record of that state brings back its
    /// focus and the label that every group had selected.
    pub fn load_state(&mut self, state: &SavedState) -> (r: Vec<(usize, Switch)>)
        ensures
            final(self).focused_window_index == old(self).refocused(state@.focused_group),
            final(self).windows@ == reloaded(
                old(self).windows@,
                state@.active_processes,
                state@.active_processes.len() as int,
            ),
            switches_view(r@) == reload_switches(
                old(self).windows@,
                old(self).dimension,
                state@.active_processes,
                state@.active_processes.len() as int,
            ),
            final(self).procfile_hash == old(self).procfile_hash,
            final(self).dimension == old(self).dimension,
            final(self).repaint == old(self).repaint,
            old(self).wf() ==> final(self).wf(),
            forall|saved: UiState|
                saved.wf() && #[trigger] saved.saved() == Some(state@) && old(self).windows@
                    == restarted(saved.windows@) ==> final(self).focused_window_index
                    == saved.focused_window_index && brought_back(
                    final(self).windows@,
                    saved.windows@,
                ),
    {
        match self.find_window_by_title(&state.focused_group) {
            Some(i) => {
                self.focused_window_index = i;
            },
            None => {},
        }
        let ghost pairs = state@.active_processes;
        let dimension = self.dimension;
        let mut switches: Vec<(usize, Switch)> = Vec::new();
        let mut k: usize = 0;
        proof {
            assert(switches_view(switches@) == reload_switches(
                old(self).windows@,
                dimension,
                pairs,
                0,
            ));
        }
        while k < state.active_processes.len()
            invariant
                k <= state.active_processes@.len(),
                pairs == state@.active_processes,
                pairs.len() == state.active_processes@.len(),
                dimension == old(self).dimension,
                self.focused_window_index == old(self).refocused(state@.focused_group),
                self.windows@ == reloaded(old(self).windows@, pairs, k as int),
                switches_view(switches@) == reload_switches(
                    old(self).windows@,
                    dimension,
                    pairs,
                    k as int,
                ),
                self.procfile_hash == old(self).procfile_hash,
                self.dimension == old(self).dimension,
                self.repaint == old(self).repaint,
                self.windows@.len() == old(self).windows@.len(),
                titles(self.windows@) == titles(old(self).windows@),
                old(self).wf() ==> self.wf(),
            decreases state.active_processes@.len() - k,
        {
            let ghost now = self.windows@;
            let ghost asked = switches_view(switches@);
            proof {
                assert(pairs[k as int] == (
                    state.active_processes@[k as int].0@,
                    state.active_processes@[k as int].1@,
                ));
            }
            match self.find_window_by_title(&state.active_processes[k].0) {
                Some(w) => {
                    match self.windows[w].find_member_by_label(&state.active_processes[k].1) {
                        Some(m) => {
                            let switch = self.windows[w].set_active(dimension, m);
                            switches.push((w, switch));
                            proof {
                                assert(self.windows@ == now.update(
                                    w as int,
                                    now[w as int].selected(m),
                                ));
                                assert(switches_view(switches@) == asked.push(
                                    (w as int, now[w as int].switch_of(dimension, m)),
                                ));
                            }
                        },
                        None => {
                            assert(self.windows@ == now.update(w as int, now[w as int]));
                        },
                    }
                },
                None => {},
            }
            proof {
                lemma_same_titles(self.windows@, now);
            }
            k += 1;
        }
        proof {
            assert forall|saved: UiState|
                saved.wf() && #[trigger] saved.saved() == Some(state@) && old(self).windows@
                    == restarted(saved.windows@) implies self.focused_window_index
                == saved.focused_window_index && brought_back(self.windows@, saved.windows@) by {
                lemma_record_round_trip(saved);
            }
        }
        switches
    }

    /// The directory in which records are kept: `sudare` under the cache
    /// directory that the process environment names, or under `.cache` in
    /// the home directory. None where it names neither.
    pub open spec fn cache_dir_of(xdg_cache_home: Option<Seq<char>>, home: Option<Seq<char>>) -> Option<
        Seq<char>,
    > {
        match xdg_cache_home {
            Some(cache) => Some(cache + "/sudare"@),
            None => match home {
                Some(home) => Some(home + "/.cache"@ + "/sudare"@),
                None => None,
            },
        }
    }

    /// The directory in which records are kept, given what the process
    /// environment says of the cache directory and of the home directory.
    pub fn cache_dir(xdg_cache_home: Option<&str>, home: Option<&str>) -> (r: Option<String>)
        ensures
            text_view(r) == Self::cache_dir_of(str_view(xdg_cache_home), str_view(home)),
    {
        match xdg_cache_home {
            Some(cache) => {
                let mut dir = String::from_str(cache);
                dir.append("/sudare");
                Some(dir)
            },
            None => match home {
                Some(home) => {
                    let mut dir = String::from_str(home);
                    dir.append("/.cache");
                    dir.append("/sudare");
                    Some(dir)
                },
                None => None,
            },
        }
    }

    /// The file in which this configuration's record is kept, in
    /// `cache_dir`.
    pub fn state_file_path(&self, cache_dir: &str) -> (r: String)
        ensures
            r@ == cache_dir@ + "/"@ + self.procfile_hash@ + ".json"@,
    {
        let mut path = String::from_str(cache_dir);
        path.append("/");
        path.append(self.procfile_hash.as_str());
        path.append(".json");
        path
    }
}

/// The windows as a fresh start has them: the same groups, the member at
/// index 0 selected and nothing running.
pub open spec fn restarted(windows: Seq<UiWindow>) -> Seq<UiWindow> {
    windows.map_values(
        |w: UiWindow|
            UiWindow { process_group: w.process_group, active_process_index: 0, pty_terminal: None },
    )
}

/// Whether `pair` is what is remembered of window `i`: its title and the
/// label of the command that it has selected.
pub open spec fn remembers(windows: Seq<UiWindow>, i: int, pair: (Seq<char>, Seq<char>)) -> bool {
    &&& windows[i].active() is Some
    &&& pair == (windows[i].process_group.title@, windows[i].active()->0@.label())
}

/// Whether `pair` is what is remembered of one of the first `n` windows.
pub open spec fn remembered_of(windows: Seq<UiWindow>, n: int, pair: (Seq<char>, Seq<char>)) -> bool {
    exists|i: int| 0 <= i < n && #[trigger] remembers(windows, i, pair)
}

/// With no title twice among the windows, the record holds one pair for
/// each window with a command selected, and no other pair.
pub proof fn lemma_remembered(windows: Seq<UiWindow>, n: int)
    requires
        titles(windows).no_duplicates(),
        0 <= n <= windows.len(),
    ensures
        forall|j: int|
            0 <= j < remembered(windows, n).len() ==> remembered_of(
                windows,
                n,
                #[trigger] remembered(windows, n)[j],
            ),
        forall|i: int, pair: (Seq<char>, Seq<char>)|
            0 <= i < n && #[trigger] remembers(windows, i, pair) ==> remembered(
                windows,
                n,
            ).contains(pair),
    decreases n,
{
    if n > 0 {
        lemma_remembered(windows, n - 1);
        let before = remembered(windows, n - 1);
        let now = remembered(windows, n);
        let last = windows[n - 1];
        if last.active() is Some {
            let title = last.process_group.title@;
            let pair = (title, last.active()->0@.label());
            assert forall|j: int| 0 <= j < before.len() implies keys(before)[j] != title by {
                assert(remembered_of(windows, n - 1, before[j]));
                let i = choose|i: int| 0 <= i < n - 1 && #[trigger] remembers(windows, i, before[j]);
                assert(titles(windows)[i] == windows[i].process_group.title@);
                assert(titles(windows)[n - 1] == title);
            }
            lemma_position_unique(keys(before), title, before.len() as int);
            assert(now == before.push(pair));
            assert forall|j: int| 0 <= j < now.len() implies remembered_of(
                windows,
                n,
                #[trigger] now[j],
            ) by {
                if j < before.len() {
                    assert(remembered_of(windows, n - 1, before[j]));
                    let i = choose|i: int|
                        0 <= i < n - 1 && #[trigger] remembers(windows, i, before[j]);
                    assert(remembers(windows, i, now[j]));
                } else {
                    assert(remembers(windows, n - 1, now[j]));
                }
            }
            assert forall|i: int, found: (Seq<char>, Seq<char>)|
                0 <= i < n && #[trigger] remembers(windows, i, found) implies now.contains(found) by {
                if i < n - 1 {
                    assert(before.contains(found));
                    let j = choose|j: int| 0 <= j < before.len() && before[j] == found;
                    assert(now[j] == found);
                } else {
                    assert(now[before.len() as int] == pair);
                }
            }
        } else {
            assert(now == before);
            assert forall|j: int| 0 <= j < now.len() implies remembered_of(
                windows,
                n,
                #[trigger] now[j],
            ) by {
                assert(remembered_of(windows, n - 1, before[j]));
                let i = choose|i: int| 0 <= i < n - 1 && #[trigger] remembers(windows, i, before[j]);
                assert(remembers(windows, i, now[j]));
            }
        }
    } else {
        assert(remembered(windows, n).len() == 0);
    }
}

/// With no title twice among the windows and no key twice among the pairs,
/// restoring the pairs leaves every group as it was, lets every window
/// with a pair under its title choose by that pair's label, and leaves the
/// other windows as they were.
pub proof fn lemma_reloaded(windows: Seq<UiWindow>, pairs: Seq<(Seq<char>, Seq<char>)>, k: int)
    requires
        titles(windows).no_duplicates(),
        keys(pairs).no_duplicates(),
        0 <= k <= pairs.len(),
    ensures
        reloaded(windows, pairs, k).len() == windows.len(),
        titles(reloaded(windows, pairs, k)) == titles(windows),
        forall|i: int, j: int|
            #![trigger windows[i], pairs[j]]
            0 <= i < windows.len() && 0 <= j < k && pairs[j].0 == windows[i].process_group.title@
                ==> reloaded(windows, pairs, k)[i] == chosen(windows[i], pairs[j].1),
        forall|i: int|
            0 <= i < windows.len() && (forall|j: int|
                0 <= j < k ==> (#[trigger] pairs[j]).0 != windows[i].process_group.title@)
                ==> reloaded(windows, pairs, k)[i] == #[trigger] windows[i],
    decreases k,
{
    if k > 0 {
        lemma_reloaded(windows, pairs, k - 1);
        let before = reloaded(windows, pairs, k - 1);
        let now = reloaded(windows, pairs, k);
        let key = pairs[k - 1].0;
        let label = pairs[k - 1].1;
        let w = position(titles(before), key);
        lemma_position(titles(before), key);
        assert(titles(now) =~= titles(windows)) by {
            if 0 <= w < before.len() {
                assert(chosen(before[w], label).process_group == before[w].process_group);
                assert forall|i: int| 0 <= i < now.len() implies titles(now)[i] == titles(
                    windows,
                )[i] by {
                    assert(titles(before)[i] == titles(windows)[i]);
                }
            }
        }
        assert forall|i: int, j: int|
            #![trigger windows[i], pairs[j]]
            0 <= i < windows.len() && 0 <= j < k && pairs[j].0
                == windows[i].process_group.title@ implies now[i] == chosen(
            windows[i],
            pairs[j].1,
        ) by {
            assert(titles(windows)[i] == windows[i].process_group.title@);
            assert(titles(before)[i] == titles(windows)[i]);
            if j == k - 1 {
                // the window with this key is the first with its title
                assert(titles(before)[i] == key);
                assert(w == i) by {
                    assert(titles(windows)[w] == key);
                }
                assert(before[i] == windows[i]) by {
                    assert forall|j2: int| 0 <= j2 < k - 1 implies (#[trigger] pairs[j2]).0
                        != windows[i].process_group.title@ by {
                        assert(keys(pairs)[j2] == pairs[j2].0);
                        assert(keys(pairs)[k - 1] == key);
                    }
                }
            } else {
                assert(before[i] == chosen(windows[i], pairs[j].1));
                assert(keys(pairs)[j] == pairs[j].0);
                assert(keys(pairs)[k - 1] == key);
                assert(key != windows[i].process_group.title@);
                if 0 <= w < before.len() {
                    assert(titles(before)[w] == key);
                    assert(w != i);
                }
            }
        }
        assert forall|i: int|
            0 <= i < windows.len() && (forall|j: int|
                0 <= j < k ==> (#[trigger] pairs[j]).0
                    != windows[i].process_group.title@) implies now[i] == #[trigger] windows[i] by {
            assert(pairs[k - 1].0 != windows[i].process_group.title@);
            assert(titles(before)[i] == titles(windows)[i]);
            assert(titles(windows)[i] == windows[i].process_group.title@);
            if 0 <= w < before.len() {
                assert(titles(before)[w] == key);
                assert(w != i);
            }
            assert(before[i] == windows[i]);
        }
    }
}

/// Putting a value under a key leaves no key twice.
pub proof fn lemma_put_keys(pairs: Seq<(Seq<char>, Seq<char>)>, key: Seq<char>, value: Seq<char>)
    requires
        keys(pairs).no_duplicates(),
    ensures
        keys(put(pairs, key, value)).no_duplicates(),
{
    let i = position(keys(pairs), key);
    lemma_position(keys(pairs), key);
    if 0 <= i < pairs.len() {
        assert(keys(pairs.update(i, (key, value))) =~= keys(pairs));
    } else {
        assert(keys(pairs.push((key, value))) =~= keys(pairs).push(key));
    }
}

/// No title stands twice in a record.
pub proof fn lemma_remembered_keys(windows: Seq<UiWindow>, n: int)
    ensures
        keys(remembered(windows, n)).no_duplicates(),
    decreases n,
{
    if n > 0 {
        lemma_remembered_keys(windows, n - 1);
        match windows[n - 1].active() {
            Some(p) => {
                lemma_put_keys(
                    remembered(windows, n - 1),
                    windows[n - 1].process_group.title@,
                    p@.label(),
                );
            },
            None => {},
        }
    }
}

/// A state that is made from the groups of some windows has those windows
/// as a fresh start has them.
pub proof fn lemma_fresh_start(windows: Seq<UiWindow>, procfile: Seq<crate::procfile::ProcessGroup>)
    requires
        procfile.len() == windows.len(),
        forall|i: int| 0 <= i < windows.len() ==> procfile[i] == (#[trigger] windows[i]).process_group,
    ensures
        crate::ui::fresh_windows(procfile) == restarted(windows),
{
    assert(crate::ui::fresh_windows(procfile) =~= restarted(windows));
}

/// Whether `loaded` is what a session comes back as: every window shows
/// the group that it showed, with a member selected that has the label of
/// the one that was selected, at index 0 where that was the placeholder,
/// and with no pane yet.
pub open spec fn brought_back(loaded: Seq<UiWindow>, windows: Seq<UiWindow>) -> bool {
    &&& loaded.len() == windows.len()
    &&& forall|i: int|
        #![trigger windows[i]]
        0 <= i < windows.len() ==> {
            &&& loaded[i].process_group == windows[i].process_group
            &&& loaded[i].active_label() == windows[i].active_label()
            &&& loaded[i].pty_terminal is None
            &&& loaded[i].wf()
            &&& windows[i].active() is None ==> loaded[i].active_process_index == 0
        }
}

/// A record that is brought back at a fresh start of the same groups
/// restores the focus and, for every group, the label of the selected
/// member. This holds of every well-formed state, and for the pairs of its
/// record in any order.
pub proof fn lemma_save_then_load(state: UiState, pairs: Seq<(Seq<char>, Seq<char>)>)
    requires
        state.wf(),
        keys(pairs).no_duplicates(),
        forall|pair: (Seq<char>, Seq<char>)|
            pairs.contains(pair) <==> remembered(
                state.windows@,
                state.windows@.len() as int,
            ).contains(pair),
    ensures
        state.saved() matches Some(record) ==> position(
            titles(restarted(state.windows@)),
            record.focused_group,
        ) == state.focused_window_index,
        brought_back(
            reloaded(restarted(state.windows@), pairs, pairs.len() as int),
            state.windows@,
        ),
{
    let windows = state.windows@;
    let fresh = restarted(windows);
    let n = windows.len() as int;
    let record = remembered(windows, n);
    let loaded = reloaded(fresh, pairs, pairs.len() as int);
    assert(titles(fresh) =~= titles(windows));
    let focus = state.focused_window_index as int;
    if n > 0 {
        assert(titles(windows)[focus] == windows[focus].process_group.title@);
        assert forall|j: int| 0 <= j < focus implies titles(fresh)[j] != titles(fresh)[focus] by {}
        lemma_position_unique(titles(fresh), windows[focus].process_group.title@, focus);
    }
    lemma_remembered(windows, n);
    lemma_reloaded(fresh, pairs, pairs.len() as int);
    assert forall|i: int|
        #![trigger windows[i]]
        0 <= i < windows.len() implies {
        &&& loaded[i].process_group == windows[i].process_group
        &&& loaded[i].active_label() == windows[i].active_label()
        &&& loaded[i].pty_terminal is None
        &&& loaded[i].wf()
        &&& windows[i].active() is None ==> loaded[i].active_process_index == 0
    } by {
        let window = windows[i];
        let title = window.process_group.title@;
        let members = window.process_group.members@;
        assert(window.wf());
        assert(fresh[i].process_group == window.process_group);
        assert(titles(windows)[i] == title);
        if window.active() is Some {
            let label = window.active()->0@.label();
            assert(label == window.active_label());
            assert(remembers(windows, i, (title, label)));
            assert(record.contains((title, label)));
            assert(pairs.contains((title, label)));
            let j = choose|j: int| 0 <= j < pairs.len() && pairs[j] == (title, label);
            assert(fresh[i].process_group.title@ == pairs[j].0);
            assert(loaded[i] == chosen(fresh[i], pairs[j].1));
            let m = position(labels(members), label);
            lemma_position(labels(members), label);
            assert(labels(members)[window.active_process_index as int] == label);
            assert(labels(members).contains(label));
            assert(labels(members)[m] == members[m]@.label());
        } else {
            assert forall|j: int| 0 <= j < pairs.len() implies (#[trigger] pairs[j]).0
                != fresh[i].process_group.title@ by {
                if pairs[j].0 == title {
                    assert(pairs.contains(pairs[j]));
                    assert(record.contains(pairs[j]));
                    let r = choose|r: int| 0 <= r < record.len() && record[r] == pairs[j];
                    assert(remembered_of(windows, n, record[r]));
                    let other = choose|other: int|
                        0 <= other < n && #[trigger] remembers(windows, other, record[r]);
                    assert(titles(windows)[other] == windows[other].process_group.title@);
                    assert(other == i);
                }
            }
            assert(loaded[i] == fresh[i]);
            assert(members[0]@ == window.process_group@.members[0]);
            assert(members[window.active_process_index as int] is Null);
        }
    }
}

/// What `save_state` records of a well-formed state, `load_state` brings
/// back at a fresh start of the same groups: the focus, and for every
/// group the label of the selected member.
pub proof fn lemma_record_round_trip(state: UiState)
    requires
        state.wf(),
    ensures
        state.saved() matches Some(record) ==> {
            &&& position(titles(restarted(state.windows@)), record.focused_group)
                == state.focused_window_index
            &&& brought_back(
                reloaded(
                    restarted(state.windows@),
                    record.active_processes,
                    record.active_processes.len() as int,
                ),
                state.windows@,
            )
        },
{
    lemma_remembered_keys(state.windows@, state.windows@.len() as int);
    lemma_save_then_load(state, remembered(state.windows@, state.windows@.len() as int));
}

} // verus!
