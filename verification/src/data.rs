//! The practice data: a `Task` is one target string to be typed character by
//! character, together with optional contextual metadata shown alongside it.

use vstd::prelude::*;
use vstd::string::*;
use crate::casing::{lower_char, lower_of};
use crate::load::{parse_hints, parse_hints_spec, parse_tasks, parse_tasks_spec, LoadError};

verus! {

/// The built-in dataset a session practices on, chosen once at startup.
#[derive(Clone, Copy, Debug, PartialEq, Eq, Structural)]
pub enum BuiltinMode {
    Russian,
    Greek,
}

/// Mathematical model of a [`Task`]: the remaining characters to type and the
/// optional metadata.
#[verifier::ext_equal]
pub struct TaskView {
    pub text: Seq<char>,
    pub metadata: Option<Seq<char>>,
}

/// One unit of practice: a target string typed character by character, plus
/// optional contextual metadata. The text only ever shrinks by removal of its
/// first character.
#[derive(Debug)]
pub struct Task {
    task: String,
    metadata: Option<String>,
}

impl View for Task {
    type V = TaskView;

    closed spec fn view(&self) -> TaskView {
        TaskView {
            text: self.task@,
            metadata: match self.metadata {
                Some(m) => Some(m@),
                None => None,
            },
        }
    }
}

impl Task {
    /// Builds a task from its target text and optional metadata.
    pub fn new(task: String, metadata: Option<String>) -> (t: Task)
        ensures
            t@.text == task@,
            (match metadata {
                Some(s) => t@.metadata == Some(s@),
                None => t@.metadata is None,
            }),
    {
        Task { task, metadata }
    }

    /// The remaining target text of the task.
    pub fn get_task(&self) -> (r: &str)
        ensures
            r@ == self@.text,
    {
        self.task.as_str()
    }

    /// Removes the first character of the task's text; on an already-empty
    /// task the text stays empty. This is the sole way the text shrinks.
    pub fn cut_first_in_task(&mut self)
        ensures
            old(self)@.text.len() == 0 ==> final(self)@.text == old(self)@.text,
            old(self)@.text.len() > 0 ==> final(self)@.text == old(self)@.text.drop_first(),
            final(self)@.metadata == old(self)@.metadata,
    {
        let len = self.task.as_str().unicode_len();
        if len > 0 {
            let rest = self.task.as_str().substring_char(1, len);
            let rest_owned = rest.to_owned();
            proof {
                assert(rest_owned@ =~= old(self)@.text.drop_first());
            }
            self.task = rest_owned;
        }
    }

    /// The task's metadata, if any.
    pub fn get_mdata(&self) -> (r: Option<&str>)
        ensures
            (match self@.metadata {
                Some(s) => r matches Some(m) && m@ == s,
                None => r is None,
            }),
    {
        match &self.metadata {
            Some(m) => Some(m.as_str()),
            None => None,
        }
    }
}

impl Clone for Task {
    /// Cloning keeps both the text and the metadata.
    fn clone(&self) -> (r: Self)
        ensures
            r@ == self@,
    {
        Task {
            task: self.task.clone(),
            metadata: match &self.metadata {
                Some(m) => Some(m.clone()),
                None => None,
            },
        }
    }
}

/// Whether no two entries of the list share a key.
pub open spec fn unique_keys(s: Seq<(char, String)>) -> bool {
    forall|i: int, j: int| 0 <= i < j < s.len() ==> s[i].0 != s[j].0
}

/// The mapping a key/hint entry list stands for; a later entry would win,
/// though a well-formed map never holds two entries for one key.
pub open spec fn entries_map(s: Seq<(char, String)>) -> Map<char, Seq<char>>
    decreases s.len(),
{
    if s.len() == 0 {
        Map::empty()
    } else {
        entries_map(s.drop_last()).insert(s.last().0, s.last().1@)
    }
}

/// A key is in the mapping exactly when some entry carries it.
proof fn lemma_entries_map_key(s: Seq<(char, String)>, k: char)
    ensures
        entries_map(s).contains_key(k) <==> exists|i: int| 0 <= i < s.len() && s[i].0 == k,
    decreases s.len(),
{
    if s.len() > 0 {
        lemma_entries_map_key(s.drop_last(), k);
        if s.last().0 == k {
            assert(s[s.len() - 1].0 == k);
        } else if entries_map(s).contains_key(k) {
            let i = choose|i: int| 0 <= i < s.drop_last().len() && s.drop_last()[i].0 == k;
            assert(s[i].0 == k);
        } else if exists|i: int| 0 <= i < s.len() && s[i].0 == k {
            let i = choose|i: int| 0 <= i < s.len() && s[i].0 == k;
            assert(i < s.len() - 1);
            assert(s.drop_last()[i].0 == k);
        }
    }
}

/// With unique keys, the mapping sends each entry's key to that entry's
/// hint.
proof fn lemma_entries_map_at(s: Seq<(char, String)>, i: int)
    requires
        unique_keys(s),
        0 <= i < s.len(),
    ensures
        entries_map(s).contains_key(s[i].0),
        entries_map(s)[s[i].0] == s[i].1@,
    decreases s.len(),
{
    if i == s.len() - 1 {
    } else {
        assert(unique_keys(s.drop_last())) by {
            assert(forall|x: int, y: int|
                0 <= x < y < s.drop_last().len() ==> s.drop_last()[x] == s[x] && s.drop_last()[y]
                    == s[y]);
        }
        assert(s.drop_last()[i] == s[i]);
        lemma_entries_map_at(s.drop_last(), i);
        assert(s.last().0 != s[i].0);
    }
}

/// The hint table: a mapping from a single character to the hint shown for
/// it, built once at startup and read-only afterwards.
#[derive(Debug)]
pub struct HintMap {
    entries: Vec<(char, String)>,
}

impl View for HintMap {
    type V = Map<char, Seq<char>>;

    closed spec fn view(&self) -> Map<char, Seq<char>> {
        entries_map(self.entries@)
    }
}

impl HintMap {
    #[verifier::type_invariant]
    spec fn wf(&self) -> bool {
        unique_keys(self.entries@)
    }

    /// An empty hint table.
    pub fn new() -> (m: HintMap)
        ensures
            m@ == Map::<char, Seq<char>>::empty(),
    {
        HintMap { entries: Vec::new() }
    }

    /// Whether a hint is stored under exactly this key (no normalization).
    pub fn contains_key(&self, k: char) -> (r: bool)
        ensures
            r == self@.contains_key(k),
    {
        let mut i: usize = 0;
        while i < self.entries.len()
            invariant
                i <= self.entries@.len(),
                forall|j: int| 0 <= j < i ==> self.entries@[j].0 != k,
            decreases self.entries@.len() - i,
        {
            if self.entries[i].0 == k {
                proof {
                    lemma_entries_map_key(self.entries@, k);
                    assert(0 <= i < self.entries@.len() && self.entries@[i as int].0 == k);
                }
                return true;
            }
            i = i + 1;
        }
        proof {
            lemma_entries_map_key(self.entries@, k);
        }
        false
    }

    /// Stores a hint under a key not yet present.
    pub fn insert(self, k: char, hint: String) -> (r: HintMap)
        requires
            !self@.contains_key(k),
        ensures
            r@ == self@.insert(k, hint@),
    {
        proof {
            use_type_invariant(&self);
            lemma_entries_map_key(self.entries@, k);
        }
        let HintMap { mut entries } = self;
        let ghost before = entries@;
        entries.push((k, hint));
        proof {
            assert(entries@.drop_last() =~= before);
            assert(unique_keys(entries@)) by {
                assert(forall|x: int| 0 <= x < before.len() ==> entries@[x] == before[x]);
            }
        }
        HintMap { entries }
    }
}

/// The line shown when no hint is stored for the expected character.
pub open spec fn no_hint_sentinel() -> Seq<char> {
    "No hint for this :("@
}

/// Looks the character up in the hint table after lowercasing it, and
/// returns the stored hint, or the fixed no-hint line when none is stored;
/// a missing key is an expected outcome, never a failure.
pub fn lookup_hint(hint_map: &HintMap, target_char: char) -> (r: String)
    ensures
        hint_map@.contains_key(lower_of(target_char)) ==> r@ == hint_map@[lower_of(target_char)],
        !hint_map@.contains_key(lower_of(target_char)) ==> r@ == no_hint_sentinel(),
{
    proof {
        use_type_invariant(hint_map);
    }
    let k = lower_char(target_char);
    let mut i: usize = 0;
    while i < hint_map.entries.len()
        invariant
            i <= hint_map.entries@.len(),
            k == lower_of(target_char),
            unique_keys(hint_map.entries@),
            forall|j: int| 0 <= j < i ==> hint_map.entries@[j].0 != k,
        decreases hint_map.entries@.len() - i,
    {
        if hint_map.entries[i].0 == k {
            proof {
                lemma_entries_map_at(hint_map.entries@, i as int);
            }
            return hint_map.entries[i].1.clone();
        }
        i = i + 1;
    }
    proof {
        lemma_entries_map_key(hint_map.entries@, k);
    }
    String::from_str("No hint for this :(")
}

/// The task dataset text shipped for each mode: one record per line, the
/// task's text and its transliteration as metadata, separated by `~`.
pub open spec fn tasks_source(mode: BuiltinMode) -> Seq<char> {
    match mode {
        BuiltinMode::Russian => (
        "\u{43f}\u{440}\u{438}\u{432}\u{435}\u{442}~privet (hello)\n\u{441}\u{43f}\u{430}\u{441}\u{438}\u{431}\u{43e}~spasibo (thank you)\n\u{434}\u{430}~da (yes)\n\u{43d}\u{435}\u{442}~net (no)\n\u{441}\u{43b}\u{43e}\u{432}\u{43e}~slovo (word)\n\u{43c}\u{438}\u{440}~mir (world)\n\u{43a}\u{43d}\u{438}\u{433}\u{430}~kniga (book)\n\u{434}\u{43e}\u{43c}~dom (house)"
        )@,
        BuiltinMode::Greek => (
        "\u{3ba}\u{3b1}\u{3bb}\u{3b7}\u{3bc}\u{3b5}\u{3c1}\u{3b1}~kalimera (good morning)\n\u{3b5}\u{3c5}\u{3c7}\u{3b1}\u{3c1}\u{3b9}\u{3c3}\u{3c4}\u{3c9}~efcharisto (thank you)\n\u{3bd}\u{3b1}\u{3b9}~nai (yes)\n\u{3bf}\u{3c7}\u{3b9}~ochi (no)\n\u{3bd}\u{3b5}\u{3c1}\u{3bf}~nero (water)\n\u{3c6}\u{3b9}\u{3bb}\u{3bf}\u{3c2}~filos (friend)"
        )@,
    }
}

/// The hint dataset text shipped for each mode: one record per line, a
/// single lowercase character and the hint shown for it, separated by `~`.
pub open spec fn hints_source(mode: BuiltinMode) -> Seq<char> {
    match mode {
        BuiltinMode::Russian => (
        "\u{43f}~p as in 'spin'\n\u{440}~rolled r\n\u{438}~i as in 'machine'\n\u{432}~v as in 'vine'\n\u{435}~ye as in 'yes'\n\u{442}~t as in 'stop'\n\u{441}~s as in 'sun'\n\u{430}~a as in 'father'\n\u{431}~b as in 'bat'\n\u{43e}~o as in 'more'\n\u{434}~d as in 'dog'\n\u{43d}~n as in 'net'\n\u{43b}~l as in 'lamp'\n\u{43c}~m as in 'map'\n\u{43a}~k as in 'skin'\n\u{433}~g as in 'go'"
        )@,
        BuiltinMode::Greek => (
        "\u{3ba}~k as in 'kite'\n\u{3b1}~a as in 'father'\n\u{3bb}~l as in 'lamp'\n\u{3b7}~i as in 'machine'\n\u{3bc}~m as in 'map'\n\u{3b5}~e as in 'met'\n\u{3c1}~rolled r\n\u{3c5}~i or f before a consonant\n\u{3c7}~ch as in 'loch'\n\u{3b9}~i as in 'machine'\n\u{3c3}~s as in 'sun'\n\u{3c4}~t as in 'stop'\n\u{3bd}~n as in 'net'\n\u{3bf}~o as in 'more'\n\u{3c6}~f as in 'fun'\n\u{3c2}~final s, as in 'sun'"
        )@,
    }
}

/// Mathematical model of a [`ProgramData`]: the hint mapping and the task
/// list.
#[verifier::ext_equal]
pub struct ProgramDataView {
    pub hints: Map<char, Seq<char>>,
    pub content: Seq<TaskView>,
}

/// Everything a session practices on: the ordered task list and the hint
/// table, loaded and validated once at startup, immutable thereafter.
pub struct ProgramData {
    hints: HintMap,
    content: Vec<Task>,
}

impl View for ProgramData {
    type V = ProgramDataView;

    closed spec fn view(&self) -> ProgramDataView {
        ProgramDataView {
            hints: self.hints@,
            content: self.content@.map_values(|t: Task| t@),
        }
    }
}

impl ProgramData {
    /// Loads and validates the built-in datasets of the chosen mode,
    /// failing fast with the offending line when either dataset is
    /// malformed or empty.
    pub fn new(mode: BuiltinMode) -> (r: Result<ProgramData, LoadError>)
        ensures
            (match r {
                Ok(pd) => parse_tasks_spec(tasks_source(mode)) == Ok::<
                    Seq<TaskView>,
                    crate::load::LoadErrorView,
                >(pd@.content) && parse_hints_spec(hints_source(mode)) == Ok::<
                    Map<char, Seq<char>>,
                    crate::load::LoadErrorView,
                >(pd@.hints),
                Err(e) => parse_tasks_spec(tasks_source(mode)) == Err::<
                    Seq<TaskView>,
                    crate::load::LoadErrorView,
                >(e@) || (parse_tasks_spec(tasks_source(mode)) is Ok && parse_hints_spec(
                    hints_source(mode),
                ) == Err::<Map<char, Seq<char>>, crate::load::LoadErrorView>(e@)),
            }),
    {
        let tasks_text: &str = match mode {
            BuiltinMode::Russian => "\u{43f}\u{440}\u{438}\u{432}\u{435}\u{442}~privet (hello)\n\u{441}\u{43f}\u{430}\u{441}\u{438}\u{431}\u{43e}~spasibo (thank you)\n\u{434}\u{430}~da (yes)\n\u{43d}\u{435}\u{442}~net (no)\n\u{441}\u{43b}\u{43e}\u{432}\u{43e}~slovo (word)\n\u{43c}\u{438}\u{440}~mir (world)\n\u{43a}\u{43d}\u{438}\u{433}\u{430}~kniga (book)\n\u{434}\u{43e}\u{43c}~dom (house)",
            BuiltinMode::Greek => "\u{3ba}\u{3b1}\u{3bb}\u{3b7}\u{3bc}\u{3b5}\u{3c1}\u{3b1}~kalimera (good morning)\n\u{3b5}\u{3c5}\u{3c7}\u{3b1}\u{3c1}\u{3b9}\u{3c3}\u{3c4}\u{3c9}~efcharisto (thank you)\n\u{3bd}\u{3b1}\u{3b9}~nai (yes)\n\u{3bf}\u{3c7}\u{3b9}~ochi (no)\n\u{3bd}\u{3b5}\u{3c1}\u{3bf}~nero (water)\n\u{3c6}\u{3b9}\u{3bb}\u{3bf}\u{3c2}~filos (friend)",
        };
        let hints_text: &str = match mode {
            BuiltinMode::Russian => "\u{43f}~p as in 'spin'\n\u{440}~rolled r\n\u{438}~i as in 'machine'\n\u{432}~v as in 'vine'\n\u{435}~ye as in 'yes'\n\u{442}~t as in 'stop'\n\u{441}~s as in 'sun'\n\u{430}~a as in 'father'\n\u{431}~b as in 'bat'\n\u{43e}~o as in 'more'\n\u{434}~d as in 'dog'\n\u{43d}~n as in 'net'\n\u{43b}~l as in 'lamp'\n\u{43c}~m as in 'map'\n\u{43a}~k as in 'skin'\n\u{433}~g as in 'go'",
            BuiltinMode::Greek => "\u{3ba}~k as in 'kite'\n\u{3b1}~a as in 'father'\n\u{3bb}~l as in 'lamp'\n\u{3b7}~i as in 'machine'\n\u{3bc}~m as in 'map'\n\u{3b5}~e as in 'met'\n\u{3c1}~rolled r\n\u{3c5}~i or f before a consonant\n\u{3c7}~ch as in 'loch'\n\u{3b9}~i as in 'machine'\n\u{3c3}~s as in 'sun'\n\u{3c4}~t as in 'stop'\n\u{3bd}~n as in 'net'\n\u{3bf}~o as in 'more'\n\u{3c6}~f as in 'fun'\n\u{3c2}~final s, as in 'sun'",
        };
        let content = match parse_tasks(tasks_text) {
            Ok(c) => c,
            Err(e) => {
                return Err(e);
            },
        };
        let hints = match parse_hints(hints_text) {
            Ok(h) => h,
            Err(e) => {
                return Err(e);
            },
        };
        Ok(ProgramData { hints, content })
    }

    /// The hint table.
    pub fn get_hints(&self) -> (r: &HintMap)
        ensures
            r@ == self@.hints,
    {
        &self.hints
    }

    /// The ordered task list.
    pub fn get_content(&self) -> (r: &Vec<Task>)
        ensures
            r@.map_values(|t: Task| t@) == self@.content,
    {
        &self.content
    }
}

impl Default for Task {
    /// The empty placeholder task held before the first draw: no text, no
    /// metadata, so no task is in progress.
    fn default() -> (t: Task)
        ensures
            t@.text.len() == 0,
            t@.metadata is None,
    {
        Task { task: String::new(), metadata: None }
    }
}

} // verus!
