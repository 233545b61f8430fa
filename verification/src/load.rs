//! The dataset loader: both datasets arrive as delimited text — one record
//! per line, fields separated by `~` — and are validated fail-fast, so a
//! malformed or empty dataset aborts startup with the offending line.

use vstd::prelude::*;
use vstd::string::*;
use crate::data::{HintMap, Task, TaskView};

verus! {

/// What can be wrong with a dataset.
#[derive(Clone, Copy, Debug, PartialEq, Eq, Structural)]
pub enum LoadErrorKind {
    /// A dataset holds no record at all.
    EmptyDataset,
    /// A record has the wrong number of fields.
    MalformedRow,
    /// A task record's text field is empty.
    EmptyTaskText,
    /// A hint record's key field is not exactly one character.
    BadHintKey,
    /// Two hint records carry the same key.
    DuplicateHintKey,
    /// A hint record's hint field is empty.
    EmptyHintValue,
}

/// Mathematical model of a [`LoadError`].
pub struct LoadErrorView {
    pub kind: LoadErrorKind,
    pub line: nat,
}

/// A startup dataset failure: what was wrong and on which one-based line
/// (line zero for an empty dataset).
#[derive(Clone, Copy, Debug, PartialEq, Eq, Structural)]
pub struct LoadError {
    pub kind: LoadErrorKind,
    pub line: usize,
}

impl View for LoadError {
    type V = LoadErrorView;

    open spec fn view(&self) -> LoadErrorView {
        LoadErrorView { kind: self.kind, line: self.line as nat }
    }
}

/// The position of the first occurrence of `c` in `s`, or `s.len()` when
/// `s` does not contain `c`.
pub open spec fn first_index_of(s: Seq<char>, c: char) -> nat
    decreases s.len(),
{
    if s.len() == 0 {
        0
    } else if s[0] == c {
        0
    } else {
        1 + first_index_of(s.drop_first(), c)
    }
}

/// Whether `s` is free of the separator `c`.
pub open spec fn sep_free(s: Seq<char>, c: char) -> bool {
    forall|j: int| 0 <= j < s.len() ==> s[j] != c
}

/// What [`first_index_of`] finds: a position no later than the end, holding
/// the separator when within the text, with none of it before, and at the
/// end exactly when the text is free of it.
pub proof fn lemma_first_index_of(s: Seq<char>, c: char)
    ensures
        first_index_of(s, c) <= s.len(),
        first_index_of(s, c) < s.len() ==> s[first_index_of(s, c) as int] == c,
        forall|j: int| 0 <= j < first_index_of(s, c) ==> s[j] != c,
        first_index_of(s, c) == s.len() <==> sep_free(s, c),
    decreases s.len(),
{
    if s.len() == 0 {
    } else if s[0] == c {
    } else {
        lemma_first_index_of(s.drop_first(), c);
        let fi = first_index_of(s, c) as int;
        let fi2 = first_index_of(s.drop_first(), c) as int;
        assert(fi == 1 + fi2);
        assert forall|j: int| 0 <= j < fi implies s[j] != c by {
            if j > 0 {
                assert(s.drop_first()[j - 1] == s[j]);
                assert(s.drop_first()[j - 1] != c);
            }
        }
        if fi2 == s.drop_first().len() {
            assert forall|j: int| 0 <= j < s.len() implies s[j] != c by {
                if j > 0 {
                    assert(s.drop_first()[j - 1] == s[j]);
                    assert(s.drop_first()[j - 1] != c);
                }
            }
            assert(sep_free(s, c));
        } else {
            assert(s.drop_first()[fi2] == c);
            assert(s[fi] == c);
            assert(!sep_free(s, c));
        }
    }
}

/// The position the first occurrence must take: where the separator stands
/// with none of it before.
pub proof fn lemma_first_index_is(s: Seq<char>, c: char, i: int)
    requires
        0 <= i < s.len(),
        s[i] == c,
        forall|j: int| 0 <= j < i ==> s[j] != c,
    ensures
        first_index_of(s, c) == i,
{
    lemma_first_index_of(s, c);
    let fi = first_index_of(s, c) as int;
    if fi < i {
        assert(s[fi] != c);
        assert(false);
    } else if fi > i {
        assert(fi < s.len() ==> s[fi] == c);
        assert(fi <= s.len());
        if fi == s.len() {
            assert(sep_free(s, c));
            assert(false);
        } else {
            assert(s[fi] != c);
            assert(false);
        }
    }
}

/// The fields of `s` split on the separator: the (possibly empty) stretches
/// between its occurrences, in order. A text without the separator is one
/// field; each occurrence ends a field.
pub open spec fn split_on(s: Seq<char>, sep: char) -> Seq<Seq<char>>
    decreases s.len(),
{
    let i = first_index_of(s, sep);
    if i >= s.len() {
        seq![s]
    } else {
        seq![s.take(i as int)] + split_on(s.skip(i as int + 1), sep)
    }
}

/// A separator-free text splits into itself alone.
pub proof fn lemma_split_on_whole(s: Seq<char>, sep: char)
    requires
        sep_free(s, sep),
    ensures
        split_on(s, sep) == seq![s],
{
    lemma_first_index_of(s, sep);
}

/// Splitting past the first separator: the separator-free stretch before it
/// is the first field, and the rest splits on its own.
pub proof fn lemma_split_on_step(a: Seq<char>, b: Seq<char>, sep: char)
    requires
        sep_free(a, sep),
    ensures
        split_on(a + seq![sep] + b, sep) == seq![a] + split_on(b, sep),
{
    let s = a + seq![sep] + b;
    assert(s[a.len() as int] == sep);
    assert(forall|j: int| 0 <= j < a.len() ==> s[j] == a[j]);
    lemma_first_index_is(s, sep, a.len() as int);
    assert(s.take(a.len() as int) =~= a);
    assert(s.skip(a.len() as int + 1) =~= b);
    assert(split_on(s, sep) == seq![a] + split_on(b, sep));
}

/// Splits a text into its fields on the separator, exactly as
/// [`split_on`] lays them out.
pub fn split_str(s: &str, sep: char) -> (parts: Vec<String>)
    ensures
        parts@.map_values(|p: String| p@) == split_on(s@, sep),
{
    let len = s.unicode_len();
    let mut parts: Vec<String> = Vec::new();
    let mut start: usize = 0;
    let mut i: usize = 0;
    proof {
        assert(parts@.map_values(|p: String| p@) =~= Seq::<Seq<char>>::empty());
        assert(s@.skip(0) =~= s@);
        assert(Seq::<Seq<char>>::empty() + split_on(s@, sep) =~= split_on(s@, sep));
    }
    while i < len
        invariant
            start <= i <= len,
            len == s@.len(),
            forall|j: int| start <= j < i ==> s@[j] != sep,
            split_on(s@, sep) == parts@.map_values(|p: String| p@) + split_on(
                s@.skip(start as int),
                sep,
            ),
        decreases len - i,
    {
        if s.get_char(i) == sep {
            let field = s.substring_char(start, i).to_owned();
            proof {
                let a = s@.subrange(start as int, i as int);
                let b = s@.skip(i as int + 1);
                assert(s@.skip(start as int) =~= a + seq![sep] + b);
                lemma_split_on_step(a, b, sep);
                assert((parts@.push(field).map_values(|p: String| p@)) =~= parts@.map_values(
                    |p: String| p@,
                ) + seq![a]);
                assert(parts@.map_values(|p: String| p@) + (seq![a] + split_on(b, sep)) =~= (parts@
                    .map_values(|p: String| p@) + seq![a]) + split_on(b, sep));
            }
            parts.push(field);
            start = i + 1;
        }
        i = i + 1;
    }
    let field = s.substring_char(start, len).to_owned();
    proof {
        let a = s@.subrange(start as int, len as int);
        assert(s@.skip(start as int) =~= a);
        lemma_split_on_whole(a, sep);
        assert((parts@.push(field).map_values(|p: String| p@)) =~= parts@.map_values(
            |p: String| p@,
        ) + seq![a]);
    }
    parts.push(field);
    parts
}

/// What a task record's fields mean: one or two fields, the first the
/// task's text, which must not be empty, the second — if present and
/// non-empty — its metadata.
pub open spec fn task_of_fields(fields: Seq<Seq<char>>) -> Result<TaskView, LoadErrorKind> {
    if fields.len() == 0 || fields.len() > 2 {
        Err(LoadErrorKind::MalformedRow)
    } else if fields[0].len() == 0 {
        Err(LoadErrorKind::EmptyTaskText)
    } else {
        Ok(
            TaskView {
                text: fields[0],
                metadata: if fields.len() == 2 && fields[1].len() > 0 {
                    Some(fields[1])
                } else {
                    None
                },
            },
        )
    }
}

/// What a hint record's fields mean: exactly two fields, the first a
/// single character — the key — and the second the non-empty hint.
pub open spec fn hint_of_fields(fields: Seq<Seq<char>>) -> Result<(char, Seq<char>), LoadErrorKind> {
    if fields.len() != 2 {
        Err(LoadErrorKind::MalformedRow)
    } else if fields[0].len() != 1 {
        Err(LoadErrorKind::BadHintKey)
    } else if fields[1].len() == 0 {
        Err(LoadErrorKind::EmptyHintValue)
    } else {
        Ok((fields[0][0], fields[1]))
    }
}

/// The tasks the rows of a dataset describe, blank rows skipped, or the
/// first failure with its one-based line.
pub open spec fn parse_task_rows(rows: Seq<Seq<char>>, lineno: nat) -> Result<
    Seq<TaskView>,
    LoadErrorView,
>
    decreases rows.len(),
{
    if rows.len() == 0 {
        Ok(Seq::empty())
    } else if rows[0].len() == 0 {
        parse_task_rows(rows.drop_first(), lineno + 1)
    } else {
        match task_of_fields(split_on(rows[0], '~')) {
            Err(kind) => Err(LoadErrorView { kind, line: lineno }),
            Ok(t) => match parse_task_rows(rows.drop_first(), lineno + 1) {
                Err(e) => Err(e),
                Ok(ts) => Ok(seq![t] + ts),
            },
        }
    }
}

/// The task dataset a text describes: its lines parsed as task records,
/// with an empty dataset rejected.
pub open spec fn parse_tasks_spec(s: Seq<char>) -> Result<Seq<TaskView>, LoadErrorView> {
    match parse_task_rows(split_on(s, '\n'), 1) {
        Ok(ts) => if ts.len() == 0 {
            Err(LoadErrorView { kind: LoadErrorKind::EmptyDataset, line: 0 })
        } else {
            Ok(ts)
        },
        Err(e) => Err(e),
    }
}

/// The mapping the rows of a hint dataset build up over `acc`, blank rows
/// skipped and a repeated key rejected, or the first failure with its
/// one-based line.
pub open spec fn parse_hint_rows(
    rows: Seq<Seq<char>>,
    lineno: nat,
    acc: Map<char, Seq<char>>,
) -> Result<Map<char, Seq<char>>, LoadErrorView>
    decreases rows.len(),
{
    if rows.len() == 0 {
        Ok(acc)
    } else if rows[0].len() == 0 {
        parse_hint_rows(rows.drop_first(), lineno + 1, acc)
    } else {
        match hint_of_fields(split_on(rows[0], '~')) {
            Err(kind) => Err(LoadErrorView { kind, line: lineno }),
            Ok(kv) => if acc.contains_key(kv.0) {
                Err(LoadErrorView { kind: LoadErrorKind::DuplicateHintKey, line: lineno })
            } else {
                parse_hint_rows(rows.drop_first(), lineno + 1, acc.insert(kv.0, kv.1))
            },
        }
    }
}

/// Whether every row is blank.
pub open spec fn all_blank(rows: Seq<Seq<char>>) -> bool {
    forall|i: int| 0 <= i < rows.len() ==> rows[i].len() == 0
}

/// The hint table a text describes: its lines parsed as hint records, with
/// an empty dataset rejected.
pub open spec fn parse_hints_spec(s: Seq<char>) -> Result<Map<char, Seq<char>>, LoadErrorView> {
    let rows = split_on(s, '\n');
    if all_blank(rows) {
        Err(LoadErrorView { kind: LoadErrorKind::EmptyDataset, line: 0 })
    } else {
        parse_hint_rows(rows, 1, Map::empty())
    }
}

/// Parses one non-blank line as a task record.
fn parse_task_line(line: &str) -> (r: Result<Task, LoadErrorKind>)
    ensures
        (match r {
            Ok(t) => task_of_fields(split_on(line@, '~')) == Ok::<TaskView, LoadErrorKind>(t@),
            Err(k) => task_of_fields(split_on(line@, '~')) == Err::<TaskView, LoadErrorKind>(k),
        }),
{
    let ghost f = split_on(line@, '~');
    let mut fields = split_str(line, '~');
    if fields.len() == 0 || fields.len() > 2 {
        return Err(LoadErrorKind::MalformedRow);
    }
    let text = fields.remove(0);
    proof {
        assert(text@ == f[0]);
    }
    if text.as_str().is_empty() {
        return Err(LoadErrorKind::EmptyTaskText);
    }
    let metadata: Option<String> = if fields.len() > 0 {
        let m = fields.remove(0);
        proof {
            assert(m@ == f[1]);
        }
        if m.as_str().is_empty() {
            None
        } else {
            Some(m)
        }
    } else {
        None
    };
    let t = Task::new(text, metadata);
    proof {
        assert(t@ =~= task_of_fields(f)->Ok_0);
    }
    Ok(t)
}

/// Parses one non-blank line as a hint record.
fn parse_hint_line(line: &str) -> (r: Result<(char, String), LoadErrorKind>)
    ensures
        (match r {
            Ok(kv) => hint_of_fields(split_on(line@, '~')) == Ok::<(char, Seq<char>), LoadErrorKind>((kv.0, kv.1@)),
            Err(k) => hint_of_fields(split_on(line@, '~')) == Err::<(char, Seq<char>), LoadErrorKind>(k),
        }),
{
    let ghost f = split_on(line@, '~');
    let mut fields = split_str(line, '~');
    if fields.len() != 2 {
        return Err(LoadErrorKind::MalformedRow);
    }
    let value = fields.remove(1);
    let key_field = fields.remove(0);
    proof {
        assert(key_field@ == f[0]);
        assert(value@ == f[1]);
    }
    if key_field.as_str().unicode_len() != 1 {
        return Err(LoadErrorKind::BadHintKey);
    }
    if value.as_str().is_empty() {
        return Err(LoadErrorKind::EmptyHintValue);
    }
    let k = key_field.as_str().get_char(0);
    Ok((k, value))
}

/// Parses a whole task dataset: one record per line, fields separated by
/// `~`, blank lines skipped; fails fast on the first malformed record, and
/// on a dataset without records.
pub fn parse_tasks(src: &str) -> (r: Result<Vec<Task>, LoadError>)
    ensures
        (match r {
            Ok(ts) => parse_tasks_spec(src@) == Ok::<Seq<TaskView>, LoadErrorView>(ts@.map_values(|t: Task| t@)),
            Err(e) => parse_tasks_spec(src@) == Err::<Seq<TaskView>, LoadErrorView>(e@),
        }),
{
    let ghost rows = split_on(src@, '\n');
    let lines = split_str(src, '\n');
    let mut tasks: Vec<Task> = Vec::new();
    let mut i: usize = 0;
    proof {
        assert(rows.skip(0) =~= rows);
        assert(tasks@.map_values(|t: Task| t@) =~= Seq::<TaskView>::empty());
        if parse_task_rows(rows, 1) is Ok {
            let ts0 = parse_task_rows(rows, 1)->Ok_0;
            assert(Seq::<TaskView>::empty() + ts0 =~= ts0);
        }
    }
    while i < lines.len()
        invariant
            i <= lines@.len(),
            rows == split_on(src@, '\n'),
            lines@.map_values(|p: String| p@) == rows,
            (match parse_task_rows(rows.skip(i as int), (i + 1) as nat) {
                Ok(ts) => parse_task_rows(rows, 1) == Ok::<Seq<TaskView>, LoadErrorView>(tasks@.map_values(|t: Task| t@) + ts),
                Err(e) => parse_task_rows(rows, 1) == Err::<Seq<TaskView>, LoadErrorView>(e),
            }),
        decreases lines@.len() - i,
    {
        proof {
            assert(lines@[i as int]@ == rows[i as int]);
            assert(rows.skip(i as int)[0] == rows[i as int]);
            assert(rows.skip(i as int).drop_first() =~= rows.skip(i as int + 1));
        }
        if !lines[i].as_str().is_empty() {
            match parse_task_line(lines[i].as_str()) {
                Ok(t) => {
                    proof {
                        let ghost tv = task_of_fields(split_on(rows[i as int], '~'))->Ok_0;
                        assert(tasks@.push(t).map_values(|x: Task| x@) =~= tasks@.map_values(
                            |x: Task| x@,
                        ) + seq![tv]);
                        if parse_task_rows(rows.skip(i as int + 1), (i + 2) as nat) is Ok {
                            let ts2 = parse_task_rows(
                                rows.skip(i as int + 1),
                                (i + 2) as nat,
                            )->Ok_0;
                            assert(tasks@.map_values(|x: Task| x@) + (seq![tv] + ts2) =~= (tasks@
                                .map_values(|x: Task| x@) + seq![tv]) + ts2);
                        }
                    }
                    tasks.push(t);
                },
                Err(k) => {
                    return Err(LoadError { kind: k, line: i + 1 });
                },
            }
        }
        i = i + 1;
    }
    proof {
        assert(rows.skip(i as int) =~= Seq::<Seq<char>>::empty());
        assert(tasks@.map_values(|t: Task| t@) + Seq::<TaskView>::empty() =~= tasks@.map_values(
            |t: Task| t@,
        ));
    }
    if tasks.len() == 0 {
        return Err(LoadError { kind: LoadErrorKind::EmptyDataset, line: 0 });
    }
    Ok(tasks)
}

/// Parses a whole hint dataset: one record per line, a single-character
/// key and a hint separated by `~`, blank lines skipped; fails fast on the
/// first malformed or repeated record, and on a dataset without records.
pub fn parse_hints(src: &str) -> (r: Result<HintMap, LoadError>)
    ensures
        (match r {
            Ok(m) => parse_hints_spec(src@) == Ok::<Map<char, Seq<char>>, LoadErrorView>(m@),
            Err(e) => parse_hints_spec(src@) == Err::<Map<char, Seq<char>>, LoadErrorView>(e@),
        }),
{
    let ghost rows = split_on(src@, '\n');
    let lines = split_str(src, '\n');
    let mut map = HintMap::new();
    let mut any: bool = false;
    let mut i: usize = 0;
    proof {
        assert(rows.skip(0) =~= rows);
    }
    while i < lines.len()
        invariant
            i <= lines@.len(),
            rows == split_on(src@, '\n'),
            lines@.map_values(|p: String| p@) == rows,
            any <==> exists|j: int| 0 <= j < i && rows[j].len() != 0,
            parse_hint_rows(rows, 1, Map::empty()) == parse_hint_rows(
                rows.skip(i as int),
                (i + 1) as nat,
                map@,
            ),
        decreases lines@.len() - i,
    {
        proof {
            assert(lines@[i as int]@ == rows[i as int]);
            assert(rows.skip(i as int)[0] == rows[i as int]);
            assert(rows.skip(i as int).drop_first() =~= rows.skip(i as int + 1));
        }
        if !lines[i].as_str().is_empty() {
            match parse_hint_line(lines[i].as_str()) {
                Ok((k, v)) => {
                    if map.contains_key(k) {
                        proof {
                            assert(!all_blank(rows)) by {
                                assert(rows[i as int].len() != 0);
                            }
                        }
                        return Err(LoadError { kind: LoadErrorKind::DuplicateHintKey, line: i + 1 });
                    }
                    map = map.insert(k, v);
                    any = true;
                    proof {
                        assert(0 <= i < i + 1 && rows[i as int].len() != 0);
                    }
                },
                Err(k) => {
                    proof {
                        assert(!all_blank(rows)) by {
                            assert(rows[i as int].len() != 0);
                        }
                    }
                    return Err(LoadError { kind: k, line: i + 1 });
                },
            }
        } else {
            proof {
                if exists|j: int| 0 <= j < i + 1 && rows[j].len() != 0 {
                    let w = choose|j: int| 0 <= j < i + 1 && rows[j].len() != 0;
                    assert(w != i);
                    assert(0 <= w < i && rows[w].len() != 0);
                }
                if exists|j: int| 0 <= j < i && rows[j].len() != 0 {
                    let w = choose|j: int| 0 <= j < i && rows[j].len() != 0;
                    assert(0 <= w < i + 1 && rows[w].len() != 0);
                }
            }
        }
        i = i + 1;
    }
    proof {
        assert(rows.skip(i as int) =~= Seq::<Seq<char>>::empty());
        if any {
            let w = choose|j: int| 0 <= j < i && rows[j].len() != 0;
            assert(!all_blank(rows)) by {
                assert(rows[w].len() != 0);
            }
        } else {
            assert(all_blank(rows)) by {
                assert(forall|j: int| 0 <= j < rows.len() ==> !(#[trigger] rows[j].len() != 0));
            }
        }
    }
    if !any {
        return Err(LoadError { kind: LoadErrorKind::EmptyDataset, line: 0 });
    }
    Ok(map)
}

} // verus!
