//! `kron task`: which vertex a task command targets, what a new task must
//! carry, where `move`, `back` and `check` send a task, and how tags and
//! `key=value` metadata are applied.

use vstd::prelude::*;
use crate::domain::task::{contains_str, remove_all, without, Task};
use crate::error::{debug_quoted, debug_str, KronError, Result};
use crate::model::{bad_state_message, parse_state, parse_state_spec, TaskState};
use crate::text::{chars_of, find_char, first_char_index, owned, str_eq, string_of_range, trim, trim_bounds, views};

verus! {

// ---------------------------------------------------------------------------
// Target vertex
// ---------------------------------------------------------------------------

pub open spec fn no_current_vertex_message() -> Seq<char> {
    "no current vertex set; pass --vertex <name> or run 'kron vertex use <name>' first"@
}

/// The vertex a task command targets: the explicit `--vertex`, else the
/// current-vertex pointer, else an error asking for one.
pub fn resolve_target_vertex(explicit: Option<&str>, current: Option<&str>) -> (res: Result<String>)
    ensures
        explicit matches Some(v) ==> (res matches Ok(s) && s@ == v@),
        explicit is None ==> (current matches Some(c) ==> (res matches Ok(s) && s@ == c@)),
        explicit is None && current is None ==> (res matches Err(KronError::Cli(m)) && m@
            == no_current_vertex_message()),
{
    match explicit {
        Some(v) => Ok(owned(v)),
        None => match current {
            Some(c) => Ok(owned(c)),
            None => Err(KronError::Cli(owned(
                "no current vertex set; pass --vertex <name> or run 'kron vertex use <name>' first",
            ))),
        },
    }
}

/// Which command a cross-vertex check guards; the refusal messages differ.
#[derive(Debug, Clone, Copy, PartialEq, Eq, Structural)]
pub enum GuardKind {
    /// `task show`.
    Show,
    /// `task describe`.
    Describe,
    /// `task edit`.
    Edit,
    /// `task delete`, `task tag`, `task attach`.
    Operate,
}

/// The refusal when `--vertex` names another vertex than the task's.
pub open spec fn other_vertex_message(kind: GuardKind, id: Seq<char>, actual: Seq<char>, target: Seq<char>) -> Seq<char> {
    "task "@ + id + " is in vertex '"@ + actual + "', not '"@ + target + "'"@ + match kind {
        GuardKind::Show => "; either correct --vertex or omit it (and use the current-vertex pointer)"@,
        _ => Seq::empty(),
    }
}

/// The refusal when the task is outside the current vertex.
pub open spec fn not_current_message(kind: GuardKind, id: Seq<char>, actual: Seq<char>, current: Seq<char>) -> Seq<char> {
    "task "@ + id + " is in vertex '"@ + actual + "', not the current '"@ + current + "'; "@ + match kind {
        GuardKind::Show => "cross-vertex operations require explicit --vertex "@ + actual,
        GuardKind::Describe => "pass --vertex "@ + actual + " explicitly"@,
        GuardKind::Edit => "pass --vertex "@ + actual + " to edit across vertices"@,
        GuardKind::Operate => "pass --vertex "@ + actual + " to operate across vertices"@,
    }
}

/// A command on task `id`, which lives in vertex `actual`, must name that
/// vertex with `--vertex` or have it as the current vertex; with neither
/// given it is allowed.
pub fn cross_vertex_guard(
    kind: GuardKind,
    id: &str,
    target: Option<&str>,
    current: Option<&str>,
    actual: &str,
) -> (res: Result<()>)
    ensures
        target matches Some(v) ==> (v@ == actual@ <==> res is Ok),
        target matches Some(v) ==> (v@ != actual@ ==> (res matches Err(KronError::Cli(m)) && m@
            == other_vertex_message(kind, id@, actual@, v@))),
        target is None ==> match current {
            Some(c) => (c@ == actual@ <==> res is Ok) && (c@ != actual@ ==> (res matches Err(
                KronError::Cli(m),
            ) && m@ == not_current_message(kind, id@, actual@, c@))),
            None => res is Ok,
        },
{
    match target {
        Some(v) => {
            if !str_eq(v, actual) {
                let mut m = owned("task ");
                m.append(id);
                m.append(" is in vertex '");
                m.append(actual);
                m.append("', not '");
                m.append(v);
                m.append("'");
                match kind {
                    GuardKind::Show => m.append("; either correct --vertex or omit it (and use the current-vertex pointer)"),
                    _ => {},
                }
                return Err(KronError::Cli(m));
            }
            Ok(())
        },
        None => match current {
            Some(c) => {
                if !str_eq(c, actual) {
                    let mut m = owned("task ");
                    m.append(id);
                    m.append(" is in vertex '");
                    m.append(actual);
                    m.append("', not the current '");
                    m.append(c);
                    m.append("'; ");
                    match kind {
                        GuardKind::Show => {
                            m.append("cross-vertex operations require explicit --vertex ");
                            m.append(actual);
                        },
                        GuardKind::Describe => {
                            m.append("pass --vertex ");
                            m.append(actual);
                            m.append(" explicitly");
                        },
                        GuardKind::Edit => {
                            m.append("pass --vertex ");
                            m.append(actual);
                            m.append(" to edit across vertices");
                        },
                        GuardKind::Operate => {
                            m.append("pass --vertex ");
                            m.append(actual);
                            m.append(" to operate across vertices");
                        },
                    }
                    return Err(KronError::Cli(m));
                }
                Ok(())
            },
            None => Ok(()),
        },
    }
}

// ---------------------------------------------------------------------------
// New tasks
// ---------------------------------------------------------------------------

pub open spec fn opt_text(o: Option<&str>) -> Seq<char> {
    match o {
        Some(s) => s@,
        None => Seq::empty(),
    }
}

/// A new task needs a title and at least one of a description and a body.
pub fn validate_add(title: &str, description: Option<&str>, body: Option<&str>) -> (res: Result<()>)
    ensures
        title@.len() == 0 ==> (res matches Err(KronError::Cli(m)) && m@ == "title is required"@),
        title@.len() > 0 && opt_text(description).len() == 0 && opt_text(body).len() == 0 ==> (res matches Err(
            KronError::Cli(m),
        ) && m@ == "task requires either --description or --body (in addition to --title)"@),
        res is Ok <==> (title@.len() > 0 && (opt_text(description).len() > 0 || opt_text(body).len() > 0)),
{
    if chars_of(title).len() == 0 {
        return Err(KronError::Cli(owned("title is required")));
    }
    let d = match description {
        Some(s) => chars_of(s).len(),
        None => 0,
    };
    let b = match body {
        Some(s) => chars_of(s).len(),
        None => 0,
    };
    if d == 0 && b == 0 {
        return Err(KronError::Cli(owned("task requires either --description or --body (in addition to --title)")));
    }
    Ok(())
}

// ---------------------------------------------------------------------------
// State moves
// ---------------------------------------------------------------------------

/// The state `task move --to <to>` moves to; anything but `todo`, `doing`
/// or `done` (in any ASCII case) is refused.
pub fn parse_move_target(to: &str) -> (res: Result<TaskState>)
    ensures
        match parse_state_spec(to@) {
            Ok(st) => res == Ok::<TaskState, KronError>(st),
            Err(e) => res matches Err(KronError::Cli(m)) && m@ == "invalid target state '"@ + to@ + "': "@
                + e,
        },
{
    match parse_state(to) {
        Ok(st) => Ok(st),
        Err(e) => {
            let mut m = owned("invalid target state '");
            m.append(to);
            m.append("': ");
            m.append(e.as_str());
            Err(KronError::Cli(m))
        },
    }
}

pub open spec fn legacy_state_message(id: Seq<char>, current: Seq<char>, advice: Seq<char>) -> Seq<char> {
    "task "@ + id + " has legacy state '"@ + current + "' which is not one of todo/doing/done; "@ + advice
}

pub open spec fn back_advice(id: Seq<char>) -> Seq<char> {
    "move it to a valid state first with `kron task move "@ + id + " --to todo|doing|done`"@
}

pub open spec fn check_advice(id: Seq<char>) -> Seq<char> {
    "use `kron task move "@ + id + " --to todo|doing|done` first"@
}

fn legacy_state(id: &str, current: &str, advice: &str) -> (res: KronError)
    ensures
        res matches KronError::Cli(m) && m@ == legacy_state_message(id@, current@, advice@),
{
    let mut m = owned("task ");
    m.append(id);
    m.append(" has legacy state '");
    m.append(current);
    m.append("' which is not one of todo/doing/done; ");
    m.append(advice);
    KronError::Cli(m)
}

/// Where `task back` sends task `id`, now in vertex `current`: one state
/// back along `todo -> doing -> done`.
pub fn back_target(id: &str, current: &str) -> (res: Result<TaskState>)
    ensures
        match parse_state_spec(current@) {
            Err(_) => res matches Err(KronError::Cli(m)) && m@ == legacy_state_message(id@, current@, back_advice(id@)),
            Ok(st) => match st.prev() {
                Some(p) => res == Ok::<TaskState, KronError>(p),
                None => res matches Err(KronError::Cli(m)) && m@ == "task "@ + id@
                    + " is already in 'todo' (terminal state of back chain)"@,
            },
        },
{
    match parse_state(current) {
        Err(_) => {
            let mut advice = owned("move it to a valid state first with `kron task move ");
            advice.append(id);
            advice.append(" --to todo|doing|done`");
            Err(legacy_state(id, current, advice.as_str()))
        },
        Ok(st) => match st.prev_in_chain() {
            Some(p) => Ok(p),
            None => {
                let mut m = owned("task ");
                m.append(id);
                m.append(" is already in 'todo' (terminal state of back chain)");
                Err(KronError::Cli(m))
            },
        },
    }
}

/// The state `check` toggles to: `done` goes back to `todo`, any other
/// state to `done`.
pub open spec fn toggled(st: TaskState) -> TaskState {
    match st {
        TaskState::Done => TaskState::Todo,
        _ => TaskState::Done,
    }
}

/// Where `task check` sends task `id`, now in vertex `current`.
pub fn check_target(id: &str, current: &str) -> (res: Result<TaskState>)
    ensures
        match parse_state_spec(current@) {
            Err(_) => res matches Err(KronError::Cli(m)) && m@ == legacy_state_message(id@, current@, check_advice(id@)),
            Ok(st) => res == Ok::<TaskState, KronError>(toggled(st)),
        },
{
    match parse_state(current) {
        Err(_) => {
            let mut advice = owned("use `kron task move ");
            advice.append(id);
            advice.append(" --to todo|doing|done` first");
            Err(legacy_state(id, current, advice.as_str()))
        },
        Ok(st) => match st {
            TaskState::Done => Ok(TaskState::Todo),
            _ => Ok(TaskState::Done),
        },
    }
}

/// Checking a task twice returns it to where it was, once it is `todo` or
/// `done`.
pub proof fn lemma_check_twice(st: TaskState)
    requires
        st != TaskState::Doing,
    ensures
        toggled(toggled(st)) == st,
{
}

// ---------------------------------------------------------------------------
// Tags
// ---------------------------------------------------------------------------

/// What `task tag` does.
pub enum TagAction {
    Add { name: String },
    Remove { name: String },
    List,
    Clear,
}

/// `tags` with `name` added at the end unless already present.
pub open spec fn with_tag(tags: Seq<Seq<char>>, name: Seq<char>) -> Seq<Seq<char>> {
    if tags.contains(name) {
        tags
    } else {
        tags.push(name)
    }
}

/// `t` is `task` with tags `tags`, touched at `now` and detached from its
/// source file.
pub open spec fn retagged(task: Task, t: Task, tags: Seq<Seq<char>>, now: Seq<char>) -> bool {
    &&& views(t.tags@) == tags
    &&& t.updated_at@ == now
    &&& t.source_file is None
    &&& t.id == task.id
    &&& t.title == task.title
    &&& t.description == task.description
    &&& t.body == task.body
    &&& t.state == task.state
    &&& t.created_at == task.created_at
}

/// Apply a tag action to `task` at time `now`. Returns whether the task
/// changed (and must be written back). An empty tag name is refused.
pub fn apply_tag_action(task: &mut Task, action: &TagAction, now: &str) -> (res: Result<bool>)
    ensures
        match action {
            TagAction::Add { name } => if name@.len() == 0 {
                (res matches Err(KronError::Cli(m)) && m@ == "tag name must not be empty"@)
                    && *final(task) == *old(task)
            } else {
                res == Ok::<bool, KronError>(true) && retagged(
                    *old(task),
                    *final(task),
                    with_tag(views(old(task).tags@), name@),
                    now@,
                )
            },
            TagAction::Remove { name } => {
                let kept = without(views(old(task).tags@), name@);
                if kept.len() != old(task).tags@.len() {
                    res == Ok::<bool, KronError>(true) && retagged(*old(task), *final(task), kept, now@)
                } else {
                    res == Ok::<bool, KronError>(false) && *final(task) == *old(task)
                }
            },
            TagAction::List => res == Ok::<bool, KronError>(false) && *final(task) == *old(task),
            TagAction::Clear => res == Ok::<bool, KronError>(true) && retagged(
                *old(task),
                *final(task),
                Seq::empty(),
                now@,
            ),
        },
{
    match action {
        TagAction::Add { name } => {
            if chars_of(name.as_str()).len() == 0 {
                return Err(KronError::Cli(owned("tag name must not be empty")));
            }
            if !contains_str(task.tags.as_slice(), name.as_str()) {
                task.tags.push(name.clone());
                assert(views(task.tags@) =~= views(old(task).tags@).push(name@));
            }
            task.updated_at = owned(now);
            task.source_file = None;
            Ok(true)
        },
        TagAction::Remove { name } => {
            let kept = remove_all(&task.tags, name.as_str());
            if kept.len() != task.tags.len() {
                task.tags = kept;
                task.updated_at = owned(now);
                task.source_file = None;
                Ok(true)
            } else {
                proof {
                    assert(views(kept@).len() == kept@.len());
                }
                Ok(false)
            }
        },
        TagAction::List => Ok(false),
        TagAction::Clear => {
            task.tags = Vec::new();
            assert(views(task.tags@) =~= Seq::<Seq<char>>::empty());
            task.updated_at = owned(now);
            task.source_file = None;
            Ok(true)
        },
    }
}

proof fn lemma_without_len(tags: Seq<Seq<char>>, name: Seq<char>)
    ensures
        without(tags, name).len() <= tags.len(),
    decreases tags.len(),
{
    if tags.len() > 0 {
        lemma_without_len(tags.drop_last(), name);
    }
}

/// Tag laws: adding a tag twice is adding it once; removing a tag undoes
/// adding it; removing twice is removing once; after adding, the tag is
/// there, and after removing, it is not.
pub proof fn lemma_tag_laws(tags: Seq<Seq<char>>, name: Seq<char>)
    ensures
        with_tag(with_tag(tags, name), name) == with_tag(tags, name),
        without(with_tag(tags, name), name) == without(tags, name),
        without(without(tags, name), name) == without(tags, name),
        with_tag(tags, name).contains(name),
        !without(tags, name).contains(name),
{
    crate::domain::task::lemma_without(tags, name);
    if !tags.contains(name) {
        assert(tags.push(name).last() == name);
        assert(tags.push(name).drop_last() =~= tags);
    }
    lemma_without_idempotent(tags, name);
}

proof fn lemma_without_idempotent(tags: Seq<Seq<char>>, name: Seq<char>)
    ensures
        without(without(tags, name), name) == without(tags, name),
    decreases tags.len(),
{
    if tags.len() > 0 {
        lemma_without_idempotent(tags.drop_last(), name);
        if tags.last() != name {
            let w = without(tags.drop_last(), name);
            assert(w.push(tags.last()).drop_last() =~= w);
        }
    }
}

// ---------------------------------------------------------------------------
// key=value metadata
// ---------------------------------------------------------------------------

/// One `key=value` argument: split at the first `=`, the key trimmed and
/// non-empty, the value kept as written.
pub open spec fn pair_spec(p: Seq<char>) -> core::result::Result<(Seq<char>, Seq<char>), Seq<char>> {
    if !p.contains('=') {
        Err("expected key=value, got "@ + debug_quoted(p))
    } else {
        let i = choose|i: int| first_char_index(p, '=', i);
        let key = trim(p.take(i));
        if key.len() == 0 {
            Err("empty key in pair "@ + debug_quoted(p))
        } else {
            Ok((key, p.skip(i + 1)))
        }
    }
}

/// All arguments parsed in order, or the error of the first bad one.
pub open spec fn pairs_spec(ps: Seq<Seq<char>>) -> core::result::Result<Seq<(Seq<char>, Seq<char>)>, Seq<char>>
    decreases ps.len(),
{
    if ps.len() == 0 {
        Ok(Seq::empty())
    } else {
        match pairs_spec(ps.drop_last()) {
            Err(m) => Err(m),
            Ok(done) => match pair_spec(ps.last()) {
                Err(m) => Err(m),
                Ok(kv) => Ok(done.push(kv)),
            },
        }
    }
}

pub open spec fn pair_views(v: Seq<(String, String)>) -> Seq<(Seq<char>, Seq<char>)> {
    v.map_values(|kv: (String, String)| (kv.0@, kv.1@))
}

proof fn lemma_first_char_unique(s: Seq<char>, c: char, i: int, j: int)
    requires
        first_char_index(s, c, i),
        first_char_index(s, c, j),
    ensures
        i == j,
{
}

fn parse_pair(p: &str) -> (res: Result<(String, String)>)
    ensures
        match pair_spec(p@) {
            Ok(kv) => res matches Ok(r) && r.0@ == kv.0 && r.1@ == kv.1,
            Err(m) => res matches Err(KronError::Cli(e)) && e@ == m,
        },
{
    let cs = chars_of(p);
    match find_char(cs.as_slice(), '=') {
        None => {
            let mut m = owned("expected key=value, got ");
            let q = debug_str(p);
            m.append(q.as_str());
            Err(KronError::Cli(m))
        },
        Some(i) => {
            proof {
                let j = choose|j: int| first_char_index(p@, '=', j);
                lemma_first_char_unique(p@, '=', i as int, j);
            }
            let (a, b) = trim_bounds(&cs.as_slice()[0..i]);
            proof {
                assert(cs@.subrange(0, i as int) =~= p@.take(i as int));
            }
            if a == b {
                let mut m = owned("empty key in pair ");
                let q = debug_str(p);
                m.append(q.as_str());
                return Err(KronError::Cli(m));
            }
            assert(i < cs.len());
            let key = string_of_range(cs.as_slice(), a, b);
            let value = string_of_range(cs.as_slice(), i + 1, cs.len());
            proof {
                assert(cs@.subrange(a as int, b as int) =~= p@.take(i as int).subrange(a as int, b as int));
                assert(cs@.subrange(i + 1, cs@.len() as int) =~= p@.skip(i + 1));
            }
            Ok((key, value))
        },
    }
}

/// Parse `key=value` arguments, in order; the first malformed one is
/// reported.
pub fn parse_pairs(pairs: &[String]) -> (res: Result<Vec<(String, String)>>)
    ensures
        match pairs_spec(views(pairs@)) {
            Ok(kvs) => res matches Ok(v) && pair_views(v@) == kvs,
            Err(m) => res matches Err(KronError::Cli(e)) && e@ == m,
        },
{
    let mut out: Vec<(String, String)> = Vec::new();
    let mut i: usize = 0;
    assert(views(pairs@.take(0)) =~= Seq::<Seq<char>>::empty());
    assert(pair_views(out@) =~= Seq::<(Seq<char>, Seq<char>)>::empty());
    while i < pairs.len()
        invariant
            i <= pairs@.len(),
            pairs_spec(views(pairs@.take(i as int))) == Ok::<Seq<(Seq<char>, Seq<char>)>, Seq<char>>(
                pair_views(out@),
            ),
        decreases pairs@.len() - i,
    {
        proof {
            assert(views(pairs@.take(i + 1)).drop_last() =~= views(pairs@.take(i as int)));
            assert(views(pairs@.take(i + 1)).last() == pairs@[i as int]@);
        }
        match parse_pair(pairs[i].as_str()) {
            Err(e) => {
                proof {
                    assert(views(pairs@).take(i + 1) =~= views(pairs@.take(i + 1)));
                    lemma_pairs_error_stays(views(pairs@), i as int + 1);
                }
                return Err(e);
            },
            Ok(kv) => {
                let ghost before = out@;
                out.push(kv);
                assert(pair_views(out@) =~= pair_views(before).push((kv.0@, kv.1@)));
            },
        }
        i = i + 1;
    }
    assert(pairs@.take(pairs@.len() as int) =~= pairs@);
    Ok(out)
}

/// Once a prefix of the arguments fails, the whole list fails the same way.
proof fn lemma_pairs_error_stays(ps: Seq<Seq<char>>, k: int)
    requires
        0 <= k <= ps.len(),
        pairs_spec(ps.take(k)) is Err,
    ensures
        pairs_spec(ps) == pairs_spec(ps.take(k)),
    decreases ps.len() - k,
{
    if k < ps.len() {
        assert(ps.take(k + 1).drop_last() =~= ps.take(k));
        lemma_pairs_error_stays(ps, k + 1);
    } else {
        assert(ps.take(k) =~= ps);
    }
}

// ---------------------------------------------------------------------------
// Listing and describing
// ---------------------------------------------------------------------------

/// `task` passes the `--state` filter (exact match) and carries every tag
/// of the `--tag` filter.
pub open spec fn passes_filters(task: Task, state: Option<Seq<char>>, tags: Seq<Seq<char>>) -> bool {
    &&& (state matches Some(st) ==> task.state@ == st)
    &&& forall|i: int| 0 <= i < tags.len() ==> views(task.tags@).contains(#[trigger] tags[i])
}

/// The tasks passing the filters, in order.
pub open spec fn selected(tasks: Seq<Task>, state: Option<Seq<char>>, tags: Seq<Seq<char>>) -> Seq<Task>
    decreases tasks.len(),
{
    if tasks.len() == 0 {
        Seq::empty()
    } else {
        let rest = selected(tasks.drop_last(), state, tags);
        if passes_filters(tasks.last(), state, tags) {
            rest.push(tasks.last())
        } else {
            rest
        }
    }
}

pub open spec fn opt_view(o: Option<&str>) -> Option<Seq<char>> {
    match o {
        Some(s) => Some(s@),
        None => None,
    }
}

/// Whether a task passes the `--state` and `--tag` filters of `task list`.
pub fn task_passes(task: &Task, state: Option<&str>, tags: &[String]) -> (res: bool)
    ensures
        res == passes_filters(*task, opt_view(state), views(tags@)),
        res ==> forall|i: int| 0 <= i < tags@.len() ==> views(task.tags@).contains(#[trigger] tags@[i]@),
        res ==> (state matches Some(st) ==> task.state@ == st@),
        !res ==> (state matches Some(st) && task.state@ != st@) || exists|i: int|
            0 <= i < tags@.len() && !views(task.tags@).contains(#[trigger] tags@[i]@),
{
    if let Some(st) = state {
        if !str_eq(task.state.as_str(), st) {
            return false;
        }
    }
    let mut i: usize = 0;
    while i < tags.len()
        invariant
            i <= tags@.len(),
            forall|j: int| 0 <= j < i ==> views(task.tags@).contains(#[trigger] views(tags@)[j]),
        decreases tags@.len() - i,
    {
        if !contains_str(task.tags.as_slice(), tags[i].as_str()) {
            assert(!views(task.tags@).contains(views(tags@)[i as int]));
            assert(!views(task.tags@).contains(tags@[i as int]@));
            return false;
        }
        i = i + 1;
    }
    assert forall|i: int| 0 <= i < tags@.len() implies views(task.tags@).contains(#[trigger] tags@[i]@) by {
        assert(views(tags@)[i] == tags@[i]@);
    }
    true
}

/// The positions of the tasks that `task list` shows, in order.
pub fn select_tasks(tasks: &[Task], state: Option<&str>, tags: &[String]) -> (res: Vec<usize>)
    ensures
        res@.map_values(|i: usize| tasks@[i as int]) == selected(tasks@, opt_view(state), views(tags@)),
        forall|k: int| 0 <= k < res@.len() ==> res@[k] < tasks@.len(),
{
    let mut out: Vec<usize> = Vec::new();
    let mut i: usize = 0;
    while i < tasks.len()
        invariant
            i <= tasks@.len(),
            out@.map_values(|j: usize| tasks@[j as int]) == selected(
                tasks@.take(i as int),
                opt_view(state),
                views(tags@),
            ),
            forall|k: int| 0 <= k < out@.len() ==> out@[k] < i,
        decreases tasks@.len() - i,
    {
        proof {
            assert(tasks@.take(i + 1).drop_last() =~= tasks@.take(i as int));
            assert(tasks@.take(i + 1).last() == tasks@[i as int]);
        }
        if task_passes(&tasks[i], state, tags) {
            let ghost before = out@;
            out.push(i);
            assert(out@.map_values(|j: usize| tasks@[j as int]) =~= before.map_values(
                |j: usize| tasks@[j as int],
            ).push(tasks@[i as int]));
        }
        i = i + 1;
    }
    assert(tasks@.take(tasks@.len() as int) =~= tasks@);
    out
}

/// Set the description of `task` at time `now`, as `task describe` does:
/// an empty description is refused, and so is one over 200 characters.
/// A refused change leaves the task unchanged.
pub fn describe_update(task: &mut Task, description: &str, now: &str) -> (res: Result<()>)
    ensures
        description@.len() == 0 ==> (res matches Err(KronError::Cli(m)) && m@
            == "--description is required for `task describe`"@),
        description@.len() > 200 ==> (res matches Err(KronError::Cli(m)) && m@
            == crate::domain::task::long_description_message(description@.len())),
        res is Err ==> *final(task) == *old(task),
        res is Ok <==> (0 < description@.len() <= 200),
        res is Ok ==> final(task).description@ == description@ && final(task).updated_at@ == now@
            && final(task).source_file is None && final(task).id == old(task).id && final(task).title
            == old(task).title && final(task).body == old(task).body && final(task).state == old(task).state
            && final(task).tags == old(task).tags && final(task).created_at == old(task).created_at,
{
    if chars_of(description).len() == 0 {
        return Err(KronError::Cli(owned("--description is required for `task describe`")));
    }
    let d = crate::domain::task::validate_description(description)?;
    task.description = d;
    task.updated_at = owned(now);
    task.source_file = None;
    Ok(())
}

/// A task passes the tag filter only when it carries every filter tag,
/// whatever their order; adding a filter tag can only narrow the listing.
pub proof fn lemma_tag_filter_needs_every_tag(task: Task, state: Option<Seq<char>>, tags: Seq<Seq<char>>, extra: Seq<char>)
    ensures
        passes_filters(task, state, tags) ==> forall|i: int|
            0 <= i < tags.len() ==> views(task.tags@).contains(#[trigger] tags[i]),
        passes_filters(task, state, tags.push(extra)) ==> passes_filters(task, state, tags) && views(
            task.tags@,
        ).contains(extra),
        passes_filters(task, state, tags.push(extra)) == passes_filters(task, state, seq![extra] + tags),
{
    let a = tags.push(extra);
    let b = seq![extra] + tags;
    if passes_filters(task, state, a) {
        assert forall|i: int| 0 <= i < tags.len() implies views(task.tags@).contains(#[trigger] tags[i]) by {
            assert(a[i] == tags[i]);
        }
        assert(a[tags.len() as int] == extra);
        assert forall|i: int| 0 <= i < b.len() implies views(task.tags@).contains(#[trigger] b[i]) by {
            if i > 0 {
                assert(b[i] == tags[i - 1]);
            } else {
                assert(b[0] == extra);
            }
        }
    }
    if passes_filters(task, state, b) {
        assert(b[0] == extra);
        assert forall|i: int| 0 <= i < a.len() implies views(task.tags@).contains(#[trigger] a[i]) by {
            if i < tags.len() {
                assert(a[i] == b[i + 1]);
            } else {
                assert(a[i] == extra);
            }
        }
    }
}

} // verus!
