//! `task attach`: `key=value` metadata is kept as a JSON object in the
//! task's body. A body that already is a JSON object gets the pairs merged
//! into it; any other body is replaced by an object of the pairs.

use vstd::prelude::*;
use crate::commands::task::pair_views;
use crate::domain::task::Task;
use crate::text::owned;
use crate::domain::sync::sync_index::hex_digit;

verus! {

/// The members of `body` when serde_json reads it as one JSON object:
/// each key with its value as compact JSON text, in the order serde_json's
/// map yields them; `None` when the body is not a JSON object.
pub uninterp spec fn json_object_members(body: Seq<char>) -> Option<Seq<(Seq<char>, Seq<char>)>>;

/// Wraps `serde_json::from_str::<serde_json::Value>`: when the text is a
/// JSON object, its members with each value rendered by `Value`'s
/// `Display` (compact JSON). Only the dependence on `body` is stated.
#[verifier::external_body]
fn json_object_of(body: &str) -> (res: Option<Vec<(String, String)>>)
    ensures
        match res {
            Some(v) => json_object_members(body@) == Some(pair_views(v@)),
            None => json_object_members(body@) is None,
        },
{
    match serde_json::from_str::<serde_json::Value>(body) {
        Ok(serde_json::Value::Object(map)) => Some(map.into_iter().map(|(k, v)| (k, v.to_string())).collect()),
        _ => None,
    }
}

/// How serde_json writes one character inside a JSON string: `"` and `\`
/// behind a backslash; backspace, form feed, newline, carriage return and
/// tab as `\b`, `\f`, `\n`, `\r`, `\t`; the other characters below
/// U+0020 as `\u00` and two lower-case hex digits; everything else as
/// itself.
pub open spec fn json_escape_char(c: char) -> Seq<char> {
    if c == '"' {
        seq!['\\', '"']
    } else if c == '\\' {
        seq!['\\', '\\']
    } else if c == '\u{8}' {
        seq!['\\', 'b']
    } else if c == '\u{c}' {
        seq!['\\', 'f']
    } else if c == '\n' {
        seq!['\\', 'n']
    } else if c == '\r' {
        seq!['\\', 'r']
    } else if c == '\t' {
        seq!['\\', 't']
    } else if (c as u32) < 0x20 {
        seq!['\\', 'u', '0', '0', hex_digit((c as u32 / 16) as nat), hex_digit((c as u32 % 16) as nat)]
    } else {
        seq![c]
    }
}

/// The characters of a text, each escaped as in a JSON string.
pub open spec fn json_escaped(s: Seq<char>) -> Seq<char>
    decreases s.len(),
{
    if s.len() == 0 {
        Seq::empty()
    } else {
        json_escaped(s.drop_last()) + json_escape_char(s.last())
    }
}

/// A text as a JSON string literal: escaped and in double quotes.
pub open spec fn json_quoted(s: Seq<char>) -> Seq<char> {
    seq!['"'] + json_escaped(s) + seq!['"']
}

/// Wraps `serde_json::Value::String(..)` rendered by `Display`: the text
/// as a JSON string literal, quoted and escaped as serde_json's writer
/// does.
#[verifier::external_body]
fn json_string_text(s: &str) -> (res: String)
    ensures
        res@ == json_quoted(s@),
{
    serde_json::Value::String(s.to_string()).to_string()
}

/// The pretty-printed JSON object with these members (key, value as JSON
/// text).
pub uninterp spec fn pretty_object(members: Seq<(Seq<char>, Seq<char>)>) -> Seq<char>;

/// Wraps `serde_json::to_string_pretty` of the `serde_json::Map` collected
/// from the members, each value read back by `serde_json::from_str`. The
/// map orders its keys and keeps the last value of a repeated key. Only the
/// dependence on the members is stated.
#[verifier::external_body]
fn render_pretty_object(members: &[(String, String)]) -> (res: String)
    ensures
        res@ == pretty_object(pair_views(members@)),
{
    let map: serde_json::Map<String, serde_json::Value> = members
        .iter()
        .map(|(k, v)| (k.clone(), serde_json::from_str(v).unwrap_or(serde_json::Value::Null)))
        .collect();
    serde_json::to_string_pretty(&serde_json::Value::Object(map)).unwrap_or_default()
}

/// `members` with key `k` set to `v`: the first member with that key gets
/// the new value in place; without one, the member is added at the end.
pub open spec fn upsert_member(members: Seq<(Seq<char>, Seq<char>)>, k: Seq<char>, v: Seq<char>) -> Seq<
    (Seq<char>, Seq<char>),
>
    decreases members.len(),
{
    if members.len() == 0 {
        seq![(k, v)]
    } else if members[0].0 == k {
        members.update(0, (k, v))
    } else {
        seq![members[0]] + upsert_member(members.drop_first(), k, v)
    }
}

/// The members after attaching the pairs in order, each value as a JSON
/// string; a later pair overrides an earlier one with the same key.
pub open spec fn upsert_pairs(members: Seq<(Seq<char>, Seq<char>)>, pairs: Seq<(Seq<char>, Seq<char>)>) -> Seq<
    (Seq<char>, Seq<char>),
>
    decreases pairs.len(),
{
    if pairs.len() == 0 {
        members
    } else {
        upsert_member(upsert_pairs(members, pairs.drop_last()), pairs.last().0, json_quoted(pairs.last().1))
    }
}

/// What `task attach` keeps: the body's members (none when it is not a
/// JSON object) with the pairs attached.
pub open spec fn attached_members(
    existing: Option<Seq<(Seq<char>, Seq<char>)>>,
    pairs: Seq<(Seq<char>, Seq<char>)>,
) -> Seq<(Seq<char>, Seq<char>)> {
    let base = match existing {
        Some(m) => m,
        None => Seq::empty(),
    };
    upsert_pairs(base, pairs)
}

/// Setting a key whose first occurrence is at `i` replaces that member.
proof fn lemma_upsert_found(members: Seq<(Seq<char>, Seq<char>)>, k: Seq<char>, v: Seq<char>, i: int)
    requires
        0 <= i < members.len(),
        members[i].0 == k,
        forall|j: int| 0 <= j < i ==> members[j].0 != k,
    ensures
        upsert_member(members, k, v) == members.update(i, (k, v)),
    decreases i,
{
    if i > 0 {
        let t = members.drop_first();
        lemma_upsert_found(t, k, v, i - 1);
        assert(seq![members[0]] + t.update(i - 1, (k, v)) =~= members.update(i, (k, v)));
    }
}

/// Setting a key that no member has adds it at the end.
proof fn lemma_upsert_missing(members: Seq<(Seq<char>, Seq<char>)>, k: Seq<char>, v: Seq<char>)
    requires
        forall|j: int| 0 <= j < members.len() ==> members[j].0 != k,
    ensures
        upsert_member(members, k, v) == members.push((k, v)),
    decreases members.len(),
{
    if members.len() > 0 {
        let t = members.drop_first();
        assert forall|j: int| 0 <= j < t.len() implies t[j].0 != k by {
            assert(t[j] == members[j + 1]);
        }
        lemma_upsert_missing(t, k, v);
        assert(seq![members[0]] + t.push((k, v)) =~= members.push((k, v)));
    } else {
        assert(seq![(k, v)] =~= members.push((k, v)));
    }
}

/// Set member `k` to `v` in place.
fn upsert_member_exec(members: &mut Vec<(String, String)>, k: &str, v: String)
    ensures
        pair_views(final(members)@) == upsert_member(pair_views(old(members)@), k@, v@),
{
    let ghost m = pair_views(members@);
    assert(m == pair_views(old(members)@));
    let mut i: usize = 0;
    while i < members.len()
        invariant
            i <= members@.len(),
            m == pair_views(members@),
            m == pair_views(old(members)@),
            forall|j: int| 0 <= j < i ==> m[j].0 != k@,
        decreases members@.len() - i,
    {
        if crate::text::str_eq(members[i].0.as_str(), k) {
            proof {
                lemma_upsert_found(m, k@, v@, i as int);
            }
            members.set(i, (crate::text::owned(k), v));
            assert(pair_views(members@) =~= m.update(i as int, (k@, v@)));
            return;
        }
        i = i + 1;
    }
    proof {
        lemma_upsert_missing(m, k@, v@);
    }
    members.push((crate::text::owned(k), v));
    assert(pair_views(members@) =~= m.push((k@, v@)));
}

/// The new body of a task after `task attach` with the (already parsed)
/// pairs: the pretty-printed JSON object of the body's members with the
/// pairs attached as JSON strings.
pub fn attach_body(body: &str, pairs: &[(String, String)]) -> (res: String)
    ensures
        res@ == pretty_object(attached_members(json_object_members(body@), pair_views(pairs@))),
{
    let mut members: Vec<(String, String)> = match json_object_of(body) {
        Some(m) => m,
        None => Vec::new(),
    };
    let ghost base = pair_views(members@);
    assert(base == match json_object_members(body@) {
        Some(m) => m,
        None => Seq::<(Seq<char>, Seq<char>)>::empty(),
    });
    let mut i: usize = 0;
    while i < pairs.len()
        invariant
            i <= pairs@.len(),
            pair_views(members@) == upsert_pairs(base, pair_views(pairs@).take(i as int)),
        decreases pairs@.len() - i,
    {
        let quoted = json_string_text(pairs[i].1.as_str());
        upsert_member_exec(&mut members, pairs[i].0.as_str(), quoted);
        proof {
            let ps = pair_views(pairs@);
            assert(ps.take(i + 1).drop_last() =~= ps.take(i as int));
            assert(ps.take(i + 1).last() == ps[i as int]);
        }
        i = i + 1;
    }
    assert(pair_views(pairs@).take(pairs@.len() as int) =~= pair_views(pairs@));
    render_pretty_object(members.as_slice())
}

/// `task attach` on a task at time `now`: the body becomes `attach_body`
/// of the old body; the task is touched and detached from its file.
pub fn attach_to_task(task: &mut Task, pairs: &[(String, String)], now: &str)
    ensures
        final(task).body@ == pretty_object(
            attached_members(json_object_members(old(task).body@), pair_views(pairs@)),
        ),
        final(task).updated_at@ == now@,
        final(task).source_file is None,
        final(task).id == old(task).id,
        final(task).title == old(task).title,
        final(task).description == old(task).description,
        final(task).state == old(task).state,
        final(task).tags == old(task).tags,
        final(task).created_at == old(task).created_at,
{
    let body = attach_body(task.body.as_str(), pairs);
    task.body = body;
    task.updated_at = owned(now);
    task.source_file = None;
}

} // verus!
