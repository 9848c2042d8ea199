//! Vertex registry: the records of `kron-internal/vertices.json`.
//!
//! A vertex is a named grouping of tasks (`todo`, `doing`, `review`, ...).
//! Its tasks live under a project-side directory; its metadata lives only
//! in the registry, which is the single source of truth. The operations
//! here work on the loaded registry; the caller loads and saves it and
//! creates or removes the directories.

use vstd::prelude::*;
use crate::domain::task::{is_slug, validate_vertex_name};
use crate::error::{KronError, Result};
use crate::model::VertexEntry;
use crate::paths::{join, join_spec};
use crate::text::{clone_opt, concat2, concat3, owned, str_eq};

verus! {

/// A persisted vertex record. Timestamps are RFC 3339 strings.
#[derive(Debug, Clone, PartialEq)]
pub struct VertexRecord {
    pub name: String,
    pub path: String,
    pub description: Option<String>,
    pub branch: Option<String>,
    pub created_at: String,
    pub updated_at: String,
}

impl VertexRecord {
    /// A field-by-field copy.
    pub fn duplicate(&self) -> (res: VertexRecord)
        ensures
            res == *self,
    {
        VertexRecord {
            name: self.name.clone(),
            path: self.path.clone(),
            description: clone_opt(&self.description),
            branch: clone_opt(&self.branch),
            created_at: self.created_at.clone(),
            updated_at: self.updated_at.clone(),
        }
    }
}

/// `<root>/kron-internal/vertices.json`.
pub open spec fn registry_path_spec(root: Seq<char>) -> Seq<char> {
    join_spec(join_spec(root, "kron-internal"@), "vertices.json"@)
}

/// Path to the registry file inside `kron-internal/`.
pub fn registry_path(project_root: &str) -> (res: String)
    ensures
        res@ == registry_path_spec(project_root@),
{
    let a = join(project_root, "kron-internal");
    join(a.as_str(), "vertices.json")
}

/// Default project-side path for a vertex: `KRON/VERTEX/<name>`.
pub fn default_path(name: &str) -> (res: String)
    ensures
        res@ == "KRON/VERTEX/"@ + name@,
{
    concat2("KRON/VERTEX/", name)
}

/// The `model::VertexEntry` view of a record (name and path).
pub fn entry_of(v: &VertexRecord) -> (res: VertexEntry)
    ensures
        res.name == v.name,
        res.path == v.path,
{
    VertexEntry { name: v.name.clone(), path: v.path.clone() }
}

/// The names of the registry, in order.
pub open spec fn names(reg: Seq<VertexRecord>) -> Seq<Seq<char>> {
    reg.map_values(|v: VertexRecord| v.name@)
}

/// `k` is the first record named `name`.
pub open spec fn first_named(reg: Seq<VertexRecord>, name: Seq<char>, k: int) -> bool {
    0 <= k < reg.len() && reg[k].name@ == name && forall|j: int|
        0 <= j < k ==> reg[j].name@ != name
}

/// Some record is named `name`.
pub open spec fn has_name(reg: Seq<VertexRecord>, name: Seq<char>) -> bool {
    exists|k: int| 0 <= k < reg.len() && reg[k].name@ == name
}

/// No two records share a name.
pub open spec fn unique_names(reg: Seq<VertexRecord>) -> bool {
    forall|i: int, j: int| 0 <= i < j < reg.len() ==> reg[i].name@ != reg[j].name@
}

/// Index of the first record named `name`.
fn position(reg: &[VertexRecord], name: &str) -> (res: Option<usize>)
    ensures
        res matches Some(k) ==> first_named(reg@, name@, k as int),
        res is None ==> !has_name(reg@, name@),
{
    let mut i: usize = 0;
    while i < reg.len()
        invariant
            i <= reg@.len(),
            forall|j: int| 0 <= j < i ==> reg@[j].name@ != name@,
        decreases reg@.len() - i,
    {
        if str_eq(reg[i].name.as_str(), name) {
            return Some(i);
        }
        i = i + 1;
    }
    None
}

/// Look up a single vertex by name (the first record with that name).
pub fn find(reg: &[VertexRecord], name: &str) -> (res: Option<VertexRecord>)
    ensures
        res matches Some(v) ==> exists|k: int| first_named(reg@, name@, k) && v == reg@[k],
        res is None ==> !has_name(reg@, name@),
{
    match position(reg, name) {
        Some(k) => Some(reg[k].duplicate()),
        None => None,
    }
}

/// The hint given for a vertex that is not registered.
pub open spec fn unregistered_message(name: Seq<char>) -> Seq<char> {
    "vertex '"@ + name + "' is not registered; run `kron vertex create "@ + name + "` first"@
}

/// Look up a vertex that must be registered; directories that exist on
/// disk but are not in the registry are not vertices.
pub fn find_required(reg: &[VertexRecord], name: &str) -> (res: Result<VertexRecord>)
    ensures
        res matches Ok(v) ==> exists|k: int| first_named(reg@, name@, k) && v == reg@[k],
        res is Err ==> !has_name(reg@, name@),
        res matches Err(e) ==> (e matches KronError::Cli(m) && m@ == unregistered_message(name@)),
{
    match find(reg, name) {
        Some(v) => Ok(v),
        None => {
            let mut m = concat3("vertex '", name, "' is not registered; run `kron vertex create ");
            m.append(name);
            m.append("` first");
            Err(KronError::Cli(m))
        },
    }
}

/// The refusal of a duplicate name.
pub open spec fn duplicate_message(name: Seq<char>) -> Seq<char> {
    "vertex '"@ + name + "' already exists (use `kron vertex describe` to update)"@
}

/// The text of an optional string argument.
pub open spec fn opt_view(o: Option<&str>) -> Option<Seq<char>> {
    match o {
        Some(s) => Some(s@),
        None => None,
    }
}

/// The text of an optional owned string.
pub open spec fn opt_string_view(o: Option<String>) -> Option<Seq<char>> {
    match o {
        Some(s) => Some(s@),
        None => None,
    }
}

fn opt_owned(o: Option<&str>) -> (res: Option<String>)
    ensures
        opt_string_view(res) == opt_view(o),
{
    match o {
        Some(s) => Some(owned(s)),
        None => None,
    }
}

/// Create a new vertex record at time `now` and append it to the registry.
/// The name must be a slug and not yet registered. The record's path is
/// `path_override` or `KRON/VERTEX/<name>`; the caller creates that
/// directory and saves the registry.
pub fn create(
    reg: &mut Vec<VertexRecord>,
    name: &str,
    description: Option<&str>,
    branch: Option<&str>,
    path_override: Option<&str>,
    now: &str,
) -> (res: Result<VertexRecord>)
    ensures
        !is_slug(name@) ==> (res matches Err(KronError::InvalidVertexName(n)) && n@ == name@),
        is_slug(name@) && has_name(old(reg)@, name@) ==> (res matches Err(KronError::Cli(m))
            && m@ == duplicate_message(name@)),
        res is Err ==> final(reg)@ == old(reg)@,
        is_slug(name@) && !has_name(old(reg)@, name@) ==> (res matches Ok(rec) && final(reg)@
            == old(reg)@.push(rec) && rec.name@ == name@ && rec.path@ == (match path_override {
            Some(p) => p@,
            None => "KRON/VERTEX/"@ + name@,
        }) && opt_string_view(rec.description) == opt_view(description) && opt_string_view(
            rec.branch,
        ) == opt_view(branch) && rec.created_at@ == now@ && rec.updated_at@ == now@),
{
    match validate_vertex_name(name) {
        Err(e) => return Err(e),
        Ok(()) => {},
    }
    if position(reg.as_slice(), name).is_some() {
        return Err(KronError::Cli(concat3(
            "vertex '",
            name,
            "' already exists (use `kron vertex describe` to update)",
        )));
    }
    let path = match path_override {
        Some(p) => owned(p),
        None => default_path(name),
    };
    let rec = VertexRecord {
        name: owned(name),
        path,
        description: opt_owned(description),
        branch: opt_owned(branch),
        created_at: owned(now),
        updated_at: owned(now),
    };
    reg.push(rec.duplicate());
    Ok(rec)
}

/// How an optional new value updates a field: absent keeps it, empty
/// clears it, anything else replaces it.
pub open spec fn updated_field(old_value: Option<Seq<char>>, new_value: Option<Seq<char>>) -> Option<
    Seq<char>,
> {
    match new_value {
        None => old_value,
        Some(d) => if d.len() == 0 {
            None
        } else {
            Some(d)
        },
    }
}

fn update_field(old_value: &Option<String>, new_value: Option<&str>) -> (res: Option<String>)
    ensures
        opt_string_view(res) == updated_field(opt_string_view(*old_value), opt_view(new_value)),
{
    match new_value {
        None => clone_opt(old_value),
        Some(d) => if d.is_empty() {
            None
        } else {
            Some(owned(d))
        },
    }
}

/// Update the description and/or branch binding of the first vertex named
/// `name`, stamping it with `now`. `NotFound` names the registry file.
pub fn update(
    reg: &mut Vec<VertexRecord>,
    project_root: &str,
    name: &str,
    description: Option<&str>,
    branch: Option<&str>,
    now: &str,
) -> (res: Result<VertexRecord>)
    ensures
        !has_name(old(reg)@, name@) ==> (res matches Err(KronError::NotFound(p)) && p@ == join_spec(
            project_root@,
            "kron-internal/vertices.json"@,
        ) && final(reg)@ == old(reg)@),
        has_name(old(reg)@, name@) ==> (res matches Ok(rec) && exists|k: int|
            first_named(old(reg)@, name@, k) && final(reg)@ == old(reg)@.update(k, rec)
                && rec.name == old(reg)@[k].name && rec.path == old(reg)@[k].path
                && rec.created_at == old(reg)@[k].created_at && opt_string_view(rec.description)
                == updated_field(opt_string_view(old(reg)@[k].description), opt_view(description))
                && opt_string_view(rec.branch) == updated_field(
                opt_string_view(old(reg)@[k].branch),
                opt_view(branch),
            ) && rec.updated_at@ == now@),
        res matches Ok(rec) ==> forall|k: int|
            #![trigger first_named(old(reg)@, name@, k)]
            first_named(old(reg)@, name@, k) ==> {
                &&& description is None ==> opt_string_view(rec.description) == opt_string_view(
                    old(reg)@[k].description,
                )
                &&& branch is None ==> opt_string_view(rec.branch) == opt_string_view(old(reg)@[k].branch)
                &&& description matches Some(d) ==> opt_string_view(rec.description) == if d@.len() == 0 {
                    None
                } else {
                    Some(d@)
                }
                &&& branch matches Some(b) ==> opt_string_view(rec.branch) == if b@.len() == 0 {
                    None
                } else {
                    Some(b@)
                }
            },
{
    match position(reg.as_slice(), name) {
        None => Err(KronError::NotFound(join(project_root, "kron-internal/vertices.json"))),
        Some(k) => {
            assert forall|k2: int| first_named(old(reg)@, name@, k2) implies k2 == k by {
                if k2 < k {
                    assert(old(reg)@[k2].name@ == name@);
                } else if k2 > k {
                    assert(old(reg)@[k as int].name@ == name@);
                }
            }
            let cur = reg[k].duplicate();
            let rec = VertexRecord {
                name: cur.name,
                path: cur.path,
                description: update_field(&reg[k].description, description),
                branch: update_field(&reg[k].branch, branch),
                created_at: cur.created_at,
                updated_at: owned(now),
            };
            reg.set(k, rec.duplicate());
            Ok(rec)
        },
    }
}

/// The refusal to delete an unknown vertex.
pub open spec fn not_found_message(name: Seq<char>) -> Seq<char> {
    "vertex '"@ + name + "' not found"@
}

/// Remove the first vertex named `name` from the registry and return it
/// (the caller may then remove its directory and state index).
pub fn delete(reg: &mut Vec<VertexRecord>, name: &str) -> (res: Result<VertexRecord>)
    ensures
        !has_name(old(reg)@, name@) ==> (res matches Err(KronError::Cli(m)) && m@
            == not_found_message(name@) && final(reg)@ == old(reg)@),
        has_name(old(reg)@, name@) ==> (res matches Ok(rec) && exists|k: int|
            first_named(old(reg)@, name@, k) && rec == old(reg)@[k] && final(reg)@ == old(
                reg,
            )@.remove(k)),
{
    match position(reg.as_slice(), name) {
        None => Err(KronError::Cli(concat3("vertex '", name, "' not found"))),
        Some(k) => {
            let rec = reg.remove(k);
            Ok(rec)
        },
    }
}

/// After a successful `create`, looking the name up finds the new record,
/// and a registry without duplicate names stays without duplicates.
pub proof fn lemma_create_then_find(reg: Seq<VertexRecord>, rec: VertexRecord)
    requires
        !has_name(reg, rec.name@),
    ensures
        first_named(reg.push(rec), rec.name@, reg.len() as int),
        unique_names(reg) ==> unique_names(reg.push(rec)),
{
    let r = reg.push(rec);
    assert forall|j: int| 0 <= j < reg.len() implies r[j].name@ != rec.name@ by {
        assert(r[j] == reg[j]);
    }
}

/// In a registry without duplicate names, a deleted vertex can no longer
/// be found, and every other vertex still can.
pub proof fn lemma_delete_then_find(reg: Seq<VertexRecord>, k: int, other: Seq<char>)
    requires
        unique_names(reg),
        0 <= k < reg.len(),
    ensures
        !has_name(reg.remove(k), reg[k].name@),
        unique_names(reg.remove(k)),
        other != reg[k].name@ ==> (has_name(reg.remove(k), other) <==> has_name(reg, other)),
{
    let r = reg.remove(k);
    assert forall|j: int| 0 <= j < r.len() implies r[j].name@ != reg[k].name@ by {
        if j < k {
            assert(r[j] == reg[j]);
        } else {
            assert(r[j] == reg[j + 1]);
        }
    }
    assert forall|i: int, j: int| 0 <= i < j < r.len() implies r[i].name@ != r[j].name@ by {
        let i2 = if i < k { i } else { i + 1 };
        let j2 = if j < k { j } else { j + 1 };
        assert(r[i] == reg[i2] && r[j] == reg[j2]);
    }
    if other != reg[k].name@ {
        if has_name(reg, other) {
            let m = choose|m: int| 0 <= m < reg.len() && reg[m].name@ == other;
            if m < k {
                assert(r[m] == reg[m]);
            } else {
                assert(m != k);
                assert(r[m - 1] == reg[m]);
            }
        }
        if has_name(r, other) {
            let m = choose|m: int| 0 <= m < r.len() && r[m].name@ == other;
            if m < k {
                assert(r[m] == reg[m]);
            } else {
                assert(r[m] == reg[m + 1]);
            }
        }
    }
}

/// Updating a vertex never renames, moves or reorders vertices.
pub proof fn lemma_update_keeps_names(reg: Seq<VertexRecord>, k: int, rec: VertexRecord)
    requires
        0 <= k < reg.len(),
        rec.name == reg[k].name,
    ensures
        names(reg.update(k, rec)) == names(reg),
{
    assert(names(reg.update(k, rec)) =~= names(reg));
}

/// Updating a field: an absent new value keeps the field as it was, an
/// empty one clears it, and any other value replaces it.
pub proof fn lemma_update_field_laws(old_value: Option<Seq<char>>, d: Seq<char>)
    ensures
        updated_field(old_value, None) == old_value,
        d.len() == 0 ==> updated_field(old_value, Some(d)) is None,
        d.len() > 0 ==> updated_field(old_value, Some(d)) == Some(d),
{
}

} // verus!
