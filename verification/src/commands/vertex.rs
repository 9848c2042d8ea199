//! `kron vertex`: listing marks, orphan directories, the delete guard and
//! the `use` sub-command's choice of action.

use vstd::prelude::*;
use crate::domain::vertex::{names, VertexRecord};
use crate::error::{KronError, Result};
use crate::text::{decimal_str, fmt_u32, owned, sort_seqs, sort_strings, str_eq, views};

verus! {

/// The directory names that no record registers, in the order given.
pub open spec fn unregistered(reg: Seq<VertexRecord>, dirs: Seq<Seq<char>>) -> Seq<Seq<char>>
    decreases dirs.len(),
{
    if dirs.len() == 0 {
        Seq::empty()
    } else {
        let rest = unregistered(reg, dirs.drop_last());
        if names(reg).contains(dirs.last()) {
            rest
        } else {
            rest.push(dirs.last())
        }
    }
}

fn is_registered(reg: &[VertexRecord], name: &str) -> (res: bool)
    ensures
        res == names(reg@).contains(name@),
{
    let mut i: usize = 0;
    while i < reg.len()
        invariant
            i <= reg@.len(),
            forall|k: int| 0 <= k < i ==> reg@[k].name@ != name@,
        decreases reg@.len() - i,
    {
        if str_eq(reg[i].name.as_str(), name) {
            assert(names(reg@)[i as int] == name@);
            return true;
        }
        i = i + 1;
    }
    proof {
        if names(reg@).contains(name@) {
            let k = choose|k: int| 0 <= k < names(reg@).len() && names(reg@)[k] == name@;
            assert(reg@[k].name@ == name@);
        }
    }
    false
}

/// Directories under `KRON/VERTEX/` that are not registered vertices,
/// sorted. Listing them never registers them.
pub fn orphan_dirs(reg: &[VertexRecord], dirs: &[String]) -> (res: Vec<String>)
    ensures
        views(res@) == sort_seqs(unregistered(reg@, views(dirs@))),
{
    let mut out: Vec<String> = Vec::new();
    let mut i: usize = 0;
    while i < dirs.len()
        invariant
            i <= dirs@.len(),
            views(out@) == unregistered(reg@, views(dirs@.take(i as int))),
        decreases dirs@.len() - i,
    {
        proof {
            assert(views(dirs@.take(i + 1)).drop_last() =~= views(dirs@.take(i as int)));
            assert(views(dirs@.take(i + 1)).last() == dirs@[i as int]@);
        }
        if !is_registered(reg, dirs[i].as_str()) {
            let ghost before = views(out@);
            out.push(dirs[i].clone());
            assert(views(out@) =~= before.push(dirs@[i as int]@));
        }
        i = i + 1;
    }
    assert(dirs@.take(dirs@.len() as int) =~= dirs@);
    sort_strings(out)
}

/// `*` marks the current vertex in listings.
pub open spec fn marker_of(current: Option<&str>, name: Seq<char>) -> Seq<char> {
    if current matches Some(c) && c@ == name {
        "*"@
    } else {
        ""@
    }
}

pub fn list_marker(current: Option<&str>, name: &str) -> (res: &'static str)
    ensures
        res@ == marker_of(current, name@),
{
    match current {
        Some(c) => if str_eq(c, name) {
            "*"
        } else {
            ""
        },
        None => "",
    }
}

pub open spec fn or_dash(o: Option<String>) -> Seq<char> {
    match o {
        Some(s) => s@,
        None => "-"@,
    }
}

/// The porcelain line of one vertex with `tasks` task files:
/// `marker, name, path, tasks, branch, description`, tab-separated, with
/// `-` for a missing branch or description.
pub fn porcelain_line(current: Option<&str>, v: &VertexRecord, tasks: u32) -> (res: String)
    ensures
        res@ == marker_of(current, v.name@) + "\t"@ + v.name@ + "\t"@ + v.path@ + "\t"@ + decimal_str(
            tasks as nat,
        ) + "\t"@ + or_dash(v.branch) + "\t"@ + or_dash(v.description),
{
    let mut m = owned(list_marker(current, v.name.as_str()));
    m.append("\t");
    m.append(v.name.as_str());
    m.append("\t");
    m.append(v.path.as_str());
    m.append("\t");
    let n = fmt_u32(tasks);
    m.append(n.as_str());
    m.append("\t");
    match &v.branch {
        Some(b) => m.append(b.as_str()),
        None => m.append("-"),
    }
    m.append("\t");
    match &v.description {
        Some(d) => m.append(d.as_str()),
        None => m.append("-"),
    }
    m
}

/// Deleting a registered vertex needs `--force`; `tasks` is its number of
/// task files when it is registered (`None` when it is not, and nothing is
/// checked then).
pub fn delete_check(name: &str, force: bool, also_remove_dir: bool, tasks: Option<u32>) -> (res: Result<()>)
    ensures
        (force || tasks is None) <==> res is Ok,
        !force ==> (tasks matches Some(n) ==> (res matches Err(KronError::Cli(m)) && m@ == if n > 0
            && !also_remove_dir {
            "vertex '"@ + name@ + "' has "@ + decimal_str(n as nat)
                + " task(s); use --force --also-remove-dir to delete"@
        } else {
            "delete vertex '"@ + name@ + "' requires --force"@
        })),
{
    if force {
        return Ok(());
    }
    match tasks {
        None => Ok(()),
        Some(n) => {
            if n > 0 && !also_remove_dir {
                let mut m = owned("vertex '");
                m.append(name);
                m.append("' has ");
                let k = fmt_u32(n);
                m.append(k.as_str());
                m.append(" task(s); use --force --also-remove-dir to delete");
                Err(KronError::Cli(m))
            } else {
                let mut m = owned("delete vertex '");
                m.append(name);
                m.append("' requires --force");
                Err(KronError::Cli(m))
            }
        },
    }
}

/// Deleting the vertex the current pointer names leaves the pointer
/// orphaned (it is not cleared).
pub fn pointer_orphaned(current: Option<&str>, name: &str) -> (res: bool)
    ensures
        res == (current matches Some(c) && c@ == name@),
{
    match current {
        Some(c) => str_eq(c, name),
        None => false,
    }
}

/// What `vertex use` does.
#[derive(Debug, Clone, Copy, PartialEq, Eq, Structural)]
pub enum UseAction {
    /// `--unset`: clear the pointer.
    Clear,
    /// No argument: show the pointer.
    Show,
    /// A name: point at it (once it is known to be registered).
    Point,
}

/// `vertex use [name] [--unset]`: a name and `--unset` together are refused.
pub fn use_action(name: Option<&str>, unset: bool) -> (res: Result<UseAction>)
    ensures
        unset && name is Some ==> (res matches Err(KronError::Cli(m)) && m@
            == "`vertex use` cannot combine a name with --unset"@),
        unset && name is None ==> res == Ok::<UseAction, KronError>(UseAction::Clear),
        !unset && name is None ==> res == Ok::<UseAction, KronError>(UseAction::Show),
        !unset && name is Some ==> res == Ok::<UseAction, KronError>(UseAction::Point),
{
    if unset && name.is_some() {
        return Err(KronError::Cli(owned("`vertex use` cannot combine a name with --unset")));
    }
    if unset {
        Ok(UseAction::Clear)
    } else if name.is_none() {
        Ok(UseAction::Show)
    } else {
        Ok(UseAction::Point)
    }
}

} // verus!
