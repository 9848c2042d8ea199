//! Workspace initialisation (`kron init`).
//!
//! Layout created under the project root:
//!
//! ```text
//! kron-internal/            config.json, vertices.json, important/
//! KRON/                     README.md, important/, VERTEX/ (unless --no-vertex)
//! ```
//!
//! `prepare` decides whether init may proceed; `plan_layout` decides, from
//! what already exists, which directories and files to create and what to
//! report as created or skipped. Existing files are never overwritten.

use vstd::prelude::*;
use crate::error::{KronError, Result};
use crate::model::{LinkMode, Project};
use crate::paths::{join, join_spec};
use crate::text::{owned, views};

verus! {

/// What `prepare` found.
#[derive(Debug, Clone, PartialEq)]
pub struct Prepare {
    pub project_root: String,
    pub kron_dir: String,
    pub kron_dir_exists: bool,
    pub is_git: bool,
}

/// Inspect the target directory and decide whether init can proceed.
/// `exists` / `is_dir` describe the root, `kron_dir_exists` its
/// `kron-internal/`, `git_exists` its `.git`.
pub fn prepare(
    project_root: &str,
    exists: bool,
    is_dir: bool,
    kron_dir_exists: bool,
    git_exists: bool,
    no_git: bool,
) -> (res: Result<Prepare>)
    ensures
        !exists ==> (res matches Err(KronError::NotFound(p)) && p@ == project_root@),
        exists && !is_dir ==> (res matches Err(KronError::NotAProject(p)) && p@ == project_root@),
        exists && is_dir && !git_exists && !no_git ==> (res matches Err(KronError::NotGitRepo(p))
            && p@ == project_root@),
        exists && is_dir && (git_exists || no_git) ==> (res matches Ok(prep) && prep.project_root@
            == project_root@ && prep.kron_dir@ == join_spec(project_root@, "kron-internal"@)
            && prep.kron_dir_exists == kron_dir_exists && prep.is_git == git_exists),
{
    if !exists {
        return Err(KronError::NotFound(owned(project_root)));
    }
    if !is_dir {
        return Err(KronError::NotAProject(owned(project_root)));
    }
    if !git_exists && !no_git {
        return Err(KronError::NotGitRepo(owned(project_root)));
    }
    Ok(Prepare {
        project_root: owned(project_root),
        kron_dir: join(project_root, "kron-internal"),
        kron_dir_exists,
        is_git: git_exists,
    })
}

/// What already exists of the layout.
#[derive(Debug, Clone, Copy, PartialEq, Eq)]
pub struct LayoutProbe {
    pub kron_dir: bool,
    pub config: bool,
    pub vertices: bool,
    pub kron_public: bool,
    pub readme: bool,
    pub public_important: bool,
    pub internal_important: bool,
    pub public_vertex: bool,
}

/// What to create.
#[derive(Debug, Clone, Copy, PartialEq, Eq, Structural)]
pub enum StepKind {
    /// A directory (with its parents).
    Dir,
    /// `config.json`: the serialised `Project`.
    Config,
    /// `vertices.json`: an empty registry.
    Vertices,
    /// `KRON/README.md`: `README_TEXT`.
    Readme,
}

/// One thing to create.
#[derive(Debug, Clone, PartialEq)]
pub struct LayoutStep {
    pub kind: StepKind,
    pub path: String,
}

/// The text of `KRON/README.md`.
pub const README_TEXT: &'static str = "# KRON\n\nProject-side mirror of Kron state.\n\n- `VERTEX/<name>/` — one folder per vertex\n- `important/` — important files registry\n- `.kron-context/` — AI-friendly summary (auto-generated)\n";

/// The plan for `kron init`.
#[derive(Debug, Clone)]
pub struct InitPlan {
    pub steps: Vec<LayoutStep>,
    pub created: Vec<String>,
    pub skipped: Vec<String>,
    pub link_mode: LinkMode,
    pub no_vertex: bool,
}

/// What `kron init` did, for status reporting.
#[derive(Debug, Clone)]
pub struct InitOutcome {
    pub project: Project,
    pub link_mode: LinkMode,
    pub no_vertex: bool,
    pub created: Vec<String>,
    pub skipped: Vec<String>,
}

/// One item of the layout: its report label, its path, what it is and
/// whether it is already there.
pub struct LayoutItem {
    pub label: String,
    pub path: String,
    pub kind: StepKind,
    pub present: bool,
}

/// The layout items in creation order (labels, paths, kinds, presence).
pub open spec fn items_spec(root: Seq<char>, kron_dir: Seq<char>, p: LayoutProbe, no_vertex: bool) -> Seq<
    (Seq<char>, Seq<char>, StepKind, bool),
> {
    let public = join_spec(root, "KRON"@);
    seq![
        ("kron-internal/"@, kron_dir, StepKind::Dir, p.kron_dir),
        (join_spec(kron_dir, "config.json"@), join_spec(kron_dir, "config.json"@), StepKind::Config, p.config),
        (join_spec(kron_dir, "vertices.json"@), join_spec(kron_dir, "vertices.json"@), StepKind::Vertices, p.vertices),
        ("KRON/"@, public, StepKind::Dir, p.kron_public),
        (join_spec(public, "README.md"@), join_spec(public, "README.md"@), StepKind::Readme, p.readme),
        ("KRON/important/"@, join_spec(public, "important"@), StepKind::Dir, p.public_important),
        ("kron-internal/important/"@, join_spec(kron_dir, "important"@), StepKind::Dir, p.internal_important),
        (if no_vertex { "KRON/VERTEX/ (--no-vertex)"@ } else { "KRON/VERTEX/"@ }, join_spec(public, "VERTEX"@), StepKind::Dir, no_vertex || p.public_vertex),
    ]
}

/// Labels of the items that are created.
pub open spec fn created_spec(items: Seq<(Seq<char>, Seq<char>, StepKind, bool)>) -> Seq<Seq<char>>
    decreases items.len(),
{
    if items.len() == 0 {
        Seq::empty()
    } else if items.last().3 {
        created_spec(items.drop_last())
    } else {
        created_spec(items.drop_last()).push(items.last().0)
    }
}

/// Labels of the items that are skipped.
pub open spec fn skipped_spec(items: Seq<(Seq<char>, Seq<char>, StepKind, bool)>) -> Seq<Seq<char>>
    decreases items.len(),
{
    if items.len() == 0 {
        Seq::empty()
    } else if items.last().3 {
        skipped_spec(items.drop_last()).push(items.last().0)
    } else {
        skipped_spec(items.drop_last())
    }
}

/// The steps: kind and path of each item that is created.
pub open spec fn steps_spec(items: Seq<(Seq<char>, Seq<char>, StepKind, bool)>) -> Seq<(StepKind, Seq<char>)>
    decreases items.len(),
{
    if items.len() == 0 {
        Seq::empty()
    } else if items.last().3 {
        steps_spec(items.drop_last())
    } else {
        steps_spec(items.drop_last()).push((items.last().2, items.last().1))
    }
}

pub open spec fn step_views(s: Seq<LayoutStep>) -> Seq<(StepKind, Seq<char>)> {
    s.map_values(|x: LayoutStep| (x.kind, x.path@))
}

fn item(label: String, path: String, kind: StepKind, present: bool) -> (res: LayoutItem)
    ensures
        res.label == label,
        res.path == path,
        res.kind == kind,
        res.present == present,
{
    LayoutItem { label, path, kind, present }
}

/// Decide what `kron init` creates. `link_mode` is the mode after the
/// platform fallback.
pub fn plan_layout(prep: &Prepare, no_vertex: bool, link_mode: LinkMode, probe: LayoutProbe) -> (res:
    InitPlan)
    ensures
        views(res.created@) == created_spec(
            items_spec(prep.project_root@, prep.kron_dir@, probe, no_vertex),
        ),
        views(res.skipped@) == skipped_spec(
            items_spec(prep.project_root@, prep.kron_dir@, probe, no_vertex),
        ),
        step_views(res.steps@) == steps_spec(
            items_spec(prep.project_root@, prep.kron_dir@, probe, no_vertex),
        ),
        res.link_mode == link_mode,
        res.no_vertex == no_vertex,
{
    let root = prep.project_root.as_str();
    let kd = prep.kron_dir.as_str();
    let public = join(root, "KRON");
    let mut items: Vec<LayoutItem> = Vec::new();
    items.push(item(owned("kron-internal/"), owned(kd), StepKind::Dir, probe.kron_dir));
    items.push(item(join(kd, "config.json"), join(kd, "config.json"), StepKind::Config, probe.config));
    items.push(item(join(kd, "vertices.json"), join(kd, "vertices.json"), StepKind::Vertices, probe.vertices));
    items.push(item(owned("KRON/"), public.clone(), StepKind::Dir, probe.kron_public));
    items.push(item(join(public.as_str(), "README.md"), join(public.as_str(), "README.md"), StepKind::Readme, probe.readme));
    items.push(item(owned("KRON/important/"), join(public.as_str(), "important"), StepKind::Dir, probe.public_important));
    items.push(item(owned("kron-internal/important/"), join(kd, "important"), StepKind::Dir, probe.internal_important));
    let vlabel = if no_vertex {
        owned("KRON/VERTEX/ (--no-vertex)")
    } else {
        owned("KRON/VERTEX/")
    };
    items.push(item(vlabel, join(public.as_str(), "VERTEX"), StepKind::Dir, no_vertex || probe.public_vertex));
    let ghost spec_items = items_spec(prep.project_root@, prep.kron_dir@, probe, no_vertex);
    let ghost iv = items@.map_values(|x: LayoutItem| (x.label@, x.path@, x.kind, x.present));
    assert(iv =~= spec_items);
    let mut created: Vec<String> = Vec::new();
    let mut skipped: Vec<String> = Vec::new();
    let mut steps: Vec<LayoutStep> = Vec::new();
    let mut i: usize = 0;
    while i < items.len()
        invariant
            i <= items@.len(),
            iv == items@.map_values(|x: LayoutItem| (x.label@, x.path@, x.kind, x.present)),
            views(created@) == created_spec(iv.take(i as int)),
            views(skipped@) == skipped_spec(iv.take(i as int)),
            step_views(steps@) == steps_spec(iv.take(i as int)),
        decreases items@.len() - i,
    {
        let it = &items[i];
        let ghost c0 = views(created@);
        let ghost s0 = views(skipped@);
        let ghost t0 = step_views(steps@);
        proof {
            assert(iv.take(i + 1).drop_last() =~= iv.take(i as int));
            assert(iv.take(i + 1).last() == iv[i as int]);
        }
        if it.present {
            skipped.push(it.label.clone());
            assert(views(skipped@) =~= s0.push(it.label@));
        } else {
            created.push(it.label.clone());
            steps.push(LayoutStep { kind: it.kind, path: it.path.clone() });
            assert(views(created@) =~= c0.push(it.label@));
            assert(step_views(steps@) =~= t0.push((it.kind, it.path@)));
        }
        i = i + 1;
    }
    assert(iv.take(items@.len() as int) =~= iv);
    InitPlan { steps, created, skipped, link_mode, no_vertex }
}

/// Existing files are never overwritten: every step of the plan is for an
/// item that was absent, and every absent item gets a step; the plan has as
/// many steps as created labels, and every item is either created or
/// skipped. When every item is present, nothing is created and every item
/// is skipped.
pub proof fn lemma_plan_only_creates_missing(items: Seq<(Seq<char>, Seq<char>, StepKind, bool)>)
    ensures
        forall|k: int| 0 <= k < steps_spec(items).len() ==> exists|i: int|
            0 <= i < items.len() && !items[i].3 && #[trigger] steps_spec(items)[k] == (items[i].2, items[i].1),
        forall|i: int| 0 <= i < items.len() && !(#[trigger] items[i]).3 ==> exists|k: int|
            0 <= k < steps_spec(items).len() && steps_spec(items)[k] == (items[i].2, items[i].1),
        steps_spec(items).len() == created_spec(items).len(),
        created_spec(items).len() + skipped_spec(items).len() == items.len(),
        (forall|i: int| 0 <= i < items.len() ==> (#[trigger] items[i]).3) ==> steps_spec(items).len() == 0
            && created_spec(items).len() == 0 && skipped_spec(items) == items.map_values(
            |x: (Seq<char>, Seq<char>, StepKind, bool)| x.0,
        ),
    decreases items.len(),
{
    if items.len() > 0 {
        let t = items.drop_last();
        lemma_plan_only_creates_missing(t);
        let st = steps_spec(items);
        let sp = steps_spec(t);
        assert forall|k: int| 0 <= k < st.len() implies exists|i: int|
            0 <= i < items.len() && !items[i].3 && #[trigger] st[k] == (items[i].2, items[i].1) by {
            if k < sp.len() {
                assert(st[k] == sp[k]);
                let i = choose|i: int| 0 <= i < t.len() && !t[i].3 && sp[k] == (t[i].2, t[i].1);
                assert(items[i] == t[i]);
            } else {
                assert(items[items.len() - 1] == items.last());
            }
        }
        assert forall|i: int| 0 <= i < items.len() && !(#[trigger] items[i]).3 implies exists|k: int|
            0 <= k < st.len() && st[k] == (items[i].2, items[i].1) by {
            if i < t.len() {
                assert(items[i] == t[i]);
                let k = choose|k: int| 0 <= k < sp.len() && sp[k] == (t[i].2, t[i].1);
                assert(st[k] == sp[k]);
            } else {
                assert(st[st.len() - 1] == (items[i].2, items[i].1));
            }
        }
        if forall|i: int| 0 <= i < items.len() ==> (#[trigger] items[i]).3 {
            assert forall|i: int| 0 <= i < t.len() implies (#[trigger] t[i]).3 by {
                assert(t[i] == items[i]);
            }
            assert(items.last() == items[items.len() - 1]);
            assert(skipped_spec(items) =~= items.map_values(|x: (Seq<char>, Seq<char>, StepKind, bool)| x.0));
        }
    }
}

/// Running `kron init` again on a complete layout creates nothing: when the
/// probe finds every item present, the plan has no step and no created
/// label, and lists every item as skipped.
pub proof fn lemma_init_again_creates_nothing(root: Seq<char>, kron_dir: Seq<char>, p: LayoutProbe, no_vertex: bool)
    requires
        p.kron_dir && p.config && p.vertices && p.kron_public && p.readme && p.public_important
            && p.internal_important && p.public_vertex,
    ensures
        steps_spec(items_spec(root, kron_dir, p, no_vertex)).len() == 0,
        created_spec(items_spec(root, kron_dir, p, no_vertex)).len() == 0,
        skipped_spec(items_spec(root, kron_dir, p, no_vertex)).len() == 8,
{
    let items = items_spec(root, kron_dir, p, no_vertex);
    assert forall|i: int| 0 <= i < items.len() implies (#[trigger] items[i]).3 by {}
    lemma_plan_only_creates_missing(items);
}

} // verus!
