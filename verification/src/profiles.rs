use vstd::prelude::*;
use vstd::string::*;

use crate::status::{CompilerStateManager, StatusView};
use crate::text::{remove_all, remove_all_spec};

verus! {

/// Which profile crate is generated for a package.
#[derive(Debug, Clone, Copy, PartialEq, Eq, Structural)]
pub enum ProfileKind {
    /// Built from the package's `editor` folder into `editor/editor_profiles`.
    Editor,
    /// Built from the package's `runtime` folder into `engine/engine_profiles`.
    Engine,
}

impl ProfileKind {
    /// The folder under which the profile crates of this kind are written.
    pub fn profiles_dir(self) -> (r: &'static str)
        ensures
            r@ == match self {
                ProfileKind::Editor => "editor/editor_profiles"@,
                ProfileKind::Engine => "engine/engine_profiles"@,
            },
    {
        match self {
            ProfileKind::Editor => "editor/editor_profiles",
            ProfileKind::Engine => "engine/engine_profiles",
        }
    }

    /// The folder of a package that this kind of profile depends on.
    pub fn source_dir(self) -> (r: &'static str)
        ensures
            r@ == match self {
                ProfileKind::Editor => "editor"@,
                ProfileKind::Engine => "runtime"@,
            },
    {
        match self {
            ProfileKind::Editor => "editor",
            ProfileKind::Engine => "runtime",
        }
    }

    /// The word in the profile crate's name.
    pub open spec fn crate_word(self) -> Seq<char> {
        match self {
            ProfileKind::Editor => "editor"@,
            ProfileKind::Engine => "engine"@,
        }
    }

    /// The suffix of the package crate that the profile depends on.
    pub open spec fn dependency_suffix(self) -> Seq<char> {
        match self {
            ProfileKind::Editor => "_editor"@,
            ProfileKind::Engine => "_runtime"@,
        }
    }
}

/// The Windows verbatim marker that is taken out of canonical paths.
pub open spec fn verbatim_marker() -> Seq<char> {
    "\\\\?\\"@
}

/// The `Cargo.toml` of a profile crate for `package_id`, whose dependency
/// points at `source_path` (the canonical path of the package's folder)
/// with every verbatim marker taken out.
pub open spec fn profile_manifest_spec(kind: ProfileKind, package_id: Seq<char>, source_path: Seq<char>) -> Seq<char> {
    "[package]\nname = \"profile_"@ + kind.crate_word() + "_"@ + package_id
        + "\"\nversion = \"0.1.0\"\nedition = \"2024\"\n\n[dependencies]\n"@ + package_id
        + kind.dependency_suffix() + " = { path = \""@ + remove_all_spec(source_path, verbatim_marker())
        + "\" }"@
}

/// Writes the `Cargo.toml` text of a profile crate.
pub fn profile_manifest(kind: ProfileKind, package_id: &str, source_path: &str) -> (r: String)
    ensures
        r@ == profile_manifest_spec(kind, package_id@, source_path@),
{
    let (word, suffix) = match kind {
        ProfileKind::Editor => ("editor", "_editor"),
        ProfileKind::Engine => ("engine", "_runtime"),
    };
    let path = remove_all(source_path, "\\\\?\\");
    String::from_str("[package]\nname = \"profile_").concat(word).concat("_").concat(package_id).concat(
        "\"\nversion = \"0.1.0\"\nedition = \"2024\"\n\n[dependencies]\n",
    ).concat(package_id).concat(suffix).concat(" = { path = \"").concat(path.as_str()).concat("\" }")
}

/// What the reloader learned of one entry of the packages folder.
pub struct PackageDirEntry {
    /// The entry's file name.
    pub name: String,
    /// The entry is a folder.
    pub is_dir: bool,
    /// The folder holds a `package.json`.
    pub has_manifest: bool,
    /// The folder holds an `editor` folder.
    pub has_editor: bool,
    /// The folder holds a `runtime` folder.
    pub has_runtime: bool,
}

/// One package to generate profiles for, in the order of the sync.
pub struct ProfileStep {
    /// The package's folder name.
    pub package_id: String,
    /// Its position among the packages found, counting from 1.
    pub position: usize,
    /// An editor profile is to be written.
    pub editor: bool,
    /// An engine profile is to be written.
    pub runtime: bool,
}

/// The abstract value of a `PackageDirEntry`.
pub open spec fn entry_view(e: PackageDirEntry) -> (Seq<char>, bool, bool, bool, bool) {
    (e.name@, e.is_dir, e.has_manifest, e.has_editor, e.has_runtime)
}

/// The abstract value of a `ProfileStep`.
pub open spec fn step_view(s: ProfileStep) -> (Seq<char>, nat, bool, bool) {
    (s.package_id@, s.position as nat, s.editor, s.runtime)
}

/// An entry is a package when it is a folder holding a `package.json`.
pub open spec fn is_package(e: (Seq<char>, bool, bool, bool, bool)) -> bool {
    e.1 && e.2
}

/// The steps of a sync over `entries`: one per package, in the order of the
/// entries, numbered from 1.
pub open spec fn sync_plan(entries: Seq<(Seq<char>, bool, bool, bool, bool)>) -> Seq<(Seq<char>, nat, bool, bool)>
    decreases entries.len(),
{
    if entries.len() == 0 {
        Seq::empty()
    } else {
        let before = sync_plan(entries.drop_last());
        let e = entries.last();
        if is_package(e) {
            before.push((e.0, before.len() + 1, e.3, e.4))
        } else {
            before
        }
    }
}

/// A sync visits the packages in the order of the entries and numbers them
/// 1, 2, 3, ... with no gaps; there are never more steps than entries, and
/// each step is a package entry with its editor and runtime flags.
pub proof fn law_sync_positions_count_up(entries: Seq<(Seq<char>, bool, bool, bool, bool)>)
    ensures
        sync_plan(entries).len() <= entries.len(),
        forall|k: int| 0 <= k < sync_plan(entries).len() ==> #[trigger] sync_plan(entries)[k].1 == k + 1,
        forall|k: int| 0 <= k < sync_plan(entries).len() ==> exists|j: int| 0 <= j < entries.len() && is_package(entries[j])
            && #[trigger] sync_plan(entries)[k] == (entries[j].0, (k + 1) as nat, entries[j].3, entries[j].4),
    decreases entries.len(),
{
    if entries.len() > 0 {
        let d = entries.drop_last();
        law_sync_positions_count_up(d);
        let p = sync_plan(d);
        assert forall|k: int| 0 <= k < sync_plan(entries).len() implies exists|j: int|
            0 <= j < entries.len() && is_package(entries[j]) && #[trigger] sync_plan(entries)[k] == (
            entries[j].0,
            (k + 1) as nat,
            entries[j].3,
            entries[j].4,
        ) by {
            if k < p.len() {
                let j = choose|j: int| 0 <= j < d.len() && is_package(d[j]) && p[k] == (d[j].0, (k + 1) as nat, d[j].3, d[j].4);
                assert(entries[j] == d[j]);
            } else {
                let j = entries.len() - 1;
                assert(entries[j] == entries.last());
            }
        }
    }
}

/// Generates the profile crates of the packages under one folder.
pub struct PackageReloader {
    packages_root: String,
}

impl PackageReloader {
    /// A reloader for the packages under `packages_root`.
    pub fn new(packages_root: &str) -> (r: Self)
        ensures
            r.root() == packages_root@,
    {
        PackageReloader { packages_root: String::from_str(packages_root) }
    }

    /// The folder that holds the packages.
    pub closed spec fn root(&self) -> Seq<char> {
        self.packages_root@
    }

    /// The folder that holds the packages.
    pub fn packages_root(&self) -> (r: &str)
        ensures
            r@ == self.root(),
    {
        self.packages_root.as_str()
    }

    /// The packages among `entries` and the profiles each one needs.
    pub fn plan_profiles(&self, entries: &Vec<PackageDirEntry>) -> (r: Vec<ProfileStep>)
        ensures
            r@.map_values(|s: ProfileStep| step_view(s)) == sync_plan(
                entries@.map_values(|e: PackageDirEntry| entry_view(e)),
            ),
    {
        let ghost ev = entries@.map_values(|e: PackageDirEntry| entry_view(e));
        let mut steps: Vec<ProfileStep> = Vec::new();
        let mut count: usize = 0;
        let n = entries.len();
        let mut i: usize = 0;
        assert(ev.take(0) =~= Seq::<(Seq<char>, bool, bool, bool, bool)>::empty());
        assert(steps@.map_values(|s: ProfileStep| step_view(s)) =~= sync_plan(ev.take(0)));
        while i < n
            invariant
                n == entries@.len(),
                ev == entries@.map_values(|e: PackageDirEntry| entry_view(e)),
                i <= n,
                count == steps@.len(),
                count <= i,
                steps@.map_values(|s: ProfileStep| step_view(s)) == sync_plan(ev.take(i as int)),
            decreases n - i,
        {
            let e = &entries[i];
            proof {
                assert(ev.take(i + 1).drop_last() =~= ev.take(i as int));
                assert(ev.take(i + 1).last() == entry_view(*e));
            }
            let ghost before = steps@.map_values(|s: ProfileStep| step_view(s));
            if e.is_dir && e.has_manifest {
                count = count + 1;
                let step = ProfileStep {
                    package_id: e.name.clone(),
                    position: count,
                    editor: e.has_editor,
                    runtime: e.has_runtime,
                };
                steps.push(step);
                assert(steps@.map_values(|s: ProfileStep| step_view(s)) =~= before.push(step_view(step)));
            }
            assert(steps@.map_values(|s: ProfileStep| step_view(s)) =~= sync_plan(ev.take(i + 1)));
            i = i + 1;
        }
        assert(ev.take(n as int) =~= ev);
        steps
    }
}

/// The profiles to write for a package with the given halves, editor first.
pub open spec fn step_kinds(editor: bool, runtime: bool) -> Seq<ProfileKind> {
    (if editor {
        seq![ProfileKind::Editor]
    } else {
        Seq::empty()
    }) + (if runtime {
        seq![ProfileKind::Engine]
    } else {
        Seq::empty()
    })
}

/// A package gets an editor profile exactly when it has an editor folder
/// and an engine profile exactly when it has a runtime folder, one of each
/// at most, the editor one first.
pub proof fn law_step_kinds_follow_folders(editor: bool, runtime: bool)
    ensures
        step_kinds(editor, runtime).contains(ProfileKind::Editor) <==> editor,
        step_kinds(editor, runtime).contains(ProfileKind::Engine) <==> runtime,
        step_kinds(editor, runtime).len() == (if editor { 1int } else { 0 }) + (if runtime { 1int } else { 0 }),
        editor && runtime ==> step_kinds(editor, runtime) == seq![ProfileKind::Editor, ProfileKind::Engine],
{
    let k = step_kinds(editor, runtime);
    if editor {
        assert(k[0] == ProfileKind::Editor);
    }
    if runtime {
        assert(k[k.len() - 1] == ProfileKind::Engine);
    }
    assert(k =~= (if editor { seq![ProfileKind::Editor] } else { Seq::empty() }) + (if runtime {
        seq![ProfileKind::Engine]
    } else {
        Seq::empty()
    }));
}

/// A sync under way: the plan, and how many of its steps have begun.
pub struct ProfileSync {
    plan: Vec<ProfileStep>,
    next: usize,
}

impl ProfileSync {
    /// The steps of the sync.
    pub closed spec fn steps(&self) -> Seq<(Seq<char>, nat, bool, bool)> {
        self.plan@.map_values(|s: ProfileStep| step_view(s))
    }

    /// How many steps have begun.
    pub closed spec fn begun(&self) -> nat {
        self.next as nat
    }

    /// A sync that will go through `plan` in order.
    pub fn new(plan: Vec<ProfileStep>) -> (r: Self)
        ensures
            r.steps() == plan@.map_values(|s: ProfileStep| step_view(s)),
            r.begun() == 0,
    {
        ProfileSync { plan, next: 0 }
    }

    /// Moves the sync on. While steps are left, begins the next one: shows
    /// its package as being compiled, at its position, and returns the
    /// package and the profiles to write for it, editor first. Once every
    /// step has begun (and so every write of the earlier ones has gone
    /// through, since the caller stops at the first failure), reports
    /// success and returns nothing.
    pub fn advance(&mut self, status: &mut CompilerStateManager) -> (r: Option<(String, Vec<ProfileKind>)>)
        ensures
            final(self).steps() == old(self).steps(),
            old(self).begun() < old(self).steps().len() ==> {
                let st = old(self).steps()[old(self).begun() as int];
                &&& r matches Some(x) && x.0@ == st.0 && x.1@ == step_kinds(st.2, st.3)
                &&& final(status).status@ == (StatusView::Compiling { current_file: st.0, progress: st.1 })
                &&& final(self).begun() == old(self).begun() + 1
            },
            old(self).begun() >= old(self).steps().len() ==> {
                &&& r is None
                &&& final(status).status@ == StatusView::Success
                &&& final(self).begun() == old(self).begun()
            },
    {
        if self.next < self.plan.len() {
            let step = &self.plan[self.next];
            let id = step.package_id.clone();
            status.set_compiling(step.package_id.as_str(), step.position);
            let mut kinds: Vec<ProfileKind> = Vec::new();
            if step.editor {
                kinds.push(ProfileKind::Editor);
            }
            if step.runtime {
                kinds.push(ProfileKind::Engine);
            }
            assert(kinds@ =~= step_kinds(step.editor, step.runtime));
            assert(self.steps()[self.next as int] == step_view(*step));
            self.next = self.next + 1;
            Some((id, kinds))
        } else {
            status.set_success();
            None
        }
    }
}

} // verus!
