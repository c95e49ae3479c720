//! The manifests of the host package and of its workspace, and the rewriting
//! of their paths.

use vstd::prelude::*;
use vstd::string::*;
use crate::error::Error;
use crate::json::json_string;
use crate::manifest::Edition;
use crate::paths::{join_path, joined_path};
use crate::strings::str_eq;
use crate::table::{distinct_names, lemma_map_of_dom, lemma_map_of_entry, names, Table};

verus! {

/// The parts of the manifest at the root of the host workspace that the
/// harness reads.
#[derive(Debug)]
pub struct WorkspaceManifest {
    pub workspace: Workspace,
    pub patch: Table<RegistryPatch>,
    pub replace: Table<Patch>,
}

/// The `workspace` table of the host workspace.
#[derive(Debug)]
pub struct Workspace {
    pub package: WorkspacePackage,
    pub dependencies: Table<Dependency>,
}

/// The `workspace.package` table of the host workspace.
#[derive(Debug)]
pub struct WorkspacePackage {
    pub edition: Option<String>,
}

/// The parts of the host package's manifest that the harness reads.
#[derive(Debug)]
pub struct Manifest {
    pub cargo_features: Vec<String>,
    pub package: Package,
    pub features: Table<Vec<String>>,
    pub dependencies: Table<Dependency>,
    pub dev_dependencies: Table<Dependency>,
}

/// The `package` table of the host package.
#[derive(Debug)]
pub struct Package {
    pub edition: Edition,
}

/// One dependency of a manifest.
#[derive(Debug)]
pub struct Dependency {
    pub version: Option<String>,
    pub path: Option<String>,
    pub default_features: bool,
    pub features: Vec<String>,
    pub workspace: bool,
    pub rest: Table<serde_json::Value>,
}

/// The patches of one registry.
#[derive(Debug)]
pub struct RegistryPatch {
    pub crates: Table<Patch>,
}

/// One patched or replaced package.
#[derive(Debug)]
pub struct Patch {
    pub path: Option<String>,
    pub git: Option<String>,
    pub branch: Option<String>,
}

/// The default of a dependency's `default-features`.
pub fn get_true() -> (b: bool)
    ensures
        b,
{
    true
}

/// Whether a flag is set.
pub fn is_true(boolean: &bool) -> (b: bool)
    ensures
        b == *boolean,
{
    *boolean
}

/// Whether a flag is not set.
pub fn is_false(boolean: &bool) -> (b: bool)
    ensures
        b == !*boolean,
{
    !*boolean
}

/// The name under which a manifest names this harness.
pub open spec fn own_name() -> Seq<char> {
    "macrotest"@
}

/// `after` is `before` with its path taken as relative to `dir`.
pub open spec fn path_rebased(before: Option<String>, after: Option<String>, dir: Seq<char>) -> bool {
    match before {
        Some(p) => after matches Some(q) && q@ == joined_path(dir, p@),
        None => after is None,
    }
}

/// A path, made to start at `dir` where it is relative.
pub fn rebase_path(path: Option<String>, dir: &str) -> (after: Option<String>)
    ensures
        path_rebased(path, after, dir@),
{
    match path {
        Some(p) => Some(join_path(dir, p.as_str())),
        None => None,
    }
}

/// A value of a manifest whose paths can be made to start at a directory.
pub trait Rebase: Sized {
    /// Every table in the value is without a name twice.
    spec fn sound(self) -> bool;

    /// `after` is the value with its paths taken as relative to `dir`, and
    /// nothing else changed.
    spec fn rebased_to(self, after: Self, dir: Seq<char>) -> bool;

    /// The value with its paths taken as relative to `dir`.
    fn rebase(self, dir: &str) -> (after: Self)
        requires
            self.sound(),
        ensures
            after.sound(),
            self.rebased_to(after, dir@),
    ;
}

impl Rebase for Dependency {
    open spec fn sound(self) -> bool {
        self.rest.wf()
    }

    open spec fn rebased_to(self, after: Self, dir: Seq<char>) -> bool {
        &&& after.version == self.version
        &&& path_rebased(self.path, after.path, dir)
        &&& after.default_features == self.default_features
        &&& after.features == self.features
        &&& after.workspace == self.workspace
        &&& after.rest == self.rest
    }

    fn rebase(self, dir: &str) -> (after: Self) {
        let Dependency { version, path, default_features, features, workspace, rest } = self;
        Dependency { version, path: rebase_path(path, dir), default_features, features, workspace, rest }
    }
}

impl Rebase for Patch {
    open spec fn sound(self) -> bool {
        true
    }

    open spec fn rebased_to(self, after: Self, dir: Seq<char>) -> bool {
        &&& path_rebased(self.path, after.path, dir)
        &&& after.git == self.git
        &&& after.branch == self.branch
    }

    fn rebase(self, dir: &str) -> (after: Self) {
        let Patch { path, git, branch } = self;
        Patch { path: rebase_path(path, dir), git, branch }
    }
}

/// `after` holds the entries of `before`, but for the one under the
/// harness's own name where `drop_own` is set, each with its paths taken as
/// relative to `dir`.
pub open spec fn table_rebased<V: Rebase>(
    before: Map<Seq<char>, V>,
    after: Map<Seq<char>, V>,
    dir: Seq<char>,
    drop_own: bool,
) -> bool {
    &&& forall|key: Seq<char>|
        after.contains_key(key) <==> before.contains_key(key) && !(drop_own && key == own_name())
    &&& forall|key: Seq<char>| #[trigger]
        after.contains_key(key) ==> before[key].rebased_to(after[key], dir)
}

/// Every value of the table is sound.
pub open spec fn all_sound<V: Rebase>(m: Map<Seq<char>, V>) -> bool {
    forall|key: Seq<char>| #[trigger] m.contains_key(key) ==> m[key].sound()
}

/// Takes the paths of every entry as relative to `dir`; where `drop_own` is
/// set, the entry under the harness's own name leaves the table.
pub fn rebase_table<V: Rebase>(table: &mut Table<V>, dir: &str, drop_own: bool)
    requires
        old(table).wf(),
        all_sound(old(table)@),
    ensures
        final(table).wf(),
        all_sound(final(table)@),
        table_rebased(old(table)@, final(table)@, dir@, drop_own),
{
    let taken = table.take();
    let ghost all = taken.entries();
    let mut rest = taken.into_entries();
    let ghost mut done: int = 0;
    proof {
        assert(all.skip(0) =~= all);
        assert forall|j: int| 0 <= j < all.len() implies (#[trigger] all[j]).1.sound() by {
            lemma_map_of_entry(all, j);
        }
    }
    while rest.len() > 0
        invariant
            0 <= done <= all.len(),
            rest@ == all.skip(done),
            distinct_names(all),
            table.wf(),
            all_sound(table@),
            forall|j: int| 0 <= j < all.len() ==> (#[trigger] all[j]).1.sound(),
            forall|key: Seq<char>|
                table@.contains_key(key) <==> names(all.take(done), key) && !(drop_own && key
                    == own_name()),
            forall|j: int|
                0 <= j < done && table@.contains_key((#[trigger] all[j]).0@) ==> all[j].1.rebased_to(
                    table@[all[j].0@],
                    dir@,
                ),
        decreases rest.len(),
    {
        let entry = rest.remove(0);
        let ghost before = table@;
        proof {
            assert(entry == all[done]);
            assert(rest@ =~= all.skip(done + 1));
        }
        let own = drop_own && str_eq(entry.0.as_str(), "macrotest");
        if !own {
            let value = entry.1.rebase(dir);
            table.insert(entry.0, value);
        }
        proof {
            let now = all.take(done + 1);
            let was = all.take(done);
            assert forall|key: Seq<char>| names(now, key) == (names(was, key) || key
                == all[done].0@) by {
                if names(now, key) {
                    let i = choose|i: int| 0 <= i < now.len() && (#[trigger] now[i]).0@ == key;
                    if i < done {
                        assert(was[i].0@ == key);
                    }
                }
                if names(was, key) {
                    let i = choose|i: int| 0 <= i < was.len() && (#[trigger] was[i]).0@ == key;
                    assert(now[i].0@ == key);
                }
                if key == all[done].0@ {
                    assert(now[done].0@ == key);
                }
            }
            assert forall|j: int|
                0 <= j < done + 1 && table@.contains_key((#[trigger] all[j]).0@) implies all[j].1.rebased_to(
                table@[all[j].0@],
                dir@,
            ) by {
                if j < done {
                    assert(all[j].0@ != all[done].0@);
                    assert(before.contains_key(all[j].0@));
                }
            }
            done = done + 1;
        }
    }
    proof {
        assert(all.take(done) =~= all);
        assert forall|key: Seq<char>|
            table@.contains_key(key) <==> old(table)@.contains_key(key) && !(drop_own && key
                == own_name()) by {
            lemma_map_of_dom(all, key);
        }
        assert forall|key: Seq<char>| #[trigger] table@.contains_key(key) implies old(
            table,
        )@[key].rebased_to(table@[key], dir@) by {
            lemma_map_of_dom(all, key);
            let j = choose|j: int| 0 <= j < all.len() && (#[trigger] all[j]).0@ == key;
            lemma_map_of_entry(all, j);
        }
    }
}

impl Rebase for RegistryPatch {
    open spec fn sound(self) -> bool {
        self.crates.wf()
    }

    open spec fn rebased_to(self, after: Self, dir: Seq<char>) -> bool {
        table_rebased(self.crates@, after.crates@, dir, true)
    }

    fn rebase(self, dir: &str) -> (after: Self) {
        let mut crates = self.crates;
        rebase_table(&mut crates, dir, true);
        RegistryPatch { crates }
    }
}

/// Prepares the dependencies of a manifest in `dir` for the scratch project:
/// a dependency on the harness itself leaves the table, and every path is
/// taken as relative to `dir`.
pub fn fix_dependencies(dependencies: &mut Table<Dependency>, dir: &str)
    requires
        old(dependencies).wf(),
        all_sound(old(dependencies)@),
    ensures
        final(dependencies).wf(),
        all_sound(final(dependencies)@),
        table_rebased(old(dependencies)@, final(dependencies)@, dir@, true),
{
    rebase_table(dependencies, dir, true);
}

/// Prepares the patches of a workspace in `dir` for the scratch project: in
/// every registry, a patch of the harness itself leaves the table, and every
/// path is taken as relative to `dir`.
pub fn fix_patches(patches: &mut Table<RegistryPatch>, dir: &str)
    requires
        old(patches).wf(),
        all_sound(old(patches)@),
    ensures
        final(patches).wf(),
        all_sound(final(patches)@),
        table_rebased(old(patches)@, final(patches)@, dir@, false),
{
    rebase_table(patches, dir, false);
}

/// Prepares the replacements of a workspace in `dir` for the scratch
/// project: a replacement of the harness itself leaves the table, and every
/// path is taken as relative to `dir`.
pub fn fix_replacements(replacements: &mut Table<Patch>, dir: &str)
    requires
        old(replacements).wf(),
    ensures
        final(replacements).wf(),
        table_rebased(old(replacements)@, final(replacements)@, dir@, true),
{
    rebase_table(replacements, dir, true);
}

impl Manifest {
    /// No table of the manifest holds a name twice.
    pub open spec fn wf(self) -> bool {
        &&& self.features.wf()
        &&& self.dependencies.wf()
        &&& self.dev_dependencies.wf()
        &&& all_sound(self.dependencies@)
        &&& all_sound(self.dev_dependencies@)
    }
}

impl WorkspaceManifest {
    /// No table of the manifest holds a name twice.
    pub open spec fn wf(self) -> bool {
        &&& self.workspace.dependencies.wf()
        &&& self.patch.wf()
        &&& self.replace.wf()
        &&& all_sound(self.workspace.dependencies@)
        &&& all_sound(self.patch@)
    }
}

impl Default for WorkspacePackage {
    /// No edition.
    fn default() -> (p: Self)
        ensures
            p.edition is None,
    {
        WorkspacePackage { edition: None }
    }
}

impl Default for Workspace {
    /// No edition and no dependencies.
    fn default() -> (w: Self)
        ensures
            w.package.edition is None,
            w.dependencies.wf(),
            w.dependencies@ == Map::<Seq<char>, Dependency>::empty(),
    {
        Workspace { package: WorkspacePackage::default(), dependencies: Table::new() }
    }
}

impl Default for WorkspaceManifest {
    /// A manifest that names nothing.
    fn default() -> (m: Self)
        ensures
            m.wf(),
            m.workspace.package.edition is None,
            m.workspace.dependencies@ == Map::<Seq<char>, Dependency>::empty(),
            m.patch@ == Map::<Seq<char>, RegistryPatch>::empty(),
            m.replace@ == Map::<Seq<char>, Patch>::empty(),
    {
        WorkspaceManifest {
            workspace: Workspace::default(),
            patch: Table::new(),
            replace: Table::new(),
        }
    }
}

impl Default for Package {
    /// The default edition.
    fn default() -> (p: Self)
        ensures
            p.edition.0 == json_string("2021"@),
    {
        Package { edition: Edition::default() }
    }
}

impl Default for Manifest {
    /// A manifest that names nothing, of the default edition.
    fn default() -> (m: Self)
        ensures
            m.wf(),
            m.cargo_features@.len() == 0,
            m.package.edition.0 == json_string("2021"@),
            m.features@ == Map::<Seq<char>, Vec<String>>::empty(),
            m.dependencies@ == Map::<Seq<char>, Dependency>::empty(),
            m.dev_dependencies@ == Map::<Seq<char>, Dependency>::empty(),
    {
        Manifest {
            cargo_features: Vec::new(),
            package: Package::default(),
            features: Table::new(),
            dependencies: Table::new(),
            dev_dependencies: Table::new(),
        }
    }
}

/// `after` is the manifest `before` of the package in `dir`, made ready for
/// the scratch project.
pub open spec fn manifest_fixed(before: Manifest, after: Manifest, dir: Seq<char>) -> bool {
    &&& after.wf()
    &&& after.cargo_features == before.cargo_features
    &&& after.package == before.package
    &&& after.features == before.features
    &&& table_rebased(before.dependencies@, after.dependencies@, dir, true)
    &&& table_rebased(before.dev_dependencies@, after.dev_dependencies@, dir, true)
}

/// `after` is the manifest `before` of the workspace in `dir`, made ready
/// for the scratch project.
pub open spec fn workspace_manifest_fixed(
    before: WorkspaceManifest,
    after: WorkspaceManifest,
    dir: Seq<char>,
) -> bool {
    &&& after.wf()
    &&& after.workspace.package == before.workspace.package
    &&& table_rebased(before.workspace.dependencies@, after.workspace.dependencies@, dir, true)
    &&& table_rebased(before.patch@, after.patch@, dir, false)
    &&& table_rebased(before.replace@, after.replace@, dir, true)
}

/// The manifest of the host package, once `Cargo.toml` in `manifest_dir` has
/// been read: `parsed` is what the reading gave. An error is handed on; a
/// manifest is made ready for the scratch project.
pub fn try_get_manifest(parsed: Result<Manifest, Error>, manifest_dir: &str) -> (r: Result<
    Manifest,
    Error,
>)
    requires
        parsed matches Ok(m) ==> m.wf(),
    ensures
        match parsed {
            Ok(m) => r matches Ok(out) && manifest_fixed(m, out, manifest_dir@),
            Err(e) => r == Err::<Manifest, Error>(e),
        },
{
    match parsed {
        Ok(manifest) => {
            let Manifest { cargo_features, package, features, dependencies, dev_dependencies } =
                manifest;
            let mut dependencies = dependencies;
            let mut dev_dependencies = dev_dependencies;
            fix_dependencies(&mut dependencies, manifest_dir);
            fix_dependencies(&mut dev_dependencies, manifest_dir);
            Ok(Manifest { cargo_features, package, features, dependencies, dev_dependencies })
        },
        Err(e) => Err(e),
    }
}

/// The manifest of the host package, or one that names nothing where it
/// could not be read.
pub fn get_manifest(parsed: Result<Manifest, Error>, manifest_dir: &str) -> (out: Manifest)
    requires
        parsed matches Ok(m) ==> m.wf(),
    ensures
        out.wf(),
        match parsed {
            Ok(m) => manifest_fixed(m, out, manifest_dir@),
            Err(_) => {
                &&& out.cargo_features@.len() == 0
                &&& out.package.edition.0 == json_string("2021"@)
                &&& out.features@ == Map::<Seq<char>, Vec<String>>::empty()
                &&& out.dependencies@ == Map::<Seq<char>, Dependency>::empty()
                &&& out.dev_dependencies@ == Map::<Seq<char>, Dependency>::empty()
            },
        },
{
    match try_get_manifest(parsed, manifest_dir) {
        Ok(manifest) => manifest,
        Err(_) => Manifest::default(),
    }
}

/// The manifest at the root of the host workspace, once `Cargo.toml` in
/// `manifest_dir` has been read: `parsed` is what the reading gave. An error
/// is handed on; a manifest is made ready for the scratch project.
pub fn try_get_workspace_manifest(
    parsed: Result<WorkspaceManifest, Error>,
    manifest_dir: &str,
) -> (r: Result<WorkspaceManifest, Error>)
    requires
        parsed matches Ok(m) ==> m.wf(),
    ensures
        match parsed {
            Ok(m) => r matches Ok(out) && workspace_manifest_fixed(m, out, manifest_dir@),
            Err(e) => r == Err::<WorkspaceManifest, Error>(e),
        },
{
    match parsed {
        Ok(manifest) => {
            let WorkspaceManifest { workspace, patch, replace } = manifest;
            let Workspace { package, dependencies } = workspace;
            let mut dependencies = dependencies;
            let mut patch = patch;
            let mut replace = replace;
            fix_dependencies(&mut dependencies, manifest_dir);
            fix_patches(&mut patch, manifest_dir);
            fix_replacements(&mut replace, manifest_dir);
            Ok(WorkspaceManifest { workspace: Workspace { package, dependencies }, patch, replace })
        },
        Err(e) => Err(e),
    }
}

/// The manifest at the root of the host workspace, or one that names nothing
/// where it could not be read.
pub fn get_workspace_manifest(parsed: Result<WorkspaceManifest, Error>, manifest_dir: &str) -> (out:
    WorkspaceManifest)
    requires
        parsed matches Ok(m) ==> m.wf(),
    ensures
        out.wf(),
        match parsed {
            Ok(m) => workspace_manifest_fixed(m, out, manifest_dir@),
            Err(_) => {
                &&& out.workspace.package.edition is None
                &&& out.workspace.dependencies@ == Map::<Seq<char>, Dependency>::empty()
                &&& out.patch@ == Map::<Seq<char>, RegistryPatch>::empty()
                &&& out.replace@ == Map::<Seq<char>, Patch>::empty()
            },
        },
{
    match try_get_workspace_manifest(parsed, manifest_dir) {
        Ok(manifest) => manifest,
        Err(_) => WorkspaceManifest::default(),
    }
}

} // verus!
