//! The scratch project in which the test units are expanded: where it lies,
//! and the manifest and configuration that it is built from.

use vstd::prelude::*;
use vstd::string::*;
use crate::cargo::Metadata;
use crate::cleanup::TextRules;
use crate::message::line_texts;
use crate::dependencies::{all_sound, Dependency, Patch, RegistryPatch};
use crate::error::Error;
use crate::expand::{bin_name, bin_name_text, ExpandedTest};
use crate::manifest::{Bin, Build, Config, Manifest, Name, Package, Workspace, WorkspacePackage};
use crate::paths::{join_path, joined_path};
use crate::rustflags::{flag_texts, lint_flags, make_vec};
use crate::strings::{join2, join3, str_eq};
use crate::table::{lemma_map_of_dom, lemma_map_of_entry, names, Table};

verus! {

/// The scratch project of one run.
#[derive(Debug, Clone, PartialEq, Eq)]
pub struct Project {
    /// The directory of the scratch project. It is removed when the run
    /// ends.
    pub dir: String,
    /// The directory of the host package.
    pub source_dir: String,
    /// The directory that the builds of the scratch project go to.
    pub inner_target_dir: String,
    /// The name of the scratch package.
    pub name: String,
    /// The features that are switched on, where that is known.
    pub features: Option<Vec<String>>,
    /// The root of the host workspace.
    pub workspace: String,
    /// Whether a snapshot that differs is written anew.
    pub overwrite: bool,
}

/// What the environment of the run holds.
#[derive(Debug, Clone, PartialEq, Eq)]
pub struct Host {
    /// The name of the host package, where it is set.
    pub crate_name: Option<String>,
    /// The directory of the host package, where it is set.
    pub manifest_dir: Option<String>,
    /// The features that are switched on, where that is known.
    pub features: Option<Vec<String>>,
    /// The value of the overwrite switch, where it is set.
    pub overwrite: Option<String>,
}

/// The one value of the overwrite switch that is recognized.
pub open spec fn overwrite_word() -> Seq<char> {
    "overwrite"@
}

/// The name of the scratch package of the host package `crate_name`.
pub open spec fn scratch_name(crate_name: Seq<char>) -> Seq<char> {
    crate_name + "-tests"@
}

/// The directory of the scratch project number `count` of the package
/// `crate_name`, below the target directory `target`.
pub open spec fn scratch_dir(target: Seq<char>, crate_name: Seq<char>, count: nat) -> Seq<char> {
    joined_path(joined_path(joined_path(target, "tests"@), crate_name), bin_name_text(count))
}

/// The directory that all scratch projects below `target` build into.
pub open spec fn shared_target_dir(target: Seq<char>) -> Seq<char> {
    joined_path(joined_path(target, "tests"@), "macrotest"@)
}

/// `project` is the scratch project number `count` for the host that
/// `metadata` and `host` describe.
pub open spec fn is_project_of(project: Project, metadata: Metadata, host: Host, count: nat) -> bool {
    &&& host.crate_name matches Some(crate_name) && project.dir@ == scratch_dir(
        metadata.target_directory@,
        crate_name@,
        count,
    ) && project.name@ == scratch_name(crate_name@)
    &&& host.manifest_dir matches Some(dir) && project.source_dir == dir
    &&& project.inner_target_dir@ == shared_target_dir(metadata.target_directory@)
    &&& project.features == host.features
    &&& project.workspace == metadata.workspace_root
    &&& project.overwrite == (host.overwrite is Some)
}

/// Why no scratch project can be laid out for `host`, if there is a reason:
/// the name of the host package is missing, or its directory, or the
/// overwrite switch holds another word than the one that is recognized.
pub open spec fn refusal(host: Host) -> Option<Error> {
    if host.crate_name is None {
        Some(Error::PkgName)
    } else if host.manifest_dir is None {
        Some(Error::ManifestDir)
    } else {
        match host.overwrite {
            Some(v) => if v@ == overwrite_word() {
                None
            } else {
                Some(Error::UnrecognizedEnv(v))
            },
            None => None,
        }
    }
}

/// Lays out the scratch project of a run. `metadata` is what `cargo` told of
/// the host workspace, `host` what the environment holds, and `count` the
/// number of this scratch project: one number is used once, so that runs at
/// the same time do not share a directory.
pub fn prepare(metadata: Metadata, host: Host, count: usize) -> (r: Result<Project, Error>)
    ensures
        match refusal(host) {
            Some(e) => r == Err::<Project, Error>(e),
            None => r matches Ok(project) && is_project_of(project, metadata, host, count as nat),
        },
{
    let Metadata { target_directory, workspace_root } = metadata;
    let Host { crate_name, manifest_dir, features, overwrite } = host;
    let crate_name = match crate_name {
        Some(name) => name,
        None => {
            return Err(Error::PkgName);
        },
    };
    let source_dir = match manifest_dir {
        Some(dir) => dir,
        None => {
            return Err(Error::ManifestDir);
        },
    };
    let overwrite = match overwrite {
        Some(v) => {
            if str_eq(v.as_str(), "overwrite") {
                true
            } else {
                return Err(Error::UnrecognizedEnv(v));
            }
        },
        None => false,
    };
    let unique = bin_name(count);
    let tests_dir = join_path(target_directory.as_str(), "tests");
    let package_dir = join_path(tests_dir.as_str(), crate_name.as_str());
    let dir = join_path(package_dir.as_str(), unique.as_str());
    let inner_target_dir = join_path(tests_dir.as_str(), "macrotest");
    let name = join2(crate_name.as_str(), "-tests");
    Ok(
        Project {
            dir,
            source_dir,
            inner_target_dir,
            name,
            features,
            workspace: workspace_root,
            overwrite,
        },
    )
}

/// Where the files of a scratch project lie.
#[derive(Debug, Clone, PartialEq, Eq)]
pub struct Layout {
    /// The directory of the build configuration.
    pub config_dir: String,
    /// The build configuration.
    pub config: String,
    /// The manifest.
    pub manifest: String,
    /// The stub entry point.
    pub stub: String,
}

/// The source of the stub entry point.
pub open spec fn stub_source() -> Seq<char> {
    "fn main() {}\n"@
}

impl Project {
    /// Where the files of the scratch project lie.
    pub fn layout(&self) -> (l: Layout)
        ensures
            l.config_dir@ == joined_path(self.dir@, ".cargo"@),
            l.config@ == joined_path(joined_path(self.dir@, ".cargo"@), "config"@),
            l.manifest@ == joined_path(self.dir@, "Cargo.toml"@),
            l.stub@ == joined_path(self.dir@, "main.rs"@),
    {
        let config_dir = join_path(self.dir.as_str(), ".cargo");
        let config = join_path(config_dir.as_str(), "config");
        Layout {
            config_dir,
            config,
            manifest: join_path(self.dir.as_str(), "Cargo.toml"),
            stub: join_path(self.dir.as_str(), "main.rs"),
        }
    }

    /// What is taken out of the diagnostics of an expansion in this project
    /// before they are compared: the notice that `cargo` waits for a lock,
    /// the banner of the check of the scratch package, and the directory of
    /// the host package in front of a path.
    pub fn text_rules(&self) -> (rules: TextRules)
        ensures
            rules.skip == 0,
            line_texts(rules.dropped@) == seq![
                "    Blocking waiting for file lock"@,
                "    Checking "@ + self.name@ + " v0.0.0"@,
            ],
            line_texts(rules.stripped@) == seq![self.source_dir@ + "/"@],
    {
        let mut dropped: Vec<String> = Vec::new();
        dropped.push("    Blocking waiting for file lock".to_owned());
        dropped.push(join3("    Checking ", self.name.as_str(), " v0.0.0"));
        let mut stripped: Vec<String> = Vec::new();
        stripped.push(join2(self.source_dir.as_str(), "/"));
        let rules = TextRules { skip: 0, dropped, stripped };
        assert(line_texts(rules.dropped@) =~= seq![
            "    Blocking waiting for file lock"@,
            "    Checking "@ + self.name@ + " v0.0.0"@,
        ]);
        assert(line_texts(rules.stripped@) =~= seq![self.source_dir@ + "/"@]);
        rules
    }

    /// The source of the stub entry point.
    pub fn stub(&self) -> (s: String)
        ensures
            s@ == stub_source(),
    {
        "fn main() {}\n".to_owned()
    }
}

/// The feature `feature` of the scratch package switches on exactly the
/// feature of that name of the host package.
pub open spec fn forwards(value: Vec<String>, crate_name: Seq<char>, feature: Seq<char>) -> bool {
    value@.len() == 1 && value@[0]@ == crate_name + "/"@ + feature
}

/// The features of the scratch package: those of the host package, each
/// switching on the feature of its name there.
pub open spec fn features_forwarded(
    ours: Map<Seq<char>, Vec<String>>,
    theirs: Map<Seq<char>, Vec<String>>,
    crate_name: Seq<char>,
) -> bool {
    &&& forall|key: Seq<char>| ours.contains_key(key) <==> theirs.contains_key(key)
    &&& forall|key: Seq<char>| #[trigger] ours.contains_key(key) ==> forwards(ours[key], crate_name, key)
}

/// The features of the scratch package for the features `theirs` of the
/// host package.
fn forward_features(theirs: &Table<Vec<String>>, crate_name: &str) -> (ours: Table<Vec<String>>)
    requires
        theirs.wf(),
    ensures
        ours.wf(),
        features_forwarded(ours@, theirs@, crate_name@),
{
    let mut ours: Table<Vec<String>> = Table::new();
    let ghost all = theirs.entries();
    let n: usize = theirs.len();
    let mut i: usize = 0;
    while i < n
        invariant
            i <= n,
            n == all.len(),
            all == theirs.entries(),
            theirs.wf(),
            ours.wf(),
            forall|key: Seq<char>| ours@.contains_key(key) <==> names(all.take(i as int), key),
            forall|key: Seq<char>| #[trigger]
                ours@.contains_key(key) ==> forwards(ours@[key], crate_name@, key),
        decreases n - i,
    {
        let feature = theirs.key_at(i);
        let enable = join3(crate_name, "/", feature.as_str());
        let mut value: Vec<String> = Vec::new();
        value.push(enable);
        let ghost before = ours@;
        ours.insert(feature.clone(), value);
        proof {
            let now = all.take(i + 1);
            let was = all.take(i as int);
            assert forall|key: Seq<char>| ours@.contains_key(key) <==> names(now, key) by {
                if names(now, key) {
                    let k = choose|k: int| 0 <= k < now.len() && (#[trigger] now[k]).0@ == key;
                    if k < i {
                        assert(was[k].0@ == key);
                    }
                }
                if names(was, key) {
                    let k = choose|k: int| 0 <= k < was.len() && (#[trigger] was[k]).0@ == key;
                    assert(now[k].0@ == key);
                }
                if key == feature@ {
                    assert(now[i as int].0@ == key);
                }
            }
        }
        i = i + 1;
    }
    proof {
        assert(all.take(n as int) =~= all);
        assert forall|key: Seq<char>| ours@.contains_key(key) <==> theirs@.contains_key(key) by {
            lemma_map_of_dom(all, key);
        }
    }
    ours
}

/// The dependency of the scratch package on the host package in
/// `source_dir`: by path, with no feature switched on.
pub open spec fn is_host_dependency(dep: Dependency, source_dir: Seq<char>) -> bool {
    &&& dep.version is None
    &&& dep.path matches Some(path) && path@ == source_dir
    &&& !dep.default_features
    &&& dep.features@.len() == 0
    &&& !dep.workspace
    &&& dep.rest.wf()
    &&& dep.rest@ == Map::<Seq<char>, serde_json::Value>::empty()
}

/// The dependencies of the scratch package: those of the host package, its
/// development dependencies over them, and the host package itself over
/// both.
pub open spec fn dependencies_merged(
    ours: Map<Seq<char>, Dependency>,
    regular: Map<Seq<char>, Dependency>,
    dev: Map<Seq<char>, Dependency>,
    crate_name: Seq<char>,
    source_dir: Seq<char>,
) -> bool {
    &&& ours.contains_key(crate_name)
    &&& is_host_dependency(ours[crate_name], source_dir)
    &&& ours.remove(crate_name) == regular.union_prefer_right(dev).remove(crate_name)
}

/// A build target as its name and the path of its source.
pub open spec fn bin_texts(bins: Seq<Bin>) -> Seq<(Seq<char>, Seq<char>)> {
    Seq::new(bins.len(), |i: int| (bins[i].name.0@, bins[i].path@))
}

/// The build targets of `tests`: one for each unit that was found without
/// an error, in order, with its source where it lies in the host package.
pub open spec fn targets(tests: Seq<ExpandedTest>, source_dir: Seq<char>) -> Seq<
    (Seq<char>, Seq<char>),
>
    decreases tests.len(),
{
    if tests.len() == 0 {
        Seq::empty()
    } else {
        let front = targets(tests.drop_last(), source_dir);
        if tests.last().error is None {
            front.push((tests.last().name.0@, joined_path(source_dir, tests.last().test@)))
        } else {
            front
        }
    }
}

/// `manifest` is the manifest of the scratch project `project` of the host
/// package `crate_name`, with the units `tests`.
pub open spec fn is_manifest_of(
    manifest: Manifest,
    crate_name: Seq<char>,
    project: Project,
    tests: Seq<ExpandedTest>,
    source: crate::dependencies::Manifest,
    workspace: crate::dependencies::WorkspaceManifest,
) -> bool {
    &&& manifest.wf()
    &&& manifest.cargo_features@.len() == 0
    &&& manifest.package.name@ == project.name@
    &&& manifest.package.version@ == "0.0.0"@
    &&& manifest.package.edition == source.package.edition
    &&& !manifest.package.publish
    &&& features_forwarded(manifest.features@, source.features@, crate_name)
    &&& dependencies_merged(
        manifest.dependencies@,
        source.dependencies@,
        source.dev_dependencies@,
        crate_name,
        project.source_dir@,
    )
    &&& manifest.dev_dependencies@ == Map::<Seq<char>, Dependency>::empty()
    &&& bin_texts(manifest.bins@) == seq![(project.name@, "main.rs"@)] + targets(
        tests,
        project.source_dir@,
    )
    &&& manifest.workspace matches Some(w) && w.package.edition is None && w.dependencies@
        == Map::<Seq<char>, Dependency>::empty()
    &&& manifest.patch == workspace.patch
    &&& manifest.replace == workspace.replace
}

/// The manifest of the scratch project. It takes the edition of the host
/// package, forwards its features, depends on what the host package and its
/// tests depend on and on the host package itself, and has one build target
/// for the stub entry point and one for each test unit, whose source stays
/// where it is. Patches and replacements apply only when they stand in the
/// manifest of the workspace root, and are taken from there.
pub fn make_manifest(
    crate_name: String,
    project: &Project,
    tests: &Vec<ExpandedTest>,
    source_manifest: crate::dependencies::Manifest,
    workspace_manifest: crate::dependencies::WorkspaceManifest,
) -> (manifest: Manifest)
    requires
        source_manifest.wf(),
        workspace_manifest.wf(),
    ensures
        is_manifest_of(manifest, crate_name@, *project, tests@, source_manifest, workspace_manifest),
{
    let features = forward_features(&source_manifest.features, crate_name.as_str());
    let crate::dependencies::Manifest {
        cargo_features: _,
        package: source_package,
        features: _,
        dependencies: regular,
        dev_dependencies: dev,
    } = source_manifest;
    let crate::dependencies::WorkspaceManifest { workspace: _, patch, replace } = workspace_manifest;
    let mut dependencies: Table<Dependency> = Table::new();
    dependencies.extend(regular);
    dependencies.extend(dev);
    let ghost merged = dependencies@;
    let ghost name_text = crate_name@;
    dependencies.insert(
        crate_name,
        Dependency {
            version: None,
            path: Some(project.source_dir.clone()),
            default_features: false,
            features: Vec::new(),
            workspace: false,
            rest: Table::new(),
        },
    );
    proof {
        assert(merged =~= source_manifest.dependencies@.union_prefer_right(
            source_manifest.dev_dependencies@,
        ));
        assert(dependencies@.remove(name_text) =~= merged.remove(name_text));
    }
    let mut bins: Vec<Bin> = Vec::new();
    bins.push(Bin { name: Name(project.name.clone()), path: "main.rs".to_owned() });
    let ghost stub = seq![(project.name@, "main.rs"@)];
    let mut i: usize = 0;
    proof {
        assert(bin_texts(bins@) =~= stub);
        assert(tests@.take(0) =~= Seq::<ExpandedTest>::empty());
        assert(stub + targets(tests@.take(0), project.source_dir@) =~= stub);
    }
    while i < tests.len()
        invariant
            i <= tests.len(),
            bin_texts(bins@) == stub + targets(tests@.take(i as int), project.source_dir@),
        decreases tests.len() - i,
    {
        let ghost before = bin_texts(bins@);
        proof {
            assert(tests@.take(i + 1).drop_last() =~= tests@.take(i as int));
            assert(tests@.take(i + 1).last() == tests@[i as int]);
        }
        if tests[i].error.is_none() {
            let path = join_path(project.source_dir.as_str(), tests[i].test.as_str());
            bins.push(Bin { name: Name(tests[i].name.0.clone()), path });
            proof {
                let target = (tests@[i as int].name.0@, joined_path(
                    project.source_dir@,
                    tests@[i as int].test@,
                ));
                assert(bin_texts(bins@) =~= before.push(target));
            }
        }
        i = i + 1;
    }
    proof {
        assert(tests@.take(tests@.len() as int) =~= tests@);
    }
    Manifest {
        cargo_features: Vec::new(),
        package: Package {
            name: project.name.clone(),
            version: "0.0.0".to_owned(),
            publish: false,
            edition: source_package.edition,
        },
        features,
        dependencies,
        dev_dependencies: Table::new(),
        bins,
        workspace: Some(
            Workspace { package: WorkspacePackage { edition: None }, dependencies: Table::new() },
        ),
        patch,
        replace,
    }
}

/// The build configuration of the scratch project: it silences the lints
/// that expanded code must not fail on.
pub fn make_config() -> (config: Config)
    ensures
        flag_texts(config.build.rustflags@) == lint_flags(),
{
    Config { build: Build { rustflags: make_vec() } }
}

/// The features of `enabled` that the manifest knows, in order.
pub open spec fn known_features(enabled: Seq<String>, known: Map<Seq<char>, Vec<String>>) -> Seq<
    String,
>
    decreases enabled.len(),
{
    if enabled.len() == 0 {
        Seq::empty()
    } else {
        let front = known_features(enabled.drop_last(), known);
        if known.contains_key(enabled.last()@) {
            front.push(enabled.last())
        } else {
            front
        }
    }
}

/// The features that stay switched on in the scratch project: those of
/// `enabled` that its manifest knows. Where `enabled` is not known, it stays
/// so.
pub fn retain_features(enabled: Option<Vec<String>>, known: &Table<Vec<String>>) -> (out: Option<
    Vec<String>,
>)
    ensures
        match enabled {
            Some(all) => out matches Some(kept) && kept@ == known_features(all@, known@),
            None => out is None,
        },
{
    match enabled {
        None => None,
        Some(all) => {
            let ghost given = all@;
            let mut rest = all;
            let mut kept: Vec<String> = Vec::new();
            let ghost mut done: int = 0;
            proof {
                assert(given.skip(0) =~= given);
                assert(given.take(0) =~= Seq::<String>::empty());
            }
            while rest.len() > 0
                invariant
                    0 <= done <= given.len(),
                    rest@ == given.skip(done),
                    kept@ == known_features(given.take(done), known@),
                decreases rest.len(),
            {
                let feature = rest.remove(0);
                proof {
                    assert(feature == given[done]);
                    assert(rest@ =~= given.skip(done + 1));
                    assert(given.take(done + 1).drop_last() =~= given.take(done));
                    assert(given.take(done + 1).last() == given[done]);
                    done = done + 1;
                }
                if known.contains_key(feature.as_str()) {
                    kept.push(feature);
                }
            }
            proof {
                assert(given.take(done) =~= given);
            }
            Some(kept)
        },
    }
}

} // verus!
