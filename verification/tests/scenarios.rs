use std::collections::BTreeMap;

use macrotest::cleanup::TextRules;
use macrotest::error::Error;
use macrotest::expand::{discover, has_wildcard, Request};
use macrotest::outcome::{ExpansionBehavior, ExpansionOutcome};
use macrotest::session::{describe, summary, Action, Event, Report, Session};

/// A file system and an expander, in memory.
struct World {
    files: BTreeMap<String, Vec<u8>>,
    expansions: BTreeMap<String, (bool, Vec<u8>)>,
    names: BTreeMap<String, String>,
    commands: Vec<Vec<String>>,
    overwrite: bool,
}

impl World {
    fn new() -> World {
        World {
            files: BTreeMap::new(),
            expansions: BTreeMap::new(),
            names: BTreeMap::new(),
            commands: Vec::new(),
            overwrite: false,
        }
    }

    /// A source file whose expansion succeeds with `output`.
    fn source(mut self, path: &str, output: &str) -> World {
        self.files.insert(path.to_string(), Vec::new());
        self.expansions.insert(path.to_string(), (true, output.as_bytes().to_vec()));
        self
    }

    /// A source file whose expansion fails with `diagnostic`.
    fn broken(mut self, path: &str, diagnostic: &str) -> World {
        self.files.insert(path.to_string(), Vec::new());
        self.expansions.insert(path.to_string(), (false, diagnostic.as_bytes().to_vec()));
        self
    }

    fn file(mut self, path: &str, content: &str) -> World {
        self.files.insert(path.to_string(), content.as_bytes().to_vec());
        self
    }

    fn overwriting(mut self) -> World {
        self.overwrite = true;
        self
    }

    /// The files below `dir` that end in `.rs`, as a listing would give them.
    fn list(&self, dir: &str) -> Vec<String> {
        let mut found: Vec<String> = self
            .files
            .keys()
            .filter(|path| path.starts_with(dir) && path.ends_with(".rs"))
            .cloned()
            .collect();
        found.reverse();
        found
    }

    fn text(&self, path: &str) -> Option<String> {
        self.files.get(path).map(|bytes| String::from_utf8(bytes.clone()).unwrap())
    }
}

struct Run {
    reports: Vec<Report>,
    failures: usize,
    total: usize,
    lines: Vec<String>,
}

impl Run {
    fn outcomes(&self) -> Vec<&ExpansionOutcome> {
        self.reports.iter().map(|report| report.result.as_ref().unwrap()).collect()
    }

    /// Stops as a run of the harness does when a unit has failed.
    fn finish(&self) {
        if self.failures > 0 {
            panic!("{}", summary(self.failures, self.total));
        }
    }
}

/// Runs `request` in `world`, doing what the machine asks for.
fn run(request: Request, world: &mut World) -> Run {
    let dir = match request.path.rfind('/') {
        Some(at) => request.path[..at].split('*').next().unwrap().to_string(),
        None => String::new(),
    };
    let listing = if has_wildcard(&request.path) { Ok(world.list(&dir)) } else { Ok(Vec::new()) };
    run_listed(request, listing, world)
}

fn run_listed(request: Request, listing: Result<Vec<String>, Error>, world: &mut World) -> Run {
    let units = discover(&request.path, listing).unwrap();
    for unit in &units {
        world.names.insert(unit.name.0.clone(), unit.test.clone());
    }
    let (mut session, mut step) = Session::new(request, units, world.overwrite, TextRules::none());
    let mut reports = Vec::new();
    let mut lines = Vec::new();
    loop {
        for report in step.reports {
            let unit = &session.units[report.unit];
            let copy = match &report.result {
                Ok(outcome) => Ok(outcome.clone()),
                Err(error) => Err(error.clone()),
            };
            lines.extend(describe(unit, copy));
            reports.push(report);
        }
        let event = match step.action {
            Action::Finish { failures, total } => {
                assert!(session.is_finished());
                assert_eq!(session.has_failed(), failures > 0);
                return Run { reports, failures, total, lines };
            }
            Action::Expand { name, args } => {
                world.commands.push(args);
                let (success, output) = world.expansions[&world.names[&name]].clone();
                Event::Expanded { success, output }
            }
            Action::Print(file) => Event::Printed(prettyplease::unparse(&file)),
            Action::Read(path) => Event::Snapshot(world.files.get(&path).cloned()),
            Action::Write { path, content } => {
                world.files.insert(path, content);
                Event::Written
            }
        };
        assert!(session.can_take(&event));
        step = session.step(event);
    }
}

const EXPANDED: &str = "#![feature(prelude_import)]\n#[prelude_import]\nuse std::prelude::rust_2021::*;\n#[macro_use]\nextern crate std;\npub fn answer() -> u32 { 42 }\n";

const CANONICAL: &str = "pub fn answer() -> u32 {\n    42\n}\n";

fn strings(items: &[&str]) -> Vec<String> {
    items.iter().map(|item| item.to_string()).collect()
}

#[test]
fn tests_pass() {
    let mut world = World::new()
        .source("tests/expand/first.rs", EXPANDED)
        .source("tests/expand/second.rs", EXPANDED)
        .file("tests/expand/first.expanded.rs", CANONICAL)
        .file("tests/expand/second.expanded.rs", CANONICAL);
    let done = run(macrotest::expand("tests/expand/*.rs"), &mut world);
    assert_eq!(done.outcomes(), vec![&ExpansionOutcome::Same, &ExpansionOutcome::Same]);
    assert_eq!(done.failures, 0);
    assert_eq!(done.lines, strings(&["tests/expand/first.rs - ok", "tests/expand/second.rs - ok"]));
    done.finish();
}

#[test]
fn tests_pass_expect_expanded() {
    let mut world = World::new()
        .source("tests/expand/first.rs", EXPANDED)
        .file("tests/expand/first.expanded.rs", CANONICAL);
    let done = run(macrotest::expand_without_refresh("tests/expand/*.rs"), &mut world);
    assert_eq!(done.outcomes(), vec![&ExpansionOutcome::Same]);
    done.finish();
}

#[test]
#[should_panic]
fn tests_fail_expect_expanded() {
    let mut world = World::new().source("tests/no_expanded/first.rs", EXPANDED);
    run(macrotest::expand_without_refresh("tests/no_expanded/*.rs"), &mut world).finish();
}

#[test]
fn a_missing_snapshot_that_is_required_fails_the_unit() {
    let mut world = World::new().source("tests/no_expanded/first.rs", EXPANDED);
    let done = run(macrotest::expand_without_refresh("tests/no_expanded/*.rs"), &mut world);
    assert_eq!(done.outcomes(), vec![&ExpansionOutcome::NoExpandedFileFound]);
    assert_eq!((done.failures, done.total), (1, 1));
    assert_eq!(world.text("tests/no_expanded/first.expanded.rs"), None);
    let mut world = World::new().broken("tests/no_expanded/first.rs", "error: expected item\n");
    let done = run(macrotest::expand_without_refresh_fail("tests/no_expanded/*.rs"), &mut world);
    assert_eq!(done.outcomes(), vec![&ExpansionOutcome::NoExpandedFileFound]);
    assert_eq!(done.failures, 1);
    assert_eq!(world.text("tests/no_expanded/first.expanded.rs"), None);
}

#[test]
fn pass_args() {
    let mut world = World::new()
        .source("tests/expand_args/with_args.rs", EXPANDED)
        .file("tests/expand_args/with_args.expanded.rs", CANONICAL);
    let done = run(
        macrotest::expand_args("tests/expand_args/*.rs", strings(&["--features", "test-feature"])),
        &mut world,
    );
    assert_eq!(done.outcomes(), vec![&ExpansionOutcome::Same]);
    assert_eq!(
        world.commands,
        vec![strings(&[
            "expand",
            "--bin",
            "macrotest001",
            "--theme",
            "none",
            "--features",
            "test-feature"
        ])]
    );
    done.finish();
}

#[test]
fn pass_expect_expanded_args() {
    let mut world = World::new()
        .source("tests/expand_args/with_args.rs", EXPANDED)
        .file("tests/expand_args/with_args.expanded.rs", CANONICAL);
    let done = run(
        macrotest::expand_args("tests/expand_args/*.rs", strings(&["--features", "test-feature"])),
        &mut world,
    );
    assert_eq!(done.failures, 0);
    done.finish();
}

#[test]
#[should_panic]
fn fail_expect_expanded_args() {
    let mut world = World::new().source("tests/no_expanded_args/with_args.rs", EXPANDED);
    run(
        macrotest::expand_without_refresh_args(
            "tests/no_expanded_args/*.rs",
            strings(&["--features", "test-feature"]),
        ),
        &mut world,
    )
    .finish();
}

#[test]
fn tests_pr61() {
    let mut world = World::new()
        .source("tests/pr61/a/test.rs", EXPANDED)
        .source("tests/pr61/b/test.rs", EXPANDED)
        .file("tests/pr61/a/test.expanded.rs", CANONICAL)
        .file("tests/pr61/b/test.expanded.rs", CANONICAL);
    let done = run(macrotest::expand("tests/pr61/*/*.rs"), &mut world);
    assert_eq!(done.outcomes(), vec![&ExpansionOutcome::Same, &ExpansionOutcome::Same]);
    assert_eq!(
        world.commands.iter().map(|args| args[2].clone()).collect::<Vec<_>>(),
        strings(&["macrotest001", "macrotest003"])
    );
    done.finish();
}

#[test]
#[should_panic]
fn fail_to_expand() {
    let mut world = World::new().broken("tests/expand_fail/broken.rs", "error: expected item\n");
    run(macrotest::expand("tests/expand_fail/*.rs"), &mut world).finish();
}

#[test]
fn an_expansion_that_fails_fails_the_unit() {
    let mut world = World::new()
        .broken("tests/expand_fail/broken.rs", "error: expected item\n")
        .file("tests/expand_fail/broken.expanded.rs", "error: expected item\n");
    let done = run(macrotest::expand("tests/expand_fail/*.rs"), &mut world);
    assert_eq!(
        done.outcomes(),
        vec![&ExpansionOutcome::ExpandError(b"error: expected item\n".to_vec())]
    );
    assert_eq!((done.failures, done.total), (1, 1));
    assert_eq!(done.lines, strings(&["Expansion error:", "error: expected item\n"]));
    let done = run(macrotest::expand_without_refresh("tests/expand_fail/*.rs"), &mut world);
    assert_eq!(
        done.outcomes(),
        vec![&ExpansionOutcome::ExpandError(b"error: expected item\n".to_vec())]
    );
}

#[test]
fn an_expected_failure_is_compared_with_its_snapshot() {
    let mut world = World::new()
        .broken("tests/expand_fail/broken.rs", "error: expected item\n")
        .file("tests/expand_fail/broken.expanded.rs", "error: another\n");
    let done = run(macrotest::expand_fail("tests/expand_fail/*.rs"), &mut world);
    assert_eq!(
        done.outcomes(),
        vec![&ExpansionOutcome::Different(
            b"error: another\n".to_vec(),
            b"error: expected item\n".to_vec()
        )]
    );
    assert_eq!(done.failures, 1);
}

#[test]
fn test_expand_args_fail() {
    let mut world = World::new()
        .broken("tests/expand_fail/broken.rs", "error: expected item\n")
        .file("tests/expand_fail/broken.expanded.rs", "error: expected item\n");
    let done = run(
        macrotest::expand_args_fail(
            "tests/expand_fail/*.rs",
            strings(&["--features", "test-feature"]),
        ),
        &mut world,
    );
    assert_eq!(done.outcomes(), vec![&ExpansionOutcome::Same]);
    assert_eq!(done.failures, 0);
    done.finish();
}

#[test]
#[should_panic]
fn expect_expanded_fail() {
    let mut world = World::new().broken("tests/no_expanded/first.rs", "error: expected item\n");
    run(macrotest::expand_without_refresh_fail("tests/no_expanded/*.rs"), &mut world).finish();
}

#[test]
fn parallel_1() {
    let mut world = World::new()
        .source("tests/expand/first.rs", EXPANDED)
        .file("tests/expand/first.expanded.rs", CANONICAL);
    let done = run(macrotest::expand("tests/expand/first.rs"), &mut world);
    assert_eq!(done.outcomes(), vec![&ExpansionOutcome::Same]);
    assert_eq!(world.commands[0][2], "first");
    done.finish();
}

#[test]
fn parallel_2() {
    let mut world = World::new()
        .source("tests/expand/second.rs", EXPANDED)
        .file("tests/expand/second.expanded.rs", CANONICAL);
    let done = run(macrotest::expand("tests/expand/second.rs"), &mut world);
    assert_eq!(done.outcomes(), vec![&ExpansionOutcome::Same]);
    assert_eq!(world.commands[0][2], "second");
    done.finish();
}

#[test]
#[should_panic]
fn pass_fail() {
    let mut world = World::new().broken("tests/expand-fail/broken.rs", "error: cannot expand\n");
    run(macrotest::expand("tests/expand-fail/*.rs"), &mut world).finish();
}

#[test]
fn fail() {
    let mut world = World::new().broken("tests/expand-fail/broken.rs", "error: cannot expand\n");
    let done = run(macrotest::expand_fail("tests/expand-fail/*.rs"), &mut world);
    assert_eq!(
        done.outcomes(),
        vec![&ExpansionOutcome::Update(b"error: cannot expand\n".to_vec())]
    );
    assert_eq!(
        world.text("tests/expand-fail/broken.expanded.rs"),
        Some("error: cannot expand\n".to_string())
    );
    done.finish();
}

#[test]
fn two_units_without_snapshots_are_refreshed() {
    let mut world =
        World::new().source("tests/expand/a.rs", EXPANDED).source("tests/expand/b.rs", EXPANDED);
    let done = run(macrotest::expand("tests/expand/*.rs"), &mut world);
    assert_eq!(
        done.outcomes(),
        vec![
            &ExpansionOutcome::Update(CANONICAL.as_bytes().to_vec()),
            &ExpansionOutcome::Update(CANONICAL.as_bytes().to_vec())
        ]
    );
    assert_eq!(world.text("tests/expand/a.expanded.rs"), Some(CANONICAL.to_string()));
    assert_eq!(world.text("tests/expand/b.expanded.rs"), Some(CANONICAL.to_string()));
    assert_eq!((done.failures, done.total), (0, 2));
    assert_eq!(
        done.lines,
        strings(&["tests/expand/a.expanded.rs - refreshed", "tests/expand/b.expanded.rs - refreshed"])
    );
    done.finish();
}

#[test]
fn second_run_after_refresh_is_same() {
    let mut world = World::new().source("tests/expand/a.rs", EXPANDED);
    let first = run(macrotest::expand("tests/expand/*.rs"), &mut world);
    assert_eq!(first.outcomes(), vec![&ExpansionOutcome::Update(CANONICAL.as_bytes().to_vec())]);
    let second = run(macrotest::expand("tests/expand/*.rs"), &mut world);
    assert_eq!(second.outcomes(), vec![&ExpansionOutcome::Same]);
    let strict = run(macrotest::expand_without_refresh("tests/expand/*.rs"), &mut world);
    assert_eq!(strict.outcomes(), vec![&ExpansionOutcome::Same]);
}

#[test]
fn one_same_one_different() {
    let mut world = World::new()
        .source("tests/expand/a.rs", EXPANDED)
        .source("tests/expand/b.rs", EXPANDED)
        .file("tests/expand/a.expanded.rs", CANONICAL)
        .file("tests/expand/b.expanded.rs", "pub fn answer() -> u32 {\n    41\n}\n");
    let done = run(macrotest::expand("tests/expand/*.rs"), &mut world);
    assert_eq!(
        done.outcomes(),
        vec![
            &ExpansionOutcome::Same,
            &ExpansionOutcome::Different(
                b"pub fn answer() -> u32 {\n    41\n}\n".to_vec(),
                CANONICAL.as_bytes().to_vec()
            )
        ]
    );
    assert_eq!((done.failures, done.total), (1, 2));
    assert_eq!(summary(done.failures, done.total), "1 of 2 tests failed");
    assert_eq!(
        world.text("tests/expand/b.expanded.rs"),
        Some("pub fn answer() -> u32 {\n    41\n}\n".to_string())
    );
    assert_eq!(
        done.lines,
        strings(&[
            "tests/expand/a.rs - ok",
            "tests/expand/b.rs - different!",
            "Diff [lines: 1 added, 1 removed]:",
            "--------------------------",
            " pub fn answer() -> u32 {",
            "+    41",
            "-    42",
            " }",
            " ",
            "--------------------------",
        ])
    );
}

#[test]
fn overwrite_rewrites_a_snapshot_that_differs() {
    let mut world = World::new()
        .source("tests/expand/a.rs", EXPANDED)
        .file("tests/expand/a.expanded.rs", "pub fn other() {}\n")
        .overwriting();
    let done = run(macrotest::expand("tests/expand/*.rs"), &mut world);
    assert_eq!(done.outcomes(), vec![&ExpansionOutcome::Update(CANONICAL.as_bytes().to_vec())]);
    assert_eq!(done.failures, 0);
    assert_eq!(world.text("tests/expand/a.expanded.rs"), Some(CANONICAL.to_string()));
}

#[test]
fn strict_mode_never_writes_even_with_overwrite() {
    let mut world = World::new()
        .source("tests/expand/a.rs", EXPANDED)
        .source("tests/expand/b.rs", EXPANDED)
        .file("tests/expand/b.expanded.rs", "pub fn other() {}\n")
        .overwriting();
    let done = run(macrotest::expand_without_refresh("tests/expand/*.rs"), &mut world);
    assert_eq!(
        done.outcomes(),
        vec![&ExpansionOutcome::NoExpandedFileFound, &ExpansionOutcome::NoExpandedFileFound]
    );
    assert_eq!(done.failures, 2);
    assert_eq!(world.text("tests/expand/a.expanded.rs"), None);
    assert_eq!(world.text("tests/expand/b.expanded.rs"), Some("pub fn other() {}\n".to_string()));
    assert_eq!(
        done.lines,
        strings(&[
            "tests/expand/a.expanded.rs is expected but not found",
            "tests/expand/b.expanded.rs is expected but not found"
        ])
    );
}

#[test]
fn snapshot_with_other_line_feeds_at_the_end_is_same() {
    for ending in ["", "\n", "\n\n\n"] {
        let snapshot = format!("pub fn answer() -> u32 {{\n    42\n}}{}", ending);
        let mut world = World::new()
            .source("tests/expand/a.rs", EXPANDED)
            .file("tests/expand/a.expanded.rs", &snapshot);
        let done = run(macrotest::expand("tests/expand/*.rs"), &mut world);
        assert_eq!(done.outcomes(), vec![&ExpansionOutcome::Same]);
        assert_eq!(world.text("tests/expand/a.expanded.rs"), Some(snapshot));
    }
}

#[test]
fn snapshots_that_a_pattern_matches_are_no_units() {
    let mut world = World::new()
        .source("tests/expand/a.rs", EXPANDED)
        .file("tests/expand/a.expanded.rs", CANONICAL);
    assert_eq!(world.list("tests/expand").len(), 2);
    let done = run(macrotest::expand("tests/expand/*.rs"), &mut world);
    assert_eq!(done.total, 1);
    assert_eq!(done.outcomes(), vec![&ExpansionOutcome::Same]);
}

#[test]
fn a_listing_that_failed_is_one_failed_unit() {
    let mut world = World::new();
    let failure = Error::GlobPattern("wildcards are either regular `*` or recursive `**`".to_string());
    let done = run_listed(macrotest::expand("tests/***/a.rs"), Err(failure.clone()), &mut world);
    assert_eq!((done.failures, done.total), (1, 1));
    assert_eq!(done.reports[0].result, Err(failure));
    assert!(world.commands.is_empty());
    assert_eq!(
        done.lines,
        strings(&["Error: wildcards are either regular `*` or recursive `**`"])
    );
}

#[test]
fn work_that_cannot_be_done_fails_the_unit_and_the_run_goes_on() {
    let units =
        discover("tests/expand/*.rs", Ok(strings(&["tests/expand/b.rs", "tests/expand/a.rs"])))
            .unwrap();
    let (mut session, first) =
        Session::new(macrotest::expand("tests/expand/*.rs"), units, false, TextRules::none());
    assert!(first.reports.is_empty());
    assert!(matches!(first.action, Action::Expand { .. }));
    let failure = Error::CargoExpandExecution("not found".to_string());
    let step = session.step(Event::Failed(failure.clone()));
    assert_eq!(step.reports, vec![Report { unit: 0, result: Err(failure) }]);
    match step.action {
        Action::Expand { name, .. } => assert_eq!(name, "macrotest001"),
        _ => panic!("the second unit is to be expanded"),
    }
    assert_eq!(session.failures, 1);
    assert!(!session.can_take(&Event::Written));
    assert!(!session.can_take(&Event::Snapshot(None)));
    let step = session.step(Event::Expanded { success: true, output: b"not rust (".to_vec() });
    match step.action {
        Action::Read(path) => assert_eq!(path, "tests/expand/b.expanded.rs"),
        _ => panic!("the snapshot is to be read"),
    }
    let step = session.step(Event::Snapshot(None));
    match &step.action {
        Action::Write { path, content } => {
            assert_eq!(path, "tests/expand/b.expanded.rs");
            assert_eq!(content, b"not rust (\n");
        }
        _ => panic!("the snapshot is to be written"),
    }
    let step = session.step(Event::Failed(Error::Io("read-only file system".to_string())));
    assert_eq!(
        step.reports,
        vec![Report { unit: 1, result: Err(Error::Io("read-only file system".to_string())) }]
    );
    assert!(matches!(step.action, Action::Finish { failures: 2, total: 2 }));
    assert!(session.is_finished());
    assert!(session.has_failed());
    assert!(!session.can_take(&Event::Failed(Error::CargoFail)));
}

#[test]
fn behavior_of_each_entry_point() {
    let plain = macrotest::expand("tests/expand/*.rs");
    assert_eq!(plain.path, "tests/expand/*.rs");
    assert_eq!(plain.behavior, ExpansionBehavior::RegenerateFiles);
    assert_eq!(plain.args, None);
    assert!(!plain.expect_failure);
    let strict = macrotest::expand_without_refresh("a.rs");
    assert_eq!(strict.behavior, ExpansionBehavior::ExpectFiles);
    assert!(!strict.expect_failure);
    let with_args = macrotest::expand_without_refresh_args("a.rs", strings(&["--lib"]));
    assert_eq!(with_args.behavior, ExpansionBehavior::ExpectFiles);
    assert_eq!(with_args.args, Some(strings(&["--lib"])));
    let failing = macrotest::expand_without_refresh_args_fail("a.rs", strings(&["--lib"]));
    assert_eq!(failing.behavior, ExpansionBehavior::ExpectFiles);
    assert!(failing.expect_failure);
    assert!(macrotest::expand_fail("a.rs").expect_failure);
    assert_eq!(macrotest::expand_fail("a.rs").behavior, ExpansionBehavior::RegenerateFiles);
}
