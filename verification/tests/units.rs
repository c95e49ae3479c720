use macrotest::cargo::{build_dependencies, expand_command, line_is_echoed, line_should_be_ignored, Metadata};
use macrotest::cleanup::{begins_with_one, normalize_text, without_prefix, TextRules};
use macrotest::decimal::{digit_count, push_digits, push_padded};
use macrotest::dependencies::{
    fix_dependencies, fix_patches, fix_replacements, get_manifest, get_true, get_workspace_manifest,
    is_false, is_true, try_get_manifest, try_get_workspace_manifest, Dependency, Patch, RegistryPatch,
};
use macrotest::error::Error;
use macrotest::expand::{bin_name, discover, expand_globs, has_wildcard, select_tests, ExpandedTest};
use macrotest::lines::{canonical, lines, texts_agree, trim};
use macrotest::manifest::{Edition, Name, WorkspacePackage};
use macrotest::message::{
    message_different, message_expansion_error, render_changes, render_expansion_error, Change,
};
use macrotest::normalize::{
    finish_printed, normalize_expansion, strips_attr, strips_item, AttrShape, Draft, ItemShape,
    MetaKind, MetaShape,
};
use macrotest::outcome::{resolve, ExpansionBehavior, ExpansionOutcome};
use macrotest::project::{make_config, make_manifest, prepare, retain_features, Host, Project};
use macrotest::rustflags::{make_vec, set_env};
use macrotest::sorting::{bytes_le, sort_paths, text_le};
use macrotest::strings::{join2, join3, str_contains, str_ends_with, str_eq, str_starts_with};
use macrotest::table::Table;
use macrotest::text::{contains, contains_byte, ends_with, matches_at, same_bytes, starts_with};

fn strings(items: &[&str]) -> Vec<String> {
    items.iter().map(|item| item.to_string()).collect()
}

fn rows(items: &[&str]) -> Vec<Vec<u8>> {
    items.iter().map(|item| item.as_bytes().to_vec()).collect()
}

fn dependency(version: Option<&str>, path: Option<&str>) -> Dependency {
    Dependency {
        version: version.map(str::to_string),
        path: path.map(str::to_string),
        default_features: true,
        features: Vec::new(),
        workspace: false,
        rest: Table::new(),
    }
}

fn patch(path: Option<&str>, git: Option<&str>) -> Patch {
    Patch { path: path.map(str::to_string), git: git.map(str::to_string), branch: None }
}

fn project() -> Project {
    Project {
        dir: "/target/tests/host/macrotest000".to_string(),
        source_dir: "/work/host".to_string(),
        inner_target_dir: "/target/tests/macrotest".to_string(),
        name: "host-tests".to_string(),
        features: None,
        workspace: "/work".to_string(),
        overwrite: false,
    }
}

fn unit(name: &str, test: &str) -> ExpandedTest {
    ExpandedTest { name: Name(name.to_string()), test: test.to_string(), error: None }
}

fn word(kind: MetaKind, ident: &str) -> MetaShape {
    MetaShape { kind, ident: Some(ident.to_string()) }
}

fn printed(draft: Draft) -> String {
    match draft {
        Draft::Code(file) => prettyplease::unparse(&file),
        Draft::Text(_) => panic!("the output parses as code"),
    }
}

fn text(draft: Draft) -> String {
    match draft {
        Draft::Text(bytes) => String::from_utf8(bytes).unwrap(),
        Draft::Code(_) => panic!("the output does not parse as code"),
    }
}

#[test]
fn bytes_are_matched_where_they_stand() {
    assert!(matches_at(b"hello world", b"world", 6));
    assert!(!matches_at(b"hello world", b"world", 5));
    assert!(!matches_at(b"hello world", b"world", 7));
    assert!(matches_at(b"abc", b"", 3));
    assert!(!matches_at(b"abc", b"", 4));
    assert!(starts_with(b"abc", b"ab"));
    assert!(starts_with(b"abc", b""));
    assert!(!starts_with(b"ab", b"abc"));
    assert!(ends_with(b"a.expanded.rs", b"expanded.rs"));
    assert!(!ends_with(b"a.rs", b"expanded.rs"));
    assert!(contains(b"abcabd", b"abd"));
    assert!(contains(b"abc", b""));
    assert!(!contains(b"abc", b"abcd"));
    assert!(!contains(b"abcabc", b"abd"));
    assert!(contains_byte(b"tests/*.rs", b'*'));
    assert!(!contains_byte(b"tests/a.rs", b'*'));
    assert!(same_bytes(b"abc", b"abc"));
    assert!(!same_bytes(b"abc", b"abd"));
    assert!(!same_bytes(b"abc", b"ab"));
}

#[test]
fn strs_are_tested_as_their_bytes() {
    assert!(str_eq("héllo", "héllo"));
    assert!(!str_eq("héllo", "hello"));
    assert!(str_starts_with("error: toolchain 'x'", "error: toolchain '"));
    assert!(str_ends_with("tests/a.expanded.rs", "expanded.rs"));
    assert!(str_contains("no such subcommand: `expand`", "`expand`"));
    assert_eq!(join2("a", "b"), "ab");
    assert_eq!(join3("stem", ".", "expanded.rs"), "stem.expanded.rs");
}

#[test]
fn a_text_is_cut_at_line_feeds() {
    assert_eq!(lines(b""), rows(&[]));
    assert_eq!(lines(b"a"), rows(&["a"]));
    assert_eq!(lines(b"a\n"), rows(&["a"]));
    assert_eq!(lines(b"a\n\n"), rows(&["a", ""]));
    assert_eq!(lines(b"\n"), rows(&[""]));
    assert_eq!(lines(b"a\r\nb\r"), rows(&["a", "b"]));
    assert_eq!(lines(b"a\r\r\nb"), rows(&["a\r", "b"]));
    assert_eq!(lines(b"one\n\ntwo"), rows(&["one", "", "two"]));
}

#[test]
fn empty_lines_at_the_end_do_not_count() {
    let mut all = rows(&["a", "", "b", "", ""]);
    trim(&mut all);
    assert_eq!(all, rows(&["a", "", "b"]));
    assert!(texts_agree(b"a\nb", b"a\nb\n"));
    assert!(texts_agree(b"a\nb\n\n\n", b"a\nb"));
    assert!(texts_agree(b"a\r\nb\r\n", b"a\nb"));
    assert!(texts_agree(b"", b"\n\n"));
    assert!(!texts_agree(b"a\nb", b"a\nc"));
    assert!(!texts_agree(b"a\nb", b"a\n\nb"));
    assert!(!texts_agree(b"a\nb", b"\na\nb"));
    assert!(!texts_agree(b"a", b"a\nb"));
}

#[test]
fn a_canonical_text_ends_with_one_line_feed() {
    assert_eq!(canonical(&rows(&["a", "b"])), b"a\nb\n");
    assert_eq!(canonical(&rows(&["a", "", "b", "", ""])), b"a\n\nb\n");
    assert_eq!(canonical(&rows(&[])), b"\n");
    assert_eq!(canonical(&rows(&["", ""])), b"\n");
    assert_eq!(finish_printed("fn a() {}\n"), b"fn a() {}\n");
    assert_eq!(finish_printed("fn a() {}"), b"fn a() {}\n");
    assert_eq!(finish_printed("fn a() {}\n\n\n"), b"fn a() {}\n");
    assert_eq!(finish_printed(""), b"\n");
}

#[test]
fn numbers_are_written_in_decimal() {
    let mut out = String::from("n=");
    push_digits(&mut out, 0);
    assert_eq!(out, "n=0");
    let mut out = String::new();
    push_digits(&mut out, 1234567890);
    assert_eq!(out, "1234567890");
    let mut out = String::new();
    push_digits(&mut out, usize::MAX);
    assert_eq!(out, usize::MAX.to_string());
    assert_eq!(digit_count(0), 1);
    assert_eq!(digit_count(9), 1);
    assert_eq!(digit_count(10), 2);
    assert_eq!(digit_count(usize::MAX), usize::MAX.to_string().len());
    for (n, width, expected) in
        [(0, 3, "000"), (7, 3, "007"), (42, 3, "042"), (999, 3, "999"), (1000, 3, "1000"), (5, 0, "5")]
    {
        let mut out = String::new();
        push_padded(&mut out, n, width);
        assert_eq!(out, expected);
    }
}

#[test]
fn units_are_named_by_their_places() {
    assert_eq!(bin_name(0), Name("macrotest000".to_string()));
    assert_eq!(bin_name(12), Name("macrotest012".to_string()));
    assert_eq!(bin_name(123), Name("macrotest123".to_string()));
    assert_eq!(bin_name(1234), Name("macrotest1234".to_string()));
    assert_eq!(bin_name(7).as_str(), "macrotest007");
}

#[test]
fn texts_are_ordered_by_their_bytes() {
    assert!(bytes_le(b"", b""));
    assert!(bytes_le(b"", b"a"));
    assert!(!bytes_le(b"a", b""));
    assert!(bytes_le(b"a", b"a"));
    assert!(bytes_le(b"a", b"ab"));
    assert!(!bytes_le(b"ab", b"a"));
    assert!(bytes_le(b"ab", b"b"));
    assert!(bytes_le(b"Z", b"a"));
    assert!(text_le("tests/a.rs", "tests/b.rs"));
    assert!(!text_le("tests/b.rs", "tests/a.rs"));
    assert!(text_le("z", "é"));
    assert_eq!(
        sort_paths(strings(&["b/2.rs", "a/10.rs", "b/1.rs", "a/1.rs", "a/1.rs", "B.rs"])),
        strings(&["B.rs", "a/1.rs", "a/1.rs", "a/10.rs", "b/1.rs", "b/2.rs"])
    );
    assert_eq!(sort_paths(Vec::new()), Vec::<String>::new());
}

#[test]
fn a_pattern_stands_for_the_files_that_match_it() {
    assert!(has_wildcard("tests/expand/*.rs"));
    assert!(!has_wildcard("tests/expand/first.rs"));
    let units =
        expand_globs("tests/expand/*.rs", Ok(strings(&["tests/expand/b.rs", "tests/expand/a.rs"])))
            .unwrap();
    assert_eq!(
        units,
        vec![unit("macrotest000", "tests/expand/a.rs"), unit("macrotest001", "tests/expand/b.rs")]
    );
    assert_eq!(expand_globs("tests/expand/*.rs", Ok(Vec::new())).unwrap(), Vec::new());
}

#[test]
fn a_path_without_wildcard_is_one_unit() {
    let failure = Error::Glob("never read".to_string());
    assert_eq!(
        expand_globs("tests/expand/first.rs", Err(failure)).unwrap(),
        vec![unit("first", "tests/expand/first.rs")]
    );
    assert_eq!(
        expand_globs("tests/expand/archive.tar.gz", Ok(Vec::new())).unwrap(),
        vec![unit("archive.tar", "tests/expand/archive.tar.gz")]
    );
}

#[test]
fn a_path_that_names_no_file_is_refused() {
    assert_eq!(expand_globs("", Ok(Vec::new())), Err(Error::NoFileStem));
    assert_eq!(expand_globs("tests/..", Ok(Vec::new())), Err(Error::NoFileStem));
    assert_eq!(unit("x", "..").snapshot_path(), None);
}

#[test]
fn a_listing_that_failed_is_kept_with_the_pattern() {
    let failure = Error::GlobPattern("recursive wildcards must form a single path component".to_string());
    let units = expand_globs("tests/a**/*.rs", Err(failure.clone())).unwrap();
    assert_eq!(
        units,
        vec![ExpandedTest {
            name: Name("*".to_string()),
            test: "tests/a**/*.rs".to_string(),
            error: Some(failure)
        }]
    );
}

#[test]
fn snapshots_are_no_tests() {
    let all = vec![
        unit("macrotest000", "tests/a.expanded.rs"),
        unit("macrotest001", "tests/a.rs"),
        unit("macrotest002", "tests/b.rs"),
        unit("macrotest003", "tests/bexpanded.rs"),
    ];
    assert_eq!(
        select_tests(all),
        vec![unit("macrotest001", "tests/a.rs"), unit("macrotest002", "tests/b.rs")]
    );
}

#[test]
fn the_units_of_a_run_keep_the_names_of_their_places() {
    assert_eq!(
        discover("tests/*.rs", Ok(strings(&["tests/b.rs", "tests/a.rs", "tests/a.expanded.rs"]))),
        Ok(vec![unit("macrotest001", "tests/a.rs"), unit("macrotest002", "tests/b.rs")])
    );
    assert_eq!(discover("tests/..", Ok(Vec::new())), Err(Error::NoFileStem));
    assert_eq!(discover("tests/a.expanded.rs", Ok(Vec::new())), Ok(Vec::new()));
}

#[test]
fn the_snapshot_lies_beside_the_source() {
    assert_eq!(
        unit("first", "tests/expand/first.rs").snapshot_path(),
        Some("tests/expand/first.expanded.rs".to_string())
    );
    assert_eq!(unit("a", "a.rs").snapshot_path(), Some("a.expanded.rs".to_string()));
    assert_eq!(unit("a", "dir/a.b.rs").snapshot_path(), Some("dir/a.b.expanded.rs".to_string()));
}

#[test]
fn every_case_of_the_decision() {
    let canonical = b"fn a() {}\n".to_vec();
    let other = b"fn b() {}\n".to_vec();
    for overwrite in [false, true] {
        assert_eq!(
            resolve(canonical.clone(), None, ExpansionBehavior::RegenerateFiles, overwrite),
            ExpansionOutcome::Update(canonical.clone())
        );
        assert_eq!(
            resolve(canonical.clone(), None, ExpansionBehavior::ExpectFiles, overwrite),
            ExpansionOutcome::NoExpandedFileFound
        );
        for behavior in [ExpansionBehavior::RegenerateFiles, ExpansionBehavior::ExpectFiles] {
            assert_eq!(
                resolve(canonical.clone(), Some(b"fn a() {}".to_vec()), behavior, overwrite),
                ExpansionOutcome::Same
            );
        }
        assert_eq!(
            resolve(canonical.clone(), Some(other.clone()), ExpansionBehavior::ExpectFiles, overwrite),
            ExpansionOutcome::NoExpandedFileFound
        );
    }
    assert_eq!(
        resolve(canonical.clone(), Some(other.clone()), ExpansionBehavior::RegenerateFiles, false),
        ExpansionOutcome::Different(other.clone(), canonical.clone())
    );
    assert_eq!(
        resolve(canonical.clone(), Some(other.clone()), ExpansionBehavior::RegenerateFiles, true),
        ExpansionOutcome::Update(canonical.clone())
    );
    assert_eq!(
        unit("a", "a.rs").run(&project(), ExpansionBehavior::RegenerateFiles, canonical.clone(), Some(other.clone())),
        ExpansionOutcome::Different(other, canonical.clone())
    );
    assert!(ExpansionOutcome::NoExpandedFileFound.is_failure());
    assert!(ExpansionOutcome::ExpandError(Vec::new()).is_failure());
    assert!(ExpansionOutcome::Different(Vec::new(), Vec::new()).is_failure());
    assert!(!ExpansionOutcome::Same.is_failure());
    assert!(!ExpansionOutcome::Update(Vec::new()).is_failure());
    assert_eq!(ExpansionOutcome::Update(canonical.clone()).written(), Some(&canonical));
    assert_eq!(ExpansionOutcome::Same.written(), None);
}

#[test]
fn what_the_compiler_injects_is_taken_out() {
    let output = b"#![feature(prelude_import)]\n#![allow(dead_code)]\n#[prelude_import]\nuse std::prelude::rust_2021::*;\n#[macro_use]\nextern crate std;\nextern crate alloc;\nuse std::fmt;\nstruct A;\n";
    let draft = normalize_expansion(output, &TextRules::none());
    assert_eq!(
        printed(draft),
        "#![allow(dead_code)]\nextern crate alloc;\nuse std::fmt;\nstruct A;\n"
    );
}

#[test]
fn what_only_looks_injected_stays() {
    let output = b"#![feature(prelude_import, other)]\n#![feature(other)]\n#![feature = \"prelude_import\"]\n#[prelude_import(x)]\nuse a::b;\n#[doc(hidden)]\n#[prelude_import]\nuse c::d;\n#[prelude_import]\nfn f() {}\nextern crate std as core;\n";
    let draft = normalize_expansion(output, &TextRules::none());
    assert_eq!(
        printed(draft),
        "#![feature(prelude_import, other)]\n#![feature(other)]\n#![feature = \"prelude_import\"]\n#[prelude_import(x)]\nuse a::b;\n#[doc(hidden)]\n#[prelude_import]\nuse c::d;\n#[prelude_import]\nfn f() {}\n"
    );
}

#[test]
fn the_shapes_decide_what_is_taken_out() {
    let feature = |args: Option<Vec<MetaShape>>| AttrShape { meta: word(MetaKind::List, "feature"), args };
    assert!(strips_attr(&feature(Some(vec![word(MetaKind::Path, "prelude_import")]))));
    assert!(!strips_attr(&feature(Some(vec![word(MetaKind::List, "prelude_import")]))));
    assert!(!strips_attr(&feature(Some(vec![word(MetaKind::Path, "other")]))));
    assert!(!strips_attr(&feature(Some(vec![
        word(MetaKind::Path, "prelude_import"),
        word(MetaKind::Path, "other")
    ]))));
    assert!(!strips_attr(&feature(Some(Vec::new()))));
    assert!(!strips_attr(&feature(None)));
    assert!(!strips_attr(&AttrShape {
        meta: word(MetaKind::List, "allow"),
        args: Some(vec![word(MetaKind::Path, "prelude_import")])
    }));
    assert!(!strips_attr(&AttrShape {
        meta: word(MetaKind::Path, "feature"),
        args: Some(vec![word(MetaKind::Path, "prelude_import")])
    }));
    assert!(!strips_attr(&AttrShape {
        meta: MetaShape { kind: MetaKind::List, ident: None },
        args: Some(vec![word(MetaKind::Path, "prelude_import")])
    }));
    assert!(strips_item(&ItemShape::Use(Some(word(MetaKind::Path, "prelude_import")))));
    assert!(!strips_item(&ItemShape::Use(Some(word(MetaKind::List, "prelude_import")))));
    assert!(!strips_item(&ItemShape::Use(Some(word(MetaKind::Path, "macro_use")))));
    assert!(!strips_item(&ItemShape::Use(Some(MetaShape { kind: MetaKind::Path, ident: None }))));
    assert!(!strips_item(&ItemShape::Use(None)));
    assert!(strips_item(&ItemShape::ExternCrate("std".to_string())));
    assert!(!strips_item(&ItemShape::ExternCrate("core".to_string())));
    assert!(!strips_item(&ItemShape::Other));
}

#[test]
fn output_that_is_no_code_is_cleaned_as_a_text() {
    let draft = normalize_expansion(b"error: expected `;`\n --> src/lib.rs:1:1", &TextRules::none());
    assert_eq!(text(draft), "error: expected `;`\n --> src/lib.rs:1:1\n");
    let draft = normalize_expansion(b"error: \xff(\n\n\n", &TextRules::none());
    assert_eq!(text(draft), "error: \u{fffd}(\n");
}

#[test]
fn rules_take_out_what_differs_between_hosts() {
    let rules = TextRules {
        skip: 1,
        dropped: strings(&["    Blocking waiting", "    Checking host-tests"]),
        stripped: strings(&["/home/alice/host/", "/work/"]),
    };
    let output = b"cargo 1.80.0\n    Checking host-tests v0.0.0\nerror: expected item\n/home/alice/host/src/lib.rs:3\n    Blocking waiting for file lock\n/work/src/main.rs\n  /work/not at the start\n\n";
    assert_eq!(
        normalize_text(output, &rules),
        b"error: expected item\nsrc/lib.rs:3\nsrc/main.rs\n  /work/not at the start\n"
    );
    let skipping = TextRules { skip: 5, dropped: Vec::new(), stripped: Vec::new() };
    assert_eq!(normalize_text(b"a\nb\n", &skipping), b"\n");
    assert_eq!(normalize_text(b"a\nb\nc\nd\ne\nf", &skipping), b"f\n");
    assert_eq!(without_prefix(b"/work/a", &strings(&["/w", "/work/"])), b"ork/a");
    assert_eq!(without_prefix(b"/other/a", &strings(&["/w", "/work/"])), b"/other/a");
    assert!(begins_with_one(b"warning: x", &strings(&["error", "warning"])));
    assert!(!begins_with_one(b" warning: x", &strings(&["error", "warning"])));
    assert!(!begins_with_one(b"warning: x", &Vec::new()));
}

#[test]
fn the_canonical_form_does_not_depend_on_the_host() {
    let on_alice = TextRules { skip: 0, dropped: strings(&["note:"]), stripped: strings(&["/home/alice/host/"]) };
    let on_bob = TextRules { skip: 0, dropped: strings(&["note:"]), stripped: strings(&["C:/Users/bob/host/"]) };
    let alice = normalize_text(b"error: bad\n/home/alice/host/tests/a.rs:1\nnote: x\n", &on_alice);
    let bob = normalize_text(b"error: bad\nC:/Users/bob/host/tests/a.rs:1\nnote: x\n", &on_bob);
    assert_eq!(alice, bob);
    assert_eq!(alice, b"error: bad\ntests/a.rs:1\n");
}

#[test]
fn lines_of_the_first_build_that_are_not_shown() {
    for line in [
        "#![feature(prelude_import)]",
        "#[prelude_import]",
        "use std::prelude::rust_2021::*;",
        "#[macro_use]",
        "extern crate std;",
        "#[macro_use] extern crate x;",
    ] {
        assert!(line_should_be_ignored(line));
        assert!(!line_is_echoed(line));
    }
    for line in ["", " #[macro_use]", "use std::fmt;", "extern crate alloc;", "   Compiling syn"] {
        assert!(!line_should_be_ignored(line));
        assert!(line_is_echoed(line));
    }
    assert!(!line_should_be_ignored("fn main() {}"));
    assert!(!line_is_echoed("fn main() {}"));
    assert!(line_is_echoed("fn main() { }"));
    assert_eq!(
        build_dependencies(strings(&[
            "   Compiling host v0.1.0",
            "#![feature(prelude_import)]",
            "#[prelude_import]",
            "use std::prelude::rust_2021::*;",
            "#[macro_use]",
            "extern crate std;",
            "fn main() {}",
            "    Finished"
        ])),
        strings(&["   Compiling host v0.1.0", "    Finished"])
    );
}

#[test]
fn the_expander_is_called_with_the_callers_arguments_last() {
    let name = Name("macrotest004".to_string());
    assert_eq!(
        expand_command(&name, &None),
        strings(&["expand", "--bin", "macrotest004", "--theme", "none"])
    );
    assert_eq!(
        expand_command(&name, &Some(strings(&["--features", "a b"]))),
        strings(&["expand", "--bin", "macrotest004", "--theme", "none", "--features", "a b"])
    );
    assert_eq!(expand_command(&name, &Some(Vec::new())).len(), 5);
    assert_eq!(macrotest::cargo::expand(true, b"out".to_vec(), b"err".to_vec()), (true, b"out".to_vec()));
    assert_eq!(macrotest::cargo::expand(false, b"out".to_vec(), b"err".to_vec()), (false, b"err".to_vec()));
}

#[test]
fn the_lints_of_expanded_code_are_silenced() {
    assert_eq!(make_vec(), strings(&["-A", "dead_code"]));
    assert_eq!(make_config().build.rustflags, strings(&["-A", "dead_code"]));
    assert_eq!(set_env(None, None), None);
    assert_eq!(
        set_env(Some("-Cdebuginfo=2".to_string()), Some("ignored".to_string())),
        Some(("CARGO_ENCODED_RUSTFLAGS".to_string(), "-Cdebuginfo=2\u{1f}-A\u{1f}dead_code".to_string()))
    );
    assert_eq!(
        set_env(None, Some("-C opt-level=1".to_string())),
        Some(("RUSTFLAGS".to_string(), "-C opt-level=1 -A dead_code".to_string()))
    );
    assert_eq!(
        set_env(Some(String::new()), None),
        Some(("CARGO_ENCODED_RUSTFLAGS".to_string(), "-A\u{1f}dead_code".to_string()))
    );
    assert_eq!(
        set_env(None, Some(String::new())),
        Some(("RUSTFLAGS".to_string(), "-A dead_code".to_string()))
    );
}

#[test]
fn a_difference_is_shown_line_by_line() {
    let changes = vec![
        Change::Both("same".to_string(), "same".to_string()),
        Change::Left("old".to_string()),
        Change::Left("older".to_string()),
        Change::Right("new".to_string()),
    ];
    assert_eq!(
        render_changes("tests/a.rs", &changes),
        strings(&[
            "tests/a.rs - different!",
            "Diff [lines: 2 added, 1 removed]:",
            "--------------------------",
            " same",
            "+old",
            "+older",
            "-new",
            "--------------------------",
        ])
    );
    assert_eq!(
        render_changes("a", &Vec::new()),
        strings(&[
            "a - different!",
            "Diff [lines: 0 added, 0 removed]:",
            "--------------------------",
            "--------------------------"
        ])
    );
    assert_eq!(
        message_different("a", b"one\ntwo \xff", b"one\nthree"),
        strings(&[
            "a - different!",
            "Diff [lines: 1 added, 1 removed]:",
            "--------------------------",
            " one",
            "+two \u{fffd}",
            "-three",
            "--------------------------",
        ])
    );
}

#[test]
fn a_failed_expansion_is_shown_with_advice() {
    assert_eq!(
        message_expansion_error(b"error: bad syntax".to_vec()),
        strings(&["Expansion error:", "error: bad syntax"])
    );
    assert_eq!(
        message_expansion_error(b"bad \xff".to_vec()),
        strings(&["Expansion error:", "<unprintable>"])
    );
    assert_eq!(
        message_expansion_error(b"error: no such subcommand: `expand`\n".to_vec()),
        strings(&[
            "Expansion error:",
            "error: no such subcommand: `expand`\n",
            "Perhaps, `cargo expand` is not installed?",
            "Install it by running:",
            "",
            "\tcargo install cargo-expand",
            "",
        ])
    );
    assert_eq!(
        render_expansion_error("error: toolchain 'nightly-x86_64' is not installed".to_string()),
        strings(&[
            "Expansion error:",
            "error: toolchain 'nightly-x86_64' is not installed",
            "You have `cargo expand` installed but it requires *nightly* compiler to be installed as well.",
            "To install it via rustup, run:",
            "",
            "\trustup toolchain install nightly",
            "",
        ])
    );
    assert_eq!(
        render_expansion_error("error: toolchain 'nightly' is not installed\n".to_string()).len(),
        2
    );
    assert_eq!(
        render_expansion_error(
            "error: toolchain 'x' has no such subcommand: `expand` and is not installed".to_string()
        )
        .len(),
        12
    );
}

#[test]
fn errors_are_reported_in_words() {
    for (error, words) in [
        (Error::Cargo("no cargo".to_string()), "no cargo"),
        (
            Error::CargoExpandExecution("No such file".to_string()),
            "Failed to execute cargo command: No such file",
        ),
        (Error::CargoFail, "cargo reported an error"),
        (Error::CargoMetadata("EOF".to_string()), "EOF"),
        (Error::Io("denied".to_string()), "denied"),
        (Error::TomlSer("ser".to_string()), "ser"),
        (Error::TomlDe("de".to_string()), "de"),
        (Error::Glob("glob".to_string()), "glob"),
        (Error::GlobPattern("pattern".to_string()), "pattern"),
        (Error::ManifestDir, "could not find CARGO_MANIFEST_DIR env var"),
        (Error::PkgName, "could not find CARGO_PKG_NAME env var"),
        (Error::UnrecognizedEnv("yes".to_string()), "unrecognized value of MACROTEST: \"yes\""),
        (Error::NoFileStem, "no file stem"),
    ] {
        assert_eq!(error.message(), words);
        assert_eq!(error.duplicate(), error);
    }
}

#[test]
fn a_table_holds_each_name_once() {
    let mut table: Table<u32> = Table::new();
    assert!(table.is_empty());
    assert_eq!(table.insert("b".to_string(), 2), None);
    assert_eq!(table.insert("a".to_string(), 1), None);
    assert_eq!(table.insert("b".to_string(), 3), Some(2));
    assert_eq!(table.len(), 2);
    assert!(!table.is_empty());
    assert!(table.contains_key("a"));
    assert!(!table.contains_key("c"));
    assert_eq!(table.get("b"), Some(&3));
    assert_eq!(table.get("c"), None);
    assert_eq!(table.remove("a"), Some(1));
    assert_eq!(table.remove("a"), None);
    assert_eq!(table.len(), 1);
    assert_eq!(table.key_at(0), "b");
    assert_eq!(table.value_at(0), &3);
    let mut other: Table<u32> = Table::new();
    other.insert("b".to_string(), 9);
    other.insert("c".to_string(), 4);
    table.extend(other);
    let mut entries = table.into_entries();
    entries.sort();
    assert_eq!(entries, vec![("b".to_string(), 9), ("c".to_string(), 4)]);
    let mut emptied: Table<u32> = Table::new();
    emptied.insert("x".to_string(), 1);
    let taken = emptied.take();
    assert!(emptied.is_empty());
    assert_eq!(taken.get("x"), Some(&1));
}

#[test]
fn paths_of_dependencies_start_at_the_manifest() {
    let mut dependencies: Table<Dependency> = Table::new();
    dependencies.insert("serde".to_string(), dependency(Some("1"), None));
    dependencies.insert("local".to_string(), dependency(None, Some("../local")));
    dependencies.insert("fixed".to_string(), dependency(None, Some("/abs/fixed")));
    dependencies.insert("macrotest".to_string(), dependency(Some("1"), None));
    fix_dependencies(&mut dependencies, "/work/host");
    assert_eq!(dependencies.len(), 3);
    assert!(!dependencies.contains_key("macrotest"));
    assert_eq!(dependencies.get("serde").unwrap().path, None);
    assert_eq!(dependencies.get("serde").unwrap().version, Some("1".to_string()));
    assert_eq!(dependencies.get("local").unwrap().path, Some("/work/host/../local".to_string()));
    assert_eq!(dependencies.get("fixed").unwrap().path, Some("/abs/fixed".to_string()));
    assert!(dependencies.get("local").unwrap().default_features);
}

#[test]
fn paths_of_patches_and_replacements_start_at_the_manifest() {
    let mut crates: Table<Patch> = Table::new();
    crates.insert("macrotest".to_string(), patch(Some("."), None));
    crates.insert("syn".to_string(), patch(Some("vendor/syn"), None));
    crates.insert("quote".to_string(), patch(None, Some("https://example.org/quote")));
    let mut patches: Table<RegistryPatch> = Table::new();
    patches.insert("crates-io".to_string(), RegistryPatch { crates });
    patches.insert("macrotest".to_string(), RegistryPatch { crates: Table::new() });
    fix_patches(&mut patches, "/work");
    assert_eq!(patches.len(), 2);
    let fixed = &patches.get("crates-io").unwrap().crates;
    assert_eq!(fixed.len(), 2);
    assert!(!fixed.contains_key("macrotest"));
    assert_eq!(fixed.get("syn").unwrap().path, Some("/work/vendor/syn".to_string()));
    assert_eq!(fixed.get("quote").unwrap().path, None);
    assert_eq!(fixed.get("quote").unwrap().git, Some("https://example.org/quote".to_string()));
    let mut replacements: Table<Patch> = Table::new();
    replacements.insert("macrotest".to_string(), patch(Some("."), None));
    replacements.insert("foo:0.1.0".to_string(), patch(Some("foo"), None));
    fix_replacements(&mut replacements, "/work");
    assert_eq!(replacements.len(), 1);
    assert_eq!(replacements.get("foo:0.1.0").unwrap().path, Some("/work/foo".to_string()));
}

#[test]
fn a_manifest_that_was_not_read_names_nothing() {
    let missing = get_manifest(Err(Error::Io("not found".to_string())), "/work/host");
    assert!(missing.dependencies.is_empty());
    assert!(missing.dev_dependencies.is_empty());
    assert!(missing.features.is_empty());
    assert!(missing.cargo_features.is_empty());
    assert_eq!(missing.package.edition.0, serde_json::Value::from("2021"));
    assert_eq!(
        try_get_manifest(Err(Error::TomlDe("bad".to_string())), "/work/host").err(),
        Some(Error::TomlDe("bad".to_string()))
    );
    let workspace = get_workspace_manifest(Err(Error::Io("not found".to_string())), "/work");
    assert!(workspace.patch.is_empty());
    assert!(workspace.replace.is_empty());
    assert!(workspace.workspace.dependencies.is_empty());
    assert_eq!(workspace.workspace.package.edition, None);
    assert_eq!(
        try_get_workspace_manifest(Err(Error::Io("gone".to_string())), "/work").err(),
        Some(Error::Io("gone".to_string()))
    );
}

#[test]
fn a_manifest_that_was_read_is_made_ready() {
    let mut read = macrotest::dependencies::Manifest::default();
    read.dependencies.insert("local".to_string(), dependency(None, Some("local")));
    read.dev_dependencies.insert("macrotest".to_string(), dependency(Some("1"), None));
    read.dev_dependencies.insert("helper".to_string(), dependency(None, Some("../helper")));
    let ready = try_get_manifest(Ok(read), "/work/host").unwrap();
    assert_eq!(ready.dependencies.get("local").unwrap().path, Some("/work/host/local".to_string()));
    assert_eq!(ready.dev_dependencies.len(), 1);
    assert_eq!(
        ready.dev_dependencies.get("helper").unwrap().path,
        Some("/work/host/../helper".to_string())
    );
    let mut workspace = macrotest::dependencies::WorkspaceManifest::default();
    workspace.replace.insert("foo:0.1.0".to_string(), patch(Some("foo"), None));
    workspace.workspace.dependencies.insert("local".to_string(), dependency(None, Some("local")));
    let ready = try_get_workspace_manifest(Ok(workspace), "/work").unwrap();
    assert_eq!(ready.replace.get("foo:0.1.0").unwrap().path, Some("/work/foo".to_string()));
    assert_eq!(ready.workspace.dependencies.get("local").unwrap().path, Some("/work/local".to_string()));
}

#[test]
fn flags_of_a_dependency() {
    assert!(get_true());
    assert!(is_true(&true));
    assert!(!is_true(&false));
    assert!(is_false(&false));
    assert!(!is_false(&true));
    assert!(WorkspacePackage { edition: None }.is_none());
    assert!(!WorkspacePackage { edition: Some("2021".to_string()) }.is_none());
    assert_eq!(Edition::default().0, serde_json::Value::String("2021".to_string()));
}

#[test]
fn the_scratch_project_is_laid_out_below_the_target_directory() {
    let metadata =
        Metadata { target_directory: "/work/target".to_string(), workspace_root: "/work".to_string() };
    let host = Host {
        crate_name: Some("host".to_string()),
        manifest_dir: Some("/work/host".to_string()),
        features: Some(strings(&["a"])),
        overwrite: None,
    };
    let project = prepare(metadata.clone(), host.clone(), 7).unwrap();
    assert_eq!(
        project,
        Project {
            dir: "/work/target/tests/host/macrotest007".to_string(),
            source_dir: "/work/host".to_string(),
            inner_target_dir: "/work/target/tests/macrotest".to_string(),
            name: "host-tests".to_string(),
            features: Some(strings(&["a"])),
            workspace: "/work".to_string(),
            overwrite: false,
        }
    );
    let layout = project.layout();
    assert_eq!(layout.config_dir, "/work/target/tests/host/macrotest007/.cargo");
    assert_eq!(layout.config, "/work/target/tests/host/macrotest007/.cargo/config");
    assert_eq!(layout.manifest, "/work/target/tests/host/macrotest007/Cargo.toml");
    assert_eq!(layout.stub, "/work/target/tests/host/macrotest007/main.rs");
    assert_eq!(project.stub(), "fn main() {}\n");
    let overwriting = Host { overwrite: Some("overwrite".to_string()), ..host.clone() };
    assert!(prepare(metadata.clone(), overwriting, 0).unwrap().overwrite);
    assert_ne!(
        prepare(metadata.clone(), host.clone(), 1).unwrap().dir,
        prepare(metadata, host, 2).unwrap().dir
    );
}

#[test]
fn a_host_that_is_not_known_is_refused() {
    let metadata =
        Metadata { target_directory: "/work/target".to_string(), workspace_root: "/work".to_string() };
    let host = Host {
        crate_name: Some("host".to_string()),
        manifest_dir: Some("/work/host".to_string()),
        features: None,
        overwrite: Some("Overwrite".to_string()),
    };
    assert_eq!(
        prepare(metadata.clone(), host.clone(), 0),
        Err(Error::UnrecognizedEnv("Overwrite".to_string()))
    );
    assert_eq!(
        prepare(metadata.clone(), Host { manifest_dir: None, ..host.clone() }, 0),
        Err(Error::ManifestDir)
    );
    assert_eq!(
        prepare(metadata, Host { crate_name: None, manifest_dir: None, ..host }, 0),
        Err(Error::PkgName)
    );
}

#[test]
fn the_manifest_of_the_scratch_project() {
    let mut source = macrotest::dependencies::Manifest::default();
    source.package.edition = Edition(serde_json::Value::from("2018"));
    source.features.insert("extra".to_string(), strings(&["dep/extra"]));
    source.dependencies.insert("serde".to_string(), dependency(Some("1"), None));
    source.dependencies.insert("shared".to_string(), dependency(Some("1"), None));
    source.dev_dependencies.insert("shared".to_string(), dependency(Some("2"), None));
    source.dev_dependencies.insert("host".to_string(), dependency(Some("9"), None));
    let mut workspace = macrotest::dependencies::WorkspaceManifest::default();
    workspace.replace.insert("foo:0.1.0".to_string(), patch(Some("/work/foo"), None));
    workspace.patch.insert("crates-io".to_string(), RegistryPatch { crates: Table::new() });
    let tests = vec![
        unit("macrotest000", "tests/expand/a.rs"),
        ExpandedTest {
            name: Name("*".to_string()),
            test: "tests/**x/*.rs".to_string(),
            error: Some(Error::GlobPattern("bad".to_string())),
        },
        unit("macrotest001", "/abs/b.rs"),
    ];
    let manifest = make_manifest("host".to_string(), &project(), &tests, source, workspace);
    assert_eq!(manifest.package.name, "host-tests");
    assert_eq!(manifest.package.version, "0.0.0");
    assert_eq!(manifest.package.edition.0, serde_json::Value::from("2018"));
    assert!(!manifest.package.publish);
    assert!(manifest.cargo_features.is_empty());
    assert_eq!(manifest.features.len(), 1);
    assert_eq!(manifest.features.get("extra"), Some(&strings(&["host/extra"])));
    assert_eq!(manifest.dependencies.len(), 3);
    assert_eq!(manifest.dependencies.get("serde").unwrap().version, Some("1".to_string()));
    assert_eq!(manifest.dependencies.get("shared").unwrap().version, Some("2".to_string()));
    let own = manifest.dependencies.get("host").unwrap();
    assert_eq!(own.version, None);
    assert_eq!(own.path, Some("/work/host".to_string()));
    assert!(!own.default_features);
    assert!(own.features.is_empty());
    assert!(!own.workspace);
    assert!(own.rest.is_empty());
    assert!(manifest.dev_dependencies.is_empty());
    let bins: Vec<(String, String)> =
        manifest.bins.iter().map(|bin| (bin.name.0.clone(), bin.path.clone())).collect();
    assert_eq!(
        bins,
        vec![
            ("host-tests".to_string(), "main.rs".to_string()),
            ("macrotest000".to_string(), "/work/host/tests/expand/a.rs".to_string()),
            ("macrotest001".to_string(), "/abs/b.rs".to_string()),
        ]
    );
    let workspace = manifest.workspace.unwrap();
    assert!(workspace.package.is_none());
    assert!(workspace.dependencies.is_empty());
    assert_eq!(manifest.replace.get("foo:0.1.0").unwrap().path, Some("/work/foo".to_string()));
    assert!(manifest.patch.contains_key("crates-io"));
}

#[test]
fn features_that_the_manifest_does_not_know_are_switched_off() {
    let mut known: Table<Vec<String>> = Table::new();
    known.insert("a".to_string(), Vec::new());
    known.insert("c".to_string(), Vec::new());
    assert_eq!(
        retain_features(Some(strings(&["c", "b", "a", "c"])), &known),
        Some(strings(&["c", "a", "c"]))
    );
    assert_eq!(retain_features(Some(Vec::new()), &known), Some(Vec::new()));
    assert_eq!(retain_features(None, &known), None);
}
