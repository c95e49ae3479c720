//! The test units of a run: what a caller asks for, and the units that a
//! pattern stands for.

use vstd::prelude::*;
use vstd::string::*;
use vstd::utf8::encode_utf8;
use crate::decimal::{lemma_padded_injective, padded, push_padded};
use crate::error::Error;
use crate::manifest::Name;
use crate::outcome::{resolution, resolve, content_of, ExpansionBehavior, ExpansionOutcome};
use crate::paths::{file_stem, file_stem_of, sibling_path, with_file_name};
use crate::project::Project;
use crate::sorting::{in_order, sort_paths};
use crate::strings::{join3, str_ends_with};
use crate::text::contains_byte;

verus! {

/// What a caller asks of the harness.
#[derive(Debug, Clone, PartialEq, Eq)]
pub struct Request {
    /// The path of one test unit, or a pattern with `*` in it.
    pub path: String,
    /// What is done about a snapshot that is missing or differs.
    pub behavior: ExpansionBehavior,
    /// Arguments that are handed on to the expander, behind its own.
    pub args: Option<Vec<String>>,
    /// Whether the expansions are expected to fail.
    pub expect_failure: bool,
}

/// The request made of a path, a behavior, arguments and an expectation.
fn request(path: &str, behavior: ExpansionBehavior, args: Option<Vec<String>>, expect_failure: bool) -> (r:
    Request)
    ensures
        r.path@ == path@,
        r.behavior == behavior,
        r.args == args,
        r.expect_failure == expect_failure,
{
    Request { path: path.to_owned(), behavior, args, expect_failure }
}

/// Asks for the expansion of the files that match `path`. A snapshot that is
/// missing is written; one that differs fails the run.
pub fn expand(path: &str) -> (r: Request)
    ensures
        r.path@ == path@,
        r.behavior is RegenerateFiles,
        r.args is None,
        !r.expect_failure,
{
    request(path, ExpansionBehavior::RegenerateFiles, None, false)
}

/// As `expand`, with arguments that are handed on to the expander.
pub fn expand_args(path: &str, args: Vec<String>) -> (r: Request)
    ensures
        r.path@ == path@,
        r.behavior is RegenerateFiles,
        r.args == Some(args),
        !r.expect_failure,
{
    request(path, ExpansionBehavior::RegenerateFiles, Some(args), false)
}

/// Asks for the expansion of the files that match `path`. A snapshot that is
/// missing fails the run, as does one that differs; nothing is written.
pub fn expand_without_refresh(path: &str) -> (r: Request)
    ensures
        r.path@ == path@,
        r.behavior is ExpectFiles,
        r.args is None,
        !r.expect_failure,
{
    request(path, ExpansionBehavior::ExpectFiles, None, false)
}

/// As `expand_without_refresh`, with arguments that are handed on to the
/// expander.
pub fn expand_without_refresh_args(path: &str, args: Vec<String>) -> (r: Request)
    ensures
        r.path@ == path@,
        r.behavior is ExpectFiles,
        r.args == Some(args),
        !r.expect_failure,
{
    request(path, ExpansionBehavior::ExpectFiles, Some(args), false)
}

/// As `expand`, for files whose expansion is expected to fail: what the
/// expander reports is compared with the snapshot.
pub fn expand_fail(path: &str) -> (r: Request)
    ensures
        r.path@ == path@,
        r.behavior is RegenerateFiles,
        r.args is None,
        r.expect_failure,
{
    request(path, ExpansionBehavior::RegenerateFiles, None, true)
}

/// As `expand_fail`, with arguments that are handed on to the expander.
pub fn expand_args_fail(path: &str, args: Vec<String>) -> (r: Request)
    ensures
        r.path@ == path@,
        r.behavior is RegenerateFiles,
        r.args == Some(args),
        r.expect_failure,
{
    request(path, ExpansionBehavior::RegenerateFiles, Some(args), true)
}

/// As `expand_without_refresh`, for files whose expansion is expected to
/// fail.
pub fn expand_without_refresh_fail(path: &str) -> (r: Request)
    ensures
        r.path@ == path@,
        r.behavior is ExpectFiles,
        r.args is None,
        r.expect_failure,
{
    request(path, ExpansionBehavior::ExpectFiles, None, true)
}

/// As `expand_without_refresh_fail`, with arguments that are handed on to
/// the expander.
pub fn expand_without_refresh_args_fail(path: &str, args: Vec<String>) -> (r: Request)
    ensures
        r.path@ == path@,
        r.behavior is ExpectFiles,
        r.args == Some(args),
        r.expect_failure,
{
    request(path, ExpansionBehavior::ExpectFiles, Some(args), true)
}

/// One test unit: the name of its build target, the path of its source, and
/// what went wrong when it was looked for, if anything did.
#[derive(Debug, Clone, PartialEq, Eq)]
pub struct ExpandedTest {
    pub name: Name,
    pub test: String,
    pub error: Option<Error>,
}

/// The end of the name of every snapshot.
pub open spec fn snapshot_suffix() -> Seq<char> {
    "expanded.rs"@
}

/// The name of the build target of the unit at `i` of a pattern.
pub open spec fn bin_name_text(i: nat) -> Seq<char> {
    "macrotest"@ + padded(i, 3)
}

/// The name of the build target of the unit at `i` of a pattern: it is made
/// of the place of the unit, not of its file name, so that files of one name
/// in two directories do not collide.
pub fn bin_name(i: usize) -> (name: Name)
    ensures
        name.0@ == bin_name_text(i as nat),
{
    let mut text = "macrotest".to_owned();
    push_padded(&mut text, i, 3);
    Name(text)
}

/// Two places have two names.
pub proof fn lemma_bin_names_differ(i: nat, j: nat)
    requires
        i != j,
    ensures
        bin_name_text(i) != bin_name_text(j),
{
    let head = "macrotest"@;
    if bin_name_text(i) == bin_name_text(j) {
        assert(bin_name_text(i).skip(head.len() as int) =~= padded(i, 3));
        assert(bin_name_text(j).skip(head.len() as int) =~= padded(j, 3));
        lemma_padded_injective(i, j, 3);
    }
}

/// The path holds a wildcard.
pub open spec fn is_glob(path: Seq<char>) -> bool {
    encode_utf8(path).contains(42u8)
}

/// Whether the path holds a wildcard, so that the files that match it are to
/// be listed.
pub fn has_wildcard(path: &str) -> (r: bool)
    ensures
        r == is_glob(path@),
{
    contains_byte(path.as_bytes(), 42u8)
}

/// The paths of the sources of `units`, in order.
pub open spec fn tests_of(units: Seq<ExpandedTest>) -> Seq<String> {
    Seq::new(units.len(), |i: int| units[i].test)
}

/// No two of `units` have one identifier.
pub open spec fn distinct_identifiers(units: Seq<ExpandedTest>) -> bool {
    forall|i: int, j: int|
        0 <= i < j < units.len() ==> (#[trigger] units[i]).name.0@ != (#[trigger] units[j]).name.0@
}

/// `units` are the units of the files `paths` that a pattern matched: one
/// unit for each file, in the order of the paths, named by their places.
pub open spec fn lists(units: Seq<ExpandedTest>, paths: Seq<String>) -> bool {
    &&& units.len() == paths.len()
    &&& in_order(tests_of(units))
    &&& tests_of(units).to_multiset() == paths.to_multiset()
    &&& forall|i: int|
        0 <= i < units.len() ==> (#[trigger] units[i]).name.0@ == bin_name_text(i as nat)
            && units[i].error is None
}

/// `units` is the single unit of `path`, named `stem`.
pub open spec fn single(units: Seq<ExpandedTest>, path: Seq<char>, stem: Seq<char>, error: Option<Error>) -> bool {
    &&& units.len() == 1
    &&& units[0].name.0@ == stem
    &&& units[0].test@ == path
    &&& units[0].error == error
}

/// What `expand_globs` gives for `path`, where `matches` is what the listing
/// of the files that match it gave.
pub open spec fn globs_expanded(
    path: Seq<char>,
    matches: Result<Vec<String>, Error>,
    r: Result<Vec<ExpandedTest>, Error>,
) -> bool {
    match file_stem_of(path) {
        None => r == Err::<Vec<ExpandedTest>, Error>(Error::NoFileStem),
        Some(stem) => r matches Ok(units) && distinct_identifiers(units@) && if is_glob(path) {
            match matches {
                Ok(paths) => lists(units@, paths@),
                Err(e) => single(units@, path, stem, Some(e)),
            }
        } else {
            single(units@, path, stem, None)
        },
    }
}

/// The test units that `path` stands for. A path without a wildcard is one
/// unit, named by its file stem. A pattern stands for the files that match
/// it: `matches` is their listing, which is read only then. The units come
/// in the order of their paths and are named by their places. Where the
/// listing failed, the pattern is one unit that carries the error. A path
/// that names no file is refused.
pub fn expand_globs(path: &str, matches: Result<Vec<String>, Error>) -> (r: Result<
    Vec<ExpandedTest>,
    Error,
>)
    ensures
        globs_expanded(path@, matches, r),
{
    let name = match file_stem(path) {
        Some(stem) => stem,
        None => {
            return Err(Error::NoFileStem);
        },
    };
    let mut vec: Vec<ExpandedTest> = Vec::new();
    if !has_wildcard(path) {
        vec.push(ExpandedTest { name: Name(name), test: path.to_owned(), error: None });
        return Ok(vec);
    }
    match matches {
        Err(error) => {
            vec.push(ExpandedTest { name: Name(name), test: path.to_owned(), error: Some(error) });
            Ok(vec)
        },
        Ok(paths) => {
            let sorted = sort_paths(paths);
            let ghost all = sorted@;
            let mut rest = sorted;
            let ghost mut done: int = 0;
            proof {
                assert(all.skip(0) =~= all);
                assert(tests_of(vec@) =~= all.take(0));
            }
            while rest.len() > 0
                invariant
                    0 <= done <= all.len(),
                    rest@ == all.skip(done),
                    vec@.len() == done,
                    tests_of(vec@) == all.take(done),
                    forall|i: int|
                        0 <= i < vec@.len() ==> (#[trigger] vec@[i]).name.0@ == bin_name_text(
                            i as nat,
                        ) && vec@[i].error is None,
                decreases rest.len(),
            {
                let test = rest.remove(0);
                let ghost before = vec@;
                proof {
                    assert(test == all[done]);
                    assert(rest@ =~= all.skip(done + 1));
                }
                vec.push(ExpandedTest { name: bin_name(vec.len()), test, error: None });
                proof {
                    assert(tests_of(vec@) =~= all.take(done + 1));
                    assert forall|i: int| 0 <= i < vec@.len() implies (#[trigger] vec@[i]).name.0@
                        == bin_name_text(i as nat) && vec@[i].error is None by {
                        if i < before.len() {
                            assert(vec@[i] == before[i]);
                        }
                    }
                    done = done + 1;
                }
            }
            proof {
                assert(all.take(done) =~= all);
                assert forall|i: int, j: int| 0 <= i < j < vec@.len() implies (
                #[trigger] vec@[i]).name.0@ != (#[trigger] vec@[j]).name.0@ by {
                    lemma_bin_names_differ(i as nat, j as nat);
                }
            }
            Ok(vec)
        },
    }
}

/// The path is that of a snapshot.
pub open spec fn is_snapshot(path: Seq<char>) -> bool {
    encode_utf8(snapshot_suffix()).is_suffix_of(encode_utf8(path))
}

/// The units of `units` that are tests: those whose path is not that of a
/// snapshot, in order.
pub open spec fn selected(units: Seq<ExpandedTest>) -> Seq<ExpandedTest>
    decreases units.len(),
{
    if units.len() == 0 {
        Seq::empty()
    } else if is_snapshot(units.last().test@) {
        selected(units.drop_last())
    } else {
        selected(units.drop_last()).push(units.last())
    }
}

/// Every selected unit is one of the units, and where the units have
/// identifiers of their own, so have the selected.
pub proof fn lemma_selected(units: Seq<ExpandedTest>)
    ensures
        selected(units).len() <= units.len(),
        forall|i: int|
            0 <= i < selected(units).len() ==> exists|k: int|
                0 <= k < units.len() && units[k] == #[trigger] selected(units)[i],
        distinct_identifiers(units) ==> distinct_identifiers(selected(units)),
    decreases units.len(),
{
    if units.len() > 0 {
        let front = units.drop_last();
        lemma_selected(front);
        let s = selected(units);
        let f = selected(front);
        assert forall|i: int| 0 <= i < s.len() implies exists|k: int|
            0 <= k < units.len() && units[k] == #[trigger] s[i] by {
            if i < f.len() {
                let k = choose|k: int| 0 <= k < front.len() && front[k] == f[i];
                assert(units[k] == s[i]);
            } else {
                assert(units[units.len() - 1] == s[i]);
            }
        }
        if distinct_identifiers(units) {
            assert(distinct_identifiers(front)) by {
                assert forall|i: int, j: int| 0 <= i < j < front.len() implies (
                #[trigger] front[i]).name.0@ != (#[trigger] front[j]).name.0@ by {
                    assert(front[i] == units[i] && front[j] == units[j]);
                }
            }
            assert forall|i: int, j: int| 0 <= i < j < s.len() implies (#[trigger] s[i]).name.0@ != (
            #[trigger] s[j]).name.0@ by {
                if j < f.len() {
                    assert(s[i] == f[i] && s[j] == f[j]);
                } else {
                    let k = choose|k: int| 0 <= k < front.len() && front[k] == f[i];
                    assert(units[k] == s[i]);
                    assert(units[units.len() - 1] == s[j]);
                }
            }
        }
    }
}

/// The units of `units` that are tests: a snapshot that a pattern matched
/// is no test.
pub fn select_tests(units: Vec<ExpandedTest>) -> (out: Vec<ExpandedTest>)
    ensures
        out@ == selected(units@),
        distinct_identifiers(units@) ==> distinct_identifiers(out@),
{
    let ghost all = units@;
    let mut rest = units;
    let mut out: Vec<ExpandedTest> = Vec::new();
    let ghost mut done: int = 0;
    proof {
        assert(all.skip(0) =~= all);
        assert(all.take(0) =~= Seq::<ExpandedTest>::empty());
    }
    while rest.len() > 0
        invariant
            0 <= done <= all.len(),
            rest@ == all.skip(done),
            out@ == selected(all.take(done)),
        decreases rest.len(),
    {
        let unit = rest.remove(0);
        proof {
            assert(unit == all[done]);
            assert(rest@ =~= all.skip(done + 1));
            assert(all.take(done + 1).drop_last() =~= all.take(done));
            assert(all.take(done + 1).last() == all[done]);
            done = done + 1;
        }
        if !str_ends_with(unit.test.as_str(), "expanded.rs") {
            out.push(unit);
        }
    }
    proof {
        assert(all.take(done) =~= all);
        lemma_selected(all);
    }
    out
}

/// The test units of a run on `path`: the units that `path` stands for, but
/// for the snapshots among them. `matches` is the listing of the files that
/// match `path`, which is read only where `path` holds a wildcard.
pub fn discover(path: &str, matches: Result<Vec<String>, Error>) -> (r: Result<
    Vec<ExpandedTest>,
    Error,
>)
    ensures
        match r {
            Ok(tests) => exists|units: Vec<ExpandedTest>|
                globs_expanded(path@, matches, Ok(units)) && tests@ == selected(units@),
            Err(e) => globs_expanded(path@, matches, Err(e)),
        },
        r matches Ok(tests) ==> distinct_identifiers(tests@),
{
    match expand_globs(path, matches) {
        Ok(units) => {
            let ghost all = units;
            let tests = select_tests(units);
            assert(globs_expanded(path@, matches, Ok(all)) && tests@ == selected(all@));
            Ok(tests)
        },
        Err(e) => Err(e),
    }
}

/// The path of the snapshot of the unit whose source is `test`: beside the
/// source, named by its file stem and the suffix of snapshots.
pub open spec fn snapshot_path_of(test: Seq<char>) -> Option<Seq<char>> {
    match file_stem_of(test) {
        Some(stem) => Some(sibling_path(test, stem + "."@ + snapshot_suffix())),
        None => None,
    }
}

impl ExpandedTest {
    /// The path of the snapshot of the unit, or nothing where the path of
    /// its source names no file.
    pub fn snapshot_path(&self) -> (r: Option<String>)
        ensures
            match r {
                Some(path) => snapshot_path_of(self.test@) == Some(path@),
                None => snapshot_path_of(self.test@) is None,
            },
    {
        match file_stem(self.test.as_str()) {
            Some(stem) => {
                let name = join3(stem.as_str(), ".", "expanded.rs");
                Some(with_file_name(self.test.as_str(), name.as_str()))
            },
            None => None,
        }
    }

    /// Decides how the unit ends, once its expansion has been brought into
    /// the canonical form `canonical` and its snapshot has been read:
    /// `snapshot` is its content, or nothing where there is none. The
    /// snapshot is to be written exactly where the outcome is `Update`.
    pub fn run(
        &self,
        project: &Project,
        expansion_behavior: ExpansionBehavior,
        canonical: Vec<u8>,
        snapshot: Option<Vec<u8>>,
    ) -> (outcome: ExpansionOutcome)
        ensures
            outcome@ == resolution(
                canonical@,
                content_of(snapshot),
                expansion_behavior,
                project.overwrite,
            ),
    {
        resolve(canonical, snapshot, expansion_behavior, project.overwrite)
    }
}

} // verus!
