//! What the harness asks of `cargo`, and what it makes of the answer.

use vstd::prelude::*;
use vstd::string::*;
use vstd::utf8::encode_utf8;
use crate::manifest::Name;
use crate::strings::str_starts_with;

verus! {

/// What `cargo metadata` tells the harness.
#[derive(Debug, Clone, PartialEq, Eq)]
pub struct Metadata {
    pub target_directory: String,
    pub workspace_root: String,
}

/// The starts of the lines that the compiler puts into every expansion.
pub open spec fn ignored_lines() -> Seq<Seq<char>> {
    seq![
        "#![feature(prelude_import)]"@,
        "#[prelude_import]"@,
        "use std::prelude::"@,
        "#[macro_use]"@,
        "extern crate std;"@,
    ]
}

/// `line` begins with one of `prefixes`.
pub open spec fn begins_with_any(line: Seq<char>, prefixes: Seq<Seq<char>>) -> bool {
    exists|i: int|
        0 <= i < prefixes.len() && encode_utf8(#[trigger] prefixes[i]).is_prefix_of(
            encode_utf8(line),
        )
}

/// Whether `line` is one that the compiler puts into every expansion.
pub fn line_should_be_ignored(line: &str) -> (r: bool)
    ensures
        r == begins_with_any(line@, ignored_lines()),
{
    let r = str_starts_with(line, "#![feature(prelude_import)]") || str_starts_with(
        line,
        "#[prelude_import]",
    ) || str_starts_with(line, "use std::prelude::") || str_starts_with(line, "#[macro_use]")
        || str_starts_with(line, "extern crate std;");
    proof {
        let p = ignored_lines();
        if r {
            let i: int = if encode_utf8(p[0]).is_prefix_of(encode_utf8(line@)) {
                0
            } else if encode_utf8(p[1]).is_prefix_of(encode_utf8(line@)) {
                1
            } else if encode_utf8(p[2]).is_prefix_of(encode_utf8(line@)) {
                2
            } else if encode_utf8(p[3]).is_prefix_of(encode_utf8(line@)) {
                3
            } else {
                4
            };
            assert(encode_utf8(p[i]).is_prefix_of(encode_utf8(line@)));
        }
    }
    r
}

/// The line that the stub entry point leaves in its expansion.
pub open spec fn stub_line() -> Seq<char> {
    "fn main() {}"@
}

/// `line` of the first build's output is shown to the user.
pub open spec fn is_echoed(line: Seq<char>) -> bool {
    &&& !encode_utf8(stub_line()).is_prefix_of(encode_utf8(line))
    &&& !begins_with_any(line, ignored_lines())
}

/// Whether `line` of the first build's output is shown to the user: all
/// lines are, but the stub entry point and what the compiler puts into every
/// expansion.
pub fn line_is_echoed(line: &str) -> (r: bool)
    ensures
        r == is_echoed(line@),
{
    !str_starts_with(line, "fn main() {}") && !line_should_be_ignored(line)
}

/// The lines of `lines` that are shown, in order.
pub open spec fn echoed(lines: Seq<String>) -> Seq<String>
    decreases lines.len(),
{
    if lines.len() == 0 {
        Seq::empty()
    } else {
        let front = echoed(lines.drop_last());
        if is_echoed(lines.last()@) {
            front.push(lines.last())
        } else {
            front
        }
    }
}

/// The output of the build that warms the cache, `lines` being what `cargo`
/// printed: the lines that are shown to the user, in order.
pub fn build_dependencies(lines: Vec<String>) -> (out: Vec<String>)
    ensures
        out@ == echoed(lines@),
{
    let ghost all = lines@;
    let mut rest = lines;
    let mut out: Vec<String> = Vec::new();
    let ghost mut done: int = 0;
    proof {
        assert(all.skip(0) =~= all);
        assert(all.take(0) =~= Seq::<String>::empty());
    }
    while rest.len() > 0
        invariant
            0 <= done <= all.len(),
            rest@ == all.skip(done),
            out@ == echoed(all.take(done)),
        decreases rest.len(),
    {
        let line = rest.remove(0);
        proof {
            assert(line == all[done]);
            assert(rest@ =~= all.skip(done + 1));
            assert(all.take(done + 1).drop_last() =~= all.take(done));
            assert(all.take(done + 1).last() == all[done]);
            done = done + 1;
        }
        if line_is_echoed(line.as_str()) {
            out.push(line);
        }
    }
    proof {
        assert(all.take(done) =~= all);
    }
    out
}

/// What a row of arguments holds, each as its characters.
pub open spec fn arg_texts(args: Seq<String>) -> Seq<Seq<char>> {
    Seq::new(args.len(), |i: int| args[i]@)
}

/// The arguments with which `cargo` expands the target `name`: the
/// subcommand, the target, no theme, and then the caller's own arguments.
pub open spec fn expand_arguments(name: Seq<char>, extra: Option<Seq<Seq<char>>>) -> Seq<Seq<char>> {
    let fixed = seq!["expand"@, "--bin"@, name, "--theme"@, "none"@];
    match extra {
        Some(more) => fixed + more,
        None => fixed,
    }
}

/// The arguments with which `cargo` expands the target `name`.
pub fn expand_command(name: &Name, args: &Option<Vec<String>>) -> (out: Vec<String>)
    ensures
        arg_texts(out@) == expand_arguments(
            name.0@,
            match args {
                Some(more) => Some(arg_texts(more@)),
                None => None,
            },
        ),
{
    let mut out: Vec<String> = Vec::new();
    out.push("expand".to_owned());
    out.push("--bin".to_owned());
    out.push(name.0.clone());
    out.push("--theme".to_owned());
    out.push("none".to_owned());
    let ghost fixed = seq!["expand"@, "--bin"@, name.0@, "--theme"@, "none"@];
    assert(arg_texts(out@) =~= fixed);
    match args {
        Some(more) => {
            let mut i: usize = 0;
            assert(arg_texts(more@).take(0) =~= Seq::<Seq<char>>::empty());
            assert(fixed + Seq::<Seq<char>>::empty() =~= fixed);
            while i < more.len()
                invariant
                    i <= more.len(),
                    arg_texts(out@) == fixed + arg_texts(more@).take(i as int),
                decreases more.len() - i,
            {
                let ghost before = arg_texts(out@);
                out.push(more[i].clone());
                proof {
                    assert(arg_texts(out@) =~= before.push(more@[i as int]@));
                    assert(arg_texts(more@).take(i + 1) =~= arg_texts(more@).take(i as int).push(
                        more@[i as int]@,
                    ));
                }
                i = i + 1;
            }
            assert(arg_texts(more@).take(more@.len() as int) =~= arg_texts(more@));
        },
        None => {},
    }
    out
}

/// What an expansion gave, once `cargo` has run: whether it succeeded, and
/// the bytes to go on with, which are the standard output of a run that
/// succeeded and the standard error of one that failed.
pub fn expand(success: bool, stdout: Vec<u8>, stderr: Vec<u8>) -> (r: (bool, Vec<u8>))
    ensures
        r.0 == success,
        r.1 == if success {
            stdout
        } else {
            stderr
        },
{
    if !success {
        return (false, stderr);
    }
    (true, stdout)
}

} // verus!
