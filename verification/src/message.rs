//! What is reported of a test unit that failed.

use vstd::prelude::*;
use vstd::string::*;
use vstd::utf8::{decode_utf8, encode_utf8, encode_utf8_decode_utf8, encode_utf8_valid_utf8, valid_utf8};
use crate::decimal::{digits, push_digits};
use crate::strings::{from_utf8, from_utf8_lossy, join2, str_contains, str_ends_with, str_starts_with, utf8_lossy};
use crate::text::occurs_in;

verus! {

/// One step of the way from one text to another, line by line.
#[derive(Debug, Clone, PartialEq, Eq)]
pub enum Change {
    /// A line that only the first text holds.
    Left(String),
    /// A line that both texts hold.
    Both(String, String),
    /// A line that only the second text holds.
    Right(String),
}

/// A `Change`, with the lines as their characters.
pub enum ChangeText {
    Left(Seq<char>),
    Both(Seq<char>, Seq<char>),
    Right(Seq<char>),
}

impl View for Change {
    type V = ChangeText;

    open spec fn view(&self) -> ChangeText {
        match self {
            Change::Left(x) => ChangeText::Left(x@),
            Change::Both(x, y) => ChangeText::Both(x@, y@),
            Change::Right(x) => ChangeText::Right(x@),
        }
    }
}

/// What a row of changes holds.
pub open spec fn change_texts(changes: Seq<Change>) -> Seq<ChangeText> {
    Seq::new(changes.len(), |i: int| changes[i]@)
}

/// The changes that `diff::lines` finds between two texts.
pub uninterp spec fn line_changes(left: Seq<char>, right: Seq<char>) -> Seq<ChangeText>;

/// `diff::lines`: the steps that lead from the lines of `left` to the lines
/// of `right`. The contract gives the result its name and claims no more of
/// it. Each step is copied into the library's own type, variant by variant.
#[verifier::external_body]
pub(crate) fn diff_lines(left: &str, right: &str) -> (out: Vec<Change>)
    ensures
        change_texts(out@) == line_changes(left@, right@),
{
    diff::lines(left, right).into_iter().map(|change| match change {
        diff::Result::Left(x) => Change::Left(x.to_owned()),
        diff::Result::Both(x, y) => Change::Both(x.to_owned(), y.to_owned()),
        diff::Result::Right(x) => Change::Right(x.to_owned()),
    }).collect()
}

/// How many of `changes` are lines of the first text only.
pub open spec fn count_left(changes: Seq<ChangeText>) -> nat
    decreases changes.len(),
{
    if changes.len() == 0 {
        0
    } else {
        count_left(changes.drop_last()) + if changes.last() is Left {
            1nat
        } else {
            0nat
        }
    }
}

/// How many of `changes` are lines of the second text only.
pub open spec fn count_right(changes: Seq<ChangeText>) -> nat
    decreases changes.len(),
{
    if changes.len() == 0 {
        0
    } else {
        count_right(changes.drop_last()) + if changes.last() is Right {
            1nat
        } else {
            0nat
        }
    }
}

/// The line that shows one change.
pub open spec fn change_line(change: ChangeText) -> Seq<char> {
    match change {
        ChangeText::Both(x, _) => " "@ + x,
        ChangeText::Left(x) => "+"@ + x,
        ChangeText::Right(x) => "-"@ + x,
    }
}

/// The line that separates the changes from what is around them.
pub open spec fn rule_line() -> Seq<char> {
    "--------------------------"@
}

/// The line that counts the changes.
pub open spec fn summary_line(changes: Seq<ChangeText>) -> Seq<char> {
    "Diff [lines: "@ + digits(count_left(changes)) + " added, "@ + digits(count_right(changes))
        + " removed]:"@
}

/// The report of a unit named `name` whose expansion differs from its
/// snapshot by `changes`.
pub open spec fn difference_report(name: Seq<char>, changes: Seq<ChangeText>) -> Seq<Seq<char>> {
    seq![name + " - different!"@, summary_line(changes), rule_line()] + Seq::new(
        changes.len(),
        |i: int| change_line(changes[i]),
    ) + seq![rule_line()]
}

/// What a row of lines holds, each as its characters.
pub open spec fn line_texts(lines: Seq<String>) -> Seq<Seq<char>> {
    Seq::new(lines.len(), |i: int| lines[i]@)
}

/// The report of a unit named `name` whose expansion differs from its
/// snapshot by `changes`: a headline, the count of the lines on either side,
/// and every line with a mark in front.
pub fn render_changes(name: &str, changes: &Vec<Change>) -> (out: Vec<String>)
    ensures
        line_texts(out@) == difference_report(name@, change_texts(changes@)),
{
    let ghost texts = change_texts(changes@);
    let mut lines_added: usize = 0;
    let mut lines_removed: usize = 0;
    let mut i: usize = 0;
    assert(texts.take(0) =~= Seq::<ChangeText>::empty());
    while i < changes.len()
        invariant
            i <= changes.len(),
            texts == change_texts(changes@),
            lines_added == count_left(texts.take(i as int)),
            lines_removed == count_right(texts.take(i as int)),
            lines_added <= i,
            lines_removed <= i,
        decreases changes.len() - i,
    {
        proof {
            assert(texts.take(i + 1).drop_last() =~= texts.take(i as int));
            assert(texts.take(i + 1).last() == changes@[i as int]@);
        }
        match &changes[i] {
            Change::Left(_) => {
                lines_added = lines_added + 1;
            },
            Change::Right(_) => {
                lines_removed = lines_removed + 1;
            },
            Change::Both(_, _) => {},
        }
        i = i + 1;
    }
    assert(texts.take(changes@.len() as int) =~= texts);
    let mut out: Vec<String> = Vec::new();
    out.push(join2(name, " - different!"));
    let mut summary = "Diff [lines: ".to_owned();
    push_digits(&mut summary, lines_added);
    summary.append(" added, ");
    push_digits(&mut summary, lines_removed);
    summary.append(" removed]:");
    out.push(summary);
    out.push("--------------------------".to_owned());
    let ghost head = seq![name@ + " - different!"@, summary_line(texts), rule_line()];
    assert(line_texts(out@) =~= head);
    let mut k: usize = 0;
    while k < changes.len()
        invariant
            k <= changes.len(),
            texts == change_texts(changes@),
            line_texts(out@) == head + Seq::new(k as nat, |i: int| change_line(texts[i])),
        decreases changes.len() - k,
    {
        let ghost before = line_texts(out@);
        let line = match &changes[k] {
            Change::Both(x, _) => join2(" ", x.as_str()),
            Change::Left(x) => join2("+", x.as_str()),
            Change::Right(x) => join2("-", x.as_str()),
        };
        assert(line@ == change_line(texts[k as int]));
        out.push(line);
        proof {
            assert(line_texts(out@) =~= before.push(line@));
            assert(line_texts(out@) =~= head + Seq::new(
                (k + 1) as nat,
                |i: int| change_line(texts[i]),
            ));
        }
        k = k + 1;
    }
    let ghost before = line_texts(out@);
    out.push("--------------------------".to_owned());
    assert(line_texts(out@) =~= before.push(rule_line()));
    assert(line_texts(out@) =~= difference_report(name@, texts));
    out
}

/// The report of the unit `name` whose expansion `b` differs from its
/// snapshot `a`: the lines of `render_changes` for the changes between what
/// the two spell.
pub fn message_different(name: &str, a: &[u8], b: &[u8]) -> (out: Vec<String>)
    ensures
        line_texts(out@) == difference_report(
            name@,
            line_changes(utf8_lossy(a@), utf8_lossy(b@)),
        ),
{
    let a = from_utf8_lossy(a);
    let b = from_utf8_lossy(b);
    let changes = diff_lines(a.as_str(), b.as_str());
    render_changes(name, &changes)
}

/// The message says that `cargo` knows no subcommand `expand`.
pub open spec fn lacks_subcommand(msg: Seq<char>) -> bool {
    occurs_in(encode_utf8("no such subcommand: `expand`"@), encode_utf8(msg))
}

/// The message says that a toolchain is not installed.
pub open spec fn lacks_toolchain(msg: Seq<char>) -> bool {
    &&& encode_utf8("error: toolchain '"@).is_prefix_of(encode_utf8(msg))
    &&& encode_utf8("is not installed"@).is_suffix_of(encode_utf8(msg))
}

/// The advice for a user who has not installed `cargo expand`.
pub open spec fn subcommand_advice() -> Seq<Seq<char>> {
    seq![
        "Perhaps, `cargo expand` is not installed?"@,
        "Install it by running:"@,
        ""@,
        "\tcargo install cargo-expand"@,
        ""@,
    ]
}

/// The advice for a user who has not installed the nightly compiler.
pub open spec fn toolchain_advice() -> Seq<Seq<char>> {
    seq![
        "You have `cargo expand` installed but it requires *nightly* compiler to be installed as well."@,
        "To install it via rustup, run:"@,
        ""@,
        "\trustup toolchain install nightly"@,
        ""@,
    ]
}

/// The report of an expansion that failed with the message `msg`.
pub open spec fn printable_report(msg: Seq<char>) -> Seq<Seq<char>> {
    seq!["Expansion error:"@, msg] + (if lacks_subcommand(msg) {
        subcommand_advice()
    } else {
        Seq::empty()
    }) + (if lacks_toolchain(msg) {
        toolchain_advice()
    } else {
        Seq::empty()
    })
}

/// The report of an expansion that failed with a message that is no text.
pub open spec fn unprintable_report() -> Seq<Seq<char>> {
    seq!["Expansion error:"@, "<unprintable>"@]
}

/// The report of an expansion that failed with the text `msg`: the message,
/// and advice where the message shows what is missing.
pub fn render_expansion_error(msg: String) -> (out: Vec<String>)
    ensures
        line_texts(out@) == printable_report(msg@),
{
    let no_subcommand = str_contains(msg.as_str(), "no such subcommand: `expand`");
    let no_toolchain = str_starts_with(msg.as_str(), "error: toolchain '") && str_ends_with(
        msg.as_str(),
        "is not installed",
    );
    let ghost text = msg@;
    let mut out: Vec<String> = Vec::new();
    out.push("Expansion error:".to_owned());
    out.push(msg);
    assert(line_texts(out@) =~= seq!["Expansion error:"@, text]);
    if no_subcommand {
        let ghost before = line_texts(out@);
        out.push("Perhaps, `cargo expand` is not installed?".to_owned());
        out.push("Install it by running:".to_owned());
        out.push("".to_owned());
        out.push("\tcargo install cargo-expand".to_owned());
        out.push("".to_owned());
        assert(line_texts(out@) =~= before + subcommand_advice());
    } else {
        assert(line_texts(out@) + Seq::<Seq<char>>::empty() =~= line_texts(out@));
    }
    if no_toolchain {
        let ghost before = line_texts(out@);
        out.push(
            "You have `cargo expand` installed but it requires *nightly* compiler to be installed as well.".to_owned(),
        );
        out.push("To install it via rustup, run:".to_owned());
        out.push("".to_owned());
        out.push("\trustup toolchain install nightly".to_owned());
        out.push("".to_owned());
        assert(line_texts(out@) =~= before + toolchain_advice());
    } else {
        assert(line_texts(out@) + Seq::<Seq<char>>::empty() =~= line_texts(out@));
    }
    out
}

/// The report of an expansion that failed with the output `msg`.
pub open spec fn expansion_error_report(msg: Seq<u8>) -> Seq<Seq<char>> {
    if valid_utf8(msg) {
        printable_report(decode_utf8(msg))
    } else {
        unprintable_report()
    }
}

/// The report of an expansion that failed with the output `msg`: that of
/// `render_expansion_error` where the output is a text, and a line that says
/// so where it is not.
pub fn message_expansion_error(msg: Vec<u8>) -> (out: Vec<String>)
    ensures
        line_texts(out@) == expansion_error_report(msg@),
{
    match from_utf8(msg) {
        Some(text) => {
            proof {
                encode_utf8_valid_utf8(text@);
                encode_utf8_decode_utf8(text@);
            }
            render_expansion_error(text)
        },
        None => {
            let mut out: Vec<String> = Vec::new();
            out.push("Expansion error:".to_owned());
            out.push("<unprintable>".to_owned());
            assert(line_texts(out@) =~= unprintable_report());
            out
        },
    }
}

} // verus!
