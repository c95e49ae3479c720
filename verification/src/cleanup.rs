//! The canonical form of output that is no source code: what `cargo` and the
//! compiler print differs from run to run and from host to host, and the
//! rules here take out what differs.

use vstd::prelude::*;
use vstd::string::*;
use vstd::utf8::encode_utf8;
use crate::lines::{
    canonical, canonical_text, ends_with_one_line_feed, lemma_canonical_text_ending,
    lemma_split_lines_plain, lines, no_line_feed, rows, split_lines,
};
use crate::text::{copy_range, starts_with};

verus! {

/// What is taken out of a text before it is compared.
#[derive(Debug, Clone, PartialEq, Eq)]
pub struct TextRules {
    /// How many lines at the start of the text are left out.
    pub skip: usize,
    /// A line that begins with one of these is left out.
    pub dropped: Vec<String>,
    /// A line that begins with one of these loses it: the first that it
    /// begins with.
    pub stripped: Vec<String>,
}

/// The bytes of each of `prefixes`.
pub open spec fn prefix_bytes(prefixes: Seq<String>) -> Seq<Seq<u8>> {
    Seq::new(prefixes.len(), |i: int| encode_utf8(prefixes[i]@))
}

/// `line` begins with one of `prefixes`.
pub open spec fn has_prefix(line: Seq<u8>, prefixes: Seq<Seq<u8>>) -> bool {
    exists|i: int| 0 <= i < prefixes.len() && (#[trigger] prefixes[i]).is_prefix_of(line)
}

/// `line` without the first of `prefixes` that it begins with.
pub open spec fn strip_prefix(line: Seq<u8>, prefixes: Seq<Seq<u8>>) -> Seq<u8>
    decreases prefixes.len(),
{
    if prefixes.len() == 0 {
        line
    } else if prefixes[0].is_prefix_of(line) {
        line.skip(prefixes[0].len() as int)
    } else {
        strip_prefix(line, prefixes.drop_first())
    }
}

/// The lines that stay of `lines`: each loses the prefix of `stripped` that
/// it begins with, and is left out if it then begins with one of `dropped`.
pub open spec fn cleaned(lines: Seq<Seq<u8>>, dropped: Seq<Seq<u8>>, stripped: Seq<Seq<u8>>) -> Seq<
    Seq<u8>,
>
    decreases lines.len(),
{
    if lines.len() == 0 {
        Seq::empty()
    } else {
        let front = cleaned(lines.drop_last(), dropped, stripped);
        let line = strip_prefix(lines.last(), stripped);
        if has_prefix(line, dropped) {
            front
        } else {
            front.push(line)
        }
    }
}

/// `lines` without its first `n`; nothing where it has no more than `n`.
pub open spec fn after(lines: Seq<Seq<u8>>, n: nat) -> Seq<Seq<u8>> {
    if n <= lines.len() {
        lines.skip(n as int)
    } else {
        Seq::empty()
    }
}

/// The canonical form of `text` under rules: its lines but the first `skip`,
/// cleaned, up to the last that is not empty, each followed by a line feed.
pub open spec fn normalized_text(
    text: Seq<u8>,
    skip: nat,
    dropped: Seq<Seq<u8>>,
    stripped: Seq<Seq<u8>>,
) -> Seq<u8> {
    canonical_text(cleaned(after(split_lines(text), skip), dropped, stripped))
}

impl TextRules {
    /// The canonical form of `text` under these rules.
    pub open spec fn apply(self, text: Seq<u8>) -> Seq<u8> {
        normalized_text(
            text,
            self.skip as nat,
            prefix_bytes(self.dropped@),
            prefix_bytes(self.stripped@),
        )
    }

    /// Rules that take nothing out.
    pub fn none() -> (rules: Self)
        ensures
            rules.skip == 0,
            rules.dropped@.len() == 0,
            rules.stripped@.len() == 0,
    {
        TextRules { skip: 0, dropped: Vec::new(), stripped: Vec::new() }
    }
}

/// Whether `line` begins with one of `prefixes`.
pub fn begins_with_one(line: &[u8], prefixes: &Vec<String>) -> (r: bool)
    ensures
        r == has_prefix(line@, prefix_bytes(prefixes@)),
{
    let mut i: usize = 0;
    while i < prefixes.len()
        invariant
            i <= prefixes.len(),
            forall|j: int| 0 <= j < i ==> !(#[trigger] prefix_bytes(prefixes@)[j]).is_prefix_of(line@),
        decreases prefixes.len() - i,
    {
        if starts_with(line, prefixes[i].as_str().as_bytes()) {
            assert(prefix_bytes(prefixes@)[i as int].is_prefix_of(line@));
            return true;
        }
        i = i + 1;
    }
    false
}

/// `line` without the first of `prefixes` that it begins with.
pub fn without_prefix(line: &[u8], prefixes: &Vec<String>) -> (out: Vec<u8>)
    ensures
        out@ == strip_prefix(line@, prefix_bytes(prefixes@)),
{
    let ghost all = prefix_bytes(prefixes@);
    let mut i: usize = 0;
    assert(all.skip(0) =~= all);
    while i < prefixes.len()
        invariant
            i <= prefixes.len(),
            all == prefix_bytes(prefixes@),
            strip_prefix(line@, all) == strip_prefix(line@, all.skip(i as int)),
        decreases prefixes.len() - i,
    {
        let prefix = prefixes[i].as_str().as_bytes();
        proof {
            assert(all.skip(i as int)[0] == prefix@);
            assert(all.skip(i as int).drop_first() =~= all.skip(i + 1));
        }
        if starts_with(line, prefix) {
            let out = copy_range(line, prefix.len(), line.len());
            assert(out@ =~= line@.skip(prefix@.len() as int));
            return out;
        }
        i = i + 1;
    }
    let out = copy_range(line, 0, line.len());
    assert(out@ =~= line@);
    out
}

/// A line without a line feed has none once it has lost a prefix.
proof fn lemma_strip_prefix_plain(line: Seq<u8>, prefixes: Seq<Seq<u8>>)
    requires
        no_line_feed(line),
    ensures
        no_line_feed(strip_prefix(line, prefixes)),
    decreases prefixes.len(),
{
    if prefixes.len() > 0 {
        if prefixes[0].is_prefix_of(line) {
            let rest = line.skip(prefixes[0].len() as int);
            assert forall|j: int| 0 <= j < rest.len() implies rest[j] != crate::text::LF by {
                assert(rest[j] == line[j + prefixes[0].len()]);
            }
        } else {
            lemma_strip_prefix_plain(line, prefixes.drop_first());
        }
    }
}

/// Lines without line feeds are cleaned to lines without line feeds.
proof fn lemma_cleaned_plain(lines: Seq<Seq<u8>>, dropped: Seq<Seq<u8>>, stripped: Seq<Seq<u8>>)
    requires
        forall|i: int| 0 <= i < lines.len() ==> no_line_feed(#[trigger] lines[i]),
    ensures
        forall|i: int|
            0 <= i < cleaned(lines, dropped, stripped).len() ==> no_line_feed(
                #[trigger] cleaned(lines, dropped, stripped)[i],
            ),
    decreases lines.len(),
{
    if lines.len() > 0 {
        let front = lines.drop_last();
        assert forall|i: int| 0 <= i < front.len() implies no_line_feed(#[trigger] front[i]) by {
            assert(front[i] == lines[i]);
        }
        lemma_cleaned_plain(front, dropped, stripped);
        assert(no_line_feed(lines[lines.len() - 1]));
        lemma_strip_prefix_plain(lines.last(), stripped);
        let all = cleaned(lines, dropped, stripped);
        let before = cleaned(front, dropped, stripped);
        assert forall|i: int| 0 <= i < all.len() implies no_line_feed(#[trigger] all[i]) by {
            if i < before.len() {
                assert(all[i] == before[i]);
            }
        }
    }
}

/// The canonical form of a text ends with exactly one line feed, whatever
/// the text and the rules.
pub proof fn lemma_normalized_text_ending(
    text: Seq<u8>,
    skip: nat,
    dropped: Seq<Seq<u8>>,
    stripped: Seq<Seq<u8>>,
)
    ensures
        ends_with_one_line_feed(normalized_text(text, skip, dropped, stripped)),
{
    lemma_split_lines_plain(text);
    let all = split_lines(text);
    let rest = after(all, skip);
    assert forall|i: int| 0 <= i < rest.len() implies no_line_feed(#[trigger] rest[i]) by {
        assert(rest[i] == all[i + skip]);
    }
    lemma_cleaned_plain(rest, dropped, stripped);
    lemma_canonical_text_ending(cleaned(rest, dropped, stripped));
}

/// The canonical form of `text` under `rules`.
pub fn normalize_text(text: &[u8], rules: &TextRules) -> (out: Vec<u8>)
    ensures
        out@ == rules.apply(text@),
        ends_with_one_line_feed(out@),
{
    proof {
        lemma_normalized_text_ending(
            text@,
            rules.skip as nat,
            prefix_bytes(rules.dropped@),
            prefix_bytes(rules.stripped@),
        );
    }
    let all = lines(text);
    let ghost dropped = prefix_bytes(rules.dropped@);
    let ghost stripped = prefix_bytes(rules.stripped@);
    let start: usize = if rules.skip <= all.len() {
        rules.skip
    } else {
        all.len()
    };
    let ghost rest = after(rows(all@), rules.skip as nat);
    let mut kept: Vec<Vec<u8>> = Vec::new();
    let mut i: usize = start;
    proof {
        assert(rest =~= rows(all@).skip(start as int));
        assert(rest.take(0) =~= Seq::<Seq<u8>>::empty());
        assert(rows(kept@) =~= Seq::<Seq<u8>>::empty());
    }
    while i < all.len()
        invariant
            start <= i <= all.len(),
            rest == rows(all@).skip(start as int),
            dropped == prefix_bytes(rules.dropped@),
            stripped == prefix_bytes(rules.stripped@),
            rows(kept@) == cleaned(rest.take(i - start), dropped, stripped),
        decreases all.len() - i,
    {
        let ghost before = rows(kept@);
        let line = without_prefix(all[i].as_slice(), &rules.stripped);
        proof {
            let now = rest.take(i + 1 - start);
            assert(now.drop_last() =~= rest.take(i - start));
            assert(now.last() == all@[i as int]@);
        }
        if !begins_with_one(line.as_slice(), &rules.dropped) {
            kept.push(line);
            assert(rows(kept@) =~= before.push(line@));
        }
        i = i + 1;
    }
    proof {
        assert(rest.take(all@.len() - start) =~= rest);
    }
    canonical(&kept)
}

/// Two rows of lines that agree line by line, once each has lost the
/// prefixes of its own host, are cleaned to the same lines.
pub proof fn lemma_cleaned_alike(
    a: Seq<Seq<u8>>,
    b: Seq<Seq<u8>>,
    dropped: Seq<Seq<u8>>,
    stripped_a: Seq<Seq<u8>>,
    stripped_b: Seq<Seq<u8>>,
)
    requires
        a.len() == b.len(),
        forall|i: int|
            0 <= i < a.len() ==> strip_prefix(#[trigger] a[i], stripped_a) == strip_prefix(
                #[trigger] b[i],
                stripped_b,
            ),
    ensures
        cleaned(a, dropped, stripped_a) == cleaned(b, dropped, stripped_b),
    decreases a.len(),
{
    if a.len() > 0 {
        let fa = a.drop_last();
        let fb = b.drop_last();
        assert forall|i: int| 0 <= i < fa.len() implies strip_prefix(
            #[trigger] fa[i],
            stripped_a,
        ) == strip_prefix(#[trigger] fb[i], stripped_b) by {
            assert(fa[i] == a[i] && fb[i] == b[i]);
            assert(strip_prefix(a[i], stripped_a) == strip_prefix(b[i], stripped_b));
        }
        lemma_cleaned_alike(fa, fb, dropped, stripped_a, stripped_b);
        assert(strip_prefix(a[a.len() - 1], stripped_a) == strip_prefix(
            b[a.len() - 1],
            stripped_b,
        ));
    }
}

/// The canonical form does not depend on the host: two texts whose lines
/// agree, once each line has lost the prefixes of the host that it was
/// written on, have one canonical form under rules that differ in those
/// prefixes only.
pub proof fn lemma_host_independent(
    a: Seq<u8>,
    b: Seq<u8>,
    skip: nat,
    dropped: Seq<Seq<u8>>,
    stripped_a: Seq<Seq<u8>>,
    stripped_b: Seq<Seq<u8>>,
)
    requires
        split_lines(a).len() == split_lines(b).len(),
        forall|i: int|
            0 <= i < split_lines(a).len() ==> strip_prefix(
                #[trigger] split_lines(a)[i],
                stripped_a,
            ) == strip_prefix(#[trigger] split_lines(b)[i], stripped_b),
    ensures
        normalized_text(a, skip, dropped, stripped_a) == normalized_text(
            b,
            skip,
            dropped,
            stripped_b,
        ),
{
    let la = after(split_lines(a), skip);
    let lb = after(split_lines(b), skip);
    assert forall|i: int| 0 <= i < la.len() implies strip_prefix(#[trigger] la[i], stripped_a)
        == strip_prefix(#[trigger] lb[i], stripped_b) by {
        assert(la[i] == split_lines(a)[i + skip]);
        assert(lb[i] == split_lines(b)[i + skip]);
        assert(strip_prefix(split_lines(a)[i + skip], stripped_a) == strip_prefix(
            split_lines(b)[i + skip],
            stripped_b,
        ));
    }
    lemma_cleaned_alike(la, lb, dropped, stripped_a, stripped_b);
}

/// A line that was written with the host's prefix in front loses exactly
/// that prefix.
pub proof fn lemma_strip_own_prefix(prefix: Seq<u8>, rest: Seq<u8>)
    ensures
        strip_prefix(prefix + rest, seq![prefix]) == rest,
{
    let line = prefix + rest;
    assert(line.subrange(0, prefix.len() as int) =~= prefix);
    assert(line.skip(prefix.len() as int) =~= rest);
}

} // verus!
