//! Lines of a text, and the comparison of two texts line by line.
//!
//! A text is cut at every line feed. A line does not hold its line feed, nor
//! one carriage return before it. Empty lines at the end of a text do not
//! count when two texts are compared, so the number of line feeds that a text
//! ends with makes no difference.

use vstd::prelude::*;
use crate::text::{copy_range, same_bytes, LF, CR};

verus! {

/// The offset of the first line feed in `s`, or `s.len()` if there is none.
pub open spec fn line_end(s: Seq<u8>) -> int
    decreases s.len(),
{
    if s.len() == 0 || s[0] == LF {
        0
    } else {
        1 + line_end(s.drop_first())
    }
}

/// `s` without the carriage return that it ends with, if it ends with one.
pub open spec fn without_cr(s: Seq<u8>) -> Seq<u8> {
    if s.len() > 0 && s.last() == CR {
        s.drop_last()
    } else {
        s
    }
}

/// The lines of `s`, in order.
pub open spec fn split_lines(s: Seq<u8>) -> Seq<Seq<u8>>
    decreases s.len(),
    via split_lines_decreases
{
    if s.len() == 0 {
        Seq::empty()
    } else {
        let k = line_end(s);
        let head = seq![without_cr(s.subrange(0, k))];
        if k < s.len() {
            head + split_lines(s.subrange(k + 1, s.len() as int))
        } else {
            head
        }
    }
}

#[via_fn]
proof fn split_lines_decreases(s: Seq<u8>) {
    if s.len() != 0 {
        lemma_line_end(s);
    }
}

/// `line_end(s)` lies within `s`, no byte before it is a line feed, and the
/// byte at it is one unless it is the end of `s`.
pub proof fn lemma_line_end(s: Seq<u8>)
    ensures
        0 <= line_end(s) <= s.len(),
        forall|j: int| 0 <= j < line_end(s) ==> s[j] != LF,
        line_end(s) < s.len() ==> s[line_end(s)] == LF,
    decreases s.len(),
{
    if s.len() == 0 || s[0] == LF {
    } else {
        let t = s.drop_first();
        lemma_line_end(t);
        assert forall|j: int| 0 <= j < line_end(s) implies s[j] != LF by {
            if j > 0 {
                assert(s[j] == t[j - 1]);
            }
        }
        if line_end(s) < s.len() {
            assert(s[line_end(s)] == t[line_end(t)]);
        }
    }
}

/// An offset with no line feed before it, which is the end of `s` or holds a
/// line feed, is `line_end(s)`.
pub proof fn lemma_line_end_is(s: Seq<u8>, k: int)
    requires
        0 <= k <= s.len(),
        forall|j: int| 0 <= j < k ==> s[j] != LF,
        k < s.len() ==> s[k] == LF,
    ensures
        line_end(s) == k,
{
    lemma_line_end(s);
    let e = line_end(s);
    if e < k {
        assert(s[e] == LF);
    } else if k < e {
        assert(s[k] == LF);
    }
}

/// No line holds a line feed.
pub open spec fn no_line_feed(line: Seq<u8>) -> bool {
    forall|j: int| 0 <= j < line.len() ==> line[j] != LF
}

/// No line of a text holds a line feed.
pub proof fn lemma_split_lines_plain(s: Seq<u8>)
    ensures
        forall|i: int| 0 <= i < split_lines(s).len() ==> no_line_feed(#[trigger] split_lines(s)[i]),
    decreases s.len(),
{
    if s.len() != 0 {
        lemma_line_end(s);
        let k = line_end(s);
        let first = without_cr(s.subrange(0, k));
        assert(no_line_feed(first)) by {
            assert forall|j: int| 0 <= j < first.len() implies first[j] != LF by {
                assert(first[j] == s[j]);
            }
        }
        if k < s.len() {
            let rest = s.subrange(k + 1, s.len() as int);
            lemma_split_lines_plain(rest);
            assert forall|i: int| 0 <= i < split_lines(s).len() implies no_line_feed(
                #[trigger] split_lines(s)[i],
            ) by {
                if i > 0 {
                    assert(split_lines(s)[i] == split_lines(rest)[i - 1]);
                }
            }
        }
    }
}

/// What a list of lines holds, each line as its bytes.
pub open spec fn rows(v: Seq<Vec<u8>>) -> Seq<Seq<u8>> {
    Seq::new(v.len(), |i: int| v[i]@)
}

/// The lines of `text`.
pub fn lines(text: &[u8]) -> (out: Vec<Vec<u8>>)
    ensures
        rows(out@) == split_lines(text@),
{
    let mut out: Vec<Vec<u8>> = Vec::new();
    let n: usize = text.len();
    let mut pos: usize = 0;
    assert(text@.subrange(0, n as int) =~= text@);
    assert(rows(out@) =~= Seq::<Seq<u8>>::empty());
    while pos < n
        invariant
            n == text.len(),
            pos <= n,
            split_lines(text@) == rows(out@) + split_lines(text@.subrange(pos as int, n as int)),
        decreases n - pos,
    {
        let ghost rest = text@.subrange(pos as int, n as int);
        let ghost before = rows(out@);
        let mut k: usize = pos;
        while k < n && text[k] != LF
            invariant
                n == text.len(),
                pos <= k <= n,
                forall|j: int| pos <= j < k ==> text@[j] != LF,
            decreases n - k,
        {
            k = k + 1;
        }
        proof {
            lemma_line_end_is(rest, k - pos);
            assert(rest.subrange(0, k - pos) =~= text@.subrange(pos as int, k as int));
        }
        let stop: usize = if k > pos && text[k - 1] == CR {
            k - 1
        } else {
            k
        };
        let line = copy_range(text, pos, stop);
        proof {
            let whole = text@.subrange(pos as int, k as int);
            assert(line@ =~= without_cr(whole));
        }
        out.push(line);
        proof {
            assert(rows(out@) =~= before.push(line@));
        }
        if k < n {
            proof {
                assert(rest.subrange(k - pos + 1, rest.len() as int) =~= text@.subrange(
                    k + 1,
                    n as int,
                ));
            }
            pos = k + 1;
        } else {
            pos = n;
        }
        proof {
            let tail = text@.subrange(pos as int, n as int);
            assert(split_lines(rest) =~= seq![line@] + split_lines(tail));
            assert(before + (seq![line@] + split_lines(tail)) =~= before.push(line@) + split_lines(
                tail,
            ));
        }
    }
    assert(rows(out@) + Seq::<Seq<u8>>::empty() =~= rows(out@));
    out
}

/// `ls` without the empty lines that it ends with.
pub open spec fn trim_blank(ls: Seq<Seq<u8>>) -> Seq<Seq<u8>>
    decreases ls.len(),
{
    if ls.len() > 0 && ls.last().len() == 0 {
        trim_blank(ls.drop_last())
    } else {
        ls
    }
}

/// The lines of `s` that count: all but the empty lines at its end.
pub open spec fn content_lines(s: Seq<u8>) -> Seq<Seq<u8>> {
    trim_blank(split_lines(s))
}

/// Two texts hold the same lines.
pub open spec fn same_text(a: Seq<u8>, b: Seq<u8>) -> bool {
    content_lines(a) == content_lines(b)
}

/// The trimmed list is a prefix of the list, and does not end with an empty
/// line.
pub proof fn lemma_trim_blank(ls: Seq<Seq<u8>>)
    ensures
        trim_blank(ls).len() <= ls.len(),
        trim_blank(ls) == ls.take(trim_blank(ls).len() as int),
        trim_blank(ls).len() > 0 ==> trim_blank(ls).last().len() > 0,
        forall|i: int| trim_blank(ls).len() <= i < ls.len() ==> (#[trigger] ls[i]).len() == 0,
    decreases ls.len(),
{
    if ls.len() > 0 && ls.last().len() == 0 {
        let shorter = ls.drop_last();
        lemma_trim_blank(shorter);
        let n = trim_blank(shorter).len() as int;
        assert(shorter.take(n) =~= ls.take(n));
        assert forall|i: int| trim_blank(ls).len() <= i < ls.len() implies (#[trigger] ls[i]).len()
            == 0 by {
            if i < ls.len() - 1 {
                assert(ls[i] == shorter[i]);
            }
        }
    } else {
        assert(ls.take(ls.len() as int) =~= ls);
    }
}

/// Drops the empty lines at the end of `ls`.
pub fn trim(ls: &mut Vec<Vec<u8>>)
    ensures
        rows(final(ls)@) == trim_blank(rows(old(ls)@)),
{
    while ls.len() > 0 && ls[ls.len() - 1].len() == 0
        invariant
            trim_blank(rows(ls@)) == trim_blank(rows(old(ls)@)),
        decreases ls.len(),
    {
        let ghost before = rows(ls@);
        ls.pop();
        assert(rows(ls@) =~= before.drop_last());
    }
    proof {
        let now = rows(ls@);
        if now.len() > 0 {
            assert(now.last() == ls@[ls.len() - 1]@);
        }
    }
}

/// Whether two lists of lines are equal.
pub fn same_lines(a: &Vec<Vec<u8>>, b: &Vec<Vec<u8>>) -> (r: bool)
    ensures
        r == (rows(a@) == rows(b@)),
{
    if a.len() != b.len() {
        assert(rows(a@).len() != rows(b@).len());
        return false;
    }
    let mut i: usize = 0;
    while i < a.len()
        invariant
            a.len() == b.len(),
            i <= a.len(),
            forall|j: int| 0 <= j < i ==> a@[j]@ == b@[j]@,
        decreases a.len() - i,
    {
        if !same_bytes(a[i].as_slice(), b[i].as_slice()) {
            assert(rows(a@)[i as int] != rows(b@)[i as int]);
            return false;
        }
        i = i + 1;
    }
    assert(rows(a@) =~= rows(b@));
    true
}

/// Whether two texts hold the same lines.
pub fn texts_agree(a: &[u8], b: &[u8]) -> (r: bool)
    ensures
        r == same_text(a@, b@),
{
    let mut la = lines(a);
    let mut lb = lines(b);
    trim(&mut la);
    trim(&mut lb);
    same_lines(&la, &lb)
}

/// `n` line feeds.
pub open spec fn line_feeds(n: nat) -> Seq<u8> {
    Seq::new(n, |i: int| LF)
}

/// A line feed at the end of a text ends its last line, or adds an empty line
/// where the last line was ended already.
pub proof fn lemma_split_lines_push_lf(s: Seq<u8>)
    ensures
        split_lines(s.push(LF)) == if s.len() == 0 || s.last() == LF {
            split_lines(s).push(Seq::<u8>::empty())
        } else {
            split_lines(s)
        },
    decreases s.len(),
{
    let t = s.push(LF);
    let none = Seq::<u8>::empty();
    if s.len() == 0 {
        lemma_line_end_is(t, 0);
        assert(t.subrange(0, 0) =~= none);
        assert(t.subrange(1, 1) =~= none);
        assert(split_lines(none) =~= Seq::<Seq<u8>>::empty());
        assert(split_lines(t) =~= seq![none]);
        assert(split_lines(s).push(none) =~= seq![none]);
    } else {
        lemma_line_end(s);
        let k = line_end(s);
        assert forall|j: int| 0 <= j < k implies t[j] != LF by {
            assert(t[j] == s[j]);
        }
        lemma_line_end_is(t, k);
        assert(t.subrange(0, k) =~= s.subrange(0, k));
        let head = seq![without_cr(s.subrange(0, k))];
        if k < s.len() {
            let rest = s.subrange(k + 1, s.len() as int);
            assert(t.subrange(k + 1, t.len() as int) =~= rest.push(LF));
            lemma_split_lines_push_lf(rest);
            if rest.len() == 0 {
                assert(split_lines(rest) =~= Seq::<Seq<u8>>::empty());
            } else {
                assert(rest.last() == s.last());
            }
            if s.last() == LF {
                assert(head + split_lines(rest).push(none) =~= (head + split_lines(rest)).push(
                    none,
                ));
            }
        } else {
            assert(t.subrange(k + 1, t.len() as int) =~= none);
            assert(split_lines(none) =~= Seq::<Seq<u8>>::empty());
            assert(head + Seq::<Seq<u8>>::empty() =~= head);
        }
    }
}

/// The lines that count stay what they are however many line feeds are put
/// at the end of a text.
pub proof fn lemma_line_feeds_do_not_count(s: Seq<u8>, n: nat)
    ensures
        content_lines(s + line_feeds(n)) == content_lines(s),
    decreases n,
{
    if n == 0 {
        assert(s + line_feeds(0) =~= s);
    } else {
        let shorter = s + line_feeds((n - 1) as nat);
        lemma_line_feeds_do_not_count(s, (n - 1) as nat);
        assert(s + line_feeds(n) =~= shorter.push(LF));
        lemma_split_lines_push_lf(shorter);
        let ls = split_lines(shorter);
        assert(ls.push(Seq::<u8>::empty()).drop_last() =~= ls);
    }
}

/// Two texts that differ only in how many line feeds they end with hold the
/// same lines.
pub proof fn lemma_trailing_line_feeds(s: Seq<u8>, m: nat, n: nat)
    ensures
        same_text(s + line_feeds(m), s + line_feeds(n)),
{
    lemma_line_feeds_do_not_count(s, m);
    lemma_line_feeds_do_not_count(s, n);
}

/// The lines of `ls`, each followed by a line feed.
pub open spec fn join_lines(ls: Seq<Seq<u8>>) -> Seq<u8>
    decreases ls.len(),
{
    if ls.len() == 0 {
        Seq::empty()
    } else {
        join_lines(ls.drop_last()) + ls.last().push(LF)
    }
}

/// The text that holds the lines of `ls` up to its last line that is not
/// empty, each followed by a line feed; a single line feed if there is none.
pub open spec fn canonical_text(ls: Seq<Seq<u8>>) -> Seq<u8> {
    let kept = trim_blank(ls);
    if kept.len() == 0 {
        seq![LF]
    } else {
        join_lines(kept)
    }
}

/// A text ends with exactly one line feed.
pub open spec fn ends_with_one_line_feed(s: Seq<u8>) -> bool {
    &&& s.len() > 0
    &&& s.last() == LF
    &&& s.len() > 1 ==> s[s.len() - 2] != LF
}

/// The canonical text of lines that hold no line feed ends with exactly one
/// line feed.
pub proof fn lemma_canonical_text_ending(ls: Seq<Seq<u8>>)
    requires
        forall|i: int| 0 <= i < ls.len() ==> no_line_feed(#[trigger] ls[i]),
    ensures
        ends_with_one_line_feed(canonical_text(ls)),
{
    lemma_trim_blank(ls);
    let kept = trim_blank(ls);
    if kept.len() > 0 {
        let last = kept.last();
        assert(last == ls[kept.len() - 1]);
        assert(no_line_feed(last));
        let text = join_lines(kept);
        assert(text == join_lines(kept.drop_last()) + last.push(LF));
        assert(text[text.len() - 2] == last[last.len() - 1]);
    }
}

/// The canonical text of `ls`.
pub fn canonical(ls: &Vec<Vec<u8>>) -> (out: Vec<u8>)
    ensures
        out@ == canonical_text(rows(ls@)),
{
    let ghost all = rows(ls@);
    let mut end: usize = ls.len();
    assert(all.take(end as int) =~= all);
    while end > 0 && ls[end - 1].len() == 0
        invariant
            end <= ls.len(),
            all == rows(ls@),
            trim_blank(all.take(end as int)) == trim_blank(all),
        decreases end,
    {
        proof {
            assert(all.take(end as int).drop_last() =~= all.take(end - 1));
        }
        end = end - 1;
    }
    let ghost kept = all.take(end as int);
    proof {
        assert(all.take(ls@.len() as int) =~= all);
        assert(trim_blank(kept) == kept);
    }
    let mut out: Vec<u8> = Vec::new();
    if end == 0 {
        out.push(LF);
        assert(out@ =~= seq![LF]);
        return out;
    }
    let mut i: usize = 0;
    assert(kept.take(0) =~= Seq::<Seq<u8>>::empty());
    while i < end
        invariant
            i <= end <= ls.len(),
            kept == rows(ls@).take(end as int),
            out@ == join_lines(kept.take(i as int)),
        decreases end - i,
    {
        let ghost before = out@;
        crate::text::append_bytes(&mut out, ls[i].as_slice());
        out.push(LF);
        proof {
            let now = kept.take(i + 1);
            assert(now.drop_last() =~= kept.take(i as int));
            assert(now.last() == ls@[i as int]@);
            assert(out@ =~= before + ls@[i as int]@.push(LF));
        }
        i = i + 1;
    }
    assert(kept.take(end as int) =~= kept);
    out
}

} // verus!
