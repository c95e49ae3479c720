//! The order of texts by their bytes, and a sort of paths by it.

use vstd::prelude::*;
use vstd::string::*;
use vstd::multiset::Multiset;
use vstd::utf8::encode_utf8;

verus! {

/// `a` comes before `b`, or is `b`, in the order of the dictionary over
/// bytes.
pub open spec fn lex_le(a: Seq<u8>, b: Seq<u8>) -> bool
    decreases a.len(),
{
    if a.len() == 0 {
        true
    } else if b.len() == 0 {
        false
    } else if a[0] != b[0] {
        a[0] < b[0]
    } else {
        lex_le(a.drop_first(), b.drop_first())
    }
}

/// Of two texts one comes before the other, or they are equal.
pub proof fn lemma_lex_total(a: Seq<u8>, b: Seq<u8>)
    ensures
        lex_le(a, b) || lex_le(b, a),
    decreases a.len(),
{
    if a.len() > 0 && b.len() > 0 && a[0] == b[0] {
        lemma_lex_total(a.drop_first(), b.drop_first());
    }
}

/// The order carries over a text in between.
pub proof fn lemma_lex_transitive(a: Seq<u8>, b: Seq<u8>, c: Seq<u8>)
    requires
        lex_le(a, b),
        lex_le(b, c),
    ensures
        lex_le(a, c),
    decreases a.len(),
{
    if a.len() > 0 && b.len() > 0 && c.len() > 0 && a[0] == b[0] && b[0] == c[0] {
        lemma_lex_transitive(a.drop_first(), b.drop_first(), c.drop_first());
    }
}

/// What two texts share at their start does not decide their order.
proof fn lemma_lex_skip(a: Seq<u8>, b: Seq<u8>, i: int)
    requires
        0 <= i <= a.len(),
        i <= b.len(),
        forall|j: int| 0 <= j < i ==> a[j] == b[j],
    ensures
        lex_le(a, b) == lex_le(a.skip(i), b.skip(i)),
    decreases i,
{
    if i == 0 {
        assert(a.skip(0) =~= a);
        assert(b.skip(0) =~= b);
    } else {
        lemma_lex_skip(a, b, i - 1);
        let x = a.skip(i - 1);
        let y = b.skip(i - 1);
        assert(x[0] == a[i - 1]);
        assert(y[0] == b[i - 1]);
        assert(x.drop_first() =~= a.skip(i));
        assert(y.drop_first() =~= b.skip(i));
    }
}

/// Whether `a` comes before `b`, or is `b`.
pub fn bytes_le(a: &[u8], b: &[u8]) -> (r: bool)
    ensures
        r == lex_le(a@, b@),
{
    let mut i: usize = 0;
    while i < a.len() && i < b.len() && a[i] == b[i]
        invariant
            i <= a.len(),
            i <= b.len(),
            forall|j: int| 0 <= j < i ==> a@[j] == b@[j],
        decreases a.len() - i,
    {
        i = i + 1;
    }
    proof {
        lemma_lex_skip(a@, b@, i as int);
        let x = a@.skip(i as int);
        let y = b@.skip(i as int);
        if i < a.len() && i < b.len() {
            assert(x[0] == a@[i as int]);
            assert(y[0] == b@[i as int]);
        }
    }
    if i == a.len() {
        true
    } else if i == b.len() {
        false
    } else {
        a[i] < b[i]
    }
}

/// Whether the text `a` comes before the text `b`, or is `b`.
pub fn text_le(a: &str, b: &str) -> (r: bool)
    ensures
        r == lex_le(encode_utf8(a@), encode_utf8(b@)),
{
    bytes_le(a.as_bytes(), b.as_bytes())
}

/// The texts of `v` stand in order.
pub open spec fn in_order(v: Seq<String>) -> bool {
    forall|i: int, j: int|
        0 <= i < j < v.len() ==> lex_le(
            encode_utf8((#[trigger] v[i])@),
            encode_utf8((#[trigger] v[j])@),
        )
}

/// Puts `item` into the ordered `v`, behind the texts that are not greater.
pub fn insert_in_order(v: &mut Vec<String>, item: String)
    requires
        in_order(old(v)@),
    ensures
        in_order(final(v)@),
        final(v)@.to_multiset() == old(v)@.to_multiset().insert(item),
        final(v)@.len() == old(v)@.len() + 1,
{
    let ghost key = encode_utf8(item@);
    let mut at: usize = v.len();
    while at > 0 && !text_le(v[at - 1].as_str(), item.as_str())
        invariant
            at <= v.len(),
            v@ == old(v)@,
            key == encode_utf8(item@),
            forall|j: int| at <= j < v.len() ==> lex_le(key, encode_utf8((#[trigger] v@[j])@)),
        decreases at,
    {
        proof {
            lemma_lex_total(encode_utf8(v@[at - 1]@), key);
        }
        at = at - 1;
    }
    let ghost before = v@;
    v.insert(at, item);
    proof {
        broadcast use vstd::seq_lib::to_multiset_insert;

        assert(v@ == before.insert(at as int, item));
        assert forall|i: int, j: int| 0 <= i < j < v@.len() implies lex_le(
            encode_utf8((#[trigger] v@[i])@),
            encode_utf8((#[trigger] v@[j])@),
        ) by {
            if j < at {
                assert(v@[i] == before[i] && v@[j] == before[j]);
            } else if j == at {
                assert(v@[i] == before[i]);
                if i < at - 1 {
                    lemma_lex_transitive(
                        encode_utf8(before[i]@),
                        encode_utf8(before[at - 1]@),
                        key,
                    );
                }
            } else if i < at {
                assert(v@[i] == before[i] && v@[j] == before[j - 1]);
            } else if i == at {
                assert(v@[j] == before[j - 1]);
            } else {
                assert(v@[i] == before[i - 1] && v@[j] == before[j - 1]);
            }
        }
    }
}

/// The texts of `paths`, in order.
pub fn sort_paths(paths: Vec<String>) -> (out: Vec<String>)
    ensures
        in_order(out@),
        out@.to_multiset() == paths@.to_multiset(),
        out@.len() == paths@.len(),
{
    let mut rest = paths;
    let mut out: Vec<String> = Vec::new();
    proof {
        broadcast use vstd::seq_lib::group_to_multiset_ensures;

        assert(out@.to_multiset() =~= Multiset::<String>::empty());
        assert(out@.to_multiset().add(rest@.to_multiset()) =~= paths@.to_multiset());
    }
    while rest.len() > 0
        invariant
            in_order(out@),
            out@.to_multiset().add(rest@.to_multiset()) == paths@.to_multiset(),
            out@.len() + rest@.len() == paths@.len(),
        decreases rest.len(),
    {
        let ghost before_rest = rest@;
        let ghost before_out = out@;
        let item = rest.pop().unwrap();
        proof {
            broadcast use vstd::seq_lib::group_to_multiset_ensures;

            assert(before_rest =~= rest@.push(item));
            assert(before_rest.to_multiset() =~= rest@.to_multiset().insert(item));
        }
        insert_in_order(&mut out, item);
        proof {
            assert(out@.to_multiset().add(rest@.to_multiset()) =~= before_out.to_multiset().add(
                before_rest.to_multiset(),
            ));
        }
    }
    proof {
        broadcast use vstd::seq_lib::group_to_multiset_ensures;

        assert(rest@ =~= Seq::<String>::empty());
        assert(rest@.to_multiset() =~= Multiset::<String>::empty());
        assert(out@.to_multiset().add(Multiset::<String>::empty()) =~= out@.to_multiset());
    }
    out
}

} // verus!
