//! The compiler flags under which the scratch project is built.

use vstd::prelude::*;
use vstd::string::*;

verus! {

/// The flags that silence the lints which expanded code must not fail on.
pub open spec fn lint_flags() -> Seq<Seq<char>> {
    seq!["-A"@, "dead_code"@]
}

/// What a row of flags holds, each flag as its characters.
pub open spec fn flag_texts(flags: Seq<String>) -> Seq<Seq<char>> {
    Seq::new(flags.len(), |i: int| flags[i]@)
}

/// `val` with `flags` behind it, `separator` between any two parts that are
/// not empty at their left.
pub open spec fn with_flags(val: Seq<char>, separator: Seq<char>, flags: Seq<Seq<char>>) -> Seq<char>
    decreases flags.len(),
{
    if flags.len() == 0 {
        val
    } else {
        let front = with_flags(val, separator, flags.drop_last());
        if front.len() > 0 {
            front + separator + flags.last()
        } else {
            flags.last()
        }
    }
}

/// The variable that holds flags separated by the unit separator.
pub open spec fn encoded_key() -> Seq<char> {
    "CARGO_ENCODED_RUSTFLAGS"@
}

/// The variable that holds flags separated by spaces.
pub open spec fn plain_key() -> Seq<char> {
    "RUSTFLAGS"@
}

/// The variable to set for the build, and its value, given what the two
/// variables hold now.
pub open spec fn flags_setting(encoded: Option<Seq<char>>, plain: Option<Seq<char>>) -> Option<
    (Seq<char>, Seq<char>),
> {
    match encoded {
        Some(val) => Some((encoded_key(), with_flags(val, "\x1f"@, lint_flags()))),
        None => match plain {
            Some(val) => Some((plain_key(), with_flags(val, " "@, lint_flags()))),
            None => None,
        },
    }
}

/// The flags that silence the lints which expanded code must not fail on.
pub fn make_vec() -> (rustflags: Vec<String>)
    ensures
        flag_texts(rustflags@) == lint_flags(),
{
    let mut rustflags: Vec<String> = Vec::new();
    rustflags.push("-A".to_owned());
    rustflags.push("dead_code".to_owned());
    assert(flag_texts(rustflags@) =~= lint_flags());
    rustflags
}

/// `val` with `flags` behind it.
fn append_flags(val: String, separator: &str, flags: &Vec<String>) -> (out: String)
    ensures
        out@ == with_flags(val@, separator@, flag_texts(flags@)),
{
    let mut out = val;
    let ghost texts = flag_texts(flags@);
    let mut i: usize = 0;
    assert(texts.take(0) =~= Seq::<Seq<char>>::empty());
    while i < flags.len()
        invariant
            i <= flags.len(),
            texts == flag_texts(flags@),
            out@ == with_flags(val@, separator@, texts.take(i as int)),
        decreases flags.len() - i,
    {
        let ghost front = out@;
        if !out.as_str().is_empty() {
            out.append(separator);
        }
        out.append(flags[i].as_str());
        proof {
            let now = texts.take(i + 1);
            assert(now.drop_last() =~= texts.take(i as int));
            assert(now.last() == flags@[i as int]@);
            if front.len() == 0 {
                assert(out@ =~= flags@[i as int]@);
            }
        }
        i = i + 1;
    }
    assert(texts.take(flags@.len() as int) =~= texts);
    out
}

/// The variable to set for a build of the scratch project, and its value:
/// the flags that the variable holds now, followed by those of `make_vec`.
/// `encoded` is what `CARGO_ENCODED_RUSTFLAGS` holds and `plain` what
/// `RUSTFLAGS` holds; the first takes precedence, and where neither is set
/// nothing is to be set.
pub fn set_env(encoded: Option<String>, plain: Option<String>) -> (r: Option<(String, String)>)
    ensures
        match r {
            Some((key, val)) => flags_setting(
                match encoded {
                    Some(v) => Some(v@),
                    None => None,
                },
                match plain {
                    Some(v) => Some(v@),
                    None => None,
                },
            ) == Some((key@, val@)),
            None => encoded is None && plain is None,
        },
{
    let flags = make_vec();
    match encoded {
        Some(val) => Some(("CARGO_ENCODED_RUSTFLAGS".to_owned(), append_flags(val, "\x1f", &flags))),
        None => match plain {
            Some(val) => Some(("RUSTFLAGS".to_owned(), append_flags(val, " ", &flags))),
            None => None,
        },
    }
}

} // verus!
