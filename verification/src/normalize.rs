//! The canonical form of expanded code. Output that parses as a source file
//! loses what the compiler puts into every expansion and is handed out to be
//! printed anew; any other output is cleaned as a text.

use vstd::prelude::*;
use vstd::string::*;
use vstd::utf8::encode_utf8;
use crate::cleanup::{normalize_text, TextRules};
use crate::lines::{ends_with_one_line_feed, line_feeds};
use crate::strings::{from_utf8_lossy, str_eq, utf8_lossy};
use crate::text::LF;

verus! {

/// `syn::File`, a parsed source file. The library reads it through the
/// functions below only.
#[verifier::external_type_specification]
#[verifier::external_body]
pub struct ExFile(syn::File);

/// Which form a meta item has.
#[derive(Debug, Clone, Copy, PartialEq, Eq)]
pub enum MetaKind {
    /// A path alone, as in `#[test]`.
    Path,
    /// A path and arguments in brackets, as in `#[derive(Copy)]`.
    List,
    /// A path and a value, as in `#[path = "a.rs"]`.
    NameValue,
}

/// What the library reads of a meta item: its form, and its path where the
/// path is a single identifier.
#[derive(Debug, Clone, PartialEq, Eq)]
pub struct MetaShape {
    pub kind: MetaKind,
    pub ident: Option<String>,
}

/// What the library reads of an attribute: its meta item, and the arguments
/// of a list where they are meta items separated by commas.
#[derive(Debug, Clone, PartialEq, Eq)]
pub struct AttrShape {
    pub meta: MetaShape,
    pub args: Option<Vec<MetaShape>>,
}

/// What the library reads of an item.
#[derive(Debug, Clone, PartialEq, Eq)]
pub enum ItemShape {
    /// A `use` item, with its first attribute.
    Use(Option<MetaShape>),
    /// An `extern crate` item, with the name of the crate.
    ExternCrate(String),
    /// Any other item.
    Other,
}

/// The file that `syn::parse_file` makes of a text, where it makes one.
pub uninterp spec fn parsed_file(code: Seq<char>) -> Option<syn::File>;

/// The inner attributes at the head of a file, in order.
pub uninterp spec fn file_attrs(file: syn::File) -> Seq<AttrShape>;

/// The items of a file, in order.
pub uninterp spec fn file_items(file: syn::File) -> Seq<ItemShape>;

/// `syn::parse_file`: the syntax tree of `code`, or nothing where `code` is
/// no source file. The contract gives the result its name and claims no more
/// of it. The error is not handed on: no caller reads it.
#[verifier::external_body]
pub(crate) fn parse_file(code: &str) -> (out: Option<syn::File>)
    ensures
        out == parsed_file(code@),
{
    syn::parse_file(code).ok()
}

/// The length of the field `attrs` of a `syn::File`.
#[verifier::external_body]
pub(crate) fn attr_count(file: &syn::File) -> (n: usize)
    ensures
        n == file_attrs(*file).len(),
{
    file.attrs.len()
}

/// The attribute at `i` of the field `attrs`, as the library reads it. The
/// form is the variant of `syn::Meta`; the identifier is what
/// `syn::Path::get_ident` gives for `syn::Meta::path`; the arguments are what
/// `syn::MetaList::parse_args_with` gives for a list, parsed as meta items
/// between commas, each read in the same way. The contract claims that this
/// is what the attribute holds, and no more.
#[verifier::external_body]
pub(crate) fn attr_shape(file: &syn::File, i: usize) -> (shape: AttrShape)
    requires
        i < file_attrs(*file).len(),
    ensures
        shape == file_attrs(*file)[i as int],
{
    let read = |meta: &syn::Meta| MetaShape {
        kind: match meta {
            syn::Meta::Path(_) => MetaKind::Path,
            syn::Meta::List(_) => MetaKind::List,
            syn::Meta::NameValue(_) => MetaKind::NameValue,
        },
        ident: meta.path().get_ident().map(|ident| ident.to_string()),
    };
    let parser = syn::punctuated::Punctuated::<syn::Meta, syn::token::Comma>::parse_terminated;
    let args = match &file.attrs[i].meta {
        syn::Meta::List(list) => list.parse_args_with(parser).ok(),
        _ => None,
    };
    AttrShape { meta: read(&file.attrs[i].meta), args: args.map(|list| list.iter().map(read).collect()) }
}

/// The length of the field `items` of a `syn::File`.
#[verifier::external_body]
pub(crate) fn item_count(file: &syn::File) -> (n: usize)
    ensures
        n == file_items(*file).len(),
{
    file.items.len()
}

/// The item at `i` of the field `items`, as the library reads it: for
/// `syn::Item::Use` the first of its attributes, with the form of its meta
/// item and what `syn::Path::get_ident` gives for its path; for
/// `syn::Item::ExternCrate` the identifier of the crate. The contract claims
/// that this is what the item holds, and no more.
#[verifier::external_body]
pub(crate) fn item_shape(file: &syn::File, i: usize) -> (shape: ItemShape)
    requires
        i < file_items(*file).len(),
    ensures
        shape == file_items(*file)[i as int],
{
    match &file.items[i] {
        syn::Item::Use(item) => ItemShape::Use(item.attrs.first().map(|attr| MetaShape {
            kind: match &attr.meta {
                syn::Meta::Path(_) => MetaKind::Path,
                syn::Meta::List(_) => MetaKind::List,
                syn::Meta::NameValue(_) => MetaKind::NameValue,
            },
            ident: attr.path().get_ident().map(|ident| ident.to_string()),
        })),
        syn::Item::ExternCrate(item) => ItemShape::ExternCrate(item.ident.to_string()),
        _ => ItemShape::Other,
    }
}

/// What stays of `all` where `keep` says so.
pub open spec fn kept<T>(all: Seq<T>, keep: Seq<bool>) -> Seq<T>
    recommends
        all.len() == keep.len(),
    decreases all.len(),
{
    if all.len() == 0 || keep.len() != all.len() {
        Seq::empty()
    } else if keep.last() {
        kept(all.drop_last(), keep.drop_last()).push(all.last())
    } else {
        kept(all.drop_last(), keep.drop_last())
    }
}

/// `Vec::retain` on the field `attrs`: the attributes marked in `keep` stay,
/// in their order, and the items are not touched. `Vec::retain` visits each
/// element once, in order, so the marks are read off one by one.
#[verifier::external_body]
pub(crate) fn retain_attrs(file: &mut syn::File, keep: &Vec<bool>)
    requires
        keep@.len() == file_attrs(*old(file)).len(),
    ensures
        file_attrs(*final(file)) == kept(file_attrs(*old(file)), keep@),
        file_items(*final(file)) == file_items(*old(file)),
{
    let mut marks = keep.iter();
    file.attrs.retain(|_| *marks.next().unwrap());
}

/// `Vec::retain` on the field `items`: the items marked in `keep` stay, in
/// their order, and the attributes are not touched.
#[verifier::external_body]
pub(crate) fn retain_items(file: &mut syn::File, keep: &Vec<bool>)
    requires
        keep@.len() == file_items(*old(file)).len(),
    ensures
        file_items(*final(file)) == kept(file_items(*old(file)), keep@),
        file_attrs(*final(file)) == file_attrs(*old(file)),
{
    let mut marks = keep.iter();
    file.items.retain(|_| *marks.next().unwrap());
}

/// The identifier is `name`.
pub open spec fn names_ident(ident: Option<String>, name: Seq<char>) -> bool {
    ident matches Some(id) && id@ == name
}

/// The attribute is `#![feature(prelude_import)]`.
pub open spec fn is_prelude_feature(attr: AttrShape) -> bool {
    &&& attr.meta.kind is List
    &&& names_ident(attr.meta.ident, "feature"@)
    &&& attr.args matches Some(args) && args@.len() == 1 && args@[0].kind is Path && names_ident(
        args@[0].ident,
        "prelude_import"@,
    )
}

/// The item is one that the compiler puts into every expansion: the `use`
/// of the prelude, marked `#[prelude_import]`, or `extern crate std`.
pub open spec fn is_injected_item(item: ItemShape) -> bool {
    match item {
        ItemShape::Use(Some(attr)) => attr.kind is Path && names_ident(attr.ident, "prelude_import"@),
        ItemShape::ExternCrate(name) => name@ == "std"@,
        _ => false,
    }
}

/// Whether the identifier is `name`.
fn ident_is(ident: &Option<String>, name: &str) -> (r: bool)
    ensures
        r == names_ident(*ident, name@),
{
    match ident {
        Some(id) => str_eq(id.as_str(), name),
        None => false,
    }
}

/// Whether the form is that of a path alone.
fn kind_is_path(kind: MetaKind) -> (r: bool)
    ensures
        r == (kind is Path),
{
    match kind {
        MetaKind::Path => true,
        _ => false,
    }
}

/// Whether an attribute at the head of a file is the one that switches the
/// import of the prelude on.
pub fn strips_attr(attr: &AttrShape) -> (r: bool)
    ensures
        r == is_prelude_feature(*attr),
{
    match attr.meta.kind {
        MetaKind::List => {
            if !ident_is(&attr.meta.ident, "feature") {
                return false;
            }
            match &attr.args {
                Some(args) => {
                    args.len() == 1 && kind_is_path(args[0].kind) && ident_is(
                        &args[0].ident,
                        "prelude_import",
                    )
                },
                None => false,
            }
        },
        _ => false,
    }
}

/// Whether an item is one that the compiler puts into every expansion.
pub fn strips_item(item: &ItemShape) -> (r: bool)
    ensures
        r == is_injected_item(*item),
{
    match item {
        ItemShape::Use(Some(attr)) => kind_is_path(attr.kind) && ident_is(
            &attr.ident,
            "prelude_import",
        ),
        ItemShape::ExternCrate(name) => str_eq(name.as_str(), "std"),
        _ => false,
    }
}

/// The attributes of `attrs` that an expansion keeps.
pub open spec fn surviving_attrs(attrs: Seq<AttrShape>) -> Seq<AttrShape>
    decreases attrs.len(),
{
    if attrs.len() == 0 {
        Seq::empty()
    } else if is_prelude_feature(attrs.last()) {
        surviving_attrs(attrs.drop_last())
    } else {
        surviving_attrs(attrs.drop_last()).push(attrs.last())
    }
}

/// The items of `items` that an expansion keeps.
pub open spec fn surviving_items(items: Seq<ItemShape>) -> Seq<ItemShape>
    decreases items.len(),
{
    if items.len() == 0 {
        Seq::empty()
    } else if is_injected_item(items.last()) {
        surviving_items(items.drop_last())
    } else {
        surviving_items(items.drop_last()).push(items.last())
    }
}

/// Marks that keep what survives keep the surviving attributes.
proof fn lemma_kept_attrs(attrs: Seq<AttrShape>, keep: Seq<bool>)
    requires
        keep.len() == attrs.len(),
        forall|i: int| 0 <= i < attrs.len() ==> keep[i] == !is_prelude_feature(attrs[i]),
    ensures
        kept(attrs, keep) == surviving_attrs(attrs),
    decreases attrs.len(),
{
    if attrs.len() > 0 {
        lemma_kept_attrs(attrs.drop_last(), keep.drop_last());
    }
}

/// Marks that keep what survives keep the surviving items.
proof fn lemma_kept_items(items: Seq<ItemShape>, keep: Seq<bool>)
    requires
        keep.len() == items.len(),
        forall|i: int| 0 <= i < items.len() ==> keep[i] == !is_injected_item(items[i]),
    ensures
        kept(items, keep) == surviving_items(items),
    decreases items.len(),
{
    if items.len() > 0 {
        lemma_kept_items(items.drop_last(), keep.drop_last());
    }
}

/// Takes out of a parsed expansion what the compiler puts into every one:
/// the attribute that switches the import of the prelude on, that import,
/// and `extern crate std`. All else stays, in its order.
pub fn strip_injected(file: &mut syn::File)
    ensures
        file_attrs(*final(file)) == surviving_attrs(file_attrs(*old(file))),
        file_items(*final(file)) == surviving_items(file_items(*old(file))),
{
    let ghost attrs = file_attrs(*file);
    let ghost items = file_items(*file);
    let n: usize = attr_count(file);
    let mut keep_attrs: Vec<bool> = Vec::new();
    let mut i: usize = 0;
    while i < n
        invariant
            i <= n,
            n == attrs.len(),
            attrs == file_attrs(*file),
            items == file_items(*file),
            keep_attrs@.len() == i,
            forall|j: int| 0 <= j < i ==> keep_attrs@[j] == !is_prelude_feature(attrs[j]),
        decreases n - i,
    {
        let shape = attr_shape(file, i);
        keep_attrs.push(!strips_attr(&shape));
        i = i + 1;
    }
    proof {
        lemma_kept_attrs(attrs, keep_attrs@);
    }
    retain_attrs(file, &keep_attrs);
    let m: usize = item_count(file);
    let mut keep_items: Vec<bool> = Vec::new();
    let mut k: usize = 0;
    while k < m
        invariant
            k <= m,
            m == items.len(),
            items == file_items(*file),
            file_attrs(*file) == surviving_attrs(attrs),
            keep_items@.len() == k,
            forall|j: int| 0 <= j < k ==> keep_items@[j] == !is_injected_item(items[j]),
        decreases m - k,
    {
        let shape = item_shape(file, k);
        keep_items.push(!strips_item(&shape));
        k = k + 1;
    }
    proof {
        lemma_kept_items(items, keep_items@);
    }
    retain_items(file, &keep_items);
}

/// An expansion on its way to its canonical form.
pub enum Draft {
    /// Source code, without what the compiler puts into every expansion. It
    /// is to be printed, and the print finished by `finish_printed`.
    Code(syn::File),
    /// The canonical form of output that is no source code.
    Text(Vec<u8>),
}

/// `draft` is what `normalize_expansion` makes of `input` under `rules`.
pub open spec fn is_draft_of(draft: Draft, input: Seq<u8>, rules: TextRules) -> bool {
    let code = utf8_lossy(input);
    match parsed_file(code) {
        Some(parsed) => {
            &&& draft matches Draft::Code(file)
            &&& file_attrs(file) == surviving_attrs(file_attrs(parsed))
            &&& file_items(file) == surviving_items(file_items(parsed))
        },
        None => draft matches Draft::Text(text) && text@ == rules.apply(encode_utf8(code)),
    }
}

/// Brings the output of an expansion towards its canonical form. Output that
/// parses as a source file is parsed and loses what the compiler puts into
/// every expansion; any other output is cleaned as a text under `rules`.
pub fn normalize_expansion(input: &[u8], rules: &TextRules) -> (draft: Draft)
    ensures
        is_draft_of(draft, input@, *rules),
        draft matches Draft::Text(text) ==> ends_with_one_line_feed(text@),
{
    let code = from_utf8_lossy(input);
    match parse_file(code.as_str()) {
        Some(parsed) => {
            let mut file = parsed;
            strip_injected(&mut file);
            Draft::Code(file)
        },
        None => Draft::Text(normalize_text(code.as_str().as_bytes(), rules)),
    }
}

/// `s` without the line feeds that it ends with.
pub open spec fn without_line_feeds(s: Seq<u8>) -> Seq<u8>
    decreases s.len(),
{
    if s.len() > 0 && s.last() == LF {
        without_line_feeds(s.drop_last())
    } else {
        s
    }
}

/// `s` with exactly one line feed at its end.
pub open spec fn with_one_line_feed(s: Seq<u8>) -> Seq<u8> {
    without_line_feeds(s).push(LF)
}

/// A text is what it is without its last line feeds, and those line feeds.
pub proof fn lemma_without_line_feeds(s: Seq<u8>)
    ensures
        without_line_feeds(s).len() <= s.len(),
        s == without_line_feeds(s) + line_feeds((s.len() - without_line_feeds(s).len()) as nat),
        without_line_feeds(s).len() > 0 ==> without_line_feeds(s).last() != LF,
    decreases s.len(),
{
    if s.len() > 0 && s.last() == LF {
        let front = s.drop_last();
        lemma_without_line_feeds(front);
        let core = without_line_feeds(front);
        let k = (front.len() - core.len()) as nat;
        assert(s =~= front.push(LF));
        assert((core + line_feeds(k)).push(LF) =~= core + line_feeds(k + 1));
    } else {
        assert(s =~= s + line_feeds(0));
    }
}

/// A text with one line feed at its end ends with exactly one line feed.
pub proof fn lemma_with_one_line_feed(s: Seq<u8>)
    ensures
        ends_with_one_line_feed(with_one_line_feed(s)),
{
    lemma_without_line_feeds(s);
}

/// The canonical form of printed code: `printed` with exactly one line feed
/// at its end.
pub fn finish_printed(printed: &str) -> (out: Vec<u8>)
    ensures
        out@ == with_one_line_feed(encode_utf8(printed@)),
        ends_with_one_line_feed(out@),
{
    let bytes = printed.as_bytes();
    let mut end: usize = bytes.len();
    assert(bytes@.take(end as int) =~= bytes@);
    while end > 0 && bytes[end - 1] == LF
        invariant
            end <= bytes.len(),
            without_line_feeds(bytes@.take(end as int)) == without_line_feeds(bytes@),
        decreases end,
    {
        assert(bytes@.take(end as int).drop_last() =~= bytes@.take(end - 1));
        end = end - 1;
    }
    let mut out = crate::text::copy_range(bytes, 0, end);
    assert(out@ =~= bytes@.take(end as int));
    out.push(LF);
    proof {
        lemma_with_one_line_feed(bytes@);
    }
    out
}

} // verus!
