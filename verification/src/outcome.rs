//! How a test unit ends: the decision between the canonical form of its
//! expansion and the snapshot that is stored for it.

use vstd::prelude::*;
use crate::lines::{lemma_trailing_line_feeds, line_feeds, same_text, texts_agree};

verus! {

/// What is done about a snapshot that is missing or differs.
#[derive(Debug, Clone, Copy, PartialEq, Eq)]
pub enum ExpansionBehavior {
    /// A missing snapshot is written; one that differs is a failure, or is
    /// written anew where overwriting is switched on.
    RegenerateFiles,
    /// The snapshot must be there and agree; nothing is ever written.
    ExpectFiles,
}

/// How a test unit ended.
#[derive(Debug, Clone, PartialEq, Eq)]
pub enum ExpansionOutcome {
    /// The expansion agrees with the snapshot.
    Same,
    /// The expansion differs from the snapshot: the snapshot, then the
    /// canonical form of the expansion.
    Different(Vec<u8>, Vec<u8>),
    /// The snapshot is to be written with this content, and the unit passes.
    Update(Vec<u8>),
    /// The expansion itself failed, with this diagnostic.
    ExpandError(Vec<u8>),
    /// The snapshot is required, and is missing or differs.
    NoExpandedFileFound,
}

/// An `ExpansionOutcome`, with its contents as rows of bytes.
pub enum Outcome {
    Same,
    Different(Seq<u8>, Seq<u8>),
    Update(Seq<u8>),
    ExpandError(Seq<u8>),
    NoExpandedFileFound,
}

impl View for ExpansionOutcome {
    type V = Outcome;

    open spec fn view(&self) -> Outcome {
        match self {
            ExpansionOutcome::Same => Outcome::Same,
            ExpansionOutcome::Different(a, b) => Outcome::Different(a@, b@),
            ExpansionOutcome::Update(c) => Outcome::Update(c@),
            ExpansionOutcome::ExpandError(d) => Outcome::ExpandError(d@),
            ExpansionOutcome::NoExpandedFileFound => Outcome::NoExpandedFileFound,
        }
    }
}

impl Outcome {
    /// The unit counts as failed.
    pub open spec fn is_failure(self) -> bool {
        self is Different || self is ExpandError || self is NoExpandedFileFound
    }

    /// What is written to the snapshot, if anything is.
    pub open spec fn written(self) -> Option<Seq<u8>> {
        match self {
            Outcome::Update(content) => Some(content),
            _ => None,
        }
    }
}

impl ExpansionOutcome {
    /// Whether the unit counts as failed.
    pub fn is_failure(&self) -> (r: bool)
        ensures
            r == self@.is_failure(),
    {
        match self {
            ExpansionOutcome::Different(_, _) => true,
            ExpansionOutcome::ExpandError(_) => true,
            ExpansionOutcome::NoExpandedFileFound => true,
            _ => false,
        }
    }

    /// What is to be written to the snapshot, if anything is.
    pub fn written(&self) -> (r: Option<&Vec<u8>>)
        ensures
            match r {
                Some(content) => self@.written() == Some(content@),
                None => self@.written() is None,
            },
    {
        match self {
            ExpansionOutcome::Update(content) => Some(content),
            _ => None,
        }
    }
}

/// What a row of bytes that may be missing holds.
pub open spec fn content_of(snapshot: Option<Vec<u8>>) -> Option<Seq<u8>> {
    match snapshot {
        Some(bytes) => Some(bytes@),
        None => None,
    }
}

/// How a unit ends whose expansion has the canonical form `canonical`, given
/// the content of its snapshot, if there is a snapshot.
pub open spec fn resolution(
    canonical: Seq<u8>,
    snapshot: Option<Seq<u8>>,
    behavior: ExpansionBehavior,
    overwrite: bool,
) -> Outcome {
    match snapshot {
        None => match behavior {
            ExpansionBehavior::RegenerateFiles => Outcome::Update(canonical),
            ExpansionBehavior::ExpectFiles => Outcome::NoExpandedFileFound,
        },
        Some(expected) => if same_text(canonical, expected) {
            Outcome::Same
        } else {
            match behavior {
                ExpansionBehavior::ExpectFiles => Outcome::NoExpandedFileFound,
                ExpansionBehavior::RegenerateFiles => if overwrite {
                    Outcome::Update(canonical)
                } else {
                    Outcome::Different(expected, canonical)
                },
            }
        },
    }
}

/// Decides how a unit ends whose expansion has the canonical form
/// `canonical`. `snapshot` is the content of its snapshot, or nothing where
/// there is none. The two are compared line by line. The snapshot is to be
/// written exactly where the outcome is `Update`, with the content that the
/// outcome holds.
pub fn resolve(
    canonical: Vec<u8>,
    snapshot: Option<Vec<u8>>,
    behavior: ExpansionBehavior,
    overwrite: bool,
) -> (outcome: ExpansionOutcome)
    ensures
        outcome@ == resolution(canonical@, content_of(snapshot), behavior, overwrite),
{
    match snapshot {
        None => match behavior {
            ExpansionBehavior::RegenerateFiles => ExpansionOutcome::Update(canonical),
            ExpansionBehavior::ExpectFiles => ExpansionOutcome::NoExpandedFileFound,
        },
        Some(expected) => {
            if texts_agree(canonical.as_slice(), expected.as_slice()) {
                ExpansionOutcome::Same
            } else {
                match behavior {
                    ExpansionBehavior::ExpectFiles => ExpansionOutcome::NoExpandedFileFound,
                    ExpansionBehavior::RegenerateFiles => {
                        if overwrite {
                            ExpansionOutcome::Update(canonical)
                        } else {
                            ExpansionOutcome::Different(expected, canonical)
                        }
                    },
                }
            }
        },
    }
}

/// A unit without a snapshot, where snapshots are regenerated, is refreshed
/// with the canonical form of its expansion; run again against what was
/// written, it ends as `Same`, whatever the mode.
pub proof fn lemma_refreshed_then_same(
    canonical: Seq<u8>,
    overwrite: bool,
    again: ExpansionBehavior,
    overwrite_again: bool,
)
    ensures
        resolution(canonical, None, ExpansionBehavior::RegenerateFiles, overwrite)
            == Outcome::Update(canonical),
        resolution(canonical, None, ExpansionBehavior::RegenerateFiles, overwrite).written()
            == Some(canonical),
        resolution(
            canonical,
            resolution(canonical, None, ExpansionBehavior::RegenerateFiles, overwrite).written(),
            again,
            overwrite_again,
        ) == Outcome::Same,
{
}

/// A snapshot that differs from the canonical form only in how many line
/// feeds it ends with gives `Same`.
pub proof fn lemma_line_feeds_at_end_ignored(
    text: Seq<u8>,
    m: nat,
    n: nat,
    behavior: ExpansionBehavior,
    overwrite: bool,
)
    ensures
        resolution(text + line_feeds(m), Some(text + line_feeds(n)), behavior, overwrite)
            == Outcome::Same,
{
    lemma_trailing_line_feeds(text, m, n);
}

/// Where snapshots are required, a unit without one fails and nothing is
/// written, whether overwriting is switched on or not.
pub proof fn lemma_missing_snapshot_required(canonical: Seq<u8>, overwrite: bool)
    ensures
        resolution(canonical, None, ExpansionBehavior::ExpectFiles, overwrite)
            == Outcome::NoExpandedFileFound,
        resolution(canonical, None, ExpansionBehavior::ExpectFiles, overwrite).written() is None,
        resolution(canonical, None, ExpansionBehavior::ExpectFiles, overwrite).is_failure(),
{
}

/// Where snapshots are required, nothing is ever written.
pub proof fn lemma_strict_never_writes(canonical: Seq<u8>, snapshot: Option<Seq<u8>>, overwrite: bool)
    ensures
        resolution(canonical, snapshot, ExpansionBehavior::ExpectFiles, overwrite).written() is None,
{
}

/// A snapshot that differs, where snapshots are regenerated: with
/// overwriting switched on it is written anew and the unit passes; with
/// overwriting switched off the unit fails as `Different` and nothing is
/// written.
pub proof fn lemma_mismatch(canonical: Seq<u8>, snapshot: Seq<u8>)
    requires
        !same_text(canonical, snapshot),
    ensures
        resolution(canonical, Some(snapshot), ExpansionBehavior::RegenerateFiles, true)
            == Outcome::Update(canonical),
        !resolution(canonical, Some(snapshot), ExpansionBehavior::RegenerateFiles, true).is_failure(),
        resolution(canonical, Some(snapshot), ExpansionBehavior::RegenerateFiles, false)
            == Outcome::Different(snapshot, canonical),
        resolution(
            canonical,
            Some(snapshot),
            ExpansionBehavior::RegenerateFiles,
            false,
        ).written() is None,
{
}

/// The snapshot is written only where there is none or it differs, and only
/// with the canonical form.
pub proof fn lemma_written_is_canonical(
    canonical: Seq<u8>,
    snapshot: Option<Seq<u8>>,
    behavior: ExpansionBehavior,
    overwrite: bool,
)
    ensures
        match resolution(canonical, snapshot, behavior, overwrite).written() {
            Some(content) => {
                &&& content == canonical
                &&& behavior is RegenerateFiles
                &&& snapshot matches Some(expected) ==> overwrite && !same_text(canonical, expected)
            },
            None => true,
        },
        !(resolution(canonical, snapshot, behavior, overwrite) is ExpandError),
{
}

} // verus!
