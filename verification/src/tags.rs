//! The labels under which the root of a transfer is tagged in the store, so
//! that the store keeps it.

use vstd::prelude::*;
use vstd::string::*;

use crate::text::glue;

verus! {

/// Which way the tagged content travelled.
#[derive(Debug, Clone, Copy, PartialEq, Eq, Structural)]
pub enum TagKind {
    /// Content that was fetched from a peer.
    Incoming,
    /// Content that was shared from here.
    Outgoing,
}

impl TagKind {
    /// The text that the labels of this kind begin with.
    pub open spec fn prefix(self) -> Seq<char> {
        match self {
            TagKind::Incoming => "incoming-"@,
            TagKind::Outgoing => "outgoing-"@,
        }
    }
}

/// The label of the given kind for the time `stamp`.
pub fn tag_label(kind: TagKind, stamp: &str) -> (label: String)
    ensures
        label@ == kind.prefix() + stamp@,
{
    match kind {
        TagKind::Incoming => glue("incoming-", stamp),
        TagKind::Outgoing => glue("outgoing-", stamp),
    }
}

/// The fewest characters of a time stamp: those of date and time, as in
/// `1996-12-19T16:39:57`.
pub const STAMP_MIN: usize = 19;

/// Calls `Local::now` of chrono and `to_rfc3339` on the time it gives: the
/// local time of the machine's clock as text.
///
/// Claimed of every such text: it holds at least the characters of date and
/// time, a year of four digits or more before two digits each of month, day,
/// hour, minute and second. What the clock reads is not claimed.
#[verifier::external_body]
fn local_time_rfc3339() -> (stamp: String)
    ensures
        stamp@.len() >= STAMP_MIN,
{
    chrono::Local::now().to_rfc3339()
}

/// A label of the given kind for the present time: the prefix of the kind,
/// then a time stamp.
pub fn new_tag(kind: TagKind) -> (label: String)
    ensures
        exists|stamp: Seq<char>| stamp.len() >= STAMP_MIN && label@ == kind.prefix() + stamp,
{
    let stamp = local_time_rfc3339();
    tag_label(kind, stamp.as_str())
}

} // verus!
