//! Tickets: the text that names shared content and the peer that has it.

use iroh::EndpointAddr;
use iroh_blobs::ticket::BlobTicket;
use iroh_blobs::BlobFormat;
use iroh_tickets::ParseError;
use std::str::FromStr;
use vstd::prelude::*;

use crate::error::{TransferError, TransferErrorView};

verus! {

/// The ticket type of iroh-blobs, of which the library sees nothing inside.
#[verifier::external_type_specification]
#[verifier::external_body]
pub struct ExBlobTicket(BlobTicket);

/// The address type of iroh, of which the library sees nothing inside.
#[verifier::external_type_specification]
#[verifier::external_body]
pub struct ExEndpointAddr(EndpointAddr);

/// The error type of iroh-tickets, of which the library sees nothing inside.
#[verifier::external_type_specification]
#[verifier::external_body]
pub struct ExParseError(ParseError);

/// What a ticket text names, where it is the text of a ticket: the 32 bytes
/// of the peer's identity, the 32 bytes of the content identifier, and
/// whether the content is a collection.
pub uninterp spec fn ticket_content(text: Seq<char>) -> Option<(Seq<u8>, Seq<u8>, bool)>;

/// A peer: its address as the transport knows it, and its identity as plain
/// bytes. A peer is made from an address only, so that the identity is
/// always the one that the address holds.
#[derive(Debug)]
pub struct Peer {
    addr: EndpointAddr,
    id: [u8; 32],
}

impl Peer {
    /// The identity of the peer.
    pub closed spec fn spec_id(&self) -> Seq<u8> {
        self.id@
    }

    /// The address of the peer.
    pub closed spec fn spec_addr(&self) -> EndpointAddr {
        self.addr
    }

    /// The peer at `addr`.
    pub fn new(addr: EndpointAddr) -> (peer: Self)
        ensures
            peer.spec_addr() == addr,
    {
        peer_of(addr)
    }

    /// The identity of the peer.
    pub fn id(&self) -> (id: [u8; 32])
        ensures
            id@ == self.spec_id(),
    {
        self.id
    }

    /// The address of the peer.
    pub fn addr(&self) -> (addr: &EndpointAddr)
        ensures
            *addr == self.spec_addr(),
    {
        &self.addr
    }
}

/// Reads the identity off an address of iroh: its field `id`, through
/// `PublicKey::as_bytes`. Claimed: the address is kept as it is.
#[verifier::external_body]
fn peer_of(addr: EndpointAddr) -> (peer: Peer)
    ensures
        peer.spec_addr() == addr,
{
    Peer { id: *addr.id.as_bytes(), addr }
}

/// A parsed ticket: the peer, the root content identifier and the format
/// flag. A ticket is made by reading a text only, so that the plain values
/// are always those of the ticket that the transport knows.
#[derive(Debug)]
pub struct Ticket {
    source: BlobTicket,
    peer: [u8; 32],
    hash: [u8; 32],
    collection: bool,
}

impl Ticket {
    /// The identity of the peer that the ticket names.
    pub closed spec fn spec_peer(&self) -> Seq<u8> {
        self.peer@
    }

    /// The content identifier that the ticket names.
    pub closed spec fn spec_hash(&self) -> Seq<u8> {
        self.hash@
    }

    /// Whether the ticket names a collection rather than a single blob.
    pub closed spec fn spec_collection(&self) -> bool {
        self.collection
    }

    /// What the ticket names: peer, content identifier and format flag.
    pub open spec fn content(&self) -> (Seq<u8>, Seq<u8>, bool) {
        (self.spec_peer(), self.spec_hash(), self.spec_collection())
    }

    /// The identity of the peer that the ticket names.
    pub fn peer(&self) -> (peer: [u8; 32])
        ensures
            peer@ == self.spec_peer(),
    {
        self.peer
    }

    /// The content identifier that the ticket names.
    pub fn hash(&self) -> (hash: [u8; 32])
        ensures
            hash@ == self.spec_hash(),
    {
        self.hash
    }

    /// Whether the ticket names a collection rather than a single blob.
    pub fn is_collection(&self) -> (collection: bool)
        ensures
            collection == self.spec_collection(),
    {
        self.collection
    }

    /// The ticket as the transport knows it, with the peer's address.
    pub closed spec fn spec_blob_ticket(&self) -> BlobTicket {
        self.source
    }

    /// The ticket as the transport knows it, with the peer's address.
    pub fn blob_ticket(&self) -> (ticket: &BlobTicket)
        ensures
            *ticket == self.spec_blob_ticket(),
    {
        &self.source
    }

    /// The ticket as text. The text is not empty, and read again it names
    /// what the ticket names.
    pub fn text(&self) -> (text: String)
        ensures
            text@.len() > 0,
            ticket_content(text@) == Some(self.content()),
    {
        blob_ticket_string(self)
    }
}

/// Calls `BlobTicket::from_str` of iroh-blobs, and reads peer, hash and
/// format off the ticket with its `addr`, `hash` and `format`.
///
/// Claimed: whether a text parses, and the peer, hash and format of the
/// ticket it parses to, depend on the text alone.
#[verifier::external_body]
fn parse_blob_ticket(text: &str) -> (r: Result<Ticket, ParseError>)
    ensures
        r is Ok <==> ticket_content(text@) is Some,
        r matches Ok(t) ==> ticket_content(text@) == Some(t.content()),
{
    let source = BlobTicket::from_str(text)?;
    Ok(
        Ticket {
            peer: *source.addr().id.as_bytes(),
            hash: *source.hash().as_bytes(),
            collection: source.format().is_hash_seq(),
            source,
        },
    )
}

/// Calls `to_string` on a ticket of iroh-blobs.
///
/// Claimed: the text begins with the kind of the ticket, so that it is not
/// empty, and `BlobTicket::from_str` reads it back as a ticket with the same
/// peer, hash and format. The text is the kind followed by the base32 form
/// of the postcard bytes of the ticket, and reading undoes both.
#[verifier::external_body]
fn blob_ticket_string(ticket: &Ticket) -> (text: String)
    ensures
        text@.len() > 0,
        ticket_content(text@) == Some(ticket.content()),
{
    ticket.source.to_string()
}

/// Calls `BlobTicket::new` of iroh-blobs with the address of the peer and
/// the format `HashSeq`, and `to_string` on the ticket.
///
/// Claimed: the text begins with the kind of the ticket, so that it is not
/// empty, and `BlobTicket::from_str` reads it back as a ticket with the
/// identity of the peer, the given hash and the collection format. The text
/// is the kind followed by the base32 form of the postcard bytes of the
/// ticket, and reading undoes both.
#[verifier::external_body]
pub(crate) fn blob_ticket_text(peer: &Peer, hash: &[u8; 32]) -> (text: String)
    ensures
        text@.len() > 0,
        ticket_content(text@) == Some((peer.spec_id(), hash@, true)),
{
    let addr = peer.addr.clone();
    BlobTicket::new(addr, iroh_blobs::Hash::from_bytes(*hash), BlobFormat::HashSeq).to_string()
}

/// Reads a ticket. The empty text is refused before anything is parsed;
/// any other text is a ticket or is refused as invalid.
pub fn read_ticket(text: &str) -> (r: Result<Ticket, TransferError>)
    ensures
        text@.len() == 0 ==> r is Err && r->Err_0@ == TransferErrorView::EmptyTicket,
        text@.len() > 0 && ticket_content(text@) is None ==> r is Err && r->Err_0@
            == TransferErrorView::InvalidTicket,
        text@.len() > 0 && ticket_content(text@) is Some ==> r is Ok && ticket_content(text@)
            == Some(r->Ok_0.content()),
{
    if text.is_empty() {
        return Err(TransferError::EmptyTicket);
    }
    match parse_blob_ticket(text) {
        Ok(ticket) => Ok(ticket),
        Err(_) => Err(TransferError::InvalidTicket),
    }
}

} // verus!
