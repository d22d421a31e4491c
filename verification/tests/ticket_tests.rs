use sendme_egui::error::TransferError;
use sendme_egui::tags::{new_tag, tag_label, TagKind};
use sendme_egui::ticket::{read_ticket, Peer};

fn address(seed: u8) -> iroh::EndpointAddr {
    iroh::EndpointAddr::new(iroh::SecretKey::from_bytes(&[seed; 32]).public())
}

fn collection_ticket(addr: iroh::EndpointAddr, hash: &[u8; 32]) -> String {
    iroh_blobs::ticket::BlobTicket::new(
        addr,
        iroh_blobs::Hash::from_bytes(*hash),
        iroh_blobs::BlobFormat::HashSeq,
    )
    .to_string()
}

#[test]
fn the_empty_ticket_is_refused_as_empty() {
    assert_eq!(read_ticket("").err(), Some(TransferError::EmptyTicket));
}

#[test]
fn text_that_is_no_ticket_is_refused_as_invalid() {
    assert_eq!(read_ticket("hello").err(), Some(TransferError::InvalidTicket));
    assert_eq!(read_ticket("blob").err(), Some(TransferError::InvalidTicket));
    assert_eq!(read_ticket("blob!!!").err(), Some(TransferError::InvalidTicket));
    assert_eq!(read_ticket(" ").err(), Some(TransferError::InvalidTicket));
}

#[test]
fn a_ticket_names_its_root_as_a_collection() {
    let hash = [0x5a; 32];
    let text = collection_ticket(address(7), &hash);
    assert!(text.starts_with("blob"));
    let ticket = read_ticket(&text).unwrap();
    assert_eq!(ticket.hash(), hash);
    assert!(ticket.is_collection());
    assert_eq!(ticket.blob_ticket().addr(), &address(7));
    assert_eq!(ticket.blob_ticket().hash(), iroh_blobs::Hash::from_bytes(hash));
}

#[test]
fn ticket_text_round_trips() {
    let text = collection_ticket(address(1), &[3; 32]);
    let ticket = read_ticket(&text).unwrap();
    assert_eq!(ticket.blob_ticket().to_string(), text);
    assert_eq!(ticket.text(), text);
    let again = read_ticket(&ticket.text()).unwrap();
    assert_eq!(again.peer(), ticket.peer());
    assert_eq!(again.hash(), ticket.hash());
    assert_eq!(again.is_collection(), ticket.is_collection());
    assert_eq!(again.text(), text);
}

#[test]
fn a_ticket_names_its_peer() {
    let ticket = read_ticket(&collection_ticket(address(5), &[3; 32])).unwrap();
    assert_eq!(ticket.peer(), *address(5).id.as_bytes());
    assert_ne!(ticket.peer(), *address(6).id.as_bytes());
}

#[test]
fn a_peer_keeps_its_address_and_has_its_identity() {
    let peer = Peer::new(address(4));
    assert_eq!(peer.addr(), &address(4));
    assert_eq!(peer.id(), *address(4).id.as_bytes());
}

#[test]
fn tickets_of_different_roots_differ() {
    let one = collection_ticket(address(1), &[1; 32]);
    let two = collection_ticket(address(1), &[2; 32]);
    assert_ne!(one, two);
    assert_eq!(read_ticket(&one).unwrap().hash(), [1; 32]);
    assert_eq!(read_ticket(&two).unwrap().hash(), [2; 32]);
}

#[test]
fn a_ticket_for_a_single_blob_is_read_as_one() {
    let blob = iroh_blobs::ticket::BlobTicket::new(
        address(2),
        iroh_blobs::Hash::from_bytes([4; 32]),
        iroh_blobs::BlobFormat::Raw,
    );
    let ticket = read_ticket(&blob.to_string()).unwrap();
    assert_eq!(ticket.hash(), [4; 32]);
    assert!(!ticket.is_collection());
}

#[test]
fn labels_are_prefix_and_stamp() {
    assert_eq!(
        tag_label(TagKind::Incoming, "2024-01-02T03:04:05+00:00"),
        "incoming-2024-01-02T03:04:05+00:00"
    );
    assert_eq!(tag_label(TagKind::Outgoing, "x"), "outgoing-x");
    assert_eq!(tag_label(TagKind::Outgoing, ""), "outgoing-");
}

#[test]
fn a_new_label_carries_the_present_time() {
    let incoming = new_tag(TagKind::Incoming);
    let stamp = incoming.strip_prefix("incoming-").unwrap();
    assert!(chrono::DateTime::parse_from_rfc3339(stamp).is_ok());
    let outgoing = new_tag(TagKind::Outgoing);
    let stamp = outgoing.strip_prefix("outgoing-").unwrap();
    assert!(chrono::DateTime::parse_from_rfc3339(stamp).is_ok());
}

#[test]
fn a_new_label_holds_at_least_date_and_time() {
    assert_eq!(sendme_egui::tags::STAMP_MIN, 19);
    let label = new_tag(TagKind::Incoming);
    assert!(label.chars().count() >= "incoming-".len() + 19);
}
