//! Takes in telemetry packets.

use vstd::prelude::*;
use super::packet::{fields_of, is_packet, Packet};
use super::store::{
    after_clear, after_insert, is_stored, persisted, PersistedRecord, Record, Store, StoreView,
};

verus! {

/// The session that packets are accepted from: its number, 0 before there was
/// one. A packet without a number belongs to session 0.
#[derive(Clone, Copy, Debug, PartialEq, Eq, Structural)]
pub struct Session {
    pub nonce: u32,
}

impl Session {
    /// No session yet.
    pub fn new() -> (s: Self)
        ensures
            s == (Session { nonce: 0 }),
    {
        Session { nonce: 0 }
    }
}

/// What is to be done with the history file for a packet.
#[derive(Clone, Copy, Debug)]
pub struct FileChange {
    /// The file is emptied first.
    pub clear: bool,
    /// A record is appended.
    pub append: Option<PersistedRecord>,
}

/// Whether the history is cleared before a packet is taken in: where another
/// session takes over, or where the device has cleared its own.
pub open spec fn clears(session: Session, nonce: u32, pkt: Packet) -> bool {
    (session.nonce != 0 && nonce != session.nonce) || pkt.history_clear
}

/// A store before a packet is taken in, once it was cleared where it has to be.
pub open spec fn prepared(s: StoreView, cleared: bool) -> StoreView {
    if cleared {
        after_clear(s)
    } else {
        s
    }
}

/// Takes in a packet of a session.
pub fn packet_received(
    session: &mut Session,
    store: &mut Store,
    pkt: Packet,
    nonce: u32,
    now_ns: u128,
) -> (r: FileChange)
    ensures
        *final(session) == (Session { nonce }),
        r.clear == clears(*old(session), nonce, pkt),
        final(store)@ == after_insert(prepared(old(store)@, r.clear), pkt, now_ns),
        r.append == (if is_stored(prepared(old(store)@, r.clear), pkt) {
            Some(persisted(Record { received_ns: now_ns, packet: pkt }))
        } else {
            None
        }),
{
    let mut clear: bool = false;
    if session.nonce != 0 && nonce != session.nonce {
        store.clear();
        clear = true;
    }
    session.nonce = nonce;
    if pkt.history_clear {
        store.clear();
        clear = true;
    }
    assert(store@ == prepared(old(store)@, clear));
    let append: Option<PersistedRecord> = store.insert(pkt, now_ns);
    FileChange { clear, append }
}

/// Takes in a datagram. One that is no packet changes nothing.
pub fn datagram_received(
    session: &mut Session,
    store: &mut Store,
    datagram: &[u8],
    nonce: u32,
    now_ns: u128,
) -> (r: Option<FileChange>)
    ensures
        r is Some <==> is_packet(datagram@),
        match r {
            Some(change) => exists|pkt: Packet| #[trigger]
                fields_of(pkt, datagram@) && *final(session) == (Session { nonce }) && change.clear
                    == clears(*old(session), nonce, pkt) && final(store)@ == after_insert(
                    prepared(old(store)@, change.clear),
                    pkt,
                    now_ns,
                ) && change.append == (if is_stored(prepared(old(store)@, change.clear), pkt) {
                    Some(persisted(Record { received_ns: now_ns, packet: pkt }))
                } else {
                    None
                }),
            None => *final(session) == *old(session) && *final(store) == *old(store),
        },
{
    match Packet::decode(datagram) {
        Some(pkt) => Some(packet_received(session, store, pkt, nonce, now_ns)),
        None => None,
    }
}

/// After a packet that says that the device's history was cleared, the history
/// holds that packet alone, or nothing where nothing is collected.
pub proof fn histories_stay_in_step(s: StoreView, session: Session, nonce: u32, pkt: Packet, now_ns: u128)
    requires
        pkt.history_clear,
    ensures
        ({
            let after = after_insert(prepared(s, clears(session, nonce, pkt)), pkt, now_ns);
            &&& after.records == (if pkt.collecting {
                seq![Record { received_ns: now_ns, packet: pkt }]
            } else {
                Seq::empty()
            })
            &&& after.packets_received == 1
            &&& after.packets_dropped == 0
        }),
{
    let record = Record { received_ns: now_ns, packet: pkt };
    let one = Seq::<Record>::empty().push(record);
    assert(one.skip(0) == seq![record]);
}

/// The history is cleared before a packet exactly where the device says that it
/// has cleared its own, or where a session is under way and the packet is of
/// another one.
pub proof fn only_another_session_clears(session: Session, nonce: u32, pkt: Packet)
    ensures
        pkt.history_clear ==> clears(session, nonce, pkt),
        !pkt.history_clear && session.nonce == 0 ==> !clears(session, nonce, pkt),
        !pkt.history_clear && session.nonce == nonce ==> !clears(session, nonce, pkt),
        session.nonce != 0 && session.nonce != nonce ==> clears(session, nonce, pkt),
{
}

} // verus!
