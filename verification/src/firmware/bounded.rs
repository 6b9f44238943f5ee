//! The fixed-capacity containers of `heapless` that the firmware keeps its
//! peer lists, host names and serial numbers in.
//!
//! A container is known by its contents alone: each instance has a name for
//! them, and each method used has one contract over that name.

use vstd::prelude::*;
use vstd::utf8::encode_utf8;
use super::network::ntp::PendingQuery;
use super::shared::NtpSource;
use super::status::NtpPeerSnapshot;

verus! {

/// `heapless::Vec`: a vector of at most `N` items without heap allocation.
#[verifier::external_type_specification]
#[verifier::external_body]
#[verifier::reject_recursive_types(T)]
pub struct ExHeaplessVec<T, const N: usize>(heapless::Vec<T, N>);

/// `heapless::String`: a string of at most `N` bytes without heap allocation.
#[verifier::external_type_specification]
#[verifier::external_body]
pub struct ExHeaplessString<const N: usize>(heapless::String<N>);

// ── Lists of IPv4 addresses ──────────────────────────────────────────────────

/// The addresses in a list of at most four, in order.
pub uninterp spec fn addresses(v: heapless::Vec<[u8; 4], 4>) -> Seq<[u8; 4]>;

/// `heapless::Vec::new`: the list starts out empty.
#[verifier::external_body]
pub(crate) fn addresses_new() -> (v: heapless::Vec<[u8; 4], 4>)
    ensures
        addresses(v) == Seq::<[u8; 4]>::empty(),
{
    heapless::Vec::new()
}

/// `heapless::Vec::push`: adds an item at the end, or hands it back and leaves
/// the list as it is where four are in it.
#[verifier::external_body]
pub(crate) fn addresses_push(v: &mut heapless::Vec<[u8; 4], 4>, ip: [u8; 4]) -> (r: Result<
    (),
    [u8; 4],
>)
    ensures
        r is Ok <==> addresses(*old(v)).len() < 4,
        r is Ok ==> addresses(*final(v)) == addresses(*old(v)).push(ip),
        r is Err ==> r->Err_0 == ip,
        r is Err ==> addresses(*final(v)) == addresses(*old(v)),
{
    v.push(ip)
}

/// `heapless::Vec::as_slice`: the items in order, at most four.
#[verifier::external_body]
pub(crate) fn addresses_slice(v: &heapless::Vec<[u8; 4], 4>) -> (s: &[[u8; 4]])
    ensures
        s@ == addresses(*v),
        s@.len() <= 4,
{
    v.as_slice()
}

// ── Strings of at most 32 bytes ──────────────────────────────────────────────

/// The text of a string of at most 32 bytes.
pub uninterp spec fn string32(s: heapless::String<32>) -> Seq<char>;

/// `heapless::String::new`: the string starts out empty.
#[verifier::external_body]
pub(crate) fn string32_new() -> (s: heapless::String<32>)
    ensures
        string32(s) == Seq::<char>::empty(),
{
    heapless::String::new()
}

/// `heapless::String::push`: adds a character at the end, or fails and leaves
/// the string as it is where its UTF-8 encoding no longer fits in 32 bytes.
#[verifier::external_body]
pub(crate) fn string32_push(s: &mut heapless::String<32>, c: char) -> (r: Result<(), ()>)
    ensures
        r is Ok <==> encode_utf8(string32(*old(s)).push(c)).len() <= 32,
        r is Ok ==> string32(*final(s)) == string32(*old(s)).push(c),
        r is Err ==> string32(*final(s)) == string32(*old(s)),
{
    s.push(c)
}

/// `heapless::String::push_str`: adds text at the end, or fails and leaves the
/// string as it is where its UTF-8 encoding no longer fits in 32 bytes.
#[verifier::external_body]
pub(crate) fn string32_push_str(s: &mut heapless::String<32>, text: &str) -> (r: Result<(), ()>)
    ensures
        r is Ok <==> encode_utf8(string32(*old(s)) + text@).len() <= 32,
        r is Ok ==> string32(*final(s)) == string32(*old(s)) + text@,
        r is Err ==> string32(*final(s)) == string32(*old(s)),
{
    s.push_str(text)
}

/// `heapless::String::as_str`: the text, at most 32 bytes of UTF-8.
#[verifier::external_body]
pub(crate) fn string32_str(s: &heapless::String<32>) -> (r: &str)
    ensures
        r@ == string32(*s),
        encode_utf8(r@).len() <= 32,
{
    s.as_str()
}

// ── Strings of at most 16 bytes ──────────────────────────────────────────────

/// The text of a string of at most 16 bytes.
pub uninterp spec fn string16(s: heapless::String<16>) -> Seq<char>;

/// `heapless::String::new`: the string starts out empty.
#[verifier::external_body]
pub(crate) fn string16_new() -> (s: heapless::String<16>)
    ensures
        string16(s) == Seq::<char>::empty(),
{
    heapless::String::new()
}

/// `heapless::String::push`: adds a character at the end, or fails and leaves
/// the string as it is where its UTF-8 encoding no longer fits in 16 bytes.
#[verifier::external_body]
pub(crate) fn string16_push(s: &mut heapless::String<16>, c: char) -> (r: Result<(), ()>)
    ensures
        r is Ok <==> encode_utf8(string16(*old(s)).push(c)).len() <= 16,
        r is Ok ==> string16(*final(s)) == string16(*old(s)).push(c),
        r is Err ==> string16(*final(s)) == string16(*old(s)),
{
    s.push(c)
}

/// `heapless::String::as_str`: the text.
#[verifier::external_body]
pub(crate) fn string16_str(s: &heapless::String<16>) -> (r: &str)
    ensures
        r@ == string16(*s),
{
    s.as_str()
}

// ── Snapshots of NTP peers ───────────────────────────────────────────────────

/// The snapshots in a list of at most five, in order.
pub uninterp spec fn snapshots(v: heapless::Vec<NtpPeerSnapshot, 5>) -> Seq<NtpPeerSnapshot>;

/// `heapless::Vec::new`: the list starts out empty.
#[verifier::external_body]
pub(crate) fn snapshots_new() -> (v: heapless::Vec<NtpPeerSnapshot, 5>)
    ensures
        snapshots(v) == Seq::<NtpPeerSnapshot>::empty(),
{
    heapless::Vec::new()
}

/// `heapless::Vec::push`: adds an item at the end, or hands it back and leaves
/// the list as it is where five are in it.
#[verifier::external_body]
pub(crate) fn snapshots_push(
    v: &mut heapless::Vec<NtpPeerSnapshot, 5>,
    peer: NtpPeerSnapshot,
) -> (r: Result<(), NtpPeerSnapshot>)
    ensures
        r is Ok <==> snapshots(*old(v)).len() < 5,
        r is Ok ==> snapshots(*final(v)) == snapshots(*old(v)).push(peer),
        r is Err ==> r->Err_0 == peer,
        r is Err ==> snapshots(*final(v)) == snapshots(*old(v)),
{
    v.push(peer)
}

// ── NTP servers to query ─────────────────────────────────────────────────────

/// The servers in a list of at most five, in order.
pub uninterp spec fn servers(v: heapless::Vec<([u8; 4], NtpSource), 5>) -> Seq<([u8; 4], NtpSource)>;

/// `heapless::Vec::new`: the list starts out empty.
#[verifier::external_body]
pub(crate) fn servers_new() -> (v: heapless::Vec<([u8; 4], NtpSource), 5>)
    ensures
        servers(v) == Seq::<([u8; 4], NtpSource)>::empty(),
{
    heapless::Vec::new()
}

/// `heapless::Vec::push`: adds an item at the end, or hands it back and leaves
/// the list as it is where five are in it.
#[verifier::external_body]
pub(crate) fn servers_push(
    v: &mut heapless::Vec<([u8; 4], NtpSource), 5>,
    server: ([u8; 4], NtpSource),
) -> (r: Result<(), ([u8; 4], NtpSource)>)
    ensures
        r is Ok <==> servers(*old(v)).len() < 5,
        r is Ok ==> servers(*final(v)) == servers(*old(v)).push(server),
        r is Err ==> r->Err_0 == server,
        r is Err ==> servers(*final(v)) == servers(*old(v)),
{
    v.push(server)
}

// ── NTP queries in flight ────────────────────────────────────────────────────

/// The queries in a list of at most five, in order.
pub uninterp spec fn queries(v: heapless::Vec<PendingQuery, 5>) -> Seq<PendingQuery>;

/// `heapless::Vec::new`: the list starts out empty.
#[verifier::external_body]
pub(crate) fn queries_new() -> (v: heapless::Vec<PendingQuery, 5>)
    ensures
        queries(v) == Seq::<PendingQuery>::empty(),
{
    heapless::Vec::new()
}

/// `heapless::Vec::push`: adds an item at the end, or hands it back and leaves
/// the list as it is where five are in it.
#[verifier::external_body]
pub(crate) fn queries_push(
    v: &mut heapless::Vec<PendingQuery, 5>,
    query: PendingQuery,
) -> (r: Result<(), PendingQuery>)
    ensures
        r is Ok <==> queries(*old(v)).len() < 5,
        r is Ok ==> queries(*final(v)) == queries(*old(v)).push(query),
        r is Err ==> r->Err_0 == query,
        r is Err ==> queries(*final(v)) == queries(*old(v)),
{
    v.push(query)
}

/// `heapless::Vec::as_slice`: the items in order, at most five.
#[verifier::external_body]
pub(crate) fn queries_slice(v: &heapless::Vec<PendingQuery, 5>) -> (s: &[PendingQuery])
    ensures
        s@ == queries(*v),
        s@.len() <= 5,
{
    v.as_slice()
}

/// `heapless::Vec::as_mut_slice`: an item is replaced in its place.
#[verifier::external_body]
pub(crate) fn queries_set(v: &mut heapless::Vec<PendingQuery, 5>, i: usize, query: PendingQuery)
    requires
        i < queries(*old(v)).len(),
    ensures
        queries(*final(v)) == queries(*old(v)).update(i as int, query),
{
    v.as_mut_slice()[i] = query;
}

} // verus!
