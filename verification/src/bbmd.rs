//! Broadcast Distribution Table (BDT) state of a BACnet/IP BBMD.
//!
//! Every BDT mutation goes through [`BbmdState::set_bdt`], which validates a
//! whole candidate table before committing it: unsafe peer addresses and
//! masks are refused, exact duplicates collapse in first-seen order, one
//! endpoint with two different masks is a conflict, the BBMD's own entry is
//! appended when missing, and the canonical table must fit the hard cap. A
//! refused candidate leaves the committed table unchanged.

use vstd::prelude::*;
use vstd::arithmetic::power2::{lemma2_to64, pow2};

use crate::error::Error;

verus! {

/// Hard cap on committed BDT entries, the BBMD's own entry included.
pub const MAX_BDT_ENTRIES: usize = 128;

/// Hard cap on Foreign Device Table entries.
pub const MAX_FDT_ENTRIES: usize = 512;

/// Encoded size of one BDT entry on the wire: IPv4, port, mask.
pub const BDT_ENTRY_SIZE: usize = 10;

/// One BDT entry: a peer BBMD and its broadcast distribution mask.
#[derive(Clone, Copy, Debug, PartialEq, Eq)]
pub struct BdtEntry {
    /// Peer IPv4 address.
    pub ip: [u8; 4],
    /// Peer UDP port.
    pub port: u16,
    /// Broadcast distribution mask.
    pub broadcast_mask: [u8; 4],
}

/// Why one candidate BDT entry is refused.
#[derive(Clone, Copy, Debug, PartialEq, Eq, Structural)]
pub enum BdtFault {
    /// UDP port 0.
    ZeroPort,
    /// 0.0.0.0.
    Unspecified,
    /// 224.0.0.0/4.
    Multicast,
    /// 255.255.255.255, directly or derived from the mask.
    LimitedBroadcast,
    /// The mask is not a run of ones followed by zeros.
    NonContiguousMask,
    /// Every host bit of the address is zero.
    NetworkAddress,
    /// Every host bit of the address is one.
    SubnetBroadcast,
}

/// Why a candidate BDT is refused as a whole.
#[derive(Clone, Copy, Debug, PartialEq, Eq, Structural)]
pub enum BdtError {
    /// One entry is unsafe.
    Entry(BdtFault),
    /// One endpoint appears with two different masks.
    Conflict,
    /// The canonical table exceeds [`MAX_BDT_ENTRIES`].
    Capacity,
}

/// Leading-ones byte with `n` ones (`n` in 0..=8).
pub open spec fn prefix_byte(n: int) -> u8 {
    if n <= 0 {
        0x00
    } else if n == 1 {
        0x80
    } else if n == 2 {
        0xc0
    } else if n == 3 {
        0xe0
    } else if n == 4 {
        0xf0
    } else if n == 5 {
        0xf8
    } else if n == 6 {
        0xfc
    } else if n == 7 {
        0xfe
    } else {
        0xff
    }
}

/// A leading-ones byte with `n` ones is `256 - 2^(8 - n)`: the `n` high
/// bits are set and the others clear.
pub proof fn lemma_prefix_byte_value(n: int)
    requires
        0 <= n <= 8,
    ensures
        prefix_byte(n) as int == 256 - pow2((8 - n) as nat),
{
    lemma2_to64();
}

/// Byte `i` of the prefix mask of length `k`.
pub open spec fn prefix_mask_byte(k: int, i: int) -> u8 {
    prefix_byte(k - 8 * i)
}

/// The mask is a run of `k` ones followed by zeros.
pub open spec fn is_prefix_mask(m: [u8; 4], k: int) -> bool {
    &&& m[0] == prefix_mask_byte(k, 0)
    &&& m[1] == prefix_mask_byte(k, 1)
    &&& m[2] == prefix_mask_byte(k, 2)
    &&& m[3] == prefix_mask_byte(k, 3)
}

/// The mask is contiguous: some prefix length 0..=32 produces it.
pub open spec fn contiguous_mask(m: [u8; 4]) -> bool {
    exists|k: int| 0 <= k <= 32 && #[trigger] is_prefix_mask(m, k)
}

/// Every byte of `a` is `v`.
pub open spec fn all_bytes(a: [u8; 4], v: u8) -> bool {
    a[0] == v && a[1] == v && a[2] == v && a[3] == v
}

/// The host part of `ip` under `mask` is all zero.
pub open spec fn host_bits_zero(ip: [u8; 4], mask: [u8; 4]) -> bool {
    forall|i: int| 0 <= i < 4 ==> #[trigger] (ip[i] & !mask[i]) == 0
}

/// The host part of `ip` under `mask` is all one.
pub open spec fn host_bits_one(ip: [u8; 4], mask: [u8; 4]) -> bool {
    forall|i: int| 0 <= i < 4 ==> #[trigger] (ip[i] | mask[i]) == 0xff
}

/// The directed broadcast address derived from `ip` and `mask` is
/// 255.255.255.255 (the network part of `ip` is all one).
pub open spec fn derives_limited_broadcast(ip: [u8; 4], mask: [u8; 4]) -> bool {
    forall|i: int| 0 <= i < 4 ==> #[trigger] (ip[i] | !mask[i]) == 0xff
}

/// The first reason, in checking order, for which `e` is refused.
pub open spec fn entry_fault(e: BdtEntry) -> Option<BdtFault> {
    if e.port == 0 {
        Some(BdtFault::ZeroPort)
    } else if all_bytes(e.ip, 0) {
        Some(BdtFault::Unspecified)
    } else if 224 <= e.ip[0] <= 239 {
        Some(BdtFault::Multicast)
    } else if all_bytes(e.ip, 0xff) {
        Some(BdtFault::LimitedBroadcast)
    } else if !contiguous_mask(e.broadcast_mask) {
        Some(BdtFault::NonContiguousMask)
    } else if all_bytes(e.broadcast_mask, 0xff) {
        None
    } else if derives_limited_broadcast(e.ip, e.broadcast_mask) {
        Some(BdtFault::LimitedBroadcast)
    } else if host_bits_zero(e.ip, e.broadcast_mask) {
        Some(BdtFault::NetworkAddress)
    } else if host_bits_one(e.ip, e.broadcast_mask) {
        Some(BdtFault::SubnetBroadcast)
    } else {
        None
    }
}

/// Which peer entries a BDT accepts: a zero port, the address 0.0.0.0, a
/// multicast address (first octet 224..=239) and the limited broadcast
/// 255.255.255.255 are always refused; a peer with any other address, a
/// non-zero port and the all-ones mask (a one-hop peer) is accepted.
pub proof fn lemma_bdt_entry_acceptance(e: BdtEntry)
    ensures
        e.port == 0 ==> entry_fault(e) is Some,
        e.ip == [0u8, 0, 0, 0] ==> entry_fault(e) is Some,
        224 <= e.ip[0] <= 239 ==> entry_fault(e) is Some,
        e.ip == [255u8, 255, 255, 255] ==> entry_fault(e) is Some,
        e.port != 0 && e.ip != [0u8, 0, 0, 0] && !(224 <= e.ip[0] <= 239) && e.ip != [255u8, 255, 255, 255]
            && e.broadcast_mask == [255u8, 255, 255, 255] ==> entry_fault(e) is None,
{
    if e.ip == [0u8, 0, 0, 0] {
        assert(all_bytes(e.ip, 0));
    }
    if e.ip == [255u8, 255, 255, 255] {
        assert(all_bytes(e.ip, 0xff));
    }
    if e.broadcast_mask == [255u8, 255, 255, 255] {
        assert(all_bytes(e.broadcast_mask, 0xff));
        assert(is_prefix_mask(e.broadcast_mask, 32));
        if e.ip != [0u8, 0, 0, 0] {
            assert(!all_bytes(e.ip, 0)) by {
                if all_bytes(e.ip, 0) {
                    assert(e.ip =~= [0u8, 0, 0, 0]);
                }
            }
        }
        if e.ip != [255u8, 255, 255, 255] {
            assert(!all_bytes(e.ip, 0xff)) by {
                if all_bytes(e.ip, 0xff) {
                    assert(e.ip =~= [255u8, 255, 255, 255]);
                }
            }
        }
    }
}

/// The fault of the first refused entry of `s`.
pub open spec fn first_fault(s: Seq<BdtEntry>) -> Option<BdtFault>
    decreases s.len(),
{
    if s.len() == 0 {
        None
    } else {
        match first_fault(s.drop_last()) {
            Some(f) => Some(f),
            None => entry_fault(s.last()),
        }
    }
}

/// Two entries name the same peer endpoint.
pub open spec fn same_endpoint(a: BdtEntry, b: BdtEntry) -> bool {
    a.ip == b.ip && a.port == b.port
}

/// One endpoint appears with two different masks.
pub open spec fn has_conflict(s: Seq<BdtEntry>) -> bool {
    exists|i: int, j: int|
        0 <= i < s.len() && 0 <= j < s.len() && same_endpoint(#[trigger] s[i], #[trigger] s[j])
            && s[i].broadcast_mask != s[j].broadcast_mask
}

/// `s` with exact duplicates removed, keeping first occurrences in order.
pub open spec fn canonical(s: Seq<BdtEntry>) -> Seq<BdtEntry>
    decreases s.len(),
{
    if s.len() == 0 {
        Seq::empty()
    } else {
        let c = canonical(s.drop_last());
        if c.contains(s.last()) {
            c
        } else {
            c.push(s.last())
        }
    }
}

/// The BBMD's own entry.
pub open spec fn self_entry(ip: [u8; 4], port: u16) -> BdtEntry {
    BdtEntry { ip, port, broadcast_mask: [0xff, 0xff, 0xff, 0xff] }
}

/// Whether `s` holds an entry for the endpoint `ip:port`.
pub open spec fn has_endpoint(s: Seq<BdtEntry>, ip: [u8; 4], port: u16) -> bool {
    exists|i: int| 0 <= i < s.len() && (#[trigger] s[i]).ip == ip && s[i].port == port
}

/// A non-empty table gains the BBMD's own entry when it lacks it.
pub open spec fn with_self(c: Seq<BdtEntry>, ip: [u8; 4], port: u16) -> Seq<BdtEntry> {
    if c.len() == 0 || has_endpoint(c, ip, port) {
        c
    } else {
        c.push(self_entry(ip, port))
    }
}

/// What committing candidate `s` yields: the table or the refusal.
pub open spec fn bdt_outcome(s: Seq<BdtEntry>, ip: [u8; 4], port: u16) -> Result<
    Seq<BdtEntry>,
    BdtError,
> {
    if first_fault(s) is Some {
        Err(BdtError::Entry(first_fault(s)->0))
    } else if has_conflict(s) {
        Err(BdtError::Conflict)
    } else if with_self(canonical(s), ip, port).len() > MAX_BDT_ENTRIES {
        Err(BdtError::Capacity)
    } else {
        Ok(with_self(canonical(s), ip, port))
    }
}

/// Text of the encoding error reported for a refused candidate.
pub open spec fn bdt_error_text(e: BdtError) -> Seq<char> {
    match e {
        BdtError::Entry(BdtFault::ZeroPort) => "BDT entry port must be non-zero"@,
        BdtError::Entry(BdtFault::Unspecified) => "BDT entry IP must not be unspecified (0.0.0.0)"@,
        BdtError::Entry(BdtFault::Multicast) => "BDT entry IP must not be multicast"@,
        BdtError::Entry(
            BdtFault::LimitedBroadcast,
        ) => "BDT entry must not be or derive the limited broadcast address"@,
        BdtError::Entry(BdtFault::NonContiguousMask) => "BDT broadcast mask must be contiguous"@,
        BdtError::Entry(
            BdtFault::NetworkAddress,
        ) => "BDT entry IP must not be a subnet network address"@,
        BdtError::Entry(
            BdtFault::SubnetBroadcast,
        ) => "BDT entry IP must not be a subnet broadcast address"@,
        BdtError::Conflict => "BDT conflict: one endpoint with different broadcast masks"@,
        BdtError::Capacity => "BDT exceeds the maximum number of entries"@,
    }
}

/// Text of the encoding error reported for a refused candidate.
pub fn bdt_error_message(e: BdtError) -> (r: String)
    ensures
        r@ == bdt_error_text(e),
{
    match e {
        BdtError::Entry(BdtFault::ZeroPort) => "BDT entry port must be non-zero".to_owned(),
        BdtError::Entry(BdtFault::Unspecified) => "BDT entry IP must not be unspecified (0.0.0.0)".to_owned(),
        BdtError::Entry(BdtFault::Multicast) => "BDT entry IP must not be multicast".to_owned(),
        BdtError::Entry(
            BdtFault::LimitedBroadcast,
        ) => "BDT entry must not be or derive the limited broadcast address".to_owned(),
        BdtError::Entry(BdtFault::NonContiguousMask) => "BDT broadcast mask must be contiguous".to_owned(),
        BdtError::Entry(
            BdtFault::NetworkAddress,
        ) => "BDT entry IP must not be a subnet network address".to_owned(),
        BdtError::Entry(
            BdtFault::SubnetBroadcast,
        ) => "BDT entry IP must not be a subnet broadcast address".to_owned(),
        BdtError::Conflict => "BDT conflict: one endpoint with different broadcast masks".to_owned(),
        BdtError::Capacity => "BDT exceeds the maximum number of entries".to_owned(),
    }
}

/// Whether every byte of `a` equals `v`.
fn bytes_all(a: [u8; 4], v: u8) -> (r: bool)
    ensures
        r == all_bytes(a, v),
{
    a[0] == v && a[1] == v && a[2] == v && a[3] == v
}

/// Leading-ones byte with `n` ones.
fn prefix_byte_exec(n: i32) -> (r: u8)
    ensures
        r == prefix_byte(n as int),
{
    if n <= 0 {
        0x00
    } else if n == 1 {
        0x80
    } else if n == 2 {
        0xc0
    } else if n == 3 {
        0xe0
    } else if n == 4 {
        0xf0
    } else if n == 5 {
        0xf8
    } else if n == 6 {
        0xfc
    } else if n == 7 {
        0xfe
    } else {
        0xff
    }
}

/// Whether the mask is a run of ones followed by zeros.
pub fn is_contiguous_mask(m: [u8; 4]) -> (r: bool)
    ensures
        r == contiguous_mask(m),
{
    let mut k: i32 = 0;
    while k <= 32
        invariant
            0 <= k <= 33,
            forall|j: int| 0 <= j < k ==> !#[trigger] is_prefix_mask(m, j),
        decreases 33 - k,
    {
        if m[0] == prefix_byte_exec(k) && m[1] == prefix_byte_exec(k - 8) && m[2]
            == prefix_byte_exec(k - 16) && m[3] == prefix_byte_exec(k - 24) {
            assert(is_prefix_mask(m, k as int));
            return true;
        }
        k = k + 1;
    }
    false
}

/// The first reason for which one candidate BDT entry is refused.
pub fn check_bdt_entry(e: &BdtEntry) -> (r: Option<BdtFault>)
    ensures
        r == entry_fault(*e),
{
    if e.port == 0 {
        return Some(BdtFault::ZeroPort);
    }
    if bytes_all(e.ip, 0) {
        return Some(BdtFault::Unspecified);
    }
    if 224 <= e.ip[0] && e.ip[0] <= 239 {
        return Some(BdtFault::Multicast);
    }
    if bytes_all(e.ip, 0xff) {
        return Some(BdtFault::LimitedBroadcast);
    }
    if !is_contiguous_mask(e.broadcast_mask) {
        return Some(BdtFault::NonContiguousMask);
    }
    if bytes_all(e.broadcast_mask, 0xff) {
        return None;
    }
    let ip = e.ip;
    let m = e.broadcast_mask;
    if (ip[0] | !m[0]) == 0xff && (ip[1] | !m[1]) == 0xff && (ip[2] | !m[2]) == 0xff && (ip[3]
        | !m[3]) == 0xff {
        return Some(BdtFault::LimitedBroadcast);
    }
    assert(!derives_limited_broadcast(ip, m));
    if (ip[0] & !m[0]) == 0 && (ip[1] & !m[1]) == 0 && (ip[2] & !m[2]) == 0 && (ip[3] & !m[3])
        == 0 {
        return Some(BdtFault::NetworkAddress);
    }
    assert(!host_bits_zero(ip, m));
    if (ip[0] | m[0]) == 0xff && (ip[1] | m[1]) == 0xff && (ip[2] | m[2]) == 0xff && (ip[3]
        | m[3]) == 0xff {
        return Some(BdtFault::SubnetBroadcast);
    }
    assert(!host_bits_one(ip, m));
    None
}

/// The broadcast address a peer entry forwards to: `ip | !mask`.
pub open spec fn directed_address(e: BdtEntry) -> [u8; 4] {
    [
        e.ip[0] | !e.broadcast_mask[0],
        e.ip[1] | !e.broadcast_mask[1],
        e.ip[2] | !e.broadcast_mask[2],
        e.ip[3] | !e.broadcast_mask[3],
    ]
}

/// Forwarding destinations of the entries of `bdt` other than the BBMD
/// itself (`ip:port`) and the sender (`src_ip:src_port`), in table order,
/// before duplicates are removed.
pub open spec fn raw_targets(
    bdt: Seq<BdtEntry>,
    ip: [u8; 4],
    port: u16,
    src_ip: [u8; 4],
    src_port: u16,
) -> Seq<([u8; 4], u16)>
    decreases bdt.len(),
{
    if bdt.len() == 0 {
        Seq::empty()
    } else {
        let rest = raw_targets(bdt.drop_last(), ip, port, src_ip, src_port);
        let e = bdt.last();
        if (e.ip == ip && e.port == port) || (e.ip == src_ip && e.port == src_port) {
            rest
        } else {
            rest.push((directed_address(e), e.port))
        }
    }
}

/// `s` with duplicates removed, keeping first occurrences in order.
pub open spec fn dedup<A>(s: Seq<A>) -> Seq<A>
    decreases s.len(),
{
    if s.len() == 0 {
        Seq::empty()
    } else {
        let c = dedup(s.drop_last());
        if c.contains(s.last()) {
            c
        } else {
            c.push(s.last())
        }
    }
}

/// Wire encoding of a 16-bit value, most significant byte first.
pub open spec fn be_u16(v: u16) -> Seq<u8> {
    seq![(v / 256) as u8, (v % 256) as u8]
}

/// A 16-bit value is sent most significant byte first: the first byte
/// times 256 plus the second gives the value back.
pub proof fn lemma_be_u16_value(v: u16)
    ensures
        be_u16(v).len() == 2,
        be_u16(v)[0] as int * 256 + be_u16(v)[1] as int == v as int,
{
}

/// Wire encoding of one BDT entry: address, port, mask (10 bytes).
pub open spec fn encode_bdt_entry(e: BdtEntry) -> Seq<u8> {
    e.ip@ + be_u16(e.port) + e.broadcast_mask@
}

/// Wire encoding of a BDT: its entries' encodings in order.
pub open spec fn encode_bdt(s: Seq<BdtEntry>) -> Seq<u8>
    decreases s.len(),
{
    if s.len() == 0 {
        Seq::empty()
    } else {
        encode_bdt(s.drop_last()) + encode_bdt_entry(s.last())
    }
}

/// One Foreign Device Table entry as carried by Read-FDT-Ack.
#[derive(Clone, Copy, Debug, PartialEq, Eq)]
pub struct FdtEntryWire {
    /// Foreign-device IPv4 address.
    pub ip: [u8; 4],
    /// Foreign-device UDP port.
    pub port: u16,
    /// Registered time-to-live in seconds.
    pub ttl: u16,
    /// Seconds remaining before the entry is purged.
    pub seconds_remaining: u16,
}

/// Wire encoding of one FDT entry: address, port, TTL, remaining (10 bytes).
pub open spec fn encode_fdt_entry(e: FdtEntryWire) -> Seq<u8> {
    e.ip@ + be_u16(e.port) + be_u16(e.ttl) + be_u16(e.seconds_remaining)
}

/// Wire encoding of an FDT: its entries' encodings in order.
pub open spec fn encode_fdt(s: Seq<FdtEntryWire>) -> Seq<u8>
    decreases s.len(),
{
    if s.len() == 0 {
        Seq::empty()
    } else {
        encode_fdt(s.drop_last()) + encode_fdt_entry(s.last())
    }
}

/// Appends the big-endian encoding of `v` to `out`.
fn push_be_u16(out: &mut Vec<u8>, v: u16)
    ensures
        final(out)@ == old(out)@ + be_u16(v),
{
    out.push((v / 256) as u8);
    out.push((v % 256) as u8);
    assert(final(out)@ =~= old(out)@ + be_u16(v));
}

/// Appends the four bytes of `a` to `out`.
fn push_bytes4(out: &mut Vec<u8>, a: [u8; 4])
    ensures
        final(out)@ == old(out)@ + a@,
{
    out.push(a[0]);
    out.push(a[1]);
    out.push(a[2]);
    out.push(a[3]);
    assert(final(out)@ =~= old(out)@ + a@);
}

/// The 10-byte wire encoding of one BDT entry.
pub fn encoded_bdt_entry(e: &BdtEntry) -> (r: Vec<u8>)
    ensures
        r@ == encode_bdt_entry(*e),
{
    let mut out: Vec<u8> = Vec::new();
    push_bytes4(&mut out, e.ip);
    push_be_u16(&mut out, e.port);
    push_bytes4(&mut out, e.broadcast_mask);
    assert(out@ =~= encode_bdt_entry(*e));
    out
}

/// The 10-byte wire encoding of one FDT entry.
pub fn encoded_fdt_entry(e: &FdtEntryWire) -> (r: Vec<u8>)
    ensures
        r@ == encode_fdt_entry(*e),
{
    let mut out: Vec<u8> = Vec::new();
    push_bytes4(&mut out, e.ip);
    push_be_u16(&mut out, e.port);
    push_be_u16(&mut out, e.ttl);
    push_be_u16(&mut out, e.seconds_remaining);
    assert(out@ =~= encode_fdt_entry(*e));
    out
}

/// Wire encoding of a BDT (10 bytes per entry).
pub fn encode_bdt_entries(entries: &[BdtEntry]) -> (r: Vec<u8>)
    ensures
        r@ == encode_bdt(entries@),
{
    let mut out: Vec<u8> = Vec::new();
    let mut i: usize = 0;
    while i < entries.len()
        invariant
            i <= entries@.len(),
            out@ == encode_bdt(entries@.take(i as int)),
        decreases entries@.len() - i,
    {
        let e = entries[i];
        assert(entries@.take(i + 1).drop_last() =~= entries@.take(i as int));
        let piece = encoded_bdt_entry(&e);
        let mut k: usize = 0;
        let ghost before = out@;
        while k < piece.len()
            invariant
                k <= piece@.len(),
                out@ == before + piece@.take(k as int),
            decreases piece@.len() - k,
        {
            out.push(piece[k]);
            assert(piece@.take(k + 1) =~= piece@.take(k as int).push(piece@[k as int]));
            k = k + 1;
        }
        assert(piece@.take(k as int) =~= piece@);
        i = i + 1;
    }
    assert(entries@.take(i as int) =~= entries@);
    out
}

/// Reads four bytes of `data` starting at `k`.
fn read_bytes4(data: &[u8], k: usize) -> (r: [u8; 4])
    requires
        k + 4 <= data@.len(),
    ensures
        r@ == data@.subrange(k as int, k + 4),
{
    let r = [data[k], data[k + 1], data[k + 2], data[k + 3]];
    assert(r@ =~= data@.subrange(k as int, k + 4));
    r
}

/// Reads a big-endian 16-bit value of `data` at `k`.
fn read_be_u16(data: &[u8], k: usize) -> (r: u16)
    requires
        k + 2 <= data@.len(),
    ensures
        be_u16(r) == data@.subrange(k as int, k + 2),
{
    let r = (data[k] as u16) * 256 + (data[k + 1] as u16);
    assert(be_u16(r) =~= data@.subrange(k as int, k + 2));
    r
}

/// Decodes a wire-format BDT; the length must be a multiple of 10.
pub fn decode_bdt(data: &[u8]) -> (r: Result<Vec<BdtEntry>, Error>)
    ensures
        r is Ok <==> data@.len() % 10 == 0,
        r matches Ok(v) ==> encode_bdt(v@) == data@,
        r matches Err(e) ==> e is Encoding,
{
    if data.len() % 10 != 0 {
        return Err(Error::Encoding("BDT payload length must be a multiple of 10".to_owned()));
    }
    let total = data.len();
    let n = total / 10;
    let mut out: Vec<BdtEntry> = Vec::new();
    let mut i: usize = 0;
    while i < n
        invariant
            n * 10 == data@.len(),
            total == data@.len(),
            total <= usize::MAX,
            i <= n,
            out@.len() == i,
            encode_bdt(out@) == data@.take(10 * i),
        decreases n - i,
    {
        let k = 10 * i;
        let e = BdtEntry {
            ip: read_bytes4(data, k),
            port: read_be_u16(data, k + 4),
            broadcast_mask: read_bytes4(data, k + 6),
        };
        let ghost before = out@;
        out.push(e);
        assert(out@.drop_last() =~= before);
        assert(data@.take(10 * (i + 1)) =~= data@.take(10 * i) + data@.subrange(k as int, k + 4)
            + data@.subrange(k + 4, k + 6) + data@.subrange(k + 6, k + 10));
        i = i + 1;
    }
    assert(data@.take(10 * n) =~= data@);
    Ok(out)
}

/// Decodes a wire-format FDT; the length must be a multiple of 10.
pub fn decode_fdt(data: &[u8]) -> (r: Result<Vec<FdtEntryWire>, Error>)
    ensures
        r is Ok <==> data@.len() % 10 == 0,
        r matches Ok(v) ==> encode_fdt(v@) == data@,
        r matches Err(e) ==> e is Encoding,
{
    if data.len() % 10 != 0 {
        return Err(Error::Encoding("FDT payload length must be a multiple of 10".to_owned()));
    }
    let total = data.len();
    let n = total / 10;
    let mut out: Vec<FdtEntryWire> = Vec::new();
    let mut i: usize = 0;
    while i < n
        invariant
            n * 10 == data@.len(),
            total == data@.len(),
            total <= usize::MAX,
            i <= n,
            out@.len() == i,
            encode_fdt(out@) == data@.take(10 * i),
        decreases n - i,
    {
        let k = 10 * i;
        let e = FdtEntryWire {
            ip: read_bytes4(data, k),
            port: read_be_u16(data, k + 4),
            ttl: read_be_u16(data, k + 6),
            seconds_remaining: read_be_u16(data, k + 8),
        };
        let ghost before = out@;
        out.push(e);
        assert(out@.drop_last() =~= before);
        assert(data@.take(10 * (i + 1)) =~= data@.take(10 * i) + data@.subrange(k as int, k + 4)
            + data@.subrange(k + 4, k + 6) + data@.subrange(k + 6, k + 8) + data@.subrange(k + 8, k + 10));
        i = i + 1;
    }
    assert(data@.take(10 * n) =~= data@);
    Ok(out)
}

/// Whether two addresses are equal.
fn ip_eq(a: [u8; 4], b: [u8; 4]) -> (r: bool)
    ensures
        r == (a == b),
{
    let r = a[0] == b[0] && a[1] == b[1] && a[2] == b[2] && a[3] == b[3];
    if r {
        assert(a =~= b);
    }
    r
}

/// Whether two entries are equal.
fn entry_eq(a: &BdtEntry, b: &BdtEntry) -> (r: bool)
    ensures
        r == (*a == *b),
{
    ip_eq(a.ip, b.ip) && a.port == b.port && ip_eq(a.broadcast_mask, b.broadcast_mask)
}

/// Position of the first entry of `v` for endpoint `ip:port`.
fn find_endpoint(v: &Vec<BdtEntry>, ip: [u8; 4], port: u16) -> (r: Option<usize>)
    ensures
        r matches Some(j) ==> j < v@.len() && v@[j as int].ip == ip && v@[j as int].port == port,
        r is None ==> forall|y: int| 0 <= y < v@.len() ==> !((#[trigger] v@[y]).ip == ip && v@[y].port == port),
        r is Some <==> has_endpoint(v@, ip, port),
{
    let mut j: usize = 0;
    while j < v.len()
        invariant
            j <= v@.len(),
            forall|y: int| 0 <= y < j ==> !((#[trigger] v@[y]).ip == ip && v@[y].port == port),
        decreases v@.len() - j,
    {
        if ip_eq(v[j].ip, ip) && v[j].port == port {
            return Some(j);
        }
        j = j + 1;
    }
    None
}

/// Whether `v` holds the forwarding target `t`.
fn contains_target(v: &Vec<([u8; 4], u16)>, t: ([u8; 4], u16)) -> (r: bool)
    ensures
        r == v@.contains(t),
{
    let mut j: usize = 0;
    while j < v.len()
        invariant
            j <= v@.len(),
            forall|y: int| 0 <= y < j ==> #[trigger] v@[y] != t,
        decreases v@.len() - j,
    {
        let c = v[j];
        if ip_eq(c.0, t.0) && c.1 == t.1 {
            assert(v@[j as int] == t);
            return true;
        }
        j = j + 1;
    }
    false
}

/// Encoding a BDT takes 10 bytes per entry.
pub proof fn lemma_encode_bdt_len(s: Seq<BdtEntry>)
    ensures
        encode_bdt(s).len() == 10 * s.len(),
    decreases s.len(),
{
    if s.len() > 0 {
        lemma_encode_bdt_len(s.drop_last());
    }
}

/// The BDT wire encoding is injective, so decoding an encoded table gives
/// the table back: if [`decode_bdt`] succeeds on `encode_bdt(a)` with `b`,
/// then `encode_bdt(b) == encode_bdt(a)` and therefore `b == a`.
pub proof fn lemma_bdt_wire_roundtrip(a: Seq<BdtEntry>, b: Seq<BdtEntry>)
    requires
        encode_bdt(a) == encode_bdt(b),
    ensures
        a == b,
    decreases a.len(),
{
    lemma_encode_bdt_len(a);
    lemma_encode_bdt_len(b);
    if a.len() > 0 {
        lemma_encode_bdt_len(a.drop_last());
        lemma_encode_bdt_len(b.drop_last());
        let n = 10 * (a.len() - 1);
        let ea = encode_bdt(a);
        assert(ea.subrange(0, n) =~= encode_bdt(a.drop_last()));
        assert(encode_bdt(b).subrange(0, n) =~= encode_bdt(b.drop_last()));
        lemma_bdt_wire_roundtrip(a.drop_last(), b.drop_last());
        let x = a.last();
        let y = b.last();
        assert(ea.subrange(n, n + 10) =~= encode_bdt_entry(x));
        assert(encode_bdt(b).subrange(n, n + 10) =~= encode_bdt_entry(y));
        assert(x.ip =~= y.ip) by {
            assert(encode_bdt_entry(x)[0] == x.ip[0]);
            assert(encode_bdt_entry(x)[1] == x.ip[1]);
            assert(encode_bdt_entry(x)[2] == x.ip[2]);
            assert(encode_bdt_entry(x)[3] == x.ip[3]);
            assert(encode_bdt_entry(y)[0] == y.ip[0]);
            assert(encode_bdt_entry(y)[1] == y.ip[1]);
            assert(encode_bdt_entry(y)[2] == y.ip[2]);
            assert(encode_bdt_entry(y)[3] == y.ip[3]);
        }
        assert(x.broadcast_mask =~= y.broadcast_mask) by {
            assert(encode_bdt_entry(x)[6] == x.broadcast_mask[0]);
            assert(encode_bdt_entry(x)[7] == x.broadcast_mask[1]);
            assert(encode_bdt_entry(x)[8] == x.broadcast_mask[2]);
            assert(encode_bdt_entry(x)[9] == x.broadcast_mask[3]);
            assert(encode_bdt_entry(y)[6] == y.broadcast_mask[0]);
            assert(encode_bdt_entry(y)[7] == y.broadcast_mask[1]);
            assert(encode_bdt_entry(y)[8] == y.broadcast_mask[2]);
            assert(encode_bdt_entry(y)[9] == y.broadcast_mask[3]);
        }
        assert(x.port == y.port) by {
            assert(encode_bdt_entry(x)[4] == (x.port / 256) as u8);
            assert(encode_bdt_entry(x)[5] == (x.port % 256) as u8);
            assert(encode_bdt_entry(y)[4] == (y.port / 256) as u8);
            assert(encode_bdt_entry(y)[5] == (y.port % 256) as u8);
        }
        assert(a =~= a.drop_last().push(x));
        assert(b =~= b.drop_last().push(y));
    }
}

/// A refused prefix decides the first fault of the whole sequence.
proof fn lemma_first_fault_prefix(s: Seq<BdtEntry>, k: int)
    requires
        0 <= k <= s.len(),
        first_fault(s.take(k)) is Some,
    ensures
        first_fault(s) == first_fault(s.take(k)),
    decreases s.len() - k,
{
    if k < s.len() {
        assert(s.take(k + 1).drop_last() =~= s.take(k));
        lemma_first_fault_prefix(s, k + 1);
    } else {
        assert(s.take(k) =~= s);
    }
}

/// No entry of `s` is refused exactly when `s` has no first fault.
proof fn lemma_first_fault_none(s: Seq<BdtEntry>)
    ensures
        first_fault(s) is None <==> forall|i: int| 0 <= i < s.len() ==> entry_fault(#[trigger] s[i]) is None,
    decreases s.len(),
{
    if s.len() > 0 {
        lemma_first_fault_none(s.drop_last());
        if first_fault(s) is None {
            assert forall|i: int| 0 <= i < s.len() implies entry_fault(#[trigger] s[i]) is None by {
                if i < s.len() - 1 {
                    assert(s[i] == s.drop_last()[i]);
                }
            }
        } else if first_fault(s.drop_last()) is Some {
            let i = choose|i: int| 0 <= i < s.drop_last().len() && entry_fault(#[trigger] s.drop_last()[i]) is Some;
            assert(s[i] == s.drop_last()[i]);
        } else {
            assert(entry_fault(s[s.len() - 1]) is Some);
        }
    }
}

/// No element of `s` repeats.
pub open spec fn distinct_entries(s: Seq<BdtEntry>) -> bool {
    forall|i: int, j: int| 0 <= i < j < s.len() ==> #[trigger] s[i] != #[trigger] s[j]
}

/// The canonical table is duplicate-free and drawn from the candidate.
proof fn lemma_canonical_shape(s: Seq<BdtEntry>)
    ensures
        distinct_entries(canonical(s)),
        forall|j: int| 0 <= j < canonical(s).len() ==> s.contains(#[trigger] canonical(s)[j]),
        canonical(s).len() <= s.len(),
    decreases s.len(),
{
    if s.len() > 0 {
        let d = s.drop_last();
        lemma_canonical_shape(d);
        let c = canonical(d);
        assert forall|j: int| 0 <= j < c.len() implies s.contains(#[trigger] c[j]) by {
            assert(d.contains(c[j]));
            let k = choose|k: int| 0 <= k < d.len() && d[k] == c[j];
            assert(s[k] == d[k]);
        }
        if !c.contains(s.last()) {
            let u = c.push(s.last());
            assert forall|i: int, j: int| 0 <= i < j < u.len() implies #[trigger] u[i] != #[trigger] u[j] by {
                if j == c.len() {
                    assert(u[i] == c[i]);
                    assert(c.contains(c[i]));
                } else {
                    assert(u[i] == c[i] && u[j] == c[j]);
                }
            }
            assert forall|j: int| 0 <= j < u.len() implies s.contains(#[trigger] u[j]) by {
                if j == c.len() {
                    assert(s[s.len() - 1] == u[j]);
                } else {
                    assert(u[j] == c[j]);
                }
            }
        }
    }
}

/// A duplicate-free table is its own canonical form.
proof fn lemma_canonical_of_distinct(t: Seq<BdtEntry>)
    requires
        distinct_entries(t),
    ensures
        canonical(t) == t,
    decreases t.len(),
{
    if t.len() > 0 {
        let d = t.drop_last();
        assert(distinct_entries(d)) by {
            assert forall|i: int, j: int| 0 <= i < j < d.len() implies #[trigger] d[i] != #[trigger] d[j] by {
                assert(d[i] == t[i] && d[j] == t[j]);
            }
        }
        lemma_canonical_of_distinct(d);
        if d.contains(t.last()) {
            let k = choose|k: int| 0 <= k < d.len() && d[k] == t.last();
            assert(t[k] == d[k]);
        }
        assert(d.push(t.last()) =~= t);
    }
}

/// Committing a committed table again succeeds and changes nothing,
/// provided the BBMD's own entry is itself acceptable.
pub proof fn lemma_committed_bdt_revalidates(s: Seq<BdtEntry>, ip: [u8; 4], port: u16)
    requires
        bdt_outcome(s, ip, port) is Ok,
        entry_fault(self_entry(ip, port)) is None,
    ensures
        bdt_outcome(bdt_outcome(s, ip, port)->Ok_0, ip, port) == bdt_outcome(s, ip, port),
{
    let c = canonical(s);
    let t = with_self(c, ip, port);
    lemma_first_fault_none(s);
    lemma_canonical_shape(s);
    lemma_first_fault_none(t);
    assert forall|i: int| 0 <= i < t.len() implies entry_fault(#[trigger] t[i]) is None by {
        if i < c.len() {
            assert(t[i] == c[i]);
            assert(s.contains(c[i]));
            let k = choose|k: int| 0 <= k < s.len() && s[k] == c[i];
        } else {
            assert(t[i] == self_entry(ip, port));
        }
    }
    assert(!has_conflict(t)) by {
        if has_conflict(t) {
            let (i, j) = choose|i: int, j: int|
                0 <= i < t.len() && 0 <= j < t.len() && same_endpoint(#[trigger] t[i], #[trigger] t[j])
                    && t[i].broadcast_mask != t[j].broadcast_mask;
            if i < c.len() && j < c.len() {
                assert(t[i] == c[i] && t[j] == c[j]);
                assert(s.contains(c[i]) && s.contains(c[j]));
                let a = choose|a: int| 0 <= a < s.len() && s[a] == c[i];
                let b = choose|b: int| 0 <= b < s.len() && s[b] == c[j];
                assert(same_endpoint(s[a], s[b]));
            } else if i < c.len() {
                assert(t[i] == c[i]);
                assert(has_endpoint(c, ip, port));
            } else if j < c.len() {
                assert(t[j] == c[j]);
                assert(has_endpoint(c, ip, port));
            }
        }
    }
    assert(distinct_entries(t)) by {
        if t.len() > c.len() {
            assert forall|i: int, j: int| 0 <= i < j < t.len() implies #[trigger] t[i] != #[trigger] t[j] by {
                if j == c.len() {
                    assert(t[i] == c[i]);
                    if c[i] == self_entry(ip, port) {
                        assert(has_endpoint(c, ip, port));
                    }
                } else {
                    assert(t[i] == c[i] && t[j] == c[j]);
                }
            }
        }
    }
    lemma_canonical_of_distinct(t);
    if t.len() > 0 {
        if c.len() == 0 {
            assert(t.len() == 0);
        } else if has_endpoint(c, ip, port) {
            let k = choose|k: int| 0 <= k < c.len() && (#[trigger] c[k]).ip == ip && c[k].port == port;
            assert(t[k] == c[k]);
        } else {
            assert(t[c.len() as int] == self_entry(ip, port));
        }
        assert(has_endpoint(t, ip, port));
    }
}

/// Live BBMD state: the committed BDT and the administrative settings.
#[derive(Debug, Clone)]
pub struct BbmdState {
    local_ip: [u8; 4],
    local_port: u16,
    bdt: Vec<BdtEntry>,
    management_acl: Vec<[u8; 4]>,
    accept_foreign_devices: bool,
    max_fdt_entries: usize,
}

impl BbmdState {
    /// Hard cap on committed BDT entries.
    pub const MAX_BDT_ENTRIES: usize = 128;

    /// Hard cap on Foreign Device Table entries.
    pub const MAX_FDT_ENTRIES: usize = 512;

    /// The committed BDT.
    pub closed spec fn bdt_view(&self) -> Seq<BdtEntry> {
        self.bdt@
    }

    /// This BBMD's own address.
    pub closed spec fn local_ip_view(&self) -> [u8; 4] {
        self.local_ip
    }

    /// This BBMD's own UDP port.
    pub closed spec fn local_port_view(&self) -> u16 {
        self.local_port
    }

    /// Addresses allowed to send Delete-FDT-Entry.
    pub closed spec fn management_acl_view(&self) -> Seq<[u8; 4]> {
        self.management_acl@
    }

    /// Whether foreign-device registrations are accepted.
    pub closed spec fn accepts_foreign_devices_view(&self) -> bool {
        self.accept_foreign_devices
    }

    /// Foreign Device Table capacity.
    pub closed spec fn max_fdt_entries_view(&self) -> nat {
        self.max_fdt_entries as nat
    }

    /// A BBMD at `local_ip:local_port` with an empty BDT, registrations
    /// accepted, an empty management ACL and the full FDT capacity.
    pub fn new(local_ip: [u8; 4], local_port: u16) -> (r: BbmdState)
        ensures
            r.bdt_view().len() == 0,
            r.local_ip_view() == local_ip,
            r.local_port_view() == local_port,
            r.management_acl_view().len() == 0,
            r.accepts_foreign_devices_view(),
            r.max_fdt_entries_view() == MAX_FDT_ENTRIES,
    {
        BbmdState {
            local_ip,
            local_port,
            bdt: Vec::new(),
            management_acl: Vec::new(),
            accept_foreign_devices: true,
            max_fdt_entries: MAX_FDT_ENTRIES,
        }
    }

    /// This BBMD's own address.
    pub fn local_ip(&self) -> (r: [u8; 4])
        ensures
            r == self.local_ip_view(),
    {
        self.local_ip
    }

    /// This BBMD's own UDP port.
    pub fn local_port(&self) -> (r: u16)
        ensures
            r == self.local_port_view(),
    {
        self.local_port
    }

    /// The committed BDT.
    pub fn bdt(&self) -> (r: &[BdtEntry])
        ensures
            r@ == self.bdt_view(),
    {
        self.bdt.as_slice()
    }

    /// The table that committing `entries` would produce, or why not.
    pub fn validate_bdt(&self, entries: &Vec<BdtEntry>) -> (r: Result<Vec<BdtEntry>, BdtError>)
        ensures
            match bdt_outcome(entries@, self.local_ip_view(), self.local_port_view()) {
                Ok(t) => r matches Ok(v) && v@ == t,
                Err(e) => r == Err::<Vec<BdtEntry>, BdtError>(e),
            },
    {
        let n = entries.len();
        let ghost s = entries@;
        let mut i: usize = 0;
        while i < n
            invariant
                n == s.len(),
                s == entries@,
                i <= n,
                first_fault(s.take(i as int)) is None,
            decreases n - i,
        {
            assert(s.take(i + 1).drop_last() =~= s.take(i as int));
            assert(s.take(i + 1).last() == s[i as int]);
            if let Some(f) = check_bdt_entry(&entries[i]) {
                proof {
                    lemma_first_fault_prefix(s, i + 1);
                }
                return Err(BdtError::Entry(f));
            }
            i = i + 1;
        }
        assert(s.take(n as int) =~= s);
        let mut canon: Vec<BdtEntry> = Vec::new();
        let mut i: usize = 0;
        while i < n
            invariant
                n == s.len(),
                s == entries@,
                i <= n,
                first_fault(s) is None,
                canon@ == canonical(s.take(i as int)),
                !has_conflict(s.take(i as int)),
                forall|x: int| 0 <= x < i ==> canon@.contains(#[trigger] s[x]),
                forall|y: int|
                    #![trigger canon@[y]]
                    0 <= y < canon@.len() ==> exists|x: int| 0 <= x < i && #[trigger] s[x] == canon@[y],
                forall|a: int, b: int|
                    0 <= a < canon@.len() && 0 <= b < canon@.len() && a != b ==> !same_endpoint(
                        #[trigger] canon@[a],
                        #[trigger] canon@[b],
                    ),
            decreases n - i,
        {
            let e = entries[i];
            let ghost prefix = s.take(i as int);
            let ghost next = s.take(i + 1);
            assert(next.drop_last() =~= prefix);
            assert(next.last() == e);
            let found = match find_endpoint(&canon, e.ip, e.port) {
                Some(j) => {
                    if ip_eq(canon[j].broadcast_mask, e.broadcast_mask) {
                        assert(canon@[j as int] == e);
                        true
                    } else {
                        proof {
                            let x = choose|x: int| 0 <= x < i && #[trigger] s[x] == canon@[j as int];
                            assert(same_endpoint(s[x], s[i as int]));
                            assert(has_conflict(s));
                        }
                        return Err(BdtError::Conflict);
                    }
                },
                None => false,
            };
            proof {
                if found {
                    assert(canon@.contains(e));
                } else {
                    assert(!canon@.contains(e)) by {
                        if canon@.contains(e) {
                            let y = choose|y: int| 0 <= y < canon@.len() && canon@[y] == e;
                            assert(same_endpoint(canon@[y], e));
                        }
                    }
                }
                assert forall|a: int, b: int|
                    0 <= a < next.len() && 0 <= b < next.len() && same_endpoint(
                        #[trigger] next[a],
                        #[trigger] next[b],
                    ) implies next[a].broadcast_mask == next[b].broadcast_mask by {
                    if a < i && b < i {
                        assert(prefix[a] == next[a] && prefix[b] == next[b]);
                    } else if a < i || b < i {
                        let x = if a < i {
                            a
                        } else {
                            b
                        };
                        assert(canon@.contains(s[x]));
                        let y = choose|y: int| 0 <= y < canon@.len() && canon@[y] == s[x];
                        if !found {
                            assert(!same_endpoint(canon@[y], e));
                        } else {
                            let z = choose|z: int| 0 <= z < canon@.len() && canon@[z] == e;
                            if y != z {
                                assert(!same_endpoint(canon@[y], canon@[z]));
                            }
                        }
                    }
                }
            }
            if !found {
                let ghost old_canon = canon@;
                canon.push(e);
                proof {
                    assert(canon@.drop_last() =~= old_canon);
                    assert forall|a: int, b: int|
                        0 <= a < canon@.len() && 0 <= b < canon@.len() && a != b implies !same_endpoint(
                            #[trigger] canon@[a],
                            #[trigger] canon@[b],
                        ) by {
                        let last = canon@.len() - 1;
                        if a == last {
                            assert(canon@[b] == canon@.drop_last()[b]);
                        } else if b == last {
                            assert(canon@[a] == canon@.drop_last()[a]);
                        } else {
                            assert(canon@[a] == canon@.drop_last()[a]);
                            assert(canon@[b] == canon@.drop_last()[b]);
                        }
                    }
                    assert forall|y: int| #![trigger canon@[y]] 0 <= y < canon@.len() implies exists|x: int|
                        0 <= x < i + 1 && #[trigger] s[x] == canon@[y] by {
                        if y == canon@.len() - 1 {
                            assert(s[i as int] == canon@[y]);
                        } else {
                            assert(canon@[y] == canon@.drop_last()[y]);
                            let x = choose|x: int| 0 <= x < i && #[trigger] s[x] == canon@.drop_last()[y];
                            assert(s[x] == canon@[y]);
                        }
                    }
                    assert forall|x: int| 0 <= x < i + 1 implies canon@.contains(#[trigger] s[x]) by {
                        if x < i {
                            assert(canon@.drop_last().contains(s[x]));
                            let y = choose|y: int| 0 <= y < canon@.drop_last().len() && canon@.drop_last()[y] == s[x];
                            assert(canon@[y] == s[x]);
                        } else {
                            assert(canon@[canon@.len() - 1] == s[x]);
                        }
                    }
                }
            }
            i = i + 1;
        }
        assert(s.take(n as int) =~= s);
        let ghost c = canon@;
        let has_self = find_endpoint(&canon, self.local_ip, self.local_port).is_some();
        assert(has_self == has_endpoint(c, self.local_ip, self.local_port));
        if canon.len() > 0 && !has_self {
            canon.push(
                BdtEntry { ip: self.local_ip, port: self.local_port, broadcast_mask: [0xff, 0xff, 0xff, 0xff] },
            );
        }
        if canon.len() > MAX_BDT_ENTRIES {
            return Err(BdtError::Capacity);
        }
        Ok(canon)
    }

    /// Whether `ip:port` has an entry in the committed BDT.
    pub fn is_bdt_peer(&self, ip: [u8; 4], port: u16) -> (r: bool)
        ensures
            r == has_endpoint(self.bdt_view(), ip, port),
    {
        find_endpoint(&self.bdt, ip, port).is_some()
    }

    /// Whether a Forwarded-NPDU from `ip:port` must be re-broadcast on the
    /// local subnet: the sender is a BDT peer configured with a unicast
    /// (all-ones) mask, so its broadcast was not directed at this subnet.
    pub fn forwarded_npdu_needs_local_broadcast(&self, ip: [u8; 4], port: u16) -> (r: bool)
        ensures
            r == exists|i: int|
                0 <= i < self.bdt_view().len() && (#[trigger] self.bdt_view()[i]).ip == ip
                    && self.bdt_view()[i].port == port && all_bytes(
                    self.bdt_view()[i].broadcast_mask,
                    0xff,
                ),
    {
        let mut i: usize = 0;
        while i < self.bdt.len()
            invariant
                i <= self.bdt@.len(),
                forall|j: int|
                    0 <= j < i ==> !((#[trigger] self.bdt@[j]).ip == ip && self.bdt@[j].port == port
                        && all_bytes(self.bdt@[j].broadcast_mask, 0xff)),
            decreases self.bdt@.len() - i,
        {
            let e = self.bdt[i];
            if ip_eq(e.ip, ip) && e.port == port && bytes_all(e.broadcast_mask, 0xff) {
                assert(self.bdt_view()[i as int] == e);
                return true;
            }
            i = i + 1;
        }
        false
    }

    /// Distinct forwarding destinations for a broadcast from `src_ip:src_port`:
    /// the directed broadcast address of every BDT peer except this BBMD and
    /// the sender, in table order.
    pub fn forwarding_targets(&self, src_ip: [u8; 4], src_port: u16) -> (r: Vec<([u8; 4], u16)>)
        ensures
            r@ == dedup(
                raw_targets(
                    self.bdt_view(),
                    self.local_ip_view(),
                    self.local_port_view(),
                    src_ip,
                    src_port,
                ),
            ),
    {
        let mut out: Vec<([u8; 4], u16)> = Vec::new();
        let mut i: usize = 0;
        let ghost b = self.bdt@;
        while i < self.bdt.len()
            invariant
                b == self.bdt@,
                i <= b.len(),
                out@ == dedup(raw_targets(b.take(i as int), self.local_ip, self.local_port, src_ip, src_port)),
            decreases b.len() - i,
        {
            let e = self.bdt[i];
            assert(b.take(i + 1).drop_last() =~= b.take(i as int));
            assert(b.take(i + 1).last() == e);
            let excluded = (ip_eq(e.ip, self.local_ip) && e.port == self.local_port) || (ip_eq(
                e.ip,
                src_ip,
            ) && e.port == src_port);
            if !excluded {
                let m = e.broadcast_mask;
                let t = ([e.ip[0] | !m[0], e.ip[1] | !m[1], e.ip[2] | !m[2], e.ip[3] | !m[3]], e.port);
                assert(t.0 =~= directed_address(e));
                let ghost raw = raw_targets(b.take(i as int), self.local_ip, self.local_port, src_ip, src_port);
                assert(raw.push(t).drop_last() =~= raw);
                if !contains_target(&out, t) {
                    out.push(t);
                }
            }
            i = i + 1;
        }
        assert(b.take(i as int) =~= b);
        out
    }

    /// Addresses allowed to send Delete-FDT-Entry; empty denies every sender.
    pub fn management_acl(&self) -> (r: &[[u8; 4]])
        ensures
            r@ == self.management_acl_view(),
    {
        self.management_acl.as_slice()
    }

    /// Replaces the management ACL.
    pub fn set_management_acl(&mut self, acl: Vec<[u8; 4]>)
        ensures
            final(self).management_acl_view() == acl@,
            final(self).bdt_view() == old(self).bdt_view(),
            final(self).local_ip_view() == old(self).local_ip_view(),
            final(self).local_port_view() == old(self).local_port_view(),
            final(self).accepts_foreign_devices_view() == old(self).accepts_foreign_devices_view(),
            final(self).max_fdt_entries_view() == old(self).max_fdt_entries_view(),
    {
        self.management_acl = acl;
    }

    /// Whether foreign-device registrations are accepted.
    pub fn accepts_foreign_devices(&self) -> (r: bool)
        ensures
            r == self.accepts_foreign_devices_view(),
    {
        self.accept_foreign_devices
    }

    /// Opens or closes the foreign-device registration gate.
    pub fn set_accept_foreign_devices(&mut self, accept: bool)
        ensures
            final(self).accepts_foreign_devices_view() == accept,
            final(self).bdt_view() == old(self).bdt_view(),
            final(self).local_ip_view() == old(self).local_ip_view(),
            final(self).local_port_view() == old(self).local_port_view(),
            final(self).management_acl_view() == old(self).management_acl_view(),
            final(self).max_fdt_entries_view() == old(self).max_fdt_entries_view(),
    {
        self.accept_foreign_devices = accept;
    }

    /// Foreign Device Table capacity.
    pub fn max_fdt_entries(&self) -> (r: usize)
        ensures
            r == self.max_fdt_entries_view(),
    {
        self.max_fdt_entries
    }

    /// Sets the Foreign Device Table capacity, which must be in
    /// `1..=MAX_FDT_ENTRIES`; otherwise nothing changes.
    pub fn set_max_fdt_entries(&mut self, maximum: usize) -> (r: Result<(), Error>)
        ensures
            r is Ok <==> 1 <= maximum <= MAX_FDT_ENTRIES,
            r matches Err(e) ==> e is Encoding,
            r is Ok ==> final(self).max_fdt_entries_view() == maximum,
            r is Err ==> final(self).max_fdt_entries_view() == old(self).max_fdt_entries_view(),
            final(self).bdt_view() == old(self).bdt_view(),
            final(self).local_ip_view() == old(self).local_ip_view(),
            final(self).local_port_view() == old(self).local_port_view(),
            final(self).management_acl_view() == old(self).management_acl_view(),
            final(self).accepts_foreign_devices_view() == old(self).accepts_foreign_devices_view(),
    {
        if maximum == 0 || maximum > MAX_FDT_ENTRIES {
            return Err(Error::Encoding("FDT capacity must be in 1..=512".to_owned()));
        }
        self.max_fdt_entries = maximum;
        Ok(())
    }

    /// Validates and commits a whole candidate BDT. A refused candidate
    /// leaves the committed table unchanged and reports an encoding error.
    pub fn set_bdt(&mut self, entries: Vec<BdtEntry>) -> (r: Result<(), Error>)
        ensures
            final(self).local_ip_view() == old(self).local_ip_view(),
            final(self).local_port_view() == old(self).local_port_view(),
            final(self).management_acl_view() == old(self).management_acl_view(),
            final(self).accepts_foreign_devices_view() == old(self).accepts_foreign_devices_view(),
            final(self).max_fdt_entries_view() == old(self).max_fdt_entries_view(),
            match bdt_outcome(entries@, old(self).local_ip_view(), old(self).local_port_view()) {
                Ok(t) => r is Ok && final(self).bdt_view() == t,
                Err(e) => r matches Err(err) && err is Encoding && err->Encoding_0@ == bdt_error_text(e)
                    && final(self).bdt_view() == old(self).bdt_view(),
            },
    {
        match self.validate_bdt(&entries) {
            Ok(table) => {
                self.bdt = table;
                Ok(())
            },
            Err(e) => Err(Error::Encoding(bdt_error_message(e))),
        }
    }
}

/// The entries of `s` other than the one for the endpoint `ip:port`, in
/// order: the peers of a BBMD at `ip:port`.
pub open spec fn peers_of(s: Seq<BdtEntry>, ip: [u8; 4], port: u16) -> Seq<BdtEntry>
    decreases s.len(),
{
    if s.len() == 0 {
        s
    } else if s.last().ip == ip && s.last().port == port {
        peers_of(s.drop_last(), ip, port)
    } else {
        peers_of(s.drop_last(), ip, port).push(s.last())
    }
}

/// The peers in `table` of a BBMD at `ip:port`: every entry but its own.
pub fn bdt_peers(table: &[BdtEntry], ip: [u8; 4], port: u16) -> (r: Vec<BdtEntry>)
    ensures
        r@ == peers_of(table@, ip, port),
{
    let mut out: Vec<BdtEntry> = Vec::new();
    let mut i: usize = 0;
    while i < table.len()
        invariant
            i <= table@.len(),
            out@ == peers_of(table@.take(i as int), ip, port),
        decreases table@.len() - i,
    {
        assert(table@.take(i + 1).drop_last() =~= table@.take(i as int));
        let e = table[i];
        if !(ip_eq(e.ip, ip) && e.port == port) {
            out.push(e);
        }
        i = i + 1;
    }
    assert(table@.take(i as int) =~= table@);
    out
}

} // verus!
