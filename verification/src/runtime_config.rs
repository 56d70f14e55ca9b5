//! Network attachment configuration of the runtime and its validation.
//!
//! An attachment is a B/IP, MS/TP or BACnet/SC link. Validation rejects,
//! before any I/O, every configuration that the attachment could not start
//! with, and names the first rule broken.

use vstd::prelude::*;
use vstd::string::StringExecFns;
use crate::error::{AttachmentId, ErrorCode, RuntimeError};
use crate::hub_url::{decimal, decimal_string};
use crate::sc_recovery::ScReconnectConfig;

verus! {

// ----------------------------------------------------------------------------
// Text helpers
// ----------------------------------------------------------------------------

/// Unicode `White_Space` characters.
pub open spec fn is_white(c: char) -> bool {
    ||| ('\u{9}' <= c && c <= '\u{d}')
    ||| c == ' '
    ||| c == '\u{85}'
    ||| c == '\u{a0}'
    ||| c == '\u{1680}'
    ||| ('\u{2000}' <= c && c <= '\u{200a}')
    ||| c == '\u{2028}'
    ||| c == '\u{2029}'
    ||| c == '\u{202f}'
    ||| c == '\u{205f}'
    ||| c == '\u{3000}'
}

/// Whether `text` holds nothing but white space.
pub open spec fn is_blank(text: Seq<char>) -> bool {
    forall|i: int| 0 <= i < text.len() ==> is_white(#[trigger] text[i])
}

pub(crate) fn char_is_white(c: char) -> (r: bool)
    ensures
        r == is_white(c),
{
    ('\u{9}' <= c && c <= '\u{d}') || c == ' ' || c == '\u{85}' || c == '\u{a0}' || c == '\u{1680}' || ('\u{2000}'
        <= c && c <= '\u{200a}') || c == '\u{2028}' || c == '\u{2029}' || c == '\u{202f}' || c == '\u{205f}' || c
        == '\u{3000}'
}

/// Whether `text` is empty once surrounding white space is trimmed.
pub fn text_is_blank(text: &str) -> (r: bool)
    ensures
        r == is_blank(text@),
{
    broadcast use vstd::string::group_string_axioms;
    let mut blank = true;
    for c in it: text.chars()
        invariant
            it.seq() == text@,
            blank == (forall|i: int| 0 <= i < it.index() ==> is_white(#[trigger] text@[i])),
    {
        if !char_is_white(c) {
            blank = false;
        }
    }
    blank
}


/// The `wss://` scheme prefix.
pub open spec fn wss_scheme() -> Seq<char> {
    seq!['w', 's', 's', ':', '/', '/']
}

/// Whether `text` begins with the `wss://` scheme.
pub open spec fn has_wss_scheme(text: Seq<char>) -> bool {
    text.len() >= 6 && text.subrange(0, 6) == wss_scheme()
}

fn wss_char(i: usize) -> (r: char)
    requires
        i < 6,
    ensures
        r == wss_scheme()[i as int],
{
    match i {
        0 => 'w',
        1 => 's',
        2 => 's',
        3 => ':',
        _ => '/',
    }
}

/// Whether `text` begins with `wss://`.
pub fn text_has_wss_scheme(text: &str) -> (r: bool)
    ensures
        r == has_wss_scheme(text@),
{
    broadcast use vstd::string::group_string_axioms;
    let mut matched = true;
    let mut n: usize = 0;
    for c in it: text.chars()
        invariant
            it.seq() == text@,
            n == (if it.index() < 6 { it.index() } else { 6 }),
            matched == (forall|k: int| 0 <= k < n ==> #[trigger] text@[k] == wss_scheme()[k]),
    {
        if n < 6 {
            if c != wss_char(n) {
                matched = false;
            }
            n = n + 1;
        }
    }
    let r = matched && n == 6;
    if r {
        assert(text@.subrange(0, 6) =~= wss_scheme());
    } else if n == 6 {
        proof {
            let k = choose|k: int| 0 <= k < 6 && text@[k] != wss_scheme()[k];
            assert(text@.subrange(0, 6)[k] != wss_scheme()[k]);
        }
    }
    r
}


// ----------------------------------------------------------------------------
// Address parsing
// ----------------------------------------------------------------------------

/// The IPv4 address that `text` denotes in dotted-decimal notation, if any.
pub uninterp spec fn ipv4_text_value(text: Seq<char>) -> Option<[u8; 4]>;

/// The IPv4 socket address (`a.b.c.d:port`) that `text` denotes, if any.
pub uninterp spec fn socket_v4_text_value(text: Seq<char>) -> Option<([u8; 4], u16)>;

/// Parses an IPv4 address.
///
/// Trusted: calls `FromStr` of `core::net::Ipv4Addr`; the contract names its
/// result and claims nothing more of it.
#[verifier::external_body]
pub(crate) fn parse_ipv4(text: &str) -> (r: Option<[u8; 4]>)
    ensures
        r == ipv4_text_value(text@),
{
    match text.parse::<core::net::Ipv4Addr>() {
        Ok(a) => Some(a.octets()),
        Err(_) => None,
    }
}

/// Parses an IPv4 socket address.
///
/// Trusted: calls `FromStr` of `core::net::SocketAddrV4`; the contract names
/// its result and claims nothing more of it.
#[verifier::external_body]
pub(crate) fn parse_socket_v4(text: &str) -> (r: Option<([u8; 4], u16)>)
    ensures
        r == socket_v4_text_value(text@),
{
    match text.parse::<core::net::SocketAddrV4>() {
        Ok(a) => Some((a.ip().octets(), a.port())),
        Err(_) => None,
    }
}

// ----------------------------------------------------------------------------
// Configuration
// ----------------------------------------------------------------------------

/// B/IP attachment settings.
#[derive(Clone, Debug)]
pub struct BipConfig {
    /// Local interface address, dotted decimal.
    pub interface: String,
    /// UDP port.
    pub port: u16,
    /// Directed broadcast address; the limited broadcast when absent.
    pub broadcast: Option<String>,
    /// BBMD to register with as a foreign device, `a.b.c.d:port`.
    pub bbmd_address: Option<String>,
    /// Foreign-device registration time-to-live in seconds.
    pub foreign_device_ttl: Option<u16>,
}

/// MS/TP attachment settings.
#[derive(Clone, Debug)]
pub struct MstpConfig {
    /// Serial device path.
    pub device: String,
    /// Baud rate.
    pub baud: u32,
    /// This station's MAC address.
    pub mac: u8,
    /// Highest master address polled.
    pub max_master: u8,
    /// Frames sent per token.
    pub max_info_frames: u8,
}

/// BACnet/SC attachment settings.
#[derive(Clone, Debug)]
pub struct ScConfig {
    /// Primary hub URL.
    pub primary_hub: String,
    /// Failover hub URLs.
    pub failover_hubs: Vec<String>,
    /// Local virtual MAC address.
    pub local_vmac: [u8; 6],
    /// CA certificate path.
    pub ca_cert: Option<String>,
    /// Client certificate path.
    pub client_cert: Option<String>,
    /// Client private key path.
    pub client_key: Option<String>,
    /// Heartbeat interval in milliseconds.
    pub heartbeat_interval_ms: u64,
    /// Heartbeat timeout in milliseconds.
    pub heartbeat_timeout_ms: u64,
    /// First reconnect delay in milliseconds.
    pub reconnect_initial_delay_ms: u64,
    /// Largest reconnect delay in milliseconds.
    pub reconnect_max_delay_ms: u64,
    /// Reconnect attempts per hub before giving up.
    pub reconnect_max_retries: u32,
}

/// Settings of one attachment's link.
#[derive(Clone, Debug)]
pub enum TransportConfig {
    /// BACnet/IP.
    Bip(BipConfig),
    /// MS/TP over a serial line.
    Mstp(MstpConfig),
    /// BACnet Secure Connect.
    Sc(ScConfig),
}

/// One configured network attachment.
#[derive(Clone, Debug)]
pub struct AttachmentConfig {
    /// Attachment identity.
    pub id: AttachmentId,
    /// Operator-facing name.
    pub label: String,
    /// Link settings.
    pub transport: TransportConfig,
}

/// The first configuration rule an attachment breaks.
#[derive(Clone, Copy, Debug, PartialEq, Eq, Structural)]
pub enum ConfigFault {
    /// The B/IP interface is not an IPv4 address.
    BipInterface,
    /// The B/IP broadcast is not an IPv4 address.
    BipBroadcast,
    /// The BBMD address is not an IPv4 socket address.
    BipBbmdAddress,
    /// The foreign-device TTL is zero.
    BipTtlZero,
    /// Only one of BBMD address and foreign-device TTL is given.
    BipRegistrationPair,
    /// The MS/TP device is blank.
    MstpDevice,
    /// The MS/TP baud rate is not a standard one.
    MstpBaud,
    /// The MS/TP MAC or max-master is out of range.
    MstpAddressing,
    /// MS/TP max-info-frames is zero.
    MstpInfoFrames,
    /// The SC primary hub is not a `wss://` URL.
    ScPrimaryHub,
    /// More than one failover hub, or one that is not `wss://`.
    ScFailoverHubs,
    /// The SC VMAC is all-zero or broadcast.
    ScVmac,
    /// An SC credential path is missing or empty.
    ScCredentials,
    /// The SC heartbeat settings are out of range.
    ScHeartbeat,
    /// The SC reconnect settings are out of range.
    ScReconnect,
}

/// The standard MS/TP baud rates.
pub open spec fn is_standard_baud(baud: u32) -> bool {
    baud == 9_600 || baud == 19_200 || baud == 38_400 || baud == 76_800
}

/// Whether a credential path is given and nonempty.
pub open spec fn path_given(path: Option<String>) -> bool {
    path matches Some(p) && p@.len() > 0
}

/// First rule the SC settings break.
pub open spec fn sc_fault(sc: ScConfig) -> Option<ConfigFault> {
    if !has_wss_scheme(sc.primary_hub@) {
        Some(ConfigFault::ScPrimaryHub)
    } else if sc.failover_hubs@.len() > 1 || (exists|i: int|
        0 <= i < sc.failover_hubs@.len() && !has_wss_scheme((#[trigger] sc.failover_hubs@[i])@)) {
        Some(ConfigFault::ScFailoverHubs)
    } else if sc.local_vmac@ == seq![0u8, 0, 0, 0, 0, 0] || sc.local_vmac@ == seq![0xffu8, 0xff, 0xff, 0xff, 0xff, 0xff] {
        Some(ConfigFault::ScVmac)
    } else if !path_given(sc.ca_cert) || !path_given(sc.client_cert) || !path_given(sc.client_key) {
        Some(ConfigFault::ScCredentials)
    } else if sc.heartbeat_interval_ms < 3_000 || sc.heartbeat_interval_ms > 300_000 || sc.heartbeat_timeout_ms
        <= sc.heartbeat_interval_ms {
        Some(ConfigFault::ScHeartbeat)
    } else if sc.reconnect_initial_delay_ms == 0 || sc.reconnect_max_delay_ms < sc.reconnect_initial_delay_ms
        || sc.reconnect_max_retries == 0 {
        Some(ConfigFault::ScReconnect)
    } else {
        None
    }
}

/// First rule the MS/TP settings break.
pub open spec fn mstp_fault(mstp: MstpConfig) -> Option<ConfigFault> {
    if is_blank(mstp.device@) {
        Some(ConfigFault::MstpDevice)
    } else if !is_standard_baud(mstp.baud) {
        Some(ConfigFault::MstpBaud)
    } else if mstp.mac > 127 || mstp.max_master > 127 || mstp.mac > mstp.max_master {
        Some(ConfigFault::MstpAddressing)
    } else if mstp.max_info_frames == 0 {
        Some(ConfigFault::MstpInfoFrames)
    } else {
        None
    }
}

/// First rule the B/IP settings break, given whether the interface, the
/// broadcast and the BBMD address parse.
pub open spec fn bip_fault(bip: BipConfig, interface_ok: bool, broadcast_ok: bool, bbmd_ok: bool) -> Option<ConfigFault> {
    if !interface_ok {
        Some(ConfigFault::BipInterface)
    } else if !broadcast_ok {
        Some(ConfigFault::BipBroadcast)
    } else {
        match (bip.bbmd_address, bip.foreign_device_ttl) {
            (None, None) => None,
            (Some(_), Some(ttl)) => if !bbmd_ok {
                Some(ConfigFault::BipBbmdAddress)
            } else if ttl == 0 {
                Some(ConfigFault::BipTtlZero)
            } else {
                None
            },
            _ => Some(ConfigFault::BipRegistrationPair),
        }
    }
}

/// First rule `config` breaks, given the B/IP parse outcomes.
pub open spec fn config_fault(config: AttachmentConfig, interface_ok: bool, broadcast_ok: bool, bbmd_ok: bool) -> Option<ConfigFault> {
    match config.transport {
        TransportConfig::Bip(bip) => bip_fault(bip, interface_ok, broadcast_ok, bbmd_ok),
        TransportConfig::Mstp(mstp) => mstp_fault(mstp),
        TransportConfig::Sc(sc) => sc_fault(sc),
    }
}

/// An MS/TP attachment is accepted exactly when its device is named, its
/// baud rate is 9600, 19200, 38400 or 76800, its MAC and max-master are at
/// most 127 with the MAC not above max-master, and it sends at least one
/// frame per token; with a named device, any other baud rate is refused as
/// a baud fault.
pub proof fn lemma_mstp_acceptance(config: AttachmentConfig, mstp: MstpConfig)
    requires
        config.transport == TransportConfig::Mstp(mstp),
    ensures
        (attachment_fault(config) is None) <==> {
            &&& !is_blank(mstp.device@)
            &&& (mstp.baud == 9600u32 || mstp.baud == 19200u32 || mstp.baud == 38400u32 || mstp.baud == 76800u32)
            &&& mstp.mac <= 127
            &&& mstp.max_master <= 127
            &&& mstp.mac <= mstp.max_master
            &&& mstp.max_info_frames >= 1
        },
        !is_blank(mstp.device@) && !(mstp.baud == 9600u32 || mstp.baud == 19200u32 || mstp.baud == 38400u32
            || mstp.baud == 76800u32) ==> attachment_fault(config) == Some(ConfigFault::MstpBaud),
{
}

/// A BACnet/SC attachment is accepted exactly when its primary hub and its
/// at most one failover hub are `wss://` URLs, its VMAC is neither all-zero
/// nor all-ones, all three credential paths are given, its heartbeat
/// interval is 3000..=300000 ms with a longer timeout, and its reconnect
/// delays and retries are non-zero with the initial delay at most the
/// maximum.
pub proof fn lemma_sc_acceptance(config: AttachmentConfig, sc: ScConfig)
    requires
        config.transport == TransportConfig::Sc(sc),
    ensures
        (attachment_fault(config) is None) <==> {
            &&& has_wss_scheme(sc.primary_hub@)
            &&& sc.failover_hubs@.len() <= 1
            &&& forall|i: int| 0 <= i < sc.failover_hubs@.len() ==> has_wss_scheme((#[trigger] sc.failover_hubs@[i])@)
            &&& sc.local_vmac@ != seq![0u8, 0, 0, 0, 0, 0]
            &&& sc.local_vmac@ != seq![0xffu8, 0xff, 0xff, 0xff, 0xff, 0xff]
            &&& path_given(sc.ca_cert) && path_given(sc.client_cert) && path_given(sc.client_key)
            &&& 3000 <= sc.heartbeat_interval_ms <= 300000
            &&& sc.heartbeat_timeout_ms > sc.heartbeat_interval_ms
            &&& sc.reconnect_initial_delay_ms >= 1
            &&& sc.reconnect_max_delay_ms >= sc.reconnect_initial_delay_ms
            &&& sc.reconnect_max_retries >= 1
        },
{
}

/// The text a B/IP broadcast setting is parsed from.
pub open spec fn broadcast_text(bip: BipConfig) -> Seq<char> {
    match bip.broadcast {
        Some(b) => b@,
        None => "255.255.255.255"@,
    }
}

/// First rule `config` breaks, with the B/IP addresses parsed.
pub open spec fn attachment_fault(config: AttachmentConfig) -> Option<ConfigFault> {
    match config.transport {
        TransportConfig::Bip(bip) => bip_fault(
            bip,
            ipv4_text_value(bip.interface@) is Some,
            ipv4_text_value(broadcast_text(bip)) is Some,
            match bip.bbmd_address {
                Some(a) => socket_v4_text_value(a@) is Some,
                None => false,
            },
        ),
        TransportConfig::Mstp(mstp) => mstp_fault(mstp),
        TransportConfig::Sc(sc) => sc_fault(sc),
    }
}

/// The fixed message of a fault; `None` for the address faults, whose message
/// quotes the attachment and the offending text.
/// The configured B/IP interface text (empty for another transport).
pub open spec fn bip_interface_text(config: AttachmentConfig) -> Seq<char> {
    match config.transport {
        TransportConfig::Bip(b) => b.interface@,
        _ => Seq::empty(),
    }
}

/// The configured BBMD address text (empty when there is none).
pub open spec fn bip_bbmd_text(config: AttachmentConfig) -> Seq<char> {
    match config.transport {
        TransportConfig::Bip(b) => match b.bbmd_address {
            Some(a) => a@,
            None => Seq::empty(),
        },
        _ => Seq::empty(),
    }
}

/// Message of an unparsable B/IP interface.
pub open spec fn interface_text(id: AttachmentId, interface: Seq<char>) -> Seq<char> {
    "attachment "@ + decimal(id.0 as nat) + " has invalid B/IP interface "@ + interface
        + ": invalid IPv4 address syntax"@
}

/// Message of an unparsable B/IP broadcast address.
pub open spec fn broadcast_fault_text(id: AttachmentId) -> Seq<char> {
    "attachment "@ + decimal(id.0 as nat) + " has invalid B/IP broadcast: invalid IPv4 address syntax"@
}

/// Message of an unparsable BBMD address.
pub open spec fn bbmd_text(id: AttachmentId, address: Seq<char>) -> Seq<char> {
    "attachment "@ + decimal(id.0 as nat) + " has invalid B/IP BBMD address "@ + address
        + ": invalid IPv4 socket address syntax"@
}

pub open spec fn fault_message(config: AttachmentConfig, f: ConfigFault) -> Seq<char> {
    match f {
        ConfigFault::BipInterface => interface_text(config.id, bip_interface_text(config)),
        ConfigFault::BipBroadcast => broadcast_fault_text(config.id),
        ConfigFault::BipBbmdAddress => bbmd_text(config.id, bip_bbmd_text(config)),
        ConfigFault::BipTtlZero => "B/IP foreign-device TTL must be non-zero"@,
        ConfigFault::BipRegistrationPair => "B/IP BBMD address and foreign-device TTL must both be provided or omitted"@,
        ConfigFault::MstpDevice => "MS/TP serial device must not be empty"@,
        ConfigFault::MstpBaud => "MS/TP baud must be one of 9600, 19200, 38400, or 76800"@,
        ConfigFault::MstpAddressing => "MS/TP mac and max_master must be in 0..=127 with mac <= max_master"@,
        ConfigFault::MstpInfoFrames => "MS/TP max_info_frames must be non-zero"@,
        ConfigFault::ScPrimaryHub => "BACnet/SC primary hub must use wss://"@,
        ConfigFault::ScFailoverHubs => "BACnet/SC accepts at most one wss:// failover hub"@,
        ConfigFault::ScVmac => "BACnet/SC local VMAC must not be all-zero or broadcast"@,
        ConfigFault::ScCredentials => "BACnet/SC requires nonempty CA certificate, client certificate, and client key paths"@,
        ConfigFault::ScHeartbeat => "BACnet/SC heartbeat interval must be 3000..=300000 ms and timeout must be greater"@,
        ConfigFault::ScReconnect => "BACnet/SC reconnect delays and retries must be non-zero with initial <= maximum"@,
    }
}


// ----------------------------------------------------------------------------
// Validation
// ----------------------------------------------------------------------------

fn path_is_given(path: &Option<String>) -> (r: bool)
    ensures
        r == path_given(*path),
{
    match path {
        Some(p) => !p.as_str().is_empty(),
        None => false,
    }
}

fn vmac_is(v: &[u8; 6], b: u8) -> (r: bool)
    ensures
        r == (v@ == seq![b, b, b, b, b, b]),
{
    let r = v[0] == b && v[1] == b && v[2] == b && v[3] == b && v[4] == b && v[5] == b;
    if r {
        assert(v@ =~= seq![b, b, b, b, b, b]);
    } else {
        assert(exists|i: int| 0 <= i < 6 && v@[i] != b);
    }
    r
}

fn failover_hubs_fault(hubs: &Vec<String>) -> (r: bool)
    ensures
        r == (hubs@.len() > 1 || (exists|i: int| 0 <= i < hubs@.len() && !has_wss_scheme((#[trigger] hubs@[i])@))),
{
    if hubs.len() > 1 {
        return true;
    }
    let mut i: usize = 0;
    while i < hubs.len()
        invariant
            i <= hubs@.len(),
            forall|k: int| 0 <= k < i ==> has_wss_scheme((#[trigger] hubs@[k])@),
        decreases hubs@.len() - i,
    {
        if !text_has_wss_scheme(hubs[i].as_str()) {
            return true;
        }
        i = i + 1;
    }
    false
}

/// First rule the SC settings break.
fn classify_sc(sc: &ScConfig) -> (r: Option<ConfigFault>)
    ensures
        r == sc_fault(*sc),
{
    if !text_has_wss_scheme(sc.primary_hub.as_str()) {
        Some(ConfigFault::ScPrimaryHub)
    } else if failover_hubs_fault(&sc.failover_hubs) {
        Some(ConfigFault::ScFailoverHubs)
    } else if vmac_is(&sc.local_vmac, 0) || vmac_is(&sc.local_vmac, 0xff) {
        Some(ConfigFault::ScVmac)
    } else if !path_is_given(&sc.ca_cert) || !path_is_given(&sc.client_cert) || !path_is_given(&sc.client_key) {
        Some(ConfigFault::ScCredentials)
    } else if sc.heartbeat_interval_ms < 3_000 || sc.heartbeat_interval_ms > 300_000 || sc.heartbeat_timeout_ms
        <= sc.heartbeat_interval_ms {
        Some(ConfigFault::ScHeartbeat)
    } else if sc.reconnect_initial_delay_ms == 0 || sc.reconnect_max_delay_ms < sc.reconnect_initial_delay_ms
        || sc.reconnect_max_retries == 0 {
        Some(ConfigFault::ScReconnect)
    } else {
        None
    }
}

/// First rule the MS/TP settings break.
fn classify_mstp(mstp: &MstpConfig) -> (r: Option<ConfigFault>)
    ensures
        r == mstp_fault(*mstp),
{
    if text_is_blank(mstp.device.as_str()) {
        Some(ConfigFault::MstpDevice)
    } else if !(mstp.baud == 9_600 || mstp.baud == 19_200 || mstp.baud == 38_400 || mstp.baud == 76_800) {
        Some(ConfigFault::MstpBaud)
    } else if mstp.mac > 127 || mstp.max_master > 127 || mstp.mac > mstp.max_master {
        Some(ConfigFault::MstpAddressing)
    } else if mstp.max_info_frames == 0 {
        Some(ConfigFault::MstpInfoFrames)
    } else {
        None
    }
}

/// The first rule `config` breaks, given whether its B/IP interface,
/// broadcast and BBMD address parse (ignored for other links).
pub fn classify_config(config: &AttachmentConfig, interface_ok: bool, broadcast_ok: bool, bbmd_ok: bool) -> (r: Option<ConfigFault>)
    ensures
        r == config_fault(*config, interface_ok, broadcast_ok, bbmd_ok),
{
    match &config.transport {
        TransportConfig::Bip(bip) => {
            if !interface_ok {
                Some(ConfigFault::BipInterface)
            } else if !broadcast_ok {
                Some(ConfigFault::BipBroadcast)
            } else {
                match (&bip.bbmd_address, bip.foreign_device_ttl) {
                    (None, None) => None,
                    (Some(_), Some(ttl)) => if !bbmd_ok {
                        Some(ConfigFault::BipBbmdAddress)
                    } else if ttl == 0 {
                        Some(ConfigFault::BipTtlZero)
                    } else {
                        None
                    },
                    _ => Some(ConfigFault::BipRegistrationPair),
                }
            }
        },
        TransportConfig::Mstp(mstp) => classify_mstp(mstp),
        TransportConfig::Sc(sc) => classify_sc(sc),
    }
}

/// Message of an unparsable B/IP interface.
fn interface_message(id: AttachmentId, interface: &str) -> (r: String)
    ensures
        r@ == interface_text(id, interface@),
{
    let mut m = "attachment ".to_owned();
    m.append(decimal_string(id.0).as_str());
    m.append(" has invalid B/IP interface ");
    m.append(interface);
    m.append(": invalid IPv4 address syntax");
    m
}

/// Message of an unparsable B/IP broadcast address.
fn broadcast_message(id: AttachmentId) -> (r: String)
    ensures
        r@ == broadcast_fault_text(id),
{
    let mut m = "attachment ".to_owned();
    m.append(decimal_string(id.0).as_str());
    m.append(" has invalid B/IP broadcast: invalid IPv4 address syntax");
    m
}

/// Message of an unparsable BBMD address.
fn bbmd_message(id: AttachmentId, address: &str) -> (r: String)
    ensures
        r@ == bbmd_text(id, address@),
{
    let mut m = "attachment ".to_owned();
    m.append(decimal_string(id.0).as_str());
    m.append(" has invalid B/IP BBMD address ");
    m.append(address);
    m.append(": invalid IPv4 socket address syntax");
    m
}

/// The error reported for `fault` of attachment `config`.
fn fault_error(config: &AttachmentConfig, fault: ConfigFault) -> (e: RuntimeError)
    ensures
        e.code == ErrorCode::InvalidConfig,
        !e.retryable,
        e.attachment_id == Some(config.id),
        e.message@ == fault_message(*config, fault),
{
    proof {
        reveal_strlit("");
    }
    let id = config.id;
    let message = match fault {
        ConfigFault::BipInterface => match &config.transport {
            TransportConfig::Bip(bip) => interface_message(id, bip.interface.as_str()),
            _ => interface_message(id, ""),
        },
        ConfigFault::BipBroadcast => broadcast_message(id),
        ConfigFault::BipBbmdAddress => match &config.transport {
            TransportConfig::Bip(bip) => match &bip.bbmd_address {
                Some(a) => bbmd_message(id, a.as_str()),
                None => bbmd_message(id, ""),
            },
            _ => bbmd_message(id, ""),
        },
        ConfigFault::BipTtlZero => "B/IP foreign-device TTL must be non-zero".to_owned(),
        ConfigFault::BipRegistrationPair => "B/IP BBMD address and foreign-device TTL must both be provided or omitted".to_owned(),
        ConfigFault::MstpDevice => "MS/TP serial device must not be empty".to_owned(),
        ConfigFault::MstpBaud => "MS/TP baud must be one of 9600, 19200, 38400, or 76800".to_owned(),
        ConfigFault::MstpAddressing => "MS/TP mac and max_master must be in 0..=127 with mac <= max_master".to_owned(),
        ConfigFault::MstpInfoFrames => "MS/TP max_info_frames must be non-zero".to_owned(),
        ConfigFault::ScPrimaryHub => "BACnet/SC primary hub must use wss://".to_owned(),
        ConfigFault::ScFailoverHubs => "BACnet/SC accepts at most one wss:// failover hub".to_owned(),
        ConfigFault::ScVmac => "BACnet/SC local VMAC must not be all-zero or broadcast".to_owned(),
        ConfigFault::ScCredentials => "BACnet/SC requires nonempty CA certificate, client certificate, and client key paths".to_owned(),
        ConfigFault::ScHeartbeat => "BACnet/SC heartbeat interval must be 3000..=300000 ms and timeout must be greater".to_owned(),
        ConfigFault::ScReconnect => "BACnet/SC reconnect delays and retries must be non-zero with initial <= maximum".to_owned(),
    };
    RuntimeError { code: ErrorCode::InvalidConfig, retryable: false, attachment_id: Some(id), message }
}

/// Validates an attachment before it is started: `Ok` exactly when it breaks
/// no rule, else the non-retryable configuration error of the first rule it
/// breaks.
pub fn validate_config(config: &AttachmentConfig) -> (r: Result<(), RuntimeError>)
    ensures
        r is Ok <==> attachment_fault(*config) is None,
        r matches Err(e) ==> e.code == ErrorCode::InvalidConfig && !e.retryable && e.attachment_id == Some(config.id)
            && e.message@ == fault_message(*config, attachment_fault(*config)->0),
{
    let (interface_ok, broadcast_ok, bbmd_ok) = match &config.transport {
        TransportConfig::Bip(bip) => {
            let interface_ok = parse_ipv4(bip.interface.as_str()).is_some();
            let broadcast_ok = match &bip.broadcast {
                Some(b) => parse_ipv4(b.as_str()).is_some(),
                None => parse_ipv4("255.255.255.255").is_some(),
            };
            let bbmd_ok = match &bip.bbmd_address {
                Some(a) => parse_socket_v4(a.as_str()).is_some(),
                None => false,
            };
            (interface_ok, broadcast_ok, bbmd_ok)
        },
        _ => (true, true, true),
    };
    match classify_config(config, interface_ok, broadcast_ok, bbmd_ok) {
        None => Ok(()),
        Some(fault) => Err(fault_error(config, fault)),
    }
}


// ----------------------------------------------------------------------------
// Starting and replacing attachments
// ----------------------------------------------------------------------------

/// Whether the running attachment `current` holds the resource `desired`
/// needs (the same B/IP interface and port, or the same serial device), so
/// it must stop before the replacement starts.
pub open spec fn holds_same_resource(current: TransportConfig, desired: TransportConfig) -> bool {
    match (current, desired) {
        (TransportConfig::Bip(c), TransportConfig::Bip(d)) => c.interface@ == d.interface@ && c.port == d.port,
        (TransportConfig::Mstp(c), TransportConfig::Mstp(d)) => c.device@ == d.device@,
        _ => false,
    }
}

/// Whether `current` must stop before `desired` replaces it.
pub fn must_stop_before_replacement(current: &TransportConfig, desired: &TransportConfig) -> (r: bool)
    ensures
        r == holds_same_resource(*current, *desired),
{
    match (current, desired) {
        (TransportConfig::Bip(c), TransportConfig::Bip(d)) => c.interface == d.interface && c.port == d.port,
        (TransportConfig::Mstp(c), TransportConfig::Mstp(d)) => c.device == d.device,
        _ => false,
    }
}

/// Parsed settings a B/IP attachment starts with.
#[derive(Clone, Copy, Debug, PartialEq, Eq)]
pub struct BipStartPlan {
    /// Local interface address.
    pub interface: [u8; 4],
    /// UDP port.
    pub port: u16,
    /// Directed broadcast address.
    pub broadcast: [u8; 4],
    /// BBMD address, port and TTL to register with as a foreign device.
    pub foreign_device: Option<([u8; 4], u16, u16)>,
}

/// The start plan of a valid B/IP attachment.
pub open spec fn bip_plan(bip: BipConfig) -> BipStartPlan {
    BipStartPlan {
        interface: ipv4_text_value(bip.interface@)->0,
        port: bip.port,
        broadcast: ipv4_text_value(broadcast_text(bip))->0,
        foreign_device: match (bip.bbmd_address, bip.foreign_device_ttl) {
            (Some(a), Some(ttl)) => Some(((socket_v4_text_value(a@)->0).0, (socket_v4_text_value(a@)->0).1, ttl)),
            _ => None,
        },
    }
}

/// Validates a B/IP attachment and parses what it starts with: the same
/// error as [`validate_config`] when it is invalid.
pub fn plan_bip_start(config: &AttachmentConfig, bip: &BipConfig) -> (r: Result<BipStartPlan, RuntimeError>)
    requires
        config.transport == TransportConfig::Bip(*bip),
    ensures
        r is Ok <==> attachment_fault(*config) is None,
        r matches Ok(plan) ==> plan == bip_plan(*bip),
        r matches Err(e) ==> e.code == ErrorCode::InvalidConfig && !e.retryable && e.attachment_id == Some(config.id)
            && e.message@ == fault_message(*config, attachment_fault(*config)->0),
{
    let interface = parse_ipv4(bip.interface.as_str());
    let broadcast = match &bip.broadcast {
        Some(b) => parse_ipv4(b.as_str()),
        None => parse_ipv4("255.255.255.255"),
    };
    let bbmd = match &bip.bbmd_address {
        Some(a) => parse_socket_v4(a.as_str()),
        None => None,
    };
    match classify_config(config, interface.is_some(), broadcast.is_some(), bbmd.is_some()) {
        Some(fault) => Err(fault_error(config, fault)),
        None => {
            let foreign_device = match (bbmd, bip.foreign_device_ttl) {
                (Some((ip, port)), Some(ttl)) => Some((ip, port, ttl)),
                _ => None,
            };
            match (interface, broadcast) {
                (Some(i), Some(b)) => Ok(BipStartPlan { interface: i, port: bip.port, broadcast: b, foreign_device }),
                _ => Err(fault_error(config, ConfigFault::BipInterface)),
            }
        },
    }
}

/// Reconnect settings of a BACnet/SC attachment (bounded retries).
pub fn sc_reconnect_config(sc: &ScConfig) -> (r: ScReconnectConfig)
    ensures
        r.initial_delay_ms == sc.reconnect_initial_delay_ms,
        r.max_delay_ms == sc.reconnect_max_delay_ms,
        r.max_retries == sc.reconnect_max_retries,
        !r.retry_forever,
{
    ScReconnectConfig {
        initial_delay_ms: sc.reconnect_initial_delay_ms,
        max_delay_ms: sc.reconnect_max_delay_ms,
        max_retries: sc.reconnect_max_retries,
        retry_forever: false,
    }
}

} // verus!
