//! BACnet/IP virtual link control (BVLC) codes and the management-response
//! rules built on them: which inbound message answers which outstanding
//! request, how a BVLC-Result payload decodes, and how an optional
//! narrowing-only extension policy combines with the native admission gates.

use vstd::prelude::*;

use crate::bbmd::be_u16;
use crate::error::Error;

verus! {

/// BVLC function codes (Annex J).
#[allow(non_camel_case_types)]
#[derive(Clone, Copy, Debug, PartialEq, Eq, Structural)]
pub enum BvlcFunction {
    /// 0x00 BVLC-Result.
    BVLC_RESULT,
    /// 0x01 Write-Broadcast-Distribution-Table.
    WRITE_BROADCAST_DISTRIBUTION_TABLE,
    /// 0x02 Read-Broadcast-Distribution-Table.
    READ_BROADCAST_DISTRIBUTION_TABLE,
    /// 0x03 Read-Broadcast-Distribution-Table-Ack.
    READ_BROADCAST_DISTRIBUTION_TABLE_ACK,
    /// 0x04 Forwarded-NPDU.
    FORWARDED_NPDU,
    /// 0x05 Register-Foreign-Device.
    REGISTER_FOREIGN_DEVICE,
    /// 0x06 Read-Foreign-Device-Table.
    READ_FOREIGN_DEVICE_TABLE,
    /// 0x07 Read-Foreign-Device-Table-Ack.
    READ_FOREIGN_DEVICE_TABLE_ACK,
    /// 0x08 Delete-Foreign-Device-Table-Entry.
    DELETE_FOREIGN_DEVICE_TABLE_ENTRY,
    /// 0x09 Distribute-Broadcast-To-Network.
    DISTRIBUTE_BROADCAST_TO_NETWORK,
    /// 0x0A Original-Unicast-NPDU.
    ORIGINAL_UNICAST_NPDU,
    /// 0x0B Original-Broadcast-NPDU.
    ORIGINAL_BROADCAST_NPDU,
    /// 0x0C Secure-BVLL.
    SECURE_BVLL,
    /// Any other function code.
    Unknown(u8),
}

/// Numeric value of a function code.
pub open spec fn bvlc_function_raw(f: BvlcFunction) -> u8 {
    match f {
        BvlcFunction::BVLC_RESULT => 0x00,
        BvlcFunction::WRITE_BROADCAST_DISTRIBUTION_TABLE => 0x01,
        BvlcFunction::READ_BROADCAST_DISTRIBUTION_TABLE => 0x02,
        BvlcFunction::READ_BROADCAST_DISTRIBUTION_TABLE_ACK => 0x03,
        BvlcFunction::FORWARDED_NPDU => 0x04,
        BvlcFunction::REGISTER_FOREIGN_DEVICE => 0x05,
        BvlcFunction::READ_FOREIGN_DEVICE_TABLE => 0x06,
        BvlcFunction::READ_FOREIGN_DEVICE_TABLE_ACK => 0x07,
        BvlcFunction::DELETE_FOREIGN_DEVICE_TABLE_ENTRY => 0x08,
        BvlcFunction::DISTRIBUTE_BROADCAST_TO_NETWORK => 0x09,
        BvlcFunction::ORIGINAL_UNICAST_NPDU => 0x0a,
        BvlcFunction::ORIGINAL_BROADCAST_NPDU => 0x0b,
        BvlcFunction::SECURE_BVLL => 0x0c,
        BvlcFunction::Unknown(v) => v,
    }
}

/// The Annex J function codes: each named BVLC function has its fixed
/// code, and every other code is carried as `Unknown`.
pub proof fn lemma_bvlc_function_codes()
    ensures
        bvlc_function_raw(BvlcFunction::BVLC_RESULT) == 0x00u8,
        bvlc_function_raw(BvlcFunction::WRITE_BROADCAST_DISTRIBUTION_TABLE) == 0x01u8,
        bvlc_function_raw(BvlcFunction::READ_BROADCAST_DISTRIBUTION_TABLE) == 0x02u8,
        bvlc_function_raw(BvlcFunction::READ_BROADCAST_DISTRIBUTION_TABLE_ACK) == 0x03u8,
        bvlc_function_raw(BvlcFunction::FORWARDED_NPDU) == 0x04u8,
        bvlc_function_raw(BvlcFunction::REGISTER_FOREIGN_DEVICE) == 0x05u8,
        bvlc_function_raw(BvlcFunction::READ_FOREIGN_DEVICE_TABLE) == 0x06u8,
        bvlc_function_raw(BvlcFunction::READ_FOREIGN_DEVICE_TABLE_ACK) == 0x07u8,
        bvlc_function_raw(BvlcFunction::DELETE_FOREIGN_DEVICE_TABLE_ENTRY) == 0x08u8,
        bvlc_function_raw(BvlcFunction::DISTRIBUTE_BROADCAST_TO_NETWORK) == 0x09u8,
        bvlc_function_raw(BvlcFunction::ORIGINAL_UNICAST_NPDU) == 0x0au8,
        bvlc_function_raw(BvlcFunction::ORIGINAL_BROADCAST_NPDU) == 0x0bu8,
        bvlc_function_raw(BvlcFunction::SECURE_BVLL) == 0x0cu8,
        forall|v: u8| #[trigger] bvlc_function_raw(BvlcFunction::Unknown(v)) == v,
{
}

/// Two functions with the same code are the same function, so a decoded
/// code names exactly one function.
pub proof fn lemma_bvlc_function_codes_distinct(f: BvlcFunction, g: BvlcFunction)
    requires
        !(f is Unknown),
        !(g is Unknown),
        bvlc_function_raw(f) == bvlc_function_raw(g),
    ensures
        f == g,
{
}

impl BvlcFunction {
    /// The function named by a raw code; codes above 0x0C are `Unknown`.
    pub fn from_raw(v: u8) -> (r: BvlcFunction)
        ensures
            bvlc_function_raw(r) == v,
            v <= 0x0c ==> !(r is Unknown),
    {
        match v {
            0x00 => BvlcFunction::BVLC_RESULT,
            0x01 => BvlcFunction::WRITE_BROADCAST_DISTRIBUTION_TABLE,
            0x02 => BvlcFunction::READ_BROADCAST_DISTRIBUTION_TABLE,
            0x03 => BvlcFunction::READ_BROADCAST_DISTRIBUTION_TABLE_ACK,
            0x04 => BvlcFunction::FORWARDED_NPDU,
            0x05 => BvlcFunction::REGISTER_FOREIGN_DEVICE,
            0x06 => BvlcFunction::READ_FOREIGN_DEVICE_TABLE,
            0x07 => BvlcFunction::READ_FOREIGN_DEVICE_TABLE_ACK,
            0x08 => BvlcFunction::DELETE_FOREIGN_DEVICE_TABLE_ENTRY,
            0x09 => BvlcFunction::DISTRIBUTE_BROADCAST_TO_NETWORK,
            0x0a => BvlcFunction::ORIGINAL_UNICAST_NPDU,
            0x0b => BvlcFunction::ORIGINAL_BROADCAST_NPDU,
            0x0c => BvlcFunction::SECURE_BVLL,
            _ => BvlcFunction::Unknown(v),
        }
    }

    /// Numeric value of the function code.
    pub fn to_raw(self) -> (r: u8)
        ensures
            r == bvlc_function_raw(self),
    {
        match self {
            BvlcFunction::BVLC_RESULT => 0x00,
            BvlcFunction::WRITE_BROADCAST_DISTRIBUTION_TABLE => 0x01,
            BvlcFunction::READ_BROADCAST_DISTRIBUTION_TABLE => 0x02,
            BvlcFunction::READ_BROADCAST_DISTRIBUTION_TABLE_ACK => 0x03,
            BvlcFunction::FORWARDED_NPDU => 0x04,
            BvlcFunction::REGISTER_FOREIGN_DEVICE => 0x05,
            BvlcFunction::READ_FOREIGN_DEVICE_TABLE => 0x06,
            BvlcFunction::READ_FOREIGN_DEVICE_TABLE_ACK => 0x07,
            BvlcFunction::DELETE_FOREIGN_DEVICE_TABLE_ENTRY => 0x08,
            BvlcFunction::DISTRIBUTE_BROADCAST_TO_NETWORK => 0x09,
            BvlcFunction::ORIGINAL_UNICAST_NPDU => 0x0a,
            BvlcFunction::ORIGINAL_BROADCAST_NPDU => 0x0b,
            BvlcFunction::SECURE_BVLL => 0x0c,
            BvlcFunction::Unknown(v) => v,
        }
    }
}

/// BVLC-Result codes (Annex J.2.1.1).
#[allow(non_camel_case_types)]
#[derive(Clone, Copy, Debug, PartialEq, Eq, Structural)]
pub enum BvlcResultCode {
    /// 0x0000 Successful completion.
    SUCCESSFUL_COMPLETION,
    /// 0x0010 Write-Broadcast-Distribution-Table NAK.
    WRITE_BROADCAST_DISTRIBUTION_TABLE_NAK,
    /// 0x0020 Read-Broadcast-Distribution-Table NAK.
    READ_BROADCAST_DISTRIBUTION_TABLE_NAK,
    /// 0x0030 Register-Foreign-Device NAK.
    REGISTER_FOREIGN_DEVICE_NAK,
    /// 0x0040 Read-Foreign-Device-Table NAK.
    READ_FOREIGN_DEVICE_TABLE_NAK,
    /// 0x0050 Delete-Foreign-Device-Table-Entry NAK.
    DELETE_FOREIGN_DEVICE_TABLE_ENTRY_NAK,
    /// 0x0060 Distribute-Broadcast-To-Network NAK.
    DISTRIBUTE_BROADCAST_TO_NETWORK_NAK,
    /// Any other result code.
    Unknown(u16),
}

/// Numeric value of a result code.
pub open spec fn bvlc_result_raw(c: BvlcResultCode) -> u16 {
    match c {
        BvlcResultCode::SUCCESSFUL_COMPLETION => 0x0000,
        BvlcResultCode::WRITE_BROADCAST_DISTRIBUTION_TABLE_NAK => 0x0010,
        BvlcResultCode::READ_BROADCAST_DISTRIBUTION_TABLE_NAK => 0x0020,
        BvlcResultCode::REGISTER_FOREIGN_DEVICE_NAK => 0x0030,
        BvlcResultCode::READ_FOREIGN_DEVICE_TABLE_NAK => 0x0040,
        BvlcResultCode::DELETE_FOREIGN_DEVICE_TABLE_ENTRY_NAK => 0x0050,
        BvlcResultCode::DISTRIBUTE_BROADCAST_TO_NETWORK_NAK => 0x0060,
        BvlcResultCode::Unknown(v) => v,
    }
}

/// The Annex J.2.1.1 result codes.
pub proof fn lemma_bvlc_result_codes()
    ensures
        bvlc_result_raw(BvlcResultCode::SUCCESSFUL_COMPLETION) == 0x0000u16,
        bvlc_result_raw(BvlcResultCode::WRITE_BROADCAST_DISTRIBUTION_TABLE_NAK) == 0x0010u16,
        bvlc_result_raw(BvlcResultCode::READ_BROADCAST_DISTRIBUTION_TABLE_NAK) == 0x0020u16,
        bvlc_result_raw(BvlcResultCode::REGISTER_FOREIGN_DEVICE_NAK) == 0x0030u16,
        bvlc_result_raw(BvlcResultCode::READ_FOREIGN_DEVICE_TABLE_NAK) == 0x0040u16,
        bvlc_result_raw(BvlcResultCode::DELETE_FOREIGN_DEVICE_TABLE_ENTRY_NAK) == 0x0050u16,
        bvlc_result_raw(BvlcResultCode::DISTRIBUTE_BROADCAST_TO_NETWORK_NAK) == 0x0060u16,
        forall|v: u16| #[trigger] bvlc_result_raw(BvlcResultCode::Unknown(v)) == v,
{
}

/// The result code named by a raw value (`Unknown` for unassigned values).
pub open spec fn bvlc_result_from_raw(v: u16) -> BvlcResultCode {
    if v == 0x0000 {
        BvlcResultCode::SUCCESSFUL_COMPLETION
    } else if v == 0x0010 {
        BvlcResultCode::WRITE_BROADCAST_DISTRIBUTION_TABLE_NAK
    } else if v == 0x0020 {
        BvlcResultCode::READ_BROADCAST_DISTRIBUTION_TABLE_NAK
    } else if v == 0x0030 {
        BvlcResultCode::REGISTER_FOREIGN_DEVICE_NAK
    } else if v == 0x0040 {
        BvlcResultCode::READ_FOREIGN_DEVICE_TABLE_NAK
    } else if v == 0x0050 {
        BvlcResultCode::DELETE_FOREIGN_DEVICE_TABLE_ENTRY_NAK
    } else if v == 0x0060 {
        BvlcResultCode::DISTRIBUTE_BROADCAST_TO_NETWORK_NAK
    } else {
        BvlcResultCode::Unknown(v)
    }
}

impl BvlcResultCode {
    /// The result code named by a raw value.
    pub fn from_raw(v: u16) -> (r: BvlcResultCode)
        ensures
            r == bvlc_result_from_raw(v),
            bvlc_result_raw(r) == v,
    {
        if v == 0x0000 {
            BvlcResultCode::SUCCESSFUL_COMPLETION
        } else if v == 0x0010 {
            BvlcResultCode::WRITE_BROADCAST_DISTRIBUTION_TABLE_NAK
        } else if v == 0x0020 {
            BvlcResultCode::READ_BROADCAST_DISTRIBUTION_TABLE_NAK
        } else if v == 0x0030 {
            BvlcResultCode::REGISTER_FOREIGN_DEVICE_NAK
        } else if v == 0x0040 {
            BvlcResultCode::READ_FOREIGN_DEVICE_TABLE_NAK
        } else if v == 0x0050 {
            BvlcResultCode::DELETE_FOREIGN_DEVICE_TABLE_ENTRY_NAK
        } else if v == 0x0060 {
            BvlcResultCode::DISTRIBUTE_BROADCAST_TO_NETWORK_NAK
        } else {
            BvlcResultCode::Unknown(v)
        }
    }

    /// Numeric value of the result code.
    pub fn to_raw(self) -> (r: u16)
        ensures
            r == bvlc_result_raw(self),
    {
        match self {
            BvlcResultCode::SUCCESSFUL_COMPLETION => 0x0000,
            BvlcResultCode::WRITE_BROADCAST_DISTRIBUTION_TABLE_NAK => 0x0010,
            BvlcResultCode::READ_BROADCAST_DISTRIBUTION_TABLE_NAK => 0x0020,
            BvlcResultCode::REGISTER_FOREIGN_DEVICE_NAK => 0x0030,
            BvlcResultCode::READ_FOREIGN_DEVICE_TABLE_NAK => 0x0040,
            BvlcResultCode::DELETE_FOREIGN_DEVICE_TABLE_ENTRY_NAK => 0x0050,
            BvlcResultCode::DISTRIBUTE_BROADCAST_TO_NETWORK_NAK => 0x0060,
            BvlcResultCode::Unknown(v) => v,
        }
    }
}

/// One decoded BVLL message: function and payload after the 4-byte header.
#[derive(Clone, Debug)]
pub struct BvllMessage {
    /// BVLC function.
    pub function: BvlcFunction,
    /// Payload bytes.
    pub payload: Vec<u8>,
}

/// BVLL type octet of BACnet/IP (Annex J).
pub const BVLL_TYPE_BIP: u8 = 0x81;

/// Size of the BVLL header: type, function, two-octet length.
pub const BVLL_HEADER_LEN: usize = 4;

/// Largest BVLL frame: the length field is 16 bits.
pub const MAX_BVLL_FRAME_LEN: usize = 0xFFFF;

/// The BVLL frame carrying `payload` with function `function`: type 0x81,
/// function, total length (header included) big-endian, then the payload.
pub open spec fn bvll_frame(function: BvlcFunction, payload: Seq<u8>) -> Seq<u8> {
    seq![
        BVLL_TYPE_BIP,
        bvlc_function_raw(function),
        ((payload.len() + 4) / 256) as u8,
        ((payload.len() + 4) % 256) as u8,
    ] + payload
}

/// Layout of an encoded frame: octet 0 is `0x81`, octet 1 the function's
/// code, octets 2 and 3 the total length big-endian, and the payload
/// follows unchanged.
pub proof fn lemma_bvll_frame_layout(function: BvlcFunction, payload: Seq<u8>)
    requires
        payload.len() + 4 <= 0xFFFF,
    ensures
        bvll_frame(function, payload).len() == payload.len() + 4,
        bvll_frame(function, payload)[0] == 0x81u8,
        bvll_frame(function, payload)[1] == bvlc_function_raw(function),
        bvll_frame(function, payload)[2] as int * 256 + bvll_frame(function, payload)[3] as int == payload.len() + 4,
        bvll_frame(function, payload).subrange(4, payload.len() + 4int) == payload,
{
    let f = bvll_frame(function, payload);
    assert(f.subrange(4, payload.len() + 4int) =~= payload);
    let n = payload.len() + 4;
    assert(((n / 256) as u8) as int == n / 256);
    assert(((n % 256) as u8) as int == n % 256);
}

/// Whether `data` is a well-formed BVLL frame: the B/IP type, a header, and
/// a length field equal to the frame's length.
pub open spec fn is_bvll_frame(data: Seq<u8>) -> bool {
    &&& data.len() >= BVLL_HEADER_LEN
    &&& data[0] == BVLL_TYPE_BIP
    &&& data[2] as int * 256 + data[3] as int == data.len()
}

/// Encodes one BVLL frame; a payload that does not fit the 16-bit length
/// field is refused.
pub fn encode_bvll(function: BvlcFunction, payload: &[u8]) -> (r: Result<Vec<u8>, Error>)
    ensures
        r is Ok <==> payload@.len() + BVLL_HEADER_LEN <= MAX_BVLL_FRAME_LEN,
        r matches Ok(v) ==> v@ == bvll_frame(function, payload@),
        r matches Err(e) ==> e is Encoding,
{
    if payload.len() > MAX_BVLL_FRAME_LEN - BVLL_HEADER_LEN {
        return Err(Error::Encoding("BVLL payload too long".to_owned()));
    }
    let total = payload.len() + BVLL_HEADER_LEN;
    let mut out: Vec<u8> = Vec::new();
    out.push(BVLL_TYPE_BIP);
    out.push(function.to_raw());
    out.push((total / 256) as u8);
    out.push((total % 256) as u8);
    let mut i: usize = 0;
    while i < payload.len()
        invariant
            i <= payload@.len(),
            total == payload@.len() + 4,
            out@ == seq![
                BVLL_TYPE_BIP,
                bvlc_function_raw(function),
                (total / 256) as u8,
                (total % 256) as u8,
            ] + payload@.take(i as int),
        decreases payload@.len() - i,
    {
        out.push(payload[i]);
        i = i + 1;
        assert(payload@.take(i as int) =~= payload@.take(i - 1).push(payload@[i - 1]));
    }
    assert(payload@.take(i as int) =~= payload@);
    Ok(out)
}

/// Decodes one BVLL frame into its function and payload.
pub fn decode_bvll(data: &[u8]) -> (r: Result<BvllMessage, Error>)
    ensures
        r is Ok <==> is_bvll_frame(data@),
        r matches Ok(m) ==> bvlc_function_raw(m.function) == data@[1] && m.payload@ == data@.skip(
            4,
        ),
        r matches Err(e) ==> e is Encoding,
{
    if data.len() < BVLL_HEADER_LEN {
        return Err(Error::Encoding("BVLL frame shorter than its header".to_owned()));
    }
    if data[0] != BVLL_TYPE_BIP {
        return Err(Error::Encoding("not a BACnet/IP BVLL frame".to_owned()));
    }
    let declared: usize = (data[2] as usize) * 256 + (data[3] as usize);
    if declared != data.len() {
        return Err(Error::Encoding("BVLL length field does not match the frame".to_owned()));
    }
    let mut payload: Vec<u8> = Vec::new();
    let mut i: usize = BVLL_HEADER_LEN;
    while i < data.len()
        invariant
            4 <= i <= data@.len(),
            payload@ == data@.subrange(4, i as int),
        decreases data@.len() - i,
    {
        payload.push(data[i]);
        i = i + 1;
        assert(data@.subrange(4, i as int) =~= data@.subrange(4, i - 1).push(data@[i - 1]));
    }
    assert(data@.subrange(4, i as int) =~= data@.skip(4));
    Ok(BvllMessage { function: BvlcFunction::from_raw(data[1]), payload })
}

/// Decoding an encoded frame gives back its function code and payload.
pub proof fn lemma_bvll_roundtrip(function: BvlcFunction, payload: Seq<u8>)
    requires
        payload.len() + BVLL_HEADER_LEN <= MAX_BVLL_FRAME_LEN,
    ensures
        is_bvll_frame(bvll_frame(function, payload)),
        bvll_frame(function, payload)[1] == bvlc_function_raw(function),
        bvll_frame(function, payload).skip(4) == payload,
{
    let f = bvll_frame(function, payload);
    let n = payload.len() + 4;
    assert(((n / 256) as u8) as int * 256 + ((n % 256) as u8) as int == n) by (nonlinear_arith)
        requires
            0 <= n <= 0xFFFF,
    {
        assert(n / 256 < 256);
    }
    assert(f.skip(4) =~= payload);
}

/// The payload of a Forwarded-NPDU: the originating address and port, then
/// the NPDU.
pub open spec fn forwarded_payload(orig_ip: [u8; 4], orig_port: u16, npdu: Seq<u8>) -> Seq<u8> {
    orig_ip@ + be_u16(orig_port) + npdu
}

/// Encodes a Forwarded-NPDU frame for an NPDU that originated at
/// `orig_ip:orig_port`.
pub fn encode_bvll_forwarded(orig_ip: [u8; 4], orig_port: u16, npdu: &[u8]) -> (r: Result<
    Vec<u8>,
    Error,
>)
    ensures
        r is Ok <==> npdu@.len() + 10 <= MAX_BVLL_FRAME_LEN,
        r matches Ok(v) ==> v@ == bvll_frame(
            BvlcFunction::FORWARDED_NPDU,
            forwarded_payload(orig_ip, orig_port, npdu@),
        ),
        r matches Err(e) ==> e is Encoding,
{
    if npdu.len() > MAX_BVLL_FRAME_LEN - 10 {
        return Err(Error::Encoding("Forwarded-NPDU too long".to_owned()));
    }
    let mut payload: Vec<u8> = Vec::new();
    payload.push(orig_ip[0]);
    payload.push(orig_ip[1]);
    payload.push(orig_ip[2]);
    payload.push(orig_ip[3]);
    payload.push((orig_port / 256) as u8);
    payload.push((orig_port % 256) as u8);
    let mut i: usize = 0;
    while i < npdu.len()
        invariant
            i <= npdu@.len(),
            payload@ == orig_ip@ + be_u16(orig_port) + npdu@.take(i as int),
        decreases npdu@.len() - i,
    {
        payload.push(npdu[i]);
        i = i + 1;
        assert(npdu@.take(i as int) =~= npdu@.take(i - 1).push(npdu@[i - 1]));
    }
    assert(npdu@.take(i as int) =~= npdu@);
    assert(payload@ =~= forwarded_payload(orig_ip, orig_port, npdu@));
    encode_bvll(BvlcFunction::FORWARDED_NPDU, payload.as_slice())
}

/// Splits a Forwarded-NPDU payload into the originating address, port and
/// the NPDU; a payload shorter than the address is refused.
pub fn decode_forwarded_npdu(payload: &[u8]) -> (r: Result<([u8; 4], u16, Vec<u8>), Error>)
    ensures
        r is Ok <==> payload@.len() >= 6,
        r matches Ok(t) ==> forwarded_payload(t.0, t.1, t.2@) == payload@,
        r matches Err(e) ==> e is Encoding,
{
    if payload.len() < 6 {
        return Err(Error::Encoding("Forwarded-NPDU shorter than its address".to_owned()));
    }
    let ip: [u8; 4] = [payload[0], payload[1], payload[2], payload[3]];
    let port: u16 = (payload[4] as u16) * 256 + (payload[5] as u16);
    let mut npdu: Vec<u8> = Vec::new();
    let mut i: usize = 6;
    while i < payload.len()
        invariant
            6 <= i <= payload@.len(),
            npdu@ == payload@.subrange(6, i as int),
        decreases payload@.len() - i,
    {
        npdu.push(payload[i]);
        i = i + 1;
        assert(payload@.subrange(6, i as int) =~= payload@.subrange(6, i - 1).push(payload@[i - 1]));
    }
    assert(forwarded_payload(ip, port, npdu@) =~= payload@);
    Ok((ip, port, npdu))
}

/// A Forwarded-NPDU payload determines its originating address, port and
/// NPDU, so [`decode_forwarded_npdu`] gives back what
/// [`encode_bvll_forwarded`] put in.
pub proof fn lemma_forwarded_payload_injective(
    a_ip: [u8; 4],
    a_port: u16,
    a_npdu: Seq<u8>,
    b_ip: [u8; 4],
    b_port: u16,
    b_npdu: Seq<u8>,
)
    requires
        forwarded_payload(a_ip, a_port, a_npdu) == forwarded_payload(b_ip, b_port, b_npdu),
    ensures
        a_ip == b_ip,
        a_port == b_port,
        a_npdu == b_npdu,
{
    let a = forwarded_payload(a_ip, a_port, a_npdu);
    let b = forwarded_payload(b_ip, b_port, b_npdu);
    assert(a.len() == b.len());
    assert(a_npdu =~= a.skip(6));
    assert(b_npdu =~= b.skip(6));
    assert forall|k: int| 0 <= k < 4 implies a_ip@[k] == b_ip@[k] by {
        assert(a[k] == b[k]);
    }
    assert(a_ip =~= b_ip);
    assert(a[4] == b[4] && a[5] == b[5]);
    assert(a_port == b_port) by (nonlinear_arith)
        requires
            ((a_port / 256) as u8) == ((b_port / 256) as u8),
            ((a_port % 256) as u8) == ((b_port % 256) as u8),
    {
        assert(a_port / 256 < 256);
        assert(b_port / 256 < 256);
    }
}

/// Encodes the BVLC-Result frame carrying `code`.
pub fn encode_bvlc_result(code: BvlcResultCode) -> (r: Vec<u8>)
    ensures
        r@ == bvll_frame(BvlcFunction::BVLC_RESULT, be_u16(bvlc_result_raw(code))),
{
    let raw = code.to_raw();
    let payload: [u8; 2] = [(raw / 256) as u8, (raw % 256) as u8];
    assert(payload@ =~= be_u16(raw));
    match encode_bvll(BvlcFunction::BVLC_RESULT, &payload) {
        Ok(frame) => frame,
        Err(_) => Vec::new(),
    }
}

/// Result code carried by a BVLC-Result message, if it is well formed.
pub open spec fn result_code_of(msg: BvllMessage) -> Option<BvlcResultCode> {
    if msg.function == BvlcFunction::BVLC_RESULT && msg.payload@.len() == 2 {
        Some(bvlc_result_from_raw((msg.payload@[0] as u16 * 256 + msg.payload@[1] as u16) as u16))
    } else {
        None
    }
}

/// Checks the function of a management response.
pub fn expect_bvlc_function(msg: &BvllMessage, expected: BvlcFunction) -> (r: Result<(), Error>)
    ensures
        r is Ok <==> msg.function == expected,
        r matches Err(e) ==> e is Encoding,
{
    if msg.function == expected {
        Ok(())
    } else {
        Err(Error::Encoding("unexpected BVLC response function".to_owned()))
    }
}

/// Decodes the result code of a BVLC-Result: the function must be
/// BVLC-Result and the payload exactly two bytes.
pub fn decode_bvlc_result_code(msg: &BvllMessage) -> (r: Result<BvlcResultCode, Error>)
    ensures
        match result_code_of(*msg) {
            Some(c) => r == Ok::<BvlcResultCode, Error>(c),
            None => r matches Err(e) && e is Encoding,
        },
{
    expect_bvlc_function(msg, BvlcFunction::BVLC_RESULT)?;
    if msg.payload.len() != 2 {
        return Err(Error::Encoding("BVLC-Result payload must be 2 bytes".to_owned()));
    }
    Ok(BvlcResultCode::from_raw((msg.payload[0] as u16) * 256 + (msg.payload[1] as u16)))
}

/// The error reported for a BVLC-Result answering a read request.
pub fn bvlc_result_error(msg: &BvllMessage) -> (r: Error)
    ensures
        match result_code_of(*msg) {
            Some(c) => r == (Error::Bvlc { result_code: bvlc_result_raw(c) }),
            None => r is Encoding,
        },
{
    match decode_bvlc_result_code(msg) {
        Ok(code) => Error::Bvlc { result_code: code.to_raw() },
        Err(err) => err,
    }
}

/// The response an outstanding BVLC management request waits for.
#[derive(Clone, Copy, Debug, PartialEq, Eq, Structural)]
pub enum BvlcResponseKind {
    /// Result of Write-Broadcast-Distribution-Table.
    WriteBroadcastDistributionTableResult,
    /// Result of Register-Foreign-Device.
    RegisterForeignDeviceResult,
    /// Result of Delete-Foreign-Device-Table-Entry.
    DeleteForeignDeviceTableEntryResult,
    /// Ack (or NAK) of Read-Broadcast-Distribution-Table.
    ReadBroadcastDistributionTableAck,
    /// Ack (or NAK) of Read-Foreign-Device-Table.
    ReadForeignDeviceTableAck,
}

/// Whether `msg` answers a request waiting for `kind`. A BVLC-Result whose
/// payload does not decode is accepted so the waiter sees the decode error;
/// a decodable one must carry success or the request's own NAK (reads accept
/// only their NAK); otherwise only the matching read Ack is accepted.
pub open spec fn response_accepts(kind: BvlcResponseKind, msg: BvllMessage) -> bool {
    if msg.function == BvlcFunction::BVLC_RESULT {
        match result_code_of(msg) {
            None => true,
            Some(code) => match kind {
                BvlcResponseKind::WriteBroadcastDistributionTableResult => code
                    == BvlcResultCode::SUCCESSFUL_COMPLETION || code
                    == BvlcResultCode::WRITE_BROADCAST_DISTRIBUTION_TABLE_NAK,
                BvlcResponseKind::RegisterForeignDeviceResult => code
                    == BvlcResultCode::SUCCESSFUL_COMPLETION || code
                    == BvlcResultCode::REGISTER_FOREIGN_DEVICE_NAK,
                BvlcResponseKind::DeleteForeignDeviceTableEntryResult => code
                    == BvlcResultCode::SUCCESSFUL_COMPLETION || code
                    == BvlcResultCode::DELETE_FOREIGN_DEVICE_TABLE_ENTRY_NAK,
                BvlcResponseKind::ReadBroadcastDistributionTableAck => code
                    == BvlcResultCode::READ_BROADCAST_DISTRIBUTION_TABLE_NAK,
                BvlcResponseKind::ReadForeignDeviceTableAck => code
                    == BvlcResultCode::READ_FOREIGN_DEVICE_TABLE_NAK,
            },
        }
    } else {
        match kind {
            BvlcResponseKind::ReadBroadcastDistributionTableAck => msg.function
                == BvlcFunction::READ_BROADCAST_DISTRIBUTION_TABLE_ACK,
            BvlcResponseKind::ReadForeignDeviceTableAck => msg.function
                == BvlcFunction::READ_FOREIGN_DEVICE_TABLE_ACK,
            _ => false,
        }
    }
}

impl BvlcResponseKind {
    /// Whether `msg` answers a request waiting for this kind of response.
    pub fn accepts(self, msg: &BvllMessage) -> (r: bool)
        ensures
            r == response_accepts(self, *msg),
    {
        if msg.function == BvlcFunction::BVLC_RESULT {
            let code = match decode_bvlc_result_code(msg) {
                Ok(code) => code,
                Err(_) => {
                    return true;
                },
            };
            return match self {
                BvlcResponseKind::WriteBroadcastDistributionTableResult => code
                    == BvlcResultCode::SUCCESSFUL_COMPLETION || code
                    == BvlcResultCode::WRITE_BROADCAST_DISTRIBUTION_TABLE_NAK,
                BvlcResponseKind::RegisterForeignDeviceResult => code
                    == BvlcResultCode::SUCCESSFUL_COMPLETION || code
                    == BvlcResultCode::REGISTER_FOREIGN_DEVICE_NAK,
                BvlcResponseKind::DeleteForeignDeviceTableEntryResult => code
                    == BvlcResultCode::SUCCESSFUL_COMPLETION || code
                    == BvlcResultCode::DELETE_FOREIGN_DEVICE_TABLE_ENTRY_NAK,
                BvlcResponseKind::ReadBroadcastDistributionTableAck => code
                    == BvlcResultCode::READ_BROADCAST_DISTRIBUTION_TABLE_NAK,
                BvlcResponseKind::ReadForeignDeviceTableAck => code
                    == BvlcResultCode::READ_FOREIGN_DEVICE_TABLE_NAK,
            };
        }
        match self {
            BvlcResponseKind::ReadBroadcastDistributionTableAck => msg.function
                == BvlcFunction::READ_BROADCAST_DISTRIBUTION_TABLE_ACK,
            BvlcResponseKind::ReadForeignDeviceTableAck => msg.function
                == BvlcFunction::READ_FOREIGN_DEVICE_TABLE_ACK,
            _ => false,
        }
    }
}

/// The NAK a function-specific rejection of `function` must use, if any.
pub open spec fn reject_code_for(function: BvlcFunction) -> Option<BvlcResultCode> {
    match function {
        BvlcFunction::WRITE_BROADCAST_DISTRIBUTION_TABLE => Some(
            BvlcResultCode::WRITE_BROADCAST_DISTRIBUTION_TABLE_NAK,
        ),
        BvlcFunction::READ_BROADCAST_DISTRIBUTION_TABLE => Some(
            BvlcResultCode::READ_BROADCAST_DISTRIBUTION_TABLE_NAK,
        ),
        BvlcFunction::REGISTER_FOREIGN_DEVICE => Some(BvlcResultCode::REGISTER_FOREIGN_DEVICE_NAK),
        BvlcFunction::READ_FOREIGN_DEVICE_TABLE => Some(
            BvlcResultCode::READ_FOREIGN_DEVICE_TABLE_NAK,
        ),
        BvlcFunction::DELETE_FOREIGN_DEVICE_TABLE_ENTRY => Some(
            BvlcResultCode::DELETE_FOREIGN_DEVICE_TABLE_ENTRY_NAK,
        ),
        BvlcFunction::DISTRIBUTE_BROADCAST_TO_NETWORK => Some(
            BvlcResultCode::DISTRIBUTE_BROADCAST_TO_NETWORK_NAK,
        ),
        _ => None,
    }
}

/// The NAK of each management function, by code: the request with function
/// code `0x01`, `0x02`, `0x05`, `0x06`, `0x08` or `0x09` is refused with result
/// code `0x0010`, `0x0020`, `0x0030`, `0x0040`, `0x0050` or `0x0060`
/// respectively; no other function has a NAK of its own.
pub proof fn lemma_reject_codes(function: BvlcFunction)
    ensures
        bvlc_function_raw(function) == 0x01u8 && !(function is Unknown) ==> (reject_code_for(function) matches Some(c)
            && bvlc_result_raw(c) == 0x0010u16),
        bvlc_function_raw(function) == 0x02u8 && !(function is Unknown) ==> (reject_code_for(function) matches Some(c)
            && bvlc_result_raw(c) == 0x0020u16),
        bvlc_function_raw(function) == 0x05u8 && !(function is Unknown) ==> (reject_code_for(function) matches Some(c)
            && bvlc_result_raw(c) == 0x0030u16),
        bvlc_function_raw(function) == 0x06u8 && !(function is Unknown) ==> (reject_code_for(function) matches Some(c)
            && bvlc_result_raw(c) == 0x0040u16),
        bvlc_function_raw(function) == 0x08u8 && !(function is Unknown) ==> (reject_code_for(function) matches Some(c)
            && bvlc_result_raw(c) == 0x0050u16),
        bvlc_function_raw(function) == 0x09u8 && !(function is Unknown) ==> (reject_code_for(function) matches Some(c)
            && bvlc_result_raw(c) == 0x0060u16),
        !(bvlc_function_raw(function) == 0x01u8 || bvlc_function_raw(function) == 0x02u8 || bvlc_function_raw(function)
            == 0x05u8 || bvlc_function_raw(function) == 0x06u8 || bvlc_function_raw(function) == 0x08u8
            || bvlc_function_raw(function) == 0x09u8) ==> reject_code_for(function) is None,
{
}

/// Whether `code` is the NAK belonging to `function`.
pub fn valid_reject(function: BvlcFunction, code: BvlcResultCode) -> (r: bool)
    ensures
        r == (reject_code_for(function) == Some(code)),
{
    let expected = match function {
        BvlcFunction::WRITE_BROADCAST_DISTRIBUTION_TABLE => Some(
            BvlcResultCode::WRITE_BROADCAST_DISTRIBUTION_TABLE_NAK,
        ),
        BvlcFunction::READ_BROADCAST_DISTRIBUTION_TABLE => Some(
            BvlcResultCode::READ_BROADCAST_DISTRIBUTION_TABLE_NAK,
        ),
        BvlcFunction::REGISTER_FOREIGN_DEVICE => Some(BvlcResultCode::REGISTER_FOREIGN_DEVICE_NAK),
        BvlcFunction::READ_FOREIGN_DEVICE_TABLE => Some(
            BvlcResultCode::READ_FOREIGN_DEVICE_TABLE_NAK,
        ),
        BvlcFunction::DELETE_FOREIGN_DEVICE_TABLE_ENTRY => Some(
            BvlcResultCode::DELETE_FOREIGN_DEVICE_TABLE_ENTRY_NAK,
        ),
        BvlcFunction::DISTRIBUTE_BROADCAST_TO_NETWORK => Some(
            BvlcResultCode::DISTRIBUTE_BROADCAST_TO_NETWORK_NAK,
        ),
        _ => None,
    };
    match expected {
        Some(c) => c == code,
        None => false,
    }
}

/// Whether an inbound function shares the combined management quota:
/// Read-BDT, Read-FDT, Register-Foreign-Device and Delete-FDT-Entry.
pub fn is_covered_management_request(function: BvlcFunction) -> (r: bool)
    ensures
        r == (function == BvlcFunction::READ_BROADCAST_DISTRIBUTION_TABLE || function
            == BvlcFunction::READ_FOREIGN_DEVICE_TABLE || function
            == BvlcFunction::REGISTER_FOREIGN_DEVICE || function
            == BvlcFunction::DELETE_FOREIGN_DEVICE_TABLE_ENTRY),
{
    function == BvlcFunction::READ_BROADCAST_DISTRIBUTION_TABLE || function
        == BvlcFunction::READ_FOREIGN_DEVICE_TABLE || function
        == BvlcFunction::REGISTER_FOREIGN_DEVICE || function
        == BvlcFunction::DELETE_FOREIGN_DEVICE_TABLE_ENTRY
}

/// Maximum payload prefix exposed to an extension policy.
pub const POLICY_PAYLOAD_PREFIX_MAX: usize = 256;

/// Owned bounded context handed to an extension policy.
#[derive(Debug, Clone)]
pub struct BvllPolicyContext {
    /// Inbound function.
    pub function: BvlcFunction,
    /// Sender address.
    pub source_ip: [u8; 4],
    /// Sender UDP port.
    pub source_port: u16,
    /// Full payload length.
    pub payload_len: usize,
    /// At most [`POLICY_PAYLOAD_PREFIX_MAX`] leading payload bytes.
    pub payload_prefix: Vec<u8>,
}

impl BvllPolicyContext {
    /// Context for one inbound message; the payload is cut to its prefix.
    pub fn new(function: BvlcFunction, source_ip: [u8; 4], source_port: u16, payload: &[u8]) -> (r:
        BvllPolicyContext)
        ensures
            r.function == function,
            r.source_ip == source_ip,
            r.source_port == source_port,
            r.payload_len == payload@.len(),
            r.payload_prefix@ == payload@.take(
                if payload@.len() < POLICY_PAYLOAD_PREFIX_MAX {
                    payload@.len() as int
                } else {
                    POLICY_PAYLOAD_PREFIX_MAX as int
                },
            ),
    {
        let n = if payload.len() < POLICY_PAYLOAD_PREFIX_MAX {
            payload.len()
        } else {
            POLICY_PAYLOAD_PREFIX_MAX
        };
        let mut prefix: Vec<u8> = Vec::new();
        let mut i: usize = 0;
        while i < n
            invariant
                n <= payload@.len(),
                i <= n,
                prefix@ == payload@.take(i as int),
            decreases n - i,
        {
            prefix.push(payload[i]);
            assert(payload@.take(i + 1) =~= payload@.take(i as int).push(payload@[i as int]));
            i = i + 1;
        }
        BvllPolicyContext {
            function,
            source_ip,
            source_port,
            payload_len: payload.len(),
            payload_prefix: prefix,
        }
    }
}

/// A policy can only narrow the result of native hard-gate admission.
#[derive(Debug, Clone, Copy, PartialEq, Eq, Structural)]
pub enum BvllPolicyVerdict {
    /// Keep processing.
    Continue,
    /// Silently drop.
    Drop,
    /// Answer with this NAK.
    Reject(BvlcResultCode),
}

/// User-supplied narrowing-only BVLL policy. Nothing is assumed of its
/// verdicts: whatever it returns is validated by [`evaluate_narrowing_policy`].
pub trait BvllPolicy {
    /// The verdict for one inbound message.
    fn evaluate(&self, context: &BvllPolicyContext) -> BvllPolicyVerdict;
}

/// Outcome after native hard-gate precedence and rejection validation.
#[derive(Debug, Clone, Copy, PartialEq, Eq, Structural)]
pub enum EvaluatedBvllPolicy {
    /// Keep processing.
    Continue,
    /// Silently drop.
    Drop,
    /// Answer with this NAK.
    Reject(BvlcResultCode),
}

/// How a policy verdict (or the absence of a policy) combines with an
/// admitted hard gate: a rejection must use the function's own NAK, any
/// other rejection fails closed to a drop.
pub open spec fn narrowed(verdict: Option<BvllPolicyVerdict>, function: BvlcFunction) -> EvaluatedBvllPolicy {
    match verdict {
        None => EvaluatedBvllPolicy::Continue,
        Some(BvllPolicyVerdict::Continue) => EvaluatedBvllPolicy::Continue,
        Some(BvllPolicyVerdict::Drop) => EvaluatedBvllPolicy::Drop,
        Some(BvllPolicyVerdict::Reject(code)) => if reject_code_for(function) == Some(code) {
            EvaluatedBvllPolicy::Reject(code)
        } else {
            EvaluatedBvllPolicy::Drop
        },
    }
}

/// Combines a policy verdict with an admitted hard gate.
pub fn narrow_verdict(verdict: Option<BvllPolicyVerdict>, function: BvlcFunction) -> (r:
    EvaluatedBvllPolicy)
    ensures
        r == narrowed(verdict, function),
{
    match verdict {
        None => EvaluatedBvllPolicy::Continue,
        Some(BvllPolicyVerdict::Continue) => EvaluatedBvllPolicy::Continue,
        Some(BvllPolicyVerdict::Drop) => EvaluatedBvllPolicy::Drop,
        Some(BvllPolicyVerdict::Reject(code)) => if valid_reject(function, code) {
            EvaluatedBvllPolicy::Reject(code)
        } else {
            EvaluatedBvllPolicy::Drop
        },
    }
}

/// Outcome of a message after the native hard gates and the policy's
/// answer. When the hard gate denies the message it is dropped and the
/// policy's answer is ignored; otherwise that answer is narrowed. A policy
/// that failed while evaluating counts as asking for a drop.
pub fn combine_policy_verdict(
    hard_gate_admitted: bool,
    verdict: Option<BvllPolicyVerdict>,
    function: BvlcFunction,
) -> (r: EvaluatedBvllPolicy)
    ensures
        r == (if hard_gate_admitted {
            narrowed(verdict, function)
        } else {
            EvaluatedBvllPolicy::Drop
        }),
        r matches EvaluatedBvllPolicy::Reject(code) ==> reject_code_for(function) == Some(code),
{
    if !hard_gate_admitted {
        return EvaluatedBvllPolicy::Drop;
    }
    narrow_verdict(verdict, function)
}

/// Evaluates the optional extension policy after the native hard gates. A
/// denied hard gate drops without consulting the policy; otherwise the
/// policy can keep, drop, or reject with the function's own NAK only.
pub fn evaluate_narrowing_policy<P: BvllPolicy>(
    hard_gate_admitted: bool,
    policy: Option<&P>,
    context: &BvllPolicyContext,
) -> (r: EvaluatedBvllPolicy)
    ensures
        !hard_gate_admitted ==> r == EvaluatedBvllPolicy::Drop,
        hard_gate_admitted && policy is None ==> r == EvaluatedBvllPolicy::Continue,
        hard_gate_admitted ==> exists|v: Option<BvllPolicyVerdict>|
            (policy is None ==> v is None) && r == #[trigger] narrowed(v, context.function),
        r matches EvaluatedBvllPolicy::Reject(code) ==> reject_code_for(context.function) == Some(
            code,
        ),
{
    if !hard_gate_admitted {
        return EvaluatedBvllPolicy::Drop;
    }
    let verdict = match policy {
        Some(p) => Some(p.evaluate(context)),
        None => None,
    };
    let r = combine_policy_verdict(true, verdict, context.function);
    assert(r == narrowed(verdict, context.function));
    r
}

} // verus!
