//! The variable-length options header that may precede the message header.
//!
//! One leading flags byte gates everything: if its most significant bit is
//! clear the options header is structurally absent and exactly one byte is
//! consumed. Otherwise the low seven bits each gate an optional sub-record,
//! decoded low bit to high bit: mobile id, mobile id type, authentication,
//! routing, forwarding, redirection, and a nested extension sub-block with
//! its own flags byte.

use vstd::prelude::*;

use crate::CalAmpError;
use crate::cursor::Cursor;
use crate::cursor::spec_read_u8;
use crate::cursor::spec_read_u16_be;
use crate::cursor::spec_read_bytes;
use crate::text::byte_list_string;
use crate::text::esn_string;
use crate::text::ip_string;
use crate::text::spec_byte_list_chars;
use crate::text::spec_esn_chars;
use crate::text::spec_ip_chars;
use crate::text::spec_verbatim_chars;
use crate::text::verbatim_string;

verus! {

/// The transport protocol named by a forwarding sub-record.
#[derive(Clone, Copy, Debug, PartialEq, Eq, Structural)]
pub enum ForwardingProtocol {
    /// TCP protocol.
    Tcp,
    /// UDP protocol.
    Udp,
}

/// The operation named by a forwarding sub-record.
#[derive(Clone, Copy, Debug, PartialEq, Eq, Structural)]
pub enum ForwardingOperationType {
    /// Standard forwarding.
    Forward,
    /// Forward with lookup.
    ForwardLookup,
    /// Proxy forwarding.
    Proxy,
}

impl ForwardingProtocol {
    /// The protocol's name, as rendered to humans.
    pub open spec fn spec_name(&self) -> Seq<char> {
        match self {
            ForwardingProtocol::Tcp => "TCP"@,
            ForwardingProtocol::Udp => "UDP"@,
        }
    }

    /// Render the protocol's name.
    pub fn name(&self) -> (s: String)
        ensures
            s@ == self.spec_name(),
    {
        match self {
            ForwardingProtocol::Tcp => "TCP".to_owned(),
            ForwardingProtocol::Udp => "UDP".to_owned(),
        }
    }
}

impl ForwardingOperationType {
    /// The operation's name, as rendered to humans.
    pub open spec fn spec_name(&self) -> Seq<char> {
        match self {
            ForwardingOperationType::Forward => "Forward"@,
            ForwardingOperationType::ForwardLookup => "ForwardLookup"@,
            ForwardingOperationType::Proxy => "Proxy"@,
        }
    }

    /// Render the operation's name.
    pub fn name(&self) -> (s: String)
        ensures
            s@ == self.spec_name(),
    {
        match self {
            ForwardingOperationType::Forward => "Forward".to_owned(),
            ForwardingOperationType::ForwardLookup => "ForwardLookup".to_owned(),
            ForwardingOperationType::Proxy => "Proxy".to_owned(),
        }
    }
}

/// The protocol a wire code stands for: 17 is UDP, everything else TCP.
pub open spec fn spec_protocol(b: u8) -> ForwardingProtocol {
    if b == 17 {
        ForwardingProtocol::Udp
    } else {
        ForwardingProtocol::Tcp
    }
}

/// The operation a wire code stands for: 0 forwards, 1 proxies, everything
/// else forwards with lookup.
pub open spec fn spec_operation(b: u8) -> ForwardingOperationType {
    if b == 0 {
        ForwardingOperationType::Forward
    } else if b == 1 {
        ForwardingOperationType::Proxy
    } else {
        ForwardingOperationType::ForwardLookup
    }
}

/// Map a wire code to its forwarding protocol.
pub fn protocol_from(b: u8) -> (p: ForwardingProtocol)
    ensures
        p == spec_protocol(b),
{
    if b == 17 {
        ForwardingProtocol::Udp
    } else {
        ForwardingProtocol::Tcp
    }
}

/// Map a wire code to its forwarding operation.
pub fn operation_from(b: u8) -> (o: ForwardingOperationType)
    ensures
        o == spec_operation(b),
{
    if b == 0 {
        ForwardingOperationType::Forward
    } else if b == 1 {
        ForwardingOperationType::Proxy
    } else {
        ForwardingOperationType::ForwardLookup
    }
}

/// A device or subscriber identifier from the options header.
///
/// Only the ESN variant is currently derivable from wire bytes; the type
/// sub-field names the others, but their payloads are not decoded.
#[derive(Clone, Debug)]
pub enum MobileId {
    /// Electronic serial number.
    Esn(String),
    /// International mobile equipment ID, or electronic ID of the wireless modem.
    ImeiEid(String),
    /// International mobile subscriber ID of the SIM card.
    Imsi(String),
    /// IP address.
    IpAddress(String),
    /// Phone number.
    Phone(String),
    /// User defined mobile ID.
    User(Vec<u8>),
}

/// The mathematical value of a [`MobileId`]: the same variants over
/// character and byte sequences.
pub ghost enum MobileIdView {
    /// Electronic serial number.
    Esn(Seq<char>),
    /// International mobile equipment ID or electronic ID.
    ImeiEid(Seq<char>),
    /// International mobile subscriber ID.
    Imsi(Seq<char>),
    /// IP address.
    IpAddress(Seq<char>),
    /// Phone number.
    Phone(Seq<char>),
    /// User defined mobile ID.
    User(Seq<u8>),
}

impl View for MobileId {
    type V = MobileIdView;

    open spec fn view(&self) -> MobileIdView {
        match self {
            MobileId::Esn(s) => MobileIdView::Esn(s@),
            MobileId::ImeiEid(s) => MobileIdView::ImeiEid(s@),
            MobileId::Imsi(s) => MobileIdView::Imsi(s@),
            MobileId::IpAddress(s) => MobileIdView::IpAddress(s@),
            MobileId::Phone(s) => MobileIdView::Phone(s@),
            MobileId::User(v) => MobileIdView::User(v@),
        }
    }
}

impl MobileId {
    /// What rendering the mobile id yields: the identifier text itself, or
    /// the bracketed decimal bytes of a user defined id.
    pub open spec fn spec_display(&self) -> Seq<char> {
        match self {
            MobileId::Esn(s) => s@,
            MobileId::ImeiEid(s) => s@,
            MobileId::Imsi(s) => s@,
            MobileId::IpAddress(s) => s@,
            MobileId::Phone(s) => s@,
            MobileId::User(v) => spec_byte_list_chars(v@),
        }
    }

    /// Render the mobile id as text.
    pub fn display_string(&self) -> (s: String)
        ensures
            s@ == self.spec_display(),
    {
        match self {
            MobileId::Esn(text) => text.clone(),
            MobileId::ImeiEid(text) => text.clone(),
            MobileId::Imsi(text) => text.clone(),
            MobileId::IpAddress(text) => text.clone(),
            MobileId::Phone(text) => text.clone(),
            MobileId::User(bytes) => byte_list_string(bytes.as_slice()),
        }
    }
}

/// The extension sub-block nested inside the options header, gated by its
/// own flags byte.
#[derive(Clone, Debug)]
pub struct OptionExtension {
    /// Encryption service: the four random key bytes.
    pub encryption_service: Option<(u8, u8, u8, u8)>,
    /// Electronic serial number.
    pub esn: Option<String>,
    /// Vehicle identification number.
    pub vin: Option<String>,
}

/// The mathematical value of an [`OptionExtension`].
pub ghost struct OptionExtensionView {
    /// Encryption service key bytes.
    pub encryption_service: Option<(u8, u8, u8, u8)>,
    /// Electronic serial number.
    pub esn: Option<Seq<char>>,
    /// Vehicle identification number.
    pub vin: Option<Seq<char>>,
}

/// The view of an optional string.
pub open spec fn view_opt_string(o: Option<String>) -> Option<Seq<char>> {
    match o {
        Some(s) => Some(s@),
        None => None,
    }
}

/// The view of an optional byte vector.
pub open spec fn view_opt_bytes(o: Option<Vec<u8>>) -> Option<Seq<u8>> {
    match o {
        Some(v) => Some(v@),
        None => None,
    }
}

impl View for OptionExtension {
    type V = OptionExtensionView;

    open spec fn view(&self) -> OptionExtensionView {
        OptionExtensionView {
            encryption_service: self.encryption_service,
            esn: view_opt_string(self.esn),
            vin: view_opt_string(self.vin),
        }
    }
}

impl OptionExtension {
    /// Retrieve the encryption service.
    pub fn encryption_service(&self) -> (r: &Option<(u8, u8, u8, u8)>)
        ensures
            *r == self.encryption_service,
    {
        &self.encryption_service
    }

    /// Retrieve the ESN.
    pub fn esn(&self) -> (r: &Option<String>)
        ensures
            *r == self.esn,
    {
        &self.esn
    }

    /// Retrieve the VIN.
    pub fn vin(&self) -> (r: &Option<String>)
        ensures
            *r == self.vin,
    {
        &self.vin
    }
}

/// The options header: up to six optional sub-records, all absent by
/// default, each present exactly when its flag bit is set.
#[derive(Clone, Debug)]
pub struct OptionsHeader {
    /// Authentication details.
    pub authentication: Option<Vec<u8>>,
    /// Options extension.
    pub extension: Option<OptionExtension>,
    /// Forwarding IP address, port, protocol and operation.
    pub forwarding: Option<(String, u16, ForwardingProtocol, ForwardingOperationType)>,
    /// Mobile ID.
    pub mobile_id: Option<MobileId>,
    /// Redirection IP address and port.
    pub redirection: Option<(String, u16)>,
    /// Routing details.
    pub routing: Option<Vec<u8>>,
}

/// The mathematical value of an [`OptionsHeader`].
pub ghost struct OptionsHeaderView {
    /// Authentication details.
    pub authentication: Option<Seq<u8>>,
    /// Options extension.
    pub extension: Option<OptionExtensionView>,
    /// Forwarding IP address, port, protocol and operation.
    pub forwarding: Option<(Seq<char>, u16, ForwardingProtocol, ForwardingOperationType)>,
    /// Mobile ID.
    pub mobile_id: Option<MobileIdView>,
    /// Redirection IP address and port.
    pub redirection: Option<(Seq<char>, u16)>,
    /// Routing details.
    pub routing: Option<Seq<u8>>,
}

/// The view of an optional mobile id.
pub open spec fn view_opt_mobile_id(o: Option<MobileId>) -> Option<MobileIdView> {
    match o {
        Some(m) => Some(m@),
        None => None,
    }
}

/// The view of an optional extension.
pub open spec fn view_opt_extension(o: Option<OptionExtension>) -> Option<OptionExtensionView> {
    match o {
        Some(e) => Some(e@),
        None => None,
    }
}

/// The view of an optional forwarding record.
pub open spec fn view_opt_forwarding(
    o: Option<(String, u16, ForwardingProtocol, ForwardingOperationType)>,
) -> Option<(Seq<char>, u16, ForwardingProtocol, ForwardingOperationType)> {
    match o {
        Some((ip, port, protocol, operation)) => Some((ip@, port, protocol, operation)),
        None => None,
    }
}

/// The view of an optional redirection record.
pub open spec fn view_opt_redirection(o: Option<(String, u16)>) -> Option<(Seq<char>, u16)> {
    match o {
        Some((ip, port)) => Some((ip@, port)),
        None => None,
    }
}

impl View for OptionsHeader {
    type V = OptionsHeaderView;

    open spec fn view(&self) -> OptionsHeaderView {
        OptionsHeaderView {
            authentication: view_opt_bytes(self.authentication),
            extension: view_opt_extension(self.extension),
            forwarding: view_opt_forwarding(self.forwarding),
            mobile_id: view_opt_mobile_id(self.mobile_id),
            redirection: view_opt_redirection(self.redirection),
            routing: view_opt_bytes(self.routing),
        }
    }
}

/// The options header whose sub-records are all absent.
pub open spec fn spec_empty_options() -> OptionsHeaderView {
    OptionsHeaderView {
        authentication: None,
        extension: None,
        forwarding: None,
        mobile_id: None,
        redirection: None,
        routing: None,
    }
}

/// What decoding the mobile id sub-record (flag bits 0 and 1) at offset `i`
/// yields.
///
/// When bit 0 is clear nothing is read. Otherwise one length byte is read;
/// a zero length ends the sub-record with no id. Otherwise the id payload
/// bytes are read, and only if bit 1 is also set are the type-subfield
/// length byte and the one type byte read: type 1 is an ESN, expanded
/// BCD-style from the payload; every other type leaves the id absent
/// without consuming type-specific payload bytes.
pub open spec fn spec_parse_mobile_id(s: Seq<u8>, i: int, bits: u8) -> Result<
    (Option<MobileIdView>, int),
    CalAmpError,
> {
    if (bits & 1) != 1 {
        Ok((None, i))
    } else {
        match spec_read_u8(s, i) {
            Err(e) => Err(e),
            Ok((len, i1)) => if len == 0 {
                Ok((None, i1))
            } else {
                match spec_read_bytes(s, i1, len as int) {
                    Err(e) => Err(e),
                    Ok((id_bytes, i2)) => if ((bits >> 1) & 1) != 1 {
                        Ok((None, i2))
                    } else {
                        match spec_read_u8(s, i2) {
                            Err(e) => Err(e),
                            Ok((_type_len, i3)) => match spec_read_u8(s, i3) {
                                Err(e) => Err(e),
                                Ok((ty, i4)) => if ty == 1 {
                                    Ok((Some(MobileIdView::Esn(spec_esn_chars(id_bytes))), i4))
                                } else {
                                    Ok((None, i4))
                                },
                            },
                        }
                    },
                }
            },
        }
    }
}

/// What decoding a length-prefixed raw byte sub-record (authentication or
/// routing) at offset `i` yields: nothing when the flag is clear, one length
/// byte otherwise, and the payload only when the length is positive.
pub open spec fn spec_parse_bytes_block(s: Seq<u8>, i: int, present: bool) -> Result<
    (Option<Seq<u8>>, int),
    CalAmpError,
> {
    if !present {
        Ok((None, i))
    } else {
        match spec_read_u8(s, i) {
            Err(e) => Err(e),
            Ok((len, i1)) => if len == 0 {
                Ok((None, i1))
            } else {
                match spec_read_bytes(s, i1, len as int) {
                    Err(e) => Err(e),
                    Ok((data, i2)) => Ok((Some(data), i2)),
                }
            },
        }
    }
}

/// What decoding the forwarding sub-record (flag bit 4) at offset `i`
/// yields: one length byte, and when it is positive four IP octets rendered
/// as a dotted string, a big-endian port, one protocol byte and one
/// operation byte.
pub open spec fn spec_parse_forwarding(s: Seq<u8>, i: int, present: bool) -> Result<
    (Option<(Seq<char>, u16, ForwardingProtocol, ForwardingOperationType)>, int),
    CalAmpError,
> {
    if !present {
        Ok((None, i))
    } else {
        match spec_read_u8(s, i) {
            Err(e) => Err(e),
            Ok((len, i1)) => if len == 0 {
                Ok((None, i1))
            } else {
                match spec_read_bytes(s, i1, 4) {
                    Err(e) => Err(e),
                    Ok((ip, i2)) => match spec_read_u16_be(s, i2) {
                        Err(e) => Err(e),
                        Ok((port, i3)) => match spec_read_u8(s, i3) {
                            Err(e) => Err(e),
                            Ok((protocol, i4)) => match spec_read_u8(s, i4) {
                                Err(e) => Err(e),
                                Ok((operation, i5)) => Ok(
                                    (
                                        Some(
                                            (
                                                spec_ip_chars(ip[0], ip[1], ip[2], ip[3]),
                                                port,
                                                spec_protocol(protocol),
                                                spec_operation(operation),
                                            ),
                                        ),
                                        i5,
                                    ),
                                ),
                            },
                        },
                    },
                }
            },
        }
    }
}

/// What decoding the redirection sub-record (flag bit 5) at offset `i`
/// yields. It is the only sub-record with no length prefix: its width is
/// always exactly six bytes, four IP octets and a big-endian port.
pub open spec fn spec_parse_redirection(s: Seq<u8>, i: int, present: bool) -> Result<
    (Option<(Seq<char>, u16)>, int),
    CalAmpError,
> {
    if !present {
        Ok((None, i))
    } else {
        match spec_read_bytes(s, i, 4) {
            Err(e) => Err(e),
            Ok((ip, i1)) => match spec_read_u16_be(s, i1) {
                Err(e) => Err(e),
                Ok((port, i2)) => Ok(
                    (Some((spec_ip_chars(ip[0], ip[1], ip[2], ip[3]), port)), i2),
                ),
            },
        }
    }
}

/// What decoding the extension's ESN item (extension flag 0) at offset `i`
/// yields: a length byte, then that many raw bytes expanded BCD-style. A
/// zero length yields an empty, but present, string.
pub open spec fn spec_parse_ext_esn(s: Seq<u8>, i: int, present: bool) -> Result<
    (Option<Seq<char>>, int),
    CalAmpError,
> {
    if !present {
        Ok((None, i))
    } else {
        match spec_read_u8(s, i) {
            Err(e) => Err(e),
            Ok((len, i1)) => match spec_read_bytes(s, i1, len as int) {
                Err(e) => Err(e),
                Ok((data, i2)) => Ok((Some(spec_esn_chars(data)), i2)),
            },
        }
    }
}

/// What decoding the extension's VIN item (extension flag 1) at offset `i`
/// yields: the length byte must be exactly 17, then 17 bytes are copied
/// verbatim as a string. Any other length byte fails at once, consuming
/// nothing beyond the violating byte.
pub open spec fn spec_parse_ext_vin(s: Seq<u8>, i: int, present: bool) -> Result<
    (Option<Seq<char>>, int),
    CalAmpError,
> {
    if !present {
        Ok((None, i))
    } else {
        match spec_read_u8(s, i) {
            Err(e) => Err(e),
            Ok((len, i1)) => if len != 17 {
                Err(CalAmpError::VinLength)
            } else {
                match spec_read_bytes(s, i1, 17) {
                    Err(e) => Err(e),
                    Ok((data, i2)) => Ok((Some(spec_verbatim_chars(data)), i2)),
                }
            },
        }
    }
}

/// What decoding the extension's encryption item (extension flag 2) at
/// offset `i` yields: a length byte read but not otherwise validated, one
/// encryption type byte that must be 0 to 3, then the fixed four-byte
/// random key.
pub open spec fn spec_parse_ext_encryption(s: Seq<u8>, i: int, present: bool) -> Result<
    (Option<(u8, u8, u8, u8)>, int),
    CalAmpError,
> {
    if !present {
        Ok((None, i))
    } else {
        match spec_read_u8(s, i) {
            Err(e) => Err(e),
            Ok((_len, i1)) => match spec_read_u8(s, i1) {
                Err(e) => Err(e),
                Ok((ty, i2)) => if ty > 3 {
                    Err(CalAmpError::EncryptionType(ty))
                } else {
                    match spec_read_bytes(s, i2, 4) {
                        Err(e) => Err(e),
                        Ok((key, i3)) => Ok((Some((key[0], key[1], key[2], key[3])), i3)),
                    }
                },
            },
        }
    }
}

/// What decoding the extension sub-block (flag bit 6) at offset `i` yields:
/// a length byte that must be at most 1, the extension flags byte, then the
/// three flag-gated items low bit to high bit.
pub open spec fn spec_parse_extension(s: Seq<u8>, i: int, present: bool) -> Result<
    (Option<OptionExtensionView>, int),
    CalAmpError,
> {
    if !present {
        Ok((None, i))
    } else {
        match spec_read_u8(s, i) {
            Err(e) => Err(e),
            Ok((len, i1)) => if len > 1 {
                Err(CalAmpError::OptionExtensionBitLength(len))
            } else {
                match spec_read_u8(s, i1) {
                    Err(e) => Err(e),
                    Ok((ebits, i2)) => match spec_parse_ext_esn(s, i2, (ebits & 1) == 1) {
                        Err(e) => Err(e),
                        Ok((esn, i3)) => match spec_parse_ext_vin(s, i3, ((ebits >> 1) & 1) == 1) {
                            Err(e) => Err(e),
                            Ok((vin, i4)) => match spec_parse_ext_encryption(
                                s,
                                i4,
                                ((ebits >> 2) & 1) == 1,
                            ) {
                                Err(e) => Err(e),
                                Ok((encryption_service, i5)) => Ok(
                                    (
                                        Some(
                                            OptionExtensionView { encryption_service, esn, vin },
                                        ),
                                        i5,
                                    ),
                                ),
                            },
                        },
                    },
                }
            },
        }
    }
}

/// What decoding the six flag-gated sub-records, starting right after the
/// flags byte, yields: the populated header and the total number of bytes
/// consumed including the flags byte, or the first error.
pub open spec fn spec_parse_options_body(s: Seq<u8>, bits: u8) -> Result<
    (OptionsHeaderView, int),
    CalAmpError,
> {
    match spec_parse_mobile_id(s, 1, bits) {
        Err(e) => Err(e),
        Ok((mobile_id, i2)) => match spec_parse_bytes_block(s, i2, ((bits >> 2) & 1) == 1) {
            Err(e) => Err(e),
            Ok((authentication, i3)) => match spec_parse_bytes_block(
                s,
                i3,
                ((bits >> 3) & 1) == 1,
            ) {
                Err(e) => Err(e),
                Ok((routing, i4)) => match spec_parse_forwarding(s, i4, ((bits >> 4) & 1) == 1) {
                    Err(e) => Err(e),
                    Ok((forwarding, i5)) => match spec_parse_redirection(
                        s,
                        i5,
                        ((bits >> 5) & 1) == 1,
                    ) {
                        Err(e) => Err(e),
                        Ok((redirection, i6)) => match spec_parse_extension(
                            s,
                            i6,
                            ((bits >> 6) & 1) == 1,
                        ) {
                            Err(e) => Err(e),
                            Ok((extension, i7)) => Ok(
                                (
                                    OptionsHeaderView {
                                        authentication,
                                        extension,
                                        forwarding,
                                        mobile_id,
                                        redirection,
                                        routing,
                                    },
                                    i7,
                                ),
                            ),
                        },
                    },
                },
            },
        },
    }
}

/// What decoding an options header from the front of `s` yields: the header
/// and the number of bytes consumed, or the first error.
///
/// One flags byte is read first. If its most significant bit is clear the
/// options header is absent: the empty header is returned and exactly one
/// byte consumed. Otherwise the seven flag-gated sub-records follow, low
/// bit to high bit.
pub open spec fn spec_parse_options_header(s: Seq<u8>) -> Result<
    (OptionsHeaderView, int),
    CalAmpError,
> {
    match spec_read_u8(s, 0) {
        Err(e) => Err(e),
        Ok((bits, i1)) => if (bits >> 7) == 0 {
            Ok((spec_empty_options(), i1))
        } else {
            spec_parse_options_body(s, bits)
        },
    }
}

/// Decode the mobile id sub-record at the cursor.
fn parse_mobile_id<'a>(cursor: &mut Cursor<'a>, bits: u8) -> (r: Result<
    Option<MobileId>,
    CalAmpError,
>)
    requires
        old(cursor).wf(),
    ensures
        final(cursor).wf(),
        final(cursor).bytes() == old(cursor).bytes(),
        (match r {
            Ok(m) => spec_parse_mobile_id(old(cursor).bytes(), old(cursor).position(), bits)
                == Ok::<(Option<MobileIdView>, int), CalAmpError>(
                (view_opt_mobile_id(m), final(cursor).position()),
            ),
            Err(e) => spec_parse_mobile_id(old(cursor).bytes(), old(cursor).position(), bits)
                == Err::<(Option<MobileIdView>, int), CalAmpError>(e),
        }),
{
    if (bits & 1) != 1 {
        return Ok(None);
    }
    let len: u8 = match cursor.read_u8() {
        Ok(b) => b,
        Err(e) => {
            return Err(e);
        },
    };
    if len == 0 {
        return Ok(None);
    }
    let id_bytes = match cursor.read_fixed_bytes(len as usize) {
        Ok(b) => b,
        Err(e) => {
            return Err(e);
        },
    };
    if ((bits >> 1) & 1) != 1 {
        return Ok(None);
    }
    // type-subfield length byte, read and not otherwise used
    match cursor.read_u8() {
        Ok(_) => (),
        Err(e) => {
            return Err(e);
        },
    };
    let ty: u8 = match cursor.read_u8() {
        Ok(b) => b,
        Err(e) => {
            return Err(e);
        },
    };
    if ty == 1 {
        Ok(Some(MobileId::Esn(esn_string(id_bytes))))
    } else {
        Ok(None)
    }
}

/// Decode a length-prefixed raw byte sub-record at the cursor.
fn parse_bytes_block<'a>(cursor: &mut Cursor<'a>, present: bool) -> (r: Result<
    Option<Vec<u8>>,
    CalAmpError,
>)
    requires
        old(cursor).wf(),
    ensures
        final(cursor).wf(),
        final(cursor).bytes() == old(cursor).bytes(),
        (match r {
            Ok(v) => spec_parse_bytes_block(old(cursor).bytes(), old(cursor).position(), present)
                == Ok::<(Option<Seq<u8>>, int), CalAmpError>(
                (view_opt_bytes(v), final(cursor).position()),
            ),
            Err(e) => spec_parse_bytes_block(old(cursor).bytes(), old(cursor).position(), present)
                == Err::<(Option<Seq<u8>>, int), CalAmpError>(e),
        }),
{
    if !present {
        return Ok(None);
    }
    let len: u8 = match cursor.read_u8() {
        Ok(b) => b,
        Err(e) => {
            return Err(e);
        },
    };
    if len == 0 {
        return Ok(None);
    }
    match cursor.read_vector(len as usize) {
        Ok(v) => Ok(Some(v)),
        Err(e) => Err(e),
    }
}

/// Decode the forwarding sub-record at the cursor.
fn parse_forwarding<'a>(cursor: &mut Cursor<'a>, present: bool) -> (r: Result<
    Option<(String, u16, ForwardingProtocol, ForwardingOperationType)>,
    CalAmpError,
>)
    requires
        old(cursor).wf(),
    ensures
        final(cursor).wf(),
        final(cursor).bytes() == old(cursor).bytes(),
        (match r {
            Ok(f) => spec_parse_forwarding(old(cursor).bytes(), old(cursor).position(), present)
                == Ok::<
                (Option<(Seq<char>, u16, ForwardingProtocol, ForwardingOperationType)>, int),
                CalAmpError,
            >((view_opt_forwarding(f), final(cursor).position())),
            Err(e) => spec_parse_forwarding(old(cursor).bytes(), old(cursor).position(), present)
                == Err::<
                (Option<(Seq<char>, u16, ForwardingProtocol, ForwardingOperationType)>, int),
                CalAmpError,
            >(e),
        }),
{
    if !present {
        return Ok(None);
    }
    let len: u8 = match cursor.read_u8() {
        Ok(b) => b,
        Err(e) => {
            return Err(e);
        },
    };
    if len == 0 {
        return Ok(None);
    }
    let ip = match cursor.read_fixed_bytes(4) {
        Ok(b) => b,
        Err(e) => {
            return Err(e);
        },
    };
    let ip_text = ip_string(ip[0], ip[1], ip[2], ip[3]);
    let port: u16 = match cursor.read_u16_be() {
        Ok(v) => v,
        Err(e) => {
            return Err(e);
        },
    };
    let protocol = match cursor.read_u8() {
        Ok(b) => protocol_from(b),
        Err(e) => {
            return Err(e);
        },
    };
    let operation = match cursor.read_u8() {
        Ok(b) => operation_from(b),
        Err(e) => {
            return Err(e);
        },
    };
    Ok(Some((ip_text, port, protocol, operation)))
}

/// Decode the redirection sub-record at the cursor.
fn parse_redirection<'a>(cursor: &mut Cursor<'a>, present: bool) -> (r: Result<
    Option<(String, u16)>,
    CalAmpError,
>)
    requires
        old(cursor).wf(),
    ensures
        final(cursor).wf(),
        final(cursor).bytes() == old(cursor).bytes(),
        (match r {
            Ok(f) => spec_parse_redirection(old(cursor).bytes(), old(cursor).position(), present)
                == Ok::<(Option<(Seq<char>, u16)>, int), CalAmpError>(
                (view_opt_redirection(f), final(cursor).position()),
            ),
            Err(e) => spec_parse_redirection(old(cursor).bytes(), old(cursor).position(), present)
                == Err::<(Option<(Seq<char>, u16)>, int), CalAmpError>(e),
        }),
{
    if !present {
        return Ok(None);
    }
    let ip = match cursor.read_fixed_bytes(4) {
        Ok(b) => b,
        Err(e) => {
            return Err(e);
        },
    };
    let ip_text = ip_string(ip[0], ip[1], ip[2], ip[3]);
    let port: u16 = match cursor.read_u16_be() {
        Ok(v) => v,
        Err(e) => {
            return Err(e);
        },
    };
    Ok(Some((ip_text, port)))
}

/// Decode the extension's ESN item at the cursor.
fn parse_ext_esn<'a>(cursor: &mut Cursor<'a>, present: bool) -> (r: Result<
    Option<String>,
    CalAmpError,
>)
    requires
        old(cursor).wf(),
    ensures
        final(cursor).wf(),
        final(cursor).bytes() == old(cursor).bytes(),
        (match r {
            Ok(o) => spec_parse_ext_esn(old(cursor).bytes(), old(cursor).position(), present)
                == Ok::<(Option<Seq<char>>, int), CalAmpError>(
                (view_opt_string(o), final(cursor).position()),
            ),
            Err(e) => spec_parse_ext_esn(old(cursor).bytes(), old(cursor).position(), present)
                == Err::<(Option<Seq<char>>, int), CalAmpError>(e),
        }),
{
    if !present {
        return Ok(None);
    }
    let len: u8 = match cursor.read_u8() {
        Ok(b) => b,
        Err(e) => {
            return Err(e);
        },
    };
    let data = match cursor.read_fixed_bytes(len as usize) {
        Ok(b) => b,
        Err(e) => {
            return Err(e);
        },
    };
    Ok(Some(esn_string(data)))
}

/// Decode the extension's VIN item at the cursor.
fn parse_ext_vin<'a>(cursor: &mut Cursor<'a>, present: bool) -> (r: Result<
    Option<String>,
    CalAmpError,
>)
    requires
        old(cursor).wf(),
    ensures
        final(cursor).wf(),
        final(cursor).bytes() == old(cursor).bytes(),
        (match r {
            Ok(o) => spec_parse_ext_vin(old(cursor).bytes(), old(cursor).position(), present)
                == Ok::<(Option<Seq<char>>, int), CalAmpError>(
                (view_opt_string(o), final(cursor).position()),
            ),
            Err(e) => spec_parse_ext_vin(old(cursor).bytes(), old(cursor).position(), present)
                == Err::<(Option<Seq<char>>, int), CalAmpError>(e),
        }),
{
    if !present {
        return Ok(None);
    }
    let len: u8 = match cursor.read_u8() {
        Ok(b) => b,
        Err(e) => {
            return Err(e);
        },
    };
    if len != 17 {
        return Err(CalAmpError::VinLength);
    }
    let data = match cursor.read_fixed_bytes(17) {
        Ok(b) => b,
        Err(e) => {
            return Err(e);
        },
    };
    Ok(Some(verbatim_string(data)))
}

/// Decode the extension's encryption item at the cursor.
fn parse_ext_encryption<'a>(cursor: &mut Cursor<'a>, present: bool) -> (r: Result<
    Option<(u8, u8, u8, u8)>,
    CalAmpError,
>)
    requires
        old(cursor).wf(),
    ensures
        final(cursor).wf(),
        final(cursor).bytes() == old(cursor).bytes(),
        (match r {
            Ok(o) => spec_parse_ext_encryption(old(cursor).bytes(), old(cursor).position(), present)
                == Ok::<(Option<(u8, u8, u8, u8)>, int), CalAmpError>(
                (o, final(cursor).position()),
            ),
            Err(e) => spec_parse_ext_encryption(
                old(cursor).bytes(),
                old(cursor).position(),
                present,
            ) == Err::<(Option<(u8, u8, u8, u8)>, int), CalAmpError>(e),
        }),
{
    if !present {
        return Ok(None);
    }
    // length byte, read and not otherwise validated
    match cursor.read_u8() {
        Ok(_) => (),
        Err(e) => {
            return Err(e);
        },
    };
    let ty: u8 = match cursor.read_u8() {
        Ok(b) => b,
        Err(e) => {
            return Err(e);
        },
    };
    if ty > 3 {
        return Err(CalAmpError::EncryptionType(ty));
    }
    let key = match cursor.read_fixed_bytes(4) {
        Ok(b) => b,
        Err(e) => {
            return Err(e);
        },
    };
    Ok(Some((key[0], key[1], key[2], key[3])))
}

/// Decode the extension sub-block at the cursor.
fn parse_extension<'a>(cursor: &mut Cursor<'a>, present: bool) -> (r: Result<
    Option<OptionExtension>,
    CalAmpError,
>)
    requires
        old(cursor).wf(),
    ensures
        final(cursor).wf(),
        final(cursor).bytes() == old(cursor).bytes(),
        (match r {
            Ok(o) => spec_parse_extension(old(cursor).bytes(), old(cursor).position(), present)
                == Ok::<(Option<OptionExtensionView>, int), CalAmpError>(
                (view_opt_extension(o), final(cursor).position()),
            ),
            Err(e) => spec_parse_extension(old(cursor).bytes(), old(cursor).position(), present)
                == Err::<(Option<OptionExtensionView>, int), CalAmpError>(e),
        }),
{
    if !present {
        return Ok(None);
    }
    let len: u8 = match cursor.read_u8() {
        Ok(b) => b,
        Err(e) => {
            return Err(e);
        },
    };
    if len > 1 {
        return Err(CalAmpError::OptionExtensionBitLength(len));
    }
    let ebits: u8 = match cursor.read_u8() {
        Ok(b) => b,
        Err(e) => {
            return Err(e);
        },
    };
    let esn = match parse_ext_esn(cursor, (ebits & 1) == 1) {
        Ok(o) => o,
        Err(e) => {
            return Err(e);
        },
    };
    let vin = match parse_ext_vin(cursor, ((ebits >> 1) & 1) == 1) {
        Ok(o) => o,
        Err(e) => {
            return Err(e);
        },
    };
    let encryption_service = match parse_ext_encryption(cursor, ((ebits >> 2) & 1) == 1) {
        Ok(o) => o,
        Err(e) => {
            return Err(e);
        },
    };
    Ok(Some(OptionExtension { encryption_service, esn, vin }))
}

impl OptionsHeader {
    /// Parse options header data from a slice.
    ///
    /// Returns the OptionsHeader and parsed byte count; fails exactly where
    /// the specification function fails, with the same error. The byte count
    /// never exceeds the buffer length.
    #[verifier::rlimit(100)]
    pub fn parse(slice: &[u8]) -> (res: Result<(OptionsHeader, usize), CalAmpError>)
        ensures
            (match res {
                Ok((h, n)) => spec_parse_options_header(slice@) == Ok::<
                    (OptionsHeaderView, int),
                    CalAmpError,
                >((h@, n as int)) && n <= slice@.len(),
                Err(e) => spec_parse_options_header(slice@) == Err::<
                    (OptionsHeaderView, int),
                    CalAmpError,
                >(e),
            }),
    {
        let mut cursor = Cursor::new(slice);
        let bits: u8 = match cursor.read_u8() {
            Ok(b) => b,
            Err(e) => {
                return Err(e);
            },
        };
        if (bits >> 7) == 0 {
            // options header is not present
            return Ok(
                (
                    OptionsHeader {
                        authentication: None,
                        extension: None,
                        forwarding: None,
                        mobile_id: None,
                        redirection: None,
                        routing: None,
                    },
                    cursor.offset(),
                ),
            );
        }
        let mobile_id = match parse_mobile_id(&mut cursor, bits) {
            Ok(m) => m,
            Err(e) => {
                return Err(e);
            },
        };
        let authentication = match parse_bytes_block(&mut cursor, ((bits >> 2) & 1) == 1) {
            Ok(v) => v,
            Err(e) => {
                return Err(e);
            },
        };
        let routing = match parse_bytes_block(&mut cursor, ((bits >> 3) & 1) == 1) {
            Ok(v) => v,
            Err(e) => {
                return Err(e);
            },
        };
        let forwarding = match parse_forwarding(&mut cursor, ((bits >> 4) & 1) == 1) {
            Ok(f) => f,
            Err(e) => {
                return Err(e);
            },
        };
        let redirection = match parse_redirection(&mut cursor, ((bits >> 5) & 1) == 1) {
            Ok(f) => f,
            Err(e) => {
                return Err(e);
            },
        };
        let extension = match parse_extension(&mut cursor, ((bits >> 6) & 1) == 1) {
            Ok(o) => o,
            Err(e) => {
                return Err(e);
            },
        };
        Ok(
            (
                OptionsHeader {
                    authentication,
                    extension,
                    forwarding,
                    mobile_id,
                    redirection,
                    routing,
                },
                cursor.offset(),
            ),
        )
    }

    /// Retrieve the authentication details.
    pub fn authentication(&self) -> (r: &Option<Vec<u8>>)
        ensures
            *r == self.authentication,
    {
        &self.authentication
    }

    /// Retrieve the extension details.
    pub fn extension(&self) -> (r: &Option<OptionExtension>)
        ensures
            *r == self.extension,
    {
        &self.extension
    }

    /// Retrieve the forwarding details.
    pub fn forwarding(&self) -> (r: &Option<
        (String, u16, ForwardingProtocol, ForwardingOperationType),
    >)
        ensures
            *r == self.forwarding,
    {
        &self.forwarding
    }

    /// Retrieve the mobile ID.
    pub fn mobile_id(&self) -> (r: &Option<MobileId>)
        ensures
            *r == self.mobile_id,
    {
        &self.mobile_id
    }

    /// Retrieve the redirection details.
    pub fn redirection(&self) -> (r: &Option<(String, u16)>)
        ensures
            *r == self.redirection,
    {
        &self.redirection
    }

    /// Retrieve the routing details.
    pub fn routing(&self) -> (r: &Option<Vec<u8>>)
        ensures
            *r == self.routing,
    {
        &self.routing
    }
}

/// A successful mobile id decode never moves the offset backwards nor past
/// the end of the buffer.
proof fn lemma_mobile_id_bounds(s: Seq<u8>, i: int, bits: u8)
    requires
        0 <= i <= s.len(),
        spec_parse_mobile_id(s, i, bits) is Ok,
    ensures
        i <= spec_parse_mobile_id(s, i, bits)->Ok_0.1 <= s.len(),
{
}

/// A successful raw byte sub-record decode never moves the offset backwards
/// nor past the end of the buffer.
proof fn lemma_bytes_block_bounds(s: Seq<u8>, i: int, present: bool)
    requires
        0 <= i <= s.len(),
        spec_parse_bytes_block(s, i, present) is Ok,
    ensures
        i <= spec_parse_bytes_block(s, i, present)->Ok_0.1 <= s.len(),
{
}

/// A successful forwarding decode never moves the offset backwards nor past
/// the end of the buffer.
proof fn lemma_forwarding_bounds(s: Seq<u8>, i: int, present: bool)
    requires
        0 <= i <= s.len(),
        spec_parse_forwarding(s, i, present) is Ok,
    ensures
        i <= spec_parse_forwarding(s, i, present)->Ok_0.1 <= s.len(),
{
}

/// A successful redirection decode never moves the offset backwards nor past
/// the end of the buffer.
proof fn lemma_redirection_bounds(s: Seq<u8>, i: int, present: bool)
    requires
        0 <= i <= s.len(),
        spec_parse_redirection(s, i, present) is Ok,
    ensures
        i <= spec_parse_redirection(s, i, present)->Ok_0.1 <= s.len(),
{
}

/// A successful extension ESN decode never moves the offset backwards nor
/// past the end of the buffer.
proof fn lemma_ext_esn_bounds(s: Seq<u8>, i: int, present: bool)
    requires
        0 <= i <= s.len(),
        spec_parse_ext_esn(s, i, present) is Ok,
    ensures
        i <= spec_parse_ext_esn(s, i, present)->Ok_0.1 <= s.len(),
{
}

/// A successful extension VIN decode never moves the offset backwards nor
/// past the end of the buffer.
proof fn lemma_ext_vin_bounds(s: Seq<u8>, i: int, present: bool)
    requires
        0 <= i <= s.len(),
        spec_parse_ext_vin(s, i, present) is Ok,
    ensures
        i <= spec_parse_ext_vin(s, i, present)->Ok_0.1 <= s.len(),
{
}

/// A successful extension encryption decode never moves the offset backwards
/// nor past the end of the buffer.
proof fn lemma_ext_encryption_bounds(s: Seq<u8>, i: int, present: bool)
    requires
        0 <= i <= s.len(),
        spec_parse_ext_encryption(s, i, present) is Ok,
    ensures
        i <= spec_parse_ext_encryption(s, i, present)->Ok_0.1 <= s.len(),
{
}

/// A successful extension decode never moves the offset backwards nor past
/// the end of the buffer.
proof fn lemma_extension_bounds(s: Seq<u8>, i: int, present: bool)
    requires
        0 <= i <= s.len(),
        spec_parse_extension(s, i, present) is Ok,
    ensures
        i <= spec_parse_extension(s, i, present)->Ok_0.1 <= s.len(),
{
    if present {
        let ebits = s[i + 1];
        lemma_ext_esn_bounds(s, i + 2, (ebits & 1) == 1);
        let i3 = spec_parse_ext_esn(s, i + 2, (ebits & 1) == 1)->Ok_0.1;
        lemma_ext_vin_bounds(s, i3, ((ebits >> 1) & 1) == 1);
        let i4 = spec_parse_ext_vin(s, i3, ((ebits >> 1) & 1) == 1)->Ok_0.1;
        lemma_ext_encryption_bounds(s, i4, ((ebits >> 2) & 1) == 1);
    }
}

/// A successful body decode never moves the offset backwards nor past the
/// end of the buffer.
proof fn lemma_options_body_bounds(s: Seq<u8>, bits: u8)
    requires
        1 <= s.len(),
        spec_parse_options_body(s, bits) is Ok,
    ensures
        1 <= spec_parse_options_body(s, bits)->Ok_0.1 <= s.len(),
{
    lemma_mobile_id_bounds(s, 1, bits);
    let i2 = spec_parse_mobile_id(s, 1, bits)->Ok_0.1;
    lemma_bytes_block_bounds(s, i2, ((bits >> 2) & 1) == 1);
    let i3 = spec_parse_bytes_block(s, i2, ((bits >> 2) & 1) == 1)->Ok_0.1;
    lemma_bytes_block_bounds(s, i3, ((bits >> 3) & 1) == 1);
    let i4 = spec_parse_bytes_block(s, i3, ((bits >> 3) & 1) == 1)->Ok_0.1;
    lemma_forwarding_bounds(s, i4, ((bits >> 4) & 1) == 1);
    let i5 = spec_parse_forwarding(s, i4, ((bits >> 4) & 1) == 1)->Ok_0.1;
    lemma_redirection_bounds(s, i5, ((bits >> 5) & 1) == 1);
    let i6 = spec_parse_redirection(s, i5, ((bits >> 5) & 1) == 1)->Ok_0.1;
    lemma_extension_bounds(s, i6, ((bits >> 6) & 1) == 1);
}

/// A successful options header decode consumes at least the flags byte and
/// never more than the buffer holds.
pub proof fn lemma_options_consumed_bounds(s: Seq<u8>)
    requires
        spec_parse_options_header(s) is Ok,
    ensures
        1 <= spec_parse_options_header(s)->Ok_0.1 <= s.len(),
{
    let bits = s[0];
    if (bits >> 7) != 0 {
        lemma_options_body_bounds(s, bits);
    }
}

/// Locality of the mobile id decode: it is determined by the bytes it
/// consumes, and truncating them yields `Eos`.
proof fn lemma_mobile_id_local(s: Seq<u8>, t: Seq<u8>, i: int, bits: u8)
    requires
        0 <= i <= s.len(),
        i <= t.len(),
        spec_parse_mobile_id(s, i, bits) is Ok,
        forall|k: int|
            i <= k < spec_parse_mobile_id(s, i, bits)->Ok_0.1 && k < t.len() ==> t[k] == s[k],
    ensures
        spec_parse_mobile_id(s, i, bits)->Ok_0.1 <= t.len() ==> spec_parse_mobile_id(t, i, bits)
            == spec_parse_mobile_id(s, i, bits),
        t.len() < spec_parse_mobile_id(s, i, bits)->Ok_0.1 ==> spec_parse_mobile_id(t, i, bits)
            == Err::<(Option<MobileIdView>, int), CalAmpError>(CalAmpError::Eos),
{
    if (bits & 1) == 1 {
        if i + 1 <= t.len() {
            assert(t[i] == s[i]);
            let len = s[i];
            if len != 0 {
                let i1 = i + 1;
                let i2 = i1 + len as int;
                if i2 <= t.len() {
                    assert(t.subrange(i1, i2) =~= s.subrange(i1, i2));
                    if ((bits >> 1) & 1) == 1 {
                        if i2 + 1 <= t.len() {
                            assert(t[i2] == s[i2]);
                            if i2 + 2 <= t.len() {
                                assert(t[i2 + 1] == s[i2 + 1]);
                            }
                        }
                    }
                }
            }
        }
    }
}

/// Locality of a raw byte sub-record decode.
proof fn lemma_bytes_block_local(s: Seq<u8>, t: Seq<u8>, i: int, present: bool)
    requires
        0 <= i <= s.len(),
        i <= t.len(),
        spec_parse_bytes_block(s, i, present) is Ok,
        forall|k: int|
            i <= k < spec_parse_bytes_block(s, i, present)->Ok_0.1 && k < t.len() ==> t[k] == s[k],
    ensures
        spec_parse_bytes_block(s, i, present)->Ok_0.1 <= t.len() ==> spec_parse_bytes_block(
            t,
            i,
            present,
        ) == spec_parse_bytes_block(s, i, present),
        t.len() < spec_parse_bytes_block(s, i, present)->Ok_0.1 ==> spec_parse_bytes_block(
            t,
            i,
            present,
        ) == Err::<(Option<Seq<u8>>, int), CalAmpError>(CalAmpError::Eos),
{
    if present {
        if i + 1 <= t.len() {
            assert(t[i] == s[i]);
            let len = s[i];
            if len != 0 {
                let i1 = i + 1;
                let i2 = i1 + len as int;
                if i2 <= t.len() {
                    assert(t.subrange(i1, i2) =~= s.subrange(i1, i2));
                }
            }
        }
    }
}

/// Locality of the forwarding decode.
proof fn lemma_forwarding_local(s: Seq<u8>, t: Seq<u8>, i: int, present: bool)
    requires
        0 <= i <= s.len(),
        i <= t.len(),
        spec_parse_forwarding(s, i, present) is Ok,
        forall|k: int|
            i <= k < spec_parse_forwarding(s, i, present)->Ok_0.1 && k < t.len() ==> t[k] == s[k],
    ensures
        spec_parse_forwarding(s, i, present)->Ok_0.1 <= t.len() ==> spec_parse_forwarding(
            t,
            i,
            present,
        ) == spec_parse_forwarding(s, i, present),
        t.len() < spec_parse_forwarding(s, i, present)->Ok_0.1 ==> spec_parse_forwarding(
            t,
            i,
            present,
        ) == Err::<
            (Option<(Seq<char>, u16, ForwardingProtocol, ForwardingOperationType)>, int),
            CalAmpError,
        >(CalAmpError::Eos),
{
    if present {
        if i + 1 <= t.len() {
            assert(t[i] == s[i]);
            let len = s[i];
            if len != 0 {
                let i1 = i + 1;
                if i1 + 4 <= t.len() {
                    assert(t.subrange(i1, i1 + 4) =~= s.subrange(i1, i1 + 4));
                    let i2 = i1 + 4;
                    if i2 + 2 <= t.len() {
                        assert(t[i2] == s[i2]);
                        assert(t[i2 + 1] == s[i2 + 1]);
                        let i3 = i2 + 2;
                        if i3 + 1 <= t.len() {
                            assert(t[i3] == s[i3]);
                            if i3 + 2 <= t.len() {
                                assert(t[i3 + 1] == s[i3 + 1]);
                            }
                        }
                    } else if i2 + 1 <= t.len() {
                        assert(t[i2] == s[i2]);
                    }
                }
            }
        }
    }
}

/// Locality of the redirection decode.
proof fn lemma_redirection_local(s: Seq<u8>, t: Seq<u8>, i: int, present: bool)
    requires
        0 <= i <= s.len(),
        i <= t.len(),
        spec_parse_redirection(s, i, present) is Ok,
        forall|k: int|
            i <= k < spec_parse_redirection(s, i, present)->Ok_0.1 && k < t.len() ==> t[k] == s[k],
    ensures
        spec_parse_redirection(s, i, present)->Ok_0.1 <= t.len() ==> spec_parse_redirection(
            t,
            i,
            present,
        ) == spec_parse_redirection(s, i, present),
        t.len() < spec_parse_redirection(s, i, present)->Ok_0.1 ==> spec_parse_redirection(
            t,
            i,
            present,
        ) == Err::<(Option<(Seq<char>, u16)>, int), CalAmpError>(CalAmpError::Eos),
{
    if present {
        if i + 4 <= t.len() {
            assert(t.subrange(i, i + 4) =~= s.subrange(i, i + 4));
            let i1 = i + 4;
            if i1 + 2 <= t.len() {
                assert(t[i1] == s[i1]);
                assert(t[i1 + 1] == s[i1 + 1]);
            }
        }
    }
}

/// Locality of the extension ESN decode.
proof fn lemma_ext_esn_local(s: Seq<u8>, t: Seq<u8>, i: int, present: bool)
    requires
        0 <= i <= s.len(),
        i <= t.len(),
        spec_parse_ext_esn(s, i, present) is Ok,
        forall|k: int|
            i <= k < spec_parse_ext_esn(s, i, present)->Ok_0.1 && k < t.len() ==> t[k] == s[k],
    ensures
        spec_parse_ext_esn(s, i, present)->Ok_0.1 <= t.len() ==> spec_parse_ext_esn(t, i, present)
            == spec_parse_ext_esn(s, i, present),
        t.len() < spec_parse_ext_esn(s, i, present)->Ok_0.1 ==> spec_parse_ext_esn(t, i, present)
            == Err::<(Option<Seq<char>>, int), CalAmpError>(CalAmpError::Eos),
{
    if present {
        if i + 1 <= t.len() {
            assert(t[i] == s[i]);
            let len = s[i];
            let i1 = i + 1;
            let i2 = i1 + len as int;
            if i2 <= t.len() {
                assert(t.subrange(i1, i2) =~= s.subrange(i1, i2));
            }
        }
    }
}

/// Locality of the extension VIN decode.
proof fn lemma_ext_vin_local(s: Seq<u8>, t: Seq<u8>, i: int, present: bool)
    requires
        0 <= i <= s.len(),
        i <= t.len(),
        spec_parse_ext_vin(s, i, present) is Ok,
        forall|k: int|
            i <= k < spec_parse_ext_vin(s, i, present)->Ok_0.1 && k < t.len() ==> t[k] == s[k],
    ensures
        spec_parse_ext_vin(s, i, present)->Ok_0.1 <= t.len() ==> spec_parse_ext_vin(t, i, present)
            == spec_parse_ext_vin(s, i, present),
        t.len() < spec_parse_ext_vin(s, i, present)->Ok_0.1 ==> spec_parse_ext_vin(t, i, present)
            == Err::<(Option<Seq<char>>, int), CalAmpError>(CalAmpError::Eos),
{
    if present {
        if i + 1 <= t.len() {
            assert(t[i] == s[i]);
            let i1 = i + 1;
            if i1 + 17 <= t.len() {
                assert(t.subrange(i1, i1 + 17) =~= s.subrange(i1, i1 + 17));
            }
        }
    }
}

/// Locality of the extension encryption decode.
proof fn lemma_ext_encryption_local(s: Seq<u8>, t: Seq<u8>, i: int, present: bool)
    requires
        0 <= i <= s.len(),
        i <= t.len(),
        spec_parse_ext_encryption(s, i, present) is Ok,
        forall|k: int|
            i <= k < spec_parse_ext_encryption(s, i, present)->Ok_0.1 && k < t.len() ==> t[k]
                == s[k],
    ensures
        spec_parse_ext_encryption(s, i, present)->Ok_0.1 <= t.len() ==> spec_parse_ext_encryption(
            t,
            i,
            present,
        ) == spec_parse_ext_encryption(s, i, present),
        t.len() < spec_parse_ext_encryption(s, i, present)->Ok_0.1 ==> spec_parse_ext_encryption(
            t,
            i,
            present,
        ) == Err::<(Option<(u8, u8, u8, u8)>, int), CalAmpError>(CalAmpError::Eos),
{
    if present {
        if i + 1 <= t.len() {
            assert(t[i] == s[i]);
            if i + 2 <= t.len() {
                assert(t[i + 1] == s[i + 1]);
                let i2 = i + 2;
                if i2 + 4 <= t.len() {
                    assert(t.subrange(i2, i2 + 4) =~= s.subrange(i2, i2 + 4));
                }
            }
        }
    }
}

/// Locality of the extension decode.
proof fn lemma_extension_local(s: Seq<u8>, t: Seq<u8>, i: int, present: bool)
    requires
        0 <= i <= s.len(),
        i <= t.len(),
        spec_parse_extension(s, i, present) is Ok,
        forall|k: int|
            i <= k < spec_parse_extension(s, i, present)->Ok_0.1 && k < t.len() ==> t[k] == s[k],
    ensures
        spec_parse_extension(s, i, present)->Ok_0.1 <= t.len() ==> spec_parse_extension(
            t,
            i,
            present,
        ) == spec_parse_extension(s, i, present),
        t.len() < spec_parse_extension(s, i, present)->Ok_0.1 ==> spec_parse_extension(
            t,
            i,
            present,
        ) == Err::<(Option<OptionExtensionView>, int), CalAmpError>(CalAmpError::Eos),
{
    if present {
        let j = spec_parse_extension(s, i, present)->Ok_0.1;
        if i + 1 <= t.len() {
            assert(t[i] == s[i]);
            if i + 2 <= t.len() {
                assert(t[i + 1] == s[i + 1]);
                let ebits = s[i + 1];
                let i2 = i + 2;
                let esn_present = (ebits & 1) == 1;
                let vin_present = ((ebits >> 1) & 1) == 1;
                let enc_present = ((ebits >> 2) & 1) == 1;
                let i3 = spec_parse_ext_esn(s, i2, esn_present)->Ok_0.1;
                let i4 = spec_parse_ext_vin(s, i3, vin_present)->Ok_0.1;
                lemma_ext_esn_bounds(s, i2, esn_present);
                lemma_ext_vin_bounds(s, i3, vin_present);
                lemma_ext_encryption_bounds(s, i4, enc_present);
                lemma_ext_esn_local(s, t, i2, esn_present);
                if i3 <= t.len() {
                    lemma_ext_vin_local(s, t, i3, vin_present);
                    if i4 <= t.len() {
                        lemma_ext_encryption_local(s, t, i4, enc_present);
                    }
                }
            }
        }
    }
}

/// Locality of the body decode: it is determined by the bytes it consumes,
/// and truncating them yields `Eos`.
proof fn lemma_options_body_local(s: Seq<u8>, t: Seq<u8>, bits: u8)
    requires
        1 <= s.len(),
        1 <= t.len(),
        spec_parse_options_body(s, bits) is Ok,
        forall|k: int|
            1 <= k < spec_parse_options_body(s, bits)->Ok_0.1 && k < t.len() ==> t[k] == s[k],
    ensures
        spec_parse_options_body(s, bits)->Ok_0.1 <= t.len() ==> spec_parse_options_body(t, bits)
            == spec_parse_options_body(s, bits),
        t.len() < spec_parse_options_body(s, bits)->Ok_0.1 ==> spec_parse_options_body(t, bits)
            == Err::<(OptionsHeaderView, int), CalAmpError>(CalAmpError::Eos),
{
    let eos = Err::<(OptionsHeaderView, int), CalAmpError>(CalAmpError::Eos);
    let auth_present = ((bits >> 2) & 1) == 1;
    let routing_present = ((bits >> 3) & 1) == 1;
    let fwd_present = ((bits >> 4) & 1) == 1;
    let red_present = ((bits >> 5) & 1) == 1;
    let ext_present = ((bits >> 6) & 1) == 1;
    let j = spec_parse_options_body(s, bits)->Ok_0.1;
    let i2 = spec_parse_mobile_id(s, 1, bits)->Ok_0.1;
    let i3 = spec_parse_bytes_block(s, i2, auth_present)->Ok_0.1;
    let i4 = spec_parse_bytes_block(s, i3, routing_present)->Ok_0.1;
    let i5 = spec_parse_forwarding(s, i4, fwd_present)->Ok_0.1;
    let i6 = spec_parse_redirection(s, i5, red_present)->Ok_0.1;
    lemma_mobile_id_bounds(s, 1, bits);
    lemma_bytes_block_bounds(s, i2, auth_present);
    lemma_bytes_block_bounds(s, i3, routing_present);
    lemma_forwarding_bounds(s, i4, fwd_present);
    lemma_redirection_bounds(s, i5, red_present);
    lemma_extension_bounds(s, i6, ext_present);
    lemma_mobile_id_local(s, t, 1, bits);
    if t.len() < i2 {
        assert(spec_parse_options_body(t, bits) == eos);
        assert(t.len() < j);
    } else {
        assert(spec_parse_mobile_id(t, 1, bits) == spec_parse_mobile_id(s, 1, bits));
        lemma_bytes_block_local(s, t, i2, auth_present);
        if t.len() < i3 {
            assert(spec_parse_options_body(t, bits) == eos);
            assert(t.len() < j);
        } else {
            assert(spec_parse_bytes_block(t, i2, auth_present) == spec_parse_bytes_block(
                s,
                i2,
                auth_present,
            ));
            lemma_bytes_block_local(s, t, i3, routing_present);
            if t.len() < i4 {
                assert(spec_parse_options_body(t, bits) == eos);
                assert(t.len() < j);
            } else {
                assert(spec_parse_bytes_block(t, i3, routing_present) == spec_parse_bytes_block(
                    s,
                    i3,
                    routing_present,
                ));
                lemma_forwarding_local(s, t, i4, fwd_present);
                if t.len() < i5 {
                    assert(spec_parse_options_body(t, bits) == eos);
                    assert(t.len() < j);
                } else {
                    assert(spec_parse_forwarding(t, i4, fwd_present) == spec_parse_forwarding(
                        s,
                        i4,
                        fwd_present,
                    ));
                    lemma_redirection_local(s, t, i5, red_present);
                    if t.len() < i6 {
                        assert(spec_parse_options_body(t, bits) == eos);
                        assert(t.len() < j);
                    } else {
                        assert(spec_parse_redirection(t, i5, red_present)
                            == spec_parse_redirection(s, i5, red_present));
                        lemma_extension_local(s, t, i6, ext_present);
                        if t.len() < j {
                            assert(spec_parse_options_body(t, bits) == eos);
                        } else {
                            assert(spec_parse_extension(t, i6, ext_present) == spec_parse_extension(
                                s,
                                i6,
                                ext_present,
                            ));
                            assert(spec_parse_options_body(t, bits) == spec_parse_options_body(
                                s,
                                bits,
                            ));
                        }
                    }
                }
            }
        }
    }
}

/// What an options header decode yields is determined by the consumed prefix
/// alone: any buffer that agrees with `s` on the consumed bytes decodes to
/// the same header with the same byte count, and any truncation of those
/// bytes fails with `Eos`.
pub proof fn lemma_options_parse_local(s: Seq<u8>, t: Seq<u8>)
    requires
        spec_parse_options_header(s) is Ok,
        forall|k: int|
            0 <= k < spec_parse_options_header(s)->Ok_0.1 && k < t.len() ==> t[k] == s[k],
    ensures
        spec_parse_options_header(s)->Ok_0.1 <= t.len() ==> spec_parse_options_header(t)
            == spec_parse_options_header(s),
        t.len() < spec_parse_options_header(s)->Ok_0.1 ==> spec_parse_options_header(t) == Err::<
            (OptionsHeaderView, int),
            CalAmpError,
        >(CalAmpError::Eos),
{
    lemma_options_consumed_bounds(s);
    if 1 <= t.len() {
        assert(t[0] == s[0]);
        let bits = s[0];
        if (bits >> 7) != 0 {
            lemma_options_body_local(s, t, bits);
        }
    }
}

/// Truncating a decodable buffer anywhere before its natural end makes the
/// decode fail with `Eos`: no truncation is silently misread.
#[verifier::rlimit(100)]
pub proof fn lemma_options_truncated_fails(s: Seq<u8>, m: int)
    requires
        spec_parse_options_header(s) is Ok,
        0 <= m < spec_parse_options_header(s)->Ok_0.1,
    ensures
        spec_parse_options_header(s.take(m)) == Err::<(OptionsHeaderView, int), CalAmpError>(
            CalAmpError::Eos,
        ),
{
    let t = s.take(m);
    assert(t.len() == m);
    assert forall|k: int|
        0 <= k < spec_parse_options_header(s)->Ok_0.1 && k < t.len() implies t[k] == s[k] by {}
    lemma_options_parse_local(s, t);
}

} // verus!
