//! NTP packet decoding: wire-format model, data types, and verified parsers.

use vstd::prelude::*;

verus! {

/// Why a decode attempt failed.
#[derive(Clone, Copy, Debug, PartialEq, Eq, Structural)]
pub enum DecodeError {
    /// Fewer bytes were available than a fixed or declared-length field requires.
    TruncatedInput,
    /// The byte count after the header falls in the unclassifiable 1..=19 range
    /// (v4), or is not one the profile accepts (v3).
    InvalidLength,
    /// The version field is outside {3, 4}.
    UnsupportedVersion,
}

/// The 3-bit NTP mode field (0 = reserved, 1 = symmetric active,
/// 2 = symmetric passive, 3 = client, 4 = server, 5 = broadcast,
/// 6 = NTP control message, 7 = private).
#[derive(Clone, Copy, Debug, PartialEq, Eq, Structural)]
pub struct NtpMode(pub u8);

/// How the bytes remaining after the 48-byte header are to be read
/// (NTPv4 profile).
#[derive(Clone, Copy, Debug, PartialEq, Eq, Structural)]
pub enum TailClass {
    /// No bytes remain: no extensions and no authenticator.
    NoTrailer,
    /// Exactly 20 bytes remain: they are the authenticator, no extensions.
    MacOnly,
    /// More than 20 bytes remain: extensions, then a 20-byte authenticator.
    ExtensionsAndMac,
    /// 1..=19 bytes remain: not decodable.
    Invalid,
}

/// Classification of a remaining byte count `r`.
///
/// NTP's wire format has no marker separating the extension list from the
/// trailing MAC; the only reliable signal is the total remaining length
/// combined with the MAC's fixed 20-byte size.
pub open spec fn spec_classify_tail(r: int) -> TailClass {
    if r == 0 {
        TailClass::NoTrailer
    } else if r == 20 {
        TailClass::MacOnly
    } else if r > 20 {
        TailClass::ExtensionsAndMac
    } else {
        TailClass::Invalid
    }
}

/// Decides which of {no trailer, authenticator-only,
/// extensions-then-authenticator, invalid} applies to a packet whose
/// remaining byte count after the header is `r`.
pub fn classify_tail(r: usize) -> (c: TailClass)
    ensures
        c == spec_classify_tail(r as int),
{
    if r == 0 {
        TailClass::NoTrailer
    } else if r == 20 {
        TailClass::MacOnly
    } else if r > 20 {
        TailClass::ExtensionsAndMac
    } else {
        TailClass::Invalid
    }
}

/// The big-endian 16-bit integer spelled by `s[off]` and `s[off + 1]`.
pub open spec fn spec_be_u16(s: Seq<u8>, off: int) -> u16
    recommends
        0 <= off,
        off + 2 <= s.len(),
{
    ((s[off] as int) * 0x100 + (s[off + 1] as int)) as u16
}

/// The big-endian 32-bit integer spelled by the four bytes at `off`.
pub open spec fn spec_be_u32(s: Seq<u8>, off: int) -> u32
    recommends
        0 <= off,
        off + 4 <= s.len(),
{
    ((spec_be_u16(s, off) as int) * 0x10000 + (spec_be_u16(s, off + 2) as int)) as u32
}

/// The big-endian 64-bit integer spelled by the eight bytes at `off`.
pub open spec fn spec_be_u64(s: Seq<u8>, off: int) -> u64
    recommends
        0 <= off,
        off + 8 <= s.len(),
{
    ((spec_be_u32(s, off) as int) * 0x1_0000_0000 + (spec_be_u32(s, off + 4) as int)) as u64
}

fn read_be_u16(i: &[u8], off: usize) -> (r: u16)
    requires
        off + 2 <= i.len(),
    ensures
        r == spec_be_u16(i@, off as int),
{
    (i[off] as u16) * 0x100 + (i[off + 1] as u16)
}

fn read_be_u32(i: &[u8], off: usize) -> (r: u32)
    requires
        off + 4 <= i.len(),
    ensures
        r == spec_be_u32(i@, off as int),
{
    (read_be_u16(i, off) as u32) * 0x10000 + (read_be_u16(i, off + 2) as u32)
}

fn read_be_u64(i: &[u8], off: usize) -> (r: u64)
    requires
        off + 8 <= i.len(),
    ensures
        r == spec_be_u64(i@, off as int),
{
    (read_be_u32(i, off) as u64) * 0x1_0000_0000 + (read_be_u32(i, off + 4) as u64)
}

/// The fixed 48-byte common header shared by NTPv3 and NTPv4 packets.
#[derive(Clone, Copy, Debug, PartialEq, Eq, Structural)]
pub struct NtpHeader {
    /// 2-bit leap indicator (bits 7-6 of byte 0).
    pub li: u8,
    /// 3-bit version number (bits 5-3 of byte 0).
    pub version: u8,
    /// 3-bit mode (bits 2-0 of byte 0).
    pub mode: NtpMode,
    pub stratum: u8,
    /// Polling interval, signed log2 seconds.
    pub poll: i8,
    /// Clock precision, signed log2 seconds.
    pub precision: i8,
    /// 16.16 fixed-point seconds.
    pub root_delay: u32,
    /// 16.16 fixed-point seconds.
    pub root_dispersion: u32,
    pub ref_id: u32,
    /// 32.32 fixed-point seconds since the NTP epoch.
    pub ts_ref: u64,
    pub ts_orig: u64,
    pub ts_recv: u64,
    pub ts_xmit: u64,
}

/// The leap-indicator bits of byte 0.
pub open spec fn spec_li(b0: u8) -> u8 {
    b0 >> 6
}

/// The version bits of byte 0.
pub open spec fn spec_version(b0: u8) -> u8 {
    (b0 >> 3) & 0b111
}

/// The mode bits of byte 0.
pub open spec fn spec_mode(b0: u8) -> u8 {
    b0 & 0b111
}

/// The header spelled by the first 48 bytes of `s`.
pub open spec fn spec_header(s: Seq<u8>) -> NtpHeader
    recommends
        s.len() >= 48,
{
    NtpHeader {
        li: spec_li(s[0]),
        version: spec_version(s[0]),
        mode: NtpMode(spec_mode(s[0])),
        stratum: s[1],
        poll: s[2] as i8,
        precision: s[3] as i8,
        root_delay: spec_be_u32(s, 4),
        root_dispersion: spec_be_u32(s, 8),
        ref_id: spec_be_u32(s, 12),
        ts_ref: spec_be_u64(s, 16),
        ts_orig: spec_be_u64(s, 24),
        ts_recv: spec_be_u64(s, 32),
        ts_xmit: spec_be_u64(s, 40),
    }
}

/// Decodes the fixed 48-byte common header; consumes exactly 48 bytes on
/// success and fails with `TruncatedInput` when fewer than 48 bytes are
/// available.
pub fn parse_ntp_header(i: &[u8]) -> (r: Result<NtpHeader, DecodeError>)
    ensures
        i@.len() >= 48 ==> r == Ok::<NtpHeader, DecodeError>(spec_header(i@)),
        i@.len() < 48 ==> r == Err::<NtpHeader, DecodeError>(DecodeError::TruncatedInput),
{
    if i.len() < 48 {
        return Err(DecodeError::TruncatedInput);
    }
    let b0 = i[0];
    Ok(NtpHeader {
        li: b0 >> 6,
        version: (b0 >> 3) & 0b111,
        mode: NtpMode(b0 & 0b111),
        stratum: i[1],
        poll: i[2] as i8,
        precision: i[3] as i8,
        root_delay: read_be_u32(i, 4),
        root_dispersion: read_be_u32(i, 8),
        ref_id: read_be_u32(i, 12),
        ts_ref: read_be_u64(i, 16),
        ts_orig: read_be_u64(i, 24),
        ts_recv: read_be_u64(i, 32),
        ts_xmit: read_be_u64(i, 40),
    })
}

/// The leap indicator, version and mode of a decoded header are within
/// their bit-width ranges by construction.
pub proof fn lemma_header_fields_in_range(s: Seq<u8>)
    ensures
        spec_header(s).li <= 3,
        spec_header(s).version <= 7,
        spec_header(s).mode.0 <= 7,
{
    let b0 = s[0];
    assert(b0 >> 6 <= 3) by (bit_vector);
    assert((b0 >> 3) & 0b111 <= 7) by (bit_vector);
    assert(b0 & 0b111 <= 7) by (bit_vector);
}

/// One NTPv4 extension field (RFC 7822 type-length-value layout).
///
/// `value` is an eager copy of the value and padding bytes, so the decoded
/// record does not borrow from the input buffer.
#[derive(Clone, Debug, PartialEq, Eq)]
pub struct NtpExtension {
    pub field_type: u16,
    /// The wire-declared total field length, including the 4-byte
    /// type-length header itself.
    pub length: u16,
    pub value: Vec<u8>,
}

/// The mathematical shape of one extension field.
#[verifier::ext_equal]
pub ghost struct NtpExtensionView {
    pub field_type: u16,
    pub length: u16,
    pub value: Seq<u8>,
}

impl View for NtpExtension {
    type V = NtpExtensionView;

    open spec fn view(&self) -> NtpExtensionView {
        NtpExtensionView {
            field_type: self.field_type,
            length: self.length,
            value: self.value@,
        }
    }
}

/// The 20-byte NTPv4 message authentication code: a key identifier
/// followed by a 16-byte digest.
#[derive(Clone, Debug, PartialEq, Eq)]
pub struct NtpMac {
    pub key_id: u32,
    /// The 16 digest bytes, copied out of the input buffer.
    pub mac: Vec<u8>,
}

/// The mathematical shape of the authentication block.
#[verifier::ext_equal]
pub ghost struct NtpMacView {
    pub key_id: u32,
    pub mac: Seq<u8>,
}

impl View for NtpMac {
    type V = NtpMacView;

    open spec fn view(&self) -> NtpMacView {
        NtpMacView { key_id: self.key_id, mac: self.mac@ }
    }
}

/// The authentication block spelled by a 20-byte sequence.
pub open spec fn spec_parse_mac(s: Seq<u8>) -> NtpMacView
    recommends
        s.len() == 20,
{
    NtpMacView { key_id: spec_be_u32(s, 0), mac: s.subrange(4, 20) }
}

/// Decodes the fixed-size trailing authentication block: `key_id` followed
/// by 16 digest bytes. Being handed fewer than 20 bytes indicates a
/// classifier or caller invariant violation and fails with
/// `TruncatedInput` rather than silently truncating.
pub fn parse_ntp_mac(i: &[u8]) -> (r: Result<NtpMac, DecodeError>)
    ensures
        match r {
            Ok(m) => i@.len() >= 20 && m@ == spec_parse_mac(i@.subrange(0, 20)),
            Err(e) => i@.len() < 20 && e == DecodeError::TruncatedInput,
        },
{
    if i.len() < 20 {
        return Err(DecodeError::TruncatedInput);
    }
    let key_id = read_be_u32(i, 0);
    let digest = vstd::slice::slice_to_vec(vstd::slice::slice_subrange(i, 4, 20));
    let m = NtpMac { key_id, mac: digest };
    proof {
        let t = i@.subrange(0, 20);
        assert(t.subrange(4, 20) =~= i@.subrange(4, 20));
        assert(spec_be_u32(t, 0) == spec_be_u32(i@, 0));
    }
    Ok(m)
}

/// How many value-and-padding bytes follow the 4-byte extension header
/// when the wire declares a total field length of `length`.
pub open spec fn spec_ext_value_len(length: u16) -> int {
    if length >= 4 {
        length - 4
    } else {
        0
    }
}

/// The total number of bytes one extension field occupies: its 4-byte
/// header plus its value and padding.
pub open spec fn spec_ext_size(length: u16) -> int {
    4 + spec_ext_value_len(length)
}

/// The first extension field of `s` together with the number of bytes it
/// occupies, or `None` when `s` is too short for the declared length.
pub open spec fn spec_parse_extension(s: Seq<u8>) -> Option<(NtpExtensionView, int)> {
    if s.len() < 4 {
        None
    } else {
        let length = spec_be_u16(s, 2);
        let size = spec_ext_size(length);
        if s.len() < size {
            None
        } else {
            Some(
                (
                    NtpExtensionView {
                        field_type: spec_be_u16(s, 0),
                        length,
                        value: s.subrange(4, size),
                    },
                    size,
                ),
            )
        }
    }
}

/// Decodes one extension field from the front of `i` and returns it with
/// the number of bytes it consumed. Fails with `TruncatedInput` when the
/// buffer is shorter than the field's declared length.
pub fn parse_ntp_extension(i: &[u8]) -> (r: Result<(NtpExtension, usize), DecodeError>)
    ensures
        match r {
            Ok((ext, consumed)) => {
                &&& spec_parse_extension(i@) == Some((ext@, consumed as int))
                &&& 4 <= consumed <= i@.len()
            },
            Err(e) => spec_parse_extension(i@) is None && e == DecodeError::TruncatedInput,
        },
{
    if i.len() < 4 {
        return Err(DecodeError::TruncatedInput);
    }
    let field_type = read_be_u16(i, 0);
    let length = read_be_u16(i, 2);
    let value_len: usize = if length >= 4 {
        (length - 4) as usize
    } else {
        0
    };
    let size = 4 + value_len;
    if i.len() < size {
        return Err(DecodeError::TruncatedInput);
    }
    let value = vstd::slice::slice_to_vec(vstd::slice::slice_subrange(i, 4, size));
    Ok((NtpExtension { field_type, length, value }, size))
}

/// The views of the extension fields in `v`, in the same order.
pub open spec fn spec_exts_view(v: Seq<NtpExtension>) -> Seq<NtpExtensionView> {
    v.map_values(|e: NtpExtension| e@)
}

/// The full run of extension fields spelled by `s`, in wire order, or
/// `None` when some declared length reads past the end of `s`. An empty
/// `s` spells the empty run.
pub open spec fn spec_parse_extensions(s: Seq<u8>) -> Option<Seq<NtpExtensionView>>
    decreases s.len(),
{
    if s.len() == 0 {
        Some(Seq::empty())
    } else {
        match spec_parse_extension(s) {
            None => None,
            Some((e, size)) => match spec_parse_extensions(s.subrange(size, s.len() as int)) {
                None => None,
                Some(rest) => Some(seq![e] + rest),
            },
        }
    }
}

/// `prefix` followed by the run that `s` spells, or `None` when `s` does
/// not spell a full run.
pub open spec fn spec_parsed_after(prefix: Seq<NtpExtensionView>, s: Seq<u8>) -> Option<
    Seq<NtpExtensionView>,
> {
    match spec_parse_extensions(s) {
        None => None,
        Some(rest) => Some(prefix + rest),
    }
}

/// Decodes the run of extension fields that fills `i` exactly, preserving
/// wire order. `i` must already be the sub-buffer carved out in front of
/// the authenticator, so a declared length can never read into the
/// authenticator bytes. Fails with `TruncatedInput` when a declared
/// length reads past the end of `i`.
pub fn parse_extension_list(i: &[u8]) -> (r: Result<Vec<NtpExtension>, DecodeError>)
    ensures
        match r {
            Ok(exts) => spec_parse_extensions(i@) == Some(spec_exts_view(exts@)),
            Err(e) => spec_parse_extensions(i@) is None && e == DecodeError::TruncatedInput,
        },
{
    let mut exts: Vec<NtpExtension> = Vec::new();
    let mut pos: usize = 0;
    proof {
        assert(i@.subrange(0, i@.len() as int) =~= i@);
        assert(spec_exts_view(exts@) =~= Seq::<NtpExtensionView>::empty());
        if let Some(r0) = spec_parse_extensions(i@) {
            assert(spec_exts_view(exts@) + r0 =~= r0);
        }
    }
    while pos < i.len()
        invariant
            pos <= i.len(),
            spec_parse_extensions(i@) == spec_parsed_after(
                spec_exts_view(exts@),
                i@.subrange(pos as int, i@.len() as int),
            ),
        decreases i@.len() - pos,
    {
        let ghost sub = i@.subrange(pos as int, i@.len() as int);
        let tail = vstd::slice::slice_subrange(i, pos, i.len());
        match parse_ntp_extension(tail) {
            Err(_) => {
                proof {
                    assert(spec_parse_extensions(sub) is None);
                }
                return Err(DecodeError::TruncatedInput);
            },
            Ok((ext, consumed)) => {
                proof {
                    let prefix = spec_exts_view(exts@);
                    let sub2 = i@.subrange(pos + consumed, i@.len() as int);
                    assert(sub2 =~= sub.subrange(consumed as int, sub.len() as int));
                    assert(spec_exts_view(exts@.push(ext)) =~= prefix + seq![ext@]);
                    match spec_parse_extensions(sub2) {
                        Some(rest) => {
                            assert(spec_parse_extensions(sub) == Some(seq![ext@] + rest));
                            assert((prefix + seq![ext@]) + rest =~= prefix + (seq![ext@] + rest));
                        },
                        None => {
                            assert(spec_parse_extensions(sub) is None);
                        },
                    }
                }
                exts.push(ext);
                pos = pos + consumed;
            },
        }
    }
    proof {
        assert(i@.subrange(pos as int, i@.len() as int) =~= Seq::<u8>::empty());
        assert(spec_exts_view(exts@) + Seq::<NtpExtensionView>::empty() =~= spec_exts_view(
            exts@,
        ));
    }
    Ok(exts)
}

/// What the split of a post-header tail `s` into extensions and
/// authenticator bytes yields: the extension run and the byte count it
/// occupies.
pub open spec fn spec_try_parse_extensions(s: Seq<u8>) -> Result<
    (Seq<NtpExtensionView>, int),
    DecodeError,
> {
    match spec_classify_tail(s.len() as int) {
        TailClass::NoTrailer | TailClass::MacOnly => Ok((Seq::<NtpExtensionView>::empty(), 0)),
        TailClass::Invalid => Err(DecodeError::InvalidLength),
        TailClass::ExtensionsAndMac => match spec_parse_extensions(
            s.subrange(0, s.len() - 20),
        ) {
            None => Err(DecodeError::TruncatedInput),
            Some(exts) => Ok((exts, s.len() - 20)),
        },
    }
}

/// Splits the bytes remaining after the 48-byte header into the extension
/// run and the bytes left for the authenticator: a tail of 0 or 20 bytes
/// holds no extensions; a tail of more than 20 bytes holds extensions on
/// all but its final 20 bytes; a tail of 1..=19 bytes is `InvalidLength`.
/// Returns the decoded extensions and the byte count they occupied.
pub fn try_parse_extensions(i: &[u8]) -> (r: Result<(Vec<NtpExtension>, usize), DecodeError>)
    ensures
        match r {
            Ok((exts, consumed)) => {
                &&& spec_try_parse_extensions(i@) == Ok::<
                    (Seq<NtpExtensionView>, int),
                    DecodeError,
                >((spec_exts_view(exts@), consumed as int))
                &&& consumed <= i@.len()
                &&& i@.len() - consumed == 0 || i@.len() - consumed == 20
            },
            Err(e) => spec_try_parse_extensions(i@) == Err::<
                (Seq<NtpExtensionView>, int),
                DecodeError,
            >(e),
        },
{
    match classify_tail(i.len()) {
        TailClass::NoTrailer | TailClass::MacOnly => {
            let exts: Vec<NtpExtension> = Vec::new();
            proof {
                assert(spec_exts_view(exts@) =~= Seq::<NtpExtensionView>::empty());
            }
            Ok((exts, 0))
        },
        TailClass::Invalid => Err(DecodeError::InvalidLength),
        TailClass::ExtensionsAndMac => {
            let sub = vstd::slice::slice_subrange(i, 0, i.len() - 20);
            match parse_extension_list(sub) {
                Ok(exts) => Ok((exts, i.len() - 20)),
                Err(e) => Err(e),
            }
        },
    }
}

/// A decoded NTP version 3 packet (RFC 1305).
#[derive(Clone, Debug, PartialEq, Eq)]
pub struct NtpV3Packet {
    pub li: u8,
    pub version: u8,
    pub mode: NtpMode,
    pub stratum: u8,
    pub poll: i8,
    pub precision: i8,
    pub root_delay: u32,
    pub root_dispersion: u32,
    pub ref_id: u32,
    pub ts_ref: u64,
    pub ts_orig: u64,
    pub ts_recv: u64,
    pub ts_xmit: u64,
    /// The raw 12-byte legacy authenticator block, present if and only if
    /// exactly 12 bytes remain after the header; copied out of the input
    /// buffer and not further structured.
    pub authenticator: Option<Vec<u8>>,
}

/// The mathematical shape of an NTPv3 packet.
#[verifier::ext_equal]
pub ghost struct NtpV3PacketView {
    pub li: u8,
    pub version: u8,
    pub mode: NtpMode,
    pub stratum: u8,
    pub poll: i8,
    pub precision: i8,
    pub root_delay: u32,
    pub root_dispersion: u32,
    pub ref_id: u32,
    pub ts_ref: u64,
    pub ts_orig: u64,
    pub ts_recv: u64,
    pub ts_xmit: u64,
    pub authenticator: Option<Seq<u8>>,
}

impl View for NtpV3Packet {
    type V = NtpV3PacketView;

    open spec fn view(&self) -> NtpV3PacketView {
        NtpV3PacketView {
            li: self.li,
            version: self.version,
            mode: self.mode,
            stratum: self.stratum,
            poll: self.poll,
            precision: self.precision,
            root_delay: self.root_delay,
            root_dispersion: self.root_dispersion,
            ref_id: self.ref_id,
            ts_ref: self.ts_ref,
            ts_orig: self.ts_orig,
            ts_recv: self.ts_recv,
            ts_xmit: self.ts_xmit,
            authenticator: match self.authenticator {
                Some(a) => Some(a@),
                None => None,
            },
        }
    }
}

/// A decoded NTP version 4 packet (RFC 5905).
#[derive(Clone, Debug, PartialEq, Eq)]
pub struct NtpV4Packet {
    pub li: u8,
    pub version: u8,
    pub mode: NtpMode,
    pub stratum: u8,
    pub poll: i8,
    pub precision: i8,
    pub root_delay: u32,
    pub root_dispersion: u32,
    pub ref_id: u32,
    pub ts_ref: u64,
    pub ts_orig: u64,
    pub ts_recv: u64,
    pub ts_xmit: u64,
    /// The extension fields, in wire order; empty exactly when 0 or 20
    /// bytes remain after the header.
    pub extensions: Vec<NtpExtension>,
    /// The trailing message authentication code, present if and only if
    /// any bytes remain after the header.
    pub auth: Option<NtpMac>,
}

/// The mathematical shape of an NTPv4 packet.
#[verifier::ext_equal]
pub ghost struct NtpV4PacketView {
    pub li: u8,
    pub version: u8,
    pub mode: NtpMode,
    pub stratum: u8,
    pub poll: i8,
    pub precision: i8,
    pub root_delay: u32,
    pub root_dispersion: u32,
    pub ref_id: u32,
    pub ts_ref: u64,
    pub ts_orig: u64,
    pub ts_recv: u64,
    pub ts_xmit: u64,
    pub extensions: Seq<NtpExtensionView>,
    pub auth: Option<NtpMacView>,
}

impl View for NtpV4Packet {
    type V = NtpV4PacketView;

    open spec fn view(&self) -> NtpV4PacketView {
        NtpV4PacketView {
            li: self.li,
            version: self.version,
            mode: self.mode,
            stratum: self.stratum,
            poll: self.poll,
            precision: self.precision,
            root_delay: self.root_delay,
            root_dispersion: self.root_dispersion,
            ref_id: self.ref_id,
            ts_ref: self.ts_ref,
            ts_orig: self.ts_orig,
            ts_recv: self.ts_recv,
            ts_xmit: self.ts_xmit,
            extensions: spec_exts_view(self.extensions@),
            auth: match self.auth {
                Some(m) => Some(m@),
                None => None,
            },
        }
    }
}

/// A decoded NTP packet, version 3 or 4.
#[derive(Debug, PartialEq, Eq)]
pub enum NtpPacket {
    V3(NtpV3Packet),
    V4(NtpV4Packet),
}

/// The mathematical shape of a decoded NTP packet.
#[verifier::ext_equal]
pub ghost enum NtpPacketView {
    V3(NtpV3PacketView),
    V4(NtpV4PacketView),
}

impl View for NtpPacket {
    type V = NtpPacketView;

    open spec fn view(&self) -> NtpPacketView {
        match self {
            NtpPacket::V3(p) => NtpPacketView::V3(p@),
            NtpPacket::V4(p) => NtpPacketView::V4(p@),
        }
    }
}

/// The NTPv3 packet made of header `h` and legacy authenticator `auth`.
pub open spec fn spec_v3_packet(h: NtpHeader, auth: Option<Seq<u8>>) -> NtpV3PacketView {
    NtpV3PacketView {
        li: h.li,
        version: h.version,
        mode: h.mode,
        stratum: h.stratum,
        poll: h.poll,
        precision: h.precision,
        root_delay: h.root_delay,
        root_dispersion: h.root_dispersion,
        ref_id: h.ref_id,
        ts_ref: h.ts_ref,
        ts_orig: h.ts_orig,
        ts_recv: h.ts_recv,
        ts_xmit: h.ts_xmit,
        authenticator: auth,
    }
}

/// The NTPv4 packet made of header `h`, extension run `exts` and
/// authenticator `auth`.
pub open spec fn spec_v4_packet(
    h: NtpHeader,
    exts: Seq<NtpExtensionView>,
    auth: Option<NtpMacView>,
) -> NtpV4PacketView {
    NtpV4PacketView {
        li: h.li,
        version: h.version,
        mode: h.mode,
        stratum: h.stratum,
        poll: h.poll,
        precision: h.precision,
        root_delay: h.root_delay,
        root_dispersion: h.root_dispersion,
        ref_id: h.ref_id,
        ts_ref: h.ts_ref,
        ts_orig: h.ts_orig,
        ts_recv: h.ts_recv,
        ts_xmit: h.ts_xmit,
        extensions: exts,
        auth,
    }
}

/// The NTPv3 packet spelled by `s`: the 48-byte header, then either
/// nothing or an exactly 12-byte legacy authenticator.
pub open spec fn spec_parse_ntpv3(s: Seq<u8>) -> Result<NtpV3PacketView, DecodeError> {
    if s.len() < 48 {
        Err(DecodeError::TruncatedInput)
    } else if s.len() == 48 {
        Ok(spec_v3_packet(spec_header(s), None))
    } else if s.len() == 60 {
        Ok(spec_v3_packet(spec_header(s), Some(s.subrange(48, 60))))
    } else {
        Err(DecodeError::InvalidLength)
    }
}

/// The NTPv4 packet spelled by `s`: the 48-byte header, then the
/// extension run and the 20-byte authenticator as the tail classification
/// dictates.
pub open spec fn spec_parse_ntpv4(s: Seq<u8>) -> Result<NtpV4PacketView, DecodeError> {
    if s.len() < 48 {
        Err(DecodeError::TruncatedInput)
    } else {
        let tail = s.subrange(48, s.len() as int);
        match spec_try_parse_extensions(tail) {
            Err(e) => Err(e),
            Ok((exts, used)) => {
                let auth = if tail.len() == used {
                    None
                } else {
                    Some(spec_parse_mac(tail.subrange(used, tail.len() as int)))
                };
                Ok(spec_v4_packet(spec_header(s), exts, auth))
            },
        }
    }
}

/// The NTP packet spelled by `s`: version 3 and 4 packets as their
/// profiles dictate, `UnsupportedVersion` for every other version field.
pub open spec fn spec_parse_ntp(s: Seq<u8>) -> Result<NtpPacketView, DecodeError> {
    if s.len() == 0 {
        Err(DecodeError::TruncatedInput)
    } else if spec_version(s[0]) == 3 {
        match spec_parse_ntpv3(s) {
            Ok(p) => Ok(NtpPacketView::V3(p)),
            Err(e) => Err(e),
        }
    } else if spec_version(s[0]) == 4 {
        match spec_parse_ntpv4(s) {
            Ok(p) => Ok(NtpPacketView::V4(p)),
            Err(e) => Err(e),
        }
    } else {
        Err(DecodeError::UnsupportedVersion)
    }
}

/// Decodes an NTP version 3 packet: the 48-byte header, then either no
/// trailing bytes or an exactly 12-byte legacy authenticator. Returns the
/// packet and the number of bytes consumed.
pub fn parse_ntpv3(i: &[u8]) -> (r: Result<(NtpV3Packet, usize), DecodeError>)
    ensures
        match r {
            Ok((p, consumed)) => {
                &&& spec_parse_ntpv3(i@) == Ok::<NtpV3PacketView, DecodeError>(p@)
                &&& consumed == i@.len()
            },
            Err(e) => spec_parse_ntpv3(i@) == Err::<NtpV3PacketView, DecodeError>(e),
        },
{
    let h = match parse_ntp_header(i) {
        Ok(h) => h,
        Err(e) => return Err(e),
    };
    let rem = i.len() - 48;
    let authenticator: Option<Vec<u8>> = if rem == 0 {
        None
    } else if rem == 12 {
        Some(vstd::slice::slice_to_vec(vstd::slice::slice_subrange(i, 48, 60)))
    } else {
        return Err(DecodeError::InvalidLength);
    };
    let p = NtpV3Packet {
        li: h.li,
        version: h.version,
        mode: h.mode,
        stratum: h.stratum,
        poll: h.poll,
        precision: h.precision,
        root_delay: h.root_delay,
        root_dispersion: h.root_dispersion,
        ref_id: h.ref_id,
        ts_ref: h.ts_ref,
        ts_orig: h.ts_orig,
        ts_recv: h.ts_recv,
        ts_xmit: h.ts_xmit,
        authenticator,
    };
    Ok((p, i.len()))
}

/// Decodes an NTP version 4 packet: the 48-byte header, then the
/// extension run and the 20-byte authenticator as the tail classification
/// dictates. Returns the packet and the number of bytes consumed.
pub fn parse_ntpv4(i: &[u8]) -> (r: Result<(NtpV4Packet, usize), DecodeError>)
    ensures
        match r {
            Ok((p, consumed)) => {
                &&& spec_parse_ntpv4(i@) == Ok::<NtpV4PacketView, DecodeError>(p@)
                &&& consumed == i@.len()
            },
            Err(e) => spec_parse_ntpv4(i@) == Err::<NtpV4PacketView, DecodeError>(e),
        },
{
    let h = match parse_ntp_header(i) {
        Ok(h) => h,
        Err(e) => return Err(e),
    };
    let tail = vstd::slice::slice_subrange(i, 48, i.len());
    let (exts, used) = match try_parse_extensions(tail) {
        Ok(p) => p,
        Err(e) => return Err(e),
    };
    let auth: Option<NtpMac> = if tail.len() == used {
        None
    } else {
        let mac_sub = vstd::slice::slice_subrange(tail, used, tail.len());
        match parse_ntp_mac(mac_sub) {
            Ok(m) => {
                proof {
                    assert(mac_sub@.subrange(0, 20) =~= tail@.subrange(
                        used as int,
                        tail@.len() as int,
                    ));
                }
                Some(m)
            },
            Err(_) => {
                // the classification left exactly 20 bytes, so the
                // authenticator decoder cannot run short here
                proof {
                    assert(false);
                }
                None
            },
        }
    };
    let p = NtpV4Packet {
        li: h.li,
        version: h.version,
        mode: h.mode,
        stratum: h.stratum,
        poll: h.poll,
        precision: h.precision,
        root_delay: h.root_delay,
        root_dispersion: h.root_dispersion,
        ref_id: h.ref_id,
        ts_ref: h.ts_ref,
        ts_orig: h.ts_orig,
        ts_recv: h.ts_recv,
        ts_xmit: h.ts_xmit,
        extensions: exts,
        auth,
    };
    Ok((p, i.len()))
}

/// Decodes an NTP packet, version 3 or 4: inspects the version bits of
/// byte 0, dispatches to the matching profile, and fails with
/// `UnsupportedVersion` on every other version. Returns the packet and
/// the number of bytes consumed.
pub fn parse_ntp(i: &[u8]) -> (r: Result<(NtpPacket, usize), DecodeError>)
    ensures
        match r {
            Ok((p, consumed)) => {
                &&& spec_parse_ntp(i@) == Ok::<NtpPacketView, DecodeError>(p@)
                &&& consumed == i@.len()
            },
            Err(e) => spec_parse_ntp(i@) == Err::<NtpPacketView, DecodeError>(e),
        },
{
    if i.len() == 0 {
        return Err(DecodeError::TruncatedInput);
    }
    let version = (i[0] >> 3) & 0b111;
    if version == 3 {
        match parse_ntpv3(i) {
            Ok((p, consumed)) => Ok((NtpPacket::V3(p), consumed)),
            Err(e) => Err(e),
        }
    } else if version == 4 {
        match parse_ntpv4(i) {
            Ok((p, consumed)) => Ok((NtpPacket::V4(p), consumed)),
            Err(e) => Err(e),
        }
    } else {
        Err(DecodeError::UnsupportedVersion)
    }
}

/// Law: every successfully decoded packet has `li` within 0..=3 and
/// `version` and `mode` within 0..=7. The ranges hold by construction:
/// no out-of-range decode is representable.
pub proof fn lemma_decoded_fields_in_range(s: Seq<u8>)
    ensures
        spec_parse_ntp(s) matches Ok(p) ==> match p {
            NtpPacketView::V3(p3) => p3.li <= 3 && p3.version <= 7 && p3.mode.0 <= 7,
            NtpPacketView::V4(p4) => p4.li <= 3 && p4.version <= 7 && p4.mode.0 <= 7,
        },
{
    if spec_parse_ntp(s) is Ok {
        lemma_header_fields_in_range(s);
    }
}

/// Law: a v4 buffer of at least 48 bytes whose remaining length is
/// classified as valid decodes successfully, provided that, when the
/// classification calls for extensions, the extension region spells a
/// full run. Together with the decoder's postcondition this pins the
/// consumed byte count to the whole buffer, 48 bytes plus the trailer.
pub proof fn lemma_valid_tail_decodes(s: Seq<u8>)
    requires
        s.len() >= 48,
        spec_version(s[0]) == 4,
        spec_classify_tail(s.len() - 48) != TailClass::Invalid,
        spec_classify_tail(s.len() - 48) == TailClass::ExtensionsAndMac ==> spec_parse_extensions(
            s.subrange(48, s.len() - 20),
        ) is Some,
    ensures
        spec_parse_ntp(s) is Ok,
{
    let tail = s.subrange(48, s.len() as int);
    if spec_classify_tail(tail.len() as int) == TailClass::ExtensionsAndMac {
        assert(tail.subrange(0, tail.len() - 20) =~= s.subrange(48, s.len() - 20));
    }
}

/// Law: a decoded v4 packet's extension list is empty exactly when 0 or
/// 20 bytes remain after the header: extensions are never
/// empty-but-present with nonzero unexplained bytes.
pub proof fn lemma_extensions_empty_iff(s: Seq<u8>)
    requires
        spec_parse_ntpv4(s) is Ok,
    ensures
        spec_parse_ntpv4(s)->Ok_0.extensions.len() == 0 <==> (s.len() == 48 || s.len() == 68),
{
    if s.len() > 68 {
        let tail = s.subrange(48, s.len() as int);
        let region = tail.subrange(0, tail.len() - 20);
        assert(region.len() > 0);
        assert(spec_parse_extensions(region) is Some);
        assert(spec_parse_extensions(region)->Some_0.len() > 0);
    }
}

} // verus!
