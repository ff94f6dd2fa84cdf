//! A verified decoder for Network Time Protocol (NTP) packets.
//!
//! The decoder is a pure function from a byte buffer to a structured,
//! strongly typed record (or a typed error). It handles the fixed 48-byte
//! common header, the classification of the trailing bytes as absent /
//! authenticator-only / extensions-plus-authenticator, the repeated
//! decoding of extension fields, and the version-specific (v3 vs v4)
//! dispatch.

pub mod ntp;

pub use crate::ntp::classify_tail;
pub use crate::ntp::parse_extension_list;
pub use crate::ntp::parse_ntp;
pub use crate::ntp::parse_ntp_extension;
pub use crate::ntp::parse_ntp_header;
pub use crate::ntp::parse_ntp_mac;
pub use crate::ntp::parse_ntpv3;
pub use crate::ntp::parse_ntpv4;
pub use crate::ntp::try_parse_extensions;
pub use crate::ntp::DecodeError;
pub use crate::ntp::NtpExtension;
pub use crate::ntp::NtpHeader;
pub use crate::ntp::NtpMac;
pub use crate::ntp::NtpMode;
pub use crate::ntp::NtpPacket;
pub use crate::ntp::NtpV3Packet;
pub use crate::ntp::NtpV4Packet;
pub use crate::ntp::TailClass;
