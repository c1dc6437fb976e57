//! Typed values and a verified wire-format encoder for the IMAP QUOTA
//! extension: resource names, quota entries, the three quota commands and the
//! two quota response lines, each rendered as the exact byte sequence the
//! protocol grammar prescribes.

pub mod astring;
pub mod atom;
pub mod command;
pub mod encode;
pub mod laws;
pub mod numbers;
pub mod quota;
pub mod response;

pub use astring::AString;
pub use atom::Atom;
pub use atom::TokenError;
pub use command::CommandBody;
pub use encode::Encode;
pub use response::Data;
pub use quota::QuotaResource;
pub use quota::QuotaResourceName;
pub use quota::SetQuotaResource;
