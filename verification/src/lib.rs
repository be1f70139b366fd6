//! A collector for IPFIX (RFC 7011) flow records.
//!
//! A datagram is parsed into a packet of sets ([`ipfix::parse`]). A
//! [`ipfix::Session`] keeps the templates that the packets bring and hands
//! each data record, with the fields of its template, to a projector: the
//! [`produce::IpfixParser`] makes canonical flows ([`fluss::Fluss`]) of
//! them, the [`ipfix::FieldParser`] decodes every field by a dictionary.
//!
//! What each function computes is stated over sequences of bytes and proved
//! with Verus.

pub mod addr;
pub mod fluss;
pub mod ipfix;
pub mod produce;
pub mod protocol;
