pub mod ipfix;

pub use ipfix::IpfixParser;
