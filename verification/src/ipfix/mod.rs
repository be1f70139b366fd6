pub mod dictionary;
pub mod parser;
pub mod session;

pub use parser::{parse, Packet};
pub use session::{DebugParser, FieldParser, Parser, Session};
