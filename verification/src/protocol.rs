//! The wire protocol: hexadecimal fields, packet framing, the command set and
//! the response writer.

pub mod ascii;
pub mod commands;
pub mod fields;
pub mod hex;
pub mod packet;
pub mod response_writer;
pub mod wire;

pub use commands::{Command, ParseError};
pub use packet::{Packet, PacketError};
pub use response_writer::ResponseWriter;
