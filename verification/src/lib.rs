//! A debug-server engine for the GDB Remote Serial Protocol.
//!
//! The crate brokers the wire protocol between a debugger and a debuggable
//! target: it frames and checks packets, parses commands into a typed command
//! set, serialises responses, and runs the execution-control state machine
//! that interleaves command handling with target stepping. Transport and
//! target are supplied by the user through the [`Connection`] and [`Target`]
//! traits.

pub mod connection;
pub mod error;
pub mod history;
pub mod protocol;
pub mod session;
pub mod stub;
pub mod target;

pub use connection::{Connection, ReceiveMode};
pub use error::Error;
pub use session::{Arrival, ExecState, Reaction, Session};
pub use stub::{Cycle, GdbStub};
pub use target::{AccessKind, MemoryAccess, Steps, Target, TargetState};
