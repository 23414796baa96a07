//! Core of an AT-command gateway: a verified command/response framing engine,
//! notification (URC) classification and fan-out, a WebSocket session state
//! machine with an authentication gate, configuration parsing, and the
//! transport-selection and dual-stack-bind decision logic.

pub mod airplane;
pub mod bus;
pub mod config;
pub mod engine;
pub mod error;
pub mod gateway;
pub mod net;
pub mod scan;
pub mod text;
pub mod transport;
pub mod urc;
