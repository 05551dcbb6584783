//! The interactive device-console core of a firmware development tool:
//! a file-backed command history with recall, a terminal renderer whose
//! drawing commands provably keep the bottom row showing the live command
//! line, the reconnecting session state machine, serial-port selection and
//! host-delegation argument handling, and the text utilities they share.

pub mod app_ota;
pub mod app_ports;
pub mod cmd_history;
pub mod delegation;
pub mod flat_key_values;
pub mod raft_cli_utils;
pub mod screen;
pub mod session;
pub mod serial_rx_handler;
pub mod systype_config;
pub mod terminal_io;
pub mod text;
pub mod time_tracker;
