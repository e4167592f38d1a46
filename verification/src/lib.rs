//! RustProc Shell core: command routing, history navigation, the session
//! state machine, output assembly, telemetry parsing and screen layout,
//! with the text handling behind them, each with its contract.

pub mod commands;
pub mod shell;
pub mod system;
pub mod text;
pub mod ui;
