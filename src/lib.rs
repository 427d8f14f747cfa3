//! Break enforcement: the decisions of a device-lock supervisor and of the
//! work/break scheduling loop, with the I/O left to the caller.

pub mod device;
pub mod diagnostics;
pub mod scheduler;
pub mod supervisor;

pub use device::{find_event, CommandError, Device};
pub use diagnostics::{DiagnosticCapture, DIAGNOSTIC_LINE_CAP};
pub use scheduler::{
    block_on_new_input, Command, Event, InputWait, Notice, Phase, Scheduler, Timing,
};
pub use supervisor::{monitor_decision, MonitorAction, STARTUP_WINDOW_MS};
