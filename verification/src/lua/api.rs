use vstd::prelude::*;

verus! {

/// A script asks to log a message, or to alert the user with it.
#[derive(Debug)]
pub enum LogApiEvent {
    Log(String),
    Alert(String),
}

/// A script asks to pause, resume or stop the application.
#[derive(Clone, Copy, Debug, PartialEq, Eq, Structural)]
pub enum ControlFlowApiEvent {
    Pause,
    Resume,
    Stop,
}

/// A script asks to connect to a device, by name.
#[derive(Debug)]
pub struct ConnectionApiEvent {
    pub device: String,
}

} // verus!
