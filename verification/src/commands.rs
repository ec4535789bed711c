//! Domain commands issued toward physical equipment.

use vstd::prelude::*;
use std::collections::HashMap;

verus! {

/// A domain-level command issued by execution toward physical equipment.
#[derive(Debug, PartialEq)]
pub struct RobotCommand {
    pub kind: String,
    pub target: String,
    pub parameters: HashMap<String, String>,
}

/// Why a command could not be delivered.
#[derive(Debug, PartialEq, Eq)]
pub enum CommandError {
    DeliveryFailed(String),
    NotConnected,
    Rejected(String),
}

/// Issues commands through the interconnection layer: execution decides
/// what to issue, the implementor how to carry it to the equipment.
pub trait CommandProvider {
    fn dispatch(&mut self, command: &RobotCommand) -> Result<(), CommandError>;
}

} // verus!
