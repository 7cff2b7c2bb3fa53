//! Key input state and the commands it produces.
use vstd::prelude::*;

verus! {

/// State for interpreting incoming key press sequences.
pub struct CommandState {}

impl CommandState {
    /// A fresh command state.
    pub fn new() -> (out: CommandState) {
        CommandState {  }
    }
}

/// Commands to be executed by the application.
#[derive(Clone, Copy, Debug, PartialEq, Eq, Structural)]
pub enum Command {
    /// Make the brush with this quick ID the current brush.
    ChooseBrush { quickid: char },
}

} // verus!
