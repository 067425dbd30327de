//! Dispatch of slash-command interactions.

use vstd::prelude::*;

use crate::text::same_text;

verus! {

/// Which command an interaction invokes.
#[derive(Debug, PartialEq, Eq, Structural)]
pub enum CommandKind {
    /// `/play`
    Play,
    /// `/queue`
    Queue,
    /// Any other name.
    Unknown,
}

/// The command a command name stands for.
pub open spec fn route_spec(name: Seq<char>) -> CommandKind {
    if name == "play"@ {
        CommandKind::Play
    } else if name == "queue"@ {
        CommandKind::Queue
    } else {
        CommandKind::Unknown
    }
}

/// Tells which command `name` invokes.
pub fn route(name: &str) -> (kind: CommandKind)
    ensures
        kind == route_spec(name@),
{
    if same_text(name, "play") {
        CommandKind::Play
    } else if same_text(name, "queue") {
        CommandKind::Queue
    } else {
        CommandKind::Unknown
    }
}

} // verus!
