use vstd::prelude::*;

verus! {

/// The command the toggle loop shares with the hopping thread, stored as a
/// number: `Bhop` is 0, `NoBhop` is 1, `Exit` is -1.
#[derive(Clone, Copy, Debug, PartialEq, Eq, Structural)]
pub enum LoopCommand {
    Bhop,
    NoBhop,
    Exit,
}

/// The command a stored number stands for: 0 and 1 are the two hopping
/// commands, every other number means exit.
pub open spec fn command_of(value: isize) -> LoopCommand {
    if value == 0 {
        LoopCommand::Bhop
    } else if value == 1 {
        LoopCommand::NoBhop
    } else {
        LoopCommand::Exit
    }
}

/// The number a command is stored as.
pub open spec fn value_of(command: LoopCommand) -> isize {
    match command {
        LoopCommand::Bhop => 0,
        LoopCommand::NoBhop => 1,
        LoopCommand::Exit => -1isize,
    }
}

impl From<isize> for LoopCommand {
    fn from(value: isize) -> (command: LoopCommand) {
        match value {
            0 => LoopCommand::Bhop,
            1 => LoopCommand::NoBhop,
            _ => LoopCommand::Exit,
        }
    }
}

impl vstd::std_specs::convert::FromSpecImpl<isize> for LoopCommand {
    open spec fn obeys_from_spec() -> bool {
        true
    }

    open spec fn from_spec(value: isize) -> LoopCommand {
        command_of(value)
    }
}

impl LoopCommand {
    /// The number this command is stored as.
    pub fn value(self) -> (v: isize)
        ensures
            v == value_of(self),
    {
        match self {
            LoopCommand::Bhop => 0,
            LoopCommand::NoBhop => 1,
            LoopCommand::Exit => -1,
        }
    }

    /// The command a stored number stands for.
    pub fn from_value(value: isize) -> (command: LoopCommand)
        ensures
            command == command_of(value),
    {
        LoopCommand::from(value)
    }
}

/// The next command after the user's answer to "toggle bhop / leave":
/// "yes" toggles between the two hopping commands, "no" exits. A "yes"
/// after `Exit` cannot happen, as the loop stops at `Exit`.
pub fn next_command(last: LoopCommand, answer: bool) -> (next: LoopCommand)
    requires
        answer ==> last != LoopCommand::Exit,
    ensures
        next == if !answer {
            LoopCommand::Exit
        } else if last == LoopCommand::Bhop {
            LoopCommand::NoBhop
        } else {
            LoopCommand::Bhop
        },
{
    match answer {
        true => match last {
            LoopCommand::Bhop => LoopCommand::NoBhop,
            LoopCommand::NoBhop => LoopCommand::Bhop,
            LoopCommand::Exit => LoopCommand::Exit,
        },
        false => LoopCommand::Exit,
    }
}

/// What the hopping thread does after reading the shared number.
#[derive(Clone, Copy, Debug, PartialEq, Eq, Structural)]
pub enum HopStep {
    /// The number is negative: leave the loop.
    Stop,
    /// The number is positive: jump for one loop period.
    Jump,
    /// The number is zero: sleep for one loop period.
    Sleep,
}

/// One round of the hopping thread.
pub fn hop_step(value: isize) -> (step: HopStep)
    ensures
        step == if value < 0 {
            HopStep::Stop
        } else if value > 0 {
            HopStep::Jump
        } else {
            HopStep::Sleep
        },
{
    if value >= 0 {
        if value > 0 {
            HopStep::Jump
        } else {
            HopStep::Sleep
        }
    } else {
        HopStep::Stop
    }
}

/// Storing a command and reading it back gives the same command.
pub proof fn law_command_round_trip(command: LoopCommand)
    ensures
        command_of(value_of(command)) == command,
{
}

} // verus!
