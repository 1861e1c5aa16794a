use vstd::prelude::*;
use std::sync::atomic::AtomicBool;
use std::sync::atomic::Ordering;
use std::sync::Arc;

verus! {

/// What the feature loop is told to do.
#[derive(Clone, Copy, Debug, PartialEq, Eq, Structural)]
pub enum Command {
    Bhop,
    NoBhop,
}

/// The other command: the menu's "toggle bhop" answer.
pub open spec fn toggled(command: Command) -> Command {
    match command {
        Command::Bhop => Command::NoBhop,
        Command::NoBhop => Command::Bhop,
    }
}

/// The flag a command is stored as: `true` for `Bhop`.
pub open spec fn command_flag(command: Command) -> bool {
    command == Command::Bhop
}

/// The command a stored flag stands for.
pub open spec fn flag_command(flag: bool) -> Command {
    if flag {
        Command::Bhop
    } else {
        Command::NoBhop
    }
}

impl Command {
    /// The other command.
    pub fn toggle(self) -> (res: Command)
        ensures
            res == toggled(self),
    {
        match self {
            Command::Bhop => Command::NoBhop,
            Command::NoBhop => Command::Bhop,
        }
    }

    /// The discriminant of the command: `Bhop` is 0, `NoBhop` is 1.
    pub fn discriminant(self) -> (d: isize)
        ensures
            d == (if self == Command::Bhop {
                0isize
            } else {
                1isize
            }),
    {
        match self {
            Command::Bhop => 0,
            Command::NoBhop => 1,
        }
    }
}

/// The feature loop should hop exactly while the command is `Bhop`.
pub fn should_bhop(command: Command) -> (b: bool)
    ensures
        b == (command == Command::Bhop),
{
    command == Command::Bhop
}

/// What the menu does with the answer to "toggle bhop / leave".
#[derive(Clone, Copy, Debug, PartialEq, Eq, Structural)]
pub enum MenuAction {
    /// Store this command.
    SetCommand(Command),
    /// Ask everything to stop.
    RequestStop,
}

/// One round of the menu: "yes" toggles the current command, "no" stops.
pub fn menu_step(current: Command, answer: bool) -> (action: MenuAction)
    ensures
        action == if answer {
            MenuAction::SetCommand(toggled(current))
        } else {
            MenuAction::RequestStop
        },
{
    if answer {
        MenuAction::SetCommand(current.toggle())
    } else {
        MenuAction::RequestStop
    }
}

/// A command shared between the menu thread and the feature loop.
#[derive(Clone, Debug, Default)]
pub struct SharedCommand {
    command: Arc<AtomicBool>,
}

impl SharedCommand {
    /// A shared command that starts as `NoBhop`.
    pub fn new() -> (res: SharedCommand) {
        SharedCommand { command: Arc::new(AtomicBool::new(false)) }
    }

    /// The command currently stored. Other threads may store at any time,
    /// so nothing is known of which command it is.
    pub fn get(&self) -> (command: Command) {
        let flag = self.command.load(Ordering::SeqCst);
        Self::from_flag(flag)
    }

    /// Stores a command, as its flag.
    pub fn set(&self, command: Command) {
        self.command.store(Self::to_flag(command), Ordering::SeqCst)
    }

    /// The command a stored flag stands for.
    pub fn from_flag(flag: bool) -> (command: Command)
        ensures
            command == flag_command(flag),
    {
        match flag {
            true => Command::Bhop,
            false => Command::NoBhop,
        }
    }

    /// The flag a command is stored as.
    pub fn to_flag(command: Command) -> (flag: bool)
        ensures
            flag == command_flag(command),
    {
        command.discriminant() == 0
    }
}

/// Reading back the flag a command was stored as gives that command.
pub proof fn law_flag_round_trip(command: Command)
    ensures
        flag_command(command_flag(command)) == command,
{
}

/// Toggling twice gives the command back.
pub proof fn law_toggle_involution(command: Command)
    ensures
        toggled(toggled(command)) == command,
        toggled(command) != command,
{
}

} // verus!
