//! Commands that the messaging bot accepts, as a closed set of variants.
use vstd::prelude::*;

verus! {

/// The key under which a command is registered with the bot.
#[derive(Debug, Clone, Copy, PartialEq, Eq, Structural)]
pub enum Commands {
    Stop,
    Sleep,
}

/// What a command asks the monitors to do.
#[derive(Debug, Clone, Copy, PartialEq, Eq, Structural)]
pub enum CommandAction {
    /// Stop monitoring.
    Halt,
    /// Suspend monitoring for this many seconds.
    Pause { secs: u64 },
}

/// A command of the bot.
pub trait TelegramCommand {
    /// The action the command asks for.
    fn handle(&self) -> CommandAction;

    fn get_command_key(&self) -> Commands;
}

#[derive(Debug, Clone, Copy, PartialEq, Eq, Structural)]
pub struct StopCommand {}

impl TelegramCommand for StopCommand {
    fn handle(&self) -> (r: CommandAction)
        ensures
            r == CommandAction::Halt,
    {
        CommandAction::Halt
    }

    #[inline]
    fn get_command_key(&self) -> (r: Commands)
        ensures
            r == Commands::Stop,
    {
        Commands::Stop
    }
}

#[derive(Debug, Clone, Copy, PartialEq, Eq, Structural)]
pub struct SleepCommand {
    sleep_time: u64,
}

impl SleepCommand {
    pub closed spec fn spec_sleep_time(&self) -> u64 {
        self.sleep_time
    }

    pub fn new(sleep_time: u64) -> (r: SleepCommand)
        ensures
            r.spec_sleep_time() == sleep_time,
    {
        SleepCommand { sleep_time }
    }

    /// Seconds to sleep.
    pub fn sleep_time(&self) -> (r: u64)
        ensures
            r == self.spec_sleep_time(),
    {
        self.sleep_time
    }
}

impl TelegramCommand for SleepCommand {
    fn handle(&self) -> (r: CommandAction)
        ensures
            r == (CommandAction::Pause { secs: self.spec_sleep_time() }),
    {
        CommandAction::Pause { secs: self.sleep_time }
    }

    #[inline]
    fn get_command_key(&self) -> (r: Commands)
        ensures
            r == Commands::Sleep,
    {
        Commands::Sleep
    }
}

} // verus!
