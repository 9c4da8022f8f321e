use host_monitor::commands::{CommandAction, Commands, SleepCommand, StopCommand, TelegramCommand};

#[test]
fn stop_command_halts() {
    let c = StopCommand {};
    assert_eq!(c.get_command_key(), Commands::Stop);
    assert_eq!(c.handle(), CommandAction::Halt);
}

#[test]
fn sleep_command_pauses_for_its_time() {
    let c = SleepCommand::new(90);
    assert_eq!(c.sleep_time(), 90);
    assert_eq!(c.get_command_key(), Commands::Sleep);
    assert_eq!(c.handle(), CommandAction::Pause { secs: 90 });
}
