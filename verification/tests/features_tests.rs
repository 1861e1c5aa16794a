use mince::bunnyhop::{ByteWrite, Bunnyhop, OnGroundHandler};
use mince::gui::{answer_from_exit_code, message_box_args, message_box_program, MessageType};
use mince::main_loop::{hop_step, next_command, HopStep, LoopCommand};
use mince::mem_vars::MemVars;
use mince::menu::{menu_step, should_bhop, Command, MenuAction, SharedCommand};
use mince::overlay::{
    crosshair_player_index, is_target_candidate, player_is_alive_and_playing, player_is_valid, Team,
};
use mince::stop_token::StopToken;

fn vars() -> MemVars {
    MemVars {
        on_ground_op_dec: (0x100, 6),
        on_ground_op_inc: (0x200, 6),
        on_ground: 0x300,
        do_jump: 0x400,
        do_attack_1: 0x500,
        eye_pos: 0x600,
        angles_op_read: (0x700, 6),
        angles: 0x800,
        localplayer_base: 0x900,
        radar_struct_base: 0xA00,
    }
}

#[test]
fn bunnyhop_starts_inactive_and_ignores_ground_events() {
    let b = Bunnyhop::new(&vars());
    assert!(!b.is_active());
    assert_eq!(b.on_ground_land(), None);
    assert_eq!(b.on_ground_leave(), None);
}

#[test]
fn bunnyhop_fakes_the_first_jump_when_switched_on_standing() {
    let mut b = Bunnyhop::new(&vars());
    assert_eq!(b.set_active(true, 1), Some(ByteWrite { address: 0x400, value: 5 }));
    assert!(b.is_active());
    let mut c = Bunnyhop::new(&vars());
    assert_eq!(c.set_active(true, 0), None);
}

#[test]
fn bunnyhop_jumps_on_landing_and_releases_on_leaving() {
    let mut b = Bunnyhop::new(&vars());
    b.set_active(true, 0);
    assert_eq!(b.on_ground_land(), Some(ByteWrite { address: 0x400, value: 5 }));
    assert_eq!(b.on_ground_leave(), Some(ByteWrite { address: 0x400, value: 4 }));
    assert_eq!(b.set_active(false, 1), Some(ByteWrite { address: 0x400, value: 4 }));
    assert_eq!(b.on_ground_land(), None);
    assert!(Bunnyhop::is_on_ground(2));
    assert!(!Bunnyhop::is_on_ground(0));
}

#[test]
fn menu_toggles_and_stops() {
    assert_eq!(menu_step(Command::Bhop, true), MenuAction::SetCommand(Command::NoBhop));
    assert_eq!(menu_step(Command::NoBhop, true), MenuAction::SetCommand(Command::Bhop));
    assert_eq!(menu_step(Command::Bhop, false), MenuAction::RequestStop);
    assert_eq!(Command::Bhop.toggle().toggle(), Command::Bhop);
    assert!(should_bhop(Command::Bhop));
    assert!(!should_bhop(Command::NoBhop));
    assert_eq!(Command::Bhop.discriminant(), 0);
    assert_eq!(Command::NoBhop.discriminant(), 1);
}

#[test]
fn shared_command_reads_back_what_was_stored() {
    let shared = SharedCommand::new();
    assert_eq!(shared.get(), Command::NoBhop);
    let other = shared.clone();
    other.set(Command::Bhop);
    assert_eq!(shared.get(), Command::Bhop);
    shared.set(Command::NoBhop);
    assert_eq!(other.get(), Command::NoBhop);
    assert_eq!(SharedCommand::from_flag(SharedCommand::to_flag(Command::Bhop)), Command::Bhop);
    assert_eq!(SharedCommand::from_flag(SharedCommand::to_flag(Command::NoBhop)), Command::NoBhop);
}

#[test]
fn stop_token_is_shared_by_clones() {
    let token = StopToken::default();
    let clone = token.clone();
    assert!(!clone.stop_requested());
    token.request_stop();
    assert!(clone.stop_requested());
    assert!(token.stop_requested());
    assert!(!StopToken::new().stop_requested());
}

#[test]
fn loop_command_numbers() {
    assert_eq!(LoopCommand::from(0), LoopCommand::Bhop);
    assert_eq!(LoopCommand::from(1), LoopCommand::NoBhop);
    assert_eq!(LoopCommand::from(-1), LoopCommand::Exit);
    assert_eq!(LoopCommand::from(7), LoopCommand::Exit);
    for c in [LoopCommand::Bhop, LoopCommand::NoBhop, LoopCommand::Exit] {
        assert_eq!(LoopCommand::from_value(c.value()), c);
    }
    assert_eq!(LoopCommand::Exit.value(), -1);
}

#[test]
fn loop_command_toggles_until_exit() {
    assert_eq!(next_command(LoopCommand::Bhop, true), LoopCommand::NoBhop);
    assert_eq!(next_command(LoopCommand::NoBhop, true), LoopCommand::Bhop);
    assert_eq!(next_command(LoopCommand::Bhop, false), LoopCommand::Exit);
    assert_eq!(next_command(LoopCommand::Exit, false), LoopCommand::Exit);
}

#[test]
fn hopping_thread_steps() {
    assert_eq!(hop_step(-1), HopStep::Stop);
    assert_eq!(hop_step(0), HopStep::Sleep);
    assert_eq!(hop_step(1), HopStep::Jump);
    assert_eq!(hop_step(isize::MIN), HopStep::Stop);
}

#[test]
fn message_box_arguments() {
    assert_eq!(message_box_program(), "zenity");
    assert_eq!(
        message_box_args(MessageType::YesNo, "yes: toggle bhop\nno: leave"),
        vec!["--title=Mince", "--question", "--text=yes: toggle bhop\nno: leave", "--ok-label=Yes", "--cancel-label=No"]
    );
    assert_eq!(message_box_args(MessageType::Info, "Bye!"), vec!["--title=Mince", "--info", "--text=Bye!", "", ""]);
    assert_eq!(message_box_args(MessageType::Warn, ""), vec!["--title=Mince", "--warning", "--text=", "", ""]);
    assert!(answer_from_exit_code(0));
    assert!(!answer_from_exit_code(1));
    assert!(!answer_from_exit_code(-1));
}

#[test]
fn players_and_targets() {
    assert_eq!(Team::from_code(1), Some(Team::Spectator));
    assert_eq!(Team::from_code(3), Some(Team::CounterTerrorist));
    assert_eq!(Team::from_code(0), None);
    assert_eq!(Team::from_code(4), None);
    assert_eq!(Team::Terrorist.code(), 2);
    assert!(player_is_valid(1));
    assert!(!player_is_valid(0));
    assert!(player_is_alive_and_playing(1, Team::Terrorist, 100));
    assert!(!player_is_alive_and_playing(1, Team::Spectator, 100));
    assert!(!player_is_alive_and_playing(1, Team::Terrorist, 0));
    assert!(!player_is_alive_and_playing(0, Team::Terrorist, 100));
    assert_eq!(crosshair_player_index(0, 64), None);
    assert_eq!(crosshair_player_index(1, 64), Some(0));
    assert_eq!(crosshair_player_index(64, 64), Some(63));
    assert_eq!(crosshair_player_index(65, 64), None);
    assert!(is_target_candidate(true, false, Team::Terrorist, Team::CounterTerrorist));
    assert!(!is_target_candidate(true, false, Team::Terrorist, Team::Terrorist));
    assert!(is_target_candidate(true, true, Team::Terrorist, Team::Terrorist));
    assert!(!is_target_candidate(false, true, Team::Terrorist, Team::CounterTerrorist));
}
