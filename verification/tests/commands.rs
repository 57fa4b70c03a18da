use win_global_gpu::cli::{
    command_actions, core_actions, next_action, panic_report, parse_command, power_mode, power_notice, Action,
    Command, Notice, PowerChange,
};
use win_global_gpu::optimus::{dedicated, integrated, reset, OptimusError};
use win_global_gpu::registry::GpuMode;

#[test]
fn subcommands_are_recognised() {
    assert_eq!(parse_command(None), Command::Run);
    assert_eq!(parse_command(Some("shutdown")), Command::Shutdown);
    assert_eq!(parse_command(Some("dedicated")), Command::Dedicated);
    assert_eq!(parse_command(Some("integrated")), Command::Integrated);
    assert_eq!(parse_command(Some("reset")), Command::Reset);
    assert_eq!(parse_command(Some("help")), Command::Help);
    assert_eq!(parse_command(Some("about")), Command::About);
    assert_eq!(parse_command(Some("Reset")), Command::Invalid);
    assert_eq!(parse_command(Some("")), Command::Invalid);
}

#[test]
fn dedicated_command_with_registry() {
    assert_eq!(
        command_actions(Command::Dedicated, false),
        vec![
            Action::Elevate,
            Action::LoadPrograms,
            Action::WriteRegistry { mode: GpuMode::Dedicated, with_programs: true },
            Action::Print { notice: Notice::SetDedicated },
        ]
    );
}

#[test]
fn integrated_command_with_optimus() {
    assert_eq!(
        command_actions(Command::Integrated, true),
        vec![
            Action::Elevate,
            Action::LoadPrograms,
            Action::OptimusSwitch { mode: GpuMode::Integrated },
            Action::Print { notice: Notice::SetIntegrated },
        ]
    );
}

#[test]
fn reset_writes_no_program() {
    assert_eq!(
        command_actions(Command::Reset, false),
        vec![
            Action::Elevate,
            Action::WriteRegistry { mode: GpuMode::NoPreference, with_programs: false },
            Action::Print { notice: Notice::ResetDone },
        ]
    );
    assert_eq!(command_actions(Command::Reset, true)[1], Action::OptimusSwitch { mode: GpuMode::NoPreference });
}

#[test]
fn other_commands() {
    assert_eq!(command_actions(Command::Run, true), vec![Action::Elevate, Action::RunCore]);
    assert_eq!(
        command_actions(Command::Shutdown, false),
        vec![Action::Elevate, Action::KillOlderInstance { report_none: true }]
    );
    assert_eq!(command_actions(Command::Help, false), vec![Action::ShowHelp]);
    assert_eq!(command_actions(Command::About, false), vec![Action::ShowAbout]);
    assert_eq!(command_actions(Command::Invalid, false), vec![Action::ReportInvalid]);
}

#[test]
fn core_with_registry_in_release() {
    assert_eq!(
        core_actions(false, true),
        vec![
            Action::InstallPanicHook,
            Action::KillOlderInstance { report_none: false },
            Action::LoadPrograms,
            Action::RegisterNotifications,
            Action::HideConsole,
            Action::RegisterPowerEvents { optimus: false },
        ]
    );
}

#[test]
fn core_with_optimus_in_debug() {
    assert_eq!(
        core_actions(true, false),
        vec![
            Action::InstallPanicHook,
            Action::KillOlderInstance { report_none: false },
            Action::RegisterNotifications,
            Action::RegisterPowerEvents { optimus: true },
        ]
    );
}

#[test]
fn notice_texts() {
    assert_eq!(Notice::SetDedicated.text(), "Set global GPU to dedicated GPU.");
    assert_eq!(Notice::SetIntegrated.text(), "Set global GPU to integrated GPU.");
    assert_eq!(Notice::ResetDone.text(), "Reset!");
    assert_eq!(Notice::NoOtherInstance.text(), "No other instance of Win Global GPU found.");
}

#[test]
fn power_changes_pick_the_gpu() {
    assert_eq!(power_mode(PowerChange::Unplugged), GpuMode::Integrated);
    assert_eq!(power_mode(PowerChange::PluggedIn), GpuMode::Dedicated);
}

#[test]
fn power_notices() {
    let n = power_notice(PowerChange::Unplugged, false, true);
    assert_eq!(n.console, Some("Wrote to registry!"));
    assert_eq!(n.toast, "Set global GPU to integrated GPU.\nRestart programs to see changes.");
    let n = power_notice(PowerChange::PluggedIn, false, false);
    assert_eq!(n.console, None);
    assert_eq!(n.toast, "Error writing to registry.");
    let n = power_notice(PowerChange::PluggedIn, true, true);
    assert_eq!(n.console, Some("Changed to dedicated GPU!"));
    assert_eq!(n.toast, "Set global GPU to dedicated GPU.\nRestart programs to see changes.");
    let n = power_notice(PowerChange::Unplugged, true, false);
    assert_eq!(n.toast, "Error changing to integrated GPU.");
}

#[test]
fn panic_reports() {
    assert_eq!(
        panic_report("boom", "bt", false),
        "Please screenshot this and file an issue on the GitHub.\nboom\nstack backtrace:\nbt"
    );
    assert!(panic_report("boom", "bt", true).ends_with("bt\nYou're running in release mode. You may not see the full backtrace if you don't compile with debug symbols or run in debug mode."));
}

#[test]
fn optimus_switches_are_not_implemented() {
    assert_eq!(integrated(), Err(OptimusError::NotImplemented));
    assert_eq!(dedicated(), Err(OptimusError::NotImplemented));
    assert_eq!(reset(), Err(OptimusError::NotImplemented));
}

#[test]
fn actions_run_until_the_first_failure() {
    let actions = command_actions(Command::Dedicated, false);
    assert_eq!(next_action(&actions, 0, false), Some(Action::Elevate));
    assert_eq!(next_action(&actions, 1, true), Some(Action::LoadPrograms));
    assert_eq!(next_action(&actions, 2, false), None);
    assert_eq!(next_action(&actions, 4, true), None);
    assert_eq!(next_action(&vec![], 0, true), None);
}
