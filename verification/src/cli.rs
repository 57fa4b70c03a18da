use vstd::prelude::*;
use vstd::string::*;
use crate::registry::GpuMode;
use crate::strings::same_text;

verus! {

// ---------------------------------------------------------------------------
// Commands
// ---------------------------------------------------------------------------

/// What the program is asked to do by its subcommand.
#[derive(PartialEq, Eq, Structural, Clone, Copy, Debug)]
pub enum Command {
    /// No subcommand: stay running and switch the GPU when the power source changes.
    Run,
    /// Stop the instance that is running.
    Shutdown,
    /// Set the global GPU to the dedicated one.
    Dedicated,
    /// Set the global GPU to the integrated one.
    Integrated,
    /// Remove the global GPU setting.
    Reset,
    /// Print the usage.
    Help,
    /// Print what the program is.
    About,
    /// An unknown subcommand.
    Invalid,
}

/// The command that a subcommand names.
pub open spec fn spec_command(subcommand: Option<Seq<char>>) -> Command {
    match subcommand {
        None => Command::Run,
        Some(s) => if s == "shutdown"@ {
            Command::Shutdown
        } else if s == "dedicated"@ {
            Command::Dedicated
        } else if s == "integrated"@ {
            Command::Integrated
        } else if s == "reset"@ {
            Command::Reset
        } else if s == "help"@ {
            Command::Help
        } else if s == "about"@ {
            Command::About
        } else {
            Command::Invalid
        },
    }
}

/// The characters of an optional string slice.
pub open spec fn opt_str_chars(o: Option<&str>) -> Option<Seq<char>> {
    match o {
        Some(s) => Some(s@),
        None => None,
    }
}

/// The command that the subcommand `subcommand` (none when there is none) names.
pub fn parse_command(subcommand: Option<&str>) -> (c: Command)
    ensures
        c == spec_command(opt_str_chars(subcommand)),
{
    match subcommand {
        None => Command::Run,
        Some(s) => if same_text(s, "shutdown") {
            Command::Shutdown
        } else if same_text(s, "dedicated") {
            Command::Dedicated
        } else if same_text(s, "integrated") {
            Command::Integrated
        } else if same_text(s, "reset") {
            Command::Reset
        } else if same_text(s, "help") {
            Command::Help
        } else if same_text(s, "about") {
            Command::About
        } else {
            Command::Invalid
        },
    }
}

// ---------------------------------------------------------------------------
// What each command does
// ---------------------------------------------------------------------------

/// A message that a command prints when it is done.
#[derive(PartialEq, Eq, Structural, Clone, Copy, Debug)]
pub enum Notice {
    SetDedicated,
    SetIntegrated,
    ResetDone,
    NoOtherInstance,
}

/// The text of a notice.
pub open spec fn notice_text(n: Notice) -> Seq<char> {
    match n {
        Notice::SetDedicated => "Set global GPU to dedicated GPU."@,
        Notice::SetIntegrated => "Set global GPU to integrated GPU."@,
        Notice::ResetDone => "Reset!"@,
        Notice::NoOtherInstance => "No other instance of Win Global GPU found."@,
    }
}

impl Notice {
    /// The text of the notice.
    pub fn text(&self) -> (t: &'static str)
        ensures
            t@ == notice_text(*self),
    {
        match self {
            Notice::SetDedicated => "Set global GPU to dedicated GPU.",
            Notice::SetIntegrated => "Set global GPU to integrated GPU.",
            Notice::ResetDone => "Reset!",
            Notice::NoOtherInstance => "No other instance of Win Global GPU found.",
        }
    }
}

/// One thing that a command does, in order; a failed action ends the command with its error.
#[derive(PartialEq, Eq, Structural, Clone, Copy, Debug)]
pub enum Action {
    /// Restart elevated if the process is not.
    Elevate,
    /// Run the resident program (see `core_actions`).
    RunCore,
    /// Stop an older instance; when there was none, print `NoOtherInstance` if `report_none`.
    KillOlderInstance { report_none: bool },
    /// Scan for the programs to manage and keep them for the registry writes.
    LoadPrograms,
    /// Switch the global GPU through the NVIDIA control panel.
    OptimusSwitch { mode: GpuMode },
    /// Write the registry preferences in one transaction, for the loaded programs when
    /// `with_programs`, else for no program.
    WriteRegistry { mode: GpuMode, with_programs: bool },
    /// Print a notice.
    Print { notice: Notice },
    /// Print the usage, with the version and the name of the executable.
    ShowHelp,
    /// Print what the program is, with its version.
    ShowAbout,
    /// Report the invalid subcommand on the error stream.
    ReportInvalid,
    /// Install the panic hook that shows panics in a message box.
    InstallPanicHook,
    /// Register for toast notifications.
    RegisterNotifications,
    /// Hide the console window.
    HideConsole,
    /// Register the power-source events, which switch through the control panel when
    /// `optimus`, else through the registry.
    RegisterPowerEvents { optimus: bool },
}

/// The switch to `mode` (dedicated or integrated) by the backend in use.
pub open spec fn switch_action(mode: GpuMode, use_optimus: bool) -> Action {
    if use_optimus {
        Action::OptimusSwitch { mode }
    } else {
        Action::WriteRegistry { mode, with_programs: true }
    }
}

/// What a command does.
pub open spec fn spec_command_actions(command: Command, use_optimus: bool) -> Seq<Action> {
    match command {
        Command::Run => seq![Action::Elevate, Action::RunCore],
        Command::Shutdown => seq![Action::Elevate, Action::KillOlderInstance { report_none: true }],
        Command::Dedicated => seq![
            Action::Elevate,
            Action::LoadPrograms,
            switch_action(GpuMode::Dedicated, use_optimus),
            Action::Print { notice: Notice::SetDedicated },
        ],
        Command::Integrated => seq![
            Action::Elevate,
            Action::LoadPrograms,
            switch_action(GpuMode::Integrated, use_optimus),
            Action::Print { notice: Notice::SetIntegrated },
        ],
        Command::Reset => seq![
            Action::Elevate,
            if use_optimus {
                Action::OptimusSwitch { mode: GpuMode::NoPreference }
            } else {
                Action::WriteRegistry { mode: GpuMode::NoPreference, with_programs: false }
            },
            Action::Print { notice: Notice::ResetDone },
        ],
        Command::Help => seq![Action::ShowHelp],
        Command::About => seq![Action::ShowAbout],
        Command::Invalid => seq![Action::ReportInvalid],
    }
}

/// The switch to `mode` by the backend in use.
fn switch_step(mode: GpuMode, use_optimus: bool) -> (a: Action)
    ensures
        a == switch_action(mode, use_optimus),
{
    if use_optimus {
        Action::OptimusSwitch { mode }
    } else {
        Action::WriteRegistry { mode, with_programs: true }
    }
}

/// What `command` does, with the control panel (`use_optimus`) or the registry as backend.
pub fn command_actions(command: Command, use_optimus: bool) -> (actions: Vec<Action>)
    ensures
        actions@ == spec_command_actions(command, use_optimus),
{
    match command {
        Command::Run => vec![Action::Elevate, Action::RunCore],
        Command::Shutdown => vec![Action::Elevate, Action::KillOlderInstance { report_none: true }],
        Command::Dedicated => vec![
            Action::Elevate,
            Action::LoadPrograms,
            switch_step(GpuMode::Dedicated, use_optimus),
            Action::Print { notice: Notice::SetDedicated },
        ],
        Command::Integrated => vec![
            Action::Elevate,
            Action::LoadPrograms,
            switch_step(GpuMode::Integrated, use_optimus),
            Action::Print { notice: Notice::SetIntegrated },
        ],
        Command::Reset => vec![
            Action::Elevate,
            if use_optimus {
                Action::OptimusSwitch { mode: GpuMode::NoPreference }
            } else {
                Action::WriteRegistry { mode: GpuMode::NoPreference, with_programs: false }
            },
            Action::Print { notice: Notice::ResetDone },
        ],
        Command::Help => vec![Action::ShowHelp],
        Command::About => vec![Action::ShowAbout],
        Command::Invalid => vec![Action::ReportInvalid],
    }
}

/// The next action of `actions` to perform once `performed` of them are done, the last of
/// which `last_succeeded`: the run stops at the first failed action, and after the last one.
pub open spec fn spec_next_action(actions: Seq<Action>, performed: int, last_succeeded: bool) -> Option<
    Action,
> {
    if (performed > 0 && !last_succeeded) || performed >= actions.len() {
        None
    } else {
        Some(actions[performed])
    }
}

/// The next action to perform once `performed` actions are done, the last of which
/// `last_succeeded`; none once one has failed or all are done.
pub fn next_action(actions: &Vec<Action>, performed: usize, last_succeeded: bool) -> (r: Option<Action>)
    ensures
        r == spec_next_action(actions@, performed as int, last_succeeded),
{
    if (performed > 0 && !last_succeeded) || performed >= actions.len() {
        None
    } else {
        Some(actions[performed])
    }
}

/// While no action has failed, the actions are performed one after the other, each in
/// turn; after a failure, or after the last action, nothing more is performed.
pub proof fn law_actions_run_in_order_until_a_failure(
    actions: Seq<Action>,
    performed: int,
    last_succeeded: bool,
)
    ensures
        0 <= performed < actions.len() && (performed == 0 || last_succeeded) ==> spec_next_action(
            actions,
            performed,
            last_succeeded,
        ) == Some(actions[performed]),
        performed > 0 && !last_succeeded ==> spec_next_action(actions, performed, last_succeeded)
            is None,
        performed >= actions.len() ==> spec_next_action(actions, performed, last_succeeded) is None,
{
}

/// The dedicated and integrated commands elevate, load the programs and then switch every
/// loaded program to that GPU (through the control panel with `-o`, else by a registry
/// write that covers the loaded programs), and report it; a registry write that covers no
/// program is made only by `reset`, and only with no global mode.
pub proof fn law_switch_commands_write_the_programs(command: Command, use_optimus: bool)
    ensures
        spec_command_actions(Command::Dedicated, false) == seq![
            Action::Elevate,
            Action::LoadPrograms,
            Action::WriteRegistry { mode: GpuMode::Dedicated, with_programs: true },
            Action::Print { notice: Notice::SetDedicated },
        ],
        spec_command_actions(Command::Integrated, false) == seq![
            Action::Elevate,
            Action::LoadPrograms,
            Action::WriteRegistry { mode: GpuMode::Integrated, with_programs: true },
            Action::Print { notice: Notice::SetIntegrated },
        ],
        spec_command_actions(Command::Dedicated, true)[2] == (Action::OptimusSwitch {
            mode: GpuMode::Dedicated,
        }),
        spec_command_actions(Command::Integrated, true)[2] == (Action::OptimusSwitch {
            mode: GpuMode::Integrated,
        }),
        forall|i: int|
            0 <= i < spec_command_actions(command, use_optimus).len() ==> match #[trigger] spec_command_actions(
                command,
                use_optimus,
            )[i] {
                Action::WriteRegistry { mode, with_programs } => !with_programs ==> command
                    == Command::Reset && mode == GpuMode::NoPreference,
                _ => true,
            },
{
    assert(spec_command_actions(Command::Dedicated, false) =~= seq![
        Action::Elevate,
        Action::LoadPrograms,
        Action::WriteRegistry { mode: GpuMode::Dedicated, with_programs: true },
        Action::Print { notice: Notice::SetDedicated },
    ]);
    assert(spec_command_actions(Command::Integrated, false) =~= seq![
        Action::Elevate,
        Action::LoadPrograms,
        Action::WriteRegistry { mode: GpuMode::Integrated, with_programs: true },
        Action::Print { notice: Notice::SetIntegrated },
    ]);
}

/// What the resident program does at start.
pub open spec fn spec_core_actions(use_optimus: bool, hide_console: bool) -> Seq<Action> {
    seq![Action::InstallPanicHook, Action::KillOlderInstance { report_none: false }] + (if use_optimus {
        seq![]
    } else {
        seq![Action::LoadPrograms]
    }) + seq![Action::RegisterNotifications] + (if hide_console {
        seq![Action::HideConsole]
    } else {
        seq![]
    }) + seq![Action::RegisterPowerEvents { optimus: use_optimus }]
}

/// What the resident program does at start: install the panic hook, stop an older
/// instance, load the programs (for the registry backend only), register for
/// notifications, hide the console (in release builds), and register the power events.
pub fn core_actions(use_optimus: bool, hide_console: bool) -> (actions: Vec<Action>)
    ensures
        actions@ == spec_core_actions(use_optimus, hide_console),
{
    let mut actions = vec![Action::InstallPanicHook, Action::KillOlderInstance { report_none: false }];
    if !use_optimus {
        actions.push(Action::LoadPrograms);
    }
    actions.push(Action::RegisterNotifications);
    if hide_console {
        actions.push(Action::HideConsole);
    }
    actions.push(Action::RegisterPowerEvents { optimus: use_optimus });
    assert(actions@ =~= spec_core_actions(use_optimus, hide_console));
    actions
}

// ---------------------------------------------------------------------------
// Power-source changes
// ---------------------------------------------------------------------------

/// A change of the power source.
#[derive(PartialEq, Eq, Structural, Clone, Copy, Debug)]
pub enum PowerChange {
    /// The charger was unplugged: save power on the integrated GPU.
    Unplugged,
    /// The charger was plugged in: use the dedicated GPU.
    PluggedIn,
}

/// The GPU that a power change switches to.
pub open spec fn spec_power_mode(change: PowerChange) -> GpuMode {
    match change {
        PowerChange::Unplugged => GpuMode::Integrated,
        PowerChange::PluggedIn => GpuMode::Dedicated,
    }
}

/// The GPU that a power change switches to.
pub fn power_mode(change: PowerChange) -> (m: GpuMode)
    ensures
        m == spec_power_mode(change),
{
    match change {
        PowerChange::Unplugged => GpuMode::Integrated,
        PowerChange::PluggedIn => GpuMode::Dedicated,
    }
}

/// What is shown after a switch on a power change: a line on the console (if any) and a
/// toast notification.
pub struct PowerNotice {
    pub console: Option<&'static str>,
    pub toast: &'static str,
}

/// The console line after a switch that succeeded.
pub open spec fn spec_switch_console(change: PowerChange, use_optimus: bool) -> Seq<char> {
    if !use_optimus {
        "Wrote to registry!"@
    } else {
        match change {
            PowerChange::Unplugged => "Changed to integrated GPU!"@,
            PowerChange::PluggedIn => "Changed to dedicated GPU!"@,
        }
    }
}

/// The toast after a switch that succeeded.
pub open spec fn spec_switch_toast(change: PowerChange) -> Seq<char> {
    match change {
        PowerChange::Unplugged => "Set global GPU to integrated GPU.\nRestart programs to see changes."@,
        PowerChange::PluggedIn => "Set global GPU to dedicated GPU.\nRestart programs to see changes."@,
    }
}

/// The toast after a switch that failed.
pub open spec fn spec_failure_toast(change: PowerChange, use_optimus: bool) -> Seq<char> {
    if !use_optimus {
        "Error writing to registry."@
    } else {
        match change {
            PowerChange::Unplugged => "Error changing to integrated GPU."@,
            PowerChange::PluggedIn => "Error changing to dedicated GPU."@,
        }
    }
}

/// What to show after the switch for `change` through the control panel (`use_optimus`)
/// or the registry, depending on whether it `succeeded`. A failure shows no console line
/// of its own (the error itself is printed for debugging).
pub fn power_notice(change: PowerChange, use_optimus: bool, succeeded: bool) -> (n: PowerNotice)
    ensures
        succeeded ==> (n.console matches Some(c) && c@ == spec_switch_console(change, use_optimus)),
        succeeded ==> n.toast@ == spec_switch_toast(change),
        !succeeded ==> n.console is None && n.toast@ == spec_failure_toast(change, use_optimus),
{
    if succeeded {
        let console = if !use_optimus {
            "Wrote to registry!"
        } else {
            match change {
                PowerChange::Unplugged => "Changed to integrated GPU!",
                PowerChange::PluggedIn => "Changed to dedicated GPU!",
            }
        };
        let toast = match change {
            PowerChange::Unplugged => "Set global GPU to integrated GPU.\nRestart programs to see changes.",
            PowerChange::PluggedIn => "Set global GPU to dedicated GPU.\nRestart programs to see changes.",
        };
        PowerNotice { console: Some(console), toast }
    } else {
        let toast = if !use_optimus {
            "Error writing to registry."
        } else {
            match change {
                PowerChange::Unplugged => "Error changing to integrated GPU.",
                PowerChange::PluggedIn => "Error changing to dedicated GPU.",
            }
        };
        PowerNotice { console: None, toast }
    }
}

// ---------------------------------------------------------------------------
// Panic reports
// ---------------------------------------------------------------------------

/// The note added to a panic report in release builds.
pub open spec fn release_note(release: bool) -> Seq<char> {
    if release {
        "\nYou're running in release mode. You may not see the full backtrace if you don't compile with debug symbols or run in debug mode."@
    } else {
        ""@
    }
}

/// The text of a panic report.
pub open spec fn spec_panic_report(info: Seq<char>, backtrace: Seq<char>, release: bool) -> Seq<char> {
    "Please screenshot this and file an issue on the GitHub.\n"@ + info + "\nstack backtrace:\n"@
        + backtrace + release_note(release)
}

/// The report holds, in order: the request to file an issue, the panic message, the
/// backtrace heading, the backtrace, and the release note; a release build's report is the
/// debug build's report with the note appended.
pub proof fn law_panic_report_holds_message_and_backtrace(
    info: Seq<char>,
    backtrace: Seq<char>,
    release: bool,
)
    ensures
        ({
            let h = "Please screenshot this and file an issue on the GitHub.\n"@;
            let b = "\nstack backtrace:\n"@;
            let r = spec_panic_report(info, backtrace, release);
            let i0 = h.len() as int;
            let i1 = i0 + info.len();
            let i2 = i1 + b.len();
            let i3 = i2 + backtrace.len();
            &&& r.take(i0) == h
            &&& r.subrange(i0, i1) == info
            &&& r.subrange(i1, i2) == b
            &&& r.subrange(i2, i3) == backtrace
            &&& !release ==> r.len() == i3
            &&& release ==> r == spec_panic_report(info, backtrace, false)
                + "\nYou're running in release mode. You may not see the full backtrace if you don't compile with debug symbols or run in debug mode."@
        }),
{
    let h = "Please screenshot this and file an issue on the GitHub.\n"@;
    let b = "\nstack backtrace:\n"@;
    let r = spec_panic_report(info, backtrace, release);
    let i0 = h.len() as int;
    let i1 = i0 + info.len();
    let i2 = i1 + b.len();
    let i3 = i2 + backtrace.len();
    let core = h + info + b + backtrace;
    assert(r == core + release_note(release));
    assert(r.take(i0) =~= h);
    assert(r.subrange(i0, i1) =~= info);
    assert(r.subrange(i1, i2) =~= b);
    assert(r.subrange(i2, i3) =~= backtrace);
    reveal_strlit("");
    if !release {
        assert(release_note(release) == ""@);
    } else {
        assert(spec_panic_report(info, backtrace, false) =~= core);
    }
}

/// The report shown for a panic: a request to file an issue, the panic message, the
/// backtrace, and in release builds a note that the backtrace may be incomplete.
pub fn panic_report(info: &str, backtrace: &str, release: bool) -> (r: String)
    ensures
        r@ == spec_panic_report(info@, backtrace@, release),
{
    let mut r = String::from_str("Please screenshot this and file an issue on the GitHub.\n");
    r.append(info);
    r.append("\nstack backtrace:\n");
    r.append(backtrace);
    let note = if release {
        "\nYou're running in release mode. You may not see the full backtrace if you don't compile with debug symbols or run in debug mode."
    } else {
        ""
    };
    r.append(note);
    r
}

} // verus!
