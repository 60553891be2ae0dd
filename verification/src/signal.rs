//! Signals: what the first stage does about each.

use vstd::prelude::*;

verus! {

/// The signals that the first stage takes.
#[derive(Debug, Clone, Copy, PartialEq, Eq, Structural)]
pub enum SignalKind {
    /// A child has ended.
    Child,
    Terminate,
    Interrupt,
    /// The power supply reports an event.
    Power,
    /// The first user signal: a request to reboot.
    User1,
    /// The second user signal: a request to shut down.
    User2,
    /// Any other signal.
    Other,
}

/// What is done about a signal.
#[derive(Debug, Clone, Copy, PartialEq, Eq, Structural)]
pub enum SignalAction {
    /// Reap the children that have ended, without waiting.
    Reap,
    /// Take note of the signal and do nothing: the system goes down only on
    /// request.
    Ignore,
    /// Begin the shutdown.
    Shutdown,
    /// Begin the reboot.
    Reboot,
    /// Nothing at all.
    Nothing,
}

/// What is done about the signal.
pub open spec fn action_for(signal: SignalKind) -> SignalAction {
    match signal {
        SignalKind::Child => SignalAction::Reap,
        SignalKind::Terminate | SignalKind::Interrupt | SignalKind::Power => SignalAction::Ignore,
        SignalKind::User1 => SignalAction::Reboot,
        SignalKind::User2 => SignalAction::Shutdown,
        SignalKind::Other => SignalAction::Nothing,
    }
}

/// What is done about the signal.
pub fn signal_action(signal: SignalKind) -> (r: SignalAction)
    ensures
        r == action_for(signal),
{
    match signal {
        SignalKind::Child => SignalAction::Reap,
        SignalKind::Terminate | SignalKind::Interrupt | SignalKind::Power => SignalAction::Ignore,
        SignalKind::User1 => SignalAction::Reboot,
        SignalKind::User2 => SignalAction::Shutdown,
        SignalKind::Other => SignalAction::Nothing,
    }
}

/// What is noted of a signal: of the ignored signals and of the requests,
/// a line for the log; of the others nothing.
pub fn signal_note(signal: SignalKind) -> (r: Option<&'static str>)
    ensures
        match r {
            Some(m) => m@ == match signal {
                SignalKind::Interrupt => "Ignored SIGINT (Ctrl+C)"@,
                SignalKind::Power => "Ignored SIGPWR (power event)"@,
                SignalKind::Terminate => "Ignored signal"@,
                SignalKind::User1 => "Received SIGUSR1 (reboot request)"@,
                _ => "Received SIGUSR2 (halt/shutdown request)"@,
            },
            None => signal == SignalKind::Child || signal == SignalKind::Other,
        },
        r is None <==> (signal == SignalKind::Child || signal == SignalKind::Other),
{
    match signal {
        SignalKind::Interrupt => Some("Ignored SIGINT (Ctrl+C)"),
        SignalKind::Power => Some("Ignored SIGPWR (power event)"),
        SignalKind::Terminate => Some("Ignored signal"),
        SignalKind::User1 => Some("Received SIGUSR1 (reboot request)"),
        SignalKind::User2 => Some("Received SIGUSR2 (halt/shutdown request)"),
        _ => None,
    }
}

/// What the first stage has been asked and has done.
#[derive(Debug, Clone, Copy, PartialEq, Eq, Structural)]
pub struct InitFlags {
    pub reboot: bool,
    pub shutdown: bool,
    pub boot_complete: bool,
    pub tty_launched: bool,
}

/// What the first stage does next.
#[derive(Debug, Clone, Copy, PartialEq, Eq, Structural)]
pub enum InitAction {
    /// Unmount, remove the socket, and reboot.
    Reboot,
    /// Unmount, remove the socket, and power off.
    Shutdown,
    /// Start the login prompts.
    LaunchTtys,
    /// Wait for half a second or until woken.
    Park,
}

/// What the first stage does next: a request to reboot goes before one to
/// shut down; the login prompts are started once, when the service manager
/// has reported that its services are up.
pub open spec fn init_step(flags: InitFlags) -> (InitFlags, InitAction) {
    if flags.reboot {
        (flags, InitAction::Reboot)
    } else if flags.shutdown {
        (flags, InitAction::Shutdown)
    } else if flags.boot_complete && !flags.tty_launched {
        (InitFlags { tty_launched: true, ..flags }, InitAction::LaunchTtys)
    } else {
        (flags, InitAction::Park)
    }
}

/// What the first stage does next.
pub fn init_next(flags: &mut InitFlags) -> (action: InitAction)
    ensures
        (*final(flags), action) == init_step(*old(flags)),
{
    if flags.reboot {
        InitAction::Reboot
    } else if flags.shutdown {
        InitAction::Shutdown
    } else if flags.boot_complete && !flags.tty_launched {
        flags.tty_launched = true;
        InitAction::LaunchTtys
    } else {
        InitAction::Park
    }
}

/// The login prompts are started at most once: after they were started,
/// no step starts them again.
pub proof fn lemma_ttys_launched_once(flags: InitFlags)
    ensures
        init_step(flags).1 == InitAction::LaunchTtys ==> init_step(init_step(flags).0).1
            != InitAction::LaunchTtys,
        flags.tty_launched ==> init_step(flags).1 != InitAction::LaunchTtys,
{
}

} // verus!
