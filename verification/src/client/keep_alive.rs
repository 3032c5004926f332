use vstd::prelude::*;

verus! {

/// Messages to the keep-alive timer.
#[derive(Clone, Copy, Debug, PartialEq, Eq, Structural)]
pub enum Msg {
    /// Keep the timer alive but send no ping.
    Suspend,
    /// Go back to normal (after `Suspend`).
    Resume,
    /// Restart the wait (a command was sent).
    Reset,
    /// Stop the timer.
    Kill,
}

impl Msg {
    /// The message's name (what `Display` shows).
    pub fn name(&self) -> (res: &'static str)
        ensures
            res@ == match self {
                Msg::Suspend => "Suspend"@,
                Msg::Resume => "Resume"@,
                Msg::Reset => "Reset"@,
                Msg::Kill => "Kill"@,
            },
    {
        match self {
            Msg::Suspend => "Suspend",
            Msg::Resume => "Resume",
            Msg::Reset => "Reset",
            Msg::Kill => "Kill",
        }
    }
}

/// What ends one wait of the keep-alive timer.
#[derive(Clone, Copy, Debug, PartialEq, Eq, Structural)]
pub enum Wake {
    /// A message arrived.
    Received(Msg),
    /// The keep-alive interval passed.
    Timeout,
    /// Every sender is gone.
    Disconnected,
}

/// What the keep-alive timer does after a wait.
#[derive(Clone, Copy, Debug, PartialEq, Eq, Structural)]
pub enum Reaction {
    /// Queue a `ping` command, then wait again.
    Ping,
    /// Wait again.
    Wait,
    /// Stop.
    Stop,
}

/// The keep-alive timer. Each round it waits once for a message or the
/// keep-alive interval: Suspend and Resume switch pinging off and on, Reset
/// starts the next wait, Kill stops the timer, and the interval passing
/// pings unless the timer is suspended.
#[derive(Clone, Copy, Debug, PartialEq, Eq, Structural)]
pub struct KeepAlive {
    pub suspended: bool,
}

impl KeepAlive {
    /// A timer that is not suspended.
    pub fn new() -> (res: KeepAlive)
        ensures
            !res.suspended,
    {
        KeepAlive { suspended: false }
    }

    /// Act on what ended the current wait.
    pub fn on_wake(&mut self, wake: Wake) -> (res: Reaction)
        ensures
            match wake {
                Wake::Received(Msg::Suspend) => res == Reaction::Wait && final(self).suspended,
                Wake::Received(Msg::Resume) => res == Reaction::Wait && !final(self).suspended,
                Wake::Received(Msg::Reset) => res == Reaction::Wait && *final(self) == *old(self),
                Wake::Received(Msg::Kill) => res == Reaction::Stop && *final(self) == *old(self),
                Wake::Timeout => *final(self) == *old(self) && if old(self).suspended {
                    res == Reaction::Wait
                } else {
                    res == Reaction::Ping
                },
                Wake::Disconnected => res == Reaction::Stop && *final(self) == *old(self),
            },
    {
        match wake {
            Wake::Received(Msg::Suspend) => {
                self.suspended = true;
                Reaction::Wait
            },
            Wake::Received(Msg::Resume) => {
                self.suspended = false;
                Reaction::Wait
            },
            Wake::Received(Msg::Reset) => Reaction::Wait,
            Wake::Received(Msg::Kill) => Reaction::Stop,
            Wake::Timeout => {
                if self.suspended {
                    Reaction::Wait
                } else {
                    Reaction::Ping
                }
            },
            Wake::Disconnected => Reaction::Stop,
        }
    }
}

} // verus!
