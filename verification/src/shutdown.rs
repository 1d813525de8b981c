//! Graceful shutdown: the signal that is fired once, and what an accept loop
//! does when it sees it.

use vstd::prelude::*;

verus! {

/// The shutdown signal of a process. It fires once and stays fired.
pub struct ShutdownCoordinator {
    fired: bool,
}

impl ShutdownCoordinator {
    /// Whether the signal has fired.
    pub closed spec fn fired(&self) -> bool {
        self.fired
    }

    /// A signal that has not fired.
    pub fn new() -> (s: Self)
        ensures
            !s.fired(),
    {
        ShutdownCoordinator { fired: false }
    }

    /// Fires the signal. The answer is `true` for the call that fired it and
    /// `false` for every later one, which changes nothing.
    pub fn fire(&mut self) -> (first: bool)
        ensures
            final(self).fired(),
            first == !old(self).fired(),
    {
        let first = !self.fired;
        self.fired = true;
        first
    }

    /// Whether the signal has fired.
    pub fn is_fired(&self) -> (b: bool)
        ensures
            b == self.fired(),
    {
        self.fired
    }
}

/// What an accept loop has to report.
#[derive(Clone, Copy, Debug, PartialEq, Eq, Structural)]
pub enum AcceptEvent {
    /// A client connected.
    Connected,
    /// Accepting a connection failed.
    Failed,
    /// The shutdown signal fired.
    Shutdown,
}

/// What an accept loop does next.
#[derive(Clone, Copy, Debug, PartialEq, Eq, Structural)]
pub enum AcceptAction {
    /// Start a task for the new connection and go on accepting.
    Serve,
    /// Go on accepting.
    Retry,
    /// Stop accepting.
    Stop,
}

/// An accept loop: it serves connections until the shutdown signal reaches
/// it, and accepts nothing after that.
pub struct AcceptLoop {
    stopped: bool,
    served: u64,
}

impl AcceptLoop {
    /// Whether the loop has stopped.
    pub closed spec fn stopped(&self) -> bool {
        self.stopped
    }

    /// How many connections the loop has served, counted up to the largest
    /// number that fits.
    pub closed spec fn served(&self) -> u64 {
        self.served
    }

    /// A loop that is accepting.
    pub fn new() -> (l: Self)
        ensures
            !l.stopped(),
            l.served() == 0,
    {
        AcceptLoop { stopped: false, served: 0 }
    }

    /// Whether the loop has stopped.
    pub fn is_stopped(&self) -> (b: bool)
        ensures
            b == self.stopped(),
    {
        self.stopped
    }

    /// How many connections the loop has served.
    pub fn served_count(&self) -> (n: u64)
        ensures
            n == self.served(),
    {
        self.served
    }

    /// Takes what the loop reports and says what to do. A failed accept does
    /// not end the loop; the shutdown signal does, for good.
    pub fn on_event(&mut self, event: AcceptEvent) -> (action: AcceptAction)
        ensures
            final(self).stopped() == (old(self).stopped() || event == AcceptEvent::Shutdown),
            final(self).stopped() ==> action == AcceptAction::Stop,
            !final(self).stopped() && event == AcceptEvent::Connected ==> action
                == AcceptAction::Serve,
            !final(self).stopped() && event == AcceptEvent::Failed ==> action == AcceptAction::Retry,
            action == AcceptAction::Serve && old(self).served() < u64::MAX ==> final(self).served()
                == old(self).served() + 1,
            !(action == AcceptAction::Serve && old(self).served() < u64::MAX) ==> final(self).served() == old(self).served(),
    {
        if self.stopped {
            return AcceptAction::Stop;
        }
        match event {
            AcceptEvent::Shutdown => {
                self.stopped = true;
                AcceptAction::Stop
            },
            AcceptEvent::Connected => {
                if self.served < u64::MAX {
                    self.served = self.served + 1;
                }
                AcceptAction::Serve
            },
            AcceptEvent::Failed => AcceptAction::Retry,
        }
    }
}

/// The address a listener binds to, as text: the host, a colon, the port.
pub fn bind_address(host: &str, port: u16) -> (address: String)
    ensures
        address@ == host@ + ":"@ + crate::text::decimal_digits(port as nat),
{
    let number = crate::text::decimal(port as usize);
    crate::text::join3(host, ":", number.as_str())
}

} // verus!
