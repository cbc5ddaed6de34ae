use vstd::prelude::*;
use crate::seq_facts::lemma_filter_step;

verus! {

/// Notifications the seat helper forwards from the seat manager.
#[derive(Debug, Clone, Copy, PartialEq, Eq, Structural)]
pub enum SessionEvent {
    Activated,
    Deactivated,
    Terminated,
}

/// Whether the compositor may use the display hardware.
#[derive(Debug, Clone, Copy, PartialEq, Eq, Structural)]
pub enum SessionState {
    Inactive,
    Active,
    Terminating,
}

/// Why a device could not be opened.
#[derive(Debug, Clone, Copy, PartialEq, Eq, Structural)]
pub enum SessionError {
    NotPermitted,
    NoSuchDevice,
    SeatInactive,
}

/// The state an event leads to: each event names the state it enters.
pub open spec fn state_after(e: SessionEvent) -> SessionState {
    match e {
        SessionEvent::Activated => SessionState::Active,
        SessionEvent::Deactivated => SessionState::Inactive,
        SessionEvent::Terminated => SessionState::Terminating,
    }
}

/// The state after the events of `es`, in order, starting from `s`.
pub open spec fn state_after_all(s: SessionState, es: Seq<SessionEvent>) -> SessionState {
    if es.len() == 0 {
        s
    } else {
        state_after(es.last())
    }
}

pub fn next_state(e: SessionEvent) -> (s: SessionState)
    ensures
        s == state_after(e),
{
    match e {
        SessionEvent::Activated => SessionState::Active,
        SessionEvent::Deactivated => SessionState::Inactive,
        SessionEvent::Terminated => SessionState::Terminating,
    }
}

/// Descriptors other than `fd`.
pub open spec fn other_fd(fd: i32) -> spec_fn(i32) -> bool {
    |x: i32| x != fd
}

/// An open device: its path and the descriptor the seat manager gave for it.
pub struct OpenDevice {
    pub path: String,
    pub fd: i32,
}

/// The reactor's view of the session: its state and the devices opened
/// through the seat helper.
pub struct SessionManager {
    state: SessionState,
    devices: Vec<OpenDevice>,
}

impl SessionManager {
    pub closed spec fn state_spec(&self) -> SessionState {
        self.state
    }

    /// Descriptors of the open devices, in the order they were opened.
    pub closed spec fn fds(&self) -> Seq<i32> {
        self.devices@.map_values(|d: OpenDevice| d.fd)
    }

    /// A session starts inactive with no device open.
    pub fn new() -> (m: Self)
        ensures
            m.state_spec() == SessionState::Inactive,
            m.fds().len() == 0,
    {
        let m = SessionManager { state: SessionState::Inactive, devices: Vec::new() };
        proof {
            assert(m.fds() =~= Seq::<i32>::empty());
        }
        m
    }

    pub fn state(&self) -> (s: SessionState)
        ensures
            s == self.state_spec(),
    {
        self.state
    }

    /// Device access, and with it GPU submission, is valid only while active.
    pub fn is_active(&self) -> (b: bool)
        ensures
            b == (self.state_spec() == SessionState::Active),
    {
        match self.state {
            SessionState::Active => true,
            _ => false,
        }
    }

    /// Applies the events drained from the seat helper, in order, and hands
    /// them back.
    pub fn poll_events(&mut self, events: Vec<SessionEvent>) -> (r: Vec<SessionEvent>)
        ensures
            r@ == events@,
            final(self).state_spec() == state_after_all(old(self).state_spec(), events@),
            final(self).fds() == old(self).fds(),
    {
        let mut i: usize = 0;
        while i < events.len()
            invariant
                i <= events.len(),
                self.state == state_after_all(old(self).state, events@.subrange(0, i as int)),
                self.devices@ == old(self).devices@,
            decreases events.len() - i,
        {
            proof {
                assert(events@.subrange(0, i + 1).drop_last() =~= events@.subrange(0, i as int));
            }
            self.state = next_state(events[i]);
            i = i + 1;
        }
        proof {
            assert(events@.subrange(0, events@.len() as int) =~= events@);
        }
        events
    }

    /// Whether a device may be requested now.
    pub fn check_acquire(&self) -> (r: Result<(), SessionError>)
        ensures
            r is Ok <==> self.state_spec() == SessionState::Active,
            r is Err ==> r == Err::<(), SessionError>(SessionError::SeatInactive),
    {
        if self.is_active() {
            Ok(())
        } else {
            Err(SessionError::SeatInactive)
        }
    }

    /// Records a device the seat helper opened.
    pub fn record_device(&mut self, path: String, fd: i32)
        ensures
            final(self).state_spec() == old(self).state_spec(),
            final(self).fds() == old(self).fds().push(fd),
    {
        self.devices.push(OpenDevice { path, fd });
        proof {
            assert(self.fds() =~= old(self).fds().push(fd));
        }
    }

    /// Forgets every device with descriptor `fd`; releasing twice is harmless.
    /// Returns whether one was open.
    pub fn release_device(&mut self, fd: i32) -> (was_open: bool)
        ensures
            was_open == old(self).fds().contains(fd),
            final(self).fds() == old(self).fds().filter(other_fd(fd)),
            final(self).state_spec() == old(self).state_spec(),
    {
        let ghost f0 = self.fds();
        let ghost n = f0.len();
        let mut found = false;
        let mut i: usize = 0;
        let ghost mut j: int = 0;
        while i < self.devices.len()
            invariant
                f0 == old(self).fds(),
                n == f0.len(),
                self.state == old(self).state,
                0 <= j <= n,
                i == f0.subrange(0, j).filter(other_fd(fd)).len(),
                self.fds() == f0.subrange(0, j).filter(other_fd(fd)) + f0.subrange(j, n as int),
                found <==> exists|k: int| 0 <= k < j && f0[k] == fd,
            decreases n - j,
        {
            proof {
                lemma_filter_step(f0, other_fd(fd), j);
                assert(self.fds()[i as int] == f0[j]);
                assert(f0.subrange(0, j + 1) =~= f0.subrange(0, j).push(f0[j]));
            }
            if self.devices[i].fd == fd {
                let ghost fb = self.fds();
                self.devices.remove(i);
                found = true;
                proof {
                    assert(self.fds() =~= fb.remove(i as int));
                    assert(self.fds() =~= f0.subrange(0, j + 1).filter(other_fd(fd)) + f0.subrange(j + 1, n as int));
                    j = j + 1;
                }
            } else {
                i = i + 1;
                proof {
                    assert(self.fds() =~= f0.subrange(0, j + 1).filter(other_fd(fd)) + f0.subrange(j + 1, n as int));
                    j = j + 1;
                }
            }
        }
        proof {
            if j < n {
                assert(self.fds().len() == i + (n - j));
            }
            assert(f0.subrange(0, n as int) =~= f0);
            assert(f0.subrange(n as int, n as int) =~= Seq::<i32>::empty());
            assert(self.fds() =~= f0.filter(other_fd(fd)));
            if found {
                let k = choose|k: int| 0 <= k < j && f0[k] == fd;
                assert(f0.contains(fd));
            }
        }
        found
    }
}

} // verus!
