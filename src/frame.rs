use vstd::prelude::*;
use crate::session::SessionState;

verus! {

/// The timestamp frame callbacks carry: milliseconds of the monotonic clock,
/// truncated to 32 bits.
pub fn frame_time_ms(now_ms: u64) -> (t: u32)
    ensures
        t == now_ms % 0x1_0000_0000,
{
    (now_ms % 0x1_0000_0000) as u32
}

/// What the renderer last presented of a surface, and what it holds now.
#[derive(Debug, Clone, Copy, PartialEq, Eq, Structural)]
pub struct RedrawInput {
    /// Buffer shown in the last presented frame, if any.
    pub presented_buffer: Option<u64>,
    /// Buffer of the current state, if any.
    pub current_buffer: Option<u64>,
    /// Damage rectangles posted since the last presented frame.
    pub damage_count: usize,
}

/// A surface needs a new frame when damage was posted or its buffer changed;
/// with neither, the previous frame still shows it correctly.
pub fn needs_redraw(input: RedrawInput) -> (r: bool)
    ensures
        r == (input.damage_count > 0 || input.presented_buffer != input.current_buffer),
{
    input.damage_count > 0 || input.presented_buffer != input.current_buffer
}

/// GPU work is submitted only while the session is active and an output
/// has a swapchain.
pub fn may_submit(session: SessionState, has_swapchain: bool) -> (r: bool)
    ensures
        r == (session == SessionState::Active && has_swapchain),
{
    match session {
        SessionState::Active => has_swapchain,
        _ => false,
    }
}

/// Round-robin frame slots, one per swapchain image: a slot's fence is waited
/// on before its command buffer is reused.
pub struct FrameSlots {
    count: u32,
    current: u32,
}

impl FrameSlots {
    pub closed spec fn count_spec(&self) -> u32 {
        self.count
    }

    pub closed spec fn current_spec(&self) -> u32 {
        self.current
    }

    pub open spec fn wf(&self) -> bool {
        self.current_spec() < self.count_spec()
    }

    pub fn new(count: u32) -> (s: Self)
        requires
            count > 0,
        ensures
            s.wf(),
            s.count_spec() == count,
            s.current_spec() == 0,
    {
        FrameSlots { count, current: 0 }
    }

    pub fn current(&self) -> (r: u32)
        ensures
            r == self.current_spec(),
    {
        self.current
    }

    /// Moves to the next slot and returns it.
    pub fn advance(&mut self) -> (r: u32)
        requires
            old(self).wf(),
        ensures
            final(self).wf(),
            final(self).count_spec() == old(self).count_spec(),
            r == final(self).current_spec(),
            r == (old(self).current_spec() + 1) % (old(self).count_spec() as int),
    {
        let c = self.current;
        let n = self.count;
        self.current = if c + 1 == n {
            0
        } else {
            c + 1
        };
        proof {
            if c + 1 == n {
                assert((c + 1) % (n as int) == 0) by (nonlinear_arith)
                    requires c + 1 == n, n > 0;
            } else {
                assert((c + 1) % (n as int) == c + 1) by (nonlinear_arith)
                    requires c + 1 < n, c + 1 >= 0;
            }
        }
        self.current
    }
}

/// Whether the session lock protocol holds the screen.
#[derive(Debug, Clone, Copy, PartialEq, Eq, Structural)]
pub enum LockState {
    Unlocked,
    /// Locked; `locker_alive` is false once the locking client is gone.
    Locked { locker_alive: bool },
}

/// `ext_session_lock_v1.lock`.
pub fn lock(state: LockState) -> (r: LockState)
    ensures
        r == (LockState::Locked { locker_alive: true }),
{
    LockState::Locked { locker_alive: true }
}

/// `unlock_and_destroy` from the locking client.
pub fn unlock(state: LockState) -> (r: LockState)
    ensures
        r == LockState::Unlocked,
{
    LockState::Unlocked
}

/// The locking client died without unlocking: the screen stays locked until
/// an authorized unlock.
pub fn locker_died(state: LockState) -> (r: LockState)
    ensures
        state == LockState::Unlocked ==> r == LockState::Unlocked,
        state != LockState::Unlocked ==> r == (LockState::Locked { locker_alive: false }),
{
    match state {
        LockState::Unlocked => LockState::Unlocked,
        LockState::Locked { .. } => LockState::Locked { locker_alive: false },
    }
}

/// Which surfaces a frame shows: normal windows when unlocked, only lock
/// surfaces while locked.
pub fn frame_content(state: LockState, windows: Vec<u64>, lock_surfaces: Vec<u64>) -> (r: Vec<u64>)
    ensures
        state == LockState::Unlocked ==> r@ == windows@,
        state != LockState::Unlocked ==> r@ == lock_surfaces@,
{
    match state {
        LockState::Unlocked => windows,
        LockState::Locked { .. } => lock_surfaces,
    }
}

} // verus!
