use vstd::prelude::*;

verus! {

/// The function a surface is given by a shell or input protocol.
#[derive(Debug, Clone, Copy, PartialEq, Eq, Structural)]
pub enum SurfaceRole {
    Toplevel,
    Popup,
    Layer,
    Cursor,
    Lock,
    DragIcon,
    Subsurface,
}

/// An axis-aligned rectangle in integer coordinates.
#[derive(Debug, Clone, Copy, PartialEq, Eq, Structural)]
pub struct Rect {
    pub x: i32,
    pub y: i32,
    pub width: i32,
    pub height: i32,
}

/// A damaged rectangle, in surface-local or in buffer coordinates.
#[derive(Debug, Clone, Copy, PartialEq, Eq, Structural)]
pub enum Damage {
    Surface(Rect),
    Buffer(Rect),
}

/// Where the pixels of an attached buffer live.
#[derive(Debug, Clone, Copy, PartialEq, Eq, Structural)]
pub enum BufferKind {
    /// Shared memory; `format` is a `wl_shm` format code.
    Shm { stride: u32 },
    /// A DMA-BUF; `format` is a DRM fourcc code.
    DmaBuf { modifier: u64 },
}

/// What the compositor reads of a client buffer.
#[derive(Debug, Clone, Copy, PartialEq, Eq, Structural)]
pub struct BufferInfo {
    /// Protocol id of the buffer object.
    pub id: u64,
    pub width: u32,
    pub height: u32,
    pub format: u32,
    pub kind: BufferKind,
}

/// A viewporter crop and destination size.
#[derive(Debug, Clone, Copy, PartialEq, Eq, Structural)]
pub struct Viewport {
    pub crop: Option<Rect>,
    pub dest_width: i32,
    pub dest_height: i32,
}

/// Errors a client's surface request can raise; each one disconnects the client.
#[derive(Debug, Clone, Copy, PartialEq, Eq, Structural)]
pub enum SurfaceError {
    /// The surface already has a different role.
    RoleAlreadyAssigned { current: SurfaceRole, requested: SurfaceRole },
    /// `set_buffer_scale` with a value below one.
    InvalidScale { scale: i32 },
    /// `set_buffer_transform` with a value outside the eight defined ones.
    InvalidTransform { transform: u32 },
}

/// The number of output transforms the protocol defines.
pub const TRANSFORM_COUNT: u32 = 8;

/// What the content of a surface is, as `wp_content_type_v1` reports it.
#[derive(Debug, Clone, Copy, PartialEq, Eq, Structural)]
pub enum ContentType {
    Unspecified,
    Photo,
    Video,
    Game,
}

/// What a commit does to the attached buffer.
#[derive(Debug, Clone, Copy, PartialEq, Eq, Structural)]
pub enum BufferChange {
    /// No `attach` since the last commit: the current buffer stays.
    Unchanged,
    Attach(BufferInfo),
    /// `attach` of no buffer: the surface is unmapped at the commit.
    Detach,
}

/// The buffer a surface shows after a commit that applies `change`.
pub open spec fn buffer_after(change: BufferChange, current: Option<BufferInfo>) -> Option<BufferInfo> {
    match change {
        BufferChange::Unchanged => current,
        BufferChange::Attach(b) => Some(b),
        BufferChange::Detach => None,
    }
}

/// One side of the double-buffered surface state, the attached buffer aside.
pub struct SurfaceAttributes {
    pub damage: Vec<Damage>,
    pub frame_callbacks: Vec<u32>,
    pub opaque_region: Vec<Rect>,
    /// `None` accepts input everywhere on the surface.
    pub input_region: Option<Vec<Rect>>,
    pub buffer_scale: i32,
    pub buffer_transform: u32,
    pub viewport: Option<Viewport>,
    pub content_type: ContentType,
}

/// The mathematical value of `SurfaceAttributes`.
pub struct AttributesModel {
    pub damage: Seq<Damage>,
    pub frame_callbacks: Seq<u32>,
    pub opaque_region: Seq<Rect>,
    pub input_region: Option<Seq<Rect>>,
    pub buffer_scale: i32,
    pub buffer_transform: u32,
    pub viewport: Option<Viewport>,
    pub content_type: ContentType,
}

impl View for SurfaceAttributes {
    type V = AttributesModel;

    open spec fn view(&self) -> AttributesModel {
        AttributesModel {
            damage: self.damage@,
            frame_callbacks: self.frame_callbacks@,
            opaque_region: self.opaque_region@,
            input_region: match self.input_region {
                Some(r) => Some(r@),
                None => None,
            },
            buffer_scale: self.buffer_scale,
            buffer_transform: self.buffer_transform,
            viewport: self.viewport,
            content_type: self.content_type,
        }
    }
}

/// The state a new surface starts with on both sides.
pub open spec fn initial_attributes() -> AttributesModel {
    AttributesModel {
        damage: Seq::empty(),
        frame_callbacks: Seq::empty(),
        opaque_region: Seq::empty(),
        input_region: None,
        buffer_scale: 1,
        buffer_transform: 0,
        viewport: None,
        content_type: ContentType::Unspecified,
    }
}

/// The pending state that remains after a commit: damage and frame callbacks
/// are consumed, every other attribute carries over. (The pending buffer is
/// consumed too; it is kept apart, see `BufferChange`.)
pub open spec fn after_commit(p: AttributesModel) -> AttributesModel {
    AttributesModel { damage: Seq::empty(), frame_callbacks: Seq::empty(), ..p }
}

/// Copies a vector of plain values element by element.
pub fn copy_vec<T: Copy>(v: &Vec<T>) -> (r: Vec<T>)
    ensures
        r@ == v@,
{
    let mut r: Vec<T> = Vec::new();
    let mut i: usize = 0;
    while i < v.len()
        invariant
            i <= v.len(),
            r@ == v@.subrange(0, i as int),
        decreases v.len() - i,
    {
        r.push(v[i]);
        i = i + 1;
        proof {
            assert(r@ =~= v@.subrange(0, i as int));
        }
    }
    proof {
        assert(r@ =~= v@);
    }
    r
}

/// The elements of `a` followed by those of `b`.
pub fn concat_vec<T: Copy>(a: &Vec<T>, b: &Vec<T>) -> (r: Vec<T>)
    ensures
        r@ == a@ + b@,
{
    let mut r = copy_vec(a);
    let mut i: usize = 0;
    while i < b.len()
        invariant
            i <= b@.len(),
            r@ == a@ + b@.subrange(0, i as int),
        decreases b@.len() - i,
    {
        r.push(b[i]);
        i = i + 1;
        proof {
            assert(r@ =~= a@ + b@.subrange(0, i as int));
        }
    }
    proof {
        assert(b@.subrange(0, b@.len() as int) =~= b@);
    }
    r
}

impl SurfaceAttributes {
    pub fn new() -> (a: Self)
        ensures
            a@ == initial_attributes(),
    {
        SurfaceAttributes {
            damage: Vec::new(),
            frame_callbacks: Vec::new(),
            opaque_region: Vec::new(),
            input_region: None,
            buffer_scale: 1,
            buffer_transform: 0,
            viewport: None,
            content_type: ContentType::Unspecified,
        }
    }

    /// An independent copy with the same value.
    pub fn duplicate(&self) -> (a: Self)
        ensures
            a@ == self@,
    {
        let input_region = match &self.input_region {
            Some(r) => Some(copy_vec(r)),
            None => None,
        };
        SurfaceAttributes {
            damage: copy_vec(&self.damage),
            frame_callbacks: copy_vec(&self.frame_callbacks),
            opaque_region: copy_vec(&self.opaque_region),
            input_region,
            buffer_scale: self.buffer_scale,
            buffer_transform: self.buffer_transform,
            viewport: self.viewport,
            content_type: self.content_type,
        }
    }
}

/// A frame callback waiting for the presentation of the commit that queued it.
#[derive(Debug, Clone, Copy, PartialEq, Eq, Structural)]
pub struct QueuedCallback {
    pub callback: u32,
    /// Sequence number of the commit that carried the callback.
    pub commit: u64,
}

/// A frame callback that was delivered to the client.
#[derive(Debug, Clone, Copy, PartialEq, Eq, Structural)]
pub struct FiredCallback {
    pub callback: u32,
    pub commit: u64,
    /// Milliseconds of the monotonic clock, truncated to 32 bits.
    pub time: u32,
}

/// The compositor's record of one client surface.
pub struct Surface {
    id: u64,
    role: Option<SurfaceRole>,
    pending: SurfaceAttributes,
    pending_buffer: BufferChange,
    current: SurfaceAttributes,
    current_buffer: Option<BufferInfo>,
    synchronized: bool,
    cached: Option<(SurfaceAttributes, BufferChange)>,
    commits: u64,
    queued: Vec<QueuedCallback>,
    last_callback_time: u32,
}

/// The mathematical value of `Surface`.
pub struct SurfaceModel {
    pub id: u64,
    pub role: Option<SurfaceRole>,
    pub pending: AttributesModel,
    /// What the next commit does to the buffer.
    pub pending_buffer: BufferChange,
    pub current: AttributesModel,
    /// The buffer the surface shows.
    pub current_buffer: Option<BufferInfo>,
    /// A subsurface in synchronized mode: its commits wait for the parent's.
    pub synchronized: bool,
    /// State committed by a synchronized subsurface and not yet applied.
    pub cached: Option<(AttributesModel, BufferChange)>,
    /// Number of commits so far; the n-th commit has sequence number n.
    pub commits: nat,
    pub queued: Seq<QueuedCallback>,
    pub last_callback_time: u32,
}

impl View for Surface {
    type V = SurfaceModel;

    closed spec fn view(&self) -> SurfaceModel {
        SurfaceModel {
            id: self.id,
            role: self.role,
            pending: self.pending@,
            pending_buffer: self.pending_buffer,
            current: self.current@,
            current_buffer: self.current_buffer,
            synchronized: self.synchronized,
            cached: match self.cached {
                Some(c) => Some((c.0@, c.1)),
                None => None,
            },
            commits: self.commits as nat,
            queued: self.queued@,
            last_callback_time: self.last_callback_time,
        }
    }
}

/// Every queued callback belongs to a commit that has happened, in commit order.
pub open spec fn queue_wf(q: Seq<QueuedCallback>, commits: nat) -> bool {
    &&& forall|i: int| 0 <= i < q.len() ==> 1 <= #[trigger] q[i].commit <= commits
    &&& forall|i: int, j: int| 0 <= i < j < q.len() ==> #[trigger] q[i].commit <= #[trigger] q[j].commit
}

/// The pending state after a damage request.
pub open spec fn with_damage(p: AttributesModel, d: Damage) -> AttributesModel {
    AttributesModel { damage: p.damage.push(d), ..p }
}

/// The outcome of asking for `role` on a surface in state `s`.
pub open spec fn role_transition(s: SurfaceModel, role: SurfaceRole) -> (SurfaceModel, Result<(), SurfaceError>) {
    match s.role {
        None => (SurfaceModel { role: Some(role), ..s }, Ok(())),
        Some(cur) => if cur == role {
            (s, Ok(()))
        } else {
            (s, Err(SurfaceError::RoleAlreadyAssigned { current: cur, requested: role }))
        },
    }
}

/// A request that changes only the pending side of a surface.
#[derive(Debug, Clone, Copy, PartialEq, Eq, Structural)]
pub enum PendingRequest {
    Attach(Option<BufferInfo>),
    Damage(Damage),
    Frame(u32),
    SetBufferScale(i32),
    SetBufferTransform(u32),
    SetViewport(Option<Viewport>),
    SetContentType(ContentType),
}

/// The pending state after `req`; an invalid scale or transform changes nothing.
pub open spec fn pending_after(p: AttributesModel, req: PendingRequest) -> AttributesModel {
    match req {
        PendingRequest::Attach(_) => p,
        PendingRequest::Damage(d) => with_damage(p, d),
        PendingRequest::Frame(c) => AttributesModel { frame_callbacks: p.frame_callbacks.push(c), ..p },
        PendingRequest::SetBufferScale(sc) => if sc >= 1 {
            AttributesModel { buffer_scale: sc, ..p }
        } else {
            p
        },
        PendingRequest::SetBufferTransform(t) => if t < TRANSFORM_COUNT {
            AttributesModel { buffer_transform: t, ..p }
        } else {
            p
        },
        PendingRequest::SetViewport(v) => AttributesModel { viewport: v, ..p },
        PendingRequest::SetContentType(c) => AttributesModel { content_type: c, ..p },
    }
}

/// The error `req` raises, if any.
pub open spec fn request_error(req: PendingRequest) -> Option<SurfaceError> {
    match req {
        PendingRequest::SetBufferScale(sc) => if sc < 1 {
            Some(SurfaceError::InvalidScale { scale: sc })
        } else {
            None
        },
        PendingRequest::SetBufferTransform(t) => if t >= TRANSFORM_COUNT {
            Some(SurfaceError::InvalidTransform { transform: t })
        } else {
            None
        },
        PendingRequest::Attach(_) => None,
        PendingRequest::Damage(_) => None,
        PendingRequest::Frame(_) => None,
        PendingRequest::SetViewport(_) => None,
        PendingRequest::SetContentType(_) => None,
    }
}

/// The surface after `req`.
pub open spec fn request_transition(s: SurfaceModel, req: PendingRequest) -> SurfaceModel {
    match req {
        PendingRequest::Attach(Some(b)) => SurfaceModel { pending_buffer: BufferChange::Attach(b), ..s },
        PendingRequest::Attach(None) => SurfaceModel { pending_buffer: BufferChange::Detach, ..s },
        _ => SurfaceModel { pending: pending_after(s.pending, req), ..s },
    }
}

/// The surface after the requests of `reqs`, in order.
pub open spec fn requests_transition(s: SurfaceModel, reqs: Seq<PendingRequest>) -> SurfaceModel
    decreases reqs.len(),
{
    if reqs.len() == 0 {
        s
    } else {
        request_transition(requests_transition(s, reqs.drop_last()), reqs.last())
    }
}

/// The surface after a commit that got sequence number `seq`.
pub open spec fn commit_transition(s: SurfaceModel) -> SurfaceModel {
    let seq = s.commits + 1;
    SurfaceModel {
        current: s.pending,
        current_buffer: buffer_after(s.pending_buffer, s.current_buffer),
        pending: after_commit(s.pending),
        pending_buffer: BufferChange::Unchanged,
        commits: seq,
        queued: s.queued + s.pending.frame_callbacks.map_values(
            |c: u32| QueuedCallback { callback: c, commit: seq as u64 },
        ),
        ..s
    }
}

/// The buffer a change attaches, if any.
pub open spec fn attached(c: BufferChange) -> Option<BufferInfo> {
    match c {
        BufferChange::Attach(b) => Some(b),
        _ => None,
    }
}

/// The cached state after a synchronized commit adds pending state `p` and
/// buffer change `pb` to it: the newer attributes win, damage and callbacks
/// accumulate, and a later attach or detach replaces an earlier one.
pub open spec fn cache_merge(c: Option<(AttributesModel, BufferChange)>, p: AttributesModel, pb: BufferChange) -> (
    AttributesModel,
    BufferChange,
) {
    match c {
        None => (p, pb),
        Some(old) => (
            AttributesModel {
                damage: old.0.damage + p.damage,
                frame_callbacks: old.0.frame_callbacks + p.frame_callbacks,
                ..p
            },
            if pb == BufferChange::Unchanged {
                old.1
            } else {
                pb
            },
        ),
    }
}

/// A commit on a synchronized subsurface: the pending state goes into the
/// cached state, not the current one, and the pending side is consumed.
pub open spec fn sync_commit_transition(s: SurfaceModel) -> SurfaceModel {
    SurfaceModel {
        cached: Some(cache_merge(s.cached, s.pending, s.pending_buffer)),
        pending: after_commit(s.pending),
        pending_buffer: BufferChange::Unchanged,
        ..s
    }
}

/// Applies the cached state as a commit would apply pending state, leaving
/// the pending side as it is.
pub open spec fn apply_cached_transition(s: SurfaceModel) -> SurfaceModel
    recommends
        s.cached is Some,
{
    let c = s.cached->0;
    let t = commit_transition(SurfaceModel { pending: c.0, pending_buffer: c.1, ..s });
    SurfaceModel { pending: s.pending, pending_buffer: s.pending_buffer, cached: None, ..t }
}

/// The parent of a synchronized subsurface committed: its cached state, if
/// any, is applied.
pub open spec fn parent_commit_transition(s: SurfaceModel) -> SurfaceModel {
    if s.synchronized && s.cached is Some {
        apply_cached_transition(s)
    } else {
        s
    }
}

/// What `wl_surface.commit` does in either mode: a synchronized subsurface
/// caches; any other surface applies its cached and pending state together.
pub open spec fn commit_request_transition(s: SurfaceModel) -> SurfaceModel {
    if s.synchronized {
        sync_commit_transition(s)
    } else if s.cached is Some {
        apply_cached_transition(sync_commit_transition(s))
    } else {
        commit_transition(s)
    }
}

/// A synchronized subsurface's commit is invisible until its parent commits;
/// then its current state is exactly the state it committed, attribute by
/// attribute and buffer included, and nothing stays cached.
pub proof fn subsurface_commit_waits_for_parent(s: SurfaceModel)
    requires
        s.synchronized,
        s.cached is None,
    ensures
        sync_commit_transition(s).current == s.current,
        sync_commit_transition(s).current_buffer == s.current_buffer,
        sync_commit_transition(s).commits == s.commits,
        parent_commit_transition(sync_commit_transition(s)).current == s.pending,
        parent_commit_transition(sync_commit_transition(s)).current_buffer == buffer_after(
            s.pending_buffer,
            s.current_buffer,
        ),
        parent_commit_transition(sync_commit_transition(s)).cached is None,
        parent_commit_transition(sync_commit_transition(s)).commits == s.commits + 1,
{
}

/// A surface's first role is permanent: once `r1` was granted (or the surface
/// had no role), a request for any other role `r2` fails and leaves the
/// surface exactly as it was.
pub proof fn role_uniqueness(s: SurfaceModel, r1: SurfaceRole, r2: SurfaceRole)
    requires
        r1 != r2,
        s.role is None || s.role == Some(r1),
    ensures
        ({
            let s1 = role_transition(s, r1).0;
            let (s2, res) = role_transition(s1, r2);
            &&& role_transition(s, r1).1 is Ok
            &&& s1.role == Some(r1)
            &&& res == Err::<(), SurfaceError>(
                SurfaceError::RoleAlreadyAssigned { current: r1, requested: r2 },
            )
            &&& s2 == s1
        }),
{
}

/// Pending requests are invisible until a commit, and a commit makes the
/// current state exactly the pending state accumulated by those requests,
/// the buffer being the one last attached (or none after a detach). After the
/// commit nothing is pending: no buffer change, no damage, no callback.
pub proof fn commit_atomicity(s: SurfaceModel, reqs: Seq<PendingRequest>)
    ensures
        requests_transition(s, reqs).current == s.current,
        requests_transition(s, reqs).current_buffer == s.current_buffer,
        requests_transition(s, reqs).commits == s.commits,
        commit_transition(requests_transition(s, reqs)).current == requests_transition(s, reqs).pending,
        commit_transition(requests_transition(s, reqs)).current_buffer == buffer_after(
            requests_transition(s, reqs).pending_buffer,
            s.current_buffer,
        ),
        commit_transition(requests_transition(s, reqs)).pending_buffer == BufferChange::Unchanged,
        commit_transition(requests_transition(s, reqs)).pending.damage.len() == 0,
        commit_transition(requests_transition(s, reqs)).pending.frame_callbacks.len() == 0,
    decreases reqs.len(),
{
    if reqs.len() > 0 {
        commit_atomicity(s, reqs.drop_last());
    }
}

/// The later of the clock reading and the last time delivered. This keeps a
/// surface's timestamps from going backwards; the price is that once the
/// 32-bit millisecond clock wraps (every 49.7 days), callbacks carry the last
/// time delivered, not the current reading, until the clock passes it again.
pub open spec fn callback_time(s: SurfaceModel, now: u32) -> u32 {
    if now >= s.last_callback_time {
        now
    } else {
        s.last_callback_time
    }
}

/// `post` and `fired` are the result of presenting a frame that shows commit
/// `drawn` of surface `pre` at clock reading `now`: exactly the callbacks
/// queued on commits up to `drawn` are delivered, in queue order, all with the
/// same timestamp, and the rest stay queued.
pub open spec fn presented(pre: SurfaceModel, post: SurfaceModel, drawn: nat, now: u32, fired: Seq<FiredCallback>) -> bool {
    let t = callback_time(pre, now);
    &&& fired.len() <= pre.queued.len()
    &&& forall|i: int| 0 <= i < fired.len() ==> #[trigger] fired[i] == (FiredCallback {
        callback: pre.queued[i].callback,
        commit: pre.queued[i].commit,
        time: t,
    })
    &&& forall|i: int| 0 <= i < fired.len() ==> #[trigger] pre.queued[i].commit <= drawn
    &&& forall|j: int| fired.len() <= j < pre.queued.len() ==> #[trigger] pre.queued[j].commit > drawn
    &&& post == (SurfaceModel {
        queued: pre.queued.subrange(fired.len() as int, pre.queued.len() as int),
        last_callback_time: t,
        ..pre
    })
}

/// A frame callback is delivered only once a frame showing its commit (or a
/// later one) has been presented, and the timestamps a surface's callbacks
/// carry never go backwards, within one presentation or across two.
pub proof fn frame_callback_causality(
    s0: SurfaceModel,
    s1: SurfaceModel,
    s2: SurfaceModel,
    drawn1: nat,
    drawn2: nat,
    now1: u32,
    now2: u32,
    fired1: Seq<FiredCallback>,
    fired2: Seq<FiredCallback>,
)
    requires
        presented(s0, s1, drawn1, now1, fired1),
        presented(s1, s2, drawn2, now2, fired2),
    ensures
        forall|i: int| 0 <= i < fired1.len() ==> #[trigger] fired1[i].commit <= drawn1,
        forall|i: int| 0 <= i < fired2.len() ==> #[trigger] fired2[i].commit <= drawn2,
        forall|i: int| 0 <= i < fired1.len() ==> s0.last_callback_time <= #[trigger] fired1[i].time,
        forall|i: int, j: int|
            0 <= i < fired1.len() && 0 <= j < fired2.len() ==> #[trigger] fired1[i].time
                <= #[trigger] fired2[j].time,
        s0.last_callback_time <= s1.last_callback_time <= s2.last_callback_time,
{
    assert forall|i: int| 0 <= i < fired1.len() implies #[trigger] fired1[i].commit <= drawn1 by {
        assert(fired1[i].commit == s0.queued[i].commit);
    }
    assert forall|i: int| 0 <= i < fired2.len() implies #[trigger] fired2[i].commit <= drawn2 by {
        assert(fired2[i].commit == s1.queued[i].commit);
    }
    assert forall|i: int, j: int|
        0 <= i < fired1.len() && 0 <= j < fired2.len() implies #[trigger] fired1[i].time
            <= #[trigger] fired2[j].time by {
        assert(fired1[i].time == s1.last_callback_time);
        assert(fired2[j].time == s2.last_callback_time);
    }
    assert forall|i: int| 0 <= i < fired1.len() implies s0.last_callback_time <= #[trigger] fired1[i].time by {
        assert(fired1[i].time == s1.last_callback_time);
    }
}

impl Surface {
    pub open spec fn wf(&self) -> bool {
        queue_wf(self@.queued, self@.commits)
    }

    /// A surface just created by `wl_compositor.create_surface`.
    pub fn new(id: u64) -> (s: Self)
        ensures
            s.wf(),
            s@.id == id,
            s@.role.is_none(),
            s@.pending == initial_attributes(),
            s@.current == initial_attributes(),
            s@.pending_buffer == BufferChange::Unchanged,
            s@.current_buffer is None,
            !s@.synchronized,
            s@.cached is None,
            s@.commits == 0,
            s@.queued.len() == 0,
            s@.last_callback_time == 0,
    {
        Surface {
            id,
            role: None,
            pending: SurfaceAttributes::new(),
            pending_buffer: BufferChange::Unchanged,
            current: SurfaceAttributes::new(),
            current_buffer: None,
            synchronized: false,
            cached: None,
            commits: 0,
            queued: Vec::new(),
            last_callback_time: 0,
        }
    }

    pub fn id(&self) -> (r: u64)
        ensures
            r == self@.id,
    {
        self.id
    }

    pub fn role(&self) -> (r: Option<SurfaceRole>)
        ensures
            r == self@.role,
    {
        self.role
    }

    pub fn commit_count(&self) -> (r: u64)
        ensures
            r == self@.commits,
    {
        self.commits
    }

    pub fn current(&self) -> (r: &SurfaceAttributes)
        ensures
            r@ == self@.current,
    {
        &self.current
    }

    pub fn pending(&self) -> (r: &SurfaceAttributes)
        ensures
            r@ == self@.pending,
    {
        &self.pending
    }

    pub fn queued_callbacks(&self) -> (r: &Vec<QueuedCallback>)
        ensures
            r@ == self@.queued,
    {
        &self.queued
    }

    pub fn last_callback_time(&self) -> (r: u32)
        ensures
            r == self@.last_callback_time,
    {
        self.last_callback_time
    }

    /// Gives the surface a role. A surface keeps its first role for its whole
    /// life: asking again for the same role changes nothing, asking for a
    /// different one is a protocol error and leaves the record untouched.
    pub fn assign_role(&mut self, role: SurfaceRole) -> (r: Result<(), SurfaceError>)
        ensures
            (final(self)@, r) == role_transition(old(self)@, role),
    {
        match self.role {
            None => {
                self.role = Some(role);
                Ok(())
            },
            Some(cur) => {
                if cur == role {
                    Ok(())
                } else {
                    Err(SurfaceError::RoleAlreadyAssigned { current: cur, requested: role })
                }
            },
        }
    }

    /// `wl_surface.attach`: `None` detaches the buffer at the next commit.
    pub fn attach(&mut self, buffer: Option<BufferInfo>)
        ensures
            final(self)@ == request_transition(old(self)@, PendingRequest::Attach(buffer)),
    {
        self.pending_buffer = match buffer {
            Some(b) => BufferChange::Attach(b),
            None => BufferChange::Detach,
        };
    }

    /// `wp_content_type_v1.set_content_type`.
    pub fn set_content_type(&mut self, content_type: ContentType)
        ensures
            final(self)@ == (SurfaceModel {
                pending: AttributesModel { content_type, ..old(self)@.pending },
                ..old(self)@
            }),
    {
        self.pending.content_type = content_type;
    }

    /// The buffer the surface shows.
    pub fn current_buffer(&self) -> (r: Option<BufferInfo>)
        ensures
            r == self@.current_buffer,
    {
        self.current_buffer
    }

    /// What the next commit does to the buffer.
    pub fn pending_buffer(&self) -> (r: BufferChange)
        ensures
            r == self@.pending_buffer,
    {
        self.pending_buffer
    }

    /// `wl_surface.damage` and `wl_surface.damage_buffer`.
    pub fn add_damage(&mut self, d: Damage)
        ensures
            final(self)@ == (SurfaceModel { pending: with_damage(old(self)@.pending, d), ..old(self)@ }),
    {
        self.pending.damage.push(d);
    }

    /// `wl_surface.frame`: asks for `callback` once this state is presented.
    pub fn request_frame(&mut self, callback: u32)
        ensures
            final(self)@ == (SurfaceModel {
                pending: AttributesModel {
                    frame_callbacks: old(self)@.pending.frame_callbacks.push(callback),
                    ..old(self)@.pending
                },
                ..old(self)@
            }),
    {
        self.pending.frame_callbacks.push(callback);
    }

    /// `wl_surface.set_opaque_region`; `None` clears the region.
    pub fn set_opaque_region(&mut self, region: Option<Vec<Rect>>)
        ensures
            final(self)@ == (SurfaceModel {
                pending: AttributesModel {
                    opaque_region: match region {
                        Some(r) => r@,
                        None => Seq::<Rect>::empty(),
                    },
                    ..old(self)@.pending
                },
                ..old(self)@
            }),
    {
        match region {
            Some(r) => {
                self.pending.opaque_region = r;
            },
            None => {
                self.pending.opaque_region = Vec::new();
            },
        }
    }

    /// `wl_surface.set_input_region`; `None` makes the whole surface accept input.
    pub fn set_input_region(&mut self, region: Option<Vec<Rect>>)
        ensures
            final(self)@ == (SurfaceModel {
                pending: AttributesModel {
                    input_region: match region {
                        Some(r) => Some(r@),
                        None => None,
                    },
                    ..old(self)@.pending
                },
                ..old(self)@
            }),
    {
        self.pending.input_region = region;
    }

    /// `wl_surface.set_buffer_scale`; the scale must be positive.
    pub fn set_buffer_scale(&mut self, scale: i32) -> (r: Result<(), SurfaceError>)
        ensures
            scale >= 1 ==> r is Ok && final(self)@ == (SurfaceModel {
                pending: AttributesModel { buffer_scale: scale, ..old(self)@.pending },
                ..old(self)@
            }),
            scale < 1 ==> r == Err::<(), SurfaceError>(SurfaceError::InvalidScale { scale })
                && final(self)@ == old(self)@,
    {
        if scale < 1 {
            return Err(SurfaceError::InvalidScale { scale });
        }
        self.pending.buffer_scale = scale;
        Ok(())
    }

    /// `wl_surface.set_buffer_transform`; values 0 to 7 are defined.
    pub fn set_buffer_transform(&mut self, transform: u32) -> (r: Result<(), SurfaceError>)
        ensures
            transform < TRANSFORM_COUNT ==> r is Ok && final(self)@ == (SurfaceModel {
                pending: AttributesModel { buffer_transform: transform, ..old(self)@.pending },
                ..old(self)@
            }),
            transform >= TRANSFORM_COUNT ==> r == Err::<(), SurfaceError>(
                SurfaceError::InvalidTransform { transform },
            ) && final(self)@ == old(self)@,
    {
        if transform >= TRANSFORM_COUNT {
            return Err(SurfaceError::InvalidTransform { transform });
        }
        self.pending.buffer_transform = transform;
        Ok(())
    }

    /// `wp_viewport.set_source` / `set_destination`; `None` removes the viewport.
    pub fn set_viewport(&mut self, viewport: Option<Viewport>)
        ensures
            final(self)@ == (SurfaceModel {
                pending: AttributesModel { viewport, ..old(self)@.pending },
                ..old(self)@
            }),
    {
        self.pending.viewport = viewport;
    }

    /// Applies one pending-state request; an invalid scale or transform is
    /// reported and leaves the surface unchanged.
    pub fn apply_request(&mut self, req: PendingRequest) -> (r: Result<(), SurfaceError>)
        ensures
            final(self)@ == request_transition(old(self)@, req),
            match request_error(req) {
                Some(e) => r == Err::<(), SurfaceError>(e),
                None => r is Ok,
            },
    {
        match req {
            PendingRequest::Attach(b) => {
                self.attach(b);
                Ok(())
            },
            PendingRequest::Damage(d) => {
                self.add_damage(d);
                Ok(())
            },
            PendingRequest::Frame(c) => {
                self.request_frame(c);
                Ok(())
            },
            PendingRequest::SetBufferScale(sc) => self.set_buffer_scale(sc),
            PendingRequest::SetBufferTransform(t) => self.set_buffer_transform(t),
            PendingRequest::SetViewport(v) => {
                self.set_viewport(v);
                Ok(())
            },
            PendingRequest::SetContentType(c) => {
                self.set_content_type(c);
                Ok(())
            },
        }
    }

    /// Called when a frame that shows commit `drawn` of this surface has been
    /// presented at clock reading `now_ms`: delivers the callbacks queued on
    /// that commit or an earlier one, with a timestamp no earlier than any the
    /// surface delivered before.
    pub fn frame_presented(&mut self, drawn: u64, now_ms: u32) -> (fired: Vec<FiredCallback>)
        requires
            old(self).wf(),
            drawn <= old(self)@.commits,
        ensures
            final(self).wf(),
            presented(old(self)@, final(self)@, drawn as nat, now_ms, fired@),
    {
        let t = if now_ms >= self.last_callback_time {
            now_ms
        } else {
            self.last_callback_time
        };
        let ghost q = self@.queued;
        let mut fired: Vec<FiredCallback> = Vec::new();
        let mut k: usize = 0;
        while k < self.queued.len() && self.queued[k].commit <= drawn
            invariant
                q == self@.queued,
                queue_wf(q, self@.commits),
                k <= q.len(),
                fired@.len() == k,
                forall|i: int| 0 <= i < k ==> #[trigger] fired@[i] == (FiredCallback {
                    callback: q[i].callback,
                    commit: q[i].commit,
                    time: t,
                }),
                forall|i: int| 0 <= i < k ==> #[trigger] q[i].commit <= drawn,
            decreases q.len() - k,
        {
            let qc = self.queued[k];
            fired.push(FiredCallback { callback: qc.callback, commit: qc.commit, time: t });
            k = k + 1;
        }
        proof {
            assert forall|j: int| k <= j < q.len() implies #[trigger] q[j].commit > drawn by {
                assert(q[k as int].commit <= q[j].commit);
            }
        }
        let mut rest: Vec<QueuedCallback> = Vec::new();
        let mut j: usize = k;
        while j < self.queued.len()
            invariant
                q == self@.queued,
                k <= j <= q.len(),
                rest@ == q.subrange(k as int, j as int),
            decreases q.len() - j,
        {
            rest.push(self.queued[j]);
            j = j + 1;
            proof {
                assert(rest@ =~= q.subrange(k as int, j as int));
            }
        }
        self.queued = rest;
        self.last_callback_time = t;
        proof {
            let nq = self@.queued;
            assert forall|i: int| 0 <= i < nq.len() implies 1 <= #[trigger] nq[i].commit <= self@.commits by {
                assert(nq[i] == q[i + k]);
            }
            assert forall|i: int, j: int| 0 <= i < j < nq.len() implies #[trigger] nq[i].commit
                <= #[trigger] nq[j].commit by {
                assert(nq[i] == q[i + k]);
                assert(nq[j] == q[j + k]);
            }
        }
        fired
    }

    /// `wl_surface.commit`, returning with the sequence number the buffer
    /// that this commit attached, if any: that buffer is the one to import.
    /// A commit with no new `attach`, or a detach, imports nothing.
    pub fn commit_for_import(&mut self) -> (r: (u64, Option<BufferInfo>))
        requires
            old(self).wf(),
            old(self)@.commits < u64::MAX,
            !old(self)@.synchronized,
            old(self)@.cached is None,
        ensures
            final(self).wf(),
            r.0 == old(self)@.commits + 1,
            final(self)@ == commit_transition(old(self)@),
            r.1 == (match old(self)@.pending_buffer {
                BufferChange::Attach(b) => Some(b),
                _ => None,
            }),
    {
        let attached = match self.pending_buffer {
            BufferChange::Attach(b) => Some(b),
            _ => None,
        };
        let seq = self.commit();
        (seq, attached)
    }

    /// `wl_subsurface.set_sync` (`true`) and `set_desync` (`false`). Cached
    /// state stays cached until the next commit that applies it.
    pub fn set_synchronized(&mut self, synchronized: bool)
        ensures
            final(self)@ == (SurfaceModel { synchronized, ..old(self)@ }),
    {
        self.synchronized = synchronized;
    }

    pub fn is_synchronized(&self) -> (r: bool)
        ensures
            r == self@.synchronized,
    {
        self.synchronized
    }

    /// Whether committed state waits for the parent's commit.
    pub fn has_cached_state(&self) -> (r: bool)
        ensures
            r == self@.cached is Some,
    {
        self.cached.is_some()
    }

    /// Moves the pending state into the cached state.
    fn cache_pending(&mut self)
        ensures
            final(self).wf() == old(self).wf(),
            final(self)@ == sync_commit_transition(old(self)@),
    {
        let p = self.pending.duplicate();
        let pb = self.pending_buffer;
        let merged = match self.cached.take() {
            None => (p, pb),
            Some((ca, cb)) => {
                let mut m = p;
                m.damage = concat_vec(&ca.damage, &self.pending.damage);
                m.frame_callbacks = concat_vec(&ca.frame_callbacks, &self.pending.frame_callbacks);
                let change = match pb {
                    BufferChange::Unchanged => cb,
                    _ => pb,
                };
                (m, change)
            },
        };
        self.cached = Some(merged);
        self.pending.damage = Vec::new();
        self.pending.frame_callbacks = Vec::new();
        self.pending_buffer = BufferChange::Unchanged;
        proof {
            assert(self.pending.damage@ =~= Seq::<Damage>::empty());
            assert(self.pending.frame_callbacks@ =~= Seq::<u32>::empty());
            assert(self@ =~= sync_commit_transition(old(self)@));
        }
    }

    /// Applies the cached state as a commit; returns the commit's number and
    /// the buffer the cached state attached, if any.
    fn apply_cached(&mut self) -> (r: (u64, Option<BufferInfo>))
        requires
            old(self).wf(),
            old(self)@.commits < u64::MAX,
            old(self)@.cached is Some,
        ensures
            final(self).wf(),
            final(self)@ == apply_cached_transition(old(self)@),
            r.0 == old(self)@.commits + 1,
            r.1 == (match (old(self)@.cached->0).1 {
                BufferChange::Attach(b) => Some(b),
                _ => None,
            }),
    {
        let ghost s0 = self@;
        let c = self.cached.take();
        match c {
            Some(c) => {
                let (mut attrs, change) = c;
                std::mem::swap(&mut self.pending, &mut attrs);
                let saved = self.pending_buffer;
                self.pending_buffer = change;
                let attached = match change {
                    BufferChange::Attach(b) => Some(b),
                    _ => None,
                };
                proof {
                    assert(self@ == (SurfaceModel {
                        pending: (s0.cached->0).0,
                        pending_buffer: (s0.cached->0).1,
                        cached: None,
                        ..s0
                    }));
                }
                let seq = self.promote();
                self.pending = attrs;
                self.pending_buffer = saved;
                proof {
                    assert(self@ =~= apply_cached_transition(s0));
                }
                (seq, attached)
            },
            None => {
                proof {
                    assert(false);
                }
                (0, None)
            },
        }
    }

    /// `wl_surface.commit` in either mode: a synchronized subsurface caches
    /// its pending state and returns `None`; any other surface applies its
    /// cached and pending state together and returns the commit's number and
    /// the buffer to import, if the applied state attached one.
    pub fn commit_request(&mut self) -> (r: Option<(u64, Option<BufferInfo>)>)
        requires
            old(self).wf(),
            old(self)@.commits < u64::MAX,
        ensures
            final(self).wf(),
            final(self)@ == commit_request_transition(old(self)@),
            old(self)@.synchronized ==> r is None,
            !old(self)@.synchronized ==> r == Some::<(u64, Option<BufferInfo>)>(
                (
                    (old(self)@.commits + 1) as u64,
                    attached(cache_merge(old(self)@.cached, old(self)@.pending, old(self)@.pending_buffer).1),
                ),
            ),
    {
        if self.synchronized {
            self.cache_pending();
            None
        } else if self.cached.is_some() {
            self.cache_pending();
            Some(self.apply_cached())
        } else {
            let attached = match self.pending_buffer {
                BufferChange::Attach(b) => Some(b),
                _ => None,
            };
            Some((self.promote(), attached))
        }
    }

    /// The parent of this subsurface committed: a synchronized subsurface
    /// applies its cached state and returns the commit's number and the buffer
    /// to import, if any; otherwise nothing happens.
    pub fn parent_committed(&mut self) -> (r: Option<(u64, Option<BufferInfo>)>)
        requires
            old(self).wf(),
            old(self)@.commits < u64::MAX,
        ensures
            final(self).wf(),
            final(self)@ == parent_commit_transition(old(self)@),
            (old(self)@.synchronized && old(self)@.cached is Some) ==> r == Some::<(u64, Option<BufferInfo>)>(
                ((old(self)@.commits + 1) as u64, attached((old(self)@.cached->0).1)),
            ),
            !(old(self)@.synchronized && old(self)@.cached is Some) ==> r is None,
    {
        if self.synchronized && self.cached.is_some() {
            Some(self.apply_cached())
        } else {
            None
        }
    }

    /// `wl_surface.commit` on a surface that is not a synchronized subsurface
    /// and holds no cached state: the pending state becomes the current state
    /// in one step, the callbacks it carried are queued under this commit's
    /// sequence number, and the pending side keeps everything but the buffer
    /// change, damage and callbacks. Returns the sequence number of this commit.
    pub fn commit(&mut self) -> (seq: u64)
        requires
            old(self).wf(),
            old(self)@.commits < u64::MAX,
            !old(self)@.synchronized,
            old(self)@.cached is None,
        ensures
            final(self).wf(),
            seq == old(self)@.commits + 1,
            final(self)@ == commit_transition(old(self)@),
    {
        self.promote()
    }

    /// Makes the pending state current; see `commit`.
    fn promote(&mut self) -> (seq: u64)
        requires
            old(self).wf(),
            old(self)@.commits < u64::MAX,
        ensures
            final(self).wf(),
            seq == old(self)@.commits + 1,
            final(self)@ == commit_transition(old(self)@),
    {
        let seq = self.commits + 1;
        let ghost q0 = self@.queued;
        let ghost cbs = self@.pending.frame_callbacks;
        let mut i: usize = 0;
        while i < self.pending.frame_callbacks.len()
            invariant
                i <= cbs.len(),
                cbs == old(self)@.pending.frame_callbacks,
                q0 == old(self)@.queued,
                seq == old(self)@.commits + 1,
                self@ == (SurfaceModel { queued: self@.queued, ..old(self)@ }),
                self.queued@ == q0 + cbs.subrange(0, i as int).map_values(
                    |c: u32| QueuedCallback { callback: c, commit: seq },
                ),
            decreases cbs.len() - i,
        {
            let c = self.pending.frame_callbacks[i];
            self.queued.push(QueuedCallback { callback: c, commit: seq });
            i = i + 1;
            proof {
                assert(self.queued@ =~= q0 + cbs.subrange(0, i as int).map_values(
                    |c: u32| QueuedCallback { callback: c, commit: seq },
                ));
            }
        }
        proof {
            assert(cbs.subrange(0, cbs.len() as int) =~= cbs);
        }
        self.current = self.pending.duplicate();
        self.current_buffer = match self.pending_buffer {
            BufferChange::Unchanged => self.current_buffer,
            BufferChange::Attach(b) => Some(b),
            BufferChange::Detach => None,
        };
        self.pending_buffer = BufferChange::Unchanged;
        self.pending.damage = Vec::new();
        self.pending.frame_callbacks = Vec::new();
        self.commits = seq;
        proof {
            assert(self.pending.damage@ =~= Seq::<Damage>::empty());
            assert(self.pending.frame_callbacks@ =~= Seq::<u32>::empty());
            assert(self.pending@ == after_commit(old(self)@.pending));
            let q = self.queued@;
            assert forall|i: int| 0 <= i < q.len() implies 1 <= #[trigger] q[i].commit <= seq by {
                if i >= q0.len() {
                    assert(q[i].commit == seq);
                }
            }
            assert forall|i: int, j: int| 0 <= i < j < q.len() implies #[trigger] q[i].commit
                <= #[trigger] q[j].commit by {
                if j >= q0.len() {
                    assert(q[j].commit == seq);
                    if i < q0.len() {
                        assert(q[i] == q0[i]);
                    }
                } else {
                    assert(q[i] == q0[i]);
                    assert(q[j] == q0[j]);
                }
            }
        }
        seq
    }
}

} // verus!
