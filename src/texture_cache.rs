use vstd::prelude::*;
use std::collections::HashMap;
use crate::formats::{TextureFormat, shm_texture_format, dmabuf_texture_format, shm_texture_spec, dmabuf_texture_spec};
use crate::surface::{BufferInfo, BufferKind};
use crate::seq_facts::{lemma_filter_step, lemma_filter_member, lemma_filter_keeps};

verus! {

broadcast use vstd::std_specs::hash::group_hash_axioms;

/// The GPU-side mirror of a surface's current buffer.
#[derive(Debug, Clone, Copy, PartialEq, Eq, Structural)]
pub struct TextureEntry {
    pub buffer_id: u64,
    pub width: u32,
    pub height: u32,
    pub format: TextureFormat,
    /// Distinguishes successive textures; never reused by a cache.
    pub generation: u64,
}

/// One texture as a frame refers to it.
#[derive(Debug, Clone, Copy, PartialEq, Eq, Structural)]
pub struct TextureRef {
    pub surface: u64,
    pub generation: u64,
}

/// A submitted frame whose GPU work has not finished.
pub struct InFlightFrame {
    pub frame: u64,
    pub refs: Vec<TextureRef>,
}

/// When the client may reuse a buffer whose texture was made.
#[derive(Debug, Clone, Copy, PartialEq, Eq, Structural)]
pub enum ReleasePoint {
    /// The pixels were copied: release once the frame showing them is presented.
    AfterPresent,
    /// The texture samples the buffer itself: release when `frame_completed`
    /// or `evict` frees that texture.
    WhenTextureFreed,
}

/// Shared-memory buffers are copied at import; DMA-BUFs are sampled in place.
pub fn release_point(kind: BufferKind) -> (r: ReleasePoint)
    ensures
        r == (match kind {
            BufferKind::Shm { .. } => ReleasePoint::AfterPresent,
            BufferKind::DmaBuf { .. } => ReleasePoint::WhenTextureFreed,
        }),
{
    match kind {
        BufferKind::Shm { .. } => ReleasePoint::AfterPresent,
        BufferKind::DmaBuf { .. } => ReleasePoint::WhenTextureFreed,
    }
}

/// The mathematical value of an in-flight frame.
pub open spec fn frame_model(f: InFlightFrame) -> (u64, Seq<TextureRef>) {
    (f.frame, f.refs@)
}

pub open spec fn frames_model(v: Seq<InFlightFrame>) -> Seq<(u64, Seq<TextureRef>)> {
    v.map_values(|f: InFlightFrame| frame_model(f))
}

/// Frames other than `frame`.
pub open spec fn other_frame(frame: u64) -> spec_fn((u64, Seq<TextureRef>)) -> bool {
    |f: (u64, Seq<TextureRef>)| f.0 != frame
}

/// Textures some frame of `frames` still uses.
pub open spec fn in_use(frames: Seq<(u64, Seq<TextureRef>)>) -> spec_fn(TextureRef) -> bool {
    |r: TextureRef| referenced(frames, r)
}

/// Textures no frame of `frames` uses.
pub open spec fn unused(frames: Seq<(u64, Seq<TextureRef>)>) -> spec_fn(TextureRef) -> bool {
    |r: TextureRef| !referenced(frames, r)
}

/// The textures a frame draws for the surfaces `ss`, back to front: those
/// without a texture are skipped.
pub open spec fn drawn_refs(t: Map<u64, TextureEntry>, ss: Seq<u64>) -> Seq<TextureRef>
    decreases ss.len(),
{
    if ss.len() == 0 {
        Seq::empty()
    } else {
        let rest = drawn_refs(t, ss.drop_last());
        let s = ss.last();
        if t.contains_key(s) {
            rest.push(TextureRef { surface: s, generation: t[s].generation })
        } else {
            rest
        }
    }
}

/// Whether a frame of `frames` uses `r`.
fn frames_reference(frames: &Vec<InFlightFrame>, r: TextureRef) -> (b: bool)
    ensures
        b == referenced(frames_model(frames@), r),
{
    let ghost fm = frames_model(frames@);
    let mut i: usize = 0;
    while i < frames.len()
        invariant
            i <= frames.len(),
            fm == frames_model(frames@),
            forall|a: int, c: int| 0 <= a < i && 0 <= c < fm[a].1.len() ==> #[trigger] fm[a].1[c] != r,
        decreases frames.len() - i,
    {
        let refs = &frames[i].refs;
        let mut j: usize = 0;
        while j < refs.len()
            invariant
                i < frames.len(),
                j <= refs.len(),
                refs@ == fm[i as int].1,
                fm == frames_model(frames@),
                forall|c: int| 0 <= c < j ==> #[trigger] fm[i as int].1[c] != r,
            decreases refs.len() - j,
        {
            if refs[j] == r {
                proof {
                    assert(fm[i as int].1[j as int] == r);
                }
                return true;
            }
            j = j + 1;
        }
        i = i + 1;
    }
    false
}

/// The texture format chosen for a buffer.
pub open spec fn format_of(b: BufferInfo) -> TextureFormat {
    match b.kind {
        BufferKind::Shm { .. } => shm_texture_spec(b.format),
        BufferKind::DmaBuf { .. } => dmabuf_texture_spec(b.format),
    }
}

/// The texture made from buffer `b`.
pub open spec fn texture_of(b: BufferInfo, generation: u64) -> TextureEntry {
    TextureEntry { buffer_id: b.id, width: b.width, height: b.height, format: format_of(b), generation }
}

/// The mathematical value of a `TextureCache`.
pub struct CacheModel {
    pub textures: Map<u64, TextureEntry>,
    pub next_generation: nat,
    pub frames: Seq<(u64, Seq<TextureRef>)>,
    pub retired: Seq<TextureRef>,
}

/// `r` names the live texture of its surface.
pub open spec fn is_live(m: CacheModel, r: TextureRef) -> bool {
    m.textures.contains_key(r.surface) && m.textures[r.surface].generation == r.generation
}

/// Some frame in `frames` uses `r`.
pub open spec fn referenced(frames: Seq<(u64, Seq<TextureRef>)>, r: TextureRef) -> bool {
    exists|i: int, j: int| 0 <= i < frames.len() && 0 <= j < frames[i].1.len() && #[trigger] frames[i].1[j] == r
}

/// Every texture that an unfinished frame uses is still allocated: live in
/// the cache or kept among the retired ones.
pub open spec fn no_dangling(m: CacheModel) -> bool {
    forall|i: int, j: int|
        0 <= i < m.frames.len() && 0 <= j < m.frames[i].1.len() ==> is_live(m, #[trigger] m.frames[i].1[j])
            || m.retired.contains(m.frames[i].1[j])
}

/// The cache after a commit of buffer `b` on surface `s`.
pub open spec fn commit_step(m: CacheModel, s: u64, b: BufferInfo) -> CacheModel {
    CacheModel {
        textures: m.textures.insert(s, texture_of(b, m.next_generation as u64)),
        next_generation: m.next_generation + 1,
        retired: if m.textures.contains_key(s) {
            m.retired.push(TextureRef { surface: s, generation: m.textures[s].generation })
        } else {
            m.retired
        },
        ..m
    }
}

/// The cache after the commits of `cs`, in order.
pub open spec fn commits_step(m: CacheModel, cs: Seq<(u64, BufferInfo)>) -> CacheModel
    decreases cs.len(),
{
    if cs.len() == 0 {
        m
    } else {
        let m1 = commits_step(m, cs.drop_last());
        commit_step(m1, cs.last().0, cs.last().1)
    }
}

/// After a commit of buffer `b` on surface `s`, a lookup of `s` finds a
/// texture made from `b`, with a generation no other texture had, and commits
/// on other surfaces do not change that.
pub proof fn texture_currency(m: CacheModel, s: u64, b: BufferInfo, others: Seq<(u64, BufferInfo)>)
    requires
        forall|k: int| 0 <= k < others.len() ==> #[trigger] others[k].0 != s,
    ensures
        ({
            let m2 = commits_step(commit_step(m, s, b), others);
            &&& m2.textures.contains_key(s)
            &&& m2.textures[s] == texture_of(b, m.next_generation as u64)
            &&& m2.textures[s].buffer_id == b.id
            &&& m2.textures[s].width == b.width
            &&& m2.textures[s].height == b.height
        }),
    decreases others.len(),
{
    if others.len() > 0 {
        let rest = others.drop_last();
        assert forall|k: int| 0 <= k < rest.len() implies #[trigger] rest[k].0 != s by {
            assert(rest[k] == others[k]);
        }
        texture_currency(m, s, b, rest);
        assert(others.last().0 != s);
    }
}

proof fn lemma_drawn_refs_has(t: Map<u64, TextureEntry>, ss: Seq<u64>, k: int)
    requires
        0 <= k < ss.len(),
        t.contains_key(ss[k]),
    ensures
        drawn_refs(t, ss).contains(TextureRef { surface: ss[k], generation: t[ss[k]].generation }),
    decreases ss.len(),
{
    let r = TextureRef { surface: ss[k], generation: t[ss[k]].generation };
    let rest = drawn_refs(t, ss.drop_last());
    if k == ss.len() - 1 {
        assert(drawn_refs(t, ss)[drawn_refs(t, ss).len() - 1] == r);
    } else {
        assert(ss.drop_last()[k] == ss[k]);
        lemma_drawn_refs_has(t, ss.drop_last(), k);
        let i = choose|i: int| 0 <= i < rest.len() && rest[i] == r;
        if t.contains_key(ss.last()) {
            assert(drawn_refs(t, ss)[i] == r);
        }
    }
}

/// Commits on two surfaces are both visible in the first frame recorded
/// after the later one: the frame samples the texture of each commit.
pub proof fn commits_visible_in_next_frame(
    m: CacheModel,
    a: u64,
    buffer_a: BufferInfo,
    b: u64,
    buffer_b: BufferInfo,
    drawn: Seq<u64>,
)
    requires
        a != b,
        drawn.contains(a),
        drawn.contains(b),
    ensures
        ({
            let m1 = commit_step(m, a, buffer_a);
            let m2 = commit_step(m1, b, buffer_b);
            let refs = drawn_refs(m2.textures, drawn);
            &&& m2.textures[a] == texture_of(buffer_a, m.next_generation as u64)
            &&& m2.textures[b] == texture_of(buffer_b, m1.next_generation as u64)
            &&& refs.contains(TextureRef { surface: a, generation: m.next_generation as u64 })
            &&& refs.contains(TextureRef { surface: b, generation: m1.next_generation as u64 })
        }),
{
    let m1 = commit_step(m, a, buffer_a);
    let m2 = commit_step(m1, b, buffer_b);
    let ka = choose|k: int| 0 <= k < drawn.len() && drawn[k] == a;
    let kb = choose|k: int| 0 <= k < drawn.len() && drawn[k] == b;
    lemma_drawn_refs_has(m2.textures, drawn, ka);
    lemma_drawn_refs_has(m2.textures, drawn, kb);
}

/// Maps surface ids to their textures and keeps replaced textures alive
/// while a frame in flight may still sample them.
pub struct TextureCache {
    textures: HashMap<u64, TextureEntry>,
    next_generation: u64,
    in_flight: Vec<InFlightFrame>,
    retired: Vec<TextureRef>,
}

proof fn lemma_drawn_refs_live(t: Map<u64, TextureEntry>, ss: Seq<u64>)
    ensures
        forall|k: int| 0 <= k < drawn_refs(t, ss).len() ==> {
            let r = #[trigger] drawn_refs(t, ss)[k];
            t.contains_key(r.surface) && t[r.surface].generation == r.generation
        },
    decreases ss.len(),
{
    if ss.len() > 0 {
        lemma_drawn_refs_live(t, ss.drop_last());
    }
}

impl TextureCache {
    pub closed spec fn model(&self) -> CacheModel {
        CacheModel {
            textures: self.textures@,
            next_generation: self.next_generation as nat,
            frames: frames_model(self.in_flight@),
            retired: self.retired@,
        }
    }

    pub open spec fn wf(&self) -> bool {
        &&& no_dangling(self.model())
        &&& forall|s: u64| #[trigger] self.model().textures.contains_key(s)
            ==> self.model().textures[s].generation < self.model().next_generation
    }

    pub fn new() -> (c: Self)
        ensures
            c.wf(),
            c.model().textures.is_empty(),
            c.model().frames.len() == 0,
            c.model().retired.len() == 0,
    {
        let c = TextureCache {
            textures: HashMap::new(),
            next_generation: 0,
            in_flight: Vec::new(),
            retired: Vec::new(),
        };
        proof {
            assert(c.model().textures =~= Map::empty());
        }
        c
    }

    /// Makes the texture for a commit of `buffer` on `surface` the surface's
    /// texture. A texture it replaces is retired, not freed. Returns the new
    /// entry, which the renderer fills from the buffer.
    pub fn on_commit(&mut self, surface: u64, buffer: BufferInfo) -> (e: TextureEntry)
        requires
            old(self).wf(),
            old(self).model().next_generation < u64::MAX,
        ensures
            final(self).wf(),
            e == texture_of(buffer, old(self).model().next_generation as u64),
            final(self).model() == commit_step(old(self).model(), surface, buffer),
    {
        let format = match buffer.kind {
            BufferKind::Shm { .. } => shm_texture_format(buffer.format),
            BufferKind::DmaBuf { .. } => dmabuf_texture_format(buffer.format),
        };
        let e = TextureEntry {
            buffer_id: buffer.id,
            width: buffer.width,
            height: buffer.height,
            format,
            generation: self.next_generation,
        };
        let ghost m0 = self.model();
        match self.textures.get(&surface) {
            Some(old_entry) => {
                let r = TextureRef { surface, generation: old_entry.generation };
                self.retired.push(r);
            },
            None => {},
        }
        self.textures.insert(surface, e);
        self.next_generation = self.next_generation + 1;
        proof {
            let m1 = self.model();
            assert(m1.frames == m0.frames);
            assert forall|i: int, j: int|
                0 <= i < m1.frames.len() && 0 <= j < m1.frames[i].1.len() implies is_live(
                m1,
                #[trigger] m1.frames[i].1[j],
            ) || m1.retired.contains(m1.frames[i].1[j]) by {
                let r = m1.frames[i].1[j];
                if m0.retired.contains(r) {
                    let k = choose|k: int| 0 <= k < m0.retired.len() && m0.retired[k] == r;
                    assert(m1.retired[k] == r);
                } else if r.surface == surface {
                    assert(m1.retired[m1.retired.len() - 1] == r);
                }
            }
            assert(m1 == commit_step(m0, surface, buffer));
        }
        e
    }

    /// The texture of `surface`, if it has one.
    pub fn lookup(&self, surface: u64) -> (r: Option<TextureEntry>)
        ensures
            r == (if self.model().textures.contains_key(surface) {
                Some(self.model().textures[surface])
            } else {
                None
            }),
    {
        match self.textures.get(&surface) {
            Some(e) => Some(*e),
            None => None,
        }
    }

    /// Drops the texture of a destroyed surface; it stays allocated among the
    /// retired textures until no frame in flight uses it.
    pub fn evict(&mut self, surface: u64) -> (r: Option<TextureEntry>)
        requires
            old(self).wf(),
        ensures
            final(self).wf(),
            final(self).model().textures == old(self).model().textures.remove(surface),
            final(self).model().frames == old(self).model().frames,
            final(self).model().next_generation == old(self).model().next_generation,
            r == (if old(self).model().textures.contains_key(surface) {
                Some(old(self).model().textures[surface])
            } else {
                None
            }),
            final(self).model().retired == (match r {
                Some(e) => old(self).model().retired.push(TextureRef { surface, generation: e.generation }),
                None => old(self).model().retired,
            }),
    {
        let ghost m0 = self.model();
        let r = self.textures.remove(&surface);
        match r {
            Some(e) => {
                self.retired.push(TextureRef { surface, generation: e.generation });
            },
            None => {},
        }
        proof {
            let m1 = self.model();
            assert(m1.frames == m0.frames);
            assert forall|i: int, j: int|
                0 <= i < m1.frames.len() && 0 <= j < m1.frames[i].1.len() implies is_live(
                m1,
                #[trigger] m1.frames[i].1[j],
            ) || m1.retired.contains(m1.frames[i].1[j]) by {
                let r = m1.frames[i].1[j];
                if m0.retired.contains(r) {
                    let k = choose|k: int| 0 <= k < m0.retired.len() && m0.retired[k] == r;
                    assert(m1.retired[k] == r);
                } else if r.surface == surface {
                    assert(m1.retired[m1.retired.len() - 1] == r);
                }
            }
        }
        r
    }

    /// Records that frame `frame` was submitted drawing the surfaces `surfaces`,
    /// back to front. Surfaces without a texture are skipped. Returns the
    /// textures the frame samples, in drawing order.
    pub fn record_frame(&mut self, frame: u64, surfaces: &Vec<u64>) -> (refs: Vec<TextureRef>)
        requires
            old(self).wf(),
        ensures
            final(self).wf(),
            refs@ == drawn_refs(old(self).model().textures, surfaces@),
            final(self).model() == (CacheModel {
                frames: old(self).model().frames.push((frame, refs@)),
                ..old(self).model()
            }),
    {
        let ghost t = self.model().textures;
        let mut refs: Vec<TextureRef> = Vec::new();
        let mut i: usize = 0;
        while i < surfaces.len()
            invariant
                i <= surfaces.len(),
                t == self.model().textures,
                refs@ == drawn_refs(t, surfaces@.subrange(0, i as int)),
            decreases surfaces.len() - i,
        {
            let s = surfaces[i];
            proof {
                assert(surfaces@.subrange(0, i + 1).drop_last() =~= surfaces@.subrange(0, i as int));
            }
            match self.textures.get(&s) {
                Some(e) => {
                    refs.push(TextureRef { surface: s, generation: e.generation });
                },
                None => {},
            }
            i = i + 1;
        }
        proof {
            assert(surfaces@.subrange(0, surfaces@.len() as int) =~= surfaces@);
            lemma_drawn_refs_live(t, surfaces@);
        }
        let ghost m0 = self.model();
        let kept = crate::surface::copy_vec(&refs);
        self.in_flight.push(InFlightFrame { frame, refs: kept });
        proof {
            let m1 = self.model();
            assert(m1.frames =~= m0.frames.push((frame, refs@)));
            assert forall|i: int, j: int|
                0 <= i < m1.frames.len() && 0 <= j < m1.frames[i].1.len() implies is_live(
                m1,
                #[trigger] m1.frames[i].1[j],
            ) || m1.retired.contains(m1.frames[i].1[j]) by {
                if i < m0.frames.len() {
                    assert(m1.frames[i] == m0.frames[i]);
                } else {
                    assert(m1.frames[i].1 == drawn_refs(t, surfaces@));
                }
            }
        }
        refs
    }

    /// Records that the GPU finished frame `frame`. Retired textures that no
    /// remaining frame uses are released and returned, for the renderer to
    /// free; the others stay retired.
    pub fn frame_completed(&mut self, frame: u64) -> (freed: Vec<TextureRef>)
        requires
            old(self).wf(),
        ensures
            final(self).wf(),
            final(self).model().textures == old(self).model().textures,
            final(self).model().next_generation == old(self).model().next_generation,
            final(self).model().frames == old(self).model().frames.filter(other_frame(frame)),
            final(self).model().retired == old(self).model().retired.filter(in_use(final(self).model().frames)),
            freed@ == old(self).model().retired.filter(unused(final(self).model().frames)),
    {
        let ghost m0 = self.model();
        let ghost fm = m0.frames;
        let mut kept: Vec<InFlightFrame> = Vec::new();
        let mut i: usize = 0;
        while i < self.in_flight.len()
            invariant
                i <= self.in_flight.len(),
                m0 == self.model(),
                fm == m0.frames,
                frames_model(kept@) == fm.subrange(0, i as int).filter(other_frame(frame)),
            decreases self.in_flight.len() - i,
        {
            proof {
                lemma_filter_step(fm, other_frame(frame), i as int);
            }
            if self.in_flight[i].frame != frame {
                let refs = crate::surface::copy_vec(&self.in_flight[i].refs);
                let ghost before = kept@;
                kept.push(InFlightFrame { frame: self.in_flight[i].frame, refs });
                proof {
                    assert(frames_model(kept@) =~= frames_model(before).push(fm[i as int]));
                }
            }
            i = i + 1;
        }
        proof {
            assert(fm.subrange(0, fm.len() as int) =~= fm);
        }
        let ghost rem = frames_model(kept@);
        let ghost ret = m0.retired;
        let mut still: Vec<TextureRef> = Vec::new();
        let mut freed: Vec<TextureRef> = Vec::new();
        let mut k: usize = 0;
        while k < self.retired.len()
            invariant
                k <= self.retired.len(),
                ret == self.retired@,
                rem == frames_model(kept@),
                still@ == ret.subrange(0, k as int).filter(in_use(rem)),
                freed@ == ret.subrange(0, k as int).filter(unused(rem)),
            decreases self.retired.len() - k,
        {
            proof {
                lemma_filter_step(ret, in_use(rem), k as int);
                lemma_filter_step(ret, unused(rem), k as int);
            }
            let r = self.retired[k];
            if frames_reference(&kept, r) {
                still.push(r);
            } else {
                freed.push(r);
            }
            k = k + 1;
        }
        proof {
            assert(ret.subrange(0, ret.len() as int) =~= ret);
        }
        self.in_flight = kept;
        self.retired = still;
        proof {
            let m1 = self.model();
            assert(m1.frames == rem);
            assert forall|i: int, j: int|
                0 <= i < m1.frames.len() && 0 <= j < m1.frames[i].1.len() implies is_live(
                m1,
                #[trigger] m1.frames[i].1[j],
            ) || m1.retired.contains(m1.frames[i].1[j]) by {
                let r = m1.frames[i].1[j];
                lemma_filter_member(fm, other_frame(frame), i);
                let i0 = choose|i0: int| 0 <= i0 < fm.len() && fm[i0] == m1.frames[i];
                assert(m0.frames[i0].1[j] == r);
                if !is_live(m1, r) {
                    assert(ret.contains(r));
                    assert(referenced(rem, r));
                    let k0 = choose|k0: int| 0 <= k0 < ret.len() && ret[k0] == r;
                    lemma_filter_keeps(ret, in_use(rem), k0);
                }
            }
        }
        freed
    }

    /// Number of frames whose GPU work has not finished.
    pub fn in_flight_count(&self) -> (n: usize)
        ensures
            n == self.model().frames.len(),
    {
        self.in_flight.len()
    }

    /// Textures that were replaced or evicted and are still allocated.
    pub fn retired_count(&self) -> (n: usize)
        ensures
            n == self.model().retired.len(),
    {
        self.retired.len()
    }
}

} // verus!
