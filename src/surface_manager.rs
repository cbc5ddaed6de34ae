use vstd::prelude::*;
use std::collections::HashMap;
use crate::surface::BufferInfo;
use crate::texture_cache::{
    TextureCache, TextureEntry, TextureRef, CacheModel, commit_step, texture_of, drawn_refs, other_frame,
    in_use, unused,
};

verus! {

broadcast use vstd::std_specs::hash::group_hash_axioms;

/// Bridges protocol surfaces and the renderer: gives each protocol surface an
/// internal id and keeps the texture cache, keyed by internal id, current.
pub struct SurfaceManager {
    surface_mapping: HashMap<u64, u32>,
    next_surface_id: u32,
    cache: TextureCache,
}

impl SurfaceManager {
    /// Protocol surface id to internal id.
    pub closed spec fn mapping(&self) -> Map<u64, u32> {
        self.surface_mapping@
    }

    /// The id the next registered surface gets.
    pub closed spec fn next_id(&self) -> u32 {
        self.next_surface_id
    }

    pub closed spec fn cache_model(&self) -> CacheModel {
        self.cache.model()
    }

    pub closed spec fn wf(&self) -> bool {
        &&& self.cache.wf()
        &&& self.next_surface_id >= 1
        &&& forall|w: u64| #[trigger] self.surface_mapping@.contains_key(w) ==> 1 <= self.surface_mapping@[w]
            < self.next_surface_id
    }

    /// Internal ids start at 1.
    pub fn new() -> (m: Self)
        ensures
            m.wf(),
            m.mapping().is_empty(),
            m.next_id() == 1,
            m.cache_model().textures.is_empty(),
    {
        let m = SurfaceManager { surface_mapping: HashMap::new(), next_surface_id: 1, cache: TextureCache::new() };
        proof {
            assert(m.mapping() =~= Map::empty());
        }
        m
    }

    pub fn next_surface_id(&self) -> (r: u32)
        ensures
            r == self.next_id(),
    {
        self.next_surface_id
    }

    /// Gives the protocol surface `wayland_surface_id` a fresh internal id.
    pub fn register_surface(&mut self, wayland_surface_id: u64) -> (id: u32)
        requires
            old(self).wf(),
            old(self).next_id() < u32::MAX,
        ensures
            final(self).wf(),
            id == old(self).next_id(),
            final(self).next_id() == id + 1,
            final(self).mapping() == old(self).mapping().insert(wayland_surface_id, id),
            final(self).cache_model() == old(self).cache_model(),
            forall|w: u64| #[trigger] old(self).mapping().contains_key(w) ==> old(self).mapping()[w] < id,
            final(self).mapping().dom().finite(),
            final(self).mapping().len() == old(self).mapping().len() + (if old(self).mapping().contains_key(
                wayland_surface_id,
            ) {
                0int
            } else {
                1int
            }),
    {
        proof {
            vstd::std_specs::hash::axiom_hashmap_view_finite_dom(self.surface_mapping);
        }
        let id = self.next_surface_id;
        self.next_surface_id = id + 1;
        self.surface_mapping.insert(wayland_surface_id, id);
        id
    }

    /// The internal id of a protocol surface, if registered.
    pub fn internal_id(&self, wayland_surface_id: u64) -> (r: Option<u32>)
        ensures
            r == (if self.mapping().contains_key(wayland_surface_id) {
                Some(self.mapping()[wayland_surface_id])
            } else {
                None
            }),
    {
        match self.surface_mapping.get(&wayland_surface_id) {
            Some(id) => Some(*id),
            None => None,
        }
    }

    /// A commit of `buffer` on a protocol surface: an unknown surface is
    /// registered first, then its texture is replaced by one made from the
    /// buffer. Returns the internal id and the new texture.
    pub fn handle_surface_commit(&mut self, wayland_surface_id: u64, buffer: BufferInfo) -> (r: (u32, TextureEntry))
        requires
            old(self).wf(),
            old(self).next_id() < u32::MAX,
            old(self).cache_model().next_generation < u64::MAX,
        ensures
            final(self).wf(),
            old(self).mapping().contains_key(wayland_surface_id) ==> r.0 == old(self).mapping()[wayland_surface_id]
                && final(self).mapping() == old(self).mapping() && final(self).next_id() == old(self).next_id(),
            !old(self).mapping().contains_key(wayland_surface_id) ==> r.0 == old(self).next_id()
                && final(self).mapping() == old(self).mapping().insert(wayland_surface_id, r.0)
                && final(self).next_id() == old(self).next_id() + 1,
            r.1 == texture_of(buffer, old(self).cache_model().next_generation as u64),
            final(self).cache_model() == commit_step(old(self).cache_model(), r.0 as u64, buffer),
    {
        let id = match self.surface_mapping.get(&wayland_surface_id) {
            Some(id) => *id,
            None => self.register_surface(wayland_surface_id),
        };
        let e = self.cache.on_commit(id as u64, buffer);
        (id, e)
    }

    /// The texture the renderer draws for a protocol surface.
    pub fn lookup_texture(&self, wayland_surface_id: u64) -> (r: Option<TextureEntry>)
        ensures
            r == (if self.mapping().contains_key(wayland_surface_id) && self.cache_model().textures.contains_key(
                self.mapping()[wayland_surface_id] as u64,
            ) {
                Some(self.cache_model().textures[self.mapping()[wayland_surface_id] as u64])
            } else {
                None
            }),
    {
        match self.surface_mapping.get(&wayland_surface_id) {
            Some(id) => self.cache.lookup(*id as u64),
            None => None,
        }
    }

    /// A protocol surface was destroyed: forgets its id and evicts its texture.
    /// Returns the evicted texture, if there was one.
    pub fn remove_surface(&mut self, wayland_surface_id: u64) -> (r: Option<TextureEntry>)
        requires
            old(self).wf(),
        ensures
            final(self).wf(),
            final(self).mapping() == old(self).mapping().remove(wayland_surface_id),
            final(self).next_id() == old(self).next_id(),
            !old(self).mapping().contains_key(wayland_surface_id) ==> r is None && final(self).cache_model()
                == old(self).cache_model(),
            old(self).mapping().contains_key(wayland_surface_id) ==> final(self).cache_model().textures
                == old(self).cache_model().textures.remove(old(self).mapping()[wayland_surface_id] as u64),
    {
        match self.surface_mapping.remove(&wayland_surface_id) {
            Some(id) => self.cache.evict(id as u64),
            None => None,
        }
    }

    /// Ends the import of `buffer`, attached by a commit on protocol surface
    /// `wayland_surface_id`: when the import succeeded the buffer's texture
    /// replaces the surface's one, as `handle_surface_commit` does (an unknown
    /// surface is registered first); when it failed nothing changes, so the
    /// last good texture stays.
    pub fn finish_import<E>(&mut self, wayland_surface_id: u64, buffer: BufferInfo, outcome: &Result<(), E>) -> (r:
        Option<(u32, TextureEntry)>)
        requires
            old(self).wf(),
            old(self).next_id() < u32::MAX,
            old(self).cache_model().next_generation < u64::MAX,
        ensures
            final(self).wf(),
            outcome is Err ==> r is None && final(self).mapping() == old(self).mapping() && final(self).next_id()
                == old(self).next_id() && final(self).cache_model() == old(self).cache_model(),
            outcome is Ok ==> r is Some,
            r matches Some(res) ==> {
                &&& old(self).mapping().contains_key(wayland_surface_id) ==> res.0 == old(self).mapping()[wayland_surface_id]
                    && final(self).mapping() == old(self).mapping() && final(self).next_id() == old(self).next_id()
                &&& !old(self).mapping().contains_key(wayland_surface_id) ==> res.0 == old(self).next_id()
                    && final(self).mapping() == old(self).mapping().insert(wayland_surface_id, res.0)
                    && final(self).next_id() == old(self).next_id() + 1
                &&& res.1 == texture_of(buffer, old(self).cache_model().next_generation as u64)
                &&& final(self).cache_model() == commit_step(old(self).cache_model(), res.0 as u64, buffer)
            },
    {
        match outcome {
            Ok(()) => Some(self.handle_surface_commit(wayland_surface_id, buffer)),
            Err(_) => None,
        }
    }

    /// Number of registered surfaces.
    pub fn surface_count(&self) -> (n: usize)
        ensures
            n == self.mapping().len(),
    {
        self.surface_mapping.len()
    }

    /// The texture cache, read by the renderer.
    pub fn cache(&self) -> (c: &TextureCache)
        ensures
            c.model() == self.cache_model(),
            self.wf() ==> c.wf(),
    {
        &self.cache
    }

    /// A frame drawing the internal surfaces `surfaces`, back to front, was
    /// submitted; see `TextureCache::record_frame`.
    pub fn record_frame(&mut self, frame: u64, surfaces: &Vec<u64>) -> (refs: Vec<TextureRef>)
        requires
            old(self).wf(),
        ensures
            final(self).wf(),
            final(self).mapping() == old(self).mapping(),
            final(self).next_id() == old(self).next_id(),
            refs@ == drawn_refs(old(self).cache_model().textures, surfaces@),
            final(self).cache_model() == (CacheModel {
                frames: old(self).cache_model().frames.push((frame, refs@)),
                ..old(self).cache_model()
            }),
    {
        self.cache.record_frame(frame, surfaces)
    }

    /// The GPU finished frame `frame`; see `TextureCache::frame_completed`.
    pub fn frame_completed(&mut self, frame: u64) -> (freed: Vec<TextureRef>)
        requires
            old(self).wf(),
        ensures
            final(self).wf(),
            final(self).mapping() == old(self).mapping(),
            final(self).next_id() == old(self).next_id(),
            final(self).cache_model().textures == old(self).cache_model().textures,
            final(self).cache_model().frames == old(self).cache_model().frames.filter(other_frame(frame)),
            final(self).cache_model().retired == old(self).cache_model().retired.filter(
                in_use(final(self).cache_model().frames),
            ),
            freed@ == old(self).cache_model().retired.filter(unused(final(self).cache_model().frames)),
    {
        self.cache.frame_completed(frame)
    }
}

} // verus!
