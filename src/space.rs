use vstd::prelude::*;
use crate::seq_facts::lemma_filter_step;

verus! {

/// A toplevel placed in the compositor's global coordinate space.
#[derive(Debug, Clone, Copy, PartialEq, Eq, Structural)]
pub struct Window {
    pub surface: u64,
    pub x: i32,
    pub y: i32,
    pub width: i32,
    pub height: i32,
}

/// The point lies inside the window (left and top edges included).
pub open spec fn contains_point(w: Window, px: int, py: int) -> bool {
    w.x <= px < w.x + w.width && w.y <= py < w.y + w.height
}

/// The window overlaps the rectangle `(x, y, width, height)`.
pub open spec fn overlaps(w: Window, x: int, y: int, width: int, height: int) -> bool {
    w.x < x + width && x < w.x + w.width && w.y < y + height && y < w.y + w.height
}

/// Windows of `ws` other than the one of `surface`.
pub open spec fn not_surface(surface: u64) -> spec_fn(Window) -> bool {
    |w: Window| w.surface != surface
}

/// Windows of `ws` that overlap an output at `(x, y)` of the given size.
pub open spec fn on_output(x: int, y: int, width: int, height: int) -> spec_fn(Window) -> bool {
    |w: Window| overlaps(w, x, y, width, height)
}

/// No surface is mapped twice.
pub open spec fn unique_surfaces(ws: Seq<Window>) -> bool {
    forall|i: int, j: int| 0 <= i < j < ws.len() ==> #[trigger] ws[i].surface != #[trigger] ws[j].surface
}

fn contains_point_exec(w: &Window, px: i32, py: i32) -> (b: bool)
    ensures
        b == contains_point(*w, px as int, py as int),
{
    let x = w.x as i64;
    let y = w.y as i64;
    (x <= px as i64 && (px as i64) < x + w.width as i64) && (y <= py as i64 && (py as i64) < y
        + w.height as i64)
}

fn overlaps_exec(w: &Window, x: i32, y: i32, width: i32, height: i32) -> (b: bool)
    ensures
        b == overlaps(*w, x as int, y as int, width as int, height as int),
{
    (w.x as i64) < x as i64 + width as i64 && (x as i64) < w.x as i64 + w.width as i64 && (w.y as i64)
        < y as i64 + height as i64 && (y as i64) < w.y as i64 + w.height as i64
}

/// The 2D layout of toplevels, back to front.
pub struct Space {
    windows: Vec<Window>,
    activated: Option<u64>,
}

impl Space {
    /// The mapped windows in stacking order: the last one is drawn on top.
    pub closed spec fn windows_spec(&self) -> Seq<Window> {
        self.windows@
    }

    pub closed spec fn activated_spec(&self) -> Option<u64> {
        self.activated
    }

    pub open spec fn wf(&self) -> bool {
        unique_surfaces(self.windows_spec())
    }

    pub fn new() -> (s: Self)
        ensures
            s.wf(),
            s.windows_spec().len() == 0,
            s.activated_spec() is None,
    {
        Space { windows: Vec::new(), activated: None }
    }

    /// Removes `surface` from the stack, keeping the others in order.
    fn remove_surface(&mut self, surface: u64) -> (found: bool)
        requires
            old(self).wf(),
        ensures
            final(self).wf(),
            final(self).activated == old(self).activated,
            final(self).windows_spec() == old(self).windows_spec().filter(not_surface(surface)),
            found == exists|i: int| 0 <= i < old(self).windows_spec().len() && #[trigger] old(self).windows_spec()[i].surface == surface,
    {
        let ghost w0 = self.windows@;
        let mut kept: Vec<Window> = Vec::new();
        let mut found = false;
        let mut i: usize = 0;
        while i < self.windows.len()
            invariant
                i <= w0.len(),
                w0 == self.windows@,
                w0 == old(self).windows@,
                self.activated == old(self).activated,
                kept@ == w0.subrange(0, i as int).filter(not_surface(surface)),
                found == exists|k: int| 0 <= k < i && #[trigger] w0[k].surface == surface,
            decreases w0.len() - i,
        {
            proof {
                lemma_filter_step(w0, not_surface(surface), i as int);
            }
            let w = self.windows[i];
            if w.surface != surface {
                kept.push(w);
            } else {
                found = true;
            }
            i = i + 1;
        }
        proof {
            assert(w0.subrange(0, w0.len() as int) =~= w0);
            w0.lemma_filter_len(not_surface(surface));
            assert forall|a: int, b: int| 0 <= a < b < kept@.len() implies #[trigger] kept@[a].surface
                != #[trigger] kept@[b].surface by {
                lemma_filter_distinct_keys(w0, not_surface(surface), |w: Window| w.surface, a, b);
            }
        }
        self.windows = kept;
        found
    }

    /// `map(window, position, activate)`: places the window on top of the
    /// stack at the given position; an already mapped window moves there.
    pub fn map_window(&mut self, window: Window, activate: bool)
        requires
            old(self).wf(),
        ensures
            final(self).wf(),
            final(self).windows_spec() == old(self).windows_spec().filter(not_surface(window.surface)).push(window),
            final(self).activated_spec() == (if activate {
                Some(window.surface)
            } else {
                old(self).activated_spec()
            }),
    {
        self.remove_surface(window.surface);
        proof {
            let ws = self.windows@;
            assert forall|i: int| 0 <= i < ws.len() implies #[trigger] ws[i].surface != window.surface by {
                old(self).windows@.lemma_filter_pred(not_surface(window.surface), i);
            }
        }
        self.windows.push(window);
        if activate {
            self.activated = Some(window.surface);
        }
    }

    /// Takes the window of `surface` out of the layout. Returns whether it was mapped.
    pub fn unmap(&mut self, surface: u64) -> (found: bool)
        requires
            old(self).wf(),
        ensures
            final(self).wf(),
            final(self).windows_spec() == old(self).windows_spec().filter(not_surface(surface)),
            found == exists|i: int| 0 <= i < old(self).windows_spec().len() && #[trigger] old(self).windows_spec()[i].surface == surface,
            final(self).activated_spec() == (if old(self).activated_spec() == Some(surface) {
                None
            } else {
                old(self).activated_spec()
            }),
    {
        let found = self.remove_surface(surface);
        if self.activated == Some(surface) {
            self.activated = None;
        }
        found
    }

    /// Moves the window of `surface`, if mapped, to the top of the stack.
    /// Returns whether it was mapped.
    pub fn raise(&mut self, surface: u64) -> (found: bool)
        requires
            old(self).wf(),
        ensures
            final(self).wf(),
            final(self).activated_spec() == old(self).activated_spec(),
            found == exists|i: int| 0 <= i < old(self).windows_spec().len() && #[trigger] old(self).windows_spec()[i].surface == surface,
            found ==> exists|i: int|
                0 <= i < old(self).windows_spec().len() && #[trigger] old(self).windows_spec()[i].surface == surface
                    && final(self).windows_spec() == old(self).windows_spec().filter(not_surface(surface)).push(
                    old(self).windows_spec()[i],
                ),
            !found ==> final(self).windows_spec() == old(self).windows_spec(),
    {
        let mut i: usize = 0;
        while i < self.windows.len()
            invariant
                i <= self.windows@.len(),
                self.windows@ == old(self).windows@,
                self.activated == old(self).activated,
                unique_surfaces(self.windows@),
                forall|k: int| 0 <= k < i ==> #[trigger] self.windows@[k].surface != surface,
            decreases self.windows.len() - i,
        {
            if self.windows[i].surface == surface {
                let w = self.windows[i];
                self.map_window(w, false);
                proof {
                    assert(old(self).windows_spec()[i as int].surface == surface);
                }
                return true;
            }
            i = i + 1;
        }
        false
    }

    /// Surfaces in drawing order, back to front.
    pub fn stacking_order(&self) -> (r: Vec<u64>)
        ensures
            r@ == self.windows_spec().map_values(|w: Window| w.surface),
    {
        let mut r: Vec<u64> = Vec::new();
        let mut i: usize = 0;
        while i < self.windows.len()
            invariant
                i <= self.windows@.len(),
                r@ == self.windows@.subrange(0, i as int).map_values(|w: Window| w.surface),
            decreases self.windows.len() - i,
        {
            r.push(self.windows[i].surface);
            i = i + 1;
            proof {
                assert(r@ =~= self.windows@.subrange(0, i as int).map_values(|w: Window| w.surface));
            }
        }
        proof {
            assert(self.windows@.subrange(0, self.windows@.len() as int) =~= self.windows@);
        }
        r
    }

    /// The topmost window under the point, if any.
    pub fn window_at(&self, px: i32, py: i32) -> (r: Option<Window>)
        ensures
            r matches Some(w) ==> exists|i: int|
                0 <= i < self.windows_spec().len() && #[trigger] self.windows_spec()[i] == w && contains_point(
                    w,
                    px as int,
                    py as int,
                ) && forall|k: int|
                    i < k < self.windows_spec().len() ==> !contains_point(
                        #[trigger] self.windows_spec()[k],
                        px as int,
                        py as int,
                    ),
            r is None ==> forall|k: int|
                0 <= k < self.windows_spec().len() ==> !contains_point(
                    #[trigger] self.windows_spec()[k],
                    px as int,
                    py as int,
                ),
    {
        let mut k: usize = self.windows.len();
        while k > 0
            invariant
                k <= self.windows@.len(),
                forall|m: int|
                    k <= m < self.windows@.len() ==> !contains_point(
                        #[trigger] self.windows@[m],
                        px as int,
                        py as int,
                    ),
            decreases k,
        {
            if contains_point_exec(&self.windows[k - 1], px, py) {
                let w = self.windows[k - 1];
                proof {
                    assert(self.windows_spec()[k - 1] == w);
                    assert(contains_point(w, px as int, py as int));
                    assert forall|m: int| k - 1 < m < self.windows_spec().len() implies !contains_point(
                        #[trigger] self.windows_spec()[m],
                        px as int,
                        py as int,
                    ) by {
                        assert(self.windows_spec()[m] == self.windows@[m]);
                    }
                }
                return Some(w);
            }
            k = k - 1;
        }
        None
    }

    /// The windows to draw on an output at `(x, y)` of the given size, back
    /// to front: those that overlap it.
    pub fn visible_on(&self, x: i32, y: i32, width: i32, height: i32) -> (r: Vec<Window>)
        ensures
            r@ == self.windows_spec().filter(on_output(x as int, y as int, width as int, height as int)),
    {
        let ghost ws = self.windows@;
        let ghost p = on_output(x as int, y as int, width as int, height as int);
        let mut r: Vec<Window> = Vec::new();
        let mut i: usize = 0;
        while i < self.windows.len()
            invariant
                i <= ws.len(),
                ws == self.windows@,
                p == on_output(x as int, y as int, width as int, height as int),
                r@ == ws.subrange(0, i as int).filter(p),
            decreases ws.len() - i,
        {
            proof {
                lemma_filter_step(ws, p, i as int);
            }
            if overlaps_exec(&self.windows[i], x, y, width, height) {
                r.push(self.windows[i]);
            }
            i = i + 1;
        }
        proof {
            assert(ws.subrange(0, ws.len() as int) =~= ws);
        }
        r
    }

    pub fn activated(&self) -> (r: Option<u64>)
        ensures
            r == self.activated_spec(),
    {
        self.activated
    }
}

/// Filtering keeps elements distinct by key when the unfiltered ones were.
proof fn lemma_filter_distinct_keys<A, K>(s: Seq<A>, p: spec_fn(A) -> bool, key: spec_fn(A) -> K, a: int, b: int)
    requires
        0 <= a < b < s.filter(p).len(),
        forall|i: int, j: int| 0 <= i < j < s.len() ==> key(#[trigger] s[i]) != key(#[trigger] s[j]),
    ensures
        key(s.filter(p)[a]) != key(s.filter(p)[b]),
    decreases s.len(),
{
    reveal(Seq::filter);
    let rest = s.drop_last();
    rest.lemma_filter_len(p);
    assert forall|i: int, j: int| 0 <= i < j < rest.len() implies key(#[trigger] rest[i]) != key(#[trigger] rest[j]) by {
        assert(rest[i] == s[i]);
        assert(rest[j] == s[j]);
    }
    if p(s.last()) && b == s.filter(p).len() - 1 {
        assert(s.filter(p)[b] == s.last());
        assert(s.filter(p)[a] == rest.filter(p)[a]);
        assert(rest.filter(p).contains(rest.filter(p)[a]));
        rest.lemma_filter_contains_rev(p, rest.filter(p)[a]);
        let k = choose|k: int| 0 <= k < rest.len() && rest[k] == rest.filter(p)[a];
        assert(s[k] == rest[k]);
        assert(key(s[k]) != key(s[s.len() - 1]));
    } else {
        assert(s.filter(p)[a] == rest.filter(p)[a]);
        assert(s.filter(p)[b] == rest.filter(p)[b]);
        lemma_filter_distinct_keys(rest, p, key, a, b);
    }
}

} // verus!
