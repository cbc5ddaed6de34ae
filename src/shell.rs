use vstd::prelude::*;

verus! {

/// Errors of the shell protocols; each disconnects the offending client.
#[derive(Debug, Clone, Copy, PartialEq, Eq, Structural)]
pub enum ShellError {
    /// `ack_configure` with a serial that was never sent or is already stale.
    InvalidSerial { serial: u32 },
    /// A grabbing popup whose parent is not the topmost popup of the grab.
    PopupChainBroken { popup: u64, parent: u64 },
}

/// Who draws a toplevel's title bar and borders.
#[derive(Debug, Clone, Copy, PartialEq, Eq, Structural)]
pub enum DecorationMode {
    ClientSide,
    ServerSide,
}

/// The mode the compositor configures for a request of mode `requested`
/// (the protocol's codes: 1 client side, 2 server side). Anything else gets
/// server-side decorations, the default.
pub fn negotiate_decoration(requested: u32) -> (m: DecorationMode)
    ensures
        m == (if requested == 1 {
            DecorationMode::ClientSide
        } else {
            DecorationMode::ServerSide
        }),
{
    if requested == 1 {
        DecorationMode::ClientSide
    } else {
        DecorationMode::ServerSide
    }
}

/// The state a toplevel is asked to take.
#[derive(Debug, Clone, Copy, PartialEq, Eq, Structural)]
pub struct Configure {
    pub width: i32,
    pub height: i32,
    pub maximized: bool,
    pub fullscreen: bool,
    pub activated: bool,
    pub decoration: DecorationMode,
}

/// A configure event that was sent and not yet acknowledged.
#[derive(Debug, Clone, Copy, PartialEq, Eq, Structural)]
pub struct SentConfigure {
    pub serial: u32,
    pub configure: Configure,
}

/// Serials of `s` increase strictly and stay below `next`.
pub open spec fn serials_ordered(s: Seq<SentConfigure>, next: u32) -> bool {
    &&& forall|i: int, j: int| 0 <= i < j < s.len() ==> #[trigger] s[i].serial < #[trigger] s[j].serial
    &&& forall|i: int| 0 <= i < s.len() ==> #[trigger] s[i].serial < next
}

/// The configure/ack cycle of one toplevel.
pub struct ConfigureTracker {
    next_serial: u32,
    outstanding: Vec<SentConfigure>,
    acked: Option<Configure>,
}

impl ConfigureTracker {
    pub closed spec fn next_serial_spec(&self) -> u32 {
        self.next_serial
    }

    /// Configures sent and not yet acknowledged, oldest first.
    pub closed spec fn outstanding_spec(&self) -> Seq<SentConfigure> {
        self.outstanding@
    }

    /// The state the client last acknowledged.
    pub closed spec fn acked_spec(&self) -> Option<Configure> {
        self.acked
    }

    pub open spec fn wf(&self) -> bool {
        serials_ordered(self.outstanding_spec(), self.next_serial_spec())
    }

    /// Serials start at `first_serial`.
    pub fn new(first_serial: u32) -> (t: Self)
        ensures
            t.wf(),
            t.next_serial_spec() == first_serial,
            t.outstanding_spec().len() == 0,
            t.acked_spec() is None,
    {
        ConfigureTracker { next_serial: first_serial, outstanding: Vec::new(), acked: None }
    }

    /// Sends a configure; returns its serial.
    pub fn send_configure(&mut self, configure: Configure) -> (serial: u32)
        requires
            old(self).wf(),
            old(self).next_serial_spec() < u32::MAX,
        ensures
            final(self).wf(),
            serial == old(self).next_serial_spec(),
            final(self).next_serial_spec() == serial + 1,
            final(self).outstanding_spec() == old(self).outstanding_spec().push(SentConfigure { serial, configure }),
            final(self).acked_spec() == old(self).acked_spec(),
    {
        let serial = self.next_serial;
        self.outstanding.push(SentConfigure { serial, configure });
        self.next_serial = serial + 1;
        serial
    }

    /// `xdg_surface.ack_configure`: the client applied the configure with
    /// `serial`. Any outstanding serial is accepted, which also retires the
    /// older ones; an unknown or stale serial is a protocol error and changes
    /// nothing.
    pub fn ack_configure(&mut self, serial: u32) -> (r: Result<Configure, ShellError>)
        requires
            old(self).wf(),
        ensures
            final(self).wf(),
            final(self).next_serial_spec() == old(self).next_serial_spec(),
            (exists|i: int|
                0 <= i < old(self).outstanding_spec().len() && #[trigger] old(self).outstanding_spec()[i].serial
                    == serial) <==> r is Ok,
            r is Err ==> r == Err::<Configure, ShellError>(ShellError::InvalidSerial { serial })
                && final(self).outstanding_spec() == old(self).outstanding_spec()
                && final(self).acked_spec() == old(self).acked_spec(),
            forall|i: int|
                0 <= i < old(self).outstanding_spec().len() && #[trigger] old(self).outstanding_spec()[i].serial
                    == serial ==> r == Ok::<Configure, ShellError>(old(self).outstanding_spec()[i].configure)
                    && final(self).acked_spec() == Some(old(self).outstanding_spec()[i].configure)
                    && final(self).outstanding_spec() == old(self).outstanding_spec().subrange(
                    i + 1,
                    old(self).outstanding_spec().len() as int,
                ),
    {
        let mut i: usize = 0;
        while i < self.outstanding.len()
            invariant
                i <= self.outstanding@.len(),
                self.outstanding@ == old(self).outstanding@,
                self.next_serial == old(self).next_serial,
                self.acked == old(self).acked,
                serials_ordered(self.outstanding@, self.next_serial),
                forall|k: int| 0 <= k < i ==> #[trigger] self.outstanding@[k].serial != serial,
            decreases self.outstanding.len() - i,
        {
            if self.outstanding[i].serial == serial {
                let configure = self.outstanding[i].configure;
                let ghost o = self.outstanding@;
                let mut rest: Vec<SentConfigure> = Vec::new();
                let mut j: usize = i + 1;
                while j < self.outstanding.len()
                    invariant
                        o == self.outstanding@,
                        i < j <= o.len(),
                        rest@ == o.subrange(i + 1, j as int),
                    decreases o.len() - j,
                {
                    rest.push(self.outstanding[j]);
                    j = j + 1;
                    proof {
                        assert(rest@ =~= o.subrange(i + 1, j as int));
                    }
                }
                self.outstanding = rest;
                self.acked = Some(configure);
                proof {
                    assert forall|k: int| 0 <= k < o.len() && #[trigger] o[k].serial == serial implies k == i by {
                        if k < i {
                        } else if k > i {
                            assert(o[i as int].serial < o[k].serial);
                        }
                    }
                    let n = self.outstanding@;
                    assert forall|a: int, b: int| 0 <= a < b < n.len() implies #[trigger] n[a].serial
                        < #[trigger] n[b].serial by {
                        assert(n[a] == o[a + i + 1]);
                        assert(n[b] == o[b + i + 1]);
                    }
                    assert forall|a: int| 0 <= a < n.len() implies #[trigger] n[a].serial < self.next_serial by {
                        assert(n[a] == o[a + i + 1]);
                    }
                }
                return Ok(configure);
            }
            i = i + 1;
        }
        Err(ShellError::InvalidSerial { serial })
    }

    /// The state the client last acknowledged.
    pub fn acked(&self) -> (r: Option<Configure>)
        ensures
            r == self.acked_spec(),
    {
        self.acked
    }
}

/// A popup grab: input goes to the chain of popups opened from `root`.
pub struct PopupGrab {
    root: u64,
    chain: Vec<u64>,
}

impl PopupGrab {
    pub closed spec fn root_spec(&self) -> u64 {
        self.root
    }

    /// Grabbing popups, from the one nearest the toplevel to the topmost.
    pub closed spec fn chain_spec(&self) -> Seq<u64> {
        self.chain@
    }

    /// A grab rooted at toplevel `root`, with no popup yet.
    pub fn new(root: u64) -> (g: Self)
        ensures
            g.root_spec() == root,
            g.chain_spec().len() == 0,
    {
        PopupGrab { root, chain: Vec::new() }
    }

    /// The surface that grabbed popups nest on top of.
    pub fn top(&self) -> (t: u64)
        ensures
            t == (if self.chain_spec().len() == 0 {
                self.root_spec()
            } else {
                self.chain_spec().last()
            }),
    {
        if self.chain.len() == 0 {
            self.root
        } else {
            self.chain[self.chain.len() - 1]
        }
    }

    /// `xdg_popup.grab` on `popup`, whose parent is `parent`: the parent must
    /// be the topmost surface of the chain.
    pub fn grab(&mut self, popup: u64, parent: u64) -> (r: Result<(), ShellError>)
        ensures
            final(self).root_spec() == old(self).root_spec(),
            ({
                let top = if old(self).chain_spec().len() == 0 {
                    old(self).root_spec()
                } else {
                    old(self).chain_spec().last()
                };
                if parent == top {
                    r is Ok && final(self).chain_spec() == old(self).chain_spec().push(popup)
                } else {
                    r == Err::<(), ShellError>(ShellError::PopupChainBroken { popup, parent })
                        && final(self).chain_spec() == old(self).chain_spec()
                }
            }),
    {
        if parent != self.top() {
            return Err(ShellError::PopupChainBroken { popup, parent });
        }
        self.chain.push(popup);
        Ok(())
    }

    /// Surface that gets keyboard focus: the topmost popup, else the toplevel.
    pub fn focus(&self) -> (f: u64)
        ensures
            f == (if self.chain_spec().len() == 0 {
                self.root_spec()
            } else {
                self.chain_spec().last()
            }),
    {
        self.top()
    }

    /// Keeps the first `keep` popups and returns the dismissed ones, topmost first.
    fn truncate_chain(&mut self, keep: usize) -> (dismissed: Vec<u64>)
        requires
            keep <= old(self).chain_spec().len(),
        ensures
            final(self).root_spec() == old(self).root_spec(),
            final(self).chain_spec() == old(self).chain_spec().subrange(0, keep as int),
            dismissed@ == old(self).chain_spec().subrange(keep as int, old(self).chain_spec().len() as int).reverse(),
    {
        let ghost c = self.chain@;
        let mut dismissed: Vec<u64> = Vec::new();
        while self.chain.len() > keep
            invariant
                keep <= self.chain@.len() <= c.len(),
                self.chain@ == c.subrange(0, self.chain@.len() as int),
                self.root == old(self).root,
                c == old(self).chain@,
                dismissed@ == c.subrange(self.chain@.len() as int, c.len() as int).reverse(),
            decreases self.chain.len(),
        {
            let p = self.chain.pop().unwrap();
            dismissed.push(p);
            proof {
                assert(self.chain@ =~= c.subrange(0, self.chain@.len() as int));
                assert(dismissed@ =~= c.subrange(self.chain@.len() as int, c.len() as int).reverse());
            }
        }
        dismissed
    }

    /// A click on `target` (`None` when no surface is under the pointer): on a
    /// popup of the chain, the popups above it are dismissed; anywhere else,
    /// the whole chain is. Returns the dismissed popups, topmost first.
    pub fn click(&mut self, target: Option<u64>) -> (dismissed: Vec<u64>)
        ensures
            final(self).root_spec() == old(self).root_spec(),
            ({
                let c = old(self).chain_spec();
                let keep = match target {
                    Some(t) => if exists|k: int| 0 <= k < c.len() && c[k] == t {
                        let k = choose|k: int| 0 <= k < c.len() && c[k] == t && forall|m: int|
                            k < m < c.len() ==> c[m] != t;
                        k + 1
                    } else {
                        0
                    },
                    None => 0,
                };
                &&& final(self).chain_spec() == c.subrange(0, keep)
                &&& dismissed@ == c.subrange(keep, c.len() as int).reverse()
            }),
    {
        let ghost c = self.chain@;
        let mut keep: usize = 0;
        assert(c == old(self).chain@);
        match target {
            Some(t) => {
                let mut k: usize = self.chain.len();
                while k > 0 && self.chain[k - 1] != t
                    invariant
                        k <= c.len(),
                        c == self.chain@,
                        forall|m: int| k <= m < c.len() ==> c[m] != t,
                    decreases k,
                {
                    k = k - 1;
                }
                keep = k;
                proof {
                    if keep == 0 {
                        assert(forall|m: int| 0 <= m < c.len() ==> c[m] != t);
                    } else {
                        assert(c[keep - 1] == t);
                        let k0 = choose|k0: int| 0 <= k0 < c.len() && c[k0] == t && forall|m: int|
                            k0 < m < c.len() ==> c[m] != t;
                        if k0 < keep - 1 {
                            assert(c[keep - 1] != t);
                        } else if k0 > keep - 1 {
                            assert(c[k0] != t);
                        }
                    }
                }
            },
            None => {},
        }
        self.truncate_chain(keep)
    }

    /// A popup of the chain was destroyed: it and the popups above it go.
    /// Returns those dismissed, topmost first.
    pub fn popup_destroyed(&mut self, popup: u64) -> (dismissed: Vec<u64>)
        ensures
            final(self).root_spec() == old(self).root_spec(),
            ({
                let c = old(self).chain_spec();
                if exists|k: int| 0 <= k < c.len() && c[k] == popup {
                    let k = choose|k: int| 0 <= k < c.len() && c[k] == popup && forall|m: int|
                        0 <= m < k ==> c[m] != popup;
                    &&& final(self).chain_spec() == c.subrange(0, k)
                    &&& dismissed@ == c.subrange(k, c.len() as int).reverse()
                } else {
                    &&& final(self).chain_spec() == c
                    &&& dismissed@.len() == 0
                }
            }),
    {
        let ghost c = self.chain@;
        let mut k: usize = 0;
        while k < self.chain.len()
            invariant
                k <= c.len(),
                c == self.chain@,
                c == old(self).chain@,
                self.root == old(self).root,
                forall|m: int| 0 <= m < k ==> c[m] != popup,
            decreases c.len() - k,
        {
            if self.chain[k] == popup {
                proof {
                    let k0 = choose|k0: int| 0 <= k0 < c.len() && c[k0] == popup && forall|m: int|
                        0 <= m < k0 ==> c[m] != popup;
                    if k0 < k {
                    } else if k0 > k {
                        assert(c[k as int] != popup);
                    }
                }
                return self.truncate_chain(k);
            }
            k = k + 1;
        }
        proof {
            assert(c.subrange(c.len() as int, c.len() as int).reverse() =~= Seq::<u64>::empty());
        }
        let d = self.truncate_chain(k);
        proof {
            assert(c.subrange(0, c.len() as int) =~= c);
        }
        d
    }
}

} // verus!
