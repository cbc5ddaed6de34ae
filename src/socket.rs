use vstd::prelude::*;
use vstd::string::StringSliceAdditionalSpecFns;
use crate::config::{parse_u32, u32_text};

verus! {

/// The display number for a new listening socket `wayland-N`: the lowest N
/// that `taken` does not hold.
pub fn lowest_free_display(taken: &Vec<u32>) -> (n: u32)
    requires
        taken@.len() < u32::MAX,
    ensures
        !taken@.contains(n),
        forall|k: u32| k < n ==> taken@.contains(k),
{
    let mut n: u32 = 0;
    loop
        invariant
            taken@.len() < u32::MAX,
            n <= taken@.len(),
            forall|k: u32| k < n ==> taken@.contains(k),
        decreases taken@.len() - n,
    {
        let mut i: usize = 0;
        let mut found = false;
        while i < taken.len()
            invariant
                i <= taken@.len(),
                found ==> taken@.contains(n),
                !found ==> forall|j: int| 0 <= j < i ==> taken@[j] != n,
            decreases taken@.len() - i,
        {
            if taken[i] == n {
                found = true;
            }
            i = i + 1;
        }
        if !found {
            return n;
        }
        proof {
            assert forall|k: u32| k < n + 1 implies taken@.contains(k) by {
                if k < n {
                } else {
                    assert(k == n);
                }
            }
            lemma_distinct_prefix_fits(taken@, (n + 1) as nat);
        }
        n = n + 1;
    }
}

/// `wayland-` in bytes.
pub open spec fn socket_prefix() -> Seq<u8> {
    seq![119u8, 97u8, 121u8, 108u8, 97u8, 110u8, 100u8, 45u8]
}

/// `.lock` in bytes.
pub open spec fn lock_suffix() -> Seq<u8> {
    seq![46u8, 108u8, 111u8, 99u8, 107u8]
}

/// The display number a runtime-directory entry named `b` claims: `wayland-N`
/// (the socket) or `wayland-N.lock` (its lock file), with N read as a `u32`.
pub open spec fn display_number_spec(b: Seq<u8>) -> Option<u32> {
    if b.len() >= 8 && b.subrange(0, 8) == socket_prefix() {
        let rest = b.subrange(8, b.len() as int);
        if rest.len() >= 5 && rest.subrange(rest.len() - 5, rest.len() as int) == lock_suffix() {
            u32_text(rest.subrange(0, rest.len() - 5))
        } else {
            u32_text(rest)
        }
    } else {
        None
    }
}

fn matches_at(b: &[u8], start: usize, lit: &Vec<u8>) -> (r: bool)
    requires
        start <= b@.len(),
    ensures
        r == (start + lit@.len() <= b@.len() && b@.subrange(start as int, start + lit@.len()) == lit@),
{
    if lit.len() > b.len() - start {
        return false;
    }
    let n = b.len();
    let mut i: usize = 0;
    while i < lit.len()
        invariant
            n == b@.len(),
            start + lit@.len() <= n,
            i <= lit@.len(),
            forall|k: int| 0 <= k < i ==> b@[start + k] == lit@[k],
        decreases lit@.len() - i,
    {
        if b[start + i] != lit[i] {
            proof {
                assert(b@.subrange(start as int, start + lit@.len())[i as int] != lit@[i as int]);
            }
            return false;
        }
        i = i + 1;
    }
    proof {
        assert(b@.subrange(start as int, start + lit@.len()) =~= lit@);
    }
    true
}

/// The display number a runtime-directory entry claims, if any.
pub fn display_number(name: &str) -> (r: Option<u32>)
    ensures
        r == display_number_spec(name.spec_bytes()),
{
    let b = name.as_bytes();
    let prefix: Vec<u8> = vec![119u8, 97u8, 121u8, 108u8, 97u8, 110u8, 100u8, 45u8];
    let suffix: Vec<u8> = vec![46u8, 108u8, 111u8, 99u8, 107u8];
    proof {
        assert(prefix@ =~= socket_prefix());
        assert(suffix@ =~= lock_suffix());
    }
    if !matches_at(b, 0, &prefix) {
        return None;
    }
    let ghost rest = b@.subrange(8, b@.len() as int);
    let end = b.len();
    if end - 8 >= 5 && matches_at(b, end - 5, &suffix) {
        proof {
            assert(rest.subrange(rest.len() - 5, rest.len() as int) =~= b@.subrange(end - 5, end as int));
            assert(rest.subrange(0, rest.len() - 5) =~= b@.subrange(8, end - 5));
        }
        parse_u32(b, 8, end - 5)
    } else {
        proof {
            if rest.len() >= 5 {
                assert(rest.subrange(rest.len() - 5, rest.len() as int) =~= b@.subrange(end - 5, end as int));
            }
        }
        parse_u32(b, 8, end)
    }
}

/// When every number below `m` occurs in `s`, `s` has at least `m` elements.
proof fn lemma_distinct_prefix_fits(s: Seq<u32>, m: nat)
    requires
        forall|k: u32| k < m ==> s.contains(k),
        m <= u32::MAX,
    ensures
        m <= s.len(),
{
    let needed = Set::new(|k: u32| k < m);
    assert(needed.subset_of(s.to_set())) by {
        assert forall|k: u32| needed.contains(k) implies s.to_set().contains(k) by {
            assert(s.contains(k));
        }
    }
    lemma_range_set_len(m);
    s.lemma_cardinality_of_set();
    vstd::set_lib::lemma_len_subset(needed, s.to_set());
}

/// The numbers below `m` form a set of `m` elements.
proof fn lemma_range_set_len(m: nat)
    requires
        m <= u32::MAX,
    ensures
        Set::new(|k: u32| k < m).finite(),
        Set::new(|k: u32| k < m).len() == m,
    decreases m,
{
    if m == 0 {
        assert(Set::new(|k: u32| k < m) =~= Set::<u32>::empty());
    } else {
        lemma_range_set_len((m - 1) as nat);
        let smaller = Set::new(|k: u32| k < (m - 1) as nat);
        assert(Set::new(|k: u32| k < m) =~= smaller.insert((m - 1) as u32));
    }
}

} // verus!
