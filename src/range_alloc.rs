use vstd::prelude::*;
use crate::error::Error;
use crate::layout::{align_up, lemma_align_up, round_up, ADDR_LIMIT};

verus! {

/// A live allocation: `size` bytes from GPU address `addr`.
#[derive(Clone, Copy, Debug, PartialEq, Eq, Structural)]
pub struct Allocation {
    pub addr: u64,
    pub size: u64,
}

impl Allocation {
    pub open spec fn end(self) -> int {
        self.addr + self.size
    }
}

/// Two ranges that share no address.
pub open spec fn disjoint(a1: int, e1: int, a2: int, e2: int) -> bool {
    e1 <= a2 || e2 <= a1
}

/// What an allocator is, as mathematics.
pub ghost struct AllocatorView {
    pub start: int,
    pub end: int,
    pub prot: u32,
    pub granularity: int,
    /// Everything at or above this address and below `end` is free.
    pub next: int,
    pub live: Seq<Allocation>,
}

impl AllocatorView {
    /// Whether the window has room for `size` bytes rounded up to the
    /// granularity.
    pub open spec fn fits(self, size: int) -> bool {
        self.next + align_up(size, self.granularity) <= self.end
    }
}

/// A bump allocator over a fixed window `[start, end)` of a GPU address
/// space. Freeing the topmost allocation gives its range back.
pub struct SimpleAllocator {
    start: u64,
    end: u64,
    prot: u32,
    granularity: u64,
    next: u64,
    live: Vec<Allocation>,
}

impl View for SimpleAllocator {
    type V = AllocatorView;

    closed spec fn view(&self) -> AllocatorView {
        AllocatorView {
            start: self.start as int,
            end: self.end as int,
            prot: self.prot,
            granularity: self.granularity as int,
            next: self.next as int,
            live: self.live@,
        }
    }
}

/// Live allocations lie in `[start, next)`, are aligned and pairwise disjoint.
pub open spec fn allocator_wf(v: AllocatorView) -> bool {
    &&& 0 < v.granularity <= ADDR_LIMIT
    &&& v.start % v.granularity == 0
    &&& v.start <= v.next <= v.end || (v.end < v.start && v.next == v.start)
    &&& v.end <= ADDR_LIMIT
    &&& v.next % v.granularity == 0
    &&& forall|i: int|
        #![trigger v.live[i]]
        0 <= i < v.live.len() ==> {
            &&& v.start <= v.live[i].addr
            &&& v.live[i].end() <= v.next
            &&& v.live[i].size > 0
            &&& (v.live[i].addr as int) % v.granularity == 0
        }
    &&& forall|i: int, j: int|
        0 <= i < v.live.len() && 0 <= j < v.live.len() && i != j ==> disjoint(
            v.live[i].addr as int,
            v.live[i].end(),
            v.live[j].addr as int,
            v.live[j].end(),
        )
}

impl SimpleAllocator {
    #[verifier::type_invariant]
    closed spec fn inv(self) -> bool {
        allocator_wf(self@)
    }

    /// An empty allocator over `[start, end)`, handing out multiples of
    /// `granularity` with protection `prot`.
    pub fn new_with_range(start: u64, end: u64, prot: u32, granularity: u64) -> (r: Self)
        requires
            0 < granularity <= ADDR_LIMIT,
            start % granularity == 0,
            end <= ADDR_LIMIT,
        ensures
            r@.start == start,
            r@.end == end,
            r@.prot == prot,
            r@.granularity == granularity,
            r@.next == start,
            r@.live == Seq::<Allocation>::empty(),
    {
        SimpleAllocator { start, end, prot, granularity, next: start, live: Vec::new() }
    }

    pub fn start(&self) -> (r: u64)
        ensures
            r == self@.start,
    {
        self.start
    }

    pub fn end(&self) -> (r: u64)
        ensures
            r == self@.end,
    {
        self.end
    }

    pub fn next(&self) -> (r: u64)
        ensures
            r == self@.next,
    {
        self.next
    }

    pub fn live_count(&self) -> (r: usize)
        ensures
            r == self@.live.len(),
    {
        self.live.len()
    }

    pub fn granularity(&self) -> (r: u64)
        ensures
            r == self@.granularity,
    {
        self.granularity
    }

    /// Allocates `size` bytes, rounded up to the granularity, at the lowest
    /// free address; fails with `Invalid` on a zero size and `NoSpace` when
    /// the window has no room left.
    pub fn allocate(&mut self, size: u64) -> (r: Result<Allocation, Error>)
        ensures
            size == 0 ==> r == Err::<Allocation, Error>(Error::Invalid),
            size > 0 && !old(self)@.fits(size as int) ==> r == Err::<Allocation, Error>(
                Error::NoSpace,
            ),
            size > 0 && old(self)@.fits(size as int) ==> r == Ok::<Allocation, Error>(
                Allocation {
                    addr: old(self)@.next as u64,
                    size: align_up(size as int, old(self)@.granularity) as u64,
                },
            ),
            r is Err ==> final(self)@ == old(self)@,
            r is Ok ==> final(self)@ == (AllocatorView {
                next: r->Ok_0.end(),
                live: old(self)@.live.push(r->Ok_0),
                ..old(self)@
            }),
            r is Ok ==> (r->Ok_0.addr as int) % old(self)@.granularity == 0,
    {
        proof {
            use_type_invariant(&*self);
            lemma_align_up(size as int, self.granularity as int);
        }
        if size == 0 {
            return Err(Error::Invalid);
        }
        if self.end < self.next || size > self.end - self.next {
            return Err(Error::NoSpace);
        }
        let rounded = round_up(size, self.granularity);
        if rounded > self.end - self.next {
            return Err(Error::NoSpace);
        }
        let a = Allocation { addr: self.next, size: rounded };
        proof {
            lemma_align_up(rounded as int + self.next as int, self.granularity as int);
            vstd::arithmetic::div_mod::lemma_add_mod_noop(
                self.next as int,
                rounded as int,
                self.granularity as int,
            );
        }
        let mut live = self.live.clone();
        live.push(a);
        let ghost old_live = self.live@;
        proof {
            assert forall|i: int, j: int|
                0 <= i < live@.len() && 0 <= j < live@.len() && i != j implies disjoint(
                live@[i].addr as int,
                live@[i].end(),
                live@[j].addr as int,
                live@[j].end(),
            ) by {
                if i < old_live.len() && j < old_live.len() {
                    assert(live@[i] == old_live[i] && live@[j] == old_live[j]);
                } else if i < old_live.len() {
                    assert(live@[i] == old_live[i]);
                } else {
                    assert(live@[j] == old_live[j]);
                }
            }
        }
        *self = SimpleAllocator {
            start: self.start,
            end: self.end,
            prot: self.prot,
            granularity: self.granularity,
            next: self.next + rounded,
            live,
        };
        Ok(a)
    }

    /// Reserves `len` bytes for a zero-initialised array, rounded up to the
    /// granularity, drawing their backing memory from `memory` (bytes left).
    /// Fails with `NoSpace` when the window has no room and `NoMemory` when
    /// the backing memory does not suffice; nothing changes on failure.
    pub fn array_empty(&mut self, memory: &mut u64, len: u64) -> (r: Result<Allocation, Error>)
        ensures
            len == 0 ==> r == Err::<Allocation, Error>(Error::Invalid),
            len > 0 && !old(self)@.fits(len as int) ==> r == Err::<Allocation, Error>(
                Error::NoSpace,
            ),
            len > 0 && old(self)@.fits(len as int) && *old(memory) < align_up(
                len as int,
                old(self)@.granularity,
            ) ==> r == Err::<Allocation, Error>(Error::NoMemory),
            len > 0 && old(self)@.fits(len as int) && *old(memory) >= align_up(
                len as int,
                old(self)@.granularity,
            ) ==> r == Ok::<Allocation, Error>(
                Allocation {
                    addr: old(self)@.next as u64,
                    size: align_up(len as int, old(self)@.granularity) as u64,
                },
            ),
            r is Err ==> final(self)@ == old(self)@ && *final(memory) == *old(memory),
            r is Ok ==> final(self)@ == (AllocatorView {
                next: r->Ok_0.end(),
                live: old(self)@.live.push(r->Ok_0),
                ..old(self)@
            }),
            r is Ok ==> *final(memory) == *old(memory) - r->Ok_0.size,
    {
        proof {
            use_type_invariant(&*self);
        }
        if len == 0 {
            return Err(Error::Invalid);
        }
        if self.end < self.next || len > self.end - self.next {
            return Err(Error::NoSpace);
        }
        let rounded = round_up(len, self.granularity);
        if rounded > self.end - self.next {
            return Err(Error::NoSpace);
        }
        if *memory < rounded {
            return Err(Error::NoMemory);
        }
        let a = self.allocate(len);
        match a {
            Ok(a) => {
                *memory = *memory - a.size;
                Ok(a)
            },
            Err(e) => Err(e),
        }
    }

    /// Releases `a` if it is live; reports whether it was. Releasing the
    /// topmost allocation makes its range available again.
    pub fn free(&mut self, a: Allocation) -> (r: bool)
        ensures
            r == old(self)@.live.contains(a),
            !r ==> final(self)@ == old(self)@,
            r ==> exists|i: int|
                0 <= i < old(self)@.live.len() && old(self)@.live[i] == a && final(self)@.live
                    == old(self)@.live.remove(i),
            r ==> final(self)@.next == if a.end() == old(self)@.next {
                a.addr as int
            } else {
                old(self)@.next
            },
            final(self)@.start == old(self)@.start,
            final(self)@.end == old(self)@.end,
            final(self)@.prot == old(self)@.prot,
            final(self)@.granularity == old(self)@.granularity,
    {
        proof {
            use_type_invariant(&*self);
        }
        let mut i: usize = 0;
        while i < self.live.len()
            invariant
                0 <= i <= self.live.len(),
                allocator_wf(self@),
                self@ == old(self)@,
                forall|j: int| 0 <= j < i ==> self.live@[j] != a,
            decreases self.live.len() - i,
        {
            if self.live[i] == a {
                assert(self@.live[i as int] == a);
                let mut live = self.live.clone();
                live.remove(i);
                let next = if a.addr + a.size == self.next {
                    a.addr
                } else {
                    self.next
                };
                let ghost old_live = self.live@;
                proof {
                    assert(live@ == old_live.remove(i as int));
                    assert forall|k: int|
                        #![trigger live@[k]]
                        0 <= k < live@.len() implies live@[k].end() <= next by {
                        let ok = if k < i { k } else { k + 1 };
                        assert(live@[k] == old_live[ok]);
                        assert(ok != i);
                        assert(self@.live[ok] == old_live[ok]);
                        assert(self@.live[i as int] == a);
                        assert(disjoint(
                            self@.live[ok].addr as int,
                            self@.live[ok].end(),
                            self@.live[i as int].addr as int,
                            self@.live[i as int].end(),
                        ));
                    }
                    assert forall|k: int, l: int|
                        0 <= k < live@.len() && 0 <= l < live@.len() && k != l implies disjoint(
                        live@[k].addr as int,
                        live@[k].end(),
                        live@[l].addr as int,
                        live@[l].end(),
                    ) by {
                        let ok = if k < i { k } else { k + 1 };
                        let ol = if l < i { l } else { l + 1 };
                        assert(live@[k] == old_live[ok]);
                        assert(live@[l] == old_live[ol]);
                    }
                    assert(old_live[i as int] == a);
                    assert(old_live.contains(a));
                }
                *self = SimpleAllocator {
                    start: self.start,
                    end: self.end,
                    prot: self.prot,
                    granularity: self.granularity,
                    next,
                    live,
                };
                return true;
            }
            i = i + 1;
        }
        proof {
            if self.live@.contains(a) {
                let j = choose|j: int| 0 <= j < self.live@.len() && self.live@[j] == a;
                assert(self.live@[j] != a);
            }
        }
        false
    }
}

} // verus!
