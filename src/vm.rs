use vstd::prelude::*;
use crate::error::Error;
use crate::layout::{align_up, lemma_align_up, round_up, ADDR_LIMIT};
use crate::range_alloc::disjoint;

verus! {

/// A buffer object `object` mapped at GPU address `iova` over `size` bytes.
#[derive(Clone, Copy, Debug, PartialEq, Eq, Structural)]
pub struct Mapping {
    pub object: u64,
    pub iova: u64,
    pub size: u64,
}

impl Mapping {
    pub open spec fn end(self) -> int {
        self.iova + self.size
    }
}

pub ghost struct VmView {
    pub id: u64,
    pub mappings: Seq<Mapping>,
}

/// A GPU virtual address space: its identifier and the buffer objects
/// mapped into it.
pub struct Vm {
    id: u64,
    mappings: Vec<Mapping>,
}

impl View for Vm {
    type V = VmView;

    closed spec fn view(&self) -> VmView {
        VmView { id: self.id, mappings: self.mappings@ }
    }
}

/// Mappings are non-empty, below the address limit, pairwise disjoint, and
/// an object is mapped at most once.
pub open spec fn vm_wf(v: VmView) -> bool {
    &&& forall|i: int|
        #![trigger v.mappings[i]]
        0 <= i < v.mappings.len() ==> v.mappings[i].size > 0 && v.mappings[i].end() <= ADDR_LIMIT
    &&& forall|i: int, j: int|
        #![trigger v.mappings[i], v.mappings[j]]
        0 <= i < v.mappings.len() && 0 <= j < v.mappings.len() && i != j ==> disjoint(
            v.mappings[i].iova as int,
            v.mappings[i].end(),
            v.mappings[j].iova as int,
            v.mappings[j].end(),
        ) && v.mappings[i].object != v.mappings[j].object
}

pub open spec fn is_mapped(m: Seq<Mapping>, object: u64) -> bool {
    exists|i: int| 0 <= i < m.len() && m[i].object == object
}

/// The address at which `object` is mapped, if it is.
pub open spec fn iova_of(m: Seq<Mapping>, object: u64) -> Option<u64> {
    if is_mapped(m, object) {
        Some(m[choose|i: int| 0 <= i < m.len() && m[i].object == object].iova)
    } else {
        None
    }
}

/// The lowest address of `[start, end)` above every mapping that begins
/// below `end`.
pub open spec fn frontier(m: Seq<Mapping>, start: int, end: int) -> int
    decreases m.len(),
{
    if m.len() == 0 {
        start
    } else {
        let f = frontier(m.drop_last(), start, end);
        let last = m.last();
        if last.iova < end && last.end() > f {
            last.end()
        } else {
            f
        }
    }
}

/// What mapping `object` of `size` bytes into `[start, end)` at granularity
/// `align` yields: `Busy` if it is mapped already, else the first aligned
/// address above the window's frontier, if the rounded size fits there.
pub open spec fn map_result(
    m: Seq<Mapping>,
    object: u64,
    size: u64,
    start: u64,
    end: u64,
    align: u64,
) -> Result<u64, Error> {
    let base = align_up(frontier(m, start as int, end as int), align as int);
    if is_mapped(m, object) {
        Err(Error::Busy)
    } else if size == 0 {
        Err(Error::Invalid)
    } else if base + align_up(size as int, align as int) <= end {
        Ok(base as u64)
    } else {
        Err(Error::NoSpace)
    }
}

pub proof fn lemma_frontier(m: Seq<Mapping>, start: int, end: int)
    ensures
        frontier(m, start, end) >= start,
        forall|i: int|
            0 <= i < m.len() && m[i].iova < end ==> #[trigger] m[i].end() <= frontier(m, start, end),
        frontier(m, start, end) == start || exists|i: int|
            0 <= i < m.len() && m[i].iova < end && frontier(m, start, end) == m[i].end(),
    decreases m.len(),
{
    if m.len() > 0 {
        let d = m.drop_last();
        lemma_frontier(d, start, end);
        assert forall|i: int| 0 <= i < m.len() && m[i].iova < end implies #[trigger] m[i].end()
            <= frontier(m, start, end) by {
            if i < m.len() - 1 {
                assert(m[i] == d[i]);
            }
        }
        if frontier(d, start, end) != start && frontier(m, start, end) == frontier(d, start, end) {
            let j = choose|j: int| 0 <= j < d.len() && d[j].iova < end && frontier(d, start, end) == d[j].end();
            assert(m[j] == d[j]);
        }
    }
}

impl Vm {
    /// An empty address space with identifier `id`.
    pub fn new(id: u64) -> (r: Vm)
        ensures
            r@.id == id,
            r@.mappings == Seq::<Mapping>::empty(),
            vm_wf(r@),
    {
        Vm { id, mappings: Vec::new() }
    }

    pub fn id(&self) -> (r: u64)
        ensures
            r == self@.id,
    {
        self.id
    }

    /// The address at which `object` is mapped in this space, if any.
    pub fn iova(&self, object: u64) -> (r: Option<u64>)
        requires
            vm_wf(self@),
        ensures
            r == iova_of(self@.mappings, object),
    {
        let mut i: usize = 0;
        while i < self.mappings.len()
            invariant
                0 <= i <= self.mappings.len(),
                vm_wf(self@),
                forall|j: int| 0 <= j < i ==> self.mappings@[j].object != object,
            decreases self.mappings.len() - i,
        {
            if self.mappings[i].object == object {
                proof {
                    let m = self.mappings@;
                    assert(is_mapped(m, object));
                    let c = choose|c: int| 0 <= c < m.len() && m[c].object == object;
                    if c != i {
                        assert(self@.mappings[c].object != self@.mappings[i as int].object);
                    }
                }
                return Some(self.mappings[i].iova);
            }
            i = i + 1;
        }
        None
    }

    /// Maps `object` (`size` bytes, rounded up to `align`) at the lowest
    /// aligned address of `[start, end)` above the mappings already there.
    /// Fails with `Busy` when the object is already mapped in this space.
    pub fn map_into_range(&mut self, object: u64, size: u64, start: u64, end: u64, align: u64) -> (r:
        Result<u64, Error>)
        requires
            vm_wf(old(self)@),
            start <= end <= ADDR_LIMIT,
            0 < align <= ADDR_LIMIT,
        ensures
            vm_wf(final(self)@),
            final(self)@.id == old(self)@.id,
            r == map_result(old(self)@.mappings, object, size, start, end, align),
            r is Err ==> final(self)@ == old(self)@,
            r is Ok ==> final(self)@.mappings == old(self)@.mappings.push(
                Mapping {
                    object,
                    iova: r->Ok_0,
                    size: align_up(size as int, align as int) as u64,
                },
            ),
    {
        let ghost m0 = self.mappings@;
        proof {
            lemma_frontier(m0, start as int, end as int);
        }
        if self.iova(object).is_some() {
            return Err(Error::Busy);
        }
        if size == 0 {
            return Err(Error::Invalid);
        }
        let mut f: u64 = start;
        let mut i: usize = 0;
        while i < self.mappings.len()
            invariant
                0 <= i <= self.mappings.len(),
                self.mappings@ == m0,
                vm_wf(self@),
                start <= end <= ADDR_LIMIT,
                f as int == frontier(m0.take(i as int), start as int, end as int),
            decreases self.mappings.len() - i,
        {
            proof {
                assert(m0.take(i as int + 1).drop_last() =~= m0.take(i as int));
                assert(self@.mappings[i as int] == m0[i as int]);
            }
            let m = self.mappings[i];
            if m.iova < end && m.iova + m.size > f {
                f = m.iova + m.size;
            }
            i = i + 1;
        }
        proof {
            assert(m0.take(m0.len() as int) =~= m0);
            lemma_frontier(m0, start as int, end as int);
            if f != start {
                let j = choose|j: int| 0 <= j < m0.len() && m0[j].iova < end && f == m0[j].end();
                assert(self@.mappings[j] == m0[j]);
            }
        }
        let base = round_up(f, align);
        if size > end {
            proof {
                lemma_align_up(size as int, align as int);
            }
            return Err(Error::NoSpace);
        }
        let len = round_up(size, align);
        if base > end || len > end - base {
            return Err(Error::NoSpace);
        }
        let new_map = Mapping { object, iova: base, size: len };
        proof {
            assert(!is_mapped(m0, object));
            assert forall|k: int| 0 <= k < m0.len() implies disjoint(
                m0[k].iova as int,
                m0[k].end(),
                base as int,
                base + len,
            ) && m0[k].object != object by {
                assert(self@.mappings[k] == m0[k]);
                if m0[k].iova < end {
                    assert(m0[k].end() <= f);
                }
            }
        }
        self.mappings.push(new_map);
        proof {
            let m1 = self.mappings@;
            assert forall|a: int, b: int|
                0 <= a < m1.len() && 0 <= b < m1.len() && a != b implies disjoint(
                m1[a].iova as int,
                m1[a].end(),
                m1[b].iova as int,
                m1[b].end(),
            ) && m1[a].object != m1[b].object by {
                if a < m0.len() && b < m0.len() {
                    assert(m1[a] == m0[a] && m1[b] == m0[b]);
                    assert(old(self)@.mappings[a] == m0[a]);
                    assert(old(self)@.mappings[b] == m0[b]);
                } else if a < m0.len() {
                    assert(m1[a] == m0[a]);
                } else {
                    assert(m1[b] == m0[b]);
                }
            }
            assert forall|k: int| #![trigger m1[k]] 0 <= k < m1.len() implies m1[k].size > 0
                && m1[k].end() <= ADDR_LIMIT by {
                if k < m0.len() {
                    assert(m1[k] == m0[k]);
                    assert(old(self)@.mappings[k] == m0[k]);
                }
            }
        }
        Ok(base)
    }
}

} // verus!

verus! {

/// Once mapped, an object is found at the address it was mapped at.
pub proof fn lemma_iova_push(m: Seq<Mapping>, new_map: Mapping)
    requires
        !is_mapped(m, new_map.object),
    ensures
        iova_of(m.push(new_map), new_map.object) == Some(new_map.iova),
{
    let m1 = m.push(new_map);
    assert(m1[m.len() as int] == new_map);
    let c = choose|c: int| 0 <= c < m1.len() && m1[c].object == new_map.object;
    if c < m.len() {
        assert(m1[c] == m[c]);
    }
}

/// A successful mapping lies inside its window, aligned.
pub proof fn lemma_map_in_window(
    m: Seq<Mapping>,
    object: u64,
    size: u64,
    start: u64,
    end: u64,
    align: u64,
)
    requires
        0 < align,
        map_result(m, object, size, start, end, align) is Ok,
    ensures
        ({
            let a = map_result(m, object, size, start, end, align)->Ok_0;
            &&& start <= a
            &&& a + align_up(size as int, align as int) <= end
            &&& a < end
            &&& (a as int) % (align as int) == 0
        }),
{
    lemma_frontier(m, start as int, end as int);
    lemma_align_up(frontier(m, start as int, end as int), align as int);
    lemma_align_up(size as int, align as int);
}

} // verus!
