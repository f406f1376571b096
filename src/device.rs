use vstd::prelude::*;
use crate::error::Error;
use crate::layout::{align_up, lemma_align_up, round_up, MMAP_OFFSET_END, MMAP_OFFSET_START, PAGE_SIZE};
use crate::vm::{vm_wf, Mapping, Vm};

verus! {

/// A buffer object of the device: its size, a multiple of the page size,
/// and the offset at which a client may memory-map it.
#[derive(Clone, Copy, Debug, PartialEq, Eq, Structural)]
pub struct GemObject {
    pub size: u64,
    pub mmap_offset: u64,
}

pub ghost struct DeviceView {
    pub next_file_id: u64,
    pub next_submission_id: u64,
    pub next_vm_id: u64,
    pub max_vms: u64,
    pub live_vms: u64,
    pub free_memory: u64,
    pub objects: Seq<GemObject>,
    pub next_mmap_offset: u64,
}

impl DeviceView {
    pub open spec fn wf(self) -> bool {
        &&& self.live_vms <= self.max_vms
        &&& MMAP_OFFSET_START <= self.next_mmap_offset <= MMAP_OFFSET_END
        &&& forall|i: int|
            #![trigger self.objects[i]]
            0 <= i < self.objects.len() ==> MMAP_OFFSET_START <= self.objects[i].mmap_offset
                <= MMAP_OFFSET_END
    }

    /// The identifier counters have not run out.
    pub open spec fn ids_left(self) -> bool {
        &&& self.next_file_id < u64::MAX
        &&& self.next_submission_id < u64::MAX
        &&& self.next_vm_id < u64::MAX
    }

    /// What creating an object of `size` bytes yields: its identifier, or
    /// `Invalid` for a zero size and `NoMemory` when backing memory or the
    /// mmap offset space is exhausted.
    pub open spec fn object_result(self, size: u64) -> Result<u64, Error> {
        let rounded = align_up(size as int, PAGE_SIZE as int);
        if size == 0 {
            Err(Error::Invalid)
        } else if rounded > self.free_memory || self.next_mmap_offset + rounded > MMAP_OFFSET_END
            || self.objects.len() >= u64::MAX {
            Err(Error::NoMemory)
        } else {
            Ok(self.objects.len() as u64)
        }
    }
}

/// Identifier counters never go back.
pub open spec fn counters_advance(a: DeviceView, b: DeviceView) -> bool {
    &&& a.next_file_id <= b.next_file_id
    &&& a.next_submission_id <= b.next_submission_id
}

/// The device-wide state that every client context shares: identifier
/// counters, the number of address spaces it can hold, the backing memory
/// left, and its buffer objects.
pub struct Device {
    next_file_id: u64,
    next_submission_id: u64,
    next_vm_id: u64,
    max_vms: u64,
    live_vms: u64,
    free_memory: u64,
    objects: Vec<GemObject>,
    next_mmap_offset: u64,
}

impl View for Device {
    type V = DeviceView;

    closed spec fn view(&self) -> DeviceView {
        DeviceView {
            next_file_id: self.next_file_id,
            next_submission_id: self.next_submission_id,
            next_vm_id: self.next_vm_id,
            max_vms: self.max_vms,
            live_vms: self.live_vms,
            free_memory: self.free_memory,
            objects: self.objects@,
            next_mmap_offset: self.next_mmap_offset,
        }
    }
}

impl Device {
    /// A device that holds at most `max_vms` address spaces at once and has
    /// `memory` bytes of backing memory. Address space 0 is the device's own.
    pub fn new(max_vms: u64, memory: u64) -> (r: Device)
        ensures
            r@ == (DeviceView {
                next_file_id: 0,
                next_submission_id: 0,
                next_vm_id: 1,
                max_vms,
                live_vms: 0,
                free_memory: memory,
                objects: Seq::<GemObject>::empty(),
                next_mmap_offset: MMAP_OFFSET_START,
            }),
            r@.wf(),
    {
        Device {
            next_file_id: 0,
            next_submission_id: 0,
            next_vm_id: 1,
            max_vms,
            live_vms: 0,
            free_memory: memory,
            objects: Vec::new(),
            next_mmap_offset: MMAP_OFFSET_START,
        }
    }

    pub fn live_vms(&self) -> (r: u64)
        ensures
            r == self@.live_vms,
    {
        self.live_vms
    }

    pub fn free_memory(&self) -> (r: u64)
        ensures
            r == self@.free_memory,
    {
        self.free_memory
    }

    pub fn object_count(&self) -> (r: usize)
        ensures
            r == self@.objects.len(),
    {
        self.objects.len()
    }

    /// The buffer object with identifier `id`.
    pub fn object(&self, id: u64) -> (r: GemObject)
        requires
            id < self@.objects.len(),
        ensures
            r == self@.objects[id as int],
    {
        let n: usize = self.objects.len();
        proof {
            assert(id < n);
        }
        self.objects[id as usize]
    }

    /// Takes the next context identifier.
    pub fn take_file_id(&mut self) -> (r: u64)
        requires
            old(self)@.next_file_id < u64::MAX,
        ensures
            r == old(self)@.next_file_id,
            final(self)@ == (DeviceView { next_file_id: (r + 1) as u64, ..old(self)@ }),
    {
        let id = self.next_file_id;
        self.next_file_id = id + 1;
        id
    }

    /// Takes the next submission identifier.
    pub fn take_submission_id(&mut self) -> (r: u64)
        requires
            old(self)@.next_submission_id < u64::MAX,
        ensures
            r == old(self)@.next_submission_id,
            final(self)@ == (DeviceView { next_submission_id: (r + 1) as u64, ..old(self)@ }),
    {
        let id = self.next_submission_id;
        self.next_submission_id = id + 1;
        id
    }

    /// A fresh, empty address space; `NoMemory` when the device already holds
    /// as many as it can.
    pub fn new_vm(&mut self) -> (r: Result<Vm, Error>)
        requires
            old(self)@.wf(),
            old(self)@.next_vm_id < u64::MAX,
        ensures
            final(self)@.wf(),
            old(self)@.live_vms >= old(self)@.max_vms ==> r == Err::<Vm, Error>(Error::NoMemory)
                && final(self)@ == old(self)@,
            old(self)@.live_vms < old(self)@.max_vms ==> r is Ok && final(self)@ == (DeviceView {
                next_vm_id: (old(self)@.next_vm_id + 1) as u64,
                live_vms: (old(self)@.live_vms + 1) as u64,
                ..old(self)@
            }),
            r is Ok ==> r->Ok_0@.id == old(self)@.next_vm_id && r->Ok_0@.mappings == Seq::<
                Mapping,
            >::empty() && vm_wf(r->Ok_0@),
    {
        if self.live_vms >= self.max_vms {
            return Err(Error::NoMemory);
        }
        let vm = Vm::new(self.next_vm_id);
        self.next_vm_id = self.next_vm_id + 1;
        self.live_vms = self.live_vms + 1;
        Ok(vm)
    }

    /// Tears down an address space of this device.
    pub fn release_vm(&mut self, vm: Vm)
        requires
            old(self)@.wf(),
            old(self)@.live_vms > 0,
        ensures
            final(self)@.wf(),
            final(self)@ == (DeviceView {
                live_vms: (old(self)@.live_vms - 1) as u64,
                ..old(self)@
            }),
    {
        self.live_vms = self.live_vms - 1;
    }

    /// Gives `bytes` of backing memory back to the device.
    pub fn return_memory(&mut self, bytes: u64)
        requires
            old(self)@.free_memory + bytes <= u64::MAX,
        ensures
            final(self)@ == (DeviceView {
                free_memory: (old(self)@.free_memory + bytes) as u64,
                ..old(self)@
            }),
    {
        self.free_memory = self.free_memory + bytes;
    }

    /// Lends the backing memory left to an allocation that draws from it.
    pub(crate) fn free_memory_mut(&mut self) -> (r: &mut u64)
        ensures
            *r == old(self)@.free_memory,
            final(self)@ == (DeviceView { free_memory: *final(r), ..old(self)@ }),
    {
        &mut self.free_memory
    }

    /// Creates a buffer object of `size` bytes, rounded up to whole pages,
    /// backed by device memory and given the next free mmap offset.
    pub fn new_object(&mut self, size: u64) -> (r: Result<u64, Error>)
        requires
            old(self)@.wf(),
        ensures
            final(self)@.wf(),
            r == old(self)@.object_result(size),
            r is Err ==> final(self)@ == old(self)@,
            r is Ok ==> final(self)@ == (DeviceView {
                free_memory: (old(self)@.free_memory - align_up(size as int, PAGE_SIZE as int)) as u64,
                objects: old(self)@.objects.push(
                    GemObject {
                        size: align_up(size as int, PAGE_SIZE as int) as u64,
                        mmap_offset: old(self)@.next_mmap_offset,
                    },
                ),
                next_mmap_offset: (old(self)@.next_mmap_offset + align_up(
                    size as int,
                    PAGE_SIZE as int,
                )) as u64,
                ..old(self)@
            }),
    {
        proof {
            lemma_align_up(size as int, PAGE_SIZE as int);
        }
        if size == 0 {
            return Err(Error::Invalid);
        }
        if size > self.free_memory {
            return Err(Error::NoMemory);
        }
        if size > u64::MAX - PAGE_SIZE {
            return Err(Error::NoMemory);
        }
        let rounded = round_up(size, PAGE_SIZE);
        if rounded > self.free_memory || rounded > MMAP_OFFSET_END - self.next_mmap_offset
            || self.objects.len() as u64 >= u64::MAX {
            return Err(Error::NoMemory);
        }
        let id = self.objects.len() as u64;
        self.objects.push(GemObject { size: rounded, mmap_offset: self.next_mmap_offset });
        self.free_memory = self.free_memory - rounded;
        self.next_mmap_offset = self.next_mmap_offset + rounded;
        Ok(id)
    }

    /// Destroys the most recently created object, giving back its backing
    /// memory and its mmap offset.
    pub fn destroy_last_object(&mut self)
        requires
            old(self)@.wf(),
            old(self)@.objects.len() > 0,
            old(self)@.free_memory + old(self)@.objects.last().size <= u64::MAX,
        ensures
            final(self)@.wf(),
            final(self)@ == (DeviceView {
                free_memory: (old(self)@.free_memory + old(self)@.objects.last().size) as u64,
                objects: old(self)@.objects.drop_last(),
                next_mmap_offset: old(self)@.objects.last().mmap_offset,
                ..old(self)@
            }),
    {
        let last = self.objects.pop();
        match last {
            Some(o) => {
                proof {
                    assert(self.objects@ == old(self)@.objects.drop_last());
                    assert(old(self)@.objects[old(self)@.objects.len() - 1] == o);
                    assert forall|i: int| #![trigger self@.objects[i]] 0 <= i < self@.objects.len()
                        implies MMAP_OFFSET_START <= self@.objects[i].mmap_offset <= MMAP_OFFSET_END by {
                        assert(self@.objects[i] == old(self)@.objects[i]);
                    }
                }
                self.free_memory = self.free_memory + o.size;
                self.next_mmap_offset = o.mmap_offset;
            },
            None => {},
        }
    }
}

} // verus!
