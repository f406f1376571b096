use vstd::prelude::*;
use crate::device::{counters_advance, Device, DeviceView, GemObject};
use crate::error::Error;
use crate::layout::{
    align_up, lemma_align_up, BUFFER_PAGE_SIZE, EXTRA_END, EXTRA_START, GENERAL_END, GENERAL_START, PAGE_SIZE,
    PIPELINE_END, PIPELINE_START, PRIVATE_END, PRIVATE_START, PROT_GPU_FW_SHARED_RW,
    PROT_GPU_SHARED_RW, SHARED_END, SHARED_START,
};
use crate::range_alloc::{Allocation, AllocatorView, SimpleAllocator};
use crate::render::{Renderer, SubmitRequest};
use crate::vm::{
    iova_of, lemma_iova_push, lemma_map_in_window, map_result, vm_wf, Mapping, Vm,
    VmView,
};

verus! {

/// Flag of `create_bo`: place the object in the pipeline window.
pub const BO_PIPELINE: u32 = 1;

/// A context holds fewer handles than this, so that every handle, numbered
/// from 1, fits in 32 bits.
pub const MAX_HANDLES: usize = 0xffff_fffe;

/// Arguments and results of `create_bo`.
pub struct CreateBo {
    pub size: u64,
    pub flags: u32,
    pub handle: u32,
    pub offset: u64,
}

/// Arguments and results of `mmap_bo`.
pub struct MmapBo {
    pub handle: u32,
    pub flags: u32,
    pub offset: u64,
}

/// Arguments and results of `get_bo_offset`.
pub struct GetBoOffset {
    pub handle: u32,
    pub offset: u64,
}

pub ghost struct FileView {
    pub id: u64,
    pub vm: VmView,
    pub shared: AllocatorView,
    pub private: AllocatorView,
    pub extra: AllocatorView,
    pub unk_page: Allocation,
    /// `handles[h - 1]` is the object that handle `h` names.
    pub handles: Seq<u64>,
}

impl FileView {
    pub open spec fn wf(self) -> bool {
        &&& vm_wf(self.vm)
        &&& self.handles.len() < MAX_HANDLES
    }

    /// Every object this context names or has mapped exists on `d`.
    pub open spec fn objects_valid(self, d: DeviceView) -> bool {
        &&& forall|i: int|
            #![trigger self.handles[i]]
            0 <= i < self.handles.len() ==> self.handles[i] < d.objects.len()
        &&& forall|i: int|
            #![trigger self.vm.mappings[i]]
            0 <= i < self.vm.mappings.len() ==> self.vm.mappings[i].object < d.objects.len()
    }

    /// The object that `handle` names in this context.
    pub open spec fn object_of(self, handle: u32) -> Result<u64, Error> {
        if 1 <= handle <= self.handles.len() {
            Ok(self.handles[handle - 1])
        } else {
            Err(Error::NotFound)
        }
    }
}

/// An allocator view over `[start, end)` with nothing allocated.
pub open spec fn empty_allocator(start: u64, end: u64, prot: u32, granularity: u64) -> AllocatorView {
    AllocatorView {
        start: start as int,
        end: end as int,
        prot,
        granularity: granularity as int,
        next: start as int,
        live: Seq::empty(),
    }
}

/// The page reserved for internal use at open.
pub open spec fn reserved_page() -> Allocation {
    Allocation { addr: EXTRA_START, size: PAGE_SIZE }
}

/// A context just opened, with identifier `id` and address space `vm_id`.
pub open spec fn fresh_file(id: u64, vm_id: u64) -> FileView {
    FileView {
        id,
        vm: VmView { id: vm_id, mappings: Seq::empty() },
        shared: empty_allocator(SHARED_START, SHARED_END, PROT_GPU_SHARED_RW, BUFFER_PAGE_SIZE),
        private: empty_allocator(
            PRIVATE_START,
            PRIVATE_END,
            PROT_GPU_FW_SHARED_RW,
            BUFFER_PAGE_SIZE,
        ),
        extra: AllocatorView {
            next: EXTRA_START + PAGE_SIZE,
            live: seq![reserved_page()],
            ..empty_allocator(EXTRA_START, EXTRA_END, PROT_GPU_SHARED_RW, PAGE_SIZE)
        },
        unk_page: reserved_page(),
        handles: Seq::empty(),
    }
}

/// Whether `open` succeeds on device `d`: it needs room for one more
/// address space and one page of backing memory.
pub open spec fn open_succeeds(d: DeviceView) -> bool {
    d.live_vms < d.max_vms && d.free_memory >= PAGE_SIZE
}

/// The device after `open` on `d`. A context identifier is taken once an
/// address space was had; on failure every resource goes back.
pub open spec fn open_post(d: DeviceView) -> DeviceView {
    if d.live_vms >= d.max_vms {
        d
    } else if d.free_memory < PAGE_SIZE {
        DeviceView {
            next_file_id: (d.next_file_id + 1) as u64,
            next_vm_id: (d.next_vm_id + 1) as u64,
            ..d
        }
    } else {
        DeviceView {
            next_file_id: (d.next_file_id + 1) as u64,
            next_vm_id: (d.next_vm_id + 1) as u64,
            live_vms: (d.live_vms + 1) as u64,
            free_memory: (d.free_memory - PAGE_SIZE) as u64,
            ..d
        }
    }
}

pub open spec fn is_pipeline(flags: u32) -> bool {
    flags & BO_PIPELINE != 0
}

/// Start of the window that an object created with `flags` goes to.
pub open spec fn window_start(flags: u32) -> u64 {
    if is_pipeline(flags) {
        PIPELINE_START
    } else {
        GENERAL_START
    }
}

/// End of the window that an object created with `flags` goes to.
pub open spec fn window_end(flags: u32) -> u64 {
    if is_pipeline(flags) {
        PIPELINE_END
    } else {
        GENERAL_END
    }
}

/// The offset reported for an object mapped at `iova`: relative to the
/// pipeline window's base for pipeline objects, absolute otherwise.
pub open spec fn reported_offset(flags: u32, iova: u64) -> u64 {
    if is_pipeline(flags) {
        (iova - PIPELINE_START) as u64
    } else {
        iova
    }
}

/// Where `create_bo` maps the new object, if it gets that far.
pub open spec fn create_bo_map(f: FileView, d: DeviceView, size: u64, flags: u32) -> Result<u64, Error> {
    map_result(
        f.vm.mappings,
        d.objects.len() as u64,
        align_up(size as int, PAGE_SIZE as int) as u64,
        window_start(flags),
        window_end(flags),
        PAGE_SIZE,
    )
}

/// What `create_bo` yields: the new handle and the reported offset.
pub open spec fn create_bo_result(f: FileView, d: DeviceView, size: u64, flags: u32) -> Result<
    (u32, u64),
    Error,
> {
    if f.handles.len() + 1 >= MAX_HANDLES {
        Err(Error::NoMemory)
    } else {
        match d.object_result(size) {
            Err(e) => Err(e),
            Ok(_) => match create_bo_map(f, d, size, flags) {
                Err(e) => Err(e),
                Ok(iova) => Ok(((f.handles.len() + 1) as u32, reported_offset(flags, iova))),
            },
        }
    }
}

/// What `get_bo_offset` yields: the address at which the object is mapped,
/// mapping it into the general window if no mapping exists yet.
pub open spec fn bo_offset_result(f: FileView, d: DeviceView, handle: u32) -> Result<u64, Error> {
    match f.object_of(handle) {
        Err(e) => Err(e),
        Ok(obj) => match iova_of(f.vm.mappings, obj) {
            Some(a) => Ok(a),
            None => map_result(
                f.vm.mappings,
                obj,
                d.objects[obj as int].size,
                GENERAL_START,
                GENERAL_END,
                PAGE_SIZE,
            ),
        },
    }
}

/// The mappings of the context after `get_bo_offset`.
pub open spec fn bo_offset_mappings(f: FileView, d: DeviceView, handle: u32) -> Seq<Mapping> {
    match f.object_of(handle) {
        Err(_) => f.vm.mappings,
        Ok(obj) => match iova_of(f.vm.mappings, obj) {
            Some(_) => f.vm.mappings,
            None => match bo_offset_result(f, d, handle) {
                Ok(a) => f.vm.mappings.push(
                    Mapping {
                        object: obj,
                        iova: a,
                        size: align_up(d.objects[obj as int].size as int, PAGE_SIZE as int) as u64,
                    },
                ),
                Err(_) => f.vm.mappings,
            },
        },
    }
}

/// The status an ioctl reports for a result: 0 on success, else the error.
pub open spec fn status<T>(r: Result<T, Error>) -> Result<u32, Error> {
    match r {
        Ok(_) => Ok(0),
        Err(e) => Err(e),
    }
}

/// The status of a submission whose renderer returned `ret`: 0 on success,
/// the renderer's error unchanged on failure.
pub fn submit_status(ret: Result<(), Error>) -> (r: Result<u32, Error>)
    ensures
        r == status(ret),
{
    match ret {
        Ok(()) => Ok(0),
        Err(e) => Err(e),
    }
}

/// A client context: its address space, its three allocators, the page it
/// reserves for internal use, its renderer and its buffer-object handles.
pub struct File<R> {
    id: u64,
    vm: Vm,
    ualloc: SimpleAllocator,
    ualloc_priv: SimpleAllocator,
    ualloc_extra: SimpleAllocator,
    unk_page: Allocation,
    renderer: R,
    handles: Vec<u64>,
}

impl<R> View for File<R> {
    type V = FileView;

    closed spec fn view(&self) -> FileView {
        FileView {
            id: self.id,
            vm: self.vm@,
            shared: self.ualloc@,
            private: self.ualloc_priv@,
            extra: self.ualloc_extra@,
            unk_page: self.unk_page,
            handles: self.handles@,
        }
    }
}

impl<R: Renderer> File<R> {
    /// Opens a context on `device` bound to `renderer`: a fresh address
    /// space, the next context identifier, three allocators over their fixed
    /// windows and one reserved page. Fails with `NoMemory`, having released
    /// everything it took, when the device holds no more address spaces or
    /// lacks the backing memory for the page.
    pub fn open(device: &mut Device, renderer: R) -> (r: Result<File<R>, Error>)
        requires
            old(device)@.wf(),
            old(device)@.ids_left(),
        ensures
            final(device)@.wf(),
            final(device)@ == open_post(old(device)@),
            counters_advance(old(device)@, final(device)@),
            r is Ok <==> open_succeeds(old(device)@),
            r is Err ==> r == Err::<File<R>, Error>(Error::NoMemory),
            r is Ok ==> r->Ok_0@ == fresh_file(old(device)@.next_file_id, old(device)@.next_vm_id),
            r is Ok ==> r->Ok_0@.wf() && r->Ok_0@.objects_valid(final(device)@),
    {
        let vm = match device.new_vm() {
            Ok(vm) => vm,
            Err(e) => return Err(e),
        };
        let id = device.take_file_id();
        let ualloc = SimpleAllocator::new_with_range(
            SHARED_START,
            SHARED_END,
            PROT_GPU_SHARED_RW,
            BUFFER_PAGE_SIZE,
        );
        let ualloc_priv = SimpleAllocator::new_with_range(
            PRIVATE_START,
            PRIVATE_END,
            PROT_GPU_FW_SHARED_RW,
            BUFFER_PAGE_SIZE,
        );
        let mut ualloc_extra = SimpleAllocator::new_with_range(
            EXTRA_START,
            EXTRA_END,
            PROT_GPU_SHARED_RW,
            PAGE_SIZE,
        );
        proof {
            assert(align_up(1, PAGE_SIZE as int) == PAGE_SIZE);
        }
        let unk_page = match ualloc_extra.array_empty(device.free_memory_mut(), 1) {
            Ok(a) => a,
            Err(e) => {
                device.release_vm(vm);
                return Err(e);
            },
        };
        let file = File {
            id,
            vm,
            ualloc,
            ualloc_priv,
            ualloc_extra,
            unk_page,
            renderer,
            handles: Vec::new(),
        };
        proof {
            assert(file@.extra.live =~= seq![reserved_page()]);
            assert(file@.vm.mappings =~= Seq::<Mapping>::empty());
            assert(file@.handles =~= Seq::<u64>::empty());
        }
        Ok(file)
    }

    /// The object that `handle` names in this context; `NotFound` when it
    /// names none.
    pub fn lookup_handle(&self, handle: u32) -> (r: Result<u64, Error>)
        ensures
            r == self@.object_of(handle),
    {
        if handle == 0 || handle as usize > self.handles.len() {
            return Err(Error::NotFound);
        }
        Ok(self.handles[handle as usize - 1])
    }

    /// Creates a buffer object of `data.size` bytes and maps it into this
    /// context: into the pipeline window when `data.flags` holds
    /// `BO_PIPELINE`, else into the general window. On success `data.handle`
    /// names the object and `data.offset` is its address, relative to the
    /// pipeline window's base for pipeline objects. On failure nothing
    /// changes.
    pub fn create_bo(device: &mut Device, data: &mut CreateBo, file: &mut File<R>) -> (r: Result<
        u32,
        Error,
    >)
        requires
            old(device)@.wf(),
            old(file)@.wf(),
            old(file)@.objects_valid(old(device)@),
        ensures
            final(device)@.wf(),
            final(file)@.wf(),
            final(file)@.objects_valid(final(device)@),
            counters_advance(old(device)@, final(device)@),
            r == status(create_bo_result(old(file)@, old(device)@, old(data).size, old(data).flags)),
            r is Err ==> final(device)@ == old(device)@ && final(file)@ == old(file)@ && *final(data)
                == *old(data),
            r is Ok ==> ({
                let res = create_bo_result(old(file)@, old(device)@, old(data).size, old(data).flags);
                let obj = old(device)@.objects.len() as u64;
                let size = align_up(old(data).size as int, PAGE_SIZE as int) as u64;
                let iova = create_bo_map(old(file)@, old(device)@, old(data).size, old(data).flags)->Ok_0;
                &&& final(data).size == old(data).size
                &&& final(data).flags == old(data).flags
                &&& final(data).handle == res->Ok_0.0
                &&& final(data).offset == res->Ok_0.1
                &&& final(file)@ == (FileView {
                    vm: VmView {
                        mappings: old(file)@.vm.mappings.push(Mapping { object: obj, iova, size }),
                        ..old(file)@.vm
                    },
                    handles: old(file)@.handles.push(obj),
                    ..old(file)@
                })
                &&& final(device)@ == (DeviceView {
                    free_memory: (old(device)@.free_memory - size) as u64,
                    objects: old(device)@.objects.push(
                        GemObject { size, mmap_offset: old(device)@.next_mmap_offset },
                    ),
                    next_mmap_offset: (old(device)@.next_mmap_offset + size) as u64,
                    ..old(device)@
                })
            }),
            r is Ok && is_pipeline(old(data).flags) ==> final(data).offset < PIPELINE_END
                - PIPELINE_START && final(data).offset % PAGE_SIZE == 0,
            r is Ok && !is_pipeline(old(data).flags) ==> GENERAL_START <= final(data).offset
                < GENERAL_END && final(data).offset % PAGE_SIZE == 0,
    {
        if file.handles.len() + 1 >= MAX_HANDLES {
            return Err(Error::NoMemory);
        }
        let ghost d0 = device@;
        let ghost f0 = file@;
        let obj = match device.new_object(data.size) {
            Ok(obj) => obj,
            Err(e) => return Err(e),
        };
        let size = device.object(obj).size;
        let pipeline = data.flags & BO_PIPELINE != 0;
        let (start, end) = if pipeline {
            (PIPELINE_START, PIPELINE_END)
        } else {
            (GENERAL_START, GENERAL_END)
        };
        let iova = match file.vm.map_into_range(obj, size, start, end, PAGE_SIZE) {
            Ok(iova) => iova,
            Err(e) => {
                device.destroy_last_object();
                proof {
                    assert(device@.objects =~= d0.objects);
                }
                return Err(e);
            },
        };
        proof {
            lemma_align_up(data.size as int, PAGE_SIZE as int);
            lemma_align_up(size as int, PAGE_SIZE as int);
            lemma_map_in_window(f0.vm.mappings, obj, size, start, end, PAGE_SIZE);
        }
        file.handles.push(obj);
        if pipeline {
            proof {
                assert((iova as int) % 0x4000 == 0);
                let q = iova as int / 0x4000;
                vstd::arithmetic::div_mod::lemma_fundamental_div_mod(iova as int, 0x4000);
                assert(iova as int == 0x4000 * q) by (nonlinear_arith)
                    requires
                        iova as int == 0x4000 * (iova as int / 0x4000) + (iova as int) % 0x4000,
                        (iova as int) % 0x4000 == 0,
                        q == iova as int / 0x4000,
                ;
                vstd::arithmetic::div_mod::lemma_mod_multiples_basic(q - 0x44_0000, 0x4000);
                assert((q - 0x44_0000) * 0x4000 == iova - 0x11_0000_0000) by (nonlinear_arith)
                    requires
                        iova as int == 0x4000 * q,
                ;
            }
            data.offset = iova - PIPELINE_START;
        } else {
            data.offset = iova;
        }
        data.handle = file.handles.len() as u32;
        proof {
            let f1 = file@;
            let d1 = device@;
            assert forall|i: int| #![trigger f1.handles[i]] 0 <= i < f1.handles.len() implies f1.handles[i]
                < d1.objects.len() by {
                if i < f0.handles.len() {
                    assert(f1.handles[i] == f0.handles[i]);
                }
            }
            assert forall|i: int| #![trigger f1.vm.mappings[i]] 0 <= i < f1.vm.mappings.len()
                implies f1.vm.mappings[i].object < d1.objects.len() by {
                if i < f0.vm.mappings.len() {
                    assert(f1.vm.mappings[i] == f0.vm.mappings[i]);
                }
            }
        }
        Ok(0)
    }

    /// Reports the address at which the object named by `data.handle` is
    /// mapped in this context. It first tries to map the object into the
    /// general window; whether or not that attempt wins (it fails with `Busy`
    /// when a mapping exists already), it then looks the mapping up and
    /// succeeds with whatever mapping is there. Only when none is there does
    /// the mapping's error come back; `Io` would mean the mapping state
    /// contradicts itself, and the contract shows it never comes.
    pub fn get_bo_offset(device: &Device, data: &mut GetBoOffset, file: &mut File<R>) -> (r: Result<
        u32,
        Error,
    >)
        requires
            old(file)@.wf(),
            old(file)@.objects_valid(device@),
        ensures
            final(file)@.wf(),
            final(file)@.objects_valid(device@),
            r == status(bo_offset_result(old(file)@, device@, old(data).handle)),
            r is Ok ==> final(data).offset == bo_offset_result(
                old(file)@,
                device@,
                old(data).handle,
            )->Ok_0,
            r is Err ==> final(data).offset == old(data).offset,
            final(data).handle == old(data).handle,
            final(file)@ == (FileView {
                vm: VmView {
                    mappings: bo_offset_mappings(old(file)@, device@, old(data).handle),
                    ..old(file)@.vm
                },
                ..old(file)@
            }),
    {
        let ghost f0 = file@;
        let obj = match file.lookup_handle(data.handle) {
            Ok(obj) => obj,
            Err(e) => return Err(e),
        };
        let size = device.object(obj).size;
        // Concurrent callers race here: one mapping wins, the others see `Busy`.
        let mapped = file.vm.map_into_range(obj, size, GENERAL_START, GENERAL_END, PAGE_SIZE);
        proof {
            match mapped {
                Ok(a) => {
                    lemma_iova_push(
                        f0.vm.mappings,
                        Mapping {
                            object: obj,
                            iova: a,
                            size: align_up(size as int, PAGE_SIZE as int) as u64,
                        },
                    );
                },
                Err(_) => {},
            }
            let f1 = file@;
            assert forall|i: int| #![trigger f1.vm.mappings[i]] 0 <= i < f1.vm.mappings.len()
                implies f1.vm.mappings[i].object < device@.objects.len() by {
                if i < f0.vm.mappings.len() {
                    assert(f1.vm.mappings[i] == f0.vm.mappings[i]);
                }
            }
        }
        match file.vm.iova(obj) {
            Some(iova) => {
                data.offset = iova;
                Ok(0)
            },
            None => match mapped {
                Err(e) => Err(e),
                Ok(_) => Err(Error::Io),
            },
        }
    }

    /// Reports the offset at which the object named by `data.handle` can be
    /// memory-mapped; `NotFound` when the handle names no object of this
    /// context.
    pub fn mmap_bo(device: &Device, data: &mut MmapBo, file: &File<R>) -> (r: Result<u32, Error>)
        requires
            file@.objects_valid(device@),
        ensures
            r == status(file@.object_of(old(data).handle)),
            r is Ok ==> final(data).offset == device@.objects[file@.object_of(
                old(data).handle,
            )->Ok_0 as int].mmap_offset,
            r is Err ==> final(data).offset == old(data).offset,
            final(data).handle == old(data).handle,
            final(data).flags == old(data).flags,
    {
        let obj = match file.lookup_handle(data.handle) {
            Ok(obj) => obj,
            Err(e) => return Err(e),
        };
        data.offset = device.object(obj).mmap_offset;
        Ok(0)
    }

    /// Hands `request` to the renderer, tagged with the next submission
    /// identifier, against this context's address space and shared
    /// allocator. The status is 0 on success and the renderer's error
    /// unchanged on failure.
    pub fn submit(device: &mut Device, request: &SubmitRequest, file: &mut File<R>) -> (r: Result<
        u32,
        Error,
    >)
        requires
            old(device)@.wf(),
            old(device)@.next_submission_id < u64::MAX,
        ensures
            final(device)@.wf(),
            final(device)@ == (DeviceView {
                next_submission_id: (old(device)@.next_submission_id + 1) as u64,
                ..old(device)@
            }),
            counters_advance(old(device)@, final(device)@),
            r == Ok::<u32, Error>(0) || r is Err,
            final(file)@.id == old(file)@.id,
            final(file)@.vm == old(file)@.vm,
            final(file)@.private == old(file)@.private,
            final(file)@.extra == old(file)@.extra,
            final(file)@.unk_page == old(file)@.unk_page,
            final(file)@.handles == old(file)@.handles,
    {
        let id = device.take_submission_id();
        let ret = file.renderer.render(&file.vm, &mut file.ualloc, request, id);
        submit_status(ret)
    }

    /// Waiting is not handled by this layer: always 0.
    pub fn wait(_device: &Device, _file: &File<R>) -> (r: Result<u32, Error>)
        ensures
            r == Ok::<u32, Error>(0),
    {
        Ok(0)
    }

    /// Parameters are not reported by this layer: always 0.
    pub fn get_param(_device: &Device, _file: &File<R>) -> (r: Result<u32, Error>)
        ensures
            r == Ok::<u32, Error>(0),
    {
        Ok(0)
    }

    /// The identifier of this context's address space.
    pub fn vm_id(&self) -> (r: u64)
        ensures
            r == self@.vm.id,
    {
        self.vm.id()
    }

    /// The allocator for memory shared between client and GPU.
    pub fn shared_allocator(&self) -> (r: &SimpleAllocator)
        ensures
            r@ == self@.shared,
    {
        &self.ualloc
    }

    /// The allocator for memory shared with the firmware.
    pub fn private_allocator(&self) -> (r: &SimpleAllocator)
        ensures
            r@ == self@.private,
    {
        &self.ualloc_priv
    }

    /// The allocator for small internal scratch allocations.
    pub fn extra_allocator(&self) -> (r: &SimpleAllocator)
        ensures
            r@ == self@.extra,
    {
        &self.ualloc_extra
    }

    /// The renderer this context is bound to.
    pub fn renderer(&self) -> &R {
        &self.renderer
    }

    /// The identifier of this context.
    pub fn id(&self) -> (r: u64)
        ensures
            r == self@.id,
    {
        self.id
    }

    /// Closes the context: its address space goes back to the device, and
    /// so does the backing memory of its reserved page.
    pub fn close(self, device: &mut Device)
        requires
            old(device)@.wf(),
            old(device)@.live_vms > 0,
            old(device)@.free_memory + self@.unk_page.size <= u64::MAX,
        ensures
            final(device)@.wf(),
            final(device)@ == (DeviceView {
                live_vms: (old(device)@.live_vms - 1) as u64,
                free_memory: (old(device)@.free_memory + self@.unk_page.size) as u64,
                ..old(device)@
            }),
            counters_advance(old(device)@, final(device)@),
    {
        let File { vm, unk_page, .. } = self;
        device.return_memory(unk_page.size);
        device.release_vm(vm);
    }
}

} // verus!
