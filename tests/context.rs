use asahi_file::device::Device;
use asahi_file::error::Error;
use asahi_file::file::{submit_status, CreateBo, File, GetBoOffset, MmapBo, BO_PIPELINE};
use asahi_file::layout::{
    EXTRA_END, EXTRA_START, GENERAL_END, GENERAL_START, MMAP_OFFSET_START, PAGE_SIZE,
    PIPELINE_END, PIPELINE_START, PRIVATE_END, PRIVATE_START, SHARED_END, SHARED_START,
};
use asahi_file::range_alloc::SimpleAllocator;
use asahi_file::render::{Renderer, SubmitRequest};
use asahi_file::vm::Vm;

/// Records the submission identifiers it is handed; fails when told to.
struct Recorder {
    ids: Vec<u64>,
    fail_with: Option<Error>,
}

impl Recorder {
    fn new() -> Recorder {
        Recorder { ids: Vec::new(), fail_with: None }
    }
}

impl Renderer for Recorder {
    fn render(
        &mut self,
        _vm: &Vm,
        allocator: &mut SimpleAllocator,
        _request: &SubmitRequest,
        id: u64,
    ) -> Result<(), Error> {
        self.ids.push(id);
        allocator.allocate(64)?;
        match self.fail_with {
            Some(e) => Err(e),
            None => Ok(()),
        }
    }
}

fn device() -> Device {
    Device::new(8, 0x100_0000)
}

fn request() -> SubmitRequest {
    SubmitRequest { payload: vec![1, 2, 3] }
}

fn create(device: &mut Device, file: &mut File<Recorder>, size: u64, flags: u32) -> (Result<u32, Error>, CreateBo) {
    let mut data = CreateBo { size, flags, handle: 0, offset: 0 };
    let r = File::create_bo(device, &mut data, file);
    (r, data)
}

fn offset_of(device: &Device, file: &mut File<Recorder>, handle: u32) -> (Result<u32, Error>, u64) {
    let mut data = GetBoOffset { handle, offset: 0xdead };
    let r = File::get_bo_offset(device, &mut data, file);
    (r, data.offset)
}

#[test]
fn open_assigns_increasing_ids() {
    let mut d = device();
    let a = File::open(&mut d, Recorder::new()).unwrap();
    let b = File::open(&mut d, Recorder::new()).unwrap();
    let c = File::open(&mut d, Recorder::new()).unwrap();
    assert_eq!(a.id(), 0);
    assert_eq!(b.id(), 1);
    assert_eq!(c.id(), 2);
    assert!(a.id() < b.id() && b.id() < c.id());
    assert_eq!(d.live_vms(), 3);
}

#[test]
fn open_gives_each_context_its_own_vm() {
    let mut d = device();
    let a = File::open(&mut d, Recorder::new()).unwrap();
    let b = File::open(&mut d, Recorder::new()).unwrap();
    assert_eq!(a.vm_id(), 1);
    assert_eq!(b.vm_id(), 2);
}

#[test]
fn open_binds_allocators_to_fixed_windows() {
    let mut d = device();
    let f = File::open(&mut d, Recorder::new()).unwrap();
    assert_eq!(f.shared_allocator().start(), SHARED_START);
    assert_eq!(f.shared_allocator().end(), SHARED_END);
    assert_eq!(f.private_allocator().start(), PRIVATE_START);
    assert_eq!(f.private_allocator().end(), PRIVATE_END);
    assert_eq!(f.extra_allocator().start(), EXTRA_START);
    assert_eq!(f.extra_allocator().end(), EXTRA_END);
    assert_eq!(f.shared_allocator().granularity(), 0x8000);
    assert_eq!(f.private_allocator().granularity(), 0x8000);
    assert_eq!(f.extra_allocator().granularity(), PAGE_SIZE);
    assert_eq!(f.extra_allocator().live_count(), 1);
    assert_eq!(f.extra_allocator().next(), EXTRA_START + PAGE_SIZE);
    assert_eq!(d.free_memory(), 0x100_0000 - PAGE_SIZE);
}

#[test]
fn open_fails_when_no_address_space_is_left() {
    let mut d = Device::new(1, 0x10_0000);
    let a = File::open(&mut d, Recorder::new()).unwrap();
    assert!(matches!(File::open(&mut d, Recorder::new()), Err(Error::NoMemory)));
    assert_eq!(d.live_vms(), 1);
    a.close(&mut d);
    assert_eq!(d.live_vms(), 0);
    let b = File::open(&mut d, Recorder::new()).unwrap();
    assert_eq!(b.id(), 1);
}

#[test]
fn failed_open_leaks_nothing() {
    let mut d = Device::new(4, PAGE_SIZE);
    let a = File::open(&mut d, Recorder::new()).unwrap();
    assert_eq!(d.free_memory(), 0);
    // The address space is had, then the reserved page finds no memory.
    assert!(matches!(File::open(&mut d, Recorder::new()), Err(Error::NoMemory)));
    assert_eq!(d.live_vms(), 1);
    assert_eq!(d.free_memory(), 0);
    a.close(&mut d);
    assert_eq!(d.live_vms(), 0);
    assert_eq!(d.free_memory(), PAGE_SIZE);
    let c = File::open(&mut d, Recorder::new()).unwrap();
    assert_eq!(c.shared_allocator().start(), SHARED_START);
    assert_eq!(c.shared_allocator().end(), SHARED_END);
    assert_eq!(c.private_allocator().start(), PRIVATE_START);
    assert_eq!(c.private_allocator().end(), PRIVATE_END);
    assert_eq!(c.extra_allocator().start(), EXTRA_START);
    assert_eq!(c.extra_allocator().end(), EXTRA_END);
    assert!(c.id() > 1);
}

#[test]
fn submission_ids_increase_across_contexts() {
    let mut d = device();
    let mut a = File::open(&mut d, Recorder::new()).unwrap();
    let mut b = File::open(&mut d, Recorder::new()).unwrap();
    assert_eq!(File::submit(&mut d, &request(), &mut a), Ok(0));
    assert_eq!(File::submit(&mut d, &request(), &mut b), Ok(0));
    assert_eq!(File::submit(&mut d, &request(), &mut a), Ok(0));
    assert_eq!(File::submit(&mut d, &request(), &mut b), Ok(0));
    assert_eq!(File::submit(&mut d, &request(), &mut b), Ok(0));
    assert_eq!(a.renderer().ids, vec![0, 2]);
    assert_eq!(b.renderer().ids, vec![1, 3, 4]);
    // Each submission could allocate from the context's shared allocator.
    assert_eq!(a.shared_allocator().live_count(), 2);
    assert_eq!(b.shared_allocator().live_count(), 3);
}

#[test]
fn submit_returns_renderer_error_unchanged() {
    let mut d = device();
    let mut r = Recorder::new();
    r.fail_with = Some(Error::Code(-62));
    let mut f = File::open(&mut d, r).unwrap();
    assert_eq!(File::submit(&mut d, &request(), &mut f), Err(Error::Code(-62)));
    assert_eq!(File::submit(&mut d, &request(), &mut f), Err(Error::Code(-62)));
    // A failed submission does not poison the context.
    let (r, data) = create(&mut d, &mut f, 4096, 0);
    assert_eq!(r, Ok(0));
    assert_eq!(data.offset, GENERAL_START);
}

#[test]
fn submit_status_maps_outcomes() {
    assert_eq!(submit_status(Ok(())), Ok(0));
    assert_eq!(submit_status(Err(Error::Code(-5))), Err(Error::Code(-5)));
    assert_eq!(submit_status(Err(Error::NoMemory)), Err(Error::NoMemory));
}

#[test]
fn wait_and_get_param_report_zero() {
    let mut d = device();
    let f = File::open(&mut d, Recorder::new()).unwrap();
    assert_eq!(File::wait(&d, &f), Ok(0));
    assert_eq!(File::get_param(&d, &f), Ok(0));
}

#[test]
fn create_bo_general_offset_is_absolute() {
    let mut d = device();
    let mut f = File::open(&mut d, Recorder::new()).unwrap();
    let (r, first) = create(&mut d, &mut f, 4096, 0);
    assert_eq!(r, Ok(0));
    assert_eq!(first.handle, 1);
    assert_eq!(first.offset, GENERAL_START);
    let (r, second) = create(&mut d, &mut f, 0x5000, 0);
    assert_eq!(r, Ok(0));
    assert_eq!(second.handle, 2);
    assert_eq!(second.offset, GENERAL_START + PAGE_SIZE);
    let (_, third) = create(&mut d, &mut f, 1, 0);
    assert_eq!(third.offset, GENERAL_START + 3 * PAGE_SIZE);
    for o in [first.offset, second.offset, third.offset] {
        assert!(GENERAL_START <= o && o < GENERAL_END);
        assert_eq!(o % PAGE_SIZE, 0);
    }
}

#[test]
fn create_bo_pipeline_offset_is_relative() {
    let mut d = device();
    let mut f = File::open(&mut d, Recorder::new()).unwrap();
    let (r, first) = create(&mut d, &mut f, 0x8000, BO_PIPELINE);
    assert_eq!(r, Ok(0));
    assert_eq!(first.offset, 0);
    let (r, second) = create(&mut d, &mut f, 100, BO_PIPELINE);
    assert_eq!(r, Ok(0));
    assert_eq!(second.offset, 0x8000);
    assert_eq!(second.offset % PAGE_SIZE, 0);
    assert!(second.offset < PIPELINE_END - PIPELINE_START);
    // Its absolute address is the pipeline window's base plus the offset.
    let (r, absolute) = offset_of(&d, &mut f, second.handle);
    assert_eq!(r, Ok(0));
    assert_eq!(absolute, PIPELINE_START + 0x8000);
}

#[test]
fn create_bo_rejects_zero_size() {
    let mut d = device();
    let mut f = File::open(&mut d, Recorder::new()).unwrap();
    let (r, data) = create(&mut d, &mut f, 0, 0);
    assert_eq!(r, Err(Error::Invalid));
    assert_eq!(data.handle, 0);
    assert_eq!(d.object_count(), 0);
}

#[test]
fn create_bo_reports_memory_exhaustion() {
    let mut d = Device::new(2, 3 * PAGE_SIZE);
    let mut f = File::open(&mut d, Recorder::new()).unwrap();
    let (r, data) = create(&mut d, &mut f, 3 * PAGE_SIZE, 0);
    assert_eq!(r, Err(Error::NoMemory));
    assert_eq!(data.offset, 0);
    let (r, _) = create(&mut d, &mut f, 2 * PAGE_SIZE, 0);
    assert_eq!(r, Ok(0));
    assert_eq!(d.free_memory(), 0);
}

#[test]
fn create_bo_reports_window_exhaustion_and_releases_object() {
    let mut d = Device::new(2, 0x2_0000_0000);
    let mut f = File::open(&mut d, Recorder::new()).unwrap();
    let (r, _) = create(&mut d, &mut f, 0x1_0000_0000, BO_PIPELINE);
    assert_eq!(r, Ok(0));
    let free = d.free_memory();
    let (r, data) = create(&mut d, &mut f, PAGE_SIZE, BO_PIPELINE);
    assert_eq!(r, Err(Error::NoSpace));
    assert_eq!(data.handle, 0);
    assert_eq!(d.free_memory(), free);
    assert_eq!(d.object_count(), 1);
    // The general window is unaffected.
    let (r, data) = create(&mut d, &mut f, PAGE_SIZE, 0);
    assert_eq!(r, Ok(0));
    assert_eq!(data.handle, 2);
    assert_eq!(data.offset, GENERAL_START);
}

#[test]
fn get_bo_offset_returns_the_creation_offset() {
    let mut d = device();
    let mut a = File::open(&mut d, Recorder::new()).unwrap();
    let (r, data) = create(&mut d, &mut a, 4096, 0);
    assert_eq!(r, Ok(0));
    let (h, o) = (data.handle, data.offset);
    assert!(o >= 0x20_0000_0000 && o < 0x60_0000_0000);
    assert_eq!(o % PAGE_SIZE, 0);
    assert_eq!(offset_of(&d, &mut a, h), (Ok(0), o));
    // Two more callers asking for the same handle see the same address.
    assert_eq!(offset_of(&d, &mut a, h), (Ok(0), o));
    assert_eq!(offset_of(&d, &mut a, h), (Ok(0), o));
}

#[test]
fn get_bo_offset_maps_an_object_once() {
    let mut d = device();
    let mut a = File::open(&mut d, Recorder::new()).unwrap();
    let (_, x) = create(&mut d, &mut a, 4096, 0);
    let mut b = File::open(&mut d, Recorder::new()).unwrap();
    let (_, y) = create(&mut d, &mut b, 4096, 0);
    assert_eq!(y.handle, 1);
    // The object of `b` is not mapped in `a`: the first ask maps it, later
    // asks find that mapping.
    let mut mmap = MmapBo { handle: x.handle, flags: 0, offset: 0 };
    assert_eq!(File::mmap_bo(&d, &mut mmap, &a), Ok(0));
    let first = offset_of(&d, &mut b, y.handle);
    assert_eq!(first, (Ok(0), GENERAL_START));
    assert_eq!(offset_of(&d, &mut b, y.handle), first);
}

#[test]
fn get_bo_offset_rejects_unknown_handle() {
    let mut d = device();
    let mut f = File::open(&mut d, Recorder::new()).unwrap();
    assert_eq!(offset_of(&d, &mut f, 0), (Err(Error::NotFound), 0xdead));
    assert_eq!(offset_of(&d, &mut f, 1), (Err(Error::NotFound), 0xdead));
    let (_, data) = create(&mut d, &mut f, 4096, 0);
    assert_eq!(offset_of(&d, &mut f, data.handle + 1), (Err(Error::NotFound), 0xdead));
}

#[test]
fn mmap_bo_returns_object_offsets() {
    let mut d = device();
    let mut f = File::open(&mut d, Recorder::new()).unwrap();
    let (_, x) = create(&mut d, &mut f, 4096, 0);
    let (_, y) = create(&mut d, &mut f, 4096, BO_PIPELINE);
    let mut m = MmapBo { handle: x.handle, flags: 0, offset: 0 };
    assert_eq!(File::mmap_bo(&d, &mut m, &f), Ok(0));
    assert_eq!(m.offset, MMAP_OFFSET_START);
    let mut n = MmapBo { handle: y.handle, flags: 0, offset: 0 };
    assert_eq!(File::mmap_bo(&d, &mut n, &f), Ok(0));
    assert_eq!(n.offset, MMAP_OFFSET_START + PAGE_SIZE);
}

#[test]
fn mmap_bo_refuses_foreign_handle() {
    let mut d = device();
    let mut a = File::open(&mut d, Recorder::new()).unwrap();
    let b = File::open(&mut d, Recorder::new()).unwrap();
    let (r, data) = create(&mut d, &mut a, 4096, 0);
    assert_eq!(r, Ok(0));
    let mut m = MmapBo { handle: data.handle, flags: 0, offset: 7 };
    assert_eq!(File::mmap_bo(&d, &mut m, &b), Err(Error::NotFound));
    assert_eq!(m.offset, 7);
    assert_eq!(File::mmap_bo(&d, &mut m, &a), Ok(0));
    assert_eq!(m.offset, MMAP_OFFSET_START);
}
