use asahi_file::error::Error;
use asahi_file::layout::{round_up, PAGE_SIZE};
use asahi_file::range_alloc::{Allocation, SimpleAllocator};
use asahi_file::device::Device;
use asahi_file::vm::Vm;

#[test]
fn round_up_values() {
    assert_eq!(round_up(0, PAGE_SIZE), 0);
    assert_eq!(round_up(1, PAGE_SIZE), PAGE_SIZE);
    assert_eq!(round_up(PAGE_SIZE, PAGE_SIZE), PAGE_SIZE);
    assert_eq!(round_up(PAGE_SIZE + 1, PAGE_SIZE), 2 * PAGE_SIZE);
    assert_eq!(round_up(10, 3), 12);
}

#[test]
fn allocator_hands_out_disjoint_aligned_ranges() {
    let mut a = SimpleAllocator::new_with_range(0x1000_0000, 0x1001_0000, 1, 0x4000);
    let x = a.allocate(1).unwrap();
    let y = a.allocate(0x4001).unwrap();
    assert_eq!(x, Allocation { addr: 0x1000_0000, size: 0x4000 });
    assert_eq!(y, Allocation { addr: 0x1000_4000, size: 0x8000 });
    assert_eq!(a.next(), 0x1000_c000);
    assert!(x.addr + x.size <= y.addr);
}

#[test]
fn allocator_rejects_zero_and_reports_full_window() {
    let mut a = SimpleAllocator::new_with_range(0x4000, 0xc000, 1, 0x4000);
    assert_eq!(a.allocate(0), Err(Error::Invalid));
    assert_eq!(a.allocate(0x8001), Err(Error::NoSpace));
    assert_eq!(a.allocate(0x8000), Ok(Allocation { addr: 0x4000, size: 0x8000 }));
    assert_eq!(a.allocate(1), Err(Error::NoSpace));
    assert_eq!(a.live_count(), 1);
}

#[test]
fn allocator_free_gives_back_the_top() {
    let mut a = SimpleAllocator::new_with_range(0, 0x10000, 1, 0x4000);
    let x = a.allocate(0x4000).unwrap();
    let y = a.allocate(0x4000).unwrap();
    assert!(a.free(x));
    assert_eq!(a.next(), 0x8000);
    assert!(!a.free(x));
    assert!(a.free(y));
    assert_eq!(a.next(), 0x4000);
    assert_eq!(a.live_count(), 0);
    assert_eq!(a.allocate(0x4000), Ok(Allocation { addr: 0x4000, size: 0x4000 }));
}

#[test]
fn array_empty_draws_backing_memory() {
    let mut a = SimpleAllocator::new_with_range(0, 0x10000, 1, 0x4000);
    let mut memory: u64 = 0x6000;
    assert_eq!(a.array_empty(&mut memory, 1), Ok(Allocation { addr: 0, size: 0x4000 }));
    assert_eq!(memory, 0x2000);
    assert_eq!(a.array_empty(&mut memory, 1), Err(Error::NoMemory));
    assert_eq!(memory, 0x2000);
    assert_eq!(a.next(), 0x4000);
    assert_eq!(a.array_empty(&mut memory, 0x10000), Err(Error::NoSpace));
}

#[test]
fn vm_maps_an_object_once() {
    let mut vm = Vm::new(9);
    assert_eq!(vm.id(), 9);
    assert_eq!(vm.iova(3), None);
    assert_eq!(vm.map_into_range(3, 0x4000, 0x10000, 0x20000, 0x4000), Ok(0x10000));
    assert_eq!(vm.map_into_range(3, 0x4000, 0x10000, 0x20000, 0x4000), Err(Error::Busy));
    assert_eq!(vm.iova(3), Some(0x10000));
    assert_eq!(vm.map_into_range(4, 0x5000, 0x10000, 0x20000, 0x4000), Ok(0x14000));
    assert_eq!(vm.map_into_range(5, 0x4000, 0x10000, 0x20000, 0x4000), Ok(0x1c000));
    assert_eq!(vm.map_into_range(6, 0x4000, 0x10000, 0x20000, 0x4000), Err(Error::NoSpace));
    assert_eq!(vm.map_into_range(6, 0, 0x10000, 0x20000, 0x4000), Err(Error::Invalid));
    assert_eq!(vm.iova(6), None);
}

#[test]
fn vm_windows_do_not_disturb_each_other() {
    let mut vm = Vm::new(1);
    assert_eq!(vm.map_into_range(1, 0x4000, 0x40000, 0x80000, 0x4000), Ok(0x40000));
    assert_eq!(vm.map_into_range(2, 0x4000, 0x0, 0x40000, 0x4000), Ok(0x0));
    assert_eq!(vm.map_into_range(3, 0x4000, 0x40000, 0x80000, 0x4000), Ok(0x44000));
}

#[test]
fn device_objects_and_counters() {
    let mut d = Device::new(2, 0x10000);
    assert_eq!(d.take_file_id(), 0);
    assert_eq!(d.take_file_id(), 1);
    assert_eq!(d.take_submission_id(), 0);
    assert_eq!(d.new_object(0), Err(Error::Invalid));
    assert_eq!(d.new_object(0x4001), Ok(0));
    assert_eq!(d.free_memory(), 0x8000);
    assert_eq!(d.object(0).size, 0x8000);
    assert_eq!(d.new_object(0x8001), Err(Error::NoMemory));
    d.destroy_last_object();
    assert_eq!(d.free_memory(), 0x10000);
    assert_eq!(d.object_count(), 0);
    let vm = d.new_vm().unwrap();
    assert_eq!(vm.id(), 1);
    let _second = d.new_vm().unwrap();
    assert!(matches!(d.new_vm(), Err(Error::NoMemory)));
    d.release_vm(vm);
    assert_eq!(d.live_vms(), 1);
}
