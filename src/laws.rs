use vstd::prelude::*;
use crate::device::{counters_advance, DeviceView};
use crate::error::Error;
use crate::file::{
    bo_offset_mappings, bo_offset_result, fresh_file, open_post, open_succeeds, FileView,
};
use crate::vm::{iova_of, lemma_iova_push, Mapping, VmView};

verus! {

/// Along any run of device states in which every step lets the counters
/// advance (as every operation of this library does), a context identifier
/// issued at step `i` is below every identifier issued later: identifiers
/// strictly increase and never repeat.
pub proof fn lemma_file_ids_increase(run: Seq<DeviceView>, i: int, j: int)
    requires
        0 <= i < j < run.len(),
        forall|k: int| 0 <= k < run.len() - 1 ==> counters_advance(#[trigger] run[k], run[k + 1]),
        run[i + 1].next_file_id == run[i].next_file_id + 1,
    ensures
        run[i].next_file_id < run[j].next_file_id,
    decreases j - i,
{
    if j > i + 1 {
        lemma_file_ids_increase(run, i, j - 1);
        assert(counters_advance(run[j - 1], run[j]));
    }
}

/// Along any run of device states in which every step lets the counters
/// advance, a submission identifier issued at step `i` is below every
/// identifier issued later, whichever contexts submitted.
pub proof fn lemma_submission_ids_increase(run: Seq<DeviceView>, i: int, j: int)
    requires
        0 <= i < j < run.len(),
        forall|k: int| 0 <= k < run.len() - 1 ==> counters_advance(#[trigger] run[k], run[k + 1]),
        run[i + 1].next_submission_id == run[i].next_submission_id + 1,
    ensures
        run[i].next_submission_id < run[j].next_submission_id,
    decreases j - i,
{
    if j > i + 1 {
        lemma_submission_ids_increase(run, i, j - 1);
        assert(counters_advance(run[j - 1], run[j]));
    }
}

/// Asking `get_bo_offset` again for the same handle gives the same result
/// and changes nothing more: once one call has installed a mapping, every
/// later call reports that same address, and when no mapping could be made
/// every later call reports the same failure.
pub proof fn lemma_bo_offset_settles(f: FileView, d: DeviceView, handle: u32)
    requires
        f.wf(),
        f.objects_valid(d),
    ensures
        ({
            let f1 = FileView {
                vm: VmView { mappings: bo_offset_mappings(f, d, handle), ..f.vm },
                ..f
            };
            &&& bo_offset_result(f1, d, handle) == bo_offset_result(f, d, handle)
            &&& bo_offset_mappings(f1, d, handle) == f1.vm.mappings
        }),
{
    let f1 = FileView { vm: VmView { mappings: bo_offset_mappings(f, d, handle), ..f.vm }, ..f };
    match f.object_of(handle) {
        Err(_) => {
            assert(f1 == f);
        },
        Ok(obj) => {
            match iova_of(f.vm.mappings, obj) {
                Some(_) => {
                    assert(f1 == f);
                },
                None => {
                    match bo_offset_result(f, d, handle) {
                        Ok(a) => {
                            let m = Mapping {
                                object: obj,
                                iova: a,
                                size: crate::layout::align_up(
                                    d.objects[obj as int].size as int,
                                    crate::layout::PAGE_SIZE as int,
                                ) as u64,
                            };
                            lemma_iova_push(f.vm.mappings, m);
                            assert(f1.object_of(handle) == Ok::<u64, Error>(obj));
                        },
                        Err(_) => {
                            assert(f1 == f);
                        },
                    }
                },
            }
        },
    }
}

/// A handle that this context never handed out names nothing here, so
/// `mmap_bo` and `get_bo_offset` refuse it and report no offset.
pub proof fn lemma_foreign_handle_refused(f: FileView, d: DeviceView, handle: u32)
    requires
        handle == 0 || handle > f.handles.len(),
    ensures
        f.object_of(handle) == Err::<u64, Error>(Error::NotFound),
        bo_offset_result(f, d, handle) == Err::<u64, Error>(Error::NotFound),
        bo_offset_mappings(f, d, handle) == f.vm.mappings,
{
}

/// A failed open gives back everything it took: the device keeps as many
/// free address spaces, as much backing memory and the same objects as
/// before, so the next open fares exactly as this one would have; and every
/// context, whenever opened, gets allocators over the same windows.
pub proof fn lemma_failed_open_leaks_nothing(d: DeviceView, id1: u64, vm1: u64, id2: u64, vm2: u64)
    requires
        d.wf(),
        !open_succeeds(d),
    ensures
        open_post(d).live_vms == d.live_vms,
        open_post(d).max_vms == d.max_vms,
        open_post(d).free_memory == d.free_memory,
        open_post(d).objects == d.objects,
        open_post(d).next_mmap_offset == d.next_mmap_offset,
        open_succeeds(open_post(d)) == open_succeeds(d),
        fresh_file(id1, vm1).shared == fresh_file(id2, vm2).shared,
        fresh_file(id1, vm1).private == fresh_file(id2, vm2).private,
        fresh_file(id1, vm1).extra == fresh_file(id2, vm2).extra,
{
}

} // verus!
