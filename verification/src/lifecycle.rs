//! What holds of every well-formed object store, stated over its view and
//! proved from the transitions that the store's functions are specified by.

use crate::memory::AllocatorView;
use crate::objects::{state_slot_size, ClassEntry, ObjectView, StoreView};
use vstd::prelude::*;

verus! {

broadcast use vstd::layout::layout_of_primitives;

/// Stepping back from a live object's header by the size of the state slot
/// gives the address of the live block that holds its composite: the address
/// at which the state slot was written.
pub proof fn lemma_fetch_recovers_composite<T>(store: StoreView<T>, ptr: usize)
    requires
        store.wf(),
        store.contains(ptr),
    ensures
        ptr >= state_slot_size(),
        store.heap.is_live((ptr - state_slot_size()) as usize),
        store.heap.index_of((ptr - state_slot_size()) as usize) == store.index_of(ptr),
        store.heap.blocks[store.index_of(ptr)].size == state_slot_size() + store.object(
            ptr,
        ).class.header_size,
{
    let i = store.index_of(ptr);
    store.lemma_index_unique(i);
    store.heap.lemma_index_unique(i);
}

/// A composite that is laid out gets the block that the allocator hands out
/// next, and its header stands one state slot behind the start of that block.
/// The objects that were alive before are unchanged, and none of them has the
/// new object's address.
pub proof fn lemma_init_lays_out<T>(store: StoreView<T>, class: ClassEntry, state: T)
    requires
        store.wf(),
        store.can_init(class),
    ensures
        ({
            let after = store.after_init(class, state);
            let ptr = (store.heap.next + state_slot_size()) as usize;
            &&& after.wf()
            &&& ptr - state_slot_size() == store.heap.next
            &&& after.heap.blocks.last().addr == store.heap.next
            &&& !store.contains(ptr)
            &&& after.contains(ptr)
            &&& after.object(ptr) == (ObjectView { ptr, state, refcount: 1, class })
            &&& after.heap.allocations == store.heap.allocations + 1
            &&& after.teardowns == store.teardowns
            &&& forall|p: usize| #[trigger]
                store.contains(p) ==> after.contains(p) && after.object(p) == store.object(p)
        }),
{
    let after = store.after_init(class, state);
    let ptr = (store.heap.next + state_slot_size()) as usize;
    let n = store.objects.len() as int;
    assert(after.heap.wf());
    assert(after.wf());
    assert(after.objects[n].ptr == ptr);
    after.lemma_index_unique(n);
    if store.contains(ptr) {
        let j = store.index_of(ptr);
        assert(store.heap.blocks[j].addr == store.heap.next);
    }
    assert forall|p: usize| #[trigger] store.contains(p) implies after.contains(p) && after.object(
        p,
    ) == store.object(p) by {
        let j = store.index_of(p);
        assert(after.objects[j] == store.objects[j]);
        after.lemma_index_unique(j);
    }
}

/// Changing the state of one object changes that state and nothing else: the
/// object keeps its address, count and class, and every other object keeps its
/// state.
pub proof fn lemma_with_state<T>(store: StoreView<T>, ptr: usize, state: T)
    requires
        store.wf(),
        store.contains(ptr),
    ensures
        ({
            let after = store.with_state(ptr, state);
            &&& after.wf()
            &&& after.heap == store.heap
            &&& after.teardowns == store.teardowns
            &&& after.contains(ptr)
            &&& after.object(ptr) == (ObjectView { state, ..store.object(ptr) })
            &&& forall|p: usize| #[trigger]
                store.contains(p) && p != ptr ==> after.contains(p) && after.object(p)
                    == store.object(p)
        }),
{
    let after = store.with_state(ptr, state);
    let i = store.index_of(ptr);
    store.lemma_index_unique(i);
    assert(after.wf());
    assert(after.objects[i].ptr == ptr);
    after.lemma_index_unique(i);
    assert forall|p: usize| #[trigger] store.contains(p) && p != ptr implies after.contains(p)
        && after.object(p) == store.object(p) by {
        let j = store.index_of(p);
        assert(after.objects[j] == store.objects[j]);
        after.lemma_index_unique(j);
    }
}

/// Every composite that was ever allocated is either alive or was torn down,
/// and was torn down once: the allocations are the teardowns and the live
/// objects together, and every block that went back went back in a teardown.
pub proof fn lemma_each_torn_down_once<T>(store: StoreView<T>)
    requires
        store.wf(),
    ensures
        store.heap.allocations == store.teardowns + store.objects.len(),
        store.heap.releases == store.teardowns,
        store.heap.blocks.len() == store.objects.len(),
        store.objects.len() == 0 ==> store.heap.allocations == store.heap.releases,
{
}

/// Releasing the last reference tears the object down once: one teardown more,
/// one block given back, and the address is no longer that of a live object, so
/// that no second release of it can be asked for. The other objects are
/// unchanged.
pub proof fn lemma_last_release<T>(store: StoreView<T>, ptr: usize)
    requires
        store.wf(),
        store.contains(ptr),
        store.object(ptr).refcount == 1,
    ensures
        ({
            let after = store.after_free(ptr);
            &&& after.wf()
            &&& after.teardowns == store.teardowns + 1
            &&& after.heap.releases == store.heap.releases + 1
            &&& after.heap.allocations == store.heap.allocations
            &&& after.objects.len() == store.objects.len() - 1
            &&& !after.contains(ptr)
            &&& !after.heap.is_live((ptr - state_slot_size()) as usize)
            &&& forall|p: usize| #[trigger]
                store.contains(p) && p != ptr ==> after.contains(p) && after.object(p)
                    == store.object(p)
        }),
{
    let after = store.after_free(ptr);
    let i = store.index_of(ptr);
    let this = (ptr - state_slot_size()) as usize;
    store.lemma_index_unique(i);
    store.heap.lemma_index_unique(i);
    assert(after.heap.blocks == store.heap.blocks.remove(i));
    assert forall|k: int| 0 <= k < after.objects.len() implies {
        &&& (#[trigger] after.objects[k]).ptr == after.heap.blocks[k].addr + state_slot_size()
        &&& after.heap.blocks[k].size == state_slot_size() + after.objects[k].class.header_size
        &&& 1 <= after.objects[k].refcount <= u32::MAX
        &&& after.objects[k].ptr != ptr
    } by {
        if k < i {
            assert(after.objects[k] == store.objects[k]);
            assert(store.heap.blocks[k].addr != store.heap.blocks[i].addr);
        } else {
            assert(after.objects[k] == store.objects[k + 1]);
            assert(store.heap.blocks[i].addr != store.heap.blocks[k + 1].addr);
        }
    }
    assert(after.heap.wf()) by {
        assert forall|a: int, b: int| 0 <= a < b < after.heap.blocks.len() implies (
        #[trigger] after.heap.blocks[a]).addr != (#[trigger] after.heap.blocks[b]).addr by {
            let a0 = if a < i { a } else { a + 1 };
            let b0 = if b < i { b } else { b + 1 };
            assert(after.heap.blocks[a] == store.heap.blocks[a0]);
            assert(after.heap.blocks[b] == store.heap.blocks[b0]);
        }
        assert forall|a: int| 0 <= a < after.heap.blocks.len() implies crate::memory::ARENA_BASE <= (
        #[trigger] after.heap.blocks[a]).addr < after.heap.next by {
            let a0 = if a < i { a } else { a + 1 };
            assert(after.heap.blocks[a] == store.heap.blocks[a0]);
        }
    }
    assert(after.wf());
    if after.heap.is_live(this) {
        let k = after.heap.index_of(this);
        assert(after.objects[k].ptr == ptr);
    }
    assert forall|p: usize| #[trigger] store.contains(p) && p != ptr implies after.contains(p)
        && after.object(p) == store.object(p) by {
        let j = store.index_of(p);
        let j1 = if j < i { j } else { j - 1 };
        assert(after.objects[j1] == store.objects[j]);
        after.lemma_index_unique(j1);
    }
}

/// Releasing a reference that is not the last only lowers the count: nothing is
/// torn down, nothing given back, and the object stays alive with its state.
pub proof fn lemma_earlier_release<T>(store: StoreView<T>, ptr: usize)
    requires
        store.wf(),
        store.contains(ptr),
        store.object(ptr).refcount > 1,
    ensures
        ({
            let after = store.after_free(ptr);
            &&& after.wf()
            &&& after.teardowns == store.teardowns
            &&& after.heap == store.heap
            &&& after.contains(ptr)
            &&& after.object(ptr).state == store.object(ptr).state
            &&& after.object(ptr).refcount == store.object(ptr).refcount - 1
        }),
{
    let after = store.after_free(ptr);
    let i = store.index_of(ptr);
    store.lemma_index_unique(i);
    assert(after.wf());
    assert(after.objects[i].ptr == ptr);
    after.lemma_index_unique(i);
}

/// A second handle made by taking a reference is the first one's equal: it has
/// the same address, so both read the same state and a change made through one
/// is read through the other. Releasing one of the two leaves the store as it
/// was before the reference was taken, the object alive in it.
pub proof fn lemma_duplicate_aliases<T>(store: StoreView<T>, ptr: usize, state: T)
    requires
        store.wf(),
        store.contains(ptr),
        store.object(ptr).refcount < u32::MAX,
    ensures
        ({
            let shared = store.after_duplicate(ptr);
            &&& shared.wf()
            &&& shared.heap == store.heap
            &&& shared.teardowns == store.teardowns
            &&& shared.contains(ptr)
            &&& shared.object(ptr).state == store.object(ptr).state
            &&& shared.object(ptr).refcount == store.object(ptr).refcount + 1
            &&& shared.with_state(ptr, state).object(ptr).state == state
            &&& shared.after_free(ptr) == store
        }),
{
    let shared = store.after_duplicate(ptr);
    let i = store.index_of(ptr);
    store.lemma_index_unique(i);
    assert(shared.wf());
    assert(shared.objects[i].ptr == ptr);
    shared.lemma_index_unique(i);
    lemma_with_state(shared, ptr, state);
    assert(shared.after_free(ptr).objects =~= store.objects);
}

/// A deep clone is independent of the object it was made from: it stands at
/// another address, in a block of its own, with one reference; a change of the
/// clone's state leaves the other's state as it was, and the other way round.
pub proof fn lemma_clone_independent<T>(
    store: StoreView<T>,
    ptr: usize,
    copy: T,
    changed: T,
)
    requires
        store.wf(),
        store.contains(ptr),
        store.can_init(store.object(ptr).class),
    ensures
        ({
            let both = store.after_init(store.object(ptr).class, copy);
            let twin = (store.heap.next + state_slot_size()) as usize;
            &&& both.wf()
            &&& twin != ptr
            &&& both.contains(ptr)
            &&& both.contains(twin)
            &&& both.object(twin).state == copy
            &&& both.object(twin).refcount == 1
            &&& both.object(ptr) == store.object(ptr)
            &&& both.with_state(twin, changed).contains(ptr)
            &&& both.with_state(twin, changed).contains(twin)
            &&& both.with_state(twin, changed).object(ptr) == store.object(ptr)
            &&& both.with_state(twin, changed).object(twin).state == changed
            &&& both.with_state(ptr, changed).contains(twin)
            &&& both.with_state(ptr, changed).object(twin).state == copy
        }),
{
    let class = store.object(ptr).class;
    let both = store.after_init(class, copy);
    let twin = (store.heap.next + state_slot_size()) as usize;
    lemma_init_lays_out(store, class, copy);
    lemma_with_state(both, twin, changed);
    lemma_with_state(both, ptr, changed);
}

/// A construction that fails in the constructor leaves no trace but in the
/// counts: the live objects are those from before, the composite that was laid
/// out was torn down once, and its block was allocated once and given back once.
pub proof fn lemma_failed_construction<T>(store: StoreView<T>, class: ClassEntry, state: T)
    requires
        store.wf(),
        store.can_init(class),
    ensures
        ({
            let ptr = (store.heap.next + state_slot_size()) as usize;
            let after = store.after_init(class, state).after_free(ptr);
            &&& after.wf()
            &&& after.objects == store.objects
            &&& after.heap.blocks == store.heap.blocks
            &&& after.teardowns == store.teardowns + 1
            &&& after.heap.allocations == store.heap.allocations + 1
            &&& after.heap.releases == store.heap.releases + 1
            &&& !after.contains(ptr)
        }),
{
    let ptr = (store.heap.next + state_slot_size()) as usize;
    let laid = store.after_init(class, state);
    lemma_init_lays_out(store, class, state);
    lemma_last_release(laid, ptr);
    let after = laid.after_free(ptr);
    let n = store.objects.len() as int;
    laid.lemma_index_unique(n);
    assert(after.objects =~= store.objects);
    assert(after.heap.blocks =~= store.heap.blocks);
}

/// A block that was given back is not live: the allocator counts no second
/// release of it.
pub proof fn lemma_free_once(heap: AllocatorView, addr: usize)
    requires
        heap.wf(),
        heap.is_live(addr),
    ensures
        heap.after_free(addr).wf(),
        !heap.after_free(addr).is_live(addr),
        heap.after_free(addr).allocations == heap.allocations,
        heap.after_free(addr).releases == heap.releases + 1,
        heap.after_free(addr).blocks.len() == heap.blocks.len() - 1,
{
    let after = heap.after_free(addr);
    let i = heap.index_of(addr);
    assert forall|a: int| 0 <= a < after.blocks.len() implies crate::memory::ARENA_BASE <= (
    #[trigger] after.blocks[a]).addr < after.next && after.blocks[a].addr != addr by {
        let a0 = if a < i { a } else { a + 1 };
        assert(after.blocks[a] == heap.blocks[a0]);
        if a0 < i {
            assert(heap.blocks[a0].addr != heap.blocks[i].addr);
        } else {
            assert(heap.blocks[i].addr != heap.blocks[a0].addr);
        }
    }
    assert forall|a: int, b: int| 0 <= a < b < after.blocks.len() implies (
    #[trigger] after.blocks[a]).addr != (#[trigger] after.blocks[b]).addr by {
        let a0 = if a < i { a } else { a + 1 };
        let b0 = if b < i { b } else { b + 1 };
        assert(after.blocks[a] == heap.blocks[a0]);
        assert(after.blocks[b] == heap.blocks[b0]);
    }
}

/// In every well-formed arena each block that was handed out is either live or
/// was given back once: the allocations are the releases and the live blocks.
pub proof fn lemma_allocations_paired(heap: AllocatorView)
    requires
        heap.wf(),
    ensures
        heap.allocations == heap.releases + heap.blocks.len(),
        heap.blocks.len() == 0 ==> heap.allocations == heap.releases,
{
}

} // verus!
