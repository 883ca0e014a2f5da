//! Objects of the runtime that carry a typed state in front of their header.

use crate::lifecycle::lemma_last_release;
use crate::memory::{Allocator, AllocatorView};
use std::marker::PhantomData;
use vstd::prelude::*;

verus! {

broadcast use vstd::layout::layout_of_primitives;

/// What the runtime knows of a class: its identity, the size of the header that
/// it lays out for an instance, and whether it declares a constructor.
#[derive(Clone, Copy, Debug, PartialEq, Eq, Structural)]
pub struct ClassEntry {
    pub id: u32,
    pub header_size: usize,
    pub has_constructor: bool,
}

/// An error that the runtime raised while it ran a constructor.
#[derive(Clone, Copy, Debug, PartialEq, Eq, Structural)]
pub struct RuntimeError {
    pub code: i64,
}

/// Why an object could not be built.
#[derive(Clone, Copy, Debug, PartialEq, Eq, Structural)]
pub enum ConstructionError {
    /// The allocator had no room for the composite record.
    AllocationFailure,
    /// The class's constructor raised an error.
    ConstructorFailure(RuntimeError),
}

/// The size of the state slot: a pointer to the state and a pointer to its type's
/// table, whatever the state's type is.
pub open spec fn state_slot_size() -> usize {
    (2 * vstd::layout::size_of::<usize>()) as usize
}

/// The slot is two words of four or eight bytes.
pub proof fn lemma_state_slot_size()
    ensures
        state_slot_size() == 8 || state_slot_size() == 16,
        state_slot_size() == 2 * vstd::layout::size_of::<usize>(),
{
}

/// The count in a header after one more reference to its object was taken.
pub fn retained(count: u32) -> (next: u32)
    requires
        count < u32::MAX,
    ensures
        next == count + 1,
{
    count + 1
}

/// The count in a header after one reference to its object was released, and
/// whether that was the last one, after which the object is torn down.
pub fn released(count: u32) -> (step: (u32, bool))
    requires
        count >= 1,
    ensures
        step.0 == count - 1,
        step.1 == (count == 1),
{
    (count - 1, count == 1)
}

/// What running a constructor amounts to: a constructor that succeeded has run,
/// and one that failed hands its own error on.
pub fn constructed(outcome: Result<(), RuntimeError>) -> (ran: Result<bool, RuntimeError>)
    ensures
        outcome.is_ok() ==> ran == Ok::<bool, RuntimeError>(true),
        outcome.is_err() ==> ran == Err::<bool, RuntimeError>(outcome.unwrap_err()),
{
    match outcome {
        Ok(()) => Ok(true),
        Err(e) => Err(e),
    }
}

/// The composite record: the state, then the runtime's header, of which this
/// library reads the reference count and the class.
pub struct ExtendObject<T> {
    state: T,
    refcount: u32,
    class: ClassEntry,
}

impl<T> ExtendObject<T> {
    /// The distance from the start of the composite to its header.
    pub fn offset() -> (off: usize)
        ensures
            off == state_slot_size(),
    {
        proof {
            lemma_state_slot_size();
        }
        2 * core::mem::size_of::<usize>()
    }

    /// The composite's address, from its header's address.
    pub fn fetch_ptr(object: usize) -> (this: usize)
        requires
            object >= state_slot_size(),
        ensures
            this == object - state_slot_size(),
    {
        object - Self::offset()
    }

    /// Tears the state down: the composite is taken by value and its state ends
    /// here, once. The header comes back as it was; its block is not touched.
    fn drop_state(this: ExtendObject<T>) -> (header: (u32, ClassEntry))
        ensures
            header == (this.refcount, this.class),
    {
        let ExtendObject { state, refcount, class } = this;
        {
            let _ended: T = state;
        }
        (refcount, class)
    }

    /// The header's address, from the composite's address.
    pub fn as_mut_object(this: usize) -> (object: usize)
        requires
            this + state_slot_size() <= usize::MAX,
        ensures
            object == this + state_slot_size(),
    {
        this + Self::offset()
    }
}

/// One live object as contracts see it: its header's address, its state, its
/// reference count and its class.
pub struct ObjectView<T> {
    pub ptr: usize,
    pub state: T,
    pub refcount: nat,
    pub class: ClassEntry,
}

/// The object store as contracts see it: the live objects in the order of their
/// construction, the allocator behind them, and the number of teardowns so far.
#[verifier::ext_equal]
pub struct StoreView<T> {
    pub objects: Seq<ObjectView<T>>,
    pub heap: AllocatorView,
    pub teardowns: nat,
}

impl<T> StoreView<T> {
    pub open spec fn contains(self, ptr: usize) -> bool {
        exists|i: int| 0 <= i < self.objects.len() && #[trigger] self.objects[i].ptr == ptr
    }

    /// The position of the live object whose header is at `ptr`.
    pub open spec fn index_of(self, ptr: usize) -> int {
        choose|i: int| 0 <= i < self.objects.len() && #[trigger] self.objects[i].ptr == ptr
    }

    /// The live object whose header is at `ptr`.
    pub open spec fn object(self, ptr: usize) -> ObjectView<T> {
        self.objects[self.index_of(ptr)]
    }

    /// Every live object is one live block of the allocator, which starts one
    /// state slot before the header and holds the slot and the class's header;
    /// it is referenced at least once; and every block that was given back was
    /// given back by one teardown.
    pub open spec fn wf(self) -> bool {
        &&& self.heap.wf()
        &&& self.objects.len() == self.heap.blocks.len()
        &&& forall|i: int|
            0 <= i < self.objects.len() ==> {
                &&& (#[trigger] self.objects[i]).ptr == self.heap.blocks[i].addr
                    + state_slot_size()
                &&& self.heap.blocks[i].size == state_slot_size() + self.objects[i].class.header_size
                &&& 1 <= self.objects[i].refcount <= u32::MAX
            }
        &&& self.teardowns == self.heap.releases
    }

    /// Whether a composite for an instance of `class` can be allocated.
    pub open spec fn can_init(self, class: ClassEntry) -> bool {
        &&& state_slot_size() + class.header_size <= usize::MAX
        &&& self.heap.fits((state_slot_size() + class.header_size) as usize)
    }

    /// The store after an instance of `class` with the state `state` was laid out.
    pub open spec fn after_init(self, class: ClassEntry, state: T) -> StoreView<T> {
        StoreView {
            objects: self.objects.push(
                ObjectView {
                    ptr: (self.heap.next + state_slot_size()) as usize,
                    state,
                    refcount: 1,
                    class,
                },
            ),
            heap: self.heap.after_alloc((state_slot_size() + class.header_size) as usize),
            ..self
        }
    }

    /// The store in which the object at `ptr` has the state `state`.
    pub open spec fn with_state(self, ptr: usize, state: T) -> StoreView<T> {
        StoreView {
            objects: self.objects.update(
                self.index_of(ptr),
                ObjectView { state, ..self.object(ptr) },
            ),
            ..self
        }
    }

    /// The store after one more reference to the object at `ptr` was taken.
    pub open spec fn after_duplicate(self, ptr: usize) -> StoreView<T> {
        StoreView {
            objects: self.objects.update(
                self.index_of(ptr),
                ObjectView { refcount: self.object(ptr).refcount + 1, ..self.object(ptr) },
            ),
            ..self
        }
    }

    /// The store after one reference to the object at `ptr` was released: the
    /// last one takes the object, its state and its block with it.
    pub open spec fn after_free(self, ptr: usize) -> StoreView<T> {
        if self.object(ptr).refcount == 1 {
            StoreView {
                objects: self.objects.remove(self.index_of(ptr)),
                heap: self.heap.after_free((ptr - state_slot_size()) as usize),
                teardowns: self.teardowns + 1,
            }
        } else {
            StoreView {
                objects: self.objects.update(
                    self.index_of(ptr),
                    ObjectView {
                        refcount: (self.object(ptr).refcount - 1) as nat,
                        ..self.object(ptr)
                    },
                ),
                ..self
            }
        }
    }

    /// In a well-formed store an object is found at one position only, which is
    /// the position of its block.
    pub proof fn lemma_index_unique(self, i: int)
        requires
            self.wf(),
            0 <= i < self.objects.len(),
        ensures
            self.contains(self.objects[i].ptr),
            self.index_of(self.objects[i].ptr) == i,
            self.object(self.objects[i].ptr) == self.objects[i],
            self.heap.index_of(self.heap.blocks[i].addr) == i,
    {
        let ptr = self.objects[i].ptr;
        let j = self.index_of(ptr);
        assert(0 <= j < self.objects.len() && self.objects[j].ptr == ptr);
        assert(self.heap.blocks[j].addr == self.heap.blocks[i].addr);
        self.heap.lemma_index_unique(i);
        self.heap.lemma_index_unique(j);
    }
}

/// The runtime's object store: the composites that are alive, each in a block of
/// the store's own allocator.
pub struct ObjectStore<T> {
    heap: Allocator,
    objects: Vec<ExtendObject<T>>,
    teardowns: usize,
}

impl<T> View for ObjectStore<T> {
    type V = StoreView<T>;

    closed spec fn view(&self) -> StoreView<T> {
        StoreView {
            objects: Seq::new(
                self.objects@.len(),
                |i: int|
                    ObjectView {
                        ptr: (self.heap@.blocks[i].addr + state_slot_size()) as usize,
                        state: self.objects@[i].state,
                        refcount: self.objects@[i].refcount as nat,
                        class: self.objects@[i].class,
                    },
            ),
            heap: self.heap@,
            teardowns: self.teardowns as nat,
        }
    }
}

/// A typed handle: the address of a header in whose composite a `T` is the state.
pub struct Object<T> {
    ptr: usize,
    _p: PhantomData<T>,
}

impl<T> ObjectStore<T> {
    /// An empty store over an arena of `capacity` bytes.
    pub fn new(capacity: usize) -> (store: ObjectStore<T>)
        ensures
            store@.wf(),
            store@.objects.len() == 0,
            store@.heap == AllocatorView::empty(capacity),
            store@.teardowns == 0,
    {
        ObjectStore { heap: Allocator::new(capacity), objects: Vec::new(), teardowns: 0 }
    }

    /// Whether `ptr` is the address of a live object's header.
    pub fn contains(&self, ptr: usize) -> (live: bool)
        requires
            self@.wf(),
        ensures
            live == self@.contains(ptr),
    {
        self.find(ptr).is_some()
    }

    /// The reference count in the header at `ptr`, if a live object is there.
    pub fn refcount(&self, ptr: usize) -> (count: Option<u32>)
        requires
            self@.wf(),
        ensures
            count.is_some() == self@.contains(ptr),
            count.is_some() ==> count.unwrap() == self@.object(ptr).refcount,
    {
        match self.find(ptr) {
            Some(i) => Some(self.objects[i].refcount),
            None => None,
        }
    }

    /// The number of objects that are alive.
    pub fn live_objects(&self) -> (n: usize)
        ensures
            n == self@.objects.len(),
    {
        self.objects.len()
    }

    /// The number of states that were torn down.
    pub fn teardowns(&self) -> (n: usize)
        ensures
            n == self@.teardowns,
    {
        self.teardowns
    }

    /// The allocator behind the store.
    pub fn heap(&self) -> (heap: &Allocator)
        ensures
            heap@ == self@.heap,
    {
        &self.heap
    }

    /// The position of the live object whose header is at `ptr`, if there is one.
    pub fn find(&self, ptr: usize) -> (found: Option<usize>)
        requires
            self@.wf(),
        ensures
            found.is_some() == self@.contains(ptr),
            found.is_some() ==> found.unwrap() == self@.index_of(ptr),
    {
        let off: usize = ExtendObject::<T>::offset();
        if ptr < off {
            return None;
        }
        let found = self.heap.find(ptr - off);
        proof {
            if found.is_some() {
                self@.lemma_index_unique(found.unwrap() as int);
            } else if self@.contains(ptr) {
                let j = self@.index_of(ptr);
                assert(self@.heap.blocks[j].addr == ptr - off);
            }
        }
        found
    }

    /// Lays out a composite for an instance of `class`: allocates the state slot
    /// and the header in one block, writes `state` into the slot, and then sets
    /// up the header behind it with one reference.
    pub fn init_object(&mut self, class: &ClassEntry, state: T) -> (made: Result<
        Object<T>,
        ConstructionError,
    >)
        requires
            old(self)@.wf(),
        ensures
            final(self)@.wf(),
            old(self)@.can_init(*class) ==> made.is_ok() && made.unwrap()@ == old(self)@.heap.next
                + state_slot_size() && final(self)@ == old(self)@.after_init(*class, state),
            made.is_ok() ==> final(self)@.contains(made.unwrap()@),
            !old(self)@.can_init(*class) ==> made == Err::<Object<T>, ConstructionError>(
                ConstructionError::AllocationFailure,
            ) && final(self)@ == old(self)@,
    {
        let off: usize = ExtendObject::<T>::offset();
        if class.header_size > usize::MAX - off {
            return Err(ConstructionError::AllocationFailure);
        }
        let total: usize = off + class.header_size;
        let this: usize = self.heap.raw_alloc(total);
        if this == 0 {
            return Err(ConstructionError::AllocationFailure);
        }
        self.objects.push(ExtendObject { state, refcount: 1, class: *class });
        let object: usize = ExtendObject::<T>::as_mut_object(this);
        proof {
            assert(final(self)@.objects =~= old(self)@.after_init(*class, state).objects);
            final(self)@.lemma_index_unique(final(self)@.objects.len() - 1);
        }
        Ok(Object { ptr: object, _p: PhantomData })
    }
}

impl<T> View for Object<T> {
    type V = usize;

    closed spec fn view(&self) -> usize {
        self.ptr
    }
}

impl<T> Object<T> {
    /// The header's address.
    pub fn as_ptr(&self) -> (ptr: usize)
        ensures
            ptr == self@,
    {
        self.ptr
    }

    /// The state of the object: found one state slot before the header.
    pub fn as_state<'a>(&self, store: &'a ObjectStore<T>) -> (state: &'a T)
        requires
            store@.wf(),
            store@.contains(self@),
        ensures
            *state == store@.object(self@).state,
    {
        let i: usize = store.find(self.ptr).unwrap();
        &store.objects[i].state
    }

    /// The state of the object, to be changed in place. Nothing else in the
    /// store changes with it.
    pub fn as_mut_state<'a>(&mut self, store: &'a mut ObjectStore<T>) -> (state: &'a mut T)
        requires
            old(store)@.wf(),
            old(store)@.contains(old(self)@),
        ensures
            *final(self) == *old(self),
            *state == old(store)@.object(old(self)@).state,
            final(store)@ =~= old(store)@.with_state(old(self)@, *final(state)),
            final(store)@.wf(),
    {
        let i: usize = store.find(self.ptr).unwrap();
        &mut store.objects[i].state
    }

    /// The header's address, for a caller that will hand it to the runtime.
    pub fn as_mut_ptr(&mut self) -> (ptr: usize)
        ensures
            ptr == old(self)@,
            *final(self) == *old(self),
    {
        self.ptr
    }

    /// A handle for the header at `ptr`, which is not the null address.
    pub fn from_mut_ptr(ptr: usize) -> (object: Object<T>)
        requires
            ptr != 0,
        ensures
            object@ == ptr,
    {
        Object { ptr, _p: PhantomData }
    }

    /// The class that the object is an instance of.
    pub fn get_class<'a>(&self, store: &'a ObjectStore<T>) -> (class: &'a ClassEntry)
        requires
            store@.wf(),
            store@.contains(self@),
        ensures
            *class == store@.object(self@).class,
    {
        let i: usize = store.find(self.ptr).unwrap();
        &store.objects[i].class
    }

    /// Takes one more reference to the same object: the count in the header goes
    /// up by one, nothing is allocated, and the new handle has the same address.
    pub fn duplicate(&mut self, store: &mut ObjectStore<T>) -> (other: Object<T>)
        requires
            old(store)@.wf(),
            old(store)@.contains(old(self)@),
            old(store)@.object(old(self)@).refcount < u32::MAX,
        ensures
            *final(self) == *old(self),
            other@ == old(self)@,
            final(store)@ =~= old(store)@.after_duplicate(old(self)@),
            final(store)@.wf(),
            final(store)@.contains(old(self)@),
    {
        let i: usize = store.find(self.ptr).unwrap();
        let count: u32 = store.objects[i].refcount;
        store.objects[i].refcount = retained(count);
        proof {
            assert(store@.objects =~= old(store)@.after_duplicate(self@).objects);
            assert(store@.objects[i as int].ptr == self@);
        }
        Object { ptr: self.ptr, _p: PhantomData }
    }

    /// Releases this handle's reference. The last reference tears the object
    /// down: the state is dropped first, then the composite's block goes back to
    /// the allocator. The result says whether that happened.
    pub fn free(self, store: &mut ObjectStore<T>) -> (destroyed: bool)
        requires
            old(store)@.wf(),
            old(store)@.contains(self@),
        ensures
            destroyed == (old(store)@.object(self@).refcount == 1),
            final(store)@ =~= old(store)@.after_free(self@),
            final(store)@.wf(),
    {
        let i: usize = store.find(self.ptr).unwrap();
        proof {
            store@.lemma_index_unique(i as int);
        }
        let (count, last): (u32, bool) = released(store.objects[i].refcount);
        if last {
            let gone: ExtendObject<T> = store.objects.remove(i);
            let _header: (u32, ClassEntry) = ExtendObject::drop_state(gone);
            let this: usize = ExtendObject::<T>::fetch_ptr(self.ptr);
            proof {
                assert(old(store)@.heap.blocks[i as int].addr == this);
            }
            let given_back: bool = store.heap.raw_free(this);
            store.teardowns = store.teardowns + 1;
            proof {
                lemma_last_release(old(store)@, self@);
                assert(store@.objects =~= old(store)@.after_free(self@).objects);
                assert(store@ == old(store)@.after_free(self@));
            }
            true
        } else {
            store.objects[i].refcount = count;
            proof {
                assert(store@.objects =~= old(store)@.after_free(self@).objects);
            }
            false
        }
    }

    /// A deep clone: a new composite in a block of its own, with a clone of the
    /// state and one reference. The object that was cloned is left as it was.
    pub fn clone_obj(&self, store: &mut ObjectStore<T>) -> (made: Result<
        Object<T>,
        ConstructionError,
    >) where T: Clone
        requires
            old(store)@.wf(),
            old(store)@.contains(self@),
        ensures
            final(store)@.wf(),
            final(store)@.contains(self@),
            made.is_ok() ==> final(store)@.contains(made.unwrap()@),
            old(store)@.can_init(old(store)@.object(self@).class) ==> {
                &&& made.is_ok()
                &&& made.unwrap()@ == old(store)@.heap.next + state_slot_size()
                &&& cloned(
                    old(store)@.object(self@).state,
                    final(store)@.objects.last().state,
                )
                &&& final(store)@ == old(store)@.after_init(
                    old(store)@.object(self@).class,
                    final(store)@.objects.last().state,
                )
            },
            !old(store)@.can_init(old(store)@.object(self@).class) ==> made == Err::<
                Object<T>,
                ConstructionError,
            >(ConstructionError::AllocationFailure) && final(store)@ == old(store)@,
    {
        let i: usize = store.find(self.ptr).unwrap();
        let class: ClassEntry = store.objects[i].class;
        let state: T = store.objects[i].state.clone();
        let made = store.init_object(&class, state);
        proof {
            if made.is_ok() {
                assert(store@.objects[i as int] == old(store)@.objects[i as int]);
            }
            store@.lemma_index_unique(i as int);
        }
        made
    }

    /// Runs the class's constructor, if it declares one, on the object's state:
    /// once, with the arguments as they came. `Ok(false)` says that the class
    /// has none; then nothing has changed. Otherwise the result is the
    /// constructor's own outcome, and the state is as the constructor left it.
    pub fn call_construct<F: Fn(&mut T, &Vec<i64>) -> Result<(), RuntimeError>>(
        &mut self,
        store: &mut ObjectStore<T>,
        constructor: &F,
        arguments: &Vec<i64>,
    ) -> (ran: Result<bool, RuntimeError>)
        requires
            old(store)@.wf(),
            old(store)@.contains(old(self)@),
            old(store)@.object(old(self)@).class.has_constructor ==> forall|s: &mut T|
                *s == old(store)@.object(old(self)@).state ==> #[trigger] call_requires(
                    *constructor,
                    (s, arguments),
                ),
        ensures
            old(store)@.object(old(self)@).class.has_constructor ==> exists|
                s: &mut T,
                outcome: Result<(), RuntimeError>,
            |
                {
                    &&& *s == old(store)@.object(old(self)@).state
                    &&& #[trigger] call_ensures(*constructor, (s, arguments), outcome)
                    &&& outcome.is_ok() ==> ran == Ok::<bool, RuntimeError>(true)
                    &&& outcome.is_err() ==> ran == Err::<bool, RuntimeError>(
                        outcome.unwrap_err(),
                    )
                    &&& final(store)@ == old(store)@.with_state(old(self)@, *final(s))
                },
            *final(self) == *old(self),
            final(store)@.wf(),
            final(store)@ == old(store)@.with_state(
                old(self)@,
                final(store)@.object(old(self)@).state,
            ),
            !old(store)@.object(old(self)@).class.has_constructor ==> ran == Ok::<
                bool,
                RuntimeError,
            >(false) && final(store)@ == old(store)@,
            old(store)@.object(old(self)@).class.has_constructor ==> ran != Ok::<
                bool,
                RuntimeError,
            >(false),
    {
        let i: usize = store.find(self.ptr).unwrap();
        proof {
            store@.lemma_index_unique(i as int);
            assert(store@.objects =~= store@.with_state(
                self@,
                store@.object(self@).state,
            ).objects);
        }
        if !store.objects[i].class.has_constructor {
            return Ok(false);
        }
        let outcome = constructor(&mut store.objects[i].state, arguments);
        proof {
            let written = store.objects@[i as int].state;
            assert(store@.objects =~= old(store)@.with_state(self@, written).objects);
            assert(store@.wf());
            store@.lemma_index_unique(i as int);
        }
        constructed(outcome)
    }

    /// What becomes of an object that was just laid out, once its constructor's
    /// outcome is known. After a failure the object goes the way of every
    /// release: this handle's reference is given up, and if it was the last, the
    /// object is torn down.
    pub fn conclude(self, store: &mut ObjectStore<T>, outcome: Result<bool, RuntimeError>) -> (made:
        Result<Object<T>, ConstructionError>)
        requires
            old(store)@.wf(),
            old(store)@.contains(self@),
        ensures
            final(store)@.wf(),
            outcome.is_ok() ==> made == Ok::<Object<T>, ConstructionError>(self) && final(store)@
                == old(store)@,
            outcome.is_err() ==> made == Err::<Object<T>, ConstructionError>(
                ConstructionError::ConstructorFailure(outcome.unwrap_err()),
            ) && final(store)@ == old(store)@.after_free(self@),
    {
        match outcome {
            Ok(_) => Ok(self),
            Err(e) => {
                self.free(store);
                Err(ConstructionError::ConstructorFailure(e))
            },
        }
    }

    /// Builds an object of `class_entry` with the state `state`: lays out the
    /// composite, then runs the class's constructor, if it declares one. A
    /// constructor that fails leaves no object behind: the composite that was
    /// laid out for it is torn down, once, and its block given back.
    pub fn new<F: Fn(&mut T, &Vec<i64>) -> Result<(), RuntimeError>>(
        store: &mut ObjectStore<T>,
        class_entry: &ClassEntry,
        state: T,
        constructor: &F,
        arguments: &Vec<i64>,
    ) -> (made: Result<Object<T>, ConstructionError>)
        requires
            old(store)@.wf(),
            class_entry.has_constructor ==> forall|s: &mut T|
                *s == state ==> #[trigger] call_requires(*constructor, (s, arguments)),
        ensures
            old(store)@.can_init(*class_entry) && class_entry.has_constructor ==> exists|
                s: &mut T,
                outcome: Result<(), RuntimeError>,
            |
                {
                    &&& *s == state
                    &&& #[trigger] call_ensures(*constructor, (s, arguments), outcome)
                    &&& outcome.is_ok() ==> made.is_ok() && final(store)@ == old(
                        store,
                    )@.after_init(*class_entry, *final(s))
                    &&& outcome.is_err() ==> made == Err::<Object<T>, ConstructionError>(
                        ConstructionError::ConstructorFailure(outcome.unwrap_err()),
                    ) && final(store)@ == old(store)@.after_init(
                        *class_entry,
                        *final(s),
                    ).after_free((old(store)@.heap.next + state_slot_size()) as usize)
                },
            final(store)@.wf(),
            !old(store)@.can_init(*class_entry) ==> made == Err::<Object<T>, ConstructionError>(
                ConstructionError::AllocationFailure,
            ) && final(store)@ == old(store)@,
            old(store)@.can_init(*class_entry) && !class_entry.has_constructor ==> made.is_ok()
                && final(store)@ == old(store)@.after_init(*class_entry, state),
            old(store)@.can_init(*class_entry) ==> made != Err::<Object<T>, ConstructionError>(
                ConstructionError::AllocationFailure,
            ),
            made.is_ok() ==> final(store)@.contains(made.unwrap()@),
            made.is_ok() ==> made.unwrap()@ == old(store)@.heap.next + state_slot_size()
                && final(store)@ == old(store)@.after_init(
                *class_entry,
                final(store)@.objects.last().state,
            ),
            made.is_err() && old(store)@.can_init(*class_entry) ==> exists|s: T|
                final(store)@ == (#[trigger] old(store)@.after_init(*class_entry, s)).after_free(
                    (old(store)@.heap.next + state_slot_size()) as usize,
                ),
    {
        match store.init_object(class_entry, state) {
            Err(e) => Err(e),
            Ok(object) => {
                let mut object = object;
                let ghost laid = store@;
                proof {
                    laid.lemma_index_unique(laid.objects.len() - 1);
                }
                let outcome = object.call_construct(store, constructor, arguments);
                let ghost built = store@;
                proof {
                    assert(built.objects =~= old(store)@.after_init(
                        *class_entry,
                        built.object(object@).state,
                    ).objects);
                    built.lemma_index_unique(built.objects.len() - 1);
                    if class_entry.has_constructor {
                        let (s, out) = choose|s: &mut T, out: Result<(), RuntimeError>|
                            {
                                &&& *s == laid.object(object@).state
                                &&& #[trigger] call_ensures(*constructor, (s, arguments), out)
                                &&& out.is_ok() ==> outcome == Ok::<bool, RuntimeError>(true)
                                &&& out.is_err() ==> outcome == Err::<bool, RuntimeError>(
                                    out.unwrap_err(),
                                )
                                &&& built == laid.with_state(object@, *final(s))
                            };
                        assert(built.objects =~= old(store)@.after_init(
                            *class_entry,
                            *final(s),
                        ).objects);
                    }
                }
                object.conclude(store, outcome)
            },
        }
    }
}

/// The runtime's plain class, as contracts see it.
pub open spec fn std_class_entry() -> ClassEntry {
    ClassEntry {
        id: 0,
        header_size: (7 * vstd::layout::size_of::<usize>()) as usize,
        has_constructor: false,
    }
}

/// An object of a class that keeps no state.
pub type StatelessObject = Object<()>;

impl ClassEntry {
    /// The runtime's plain class: no state of its own, no constructor, and a
    /// header of seven words.
    pub fn std_class() -> (class: ClassEntry)
        ensures
            class == std_class_entry(),
    {
        ClassEntry { id: 0, header_size: 7 * core::mem::size_of::<usize>(), has_constructor: false }
    }
}

impl Object<()> {
    /// An object of the runtime's plain class.
    pub fn new_by_std_class(store: &mut ObjectStore<()>) -> (made: Result<
        Object<()>,
        ConstructionError,
    >)
        requires
            old(store)@.wf(),
        ensures
            final(store)@.wf(),
            old(store)@.can_init(std_class_entry()) ==> made.is_ok() && made.unwrap()@ == old(
                store,
            )@.heap.next + state_slot_size() && final(store)@ == old(store)@.after_init(
                std_class_entry(),
                (),
            ),
            !old(store)@.can_init(std_class_entry()) ==> made == Err::<
                Object<()>,
                ConstructionError,
            >(ConstructionError::AllocationFailure) && final(store)@ == old(store)@,
    {
        let class: ClassEntry = ClassEntry::std_class();
        store.init_object(&class, ())
    }
}

} // verus!
