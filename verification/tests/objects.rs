use phper::memory::ARENA_BASE;
use phper::objects::{
    constructed, released, retained, ClassEntry, ConstructionError, ExtendObject, Object,
    ObjectStore, RuntimeError, StatelessObject,
};
use std::cell::Cell;
use std::rc::Rc;

#[derive(Clone)]
struct Counter {
    value: i64,
    drops: Rc<Cell<usize>>,
}

impl Drop for Counter {
    fn drop(&mut self) {
        self.drops.set(self.drops.get() + 1);
    }
}

fn succeeds(_state: &mut Counter, _arguments: &Vec<i64>) -> Result<(), RuntimeError> {
    Ok(())
}

fn fails(_state: &mut Counter, _arguments: &Vec<i64>) -> Result<(), RuntimeError> {
    Err(RuntimeError { code: 7 })
}

fn adds_arguments(state: &mut Counter, arguments: &Vec<i64>) -> Result<(), RuntimeError> {
    for a in arguments {
        state.value += *a;
    }
    Ok(())
}

const WORD: usize = std::mem::size_of::<usize>();

fn counter_class(has_constructor: bool) -> ClassEntry {
    ClassEntry { id: 1, header_size: 56, has_constructor }
}

fn counter(value: i64, drops: &Rc<Cell<usize>>) -> Counter {
    Counter { value, drops: drops.clone() }
}

#[test]
fn offset_is_two_words_for_every_state() {
    assert_eq!(ExtendObject::<Counter>::offset(), 2 * WORD);
    assert_eq!(ExtendObject::<()>::offset(), 2 * WORD);
    assert_eq!(ExtendObject::<[u8; 100]>::offset(), 2 * WORD);
}

#[test]
fn constructor_outcome_becomes_the_result() {
    assert_eq!(constructed(Ok(())), Ok(true));
    assert_eq!(constructed(Err(RuntimeError { code: 3 })), Err(RuntimeError { code: 3 }));
    assert_eq!(constructed(Err(RuntimeError { code: -1 })), Err(RuntimeError { code: -1 }));
}

#[test]
fn reference_count_steps() {
    assert_eq!(retained(1), 2);
    assert_eq!(retained(u32::MAX - 1), u32::MAX);
    assert_eq!(released(1), (0, true));
    assert_eq!(released(2), (1, false));
    assert_eq!(released(u32::MAX), (u32::MAX - 1, false));
}

#[test]
fn fetch_ptr_and_as_mut_object_are_inverse() {
    let object = ExtendObject::<Counter>::as_mut_object(4096);
    assert_eq!(object, 4096 + 2 * WORD);
    assert_eq!(ExtendObject::<Counter>::fetch_ptr(object), 4096);
}

#[test]
fn header_stands_one_slot_behind_the_block() {
    let drops = Rc::new(Cell::new(0));
    let mut store: ObjectStore<Counter> = ObjectStore::new(4096);
    let class = counter_class(false);
    let first = Object::new(&mut store, &class, counter(0, &drops), &succeeds, &vec![]).unwrap();
    assert_eq!(first.as_ptr(), ARENA_BASE + 2 * WORD);
    assert_eq!(ExtendObject::<Counter>::fetch_ptr(first.as_ptr()), ARENA_BASE);
    assert!(store.heap().is_live(ARENA_BASE));
    assert_eq!(store.heap().block_size(ARENA_BASE), Some(2 * WORD + 56));
    let second = Object::new(&mut store, &class, counter(0, &drops), &succeeds, &vec![]).unwrap();
    let second_block = ARENA_BASE + 2 * WORD + 56;
    assert_eq!(second.as_ptr(), second_block + 2 * WORD);
    assert_eq!(ExtendObject::<Counter>::fetch_ptr(second.as_ptr()), second_block);
    assert!(store.heap().is_live(second_block));
    assert!(first.free(&mut store));
    assert!(second.free(&mut store));
}

#[test]
fn deep_clone_scenario() {
    let drops = Rc::new(Cell::new(0));
    let mut store: ObjectStore<Counter> = ObjectStore::new(4096);
    let class = counter_class(false);
    let mut original =
        Object::new(&mut store, &class, counter(0, &drops), &succeeds, &vec![]).unwrap();
    original.as_mut_state(&mut store).value = 5;
    assert_eq!(drops.get(), 0);
    let mut clone = original.clone_obj(&mut store).unwrap();
    assert_ne!(clone.as_ptr(), original.as_ptr());
    clone.as_mut_state(&mut store).value += 1;
    assert_eq!(original.as_state(&store).value, 5);
    assert_eq!(clone.as_state(&store).value, 6);
    assert_eq!(store.refcount(original.as_ptr()), Some(1));
    assert_eq!(store.refcount(clone.as_ptr()), Some(1));
    assert!(original.free(&mut store));
    assert!(clone.free(&mut store));
    assert_eq!(store.heap().allocations(), 2);
    assert_eq!(store.heap().releases(), 2);
    assert_eq!(store.heap().live_blocks(), 0);
    assert_eq!(store.live_objects(), 0);
    assert_eq!(store.teardowns(), 2);
    assert_eq!(drops.get(), 2);
}

#[test]
fn failing_constructor_scenario() {
    let drops = Rc::new(Cell::new(0));
    let mut store: ObjectStore<Counter> = ObjectStore::new(4096);
    let class = counter_class(true);
    let made = Object::new(&mut store, &class, counter(0, &drops), &fails, &vec![]);
    match made {
        Err(e) => assert_eq!(e, ConstructionError::ConstructorFailure(RuntimeError { code: 7 })),
        Ok(_) => panic!("the constructor failed"),
    }
    assert_eq!(store.heap().allocations(), 1);
    assert_eq!(store.heap().releases(), 1);
    assert_eq!(store.heap().live_blocks(), 0);
    assert_eq!(store.live_objects(), 0);
    assert_eq!(store.teardowns(), 1);
    assert_eq!(drops.get(), 1);
    assert!(!store.contains(ARENA_BASE + 2 * WORD));
}

#[test]
fn class_without_constructor_runs_no_hook() {
    let drops = Rc::new(Cell::new(0));
    let mut store: ObjectStore<Counter> = ObjectStore::new(4096);
    let class = counter_class(false);
    let object = Object::new(&mut store, &class, counter(3, &drops), &fails, &vec![]).unwrap();
    assert_eq!(object.as_state(&store).value, 3);
    assert_eq!(store.teardowns(), 0);
    assert!(object.free(&mut store));
    assert_eq!(drops.get(), 1);
}

#[test]
fn constructor_works_on_the_state() {
    let drops = Rc::new(Cell::new(0));
    let mut store: ObjectStore<Counter> = ObjectStore::new(4096);
    let class = counter_class(true);
    let object =
        Object::new(&mut store, &class, counter(1, &drops), &adds_arguments, &vec![10, 20]).unwrap();
    assert_eq!(object.as_state(&store).value, 31);
    assert_eq!(*object.get_class(&store), class);
    assert!(object.free(&mut store));
}

#[test]
fn call_construct_says_whether_a_constructor_ran() {
    let drops = Rc::new(Cell::new(0));
    let mut store: ObjectStore<Counter> = ObjectStore::new(4096);
    let mut plain = store.init_object(&counter_class(false), counter(0, &drops)).unwrap();
    assert_eq!(plain.call_construct(&mut store, &fails, &vec![]), Ok(false));
    let mut built = store.init_object(&counter_class(true), counter(0, &drops)).unwrap();
    assert_eq!(built.call_construct(&mut store, &adds_arguments, &vec![4]), Ok(true));
    assert_eq!(built.as_state(&store).value, 4);
    assert_eq!(
        built.call_construct(&mut store, &fails, &vec![]),
        Err(RuntimeError { code: 7 })
    );
    let kept = built.conclude(&mut store, Ok(true));
    assert!(kept.is_ok());
    assert_eq!(store.live_objects(), 2);
    let lost = kept.unwrap().conclude(&mut store, Err(RuntimeError { code: 9 }));
    match lost {
        Err(e) => assert_eq!(e, ConstructionError::ConstructorFailure(RuntimeError { code: 9 })),
        Ok(_) => panic!("the outcome was a failure"),
    }
    assert_eq!(store.live_objects(), 1);
    assert_eq!(store.teardowns(), 1);
    assert!(plain.free(&mut store));
    assert_eq!(drops.get(), 2);
}

#[test]
fn allocation_failure_leaves_the_store_unchanged() {
    let drops = Rc::new(Cell::new(0));
    let mut store: ObjectStore<Counter> = ObjectStore::new(2 * WORD + 55);
    let class = counter_class(true);
    let made = Object::new(&mut store, &class, counter(0, &drops), &succeeds, &vec![]);
    match made {
        Err(e) => assert_eq!(e, ConstructionError::AllocationFailure),
        Ok(_) => panic!("the arena is one byte short"),
    }
    assert_eq!(store.heap().allocations(), 0);
    assert_eq!(store.heap().releases(), 0);
    assert_eq!(store.teardowns(), 0);
    assert_eq!(store.live_objects(), 0);
    assert_eq!(drops.get(), 1);
}

#[test]
fn arena_that_just_fits_one_object() {
    let drops = Rc::new(Cell::new(0));
    let mut store: ObjectStore<Counter> = ObjectStore::new(2 * WORD + 56);
    let class = counter_class(false);
    let object = Object::new(&mut store, &class, counter(0, &drops), &succeeds, &vec![]).unwrap();
    let clone = object.clone_obj(&mut store);
    match clone {
        Err(e) => assert_eq!(e, ConstructionError::AllocationFailure),
        Ok(_) => panic!("the arena is full"),
    }
    assert_eq!(store.live_objects(), 1);
    assert_eq!(object.as_state(&store).value, 0);
    assert!(object.free(&mut store));
}

#[test]
fn huge_header_is_an_allocation_failure() {
    let drops = Rc::new(Cell::new(0));
    let mut store: ObjectStore<Counter> = ObjectStore::new(usize::MAX);
    let class = ClassEntry { id: 2, header_size: usize::MAX, has_constructor: false };
    let made = store.init_object(&class, counter(0, &drops));
    assert!(matches!(made, Err(ConstructionError::AllocationFailure)));
    assert_eq!(store.heap().allocations(), 0);
}

#[test]
fn duplicate_aliases_the_same_object() {
    let drops = Rc::new(Cell::new(0));
    let mut store: ObjectStore<Counter> = ObjectStore::new(4096);
    let class = counter_class(false);
    let mut first = Object::new(&mut store, &class, counter(1, &drops), &succeeds, &vec![]).unwrap();
    let mut second = first.duplicate(&mut store);
    assert_eq!(second.as_ptr(), first.as_ptr());
    assert_eq!(second.as_mut_ptr(), first.as_mut_ptr());
    assert_eq!(store.refcount(first.as_ptr()), Some(2));
    assert_eq!(store.heap().allocations(), 1);
    assert_eq!(first.as_state(&store).value, 1);
    assert_eq!(second.as_state(&store).value, 1);
    first.as_mut_state(&mut store).value = 42;
    assert_eq!(second.as_state(&store).value, 42);
    second.as_mut_state(&mut store).value = 43;
    assert_eq!(first.as_state(&store).value, 43);
    let ptr = second.as_ptr();
    assert!(!first.free(&mut store));
    assert_eq!(drops.get(), 0);
    assert_eq!(store.teardowns(), 0);
    assert!(store.contains(ptr));
    assert_eq!(store.refcount(ptr), Some(1));
    assert_eq!(second.as_state(&store).value, 43);
    assert!(second.free(&mut store));
    assert_eq!(drops.get(), 1);
    assert_eq!(store.teardowns(), 1);
    assert!(!store.contains(ptr));
    assert_eq!(store.refcount(ptr), None);
    assert_eq!(store.heap().allocations(), 1);
    assert_eq!(store.heap().releases(), 1);
}

#[test]
fn release_in_the_middle_keeps_the_others() {
    let drops = Rc::new(Cell::new(0));
    let mut store: ObjectStore<Counter> = ObjectStore::new(4096);
    let class = counter_class(false);
    let a = Object::new(&mut store, &class, counter(1, &drops), &succeeds, &vec![]).unwrap();
    let b = Object::new(&mut store, &class, counter(2, &drops), &succeeds, &vec![]).unwrap();
    let c = Object::new(&mut store, &class, counter(3, &drops), &succeeds, &vec![]).unwrap();
    assert!(b.free(&mut store));
    assert_eq!(a.as_state(&store).value, 1);
    assert_eq!(c.as_state(&store).value, 3);
    assert_eq!(store.live_objects(), 2);
    assert_eq!(store.heap().live_blocks(), 2);
    let d = Object::new(&mut store, &class, counter(4, &drops), &succeeds, &vec![]).unwrap();
    assert_ne!(d.as_ptr(), a.as_ptr());
    assert_ne!(d.as_ptr(), c.as_ptr());
    assert_eq!(d.as_state(&store).value, 4);
    assert_eq!(c.as_state(&store).value, 3);
    assert!(a.free(&mut store));
    assert!(c.free(&mut store));
    assert!(d.free(&mut store));
    assert_eq!(store.heap().allocations(), 4);
    assert_eq!(store.heap().releases(), 4);
    assert_eq!(store.teardowns(), 4);
    assert_eq!(drops.get(), 4);
}

#[test]
fn handle_from_an_address() {
    let drops = Rc::new(Cell::new(0));
    let mut store: ObjectStore<Counter> = ObjectStore::new(4096);
    let class = counter_class(false);
    let object = Object::new(&mut store, &class, counter(9, &drops), &succeeds, &vec![]).unwrap();
    let same: Object<Counter> = Object::from_mut_ptr(object.as_ptr());
    assert_eq!(same.as_ptr(), object.as_ptr());
    assert_eq!(same.as_state(&store).value, 9);
    assert!(!store.contains(0));
    assert!(!store.contains(object.as_ptr() + 1));
    assert!(object.free(&mut store));
    assert!(!store.contains(same.as_ptr()));
}

#[test]
fn plain_class_object() {
    let mut store: ObjectStore<()> = ObjectStore::new(4096);
    let object: StatelessObject = Object::new_by_std_class(&mut store).unwrap();
    let class = ClassEntry::std_class();
    assert_eq!(class, ClassEntry { id: 0, header_size: 7 * WORD, has_constructor: false });
    assert_eq!(*object.get_class(&store), class);
    assert_eq!(object.as_ptr(), ARENA_BASE + 2 * WORD);
    assert_eq!(store.heap().block_size(ARENA_BASE), Some(9 * WORD));
    assert_eq!(*object.as_state(&store), ());
    assert!(object.free(&mut store));
    assert_eq!(store.heap().releases(), 1);
}
