//! The runtime's allocator as an instrumented arena, and the box that lives in it.

use vstd::prelude::*;

verus! {

/// The first address that an arena hands out. Address zero is the null address.
pub const ARENA_BASE: usize = 16;

/// One live byte range of the arena.
#[derive(Clone, Copy, Debug, PartialEq, Eq, Structural)]
pub struct Block {
    pub addr: usize,
    pub size: usize,
}

/// What an allocator is, mathematically: its live blocks in the order in which
/// they were handed out, the next free address, the end of the arena, and the
/// number of successful allocations and releases so far.
pub struct AllocatorView {
    pub blocks: Seq<Block>,
    pub next: usize,
    pub limit: usize,
    pub allocations: nat,
    pub releases: nat,
}

/// The bytes that a request of `size` bytes takes from the arena: a request for
/// nothing still gets an address of its own.
pub open spec fn reserved(size: usize) -> usize {
    if size == 0 {
        1
    } else {
        size
    }
}

impl AllocatorView {
    /// The empty arena that ends `capacity` bytes after its base, or at the
    /// last address if that comes first.
    pub open spec fn empty(capacity: usize) -> AllocatorView {
        AllocatorView {
            blocks: Seq::empty(),
            next: ARENA_BASE,
            limit: if capacity > usize::MAX - ARENA_BASE {
                usize::MAX
            } else {
                (ARENA_BASE + capacity) as usize
            },
            allocations: 0,
            releases: 0,
        }
    }

    pub open spec fn is_live(self, addr: usize) -> bool {
        exists|i: int| 0 <= i < self.blocks.len() && #[trigger] self.blocks[i].addr == addr
    }

    /// The position of the live block that starts at `addr`.
    pub open spec fn index_of(self, addr: usize) -> int {
        choose|i: int| 0 <= i < self.blocks.len() && #[trigger] self.blocks[i].addr == addr
    }

    pub open spec fn fits(self, size: usize) -> bool {
        reserved(size) <= self.limit - self.next
    }

    pub open spec fn wf(self) -> bool {
        &&& ARENA_BASE <= self.next <= self.limit
        &&& forall|i: int|
            0 <= i < self.blocks.len() ==> ARENA_BASE <= (#[trigger] self.blocks[i]).addr
                < self.next
        &&& forall|i: int, j: int|
            0 <= i < j < self.blocks.len() ==> (#[trigger] self.blocks[i]).addr != (
            #[trigger] self.blocks[j]).addr
        &&& self.allocations == self.releases + self.blocks.len()
        &&& self.allocations <= self.next - ARENA_BASE
    }

    /// The arena after a request of `size` bytes that fits.
    pub open spec fn after_alloc(self, size: usize) -> AllocatorView {
        AllocatorView {
            blocks: self.blocks.push(Block { addr: self.next, size }),
            next: (self.next + reserved(size)) as usize,
            allocations: self.allocations + 1,
            ..self
        }
    }

    /// The arena after the live block at `addr` was given back.
    pub open spec fn after_free(self, addr: usize) -> AllocatorView {
        AllocatorView {
            blocks: self.blocks.remove(self.index_of(addr)),
            releases: self.releases + 1,
            ..self
        }
    }

    /// In a well-formed arena a block is found at one position only.
    pub proof fn lemma_index_unique(self, i: int)
        requires
            self.wf(),
            0 <= i < self.blocks.len(),
        ensures
            self.is_live(self.blocks[i].addr),
            self.index_of(self.blocks[i].addr) == i,
    {
        let addr = self.blocks[i].addr;
        let j = self.index_of(addr);
        assert(0 <= j < self.blocks.len() && self.blocks[j].addr == addr);
        if j < i {
            assert(self.blocks[j].addr != self.blocks[i].addr);
        } else if i < j {
            assert(self.blocks[i].addr != self.blocks[j].addr);
        }
    }
}

/// The runtime's allocator: a bump arena that records every range it hands out
/// and counts what it is asked to do.
pub struct Allocator {
    blocks: Vec<Block>,
    next: usize,
    limit: usize,
    allocations: usize,
    releases: usize,
}

impl View for Allocator {
    type V = AllocatorView;

    closed spec fn view(&self) -> AllocatorView {
        AllocatorView {
            blocks: self.blocks@,
            next: self.next,
            limit: self.limit,
            allocations: self.allocations as nat,
            releases: self.releases as nat,
        }
    }
}

impl Allocator {
    /// An empty arena of `capacity` bytes.
    pub fn new(capacity: usize) -> (a: Allocator)
        ensures
            a@ == AllocatorView::empty(capacity),
            a@.wf(),
    {
        let limit: usize = if capacity > usize::MAX - ARENA_BASE {
            usize::MAX
        } else {
            ARENA_BASE + capacity
        };
        Allocator { blocks: Vec::new(), next: ARENA_BASE, limit, allocations: 0, releases: 0 }
    }

    /// Hands out `size` bytes. The result is the new block's address, or zero,
    /// the null address, when the arena has no room left.
    pub fn raw_alloc(&mut self, size: usize) -> (addr: usize)
        requires
            old(self)@.wf(),
        ensures
            final(self)@.wf(),
            old(self)@.fits(size) ==> addr == old(self)@.next && final(self)@ == old(self)@.after_alloc(
                size,
            ),
            !old(self)@.fits(size) ==> addr == 0 && final(self)@ == old(self)@,
    {
        let need: usize = if size == 0 {
            1
        } else {
            size
        };
        if need > self.limit - self.next {
            return 0;
        }
        let addr: usize = self.next;
        self.blocks.push(Block { addr, size });
        self.next = self.next + need;
        self.allocations = self.allocations + 1;
        proof {
            assert(final(self)@.blocks =~= old(self)@.after_alloc(size).blocks);
        }
        addr
    }

    /// The position of the live block that starts at `addr`, if there is one.
    pub fn find(&self, addr: usize) -> (found: Option<usize>)
        requires
            self@.wf(),
        ensures
            found.is_some() == self@.is_live(addr),
            found.is_some() ==> found.unwrap() == self@.index_of(addr),
    {
        let mut i: usize = 0;
        while i < self.blocks.len()
            invariant
                i <= self.blocks.len(),
                self@.wf(),
                forall|k: int| 0 <= k < i ==> (#[trigger] self.blocks@[k]).addr != addr,
            decreases self.blocks.len() - i,
        {
            if self.blocks[i].addr == addr {
                proof {
                    self@.lemma_index_unique(i as int);
                }
                return Some(i);
            }
            i = i + 1;
        }
        None
    }

    /// Takes back the block that starts at `addr`. An address that is not live
    /// (never handed out, or given back before) changes nothing and gives `false`.
    pub fn raw_free(&mut self, addr: usize) -> (released: bool)
        requires
            old(self)@.wf(),
        ensures
            final(self)@.wf(),
            released == old(self)@.is_live(addr),
            released ==> final(self)@ == old(self)@.after_free(addr),
            !released ==> final(self)@ == old(self)@,
    {
        match self.find(addr) {
            Some(i) => {
                self.blocks.remove(i);
                self.releases = self.releases + 1;
                proof {
                    assert(final(self)@.blocks =~= old(self)@.after_free(addr).blocks);
                }
                true
            },
            None => false,
        }
    }

    pub fn is_live(&self, addr: usize) -> (live: bool)
        requires
            self@.wf(),
        ensures
            live == self@.is_live(addr),
    {
        self.find(addr).is_some()
    }

    /// The size that the live block at `addr` was asked for.
    pub fn block_size(&self, addr: usize) -> (size: Option<usize>)
        requires
            self@.wf(),
        ensures
            size.is_some() == self@.is_live(addr),
            size.is_some() ==> size.unwrap() == self@.blocks[self@.index_of(addr)].size,
    {
        match self.find(addr) {
            Some(i) => Some(self.blocks[i].size),
            None => None,
        }
    }

    pub fn allocations(&self) -> (n: usize)
        ensures
            n == self@.allocations,
    {
        self.allocations
    }

    pub fn releases(&self) -> (n: usize)
        ensures
            n == self@.releases,
    {
        self.releases
    }

    pub fn live_blocks(&self) -> (n: usize)
        ensures
            n == self@.blocks.len(),
    {
        self.blocks.len()
    }
}

/// A box whose memory comes from the runtime's allocator. It owns one value and
/// the block at its address; it is given up by [`EBox::free`], which ends the
/// value and returns the block, or by [`EBox::into_raw`], which does neither.
pub struct EBox<T> {
    ptr: usize,
    value: T,
}

impl<T> EBox<T> {
    /// The address of the box's block.
    pub closed spec fn addr(&self) -> usize {
        self.ptr
    }

    /// The value in the box.
    pub closed spec fn value(&self) -> T {
        self.value
    }

    /// A box never stands at the null address.
    pub open spec fn wf(&self) -> bool {
        self.addr() != 0
    }

    /// Asks the allocator for a block of the size of a `T` and puts `x` in it.
    /// There is no box when the allocator has no room; `x` ends there.
    pub fn new(heap: &mut Allocator, x: T) -> (made: Option<EBox<T>>)
        requires
            old(heap)@.wf(),
        ensures
            final(heap)@.wf(),
            made.is_some() == old(heap)@.fits(vstd::layout::size_of::<T>() as usize),
            made.is_some() ==> {
                &&& made.unwrap().addr() == old(heap)@.next
                &&& made.unwrap().wf()
                &&& made.unwrap().value() == x
                &&& final(heap)@ == old(heap)@.after_alloc(vstd::layout::size_of::<T>() as usize)
            },
            made.is_none() ==> final(heap)@ == old(heap)@,
    {
        let ptr: usize = heap.raw_alloc(core::mem::size_of::<T>());
        if ptr == 0 {
            None
        } else {
            Some(EBox { ptr, value: x })
        }
    }

    /// Gives the box up without ending the value or returning the block: the
    /// address and the value go to a new owner.
    pub fn into_raw(b: EBox<T>) -> (raw: (usize, T))
        ensures
            raw.0 == b.addr(),
            raw.1 == b.value(),
    {
        (b.ptr, b.value)
    }

    /// A box around a block at `ptr`, which is not the null address, and the
    /// value that lives there.
    pub fn from_raw(ptr: usize, value: T) -> (b: EBox<T>)
        requires
            ptr != 0,
        ensures
            b.wf(),
            b.addr() == ptr,
            b.value() == value,
    {
        EBox { ptr, value }
    }

    pub fn deref(&self) -> (value: &T)
        ensures
            *value == self.value(),
    {
        &self.value
    }

    pub fn deref_mut(&mut self) -> (value: &mut T)
        ensures
            *value == old(self).value(),
            final(self).value() == *final(value),
            final(self).addr() == old(self).addr(),
    {
        &mut self.value
    }

    /// Ends the value, then returns the block to the allocator. The result says
    /// whether the allocator knew the block as live.
    pub fn free(self, heap: &mut Allocator) -> (released: bool)
        requires
            old(heap)@.wf(),
        ensures
            final(heap)@.wf(),
            released == old(heap)@.is_live(self.addr()),
            released ==> final(heap)@ == old(heap)@.after_free(self.addr()),
            !released ==> final(heap)@ == old(heap)@,
    {
        let EBox { ptr, value } = self;
        {
            let _ended: T = value;
        }
        heap.raw_free(ptr)
    }
}

} // verus!
