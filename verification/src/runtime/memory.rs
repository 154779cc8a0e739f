//! The heap of an execution: a bump allocator with reference counts.
//!
//! Addresses start at `0x1000`, grow by the size of each allocation and are
//! never handed out again. Freeing an object leaves a tombstone behind;
//! only a sweep removes tombstones.

use crate::runtime::error::{RuntimeError, RuntimeErrorView};
use crate::runtime::keys::keys_of;
use crate::runtime::text::{hex_text, hexadecimal};
use crate::runtime::value::{Value, ValueView};
use std::collections::HashMap;
use vstd::prelude::*;
use vstd::string::StringExecFns;

verus! {

broadcast use vstd::std_specs::hash::group_hash_axioms;

/// The first address that a heap hands out.
pub const FIRST_ADDRESS: u64 = 0x1000;

/// The most bytes that a heap holds at a time, unless it is told otherwise:
/// one gibibyte.
pub const DEFAULT_ALLOCATION_LIMIT: usize = 0x4000_0000;

/// A reference into the heap: the address of an object and an offset into
/// it.
#[derive(Debug, Clone, Copy, PartialEq, Eq, Structural)]
pub struct MemoryReference {
    pub address: u64,
    pub offset: usize,
}

/// What a heap object holds.
pub struct HeapObjectView {
    pub address: u64,
    pub size: usize,
    pub value: ValueView,
    pub ref_count: usize,
    pub is_freed: bool,
}

/// An allocated object: where it lives, how many bytes it counts for, the
/// value it holds, how many references it has, and whether it was freed.
#[derive(Debug)]
pub struct HeapObject {
    pub address: u64,
    pub size: usize,
    pub value: Value,
    pub ref_count: usize,
    pub is_freed: bool,
}

impl View for HeapObject {
    type V = HeapObjectView;

    open spec fn view(&self) -> HeapObjectView {
        HeapObjectView {
            address: self.address,
            size: self.size,
            value: self.value@,
            ref_count: self.ref_count,
            is_freed: self.is_freed,
        }
    }
}

impl DeepView for HeapObject {
    type V = HeapObjectView;

    open spec fn deep_view(&self) -> HeapObjectView {
        self@
    }
}

impl Clone for HeapObject {
    fn clone(&self) -> (copy: HeapObject)
        ensures
            copy@ == self@,
    {
        HeapObject {
            address: self.address,
            size: self.size,
            value: self.value.clone(),
            ref_count: self.ref_count,
            is_freed: self.is_freed,
        }
    }
}

/// Figures on a heap.
#[derive(Debug, Clone, Copy, PartialEq, Eq, Structural)]
pub struct MemoryStats {
    /// The bytes of the objects that were not freed.
    pub total_allocated: usize,
    /// The objects that were not freed.
    pub active_objects: usize,
    /// The tombstones.
    pub freed_objects: usize,
    /// The references to objects that were not freed, all together; the
    /// largest number where the sum is larger.
    pub total_refs: usize,
    /// The objects and the tombstones.
    pub heap_size: usize,
}

/// What a heap holds: its objects by their addresses, the next address, the
/// bytes in use and their limit.
pub struct HeapView {
    pub objects: Map<u64, HeapObjectView>,
    pub next_address: u64,
    pub total_allocated: usize,
    pub allocation_limit: usize,
}

/// The heap that holds nothing: the first address is next, and the limit is
/// the default.
pub open spec fn empty_heap() -> HeapView {
    HeapView {
        objects: Map::empty(),
        next_address: FIRST_ADDRESS,
        total_allocated: 0,
        allocation_limit: DEFAULT_ALLOCATION_LIMIT,
    }
}

/// What a table of objects holds.
pub open spec fn objects_view(table: Map<u64, HeapObject>) -> Map<u64, HeapObjectView> {
    Map::new(|a: u64| table.contains_key(a), |a: u64| table[a]@)
}

/// A figure that is summed over the objects of a heap.
pub enum Figure {
    Bytes,
    Objects,
    References,
}

/// What an object counts for in a figure: nothing where it was freed; else
/// its bytes, one, or its references.
pub open spec fn share(figure: Figure, object: HeapObjectView) -> int {
    if object.is_freed {
        0
    } else {
        match figure {
            Figure::Bytes => object.size as int,
            Figure::Objects => 1,
            Figure::References => object.ref_count as int,
        }
    }
}

/// What the object at `address` counts for in a figure: nothing where there
/// is none.
pub open spec fn share_at(objects: Map<u64, HeapObjectView>, figure: Figure, address: u64) -> int {
    if objects.contains_key(address) {
        share(figure, objects[address])
    } else {
        0
    }
}

/// The number of addresses.
pub open spec fn address_count() -> nat {
    (u64::MAX + 1) as nat
}

/// The sum of a figure over the objects at the addresses below `limit`.
pub open spec fn sum_below(objects: Map<u64, HeapObjectView>, figure: Figure, limit: nat) -> int
    decreases limit,
{
    if limit == 0 {
        0
    } else {
        sum_below(objects, figure, (limit - 1) as nat) + share_at(
            objects,
            figure,
            (limit - 1) as u64,
        )
    }
}

/// The bytes of the objects that were not freed.
pub open spec fn live_bytes(objects: Map<u64, HeapObjectView>) -> int {
    sum_below(objects, Figure::Bytes, address_count())
}

/// The number of objects that were not freed.
pub open spec fn live_count(objects: Map<u64, HeapObjectView>) -> int {
    sum_below(objects, Figure::Objects, address_count())
}

/// The references to objects that were not freed, all together.
pub open spec fn live_refs(objects: Map<u64, HeapObjectView>) -> int {
    sum_below(objects, Figure::References, address_count())
}

/// The objects without the tombstones.
pub open spec fn without_freed(objects: Map<u64, HeapObjectView>) -> Map<u64, HeapObjectView> {
    Map::new(|a: u64| objects.contains_key(a) && !objects[a].is_freed, |a: u64| objects[a])
}

/// The objects without the tombstones at the addresses of `done`.
pub open spec fn swept(objects: Map<u64, HeapObjectView>, done: Set<u64>) -> Map<
    u64,
    HeapObjectView,
> {
    Map::new(
        |a: u64| objects.contains_key(a) && !(done.contains(a) && objects[a].is_freed),
        |a: u64| objects[a],
    )
}

/// The message of an error about the object at `address`: the words, then
/// the address in hexadecimal.
pub open spec fn at_address(words: Seq<char>, address: u64) -> Seq<char> {
    words + hexadecimal(address as nat)
}

/// The error for an address at which the heap holds nothing.
pub open spec fn unknown_address(address: u64) -> RuntimeErrorView {
    RuntimeErrorView::InvalidOperation(at_address("Invalid memory address: 0x"@, address))
}

/// The heap with `object` at `address`, in the place of what was there.
pub open spec fn with_object(h: HeapView, address: u64, object: HeapObjectView) -> HeapView {
    HeapView { objects: h.objects.insert(address, object), ..h }
}

/// What allocating `size` bytes for `value` gives: the heap afterwards and
/// the address, or the error.
///
/// The allocation is refused where the bytes in use and `size` together
/// pass the limit, and where the addresses are used up. The object gets the
/// next address, one reference and is not freed. An object of no bytes
/// leaves the next address where it is, and gives way to the object that is
/// allocated next.
pub open spec fn spec_allocate(h: HeapView, size: usize, value: ValueView) -> (
    HeapView,
    Result<u64, RuntimeErrorView>,
) {
    if h.total_allocated + size > h.allocation_limit {
        (h, Err(RuntimeErrorView::InvalidOperation("Memory allocation limit exceeded"@)))
    } else if h.next_address + size > u64::MAX {
        (h, Err(RuntimeErrorView::InvalidOperation("Memory address space exhausted"@)))
    } else {
        let object = HeapObjectView {
            address: h.next_address,
            size,
            value,
            ref_count: 1,
            is_freed: false,
        };
        (
            HeapView {
                objects: h.objects.insert(h.next_address, object),
                next_address: (h.next_address + size) as u64,
                total_allocated: (h.total_allocated + size) as usize,
                allocation_limit: h.allocation_limit,
            },
            Ok(h.next_address),
        )
    }
}

/// What loading from `address` gives: the value of the object there, or the
/// error for an unknown address or a tombstone.
pub open spec fn spec_load(h: HeapView, address: u64) -> Result<ValueView, RuntimeErrorView> {
    if !h.objects.contains_key(address) {
        Err(unknown_address(address))
    } else if h.objects[address].is_freed {
        Err(RuntimeErrorView::InvalidOperation(at_address("Accessing freed memory at 0x"@, address)))
    } else {
        Ok(h.objects[address].value)
    }
}

/// What storing `value` at `address` gives: the heap with the value of the
/// object there replaced, or the error for an unknown address or a
/// tombstone.
pub open spec fn spec_store(h: HeapView, address: u64, value: ValueView) -> (
    HeapView,
    Result<(), RuntimeErrorView>,
) {
    if !h.objects.contains_key(address) {
        (h, Err(unknown_address(address)))
    } else if h.objects[address].is_freed {
        (
            h,
            Err(
                RuntimeErrorView::InvalidOperation(
                    at_address("Writing to freed memory at 0x"@, address),
                ),
            ),
        )
    } else {
        (with_object(h, address, HeapObjectView { value, ..h.objects[address] }), Ok(()))
    }
}

/// The heap with the object at `address` turned into a tombstone and its
/// bytes given back.
pub open spec fn tombstoned(h: HeapView, address: u64) -> HeapView {
    HeapView {
        objects: h.objects.insert(
            address,
            HeapObjectView { is_freed: true, ..h.objects[address] },
        ),
        total_allocated: (h.total_allocated - h.objects[address].size) as usize,
        ..h
    }
}

/// What freeing the object at `address` gives: the heap with a tombstone in
/// its place and its bytes given back, or the error for an unknown address
/// or a second free.
pub open spec fn spec_free(h: HeapView, address: u64) -> (HeapView, Result<(), RuntimeErrorView>) {
    if !h.objects.contains_key(address) {
        (h, Err(unknown_address(address)))
    } else if h.objects[address].is_freed {
        (h, Err(RuntimeErrorView::InvalidOperation(at_address("Double free at 0x"@, address))))
    } else {
        (tombstoned(h, address), Ok(()))
    }
}

/// What adding a reference to the object at `address` gives.
pub open spec fn spec_add_ref(h: HeapView, address: u64) -> (
    HeapView,
    Result<(), RuntimeErrorView>,
) {
    if !h.objects.contains_key(address) {
        (h, Err(unknown_address(address)))
    } else if h.objects[address].is_freed {
        (
            h,
            Err(
                RuntimeErrorView::InvalidOperation(
                    at_address("Adding reference to freed memory at 0x"@, address),
                ),
            ),
        )
    } else if h.objects[address].ref_count == usize::MAX {
        (
            h,
            Err(
                RuntimeErrorView::InvalidOperation(
                    at_address("Reference count overflow at 0x"@, address),
                ),
            ),
        )
    } else {
        (
            with_object(
                h,
                address,
                HeapObjectView {
                    ref_count: (h.objects[address].ref_count + 1) as usize,
                    ..h.objects[address]
                },
            ),
            Ok(()),
        )
    }
}

/// What releasing a reference to the object at `address` gives: one
/// reference less, and the object freed when that was its last; the error
/// for an unknown address or an object without references.
pub open spec fn spec_release_ref(h: HeapView, address: u64) -> (
    HeapView,
    Result<(), RuntimeErrorView>,
) {
    if !h.objects.contains_key(address) {
        (h, Err(unknown_address(address)))
    } else if h.objects[address].ref_count == 0 {
        (
            h,
            Err(
                RuntimeErrorView::InvalidOperation(
                    at_address("Reference count underflow at 0x"@, address),
                ),
            ),
        )
    } else {
        let released = with_object(
            h,
            address,
            HeapObjectView {
                ref_count: (h.objects[address].ref_count - 1) as usize,
                ..h.objects[address]
            },
        );
        if released.objects[address].ref_count == 0 && !released.objects[address].is_freed {
            (tombstoned(released, address), Ok(()))
        } else {
            (released, Ok(()))
        }
    }
}

/// The figures on a heap.
pub open spec fn spec_stats(h: HeapView) -> MemoryStats {
    MemoryStats {
        total_allocated: h.total_allocated,
        active_objects: live_count(h.objects) as usize,
        freed_objects: (h.objects.dom().len() - live_count(h.objects)) as usize,
        total_refs: if live_refs(h.objects) > usize::MAX {
            usize::MAX
        } else {
            live_refs(h.objects) as usize
        },
        heap_size: h.objects.dom().len() as usize,
    }
}

/// Whether a heap is as its operations leave it: every object stands at
/// its own address, none reaches past the next address, and the bytes in
/// use are those of the objects that were not freed.
pub open spec fn heap_ok(h: HeapView) -> bool {
    &&& forall|a: u64| #[trigger]
        h.objects.contains_key(a) ==> h.objects[a].address == a && a + h.objects[a].size
            <= h.next_address
    &&& h.total_allocated == live_bytes(h.objects)
}

/// A sum is not negative, and at least what each object below the limit
/// counts for.
pub proof fn lemma_sum_bounds(
    objects: Map<u64, HeapObjectView>,
    figure: Figure,
    address: u64,
    limit: nat,
)
    requires
        limit <= address_count(),
    ensures
        sum_below(objects, figure, limit) >= 0,
        address < limit ==> sum_below(objects, figure, limit) >= share_at(objects, figure, address),
    decreases limit,
{
    if limit > 0 {
        lemma_sum_bounds(objects, figure, address, (limit - 1) as nat);
    }
}

/// The sum over no objects is 0.
pub proof fn lemma_sum_of_none(figure: Figure, limit: nat)
    ensures
        sum_below(Map::<u64, HeapObjectView>::empty(), figure, limit) == 0,
    decreases limit,
{
    if limit > 0 {
        lemma_sum_of_none(figure, (limit - 1) as nat);
    }
}

/// Putting an object at an address below the limit changes the sum by what
/// the object counts for, less what stood there before.
pub proof fn lemma_sum_insert(
    objects: Map<u64, HeapObjectView>,
    figure: Figure,
    address: u64,
    object: HeapObjectView,
    limit: nat,
)
    requires
        limit <= address_count(),
    ensures
        sum_below(objects.insert(address, object), figure, limit) == sum_below(
            objects,
            figure,
            limit,
        ) + if address < limit {
            share(figure, object) - share_at(objects, figure, address)
        } else {
            0
        },
    decreases limit,
{
    if limit > 0 {
        lemma_sum_insert(objects, figure, address, object, (limit - 1) as nat);
    }
}

/// Taking the object at an address below the limit away lowers the sum by
/// what it counted for.
pub proof fn lemma_sum_remove(
    objects: Map<u64, HeapObjectView>,
    figure: Figure,
    address: u64,
    limit: nat,
)
    requires
        limit <= address_count(),
    ensures
        sum_below(objects.remove(address), figure, limit) == sum_below(objects, figure, limit)
            - if address < limit {
            share_at(objects, figure, address)
        } else {
            0
        },
    decreases limit,
{
    if limit > 0 {
        lemma_sum_remove(objects, figure, address, (limit - 1) as nat);
    }
}

/// Replacing an object by one of the same address and size keeps every
/// object at its address and below the next one, and changes the bytes in
/// use by the difference of what the two count for.
pub proof fn lemma_replaced(h: HeapView, object: HeapObjectView)
    requires
        heap_ok(h),
        h.objects.contains_key(object.address),
        object.size == h.objects[object.address].size,
    ensures
        live_bytes(with_object(h, object.address, object).objects) == live_bytes(h.objects)
            - share(Figure::Bytes, h.objects[object.address]) + share(Figure::Bytes, object),
        live_bytes(h.objects) >= share(Figure::Bytes, h.objects[object.address]),
        share(Figure::Bytes, object) == share(Figure::Bytes, h.objects[object.address])
            ==> heap_ok(with_object(h, object.address, object)),
{
    lemma_sum_insert(h.objects, Figure::Bytes, object.address, object, address_count());
    lemma_sum_bounds(h.objects, Figure::Bytes, object.address, address_count());
}

/// The heap of an execution.
#[derive(Debug)]
pub struct MemoryManager {
    heap: HashMap<u64, HeapObject>,
    next_address: u64,
    total_allocated: usize,
    allocation_limit: usize,
}

impl View for MemoryManager {
    type V = HeapView;

    closed spec fn view(&self) -> HeapView {
        HeapView {
            objects: objects_view(self.heap@),
            next_address: self.next_address,
            total_allocated: self.total_allocated,
            allocation_limit: self.allocation_limit,
        }
    }
}

/// An `InvalidOperation` whose message is `words` followed by `address` in
/// hexadecimal.
fn address_error(words: &str, address: u64) -> (error: RuntimeError)
    ensures
        error@ == RuntimeErrorView::InvalidOperation(at_address(words@, address)),
{
    let mut message = String::from_str(words);
    message.append(hex_text(address).as_str());
    RuntimeError::InvalidOperation(message)
}

impl MemoryManager {
    /// Whether the heap is as its operations leave it.
    pub open spec fn wf(&self) -> bool {
        heap_ok(self@)
    }

    /// The empty heap, with the first address to hand out and the default
    /// limit.
    pub fn new() -> (memory: MemoryManager)
        ensures
            memory.wf(),
            memory@ == empty_heap(),
    {
        let memory = MemoryManager {
            heap: HashMap::new(),
            next_address: FIRST_ADDRESS,
            total_allocated: 0,
            allocation_limit: DEFAULT_ALLOCATION_LIMIT,
        };
        proof {
            assert(memory@.objects =~= Map::empty());
            lemma_sum_of_none(Figure::Bytes, address_count());
        }
        memory
    }

    /// Sets the most bytes that the heap holds at a time. Objects that are
    /// there stay, also where they count for more.
    pub fn set_allocation_limit(&mut self, limit: usize)
        ensures
            final(self)@ == (HeapView { allocation_limit: limit, ..old(self)@ }),
            old(self).wf() ==> final(self).wf(),
    {
        self.allocation_limit = limit;
    }

    /// The reference count of the object at `address`, and whether it was
    /// freed.
    fn state_at(&self, address: u64) -> (found: Option<(usize, bool)>)
        ensures
            match found {
                Some((ref_count, is_freed)) => self@.objects.contains_key(address)
                    && self@.objects[address].ref_count == ref_count
                    && self@.objects[address].is_freed == is_freed,
                None => !self@.objects.contains_key(address),
            },
    {
        match self.heap.get(&address) {
            Some(object) => Some((object.ref_count, object.is_freed)),
            None => None,
        }
    }

    /// Allocates `size` bytes that hold `initial_value`, and returns their
    /// address.
    pub fn allocate(&mut self, size: usize, initial_value: Value) -> (r: Result<u64, RuntimeError>)
        requires
            old(self).wf(),
        ensures
            final(self).wf(),
            (final(self)@, address_result(r)) == spec_allocate(old(self)@, size, initial_value@),
    {
        let total = match self.total_allocated.checked_add(size) {
            Some(total) => total,
            None => {
                return Err(
                    RuntimeError::InvalidOperation(
                        String::from_str("Memory allocation limit exceeded"),
                    ),
                );
            },
        };
        if total > self.allocation_limit {
            return Err(
                RuntimeError::InvalidOperation(String::from_str("Memory allocation limit exceeded")),
            );
        }
        let next = match self.next_address.checked_add(size as u64) {
            Some(next) => next,
            None => {
                return Err(
                    RuntimeError::InvalidOperation(
                        String::from_str("Memory address space exhausted"),
                    ),
                );
            },
        };
        let address = self.next_address;
        let object = HeapObject {
            address,
            size,
            value: initial_value,
            ref_count: 1,
            is_freed: false,
        };
        let ghost before = self@;
        let ghost placed = object@;
        proof {
            lemma_sum_insert(before.objects, Figure::Bytes, address, placed, address_count());
        }
        self.heap.insert(address, object);
        self.next_address = next;
        self.total_allocated = total;
        assert(self@.objects =~= before.objects.insert(address, placed));
        Ok(address)
    }

    /// The value of the object at `address`.
    pub fn load(&self, address: u64) -> (r: Result<Value, RuntimeError>)
        ensures
            value_result(r) == spec_load(self@, address),
    {
        match self.heap.get(&address) {
            None => Err(address_error("Invalid memory address: 0x", address)),
            Some(object) => {
                if object.is_freed {
                    Err(address_error("Accessing freed memory at 0x", address))
                } else {
                    Ok(object.value.clone())
                }
            },
        }
    }

    /// Gives the object at `address` another reference count and another
    /// mark of being freed.
    fn mark(&mut self, address: u64, ref_count: usize, is_freed: bool)
        requires
            old(self)@.objects.contains_key(address),
        ensures
            final(self)@ == with_object(
                old(self)@,
                address,
                HeapObjectView { ref_count, is_freed, ..old(self)@.objects[address] },
            ),
    {
        if let Some(object) = self.heap.remove(&address) {
            let marked = HeapObject {
                address: object.address,
                size: object.size,
                value: object.value,
                ref_count,
                is_freed,
            };
            self.heap.insert(address, marked);
        }
        assert(self@.objects =~= old(self)@.objects.insert(
            address,
            HeapObjectView { ref_count, is_freed, ..old(self)@.objects[address] },
        ));
    }

    /// Replaces the value of the object at `address`.
    pub fn store(&mut self, address: u64, value: Value) -> (r: Result<(), RuntimeError>)
        requires
            old(self).wf(),
        ensures
            final(self).wf(),
            (final(self)@, unit_result(r)) == spec_store(old(self)@, address, value@),
    {
        match self.state_at(address) {
            None => Err(address_error("Invalid memory address: 0x", address)),
            Some((_, is_freed)) => {
                if is_freed {
                    Err(address_error("Writing to freed memory at 0x", address))
                } else {
                    let ghost stored = HeapObjectView { value: value@, ..self@.objects[address] };
                    proof {
                        lemma_replaced(self@, stored);
                    }
                    if let Some(object) = self.heap.remove(&address) {
                        let changed = HeapObject {
                            address: object.address,
                            size: object.size,
                            value,
                            ref_count: object.ref_count,
                            is_freed: object.is_freed,
                        };
                        self.heap.insert(address, changed);
                    }
                    assert(self@.objects =~= old(self)@.objects.insert(address, stored));
                    Ok(())
                }
            },
        }
    }

    /// Turns the object at `address` into a tombstone and gives its bytes
    /// back.
    fn bury(&mut self, address: u64)
        requires
            old(self).wf(),
            old(self)@.objects.contains_key(address),
            !old(self)@.objects[address].is_freed,
        ensures
            final(self).wf(),
            final(self)@ == tombstoned(old(self)@, address),
    {
        let ghost buried = HeapObjectView { is_freed: true, ..self@.objects[address] };
        proof {
            lemma_replaced(self@, buried);
        }
        if let Some(object) = self.heap.remove(&address) {
            let size = object.size;
            let marked = HeapObject {
                address: object.address,
                size,
                value: object.value,
                ref_count: object.ref_count,
                is_freed: true,
            };
            self.heap.insert(address, marked);
            self.total_allocated = self.total_allocated - size;
        }
        assert(self@.objects =~= old(self)@.objects.insert(address, buried));
    }

    /// Frees the object at `address`: a tombstone stays in its place.
    pub fn free(&mut self, address: u64) -> (r: Result<(), RuntimeError>)
        requires
            old(self).wf(),
        ensures
            final(self).wf(),
            (final(self)@, unit_result(r)) == spec_free(old(self)@, address),
    {
        match self.state_at(address) {
            None => Err(address_error("Invalid memory address: 0x", address)),
            Some((_, is_freed)) => {
                if is_freed {
                    Err(address_error("Double free at 0x", address))
                } else {
                    self.bury(address);
                    Ok(())
                }
            },
        }
    }

    /// Adds a reference to the object at `address`.
    pub fn add_ref(&mut self, address: u64) -> (r: Result<(), RuntimeError>)
        requires
            old(self).wf(),
        ensures
            final(self).wf(),
            (final(self)@, unit_result(r)) == spec_add_ref(old(self)@, address),
    {
        match self.state_at(address) {
            None => Err(address_error("Invalid memory address: 0x", address)),
            Some((ref_count, is_freed)) => {
                if is_freed {
                    Err(address_error("Adding reference to freed memory at 0x", address))
                } else if ref_count == usize::MAX {
                    Err(address_error("Reference count overflow at 0x", address))
                } else {
                    proof {
                        lemma_replaced(
                            self@,
                            HeapObjectView {
                                ref_count: (ref_count + 1) as usize,
                                ..self@.objects[address]
                            },
                        );
                    }
                    self.mark(address, ref_count + 1, false);
                    Ok(())
                }
            },
        }
    }

    /// Releases a reference to the object at `address`, and frees the
    /// object when that was its last.
    pub fn release_ref(&mut self, address: u64) -> (r: Result<(), RuntimeError>)
        requires
            old(self).wf(),
        ensures
            final(self).wf(),
            (final(self)@, unit_result(r)) == spec_release_ref(old(self)@, address),
    {
        match self.state_at(address) {
            None => Err(address_error("Invalid memory address: 0x", address)),
            Some((ref_count, is_freed)) => {
                if ref_count == 0 {
                    Err(address_error("Reference count underflow at 0x", address))
                } else {
                    proof {
                        lemma_replaced(
                            self@,
                            HeapObjectView {
                                ref_count: (ref_count - 1) as usize,
                                ..self@.objects[address]
                            },
                        );
                    }
                    self.mark(address, ref_count - 1, is_freed);
                    if ref_count == 1 && !is_freed {
                        self.bury(address);
                    }
                    Ok(())
                }
            },
        }
    }

    /// The figures on the heap. The heap stays as it is.
    pub fn get_stats(&self) -> (stats: MemoryStats)
        ensures
            stats == spec_stats(self@),
    {
        let ghost objects = self@.objects;
        let addresses = keys_of(&self.heap);
        let mut active: usize = 0;
        let mut refs: usize = 0;
        let mut i: usize = 0;
        proof {
            assert(objects.dom() =~= self.heap@.dom());
            assert(addresses@.take(0).to_set() =~= Set::empty());
            assert(objects.restrict(Set::empty()) =~= Map::empty());
            lemma_sum_of_none(Figure::Objects, address_count());
            lemma_sum_of_none(Figure::References, address_count());
        }
        while i < addresses.len()
            invariant
                i <= addresses.len(),
                objects == self@.objects,
                addresses@.to_set() == objects.dom(),
                addresses@.no_duplicates(),
                active == sum_below(
                    objects.restrict(addresses@.take(i as int).to_set()),
                    Figure::Objects,
                    address_count(),
                ),
                active <= i,
                live_refs(objects.restrict(addresses@.take(i as int).to_set())) >= 0,
                refs == if live_refs(objects.restrict(addresses@.take(i as int).to_set()))
                    > usize::MAX {
                    usize::MAX as int
                } else {
                    live_refs(objects.restrict(addresses@.take(i as int).to_set()))
                },
            decreases addresses.len() - i,
        {
            let address = addresses[i];
            proof {
                let done = addresses@.take(i as int).to_set();
                assert(addresses@.take(i + 1) =~= addresses@.take(i as int).push(address));
                addresses@.take(i as int).lemma_push_to_set_commute(address);
                assert(addresses@.contains(address));
                assert(objects.contains_key(address));
                assert(!done.contains(address)) by {
                    if addresses@.take(i as int).contains(address) {
                        let j = choose|j: int|
                            0 <= j < i && addresses@.take(i as int)[j] == address;
                        assert(addresses@[j] == addresses@[i as int]);
                    }
                }
                assert(objects.restrict(done.insert(address)) =~= objects.restrict(done).insert(
                    address,
                    objects[address],
                ));
                lemma_sum_insert(
                    objects.restrict(done),
                    Figure::Objects,
                    address,
                    objects[address],
                    address_count(),
                );
                lemma_sum_insert(
                    objects.restrict(done),
                    Figure::References,
                    address,
                    objects[address],
                    address_count(),
                );
            }
            if let Some(object) = self.heap.get(&address) {
                if !object.is_freed {
                    active += 1;
                    refs = refs.saturating_add(object.ref_count);
                }
            }
            i += 1;
        }
        proof {
            assert(addresses@.take(i as int) =~= addresses@);
            assert(objects.restrict(objects.dom()) =~= objects);
        }
        MemoryStats {
            total_allocated: self.total_allocated,
            active_objects: active,
            freed_objects: self.heap.len() - active,
            total_refs: refs,
            heap_size: self.heap.len(),
        }
    }

    /// Removes the tombstones and returns how many there were. Nothing else
    /// gives memory back.
    pub fn collect_garbage(&mut self) -> (count: usize)
        requires
            old(self).wf(),
        ensures
            final(self).wf(),
            final(self)@ == (HeapView { objects: without_freed(old(self)@.objects), ..old(self)@ }),
            count == old(self)@.objects.dom().len() - without_freed(
                old(self)@.objects,
            ).dom().len(),
    {
        let ghost start = self@;
        let addresses = keys_of(&self.heap);
        let before = self.heap.len();
        let mut i: usize = 0;
        proof {
            assert(start.objects.dom() =~= self.heap@.dom());
            assert(addresses@.take(0).to_set() =~= Set::empty());
            assert(self@.objects =~= swept(start.objects, Set::empty()));
        }
        while i < addresses.len()
            invariant
                i <= addresses.len(),
                start == old(self)@,
                self.wf(),
                self@ == (HeapView {
                    objects: swept(start.objects, addresses@.take(i as int).to_set()),
                    ..start
                }),
            decreases addresses.len() - i,
        {
            let address = addresses[i];
            let dead = match self.state_at(address) {
                Some((_, is_freed)) => is_freed,
                None => false,
            };
            let ghost held = self@;
            if dead {
                self.heap.remove(&address);
                proof {
                    assert(self@.objects =~= held.objects.remove(address));
                    lemma_sum_remove(held.objects, Figure::Bytes, address, address_count());
                }
            }
            proof {
                let done = addresses@.take(i as int).to_set();
                assert(addresses@.take(i + 1) =~= addresses@.take(i as int).push(address));
                addresses@.take(i as int).lemma_push_to_set_commute(address);
                assert(held.objects == swept(start.objects, done));
                assert(self@.objects =~= swept(start.objects, done.insert(address)));
            }
            i += 1;
        }
        proof {
            assert(addresses@.take(i as int) =~= addresses@);
            assert(self@.objects =~= without_freed(start.objects));
            assert(self@.objects.dom() =~= self.heap@.dom());
            assert(self@.objects.dom().subset_of(start.objects.dom()));
            vstd::set_lib::lemma_len_subset(self@.objects.dom(), start.objects.dom());
        }
        before - self.heap.len()
    }
}

/// The result of an allocation, with the error by its view.
pub open spec fn address_result(r: Result<u64, RuntimeError>) -> Result<u64, RuntimeErrorView> {
    match r {
        Ok(address) => Ok(address),
        Err(e) => Err(e@),
    }
}

/// The result of an operation that gives nothing, with the error by its
/// view.
pub open spec fn unit_result(r: Result<(), RuntimeError>) -> Result<(), RuntimeErrorView> {
    match r {
        Ok(_) => Ok(()),
        Err(e) => Err(e@),
    }
}

/// The result of an operation that gives a value, both by their views.
pub open spec fn value_result(r: Result<Value, RuntimeError>) -> Result<
    ValueView,
    RuntimeErrorView,
> {
    match r {
        Ok(v) => Ok(v@),
        Err(e) => Err(e@),
    }
}

/// The life of an object. On a heap that is as its operations leave it, an
/// allocation that succeeds gives an address at which a value can be stored
/// and is then loaded again; once the object is freed, loading from it,
/// storing to it and freeing it again all fail.
pub proof fn lemma_object_life(h: HeapView, size: usize, first: ValueView, second: ValueView)
    requires
        heap_ok(h),
        spec_allocate(h, size, first).1 is Ok,
    ensures
        ({
            let (h1, allocated) = spec_allocate(h, size, first);
            let address = allocated->Ok_0;
            let (h2, stored) = spec_store(h1, address, second);
            let (h3, freed) = spec_free(h2, address);
            &&& spec_load(h1, address) == Ok::<ValueView, RuntimeErrorView>(first)
            &&& stored is Ok
            &&& spec_load(h2, address) == Ok::<ValueView, RuntimeErrorView>(second)
            &&& freed is Ok
            &&& spec_load(h3, address) is Err
            &&& spec_store(h3, address, first).1 is Err
            &&& spec_store(h3, address, first).0 == h3
            &&& spec_free(h3, address).1 == Err::<(), RuntimeErrorView>(
                RuntimeErrorView::InvalidOperation(at_address("Double free at 0x"@, address)),
            )
            &&& spec_free(h3, address).0 == h3
        }),
{
}

/// Addresses are never handed out again. On a heap that is as its
/// operations leave it, an allocation of at least one byte gives an
/// address past every object that has bytes, and every later allocation
/// gives a higher one, whatever was freed or swept in between; the heap
/// stays as its operations leave it, with the new object at the address.
pub proof fn lemma_addresses_are_fresh(h: HeapView, size: usize, value: ValueView)
    requires
        heap_ok(h),
        size > 0,
        spec_allocate(h, size, value).1 is Ok,
    ensures
        ({
            let (after, allocated) = spec_allocate(h, size, value);
            let address = allocated->Ok_0;
            &&& heap_ok(after)
            &&& address == h.next_address
            &&& after.next_address > address
            &&& forall|a: u64| #[trigger]
                h.objects.contains_key(a) && h.objects[a].size > 0 ==> a < address
            &&& after.objects.contains_key(address)
            &&& after.objects[address].value == value
            &&& !after.objects[address].is_freed
        }),
{
    let (after, allocated) = spec_allocate(h, size, value);
    lemma_sum_insert(
        h.objects,
        Figure::Bytes,
        h.next_address,
        after.objects[h.next_address],
        address_count(),
    );
}

/// A sweep takes the tombstones away and nothing else: the objects that
/// were not freed stay as they are, and so does every sum over them.
pub proof fn lemma_sweep_keeps(objects: Map<u64, HeapObjectView>, figure: Figure, limit: nat)
    requires
        limit <= address_count(),
    ensures
        forall|a: u64|
            objects.contains_key(a) && !objects[a].is_freed ==> #[trigger] without_freed(
                objects,
            ).contains_key(a) && without_freed(objects)[a] == objects[a],
        sum_below(without_freed(objects), figure, limit) == sum_below(objects, figure, limit),
    decreases limit,
{
    if limit > 0 {
        lemma_sweep_keeps(objects, figure, (limit - 1) as nat);
    }
}

} // verus!
