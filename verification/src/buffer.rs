//! Native bytes published to the managed runtime without copying.
//!
//! A `CrossBoundaryBuffer` is the native side's stake in one allocation, and
//! the record of who else refers to it. A `ManagedView` is what the managed
//! side gets: an array over the same allocation, as long as it declares. A
//! view is made, read and disposed of under the global lock only.

use vstd::prelude::*;
use arrow::array::ArrayData;
use arrow::buffer::Buffer;
use crate::arrow_spec::{
    array_buffer_bytes,
    array_buffer_count,
    array_buffers,
    array_len,
    array_length,
    buffer_address,
    buffer_bytes,
    buffer_from_vec,
    buffer_slice,
    byte_array,
};
use crate::lock::LockState;
use crate::ownership::{Ownership, OwnershipEvent};

verus! {

/// Why no view was made.
#[derive(Clone, Copy, Debug, PartialEq, Eq, Structural)]
pub enum ConstructionError {
    /// The backing allocation holds no byte, so nothing can point into it.
    EmptyAllocation,
    /// The view was to be longer than the backing allocation.
    LengthExceedsAllocation { declared: usize, allocated: usize },
    /// The native handle, through which views are made, is disposed of.
    HandleDisposed,
}

/// What disposing of a reference did.
#[derive(Clone, Copy, Debug, PartialEq, Eq, Structural)]
pub enum Disposal {
    /// The reference is gone; others keep the allocation alive.
    Retained,
    /// The reference was the last one: the allocation is freed.
    Freed,
    /// There was no such reference; nothing has changed.
    Absent,
}

/// What `Ownership::step` makes of an event, as the caller is told.
pub open spec fn disposal_of(before: Ownership, event: OwnershipEvent) -> Disposal {
    if !before.admits(event) {
        Disposal::Absent
    } else if before.after(event).unreferenced() {
        Disposal::Freed
    } else {
        Disposal::Retained
    }
}

/// The managed side's view of native bytes: an arrow array over the shared
/// allocation, and the mark of the buffer that made it.
pub struct ManagedView {
    array: ArrayData,
    owner: Option<usize>,
}

impl ManagedView {
    /// The invariant of the type: the array has a buffer to show.
    pub closed spec fn wf(&self) -> bool {
        array_buffers(self.array).len() > 0
    }

    /// The bytes that the view shows: those of the array's first buffer.
    pub closed spec fn bytes(&self) -> Seq<u8> {
        array_buffers(self.array)[0]
    }

    /// The number of elements that the array declares.
    pub closed spec fn declared_len(&self) -> nat {
        array_len(self.array)
    }

    /// The mark of the buffer that made the view; none for a view that came
    /// from the managed side.
    pub closed spec fn owner(&self) -> Option<usize> {
        self.owner
    }

    /// Takes an array that came from the managed side as a view. An array
    /// without a buffer shows nothing and is no view.
    pub fn receive(array: ArrayData, lock: &LockState) -> (view: Option<ManagedView>)
        requires
            lock.is_held(),
        ensures
            view is Some <==> array_buffers(array).len() > 0,
            view is Some ==> {
                &&& view->0.wf()
                &&& view->0.bytes() == array_buffers(array)[0]
                &&& view->0.declared_len() == array_len(array)
                &&& view->0.owner() is None
            },
    {
        if array_buffer_count(&array) > 0 {
            Some(ManagedView { array, owner: None })
        } else {
            None
        }
    }

    /// The number of elements that the array declares.
    pub fn len(&self) -> (len: usize)
        ensures
            len == self.declared_len(),
    {
        array_length(&self.array)
    }

    /// The array, to hand to the managed side.
    pub fn into_array(self) -> (array: ArrayData)
        requires
            self.wf(),
        ensures
            array_buffers(array).len() > 0,
            array_buffers(array)[0] == self.bytes(),
            array_len(array) == self.declared_len(),
    {
        self.array
    }
}

/// Copies the bytes that `view` shows into a vector of the native side's
/// own, which no longer depends on the view or its owner.
pub fn adopt(view: &ManagedView, lock: &LockState) -> (bytes: Vec<u8>)
    requires
        view.wf(),
        lock.is_held(),
    ensures
        bytes@ == view.bytes(),
{
    array_buffer_bytes(&view.array, 0)
}

/// The native side's stake in a shared allocation, with the count of the
/// views that share it. Its mark is the place of the allocation in memory,
/// which no other allocation has while this one is alive; each view that the
/// buffer makes carries the mark, and only such a view is disposed of here.
pub struct CrossBoundaryBuffer {
    handle: Option<Buffer>,
    mark: usize,
    allocated: usize,
    views: usize,
    frees: usize,
    contents: Ghost<Seq<u8>>,
}

impl CrossBoundaryBuffer {
    /// The bytes of the allocation.
    pub closed spec fn bytes(&self) -> Seq<u8> {
        self.contents@
    }

    /// The mark that the views of this buffer carry.
    pub closed spec fn mark(&self) -> usize {
        self.mark
    }

    /// Who refers to the allocation, and how often it has been freed.
    pub closed spec fn ownership(&self) -> Ownership {
        Ownership {
            native: self.handle is Some,
            views: self.views as nat,
            frees: self.frees as nat,
        }
    }

    /// The invariant of the type: the allocation is not empty, the handle
    /// shows all of it, and it has been freed if and only if nothing refers
    /// to it.
    pub closed spec fn wf(&self) -> bool {
        &&& self.allocated == self.contents@.len()
        &&& self.allocated > 0
        &&& self.handle is Some ==> buffer_bytes(self.handle->0) == self.contents@
        &&& self.ownership().sound()
    }

    /// The allocation of a buffer is not empty, and it has been freed once
    /// if nothing refers to it and not at all if anything does.
    pub proof fn lemma_record_is_sound(&self)
        requires
            self.wf(),
        ensures
            self.bytes().len() > 0,
            self.ownership().sound(),
            self.ownership().frees == 1 <==> self.ownership().unreferenced(),
    {
    }

    /// Wraps `data` for sharing. The native side has the only reference. An
    /// empty `data` is refused.
    pub fn new(data: Vec<u8>) -> (made: Result<CrossBoundaryBuffer, ConstructionError>)
        ensures
            match made {
                Ok(buffer) => data@.len() > 0 && buffer.wf() && buffer.bytes() == data@
                    && buffer.ownership() == Ownership::initial(),
                Err(error) => data@.len() == 0 && error == ConstructionError::EmptyAllocation,
            },
    {
        let allocated = data.len();
        if allocated == 0 {
            return Err(ConstructionError::EmptyAllocation);
        }
        let ghost contents = data@;
        let handle = buffer_from_vec(data);
        let mark = buffer_address(&handle);
        Ok(
            CrossBoundaryBuffer {
                handle: Some(handle),
                mark,
                allocated,
                views: 0,
                frees: 0,
                contents: Ghost(contents),
            },
        )
    }

    /// The number of bytes in the allocation.
    pub fn len(&self) -> (n: usize)
        requires
            self.wf(),
        ensures
            n == self.bytes().len(),
    {
        self.allocated
    }

    /// Whether the native side still has its handle.
    pub fn native_held(&self) -> (held: bool)
        ensures
            held == self.ownership().native,
    {
        self.handle.is_some()
    }

    /// The number of views that are not disposed of.
    pub fn view_count(&self) -> (n: usize)
        ensures
            n == self.ownership().views,
    {
        self.views
    }

    /// How often the allocation has been freed.
    pub fn free_count(&self) -> (n: usize)
        ensures
            n == self.ownership().frees,
    {
        self.frees
    }

    /// Whether the allocation is freed, which is whether nothing refers to it.
    pub fn is_freed(&self) -> (freed: bool)
        requires
            self.wf(),
        ensures
            freed == self.ownership().unreferenced(),
            freed == (self.ownership().frees == 1),
    {
        self.frees == 1
    }

    /// Makes a view of the first `declared_len` bytes, over the same
    /// allocation. A view longer than the allocation is refused, and so is
    /// one asked of a handle that is disposed of; then nothing changes.
    pub fn create_view(&mut self, declared_len: usize, lock: &LockState) -> (made: Result<
        ManagedView,
        ConstructionError,
    >)
        requires
            old(self).wf(),
            lock.is_held(),
            old(self).ownership().views < usize::MAX,
        ensures
            final(self).wf(),
            final(self).bytes() == old(self).bytes(),
            final(self).mark() == old(self).mark(),
            match made {
                Ok(view) => {
                    &&& old(self).ownership().native
                    &&& declared_len <= old(self).bytes().len()
                    &&& view.wf()
                    &&& view.bytes() == old(self).bytes().take(declared_len as int)
                    &&& view.declared_len() == declared_len
                    &&& view.owner() == Some(old(self).mark())
                    &&& final(self).ownership() == old(self).ownership().after(
                        OwnershipEvent::CreateView,
                    )
                },
                Err(error) => {
                    &&& final(self).ownership() == old(self).ownership()
                    &&& error == if !old(self).ownership().native {
                        ConstructionError::HandleDisposed
                    } else {
                        ConstructionError::LengthExceedsAllocation {
                            declared: declared_len,
                            allocated: old(self).bytes().len() as usize,
                        }
                    }
                    &&& !old(self).ownership().native || declared_len > old(self).bytes().len()
                },
            },
    {
        let allocated = self.allocated;
        let refused = ConstructionError::LengthExceedsAllocation {
            declared: declared_len,
            allocated,
        };
        match &self.handle {
            None => Err(ConstructionError::HandleDisposed),
            Some(handle) => {
                if declared_len > allocated {
                    return Err(refused);
                }
                let window = buffer_slice(handle, 0, declared_len);
                proof {
                    assert(buffer_bytes(window) =~= self.contents@.take(declared_len as int));
                }
                match byte_array(window, declared_len) {
                    Ok(array) => {
                        self.views = self.views + 1;
                        Ok(ManagedView { array, owner: Some(self.mark) })
                    },
                    Err(_) => Err(refused),
                }
            },
        }
    }

    /// Disposes of one view of this buffer. The allocation is freed if the
    /// view was the last reference. A view that another buffer made, or that
    /// came from the managed side, is no reference to this allocation: it is
    /// dropped, and nothing changes here.
    pub fn dispose_view(&mut self, view: ManagedView, lock: &LockState) -> (done: Disposal)
        requires
            old(self).wf(),
            lock.is_held(),
        ensures
            final(self).wf(),
            final(self).bytes() == old(self).bytes(),
            final(self).mark() == old(self).mark(),
            final(self).ownership() == if view.owner() == Some(old(self).mark()) {
                old(self).ownership().step(OwnershipEvent::DisposeView)
            } else {
                old(self).ownership()
            },
            done == if view.owner() == Some(old(self).mark()) {
                disposal_of(old(self).ownership(), OwnershipEvent::DisposeView)
            } else {
                Disposal::Absent
            },
    {
        let of_this_buffer = match view.owner {
            Some(mark) => mark == self.mark,
            None => false,
        };
        if !of_this_buffer || self.views == 0 {
            return Disposal::Absent;
        }
        self.views = self.views - 1;
        if self.views == 0 && self.handle.is_none() {
            self.frees = self.frees + 1;
            Disposal::Freed
        } else {
            Disposal::Retained
        }
    }

    /// Disposes of the native handle. The allocation is freed if the handle
    /// was the last reference.
    pub fn dispose_native(&mut self) -> (done: Disposal)
        requires
            old(self).wf(),
        ensures
            final(self).wf(),
            final(self).bytes() == old(self).bytes(),
            final(self).mark() == old(self).mark(),
            final(self).ownership() == old(self).ownership().step(OwnershipEvent::DisposeNative),
            done == disposal_of(old(self).ownership(), OwnershipEvent::DisposeNative),
    {
        if self.handle.is_none() {
            return Disposal::Absent;
        }
        self.handle = None;
        if self.views == 0 {
            self.frees = self.frees + 1;
            Disposal::Freed
        } else {
            Disposal::Retained
        }
    }
}

/// What `publish_with_length` returns for an allocation of `allocated` bytes
/// and a view that is to show `declared` of them.
pub open spec fn publish_outcome(allocated: nat, declared: usize) -> Result<(), ConstructionError> {
    if allocated == 0 {
        Err(ConstructionError::EmptyAllocation)
    } else if declared > allocated {
        Err(
            ConstructionError::LengthExceedsAllocation {
                declared,
                allocated: allocated as usize,
            },
        )
    } else {
        Ok(())
    }
}

/// Publishes the first `declared_len` bytes of `data` to the managed side
/// without copying. The view shows exactly those bytes; the buffer that
/// comes with it is the native side's stake in the allocation, which lives
/// until both are disposed of. A view longer than `data` is refused, and so
/// is an empty `data`: then no view is made.
pub fn publish_with_length(data: Vec<u8>, declared_len: usize, lock: &LockState) -> (made: Result<
    (CrossBoundaryBuffer, ManagedView),
    ConstructionError,
>)
    requires
        lock.is_held(),
    ensures
        match made {
            Ok((buffer, view)) => {
                &&& publish_outcome(data@.len(), declared_len) is Ok
                &&& buffer.wf()
                &&& buffer.bytes() == data@
                &&& buffer.ownership() == Ownership::initial().after(OwnershipEvent::CreateView)
                &&& view.wf()
                &&& view.bytes() == data@.take(declared_len as int)
                &&& view.bytes().len() == declared_len
                &&& view.declared_len() == declared_len
                &&& view.owner() == Some(buffer.mark())
            },
            Err(error) => publish_outcome(data@.len(), declared_len) == Err::<
                (),
                ConstructionError,
            >(error),
        },
{
    match CrossBoundaryBuffer::new(data) {
        Err(error) => Err(error),
        Ok(buffer) => {
            let mut buffer = buffer;
            match buffer.create_view(declared_len, lock) {
                Ok(view) => Ok((buffer, view)),
                Err(error) => Err(error),
            }
        },
    }
}

/// Publishes all of `data` to the managed side without copying: the length
/// of the view is that of the allocation. Only an empty `data` is refused.
pub fn publish(data: Vec<u8>, lock: &LockState) -> (made: Result<
    (CrossBoundaryBuffer, ManagedView),
    ConstructionError,
>)
    requires
        lock.is_held(),
    ensures
        match made {
            Ok((buffer, view)) => {
                &&& data@.len() > 0
                &&& buffer.wf()
                &&& buffer.bytes() == data@
                &&& buffer.ownership() == Ownership::initial().after(OwnershipEvent::CreateView)
                &&& view.wf()
                &&& view.bytes() == data@
                &&& view.declared_len() == data@.len()
                &&& view.owner() == Some(buffer.mark())
            },
            Err(error) => data@.len() == 0 && error == ConstructionError::EmptyAllocation,
        },
{
    let declared_len = data.len();
    proof {
        assert(data@.take(declared_len as int) =~= data@);
    }
    publish_with_length(data, declared_len, lock)
}

} // verus!
