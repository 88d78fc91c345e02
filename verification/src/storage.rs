//! Typed storage for render-graph resources, addressed by handles.
//!
//! A [`Storage`] hands out a [`GpuHandle`] for every resource it stores; the
//! handle is the resource's position, so it stays valid for the storage's
//! whole life.  An [`ErasedHandle`] forgets the resource type but remembers
//! it, so it can be turned back into a typed handle of the right type only.
use vstd::prelude::*;
use std::any::TypeId;
use std::marker::PhantomData;

verus! {

/// `std::any::TypeId`, carried opaquely.
#[verifier::external_type_specification]
#[verifier::external_body]
pub struct ExTypeId(TypeId);

/// The `TypeId` of `T`, from `std::any::TypeId::of`; nothing is claimed of its value.
#[verifier::external_body]
fn type_id_of<T: 'static>() -> (id: TypeId) {
    TypeId::of::<T>()
}

/// `TypeId`'s `==`: true exactly when the two ids are the same value.
#[verifier::external_body]
fn same_type_id(a: &TypeId, b: &TypeId) -> (same: bool)
    ensures
        same == (*a == *b),
{
    *a == *b
}

/// A handle to a resource of type `T` held by a [`Storage`].
pub struct GpuHandle<T> {
    id: usize,
    _phantom: PhantomData<T>,
}

impl<T> GpuHandle<T> {
    /// The position of the resource the handle names.
    pub closed spec fn index(&self) -> usize {
        self.id
    }

    /// The handle of the resource at position `id`.
    pub(crate) fn new(id: usize) -> (h: Self)
        ensures
            h.index() == id,
    {
        GpuHandle { id, _phantom: PhantomData }
    }

    /// The position of the resource the handle names.
    pub(crate) fn position(&self) -> (i: usize)
        ensures
            i == self.index(),
    {
        self.id
    }

    /// Forgets the resource type, keeping the position and the type's id.
    pub fn erase(self) -> (e: ErasedHandle)
        where T: 'static
        ensures
            e.index() == self.index(),
    {
        ErasedHandle { id: self.id, type_id: type_id_of::<T>() }
    }
}

impl<T> Clone for GpuHandle<T> {
    fn clone(&self) -> (h: Self)
        ensures
            h == *self,
    {
        GpuHandle { id: self.id, _phantom: PhantomData }
    }
}

impl<T> Copy for GpuHandle<T> {

}

impl<T> PartialEq for GpuHandle<T> {
    fn eq(&self, other: &Self) -> (r: bool) {
        self.id == other.id
    }
}

impl<T> vstd::std_specs::cmp::PartialEqSpecImpl for GpuHandle<T> {
    open spec fn obeys_eq_spec() -> bool {
        true
    }

    open spec fn eq_spec(&self, other: &Self) -> bool {
        self.index() == other.index()
    }
}

impl<T> Eq for GpuHandle<T> {

}

/// A handle whose resource type is known only at run time.
#[derive(Clone, Copy, Debug, PartialEq, Eq, Hash)]
pub struct ErasedHandle {
    id: usize,
    type_id: TypeId,
}

impl ErasedHandle {
    /// The position of the resource the handle names.
    pub closed spec fn index(&self) -> usize {
        self.id
    }

    /// The id of the resource type the handle was made for.
    pub closed spec fn type_tag(&self) -> TypeId {
        self.type_id
    }

    /// Whether the handle was made for resources of type `T`: whether its
    /// type id is the one `TypeId::of::<T>()` gives.
    pub fn is_of_type<T: 'static>(&self) -> (b: bool) {
        let wanted = type_id_of::<T>();
        self.has_type_tag(&wanted)
    }

    /// Whether the handle was made for the type whose id is `id`.
    pub fn has_type_tag(&self, id: &TypeId) -> (b: bool)
        ensures
            b == (self.type_tag() == *id),
    {
        same_type_id(&self.type_id, id)
    }

    /// The typed handle, if the handle was made for resources of type `T`.
    pub fn into_typed<T: 'static>(self) -> (h: Option<GpuHandle<T>>)
        ensures
            h matches Some(t) ==> (t.index() == self.index()),
    {
        let same_type = self.is_of_type::<T>();
        self.typed_if(same_type)
    }

    /// The typed handle at the same position where `same_type` holds, else none.
    pub fn typed_if<T>(self, same_type: bool) -> (h: Option<GpuHandle<T>>)
        ensures
            same_type ==> (h matches Some(t) && t.index() == self.index()),
            !same_type ==> h is None,
    {
        if same_type {
            Some(GpuHandle::new(self.id))
        } else {
            None
        }
    }
}

/// A kind of resource a [`Storage`] can hold, with the metadata kept beside it.
pub trait Resource: 'static {
    type Metadata: 'static;
}

/// A read-only list of resources with their metadata, addressed by handle.
pub struct ResourceList<T: Resource> {
    inner: Vec<(T, T::Metadata)>,
}

impl<T: Resource> ResourceList<T> {
    /// The resources and their metadata, by position.
    pub closed spec fn view(&self) -> Seq<(T, T::Metadata)> {
        self.inner@
    }

    /// An empty list.
    pub fn new() -> (list: Self)
        ensures
            list@ == Seq::<(T, T::Metadata)>::empty(),
    {
        ResourceList { inner: Vec::new() }
    }

    /// The resource and metadata the handle names, if it is in range.
    pub fn get(&self, handle: &GpuHandle<T>) -> (entry: Option<&(T, T::Metadata)>)
        ensures
            entry == (if handle.index() < self@.len() {
                Some(&self@[handle.index() as int])
            } else {
                None
            }),
    {
        if handle.id < self.inner.len() {
            Some(&self.inner[handle.id])
        } else {
            None
        }
    }

    /// The resource and metadata the handle names, for modification, if it is in range.
    pub fn get_mut(&mut self, handle: &GpuHandle<T>) -> (entry: Option<&mut (T, T::Metadata)>)
        ensures
            handle.index() < old(self)@.len() ==> (entry matches Some(e) && *e == old(self)@[handle.index() as int]
                && final(self)@ == old(self)@.update(handle.index() as int, *final(e))),
            handle.index() >= old(self)@.len() ==> entry is None && final(self)@ == old(self)@,
    {
        if handle.id < self.inner.len() {
            Some(&mut self.inner[handle.id])
        } else {
            None
        }
    }

    /// A cursor over the handles of all resources, in position order.
    pub fn handle_iter(&self) -> (it: HandleIter<'_, T>)
        ensures
            it.remaining() == self@.len(),
            it.position() == 0,
    {
        HandleIter { ix: 0, len: self.inner.len(), _phantom: PhantomData }
    }
}

/// Yields the handles of positions `0..len` in order.
pub struct HandleIter<'a, T> {
    ix: usize,
    len: usize,
    _phantom: PhantomData<&'a T>,
}

impl<'a, T> HandleIter<'a, T> {
    /// The position of the next handle.
    pub closed spec fn position(&self) -> nat {
        self.ix as nat
    }

    /// How many handles are left.
    pub closed spec fn remaining(&self) -> int {
        self.len - self.ix
    }

    /// The next handle, if any.
    pub fn next(&mut self) -> (h: Option<GpuHandle<T>>)
        ensures
            old(self).remaining() > 0 ==> (h matches Some(g) && g.index() == old(self).position()
                && final(self).position() == old(self).position() + 1 && final(self).remaining()
                == old(self).remaining() - 1),
            old(self).remaining() <= 0 ==> h is None && *final(self) == *old(self),
    {
        if self.ix < self.len {
            let handle = GpuHandle::new(self.ix);
            self.ix = self.ix + 1;
            Some(handle)
        } else {
            None
        }
    }
}

/// Resources of type `T` with their metadata; adding one hands back its handle.
pub struct Storage<T: Resource> {
    inner: Vec<(T, T::Metadata)>,
}

impl<T: Resource> Storage<T> {
    /// The resources and their metadata, by position.
    pub closed spec fn view(&self) -> Seq<(T, T::Metadata)> {
        self.inner@
    }

    /// An empty storage.
    pub fn new() -> (s: Self)
        ensures
            s@ == Seq::<(T, T::Metadata)>::empty(),
    {
        Storage { inner: Vec::new() }
    }

    /// Stores `data` with `metadata` at the next position and returns its handle.
    pub fn add(&mut self, data: T, metadata: T::Metadata) -> (h: GpuHandle<T>)
        ensures
            final(self)@ == old(self)@.push((data, metadata)),
            h.index() == old(self)@.len(),
    {
        let id = self.inner.len();
        self.inner.push((data, metadata));
        GpuHandle::new(id)
    }

    /// The resource the handle names, if it is in range.
    pub fn get(&self, handle: &GpuHandle<T>) -> (data: Option<&T>)
        ensures
            data == (if handle.index() < self@.len() {
                Some(&self@[handle.index() as int].0)
            } else {
                None
            }),
    {
        if handle.id < self.inner.len() {
            Some(&self.inner[handle.id].0)
        } else {
            None
        }
    }

    /// The resource at the erased handle's position, if it is in range.
    pub fn get_from_erased(&self, handle: &ErasedHandle) -> (data: Option<&T>)
        ensures
            data == (if handle.index() < self@.len() {
                Some(&self@[handle.index() as int].0)
            } else {
                None
            }),
    {
        if handle.id < self.inner.len() {
            Some(&self.inner[handle.id].0)
        } else {
            None
        }
    }

    /// The resource the handle names, for modification, if it is in range.
    pub fn get_mut(&mut self, handle: &GpuHandle<T>) -> (data: Option<&mut T>)
        ensures
            handle.index() < old(self)@.len() ==> (data matches Some(d) && *d == old(self)@[handle.index() as int].0 && final(self)@ == old(self)@.update(
                handle.index() as int,
                (*final(d), old(self)@[handle.index() as int].1),
            )),
            handle.index() >= old(self)@.len() ==> data is None && final(self)@ == old(self)@,
    {
        if handle.id < self.inner.len() {
            let entry = &mut self.inner[handle.id];
            Some(&mut entry.0)
        } else {
            None
        }
    }

    /// The resource at the erased handle's position, for modification, if it is in range.
    pub fn get_from_erased_mut(&mut self, handle: &ErasedHandle) -> (data: Option<&mut T>)
        ensures
            handle.index() < old(self)@.len() ==> (data matches Some(d) && *d == old(self)@[handle.index() as int].0 && final(self)@ == old(self)@.update(
                handle.index() as int,
                (*final(d), old(self)@[handle.index() as int].1),
            )),
            handle.index() >= old(self)@.len() ==> data is None && final(self)@ == old(self)@,
    {
        if handle.id < self.inner.len() {
            let entry = &mut self.inner[handle.id];
            Some(&mut entry.0)
        } else {
            None
        }
    }

    /// The resource and its metadata, if the handle is in range.
    pub fn get_with_metadata(&self, handle: &GpuHandle<T>) -> (entry: Option<(&T, &T::Metadata)>)
        ensures
            entry == (if handle.index() < self@.len() {
                Some((&self@[handle.index() as int].0, &self@[handle.index() as int].1))
            } else {
                None
            }),
    {
        if handle.id < self.inner.len() {
            let entry = &self.inner[handle.id];
            Some((&entry.0, &entry.1))
        } else {
            None
        }
    }

    /// The resource and its metadata, for modification, if the handle is in range.
    pub fn get_with_metadata_mut(&mut self, handle: &GpuHandle<T>) -> (entry: Option<
        (&mut T, &mut T::Metadata),
    >)
        ensures
            handle.index() < old(self)@.len() ==> (entry matches Some(e) && *e.0 == old(self)@[handle.index() as int].0 && *e.1 == old(self)@[handle.index() as int].1 && final(self)@ == old(self)@.update(handle.index() as int, (*final(e.0), *final(e.1)))),
            handle.index() >= old(self)@.len() ==> entry is None && final(self)@ == old(self)@,
    {
        if handle.id < self.inner.len() {
            let entry = &mut self.inner[handle.id];
            let (data, metadata) = entry;
            Some((data, metadata))
        } else {
            None
        }
    }

    /// Puts `new_data` and `new_metadata` in the handle's place and returns
    /// what was there, if the handle is in range.
    pub fn replace(&mut self, handle: &GpuHandle<T>, new_data: T, new_metadata: T::Metadata) -> (old_entry:
        Option<(T, T::Metadata)>)
        ensures
            handle.index() < old(self)@.len() ==> old_entry == Some(old(self)@[handle.index() as int])
                && final(self)@ == old(self)@.update(handle.index() as int, (new_data, new_metadata)),
            handle.index() >= old(self)@.len() ==> old_entry is None && final(self)@ == old(self)@,
    {
        if handle.id < self.inner.len() {
            let mut swapped = (new_data, new_metadata);
            std::mem::swap(&mut self.inner[handle.id], &mut swapped);
            Some(swapped)
        } else {
            None
        }
    }
}

/// What `add` stores, `get` gives back: the handle returned for a resource
/// names that resource, whatever was stored before it.
pub proof fn law_get_after_add<T: Resource>(
    before: Seq<(T, T::Metadata)>,
    data: T,
    metadata: T::Metadata,
)
    ensures
        ({
            let after = before.push((data, metadata));
            &&& before.len() < after.len()
            &&& after[before.len() as int].0 == data
            &&& after[before.len() as int].1 == metadata
            &&& forall|i: int| 0 <= i < before.len() ==> after[i] == before[i]
        }),
{
}

/// After `replace` on a handle in range, the handle names the new resource,
/// and every other handle names what it named before.
pub proof fn law_get_after_replace<T: Resource>(
    before: Seq<(T, T::Metadata)>,
    index: int,
    data: T,
    metadata: T::Metadata,
)
    requires
        0 <= index < before.len(),
    ensures
        ({
            let after = before.update(index, (data, metadata));
            &&& after.len() == before.len()
            &&& after[index] == (data, metadata)
            &&& forall|i: int| 0 <= i < before.len() && i != index ==> after[i] == before[i]
        }),
{
}

} // verus!
