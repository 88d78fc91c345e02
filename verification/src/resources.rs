//! The images of a render graph, each stored with its size and registered
//! under a name of its own.
use vstd::prelude::*;
use crate::storage::{GpuHandle, Resource, Storage};

verus! {

/// The position of the entry registered under `name`, if any.
pub open spec fn name_position(names: Seq<(Seq<char>, usize)>, name: Seq<char>) -> Option<int> {
    if exists|i: int| 0 <= i < names.len() && names[i].0 == name {
        Some(choose|i: int| 0 <= i < names.len() && names[i].0 == name)
    } else {
        None
    }
}

/// No name is registered twice.
pub open spec fn distinct_names(names: Seq<(Seq<char>, usize)>) -> bool {
    forall|i: int, j: int| 0 <= i < j < names.len() ==> names[i].0 != names[j].0
}

/// Images with their sizes, and the name under which each was added.
pub struct GraphResources<T: Resource> {
    images: Storage<T>,
    img_handles: Vec<(String, GpuHandle<T>)>,
}

impl<T: Resource> GraphResources<T> {
    /// The images with their sizes, by position.
    pub closed spec fn images(&self) -> Seq<(T, T::Metadata)> {
        self.images@
    }

    /// The registered names, each with the position of its image, in the
    /// order they were added.
    pub closed spec fn names(&self) -> Seq<(Seq<char>, usize)> {
        self.img_handles@.map_values(|e: (String, GpuHandle<T>)| (e.0@, e.1.index()))
    }

    /// The position of the image registered under `name`, if any.
    pub open spec fn image_index(&self, name: Seq<char>) -> Option<usize> {
        match name_position(self.names(), name) {
            Some(i) => Some(self.names()[i].1),
            None => None,
        }
    }

    pub open spec fn wf(&self) -> bool {
        &&& distinct_names(self.names())
        &&& forall|i: int| 0 <= i < self.names().len() ==> #[trigger] self.names()[i].1 < self.images().len()
    }

    /// No images.
    pub fn new() -> (r: Self)
        ensures
            r.wf(),
            r.images() == Seq::<(T, T::Metadata)>::empty(),
            r.names() == Seq::<(Seq<char>, usize)>::empty(),
    {
        let r = GraphResources { images: Storage::new(), img_handles: Vec::new() };
        assert(r.names() =~= Seq::<(Seq<char>, usize)>::empty());
        r
    }

    /// The position in `img_handles` of the entry named `name`.
    fn find_name(&self, name: &String) -> (r: Option<usize>)
        ensures
            match r {
                Some(i) => i < self.names().len() && self.names()[i as int].0 == name@,
                None => forall|i: int| 0 <= i < self.names().len() ==> self.names()[i].0 != name@,
            },
    {
        let mut i: usize = 0;
        while i < self.img_handles.len()
            invariant
                i <= self.img_handles@.len(),
                forall|k: int| 0 <= k < i ==> self.names()[k].0 != name@,
            decreases self.img_handles@.len() - i,
        {
            if self.img_handles[i].0 == *name {
                return Some(i);
            }
            i = i + 1;
        }
        None
    }

    /// Adds `image` of size `size` under `name`, which no image may have yet,
    /// and returns its handle.
    pub fn add_image(&mut self, name: String, image: T, size: T::Metadata) -> (h: GpuHandle<T>)
        requires
            old(self).wf(),
            old(self).image_index(name@) is None,
        ensures
            final(self).wf(),
            final(self).images() == old(self).images().push((image, size)),
            final(self).names() == old(self).names().push((name@, h.index())),
            h.index() == old(self).images().len(),
    {
        let ghost names0 = self.names();
        let ghost name_view = name@;
        let handle = self.images.add(image, size);
        self.img_handles.push((name, handle));
        proof {
            assert(self.names() =~= names0.push((name_view, handle.index())));
            if exists|i: int| 0 <= i < names0.len() && names0[i].0 == name_view {
                let i = choose|i: int| 0 <= i < names0.len() && names0[i].0 == name_view;
                assert(name_position(names0, name_view) is Some);
            }
            assert forall|i: int| 0 <= i < self.names().len() implies #[trigger] self.names()[i].1 < self.images().len() by {
                if i < names0.len() {
                    assert(self.names()[i] == names0[i]);
                }
            }
        }
        handle
    }

    /// The image the handle names, if it is in range.
    pub fn get_image(&self, handle: &GpuHandle<T>) -> (image: Option<&T>)
        ensures
            image == (if handle.index() < self.images().len() {
                Some(&self.images()[handle.index() as int].0)
            } else {
                None
            }),
    {
        self.images.get(handle)
    }

    /// The image the handle names with its size, if it is in range.
    pub fn get_image_with_size(&self, handle: &GpuHandle<T>) -> (entry: Option<(&T, &T::Metadata)>)
        ensures
            entry == (if handle.index() < self.images().len() {
                Some((&self.images()[handle.index() as int].0, &self.images()[handle.index() as int].1))
            } else {
                None
            }),
    {
        self.images.get_with_metadata(handle)
    }

    /// The handle of the image registered under `name`, if any.
    pub fn get_image_handle(&self, name: &str) -> (h: Option<GpuHandle<T>>)
        requires
            self.wf(),
        ensures
            match h {
                Some(h) => self.image_index(name@) == Some(h.index()),
                None => self.image_index(name@) is None,
            },
    {
        let key = name.to_owned();
        match self.find_name(&key) {
            Some(i) => {
                proof {
                    let names = self.names();
                    assert(names[i as int].0 == name@);
                    let p = name_position(names, name@)->0;
                    assert(names[p].0 == name@);
                    if p != i {
                        if p < i {
                            assert(names[p].0 != names[i as int].0);
                        } else {
                            assert(names[i as int].0 != names[p].0);
                        }
                    }
                }
                let h = self.img_handles[i].1;
                Some(h)
            },
            None => None,
        }
    }

    /// The image registered under `name`, if any.
    pub fn get_image_by_name(&self, name: &str) -> (image: Option<&T>)
        requires
            self.wf(),
        ensures
            image == (match self.image_index(name@) {
                Some(i) => Some(&self.images()[i as int].0),
                None => None,
            }),
    {
        match self.get_image_handle(name) {
            Some(h) => {
                proof {
                    let p = name_position(self.names(), name@)->0;
                    assert(self.names()[p].1 < self.images().len());
                }
                self.get_image(&h)
            },
            None => None,
        }
    }

    /// The registered names with the handles of their images, in the order
    /// the images were added.
    pub fn image_handles(&self) -> (handles: &Vec<(String, GpuHandle<T>)>)
        ensures
            handles@.map_values(|e: (String, GpuHandle<T>)| (e.0@, e.1.index())) == self.names(),
    {
        &self.img_handles
    }
}

/// An image added under a new name is what a look-up of that name finds:
/// the name leads to the new image's position, where the image is.
pub proof fn law_image_found_by_name<T: Resource>(
    before: GraphResources<T>,
    after: GraphResources<T>,
    name: Seq<char>,
    image: T,
    size: T::Metadata,
    index: usize,
)
    requires
        before.wf(),
        before.image_index(name) is None,
        after.images() == before.images().push((image, size)),
        after.names() == before.names().push((name, index)),
        index == before.images().len(),
    ensures
        after.image_index(name) == Some(index),
        after.images()[index as int].0 == image,
{
    let names = before.names();
    let grown = after.names();
    assert(grown[names.len() as int].0 == name);
    let p = name_position(grown, name)->0;
    if p != names.len() {
        assert(grown[p] == names[p]);
        assert(name_position(names, name) is Some);
    }
}

} // verus!
