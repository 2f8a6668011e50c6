//! One slot of the directory table.

use vstd::prelude::*;
use crate::name::NAME_CAPACITY;

verus! {

/// Number of child links each folder has.
pub const MAX_CHILDREN: usize = 10;

/// One slot of the directory table.
///
/// `parent` and each entry of `children` are slot indices; a negative value
/// stands for "none" (no parent, or a free child link).
#[derive(Copy, Clone)]
pub struct Folder {
    pub exist: bool,
    pub parent: i32,
    pub children: [i32; MAX_CHILDREN],
    pub name: [u8; NAME_CAPACITY],
}

/// A folder slot that holds nothing: not in use, no parent, no children,
/// an all-zero name.
pub open spec fn is_vacant(f: Folder) -> bool {
    &&& !f.exist
    &&& f.parent == -1
    &&& forall|j: int| 0 <= j < MAX_CHILDREN ==> f.children@[j] == -1
    &&& forall|j: int| 0 <= j < NAME_CAPACITY ==> f.name@[j] == 0
}

impl Folder {
    /// A free slot.
    pub fn vacant() -> (r: Folder)
        ensures
            is_vacant(r),
    {
        Folder {
            exist: false,
            parent: -1,
            children: [-1i32; MAX_CHILDREN],
            name: [0u8; NAME_CAPACITY],
        }
    }

    /// Marks the slot as in use or free.
    pub fn set_exist(&mut self, value: bool)
        ensures
            final(self).exist == value,
            final(self).parent == old(self).parent,
            final(self).children == old(self).children,
            final(self).name == old(self).name,
    {
        self.exist = value;
    }

    /// Sets the parent link.
    pub fn set_parent(&mut self, value: i32)
        ensures
            final(self).parent == value,
            final(self).exist == old(self).exist,
            final(self).children == old(self).children,
            final(self).name == old(self).name,
    {
        self.parent = value;
    }

    /// Sets the name buffer.
    pub fn set_name(&mut self, value: [u8; NAME_CAPACITY])
        ensures
            final(self).name == value,
            final(self).exist == old(self).exist,
            final(self).parent == old(self).parent,
            final(self).children == old(self).children,
    {
        self.name = value;
    }
}

} // verus!
