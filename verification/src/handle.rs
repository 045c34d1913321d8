use vstd::prelude::*;

verus! {

/// Something a process holds open: it has an id and an owner.
pub trait Handle {
    /// The handle's id.
    fn id(&self) -> usize;

    /// The process that owns the handle.
    fn owner(&self) -> usize;
}

/// A handle on an open file.
pub struct FileHandle {
    id: usize,
    owner: usize,
    path: String,
}

impl FileHandle {
    pub closed spec fn spec_id(&self) -> usize {
        self.id
    }

    pub closed spec fn spec_owner(&self) -> usize {
        self.owner
    }

    pub closed spec fn spec_path(&self) -> Seq<char> {
        self.path@
    }

    /// A handle with id `id` on the file at `path`, owned by `owner`.
    pub fn new(id: usize, owner: usize, path: String) -> (h: FileHandle)
        ensures
            h.spec_id() == id,
            h.spec_owner() == owner,
            h.spec_path() == path@,
    {
        FileHandle { id, owner, path }
    }

    /// The path of the file.
    pub fn path(&self) -> (p: &String)
        ensures
            p@ == self.spec_path(),
    {
        &self.path
    }
}

impl Handle for FileHandle {
    fn id(&self) -> (r: usize)
        ensures
            r == self.spec_id(),
    {
        self.id
    }

    fn owner(&self) -> (r: usize)
        ensures
            r == self.spec_owner(),
    {
        self.owner
    }
}

} // verus!
