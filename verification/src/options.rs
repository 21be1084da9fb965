use vstd::prelude::*;

verus! {

/// How a file is to be opened: the access and creation flags shared by the
/// backends' option builders.
#[derive(Debug, Clone, Copy, PartialEq, Eq, Structural)]
pub struct OpenFlags {
    pub read: bool,
    pub write: bool,
    pub append: bool,
    pub truncate: bool,
    pub create: bool,
    pub create_new: bool,
}

impl OpenFlags {
    /// All flags off.
    pub fn new() -> (f: OpenFlags)
        ensures
            f == OpenFlags::spec_new(),
            !f.read && !f.write && !f.append,
            !f.truncate && !f.create && !f.create_new,
    {
        OpenFlags { read: false, write: false, append: false, truncate: false, create: false, create_new: false }
    }

    /// Sets read access.
    pub fn read(&mut self, read: bool) -> (r: &mut OpenFlags)
        ensures
            *r == (OpenFlags { read, ..*old(self) }),
            *final(self) == *final(r),
    {
        self.read = read;
        self
    }

    /// Sets write access.
    pub fn write(&mut self, write: bool) -> (r: &mut OpenFlags)
        ensures
            *r == (OpenFlags { write, ..*old(self) }),
            *final(self) == *final(r),
    {
        self.write = write;
        self
    }

    /// Sets append mode.
    pub fn append(&mut self, append: bool) -> (r: &mut OpenFlags)
        ensures
            *r == (OpenFlags { append, ..*old(self) }),
            *final(self) == *final(r),
    {
        self.append = append;
        self
    }

    /// Sets truncate-on-open.
    pub fn truncate(&mut self, truncate: bool) -> (r: &mut OpenFlags)
        ensures
            *r == (OpenFlags { truncate, ..*old(self) }),
            *final(self) == *final(r),
    {
        self.truncate = truncate;
        self
    }

    /// Sets create-if-missing.
    pub fn create(&mut self, create: bool) -> (r: &mut OpenFlags)
        ensures
            *r == (OpenFlags { create, ..*old(self) }),
            *final(self) == *final(r),
    {
        self.create = create;
        self
    }

    /// Sets create-new (fail when the file exists).
    pub fn create_new(&mut self, create_new: bool) -> (r: &mut OpenFlags)
        ensures
            *r == (OpenFlags { create_new, ..*old(self) }),
            *final(self) == *final(r),
    {
        self.create_new = create_new;
        self
    }
}

impl Default for OpenFlags {
    fn default() -> (f: OpenFlags)
        ensures
            f == OpenFlags::spec_new(),
            !f.read && !f.write && !f.append,
            !f.truncate && !f.create && !f.create_new,
    {
        OpenFlags::new()
    }
}

impl OpenFlags {
    /// All flags off.
    pub open spec fn spec_new() -> OpenFlags {
        OpenFlags { read: false, write: false, append: false, truncate: false, create: false, create_new: false }
    }
}

/// Fresh flags have every flag off: no read or write access, no append, no
/// truncation and no creation; a builder turns on only what it is told to.
pub proof fn lemma_fresh_flags_are_all_off()
    ensures
        !OpenFlags::spec_new().read,
        !OpenFlags::spec_new().write,
        !OpenFlags::spec_new().append,
        !OpenFlags::spec_new().truncate,
        !OpenFlags::spec_new().create,
        !OpenFlags::spec_new().create_new,
{
}

} // verus!
