use vstd::prelude::*;

verus! {

/// An opaque pointer into the file registry: a file slot and a version.
#[derive(Debug, Clone, Copy, PartialEq, Eq, Structural)]
pub struct FilePtr {
    pub file: u16,
    pub version: u16,
}

impl DeepView for FilePtr {
    type V = FilePtr;

    open spec fn deep_view(&self) -> FilePtr {
        *self
    }
}

/// One stored file: its name and its body text.
#[derive(Debug)]
pub struct StoredFile {
    pub name: String,
    pub body: String,
}

/// The mathematical model of a `StoredFile`.
pub struct StoredFileV {
    pub name: Seq<char>,
    pub body: Seq<char>,
}

impl DeepView for StoredFile {
    type V = StoredFileV;

    open spec fn deep_view(&self) -> StoredFileV {
        StoredFileV { name: self.name@, body: self.body@ }
    }
}

impl Clone for StoredFile {
    fn clone(&self) -> (r: Self)
        ensures
            r == *self,
    {
        StoredFile { name: self.name.clone(), body: self.body.clone() }
    }
}

/// The registry resolving file pointers to in-memory files. It is owned by
/// the surrounding matcher; evaluation only reads it. `files[f][v]` is
/// version `v` of file slot `f`.
#[derive(Debug)]
pub struct FileRegistry {
    pub files: Vec<Vec<StoredFile>>,
}

impl DeepView for FileRegistry {
    type V = Seq<Seq<StoredFileV>>;

    open spec fn deep_view(&self) -> Seq<Seq<StoredFileV>> {
        self.files.deep_view()
    }
}

/// Whether a file pointer points at a stored file. Pointer validity is an
/// invariant of the registry's owner, not a runtime check.
pub open spec fn ptr_valid(p: FilePtr, files: Seq<Seq<StoredFileV>>) -> bool {
    p.file < files.len() && p.version < files[p.file as int].len()
}

impl FileRegistry {
    /// An empty registry.
    pub fn new() -> (r: Self)
        ensures
            r.deep_view() == Seq::<Seq<StoredFileV>>::empty(),
    {
        FileRegistry { files: Vec::new() }
    }

    /// Looks a pointer up in the registry.
    pub fn get(&self, p: FilePtr) -> (r: &StoredFile)
        requires
            ptr_valid(p, self.deep_view()),
        ensures
            r.deep_view() == self.deep_view()[p.file as int][p.version as int],
    {
        &self.files[p.file as usize][p.version as usize]
    }
}

} // verus!
