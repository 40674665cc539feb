//! Inodes: files and directories.
use vstd::prelude::*;

verus! {

pub const NUM_DIRECT_POINTERS: usize = 5;

#[derive(Clone, Copy, Debug, PartialEq, Eq, Structural)]
pub enum FileType {
    RegularFile,
    Directory,
}

#[derive(Debug)]
pub struct Inode {
    pub id: u64,
    pub name: String,
    /// Length of the stored content.
    pub size: u64,
    pub file_type: FileType,
    /// Block references; no operation fills them.
    pub direct_pointers: [Option<u64>; NUM_DIRECT_POINTERS],
    /// The children of a directory, by identifier; `None` for a file.
    pub entries: Option<Vec<u64>>,
    /// The content of a file; `None` until something is written.
    pub data: Option<Vec<u8>>,
}

/// The abstract value of an inode.
pub struct InodeView {
    pub id: u64,
    pub name: Seq<char>,
    pub size: u64,
    pub kind: FileType,
    pub entries: Option<Seq<u64>>,
    pub data: Option<Seq<u8>>,
}

impl InodeView {
    /// Only directories have entries, only files have content, and the size
    /// is the content's length.
    pub open spec fn wf(self) -> bool {
        &&& (self.entries is Some <==> self.kind == FileType::Directory)
        &&& (self.data is Some ==> self.kind == FileType::RegularFile)
        &&& self.size as nat == match self.data {
            Some(d) => d.len(),
            None => 0,
        }
    }

    /// A fresh inode of kind `kind`: empty, and a directory without entries.
    pub open spec fn fresh(id: u64, name: Seq<char>, kind: FileType) -> InodeView {
        InodeView {
            id,
            name,
            size: 0,
            kind,
            entries: if kind == FileType::Directory {
                Some(Seq::empty())
            } else {
                None
            },
            data: None,
        }
    }

    pub open spec fn with_entries(self, entries: Seq<u64>) -> InodeView {
        InodeView {
            id: self.id,
            name: self.name,
            size: self.size,
            kind: self.kind,
            entries: Some(entries),
            data: self.data,
        }
    }

    pub open spec fn with_data(self, data: Option<Seq<u8>>) -> InodeView {
        InodeView {
            id: self.id,
            name: self.name,
            size: match data {
                Some(d) => d.len() as u64,
                None => 0,
            },
            kind: self.kind,
            entries: self.entries,
            data,
        }
    }
}

impl View for Inode {
    type V = InodeView;

    open spec fn view(&self) -> InodeView {
        InodeView {
            id: self.id,
            name: self.name@,
            size: self.size,
            kind: self.file_type,
            entries: match self.entries {
                Some(e) => Some(e@),
                None => None,
            },
            data: match self.data {
                Some(d) => Some(d@),
                None => None,
            },
        }
    }
}

impl Inode {
    /// The abstract value is well formed and no block pointer is set.
    pub open spec fn wf(&self) -> bool {
        &&& self@.wf()
        &&& forall|i: int| 0 <= i < NUM_DIRECT_POINTERS ==> self.direct_pointers@[i] is None
    }

    pub fn new(id: u64, name: &str, kind: FileType) -> (r: Inode)
        ensures
            r@ == InodeView::fresh(id, name@, kind),
            r.wf(),
    {
        let entries = match kind {
            FileType::Directory => Some(Vec::new()),
            FileType::RegularFile => None,
        };
        let r = Inode {
            id,
            name: String::from_str(name),
            size: 0,
            file_type: kind,
            direct_pointers: [None; NUM_DIRECT_POINTERS],
            entries,
            data: None,
        };
        assert(r@.entries is Some ==> r@.entries->0 =~= Seq::<u64>::empty());
        r
    }
}

} // verus!
