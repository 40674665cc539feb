//! The filesystem: the inode table, the identifier counter and the journal.
use vstd::prelude::*;
use std::collections::HashMap;
use crate::inode::{FileType, Inode, InodeView};
use crate::text::{decimal, decimal_text};
use crate::journal::Journal;
use crate::record::{
    directory_record, file_record, link_record, make_directory_record, make_file_record,
    make_link_record, make_write_record, read_record, record_kind, write_record, ParsedRecord,
    RecordKind,
};

verus! {

broadcast use vstd::std_specs::hash::group_hash_axioms;

/// The abstract state of a filesystem.
pub struct FsView {
    pub next_id: u64,
    pub inodes: Map<u64, InodeView>,
    pub journal: Seq<Seq<char>>,
}

/// What became of a write.
#[derive(Clone, Copy, Debug, PartialEq, Eq, Structural)]
pub enum WriteStatus {
    Written,
    /// The identifier names a directory: nothing was changed.
    IsDirectory,
    /// The identifier names no inode: nothing was changed.
    NotFound,
}

/// What an undo did.
#[derive(Debug)]
pub enum UndoOutcome {
    /// The journal was empty.
    NothingToUndo,
    /// The record had fewer than two fields; it is dropped.
    InvalidEntry { entry: String },
    /// The content of the file was cleared.
    UndidWrite { file_id: u64 },
    /// A write record whose identifier is unreadable or names no inode; it
    /// is dropped.
    WriteNotReversed,
    /// An operation that cannot be reversed; its record is dropped.
    NotImplemented { operation: String },
}

impl FsView {
    /// Identifiers are below the counter, each inode is stored under its own
    /// identifier, and each is well formed.
    pub open spec fn wf(self) -> bool {
        &&& self.next_id >= 1
        &&& forall|k: u64|
            #[trigger] self.inodes.contains_key(k) ==> 1 <= k < self.next_id
                && self.inodes[k].id == k && self.inodes[k].wf()
    }

    pub open spec fn is_directory(self, id: u64) -> bool {
        self.inodes.contains_key(id) && self.inodes[id].kind == FileType::Directory
    }

    pub open spec fn is_file(self, id: u64) -> bool {
        self.inodes.contains_key(id) && self.inodes[id].kind == FileType::RegularFile
    }

    /// A new inode under the next identifier, and its record.
    pub open spec fn create(self, name: Seq<char>, kind: FileType) -> FsView {
        let id = self.next_id;
        FsView {
            next_id: (id + 1) as u64,
            inodes: self.inodes.insert(id, InodeView::fresh(id, name, kind)),
            journal: self.journal.push(
                if kind == FileType::Directory {
                    directory_record(name)
                } else {
                    file_record(name)
                },
            ),
        }
    }

    /// `file_id` appended to the entries of directory `dir_id`; no change
    /// when `dir_id` names no directory.
    pub open spec fn add_to_directory(self, file_id: u64, dir_id: u64) -> FsView {
        if self.is_directory(dir_id) {
            let d = self.inodes[dir_id];
            FsView {
                next_id: self.next_id,
                inodes: self.inodes.insert(dir_id, d.with_entries(d.entries->0.push(file_id))),
                journal: self.journal.push(link_record(file_id, dir_id)),
            }
        } else {
            self
        }
    }

    /// The content of file `file_id` replaced by `bytes`; no change when
    /// `file_id` names no file.
    pub open spec fn write(self, file_id: u64, bytes: Seq<u8>) -> FsView {
        if self.is_file(file_id) {
            FsView {
                next_id: self.next_id,
                inodes: self.inodes.insert(
                    file_id,
                    self.inodes[file_id].with_data(Some(bytes)),
                ),
                journal: self.journal.push(write_record(file_id)),
            }
        } else {
            self
        }
    }

    pub open spec fn write_status(self, file_id: u64) -> WriteStatus {
        if !self.inodes.contains_key(file_id) {
            WriteStatus::NotFound
        } else if self.inodes[file_id].kind == FileType::RegularFile {
            WriteStatus::Written
        } else {
            WriteStatus::IsDirectory
        }
    }

    /// The content of `file_id`, empty when there is none.
    pub open spec fn read(self, file_id: u64) -> Seq<u8> {
        if self.inodes.contains_key(file_id) && self.inodes[file_id].data is Some {
            self.inodes[file_id].data->0
        } else {
            Seq::empty()
        }
    }

    /// The newest record dropped; when it is a write of an existing inode,
    /// that inode's content cleared.
    pub open spec fn undo(self) -> FsView {
        if self.journal.len() == 0 {
            self
        } else {
            let popped = FsView {
                next_id: self.next_id,
                inodes: self.inodes,
                journal: self.journal.drop_last(),
            };
            match record_kind(self.journal.last()) {
                RecordKind::WriteTo(Some(id)) => if self.inodes.contains_key(id) {
                    FsView {
                        next_id: self.next_id,
                        inodes: self.inodes.insert(id, self.inodes[id].with_data(None)),
                        journal: self.journal.drop_last(),
                    }
                } else {
                    popped
                },
                _ => popped,
            }
        }
    }
}

/// The heading of a directory in a listing.
pub open spec fn directory_line(d: InodeView) -> Seq<char> {
    "Directory "@ + d.name + " (ID: "@ + decimal(d.id as nat) + "):"@
}

/// The line of a directory's member in a listing.
pub open spec fn member_line(m: InodeView) -> Seq<char> {
    "- File "@ + m.name + " (ID: "@ + decimal(m.id as nat) + ", Size: "@ + decimal(
        m.size as nat,
    ) + " bytes)"@
}

/// The member lines for `entries`, skipping identifiers that name no inode.
pub open spec fn member_lines(v: FsView, entries: Seq<u64>) -> Seq<Seq<char>>
    decreases entries.len(),
{
    if entries.len() == 0 {
        Seq::empty()
    } else {
        member_lines(v, entries.drop_last()) + if v.inodes.contains_key(entries.last()) {
            seq![member_line(v.inodes[entries.last()])]
        } else {
            Seq::empty()
        }
    }
}

/// The lines for identifier `id`: a heading and its members when it names a
/// directory, nothing otherwise.
pub open spec fn directory_block(v: FsView, id: u64) -> Seq<Seq<char>> {
    if v.is_directory(id) {
        seq![directory_line(v.inodes[id])] + match v.inodes[id].entries {
            Some(es) => member_lines(v, es),
            None => Seq::empty(),
        }
    } else {
        Seq::empty()
    }
}

/// The blocks of the identifiers below `n`, in increasing order.
pub open spec fn listing_below(v: FsView, n: nat) -> Seq<Seq<char>>
    decreases n,
{
    if n == 0 {
        Seq::empty()
    } else {
        listing_below(v, (n - 1) as nat) + directory_block(v, (n - 1) as u64)
    }
}

pub open spec fn texts(lines: Seq<String>) -> Seq<Seq<char>> {
    lines.map_values(|l: String| l@)
}

fn directory_line_text(d: &Inode) -> (r: String)
    ensures
        r@ == directory_line(d@),
{
    let mut r = String::from_str("Directory ");
    r.append(d.name.as_str());
    r.append(" (ID: ");
    let id = decimal_text(d.id);
    r.append(id.as_str());
    r.append("):");
    r
}

fn member_line_text(m: &Inode) -> (r: String)
    ensures
        r@ == member_line(m@),
{
    let mut r = String::from_str("- File ");
    r.append(m.name.as_str());
    r.append(" (ID: ");
    let id = decimal_text(m.id);
    r.append(id.as_str());
    r.append(", Size: ");
    let size = decimal_text(m.size);
    r.append(size.as_str());
    r.append(" bytes)");
    r
}

impl UndoOutcome {
    /// This outcome is the one that an undo from state `v` reports.
    pub open spec fn reports(&self, v: FsView) -> bool {
        let last = v.journal.last();
        match self {
            UndoOutcome::NothingToUndo => v.journal.len() == 0,
            UndoOutcome::InvalidEntry { entry } => {
                &&& v.journal.len() > 0
                &&& record_kind(last) is Malformed
                &&& entry@ == last
            },
            UndoOutcome::UndidWrite { file_id } => {
                &&& v.journal.len() > 0
                &&& record_kind(last) == RecordKind::WriteTo(Some(*file_id))
                &&& v.inodes.contains_key(*file_id)
            },
            UndoOutcome::WriteNotReversed => {
                &&& v.journal.len() > 0
                &&& match record_kind(last) {
                    RecordKind::WriteTo(t) => t is None || !v.inodes.contains_key(t->0),
                    _ => false,
                }
            },
            UndoOutcome::NotImplemented { operation } => {
                &&& v.journal.len() > 0
                &&& record_kind(last) == RecordKind::Other(operation@)
            },
        }
    }
}

pub struct FileSystem {
    pub next_id: u64,
    pub inodes: HashMap<u64, Inode>,
    pub journal: Journal,
}

impl View for FileSystem {
    type V = FsView;

    open spec fn view(&self) -> FsView {
        FsView {
            next_id: self.next_id,
            inodes: self.inodes@.map_values(|i: Inode| i@),
            journal: self.journal@,
        }
    }
}

impl FileSystem {
    pub open spec fn wf(&self) -> bool {
        &&& self@.wf()
        &&& self.journal.wf()
        &&& forall|k: u64| #[trigger] self.inodes@.contains_key(k) ==> self.inodes@[k].wf()
    }

    pub fn new() -> (r: FileSystem)
        ensures
            r.wf(),
            r@ == (FsView { next_id: 1, inodes: Map::empty(), journal: Seq::empty() }),
    {
        let r = FileSystem { next_id: 1, inodes: HashMap::new(), journal: Journal::new() };
        assert(r@.inodes =~= Map::<u64, InodeView>::empty());
        r
    }

    fn create(&mut self, name: &str, kind: FileType) -> (r: u64)
        requires
            old(self).wf(),
            old(self).next_id < u64::MAX,
        ensures
            final(self).wf(),
            r == old(self).next_id,
            !old(self)@.inodes.contains_key(r),
            final(self)@ == old(self)@.create(name@, kind),
    {
        let id = self.next_id;
        self.next_id = id + 1;
        let inode = Inode::new(id, name, kind);
        self.inodes.insert(id, inode);
        let record = match kind {
            FileType::Directory => make_directory_record(name),
            FileType::RegularFile => make_file_record(name),
        };
        self.journal.log(record);
        assert(self@.inodes =~= old(self)@.inodes.insert(id, InodeView::fresh(id, name@, kind)));
        id
    }

    /// Creates an empty directory named `name` under a fresh identifier.
    pub fn create_directory(&mut self, name: &str) -> (r: u64)
        requires
            old(self).wf(),
            old(self).next_id < u64::MAX,
        ensures
            final(self).wf(),
            r == old(self).next_id,
            !old(self)@.inodes.contains_key(r),
            final(self)@ == old(self)@.create(name@, FileType::Directory),
    {
        self.create(name, FileType::Directory)
    }

    /// Creates a file named `name`, with no content, under a fresh identifier.
    pub fn create_file(&mut self, name: &str) -> (r: u64)
        requires
            old(self).wf(),
            old(self).next_id < u64::MAX,
        ensures
            final(self).wf(),
            r == old(self).next_id,
            !old(self)@.inodes.contains_key(r),
            final(self)@ == old(self)@.create(name@, FileType::RegularFile),
    {
        self.create(name, FileType::RegularFile)
    }

    /// Appends `file_id` to the entries of directory `dir_id` and logs it;
    /// does nothing when `dir_id` names no directory.
    pub fn add_file_to_directory(&mut self, file_id: u64, dir_id: u64)
        requires
            old(self).wf(),
        ensures
            final(self).wf(),
            final(self)@ == old(self)@.add_to_directory(file_id, dir_id),
    {
        match self.inodes.remove(&dir_id) {
            Some(mut dir) => {
                let ghost d = dir@;
                match dir.entries {
                    Some(mut entries) => {
                        entries.push(file_id);
                        dir.entries = Some(entries);
                        self.inodes.insert(dir_id, dir);
                        self.journal.log(make_link_record(file_id, dir_id));
                        assert(self@.inodes =~= old(self)@.inodes.insert(
                            dir_id,
                            d.with_entries(d.entries->0.push(file_id)),
                        ));
                    },
                    None => {
                        dir.entries = None;
                        self.inodes.insert(dir_id, dir);
                        assert(self@.inodes =~= old(self)@.inodes);
                    },
                }
            },
            None => {
                assert(self@.inodes =~= old(self)@.inodes);
            },
        }
    }

    /// Replaces the content of file `file_id` by `data` and logs it. A
    /// directory or an unknown identifier is left alone, and the status says
    /// which.
    pub fn write_to_file(&mut self, file_id: u64, data: &[u8]) -> (r: WriteStatus)
        requires
            old(self).wf(),
        ensures
            final(self).wf(),
            final(self)@ == old(self)@.write(file_id, data@),
            r == old(self)@.write_status(file_id),
    {
        match self.inodes.remove(&file_id) {
            Some(mut file) => {
                let ghost f = file@;
                match file.file_type {
                    FileType::RegularFile => {
                        file.size = data.len() as u64;
                        file.data = Some(vstd::slice::slice_to_vec(data));
                        self.inodes.insert(file_id, file);
                        self.journal.log(make_write_record(file_id));
                        assert(self@.inodes =~= old(self)@.inodes.insert(
                            file_id,
                            f.with_data(Some(data@)),
                        ));
                        WriteStatus::Written
                    },
                    FileType::Directory => {
                        self.inodes.insert(file_id, file);
                        assert(self@.inodes =~= old(self)@.inodes);
                        WriteStatus::IsDirectory
                    },
                }
            },
            None => {
                assert(self@.inodes =~= old(self)@.inodes);
                WriteStatus::NotFound
            },
        }
    }

    /// The content of `file_id`; empty for a directory, an unknown
    /// identifier, or a file not yet written.
    pub fn read_file(&self, file_id: u64) -> (r: Vec<u8>)
        ensures
            r@ == self@.read(file_id),
    {
        match self.inodes.get(&file_id) {
            Some(file) => match &file.data {
                Some(d) => vstd::slice::slice_to_vec(d.as_slice()),
                None => Vec::new(),
            },
            None => Vec::new(),
        }
    }

    /// Pops the newest journal record and, when it is a write of an existing
    /// inode, clears that inode's content. Other records are dropped without
    /// their effect being reversed.
    pub fn undo_last_operation(&mut self) -> (r: UndoOutcome)
        requires
            old(self).wf(),
        ensures
            final(self).wf(),
            final(self)@ == old(self)@.undo(),
            r.reports(old(self)@),
    {
        match self.journal.undo() {
            None => UndoOutcome::NothingToUndo,
            Some(operation) => {
                match read_record(operation.as_str()) {
                    ParsedRecord::Malformed => UndoOutcome::InvalidEntry { entry: operation },
                    ParsedRecord::WriteTo(Some(id)) => {
                        match self.inodes.remove(&id) {
                            Some(mut file) => {
                                let ghost f = file@;
                                file.data = None;
                                file.size = 0;
                                self.inodes.insert(id, file);
                                assert(self@.inodes =~= old(self)@.inodes.insert(
                                    id,
                                    f.with_data(None),
                                ));
                                UndoOutcome::UndidWrite { file_id: id }
                            },
                            None => {
                                assert(self@.inodes =~= old(self)@.inodes);
                                UndoOutcome::WriteNotReversed
                            },
                        }
                    },
                    ParsedRecord::WriteTo(None) => UndoOutcome::WriteNotReversed,
                    ParsedRecord::Other(verb) => UndoOutcome::NotImplemented { operation: verb },
                }
            },
        }
    }

    /// The listing of every directory, by increasing identifier: a heading,
    /// then a line for each entry that names an inode, in entry order.
    pub fn list_directories_and_files(&self) -> (r: Vec<String>)
        ensures
            texts(r@) == listing_below(self@, self.next_id as nat),
    {
        let mut lines: Vec<String> = Vec::new();
        let mut id: u64 = 0;
        assert(texts(lines@) =~= listing_below(self@, 0));
        while id < self.next_id
            invariant
                id <= self.next_id,
                texts(lines@) == listing_below(self@, id as nat),
            decreases self.next_id - id,
        {
            let ghost before = texts(lines@);
            match self.inodes.get(&id) {
                Some(inode) => {
                    match inode.file_type {
                        FileType::Directory => {
                            lines.push(directory_line_text(inode));
                            assert(texts(lines@) =~= before.push(directory_line(inode@)));
                            match &inode.entries {
                                Some(es) => {
                                    let mut j: usize = 0;
                                    while j < es.len()
                                        invariant
                                            j <= es@.len(),
                                            texts(lines@) == before + seq![directory_line(inode@)]
                                                + member_lines(self@, es@.subrange(0, j as int)),
                                        decreases es@.len() - j,
                                    {
                                        let ghost mid = texts(lines@);
                                        let e = es[j];
                                        assert(es@.subrange(0, j + 1).drop_last() =~= es@.subrange(
                                            0,
                                            j as int,
                                        ));
                                        match self.inodes.get(&e) {
                                            Some(m) => {
                                                lines.push(member_line_text(m));
                                                assert(texts(lines@) =~= mid.push(member_line(m@)));
                                            },
                                            None => {},
                                        }
                                        j = j + 1;
                                    }
                                    assert(es@.subrange(0, j as int) =~= es@);
                                },
                                None => {
                                    assert(texts(lines@) =~= before + seq![directory_line(inode@)]
                                        + Seq::<Seq<char>>::empty());
                                },
                            }
                        },
                        FileType::RegularFile => {},
                    }
                },
                None => {},
            }
            assert(texts(lines@) =~= listing_below(self@, id as nat) + directory_block(self@, id));
            id = id + 1;
        }
        lines
    }
}

} // verus!
