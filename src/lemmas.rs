//! Laws of the filesystem's operations, stated over its abstract state.
use vstd::prelude::*;
use crate::fs::{FsView, WriteStatus};
use crate::inode::FileType;
use crate::record::{
    lemma_other_record_kinds, lemma_write_record_kind, record_kind, write_verb, RecordKind,
};

verus! {

/// Creating an inode uses an identifier that no inode had, and the new inode
/// has the given name and kind; the identifier is never handed out again.
pub proof fn lemma_create_is_fresh(v: FsView, name: Seq<char>, kind: FileType)
    requires
        v.wf(),
        v.next_id < u64::MAX,
    ensures
        !v.inodes.contains_key(v.next_id),
        v.create(name, kind).inodes.contains_key(v.next_id),
        v.create(name, kind).inodes[v.next_id].name == name,
        v.create(name, kind).inodes[v.next_id].kind == kind,
        v.create(name, kind).next_id > v.next_id,
        v.create(name, kind).wf(),
{
    let w = v.create(name, kind);
    assert forall|k: u64| #[trigger] w.inodes.contains_key(k) implies 1 <= k < w.next_id
        && w.inodes[k].id == k && w.inodes[k].wf() by {
        if k != v.next_id {
            assert(v.inodes.contains_key(k));
        }
    }
}

/// A read after a write returns exactly the bytes written, the size is their
/// length, and a second write replaces the first.
pub proof fn lemma_write_then_read(v: FsView, id: u64, b: Seq<u8>, b2: Seq<u8>)
    requires
        v.is_file(id),
        b.len() <= u64::MAX,
        b2.len() <= u64::MAX,
    ensures
        v.write(id, b).read(id) == b,
        v.write(id, b).inodes[id].size == b.len(),
        v.write(id, b).write(id, b2).read(id) == b2,
        v.write(id, b).write(id, b2).inodes[id].size == b2.len(),
{
    assert(v.write(id, b).is_file(id));
}

/// A write to a directory changes nothing and reports the directory.
pub proof fn lemma_write_to_directory(v: FsView, id: u64, b: Seq<u8>)
    requires
        v.is_directory(id),
    ensures
        v.write(id, b) == v,
        v.write_status(id) == WriteStatus::IsDirectory,
{
}

/// Linking into a directory appends the file to its entries and to nothing
/// else; linking into anything else leaves every inode unchanged.
pub proof fn lemma_add_to_directory(v: FsView, f: u64, d: u64)
    requires
        v.wf(),
    ensures
        v.is_directory(d) ==> {
            let e = v.add_to_directory(f, d).inodes[d].entries->0;
            &&& e == v.inodes[d].entries->0.push(f)
            &&& e.len() == v.inodes[d].entries->0.len() + 1
            &&& e.last() == f
        },
        v.is_directory(d) ==> forall|k: u64|
            k != d && v.inodes.contains_key(k) ==> #[trigger] v.add_to_directory(f, d).inodes[k]
                == v.inodes[k],
        !v.is_directory(d) ==> v.add_to_directory(f, d).inodes == v.inodes,
{
}

/// Each operation that changes the filesystem adds exactly one record; one
/// that does nothing adds none.
pub proof fn lemma_journal_growth(
    v: FsView,
    name: Seq<char>,
    kind: FileType,
    f: u64,
    d: u64,
    id: u64,
    b: Seq<u8>,
)
    ensures
        v.create(name, kind).journal.len() == v.journal.len() + 1,
        v.add_to_directory(f, d).journal.len() == v.journal.len() + if v.is_directory(d) {
            1int
        } else {
            0int
        },
        v.write(id, b).journal.len() == v.journal.len() + if v.is_file(id) {
            1int
        } else {
            0int
        },
{
}

/// Undoing right after a write clears that file's content and size, whatever
/// was written, and takes the journal back to what it was.
pub proof fn lemma_undo_after_write(v: FsView, id: u64, b: Seq<u8>)
    requires
        v.is_file(id),
    ensures
        record_kind(v.write(id, b).journal.last()) == RecordKind::WriteTo(Some(id)),
        v.write(id, b).undo().inodes[id].data is None,
        v.write(id, b).undo().inodes[id].size == 0,
        v.write(id, b).undo().journal == v.journal,
{
    lemma_write_record_kind(id);
    assert(v.write(id, b).journal.last() == crate::record::write_record(id));
    assert(v.write(id, b).journal.drop_last() =~= v.journal);
}

/// Undoing right after a creation or a link reverses nothing: the record is
/// one that cannot be undone, it is dropped, and the inodes stay as the
/// operation left them.
pub proof fn lemma_undo_after_create_or_link(v: FsView, name: Seq<char>, kind: FileType, f: u64, d: u64)
    ensures
        ({
            let w = v.create(name, kind);
            &&& record_kind(w.journal.last()) is Other
            &&& (record_kind(w.journal.last())->Other_0) != write_verb()
            &&& w.undo() == (FsView { next_id: w.next_id, inodes: w.inodes, journal: v.journal })
        }),
        v.is_directory(d) ==> ({
            let w = v.add_to_directory(f, d);
            &&& record_kind(w.journal.last()) == RecordKind::Other("ADD FILE"@)
            &&& "ADD FILE"@ != write_verb()
            &&& w.undo() == (FsView { next_id: w.next_id, inodes: w.inodes, journal: v.journal })
        }),
{
    lemma_other_record_kinds(name, f, d);
    let w = v.create(name, kind);
    assert(w.journal.drop_last() =~= v.journal);
    if v.is_directory(d) {
        let w2 = v.add_to_directory(f, d);
        assert(w2.journal.drop_last() =~= v.journal);
    }
}

} // verus!
