//! The journal: an ordered log of operation records, popped from the end.
use vstd::prelude::*;
use crate::text::{decimal, decimal_text};

verus! {

/// One logged operation: its textual record, and whether it was committed.
pub struct JournalEntry {
    pub operation: String,
    pub committed: bool,
}

pub struct Journal {
    pub entries: Vec<JournalEntry>,
}

/// The text of a boolean, as listings show it.
pub open spec fn bool_text(b: bool) -> Seq<char> {
    if b {
        "true"@
    } else {
        "false"@
    }
}

/// Line `index` (counted from 1) of a journal listing.
pub open spec fn entry_line(index: nat, operation: Seq<char>, committed: bool) -> Seq<char> {
    decimal(index) + ". "@ + operation + " [Committed: "@ + bool_text(committed) + "]"@
}

impl View for Journal {
    type V = Seq<Seq<char>>;

    /// The logged records, oldest first.
    open spec fn view(&self) -> Seq<Seq<char>> {
        self.entries@.map_values(|e: JournalEntry| e.operation@)
    }
}

impl Journal {
    /// Every entry is marked committed.
    pub open spec fn wf(&self) -> bool {
        forall|i: int| 0 <= i < self.entries@.len() ==> (#[trigger] self.entries@[i]).committed
    }

    pub fn new() -> (r: Journal)
        ensures
            r@ == Seq::<Seq<char>>::empty(),
            r.wf(),
    {
        let r = Journal { entries: Vec::new() };
        assert(r@ =~= Seq::<Seq<char>>::empty());
        r
    }

    /// Appends a committed entry holding `operation`.
    pub fn log(&mut self, operation: String)
        requires
            old(self).wf(),
        ensures
            final(self)@ == old(self)@.push(operation@),
            final(self).wf(),
    {
        self.entries.push(JournalEntry { operation, committed: true });
        assert(self@ =~= old(self)@.push(operation@));
    }

    /// Removes the newest entry and returns its record; `None` when the
    /// journal is empty.
    pub fn undo(&mut self) -> (r: Option<String>)
        requires
            old(self).wf(),
        ensures
            final(self).wf(),
            old(self)@.len() == 0 ==> r is None && final(self)@ == old(self)@,
            old(self)@.len() > 0 ==> r is Some && r->0@ == old(self)@.last() && final(self)@
                == old(self)@.drop_last(),
    {
        match self.entries.pop() {
            Some(entry) => {
                assert(self@ =~= old(self)@.drop_last());
                Some(entry.operation)
            },
            None => None,
        }
    }

    /// The listing of the journal, one line per entry, oldest first.
    pub fn listing(&self) -> (r: Vec<String>)
        requires
            self.entries@.len() < u64::MAX,
        ensures
            r@.len() == self.entries@.len(),
            forall|i: int|
                0 <= i < r@.len() ==> (#[trigger] r@[i])@ == entry_line(
                    (i + 1) as nat,
                    self.entries@[i].operation@,
                    self.entries@[i].committed,
                ),
    {
        let mut lines: Vec<String> = Vec::new();
        let mut i: usize = 0;
        while i < self.entries.len()
            invariant
                i <= self.entries@.len() < u64::MAX,
                lines@.len() == i,
                forall|k: int|
                    0 <= k < i ==> (#[trigger] lines@[k])@ == entry_line(
                        (k + 1) as nat,
                        self.entries@[k].operation@,
                        self.entries@[k].committed,
                    ),
            decreases self.entries@.len() - i,
        {
            let entry = &self.entries[i];
            let mut line = decimal_text((i + 1) as u64);
            line.append(". ");
            line.append(entry.operation.as_str());
            line.append(" [Committed: ");
            if entry.committed {
                line.append("true");
            } else {
                line.append("false");
            }
            line.append("]");
            lines.push(line);
            i = i + 1;
        }
        lines
    }
}

} // verus!
