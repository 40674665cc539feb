//! The records that filesystem operations leave in the journal, and how a
//! record is read back when it is undone.
use vstd::prelude::*;
use crate::text::{
    decimal, decimal_text, field_bounds, is_space, lemma_decimal_reads_back, lemma_parse_decimal,
    lemma_record_fields, parse_decimal, parse_u64, record_fields,
};

verus! {

pub open spec fn write_verb() -> Seq<char> {
    "WRITE TO FILE"@
}

pub open spec fn directory_record(name: Seq<char>) -> Seq<char> {
    "CREATE DIRECTORY: "@ + name
}

pub open spec fn file_record(name: Seq<char>) -> Seq<char> {
    "CREATE FILE: "@ + name
}

pub open spec fn link_record(file_id: u64, dir_id: u64) -> Seq<char> {
    "ADD FILE: "@ + decimal(file_id as nat) + " TO DIRECTORY: "@ + decimal(dir_id as nat)
}

pub open spec fn write_record(file_id: u64) -> Seq<char> {
    "WRITE TO FILE: "@ + decimal(file_id as nat)
}

/// What a record says to an undo.
pub enum RecordKind {
    /// Fewer than two fields.
    Malformed,
    /// A file write, with the identifier if the second field is one.
    WriteTo(Option<u64>),
    /// Any other operation, named by its first field.
    Other(Seq<char>),
}

pub open spec fn record_kind(s: Seq<char>) -> RecordKind {
    match record_fields(s) {
        None => RecordKind::Malformed,
        Some((verb, arg)) => if verb == write_verb() {
            RecordKind::WriteTo(parse_u64(arg))
        } else {
            RecordKind::Other(verb)
        },
    }
}

/// A record as read back: `RecordKind` with the verb held as a `String`.
#[derive(Debug)]
pub enum ParsedRecord {
    Malformed,
    WriteTo(Option<u64>),
    Other(String),
}

impl View for ParsedRecord {
    type V = RecordKind;

    open spec fn view(&self) -> RecordKind {
        match self {
            ParsedRecord::Malformed => RecordKind::Malformed,
            ParsedRecord::WriteTo(t) => RecordKind::WriteTo(*t),
            ParsedRecord::Other(verb) => RecordKind::Other(verb@),
        }
    }
}

pub fn make_directory_record(name: &str) -> (r: String)
    ensures
        r@ == directory_record(name@),
{
    let mut r = String::from_str("CREATE DIRECTORY: ");
    r.append(name);
    r
}

pub fn make_file_record(name: &str) -> (r: String)
    ensures
        r@ == file_record(name@),
{
    let mut r = String::from_str("CREATE FILE: ");
    r.append(name);
    r
}

pub fn make_link_record(file_id: u64, dir_id: u64) -> (r: String)
    ensures
        r@ == link_record(file_id, dir_id),
{
    let mut r = String::from_str("ADD FILE: ");
    let f = decimal_text(file_id);
    r.append(f.as_str());
    r.append(" TO DIRECTORY: ");
    let d = decimal_text(dir_id);
    r.append(d.as_str());
    r
}

pub fn make_write_record(file_id: u64) -> (r: String)
    ensures
        r@ == write_record(file_id),
{
    let mut r = String::from_str("WRITE TO FILE: ");
    let f = decimal_text(file_id);
    r.append(f.as_str());
    r
}

/// Reads a record: splits it on `:`, trims the first two fields, and parses
/// the identifier of a file write.
pub fn read_record(s: &str) -> (r: ParsedRecord)
    ensures
        r@ == record_kind(s@),
{
    match field_bounds(s) {
        None => ParsedRecord::Malformed,
        Some((f, g)) => {
            let verb = "WRITE TO FILE";
            proof {
                reveal_strlit("WRITE TO FILE");
            }
            let mut same = f.1 - f.0 == 13;
            let mut k: usize = 0;
            while same && k < 13
                invariant
                    f.0 <= f.1 <= s@.len(),
                    verb@ == write_verb(),
                    verb@.len() == 13,
                    same ==> f.1 - f.0 == 13,
                    k <= 13,
                    same ==> forall|j: int| 0 <= j < k ==> s@[f.0 + j] == verb@[j],
                    !same ==> s@.subrange(f.0 as int, f.1 as int) != write_verb(),
                decreases 13 - k,
            {
                if s.get_char(f.0 + k) != verb.get_char(k) {
                    same = false;
                    assert(s@.subrange(f.0 as int, f.1 as int)[k as int] != verb@[k as int]);
                }
                k = k + 1;
            }
            if same {
                assert(s@.subrange(f.0 as int, f.1 as int) =~= write_verb());
                ParsedRecord::WriteTo(parse_decimal(s, g.0, g.1))
            } else {
                ParsedRecord::Other(String::from_str(s.substring_char(f.0, f.1)))
            }
        },
    }
}

/// A file write's record reads back as a write of that same file.
pub proof fn lemma_write_record_kind(file_id: u64)
    ensures
        record_kind(write_record(file_id)) == RecordKind::WriteTo(Some(file_id)),
{
    reveal_strlit("WRITE TO FILE: ");
    reveal_strlit("WRITE TO FILE");
    let v = write_verb();
    let w = decimal(file_id as nat);
    lemma_decimal_reads_back(file_id as nat);
    lemma_parse_decimal(file_id);
    assert(write_record(file_id) =~= v + seq![':', ' '] + w);
    assert(!is_space(v[0]));
    assert(!is_space(v.last()));
    lemma_record_fields(v, w);
}

/// The records of creations and links read back as operations other than a
/// file write, named by their verb.
pub proof fn lemma_other_record_kinds(name: Seq<char>, file_id: u64, dir_id: u64)
    ensures
        record_kind(directory_record(name)) == RecordKind::Other("CREATE DIRECTORY"@),
        record_kind(file_record(name)) == RecordKind::Other("CREATE FILE"@),
        record_kind(link_record(file_id, dir_id)) == RecordKind::Other("ADD FILE"@),
        "CREATE DIRECTORY"@ != write_verb(),
        "CREATE FILE"@ != write_verb(),
        "ADD FILE"@ != write_verb(),
{
    reveal_strlit("WRITE TO FILE");
    reveal_strlit("CREATE DIRECTORY: ");
    reveal_strlit("CREATE DIRECTORY");
    reveal_strlit("CREATE FILE: ");
    reveal_strlit("CREATE FILE");
    reveal_strlit("ADD FILE: ");
    reveal_strlit("ADD FILE");
    let d = "CREATE DIRECTORY"@;
    let f = "CREATE FILE"@;
    let a = "ADD FILE"@;
    assert(directory_record(name) =~= d + seq![':', ' '] + name);
    assert(!is_space(d[0]) && !is_space(d.last()));
    lemma_record_fields(d, name);
    assert(file_record(name) =~= f + seq![':', ' '] + name);
    assert(!is_space(f[0]) && !is_space(f.last()));
    lemma_record_fields(f, name);
    let rest = decimal(file_id as nat) + " TO DIRECTORY: "@ + decimal(dir_id as nat);
    assert(link_record(file_id, dir_id) =~= a + seq![':', ' '] + rest);
    assert(!is_space(a[0]) && !is_space(a.last()));
    lemma_record_fields(a, rest);
    assert(d.len() != write_verb().len());
    assert(f.len() != write_verb().len());
    assert(a.len() != write_verb().len());
}

} // verus!
