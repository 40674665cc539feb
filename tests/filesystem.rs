use journal_fs::{FileSystem, FileType, UndoOutcome, WriteStatus};

#[test]
fn test_create_and_list_directory() {
    let mut fs = FileSystem::new();
    let dir_id = fs.create_directory("Documents");
    assert!(fs.inodes.contains_key(&dir_id));
    assert_eq!(fs.inodes.get(&dir_id).unwrap().name, "Documents");
}

#[test]
fn test_create_and_list_file() {
    let mut fs = FileSystem::new();
    let file_id = fs.create_file("file.txt");
    assert!(fs.inodes.contains_key(&file_id));
    assert_eq!(fs.inodes.get(&file_id).unwrap().name, "file.txt");
}

#[test]
fn test_write_and_read_file() {
    let mut fs = FileSystem::new();
    let file_id = fs.create_file("data.txt");
    fs.write_to_file(file_id, b"Hello, world!");
    let data = fs.read_file(file_id);
    assert_eq!(String::from_utf8_lossy(&data), "Hello, world!");
}

#[test]
fn test_add_file_to_directory() {
    let mut fs = FileSystem::new();
    let dir_id = fs.create_directory("Documents");
    let file_id = fs.create_file("doc.txt");
    fs.add_file_to_directory(file_id, dir_id);
    let dir = fs.inodes.get(&dir_id).unwrap();
    assert!(dir.entries.as_ref().unwrap().contains(&file_id));
}

#[test]
fn test_journal_logging_and_undo() {
    let mut fs = FileSystem::new();
    let _dir_id = fs.create_directory("Logs");
    assert_eq!(fs.journal.entries.len(), 1);
    fs.journal.undo();
    assert!(fs.journal.entries.is_empty());
}

#[test]
fn test_undo_last_operation() {
    let mut fs = FileSystem::new();
    let file_id = fs.create_file("temp.txt");
    fs.write_to_file(file_id, b"Temporary data");

    fs.undo_last_operation();

    let file = fs.inodes.get(&file_id).unwrap();
    assert!(file.data.is_none());
    assert_eq!(file.size, 0);
}

#[test]
fn identifiers_start_at_one_and_are_fresh() {
    let mut fs = FileSystem::new();
    let a = fs.create_directory("A");
    let b = fs.create_file("A");
    let c = fs.create_directory("C");
    assert_eq!((a, b, c), (1, 2, 3));
    assert_eq!(fs.next_id, 4);
    let inode = fs.inodes.get(&b).unwrap();
    assert_eq!(inode.id, 2);
    assert_eq!(inode.file_type, FileType::RegularFile);
    assert!(inode.entries.is_none());
    assert!(inode.data.is_none());
    assert!(inode.direct_pointers.iter().all(|p| p.is_none()));
    let dir = fs.inodes.get(&a).unwrap();
    assert_eq!(dir.file_type, FileType::Directory);
    assert_eq!(dir.entries.as_ref().unwrap().len(), 0);
    assert_eq!(dir.size, 0);
}

#[test]
fn creation_records() {
    let mut fs = FileSystem::new();
    fs.create_directory("Documents");
    fs.create_file("a: b");
    assert_eq!(fs.journal.entries[0].operation, "CREATE DIRECTORY: Documents");
    assert_eq!(fs.journal.entries[1].operation, "CREATE FILE: a: b");
    assert!(fs.journal.entries[1].committed);
}

#[test]
fn write_replaces_content() {
    let mut fs = FileSystem::new();
    let f = fs.create_file("f");
    assert_eq!(fs.write_to_file(f, b"first version"), WriteStatus::Written);
    assert_eq!(fs.write_to_file(f, b"two"), WriteStatus::Written);
    assert_eq!(fs.read_file(f), b"two".to_vec());
    assert_eq!(fs.inodes.get(&f).unwrap().size, 3);
    assert_eq!(fs.journal.entries.len(), 3);
    assert_eq!(fs.journal.entries[2].operation, "WRITE TO FILE: 1");
}

#[test]
fn empty_write_is_not_absent_content() {
    let mut fs = FileSystem::new();
    let f = fs.create_file("f");
    fs.write_to_file(f, b"");
    let inode = fs.inodes.get(&f).unwrap();
    assert_eq!(inode.data, Some(Vec::new()));
    assert_eq!(inode.size, 0);
    assert_eq!(fs.journal.entries.len(), 2);
}

#[test]
fn write_to_directory_is_refused() {
    let mut fs = FileSystem::new();
    let d = fs.create_directory("d");
    let f = fs.create_file("f");
    fs.add_file_to_directory(f, d);
    assert_eq!(fs.write_to_file(d, b"data"), WriteStatus::IsDirectory);
    let dir = fs.inodes.get(&d).unwrap();
    assert_eq!(dir.entries, Some(vec![f]));
    assert_eq!(dir.size, 0);
    assert!(dir.data.is_none());
    assert_eq!(fs.journal.entries.len(), 3);
}

#[test]
fn write_to_unknown_identifier_does_nothing() {
    let mut fs = FileSystem::new();
    fs.create_file("f");
    assert_eq!(fs.write_to_file(42, b"data"), WriteStatus::NotFound);
    assert_eq!(fs.journal.entries.len(), 1);
    assert_eq!(fs.inodes.len(), 1);
}

#[test]
fn read_of_directory_or_unknown_is_empty() {
    let mut fs = FileSystem::new();
    let d = fs.create_directory("d");
    let f = fs.create_file("f");
    assert!(fs.read_file(d).is_empty());
    assert!(fs.read_file(f).is_empty());
    assert!(fs.read_file(77).is_empty());
}

#[test]
fn add_appends_and_keeps_duplicates() {
    let mut fs = FileSystem::new();
    let d = fs.create_directory("d");
    let f = fs.create_file("f");
    fs.add_file_to_directory(f, d);
    fs.add_file_to_directory(99, d);
    fs.add_file_to_directory(f, d);
    assert_eq!(fs.inodes.get(&d).unwrap().entries, Some(vec![f, 99, f]));
    assert_eq!(fs.journal.entries.len(), 5);
    assert_eq!(fs.journal.entries[4].operation, "ADD FILE: 2 TO DIRECTORY: 1");
}

#[test]
fn add_to_non_directory_does_nothing() {
    let mut fs = FileSystem::new();
    let d = fs.create_directory("d");
    let f = fs.create_file("f");
    fs.add_file_to_directory(d, f);
    fs.add_file_to_directory(f, 12);
    assert!(fs.inodes.get(&f).unwrap().entries.is_none());
    assert_eq!(fs.inodes.get(&d).unwrap().entries, Some(vec![]));
    assert_eq!(fs.journal.entries.len(), 2);
}

#[test]
fn journal_undo_returns_newest_record() {
    let mut fs = FileSystem::new();
    fs.create_directory("Logs");
    fs.create_file("x");
    assert_eq!(fs.journal.undo(), Some("CREATE FILE: x".to_string()));
    assert_eq!(fs.journal.entries.len(), 1);
    assert_eq!(fs.journal.undo(), Some("CREATE DIRECTORY: Logs".to_string()));
    assert_eq!(fs.journal.undo(), None);
    assert_eq!(fs.journal.entries.len(), 0);
    assert_eq!(fs.inodes.len(), 2);
}

#[test]
fn journal_listing_lines() {
    let mut fs = FileSystem::new();
    fs.create_directory("Documents");
    fs.create_file("doc1.txt");
    let lines = fs.journal.listing();
    assert_eq!(
        lines,
        vec![
            "1. CREATE DIRECTORY: Documents [Committed: true]".to_string(),
            "2. CREATE FILE: doc1.txt [Committed: true]".to_string(),
        ]
    );
}

#[test]
fn example_scenario() {
    let mut fs = FileSystem::new();
    let d = fs.create_directory("Documents");
    let f = fs.create_file("doc.txt");
    assert_eq!((d, f), (1, 2));
    fs.add_file_to_directory(2, 1);
    fs.write_to_file(2, b"Hello");
    assert_eq!(fs.journal.entries.len(), 4);
    assert_eq!(fs.read_file(2), b"Hello".to_vec());
    let outcome = fs.undo_last_operation();
    assert!(matches!(outcome, UndoOutcome::UndidWrite { file_id: 2 }));
    assert!(fs.read_file(2).is_empty());
    assert_eq!(fs.inodes.get(&2).unwrap().size, 0);
    assert_eq!(fs.journal.entries.len(), 3);
    assert_eq!(fs.inodes.get(&1).unwrap().entries, Some(vec![2]));
}

#[test]
fn undo_of_empty_journal() {
    let mut fs = FileSystem::new();
    assert!(matches!(fs.undo_last_operation(), UndoOutcome::NothingToUndo));
    assert_eq!(fs.journal.entries.len(), 0);
}

#[test]
fn undo_after_creation_is_not_implemented() {
    let mut fs = FileSystem::new();
    let d = fs.create_directory("Documents");
    match fs.undo_last_operation() {
        UndoOutcome::NotImplemented { operation } => assert_eq!(operation, "CREATE DIRECTORY"),
        other => panic!("unexpected outcome {:?}", other),
    }
    assert!(fs.inodes.contains_key(&d));
    assert_eq!(fs.journal.entries.len(), 0);
    let f = fs.create_file("f");
    match fs.undo_last_operation() {
        UndoOutcome::NotImplemented { operation } => assert_eq!(operation, "CREATE FILE"),
        other => panic!("unexpected outcome {:?}", other),
    }
    assert!(fs.inodes.contains_key(&f));
    assert_eq!(fs.next_id, 3);
}

#[test]
fn undo_after_link_is_not_implemented() {
    let mut fs = FileSystem::new();
    let d = fs.create_directory("d");
    let f = fs.create_file("f");
    fs.add_file_to_directory(f, d);
    match fs.undo_last_operation() {
        UndoOutcome::NotImplemented { operation } => assert_eq!(operation, "ADD FILE"),
        other => panic!("unexpected outcome {:?}", other),
    }
    assert_eq!(fs.inodes.get(&d).unwrap().entries, Some(vec![f]));
    assert_eq!(fs.journal.entries.len(), 2);
}

#[test]
fn undo_of_malformed_record() {
    let mut fs = FileSystem::new();
    fs.journal.log("no separator here".to_string());
    match fs.undo_last_operation() {
        UndoOutcome::InvalidEntry { entry } => assert_eq!(entry, "no separator here"),
        other => panic!("unexpected outcome {:?}", other),
    }
    assert_eq!(fs.journal.entries.len(), 0);
}

#[test]
fn undo_of_write_to_unreadable_or_missing_file() {
    let mut fs = FileSystem::new();
    let f = fs.create_file("f");
    fs.write_to_file(f, b"keep");
    fs.journal.log("WRITE TO FILE: 99".to_string());
    assert!(matches!(fs.undo_last_operation(), UndoOutcome::WriteNotReversed));
    fs.journal.log("WRITE TO FILE: one".to_string());
    assert!(matches!(fs.undo_last_operation(), UndoOutcome::WriteNotReversed));
    fs.journal.log("WRITE TO FILE: 18446744073709551617".to_string());
    assert!(matches!(fs.undo_last_operation(), UndoOutcome::WriteNotReversed));
    assert_eq!(fs.read_file(f), b"keep".to_vec());
    assert_eq!(fs.journal.entries.len(), 2);
}

#[test]
fn undo_trims_fields_and_accepts_plus_sign() {
    let mut fs = FileSystem::new();
    let f = fs.create_file("f");
    fs.write_to_file(f, b"data");
    fs.journal.log("\u{3000} WRITE TO FILE\t:\u{a0}+1 : trailing".to_string());
    assert!(matches!(fs.undo_last_operation(), UndoOutcome::UndidWrite { file_id: 1 }));
    assert!(fs.inodes.get(&f).unwrap().data.is_none());
    assert_eq!(fs.journal.entries.len(), 2);
}

#[test]
fn undo_write_on_directory_identifier_keeps_it_empty() {
    let mut fs = FileSystem::new();
    let d = fs.create_directory("d");
    fs.journal.log("WRITE TO FILE: 1".to_string());
    assert!(matches!(fs.undo_last_operation(), UndoOutcome::UndidWrite { file_id: 1 }));
    let dir = fs.inodes.get(&d).unwrap();
    assert_eq!(dir.size, 0);
    assert_eq!(dir.entries, Some(vec![]));
}

#[test]
fn directory_listing_lines() {
    let mut fs = FileSystem::new();
    let docs = fs.create_directory("Documents");
    let pics = fs.create_directory("Pictures");
    let f1 = fs.create_file("doc1.txt");
    let f3 = fs.create_file("pic1.jpg");
    fs.add_file_to_directory(f1, docs);
    fs.add_file_to_directory(500, docs);
    fs.add_file_to_directory(f3, pics);
    fs.write_to_file(f1, b"Hello, world!");
    assert_eq!(
        fs.list_directories_and_files(),
        vec![
            "Directory Documents (ID: 1):".to_string(),
            "- File doc1.txt (ID: 3, Size: 13 bytes)".to_string(),
            "Directory Pictures (ID: 2):".to_string(),
            "- File pic1.jpg (ID: 4, Size: 0 bytes)".to_string(),
        ]
    );
}
