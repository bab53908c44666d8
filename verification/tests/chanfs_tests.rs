use derusting::chanfs::{
    test_file, ErrorKind, FileLock, FileMode, FileResult, FileSlot, FileStep, TestFileOutcome,
    TestFileStep,
};

#[test]
fn file_result_codes() {
    assert_eq!(FileResult::from_primitive(0), FileResult::Success);
    assert_eq!(FileResult::from_primitive(4), FileResult::NoFile);
    assert_eq!(FileResult::from_primitive(19), FileResult::InvalidParameter);
    assert_eq!(FileResult::from_primitive(77), FileResult::Unknown(77));
}

#[test]
fn file_result_messages_and_kinds() {
    assert_eq!(FileResult::NoFile.message(), "Could not find the file");
    assert_eq!(FileResult::Unknown(42).message(), "Unknown FatFs error code: 42");
    assert_eq!(FileResult::NoPath.kind(), ErrorKind::NotFound);
    assert_eq!(FileResult::Denied.kind(), ErrorKind::PermissionDenied);
    assert_eq!(FileResult::Exist.kind(), ErrorKind::AlreadyExists);
    assert_eq!(FileResult::Timeout.kind(), ErrorKind::TimedOut);
    assert_eq!(FileResult::InvalidParameter.kind(), ErrorKind::InvalidInput);
    assert_eq!(FileResult::DiskErr.kind(), ErrorKind::Other);
    assert_eq!(FileResult::Success.into_result(), Ok(()));
    assert_eq!(FileResult::Locked.into_result(), Err(FileResult::Locked));
}

#[test]
fn file_modes_combine() {
    let m = FileMode::read().union(FileMode::write()).union(FileMode::create_always());
    assert_eq!(m.bits(), 0x0b);
    assert_eq!(FileMode::open_append().bits(), 0x30);
}

/// Opens through `FileLock::open`, answering `f_open` with `answer`;
/// gives the result and the mode bits `f_open` was called with, if any.
fn open_with(slot: &mut FileSlot, mode: FileMode, answer: FileResult) -> (Result<FileLock, FileResult>, Option<u8>) {
    let mut called = None;
    let mut got = None;
    loop {
        match FileLock::open(slot, mode, got) {
            FileStep::Call(bits) => {
                called = Some(bits);
                got = Some(answer);
            }
            FileStep::Done(r) => return (r, called),
        }
    }
}

/// Closes through `FileLock::close`, answering `f_close` in turn from
/// `answers`; gives the result and the number of calls.
fn close_with(lock: &FileLock, slot: &mut FileSlot, answers: &[FileResult]) -> (Result<(), FileResult>, usize) {
    let (mut first, mut again) = (None, None);
    let mut n = 0;
    loop {
        match lock.close(slot, first, again) {
            FileStep::Call(_) => {
                if first.is_none() {
                    first = Some(answers[n]);
                } else {
                    again = Some(answers[n]);
                }
                n += 1;
            }
            FileStep::Done(r) => return (r, n),
        }
    }
}

/// Releases through `FileLock::release`, answering `f_close` with `answer`.
fn release_with(lock: &FileLock, slot: &mut FileSlot, answer: FileResult) -> (Result<(), FileResult>, usize) {
    let mut got = None;
    let mut n = 0;
    loop {
        match lock.release(slot, got) {
            FileStep::Call(_) => {
                got = Some(answer);
                n += 1;
            }
            FileStep::Done(r) => return (r, n),
        }
    }
}

/// Writes through `FileLock::write`, answering `f_write` with `answer`.
fn write_with(lock: &FileLock, slot: &FileSlot, answer: (FileResult, u32)) -> (Result<usize, FileResult>, usize) {
    let mut got = None;
    let mut n = 0;
    loop {
        match lock.write(slot, got) {
            FileStep::Call(_) => {
                got = Some(answer);
                n += 1;
            }
            FileStep::Done(r) => return (r, n),
        }
    }
}

#[test]
fn only_one_file_at_a_time() {
    let mut slot = FileSlot::new();
    let (lock, bits) = open_with(&mut slot, FileMode::read(), FileResult::Success);
    assert!(lock.is_ok());
    assert_eq!(bits, Some(0x01));
    assert!(slot.is_open);
    let (second, called) = open_with(&mut slot, FileMode::read(), FileResult::Success);
    assert!(matches!(second, Err(FileResult::TooManyOpenFiles)));
    assert_eq!(called, None);
    let lock = lock.ok().unwrap();
    assert_eq!(close_with(&lock, &mut slot, &[FileResult::Success]), (Ok(()), 1));
    assert!(!slot.is_open);
    assert_eq!(close_with(&lock, &mut slot, &[]), (Ok(()), 0));
}

#[test]
fn failed_open_leaves_slot_free() {
    let mut slot = FileSlot::new();
    let (r, _) = open_with(&mut slot, FileMode::read(), FileResult::NoFile);
    assert!(matches!(r, Err(FileResult::NoFile)));
    assert!(!slot.is_open);
}

#[test]
fn failed_close_keeps_file_open() {
    let mut slot = FileSlot::new();
    let lock = open_with(&mut slot, FileMode::write(), FileResult::Success).0.ok().unwrap();
    assert_eq!(close_with(&lock, &mut slot, &[FileResult::DiskErr, FileResult::DiskErr]), (Err(FileResult::DiskErr), 2));
    assert!(slot.is_open);
}

#[test]
fn failed_close_is_tried_again_on_drop() {
    let mut slot = FileSlot::new();
    let lock = open_with(&mut slot, FileMode::write(), FileResult::Success).0.ok().unwrap();
    assert_eq!(close_with(&lock, &mut slot, &[FileResult::DiskErr, FileResult::Success]), (Err(FileResult::DiskErr), 2));
    assert!(!slot.is_open);
    let lock = open_with(&mut slot, FileMode::write(), FileResult::Success).0.ok().unwrap();
    assert_eq!(release_with(&lock, &mut slot, FileResult::DiskErr), (Err(FileResult::DiskErr), 1));
    assert!(slot.is_open);
    assert_eq!(release_with(&lock, &mut slot, FileResult::Success), (Ok(()), 1));
    assert_eq!(release_with(&lock, &mut slot, FileResult::Success), (Ok(()), 0));
}

#[test]
fn write_reports_bytes_or_error() {
    let mut slot = FileSlot::new();
    let lock = open_with(&mut slot, FileMode::write(), FileResult::Success).0.ok().unwrap();
    assert_eq!(write_with(&lock, &slot, (FileResult::Success, 3)), (Ok(3), 1));
    assert_eq!(write_with(&lock, &slot, (FileResult::Denied, 0)), (Err(FileResult::Denied), 1));
    let closed = FileSlot::new();
    assert_eq!(write_with(&lock, &closed, (FileResult::Success, 3)), (Err(FileResult::NoFile), 0));
}

/// Runs the file test with the given answers, recording the calls.
fn run_chanfs_test(slot: &mut FileSlot, open: FileResult, close: FileResult) -> (TestFileOutcome, Vec<String>) {
    let mut calls = Vec::new();
    let (mut opened, mut wrote, mut closed) = (None, None, None);
    loop {
        match test_file(slot, opened, wrote, closed) {
            TestFileStep::Open { path, bits } => {
                calls.push(format!("open {} {:#x}", String::from_utf8_lossy(&path), bits));
                opened = Some(open);
            }
            TestFileStep::Write(b) => {
                calls.push(format!("write {}", b.len()));
                wrote = Some((FileResult::Success, b.len() as u32));
            }
            TestFileStep::Close => {
                calls.push("close".to_string());
                closed = Some(close);
            }
            TestFileStep::Done(o) => return (o, calls),
        }
    }
}

#[test]
fn chanfs_test_file_writes_greeting() {
    let mut slot = FileSlot::new();
    let (r, calls) = run_chanfs_test(&mut slot, FileResult::Success, FileResult::Success);
    assert!(matches!(r, TestFileOutcome::Written(Ok(12))));
    assert_eq!(calls, vec!["open test.txt 0xb", "write 12", "close"]);
    assert!(!slot.is_open);
    let (r, calls) = run_chanfs_test(&mut slot, FileResult::NoFile, FileResult::Success);
    assert!(matches!(r, TestFileOutcome::NotOpened));
    assert_eq!(calls, vec!["open test.txt 0xb"]);
    assert!(!slot.is_open);
    let (r, calls) = run_chanfs_test(&mut slot, FileResult::Success, FileResult::DiskErr);
    assert!(matches!(r, TestFileOutcome::Written(Ok(12))));
    assert_eq!(calls.len(), 3);
    assert!(slot.is_open);
    let (r, calls) = run_chanfs_test(&mut slot, FileResult::Success, FileResult::Success);
    assert!(matches!(r, TestFileOutcome::NotOpened));
    assert!(calls.is_empty());
}
