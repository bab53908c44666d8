//! A single file opened through FatFs's native API, guarded so that only
//! one is open at a time, and FatFs's result codes.
use vstd::prelude::*;
use vstd::string::StringExecFns;

use crate::text::{decimal, decimal_string, string_of};

verus! {

/// FatFs's file object, which lives in C-owned storage.
pub struct Fil;

/// The mode flags of `f_open`.
#[derive(PartialEq, Eq, Structural, Debug, Clone, Copy)]
pub struct FileMode {
    pub bits: u8,
}

impl FileMode {
    pub fn read() -> (r: FileMode)
        ensures
            r.bits == 0x01,
    {
        FileMode { bits: 0x01 }
    }

    pub fn write() -> (r: FileMode)
        ensures
            r.bits == 0x02,
    {
        FileMode { bits: 0x02 }
    }

    pub fn open_existing() -> (r: FileMode)
        ensures
            r.bits == 0x00,
    {
        FileMode { bits: 0x00 }
    }

    pub fn create_new() -> (r: FileMode)
        ensures
            r.bits == 0x04,
    {
        FileMode { bits: 0x04 }
    }

    pub fn create_always() -> (r: FileMode)
        ensures
            r.bits == 0x08,
    {
        FileMode { bits: 0x08 }
    }

    pub fn open_always() -> (r: FileMode)
        ensures
            r.bits == 0x10,
    {
        FileMode { bits: 0x10 }
    }

    pub fn open_append() -> (r: FileMode)
        ensures
            r.bits == 0x30,
    {
        FileMode { bits: 0x30 }
    }

    /// The flags of both modes.
    pub fn union(self, other: FileMode) -> (r: FileMode)
        ensures
            r.bits == self.bits | other.bits,
    {
        FileMode { bits: self.bits | other.bits }
    }

    pub fn bits(&self) -> (r: u8)
        ensures
            r == self.bits,
    {
        self.bits
    }
}

/// The kinds of I/O error a file result maps to (those of `embedded_io`
/// that FatFs's results use).
#[derive(PartialEq, Eq, Structural, Debug, Clone, Copy)]
pub enum ErrorKind {
    Other,
    NotFound,
    PermissionDenied,
    AlreadyExists,
    TimedOut,
    InvalidInput,
}

/// FatFs's result codes as the native API returns them; codes it does not
/// know are kept as `Unknown`.
#[derive(PartialEq, Eq, Structural, Debug, Clone, Copy)]
pub enum FileResult {
    Success,
    DiskErr,
    IntErr,
    NotReady,
    NoFile,
    NoPath,
    InvalidName,
    Denied,
    Exist,
    InvalidObject,
    WriteProtected,
    InvalidDrive,
    NotEnabled,
    NoFileSystem,
    MkfsAborted,
    Timeout,
    Locked,
    NotEnoughCore,
    TooManyOpenFiles,
    InvalidParameter,
    Unknown(u32),
}

impl FileResult {
    /// The result for the code `n` (`num_enum::FromPrimitive` with a catch-all).
    pub open spec fn spec_from_primitive(n: u32) -> FileResult {
        if n == 0 {
            FileResult::Success
        } else if n == 1 {
            FileResult::DiskErr
        } else if n == 2 {
            FileResult::IntErr
        } else if n == 3 {
            FileResult::NotReady
        } else if n == 4 {
            FileResult::NoFile
        } else if n == 5 {
            FileResult::NoPath
        } else if n == 6 {
            FileResult::InvalidName
        } else if n == 7 {
            FileResult::Denied
        } else if n == 8 {
            FileResult::Exist
        } else if n == 9 {
            FileResult::InvalidObject
        } else if n == 10 {
            FileResult::WriteProtected
        } else if n == 11 {
            FileResult::InvalidDrive
        } else if n == 12 {
            FileResult::NotEnabled
        } else if n == 13 {
            FileResult::NoFileSystem
        } else if n == 14 {
            FileResult::MkfsAborted
        } else if n == 15 {
            FileResult::Timeout
        } else if n == 16 {
            FileResult::Locked
        } else if n == 17 {
            FileResult::NotEnoughCore
        } else if n == 18 {
            FileResult::TooManyOpenFiles
        } else if n == 19 {
            FileResult::InvalidParameter
        } else {
            FileResult::Unknown(n)
        }
    }

    pub fn from_primitive(n: u32) -> (r: FileResult)
        ensures
            r == Self::spec_from_primitive(n),
    {
        if n == 0 {
            FileResult::Success
        } else if n == 1 {
            FileResult::DiskErr
        } else if n == 2 {
            FileResult::IntErr
        } else if n == 3 {
            FileResult::NotReady
        } else if n == 4 {
            FileResult::NoFile
        } else if n == 5 {
            FileResult::NoPath
        } else if n == 6 {
            FileResult::InvalidName
        } else if n == 7 {
            FileResult::Denied
        } else if n == 8 {
            FileResult::Exist
        } else if n == 9 {
            FileResult::InvalidObject
        } else if n == 10 {
            FileResult::WriteProtected
        } else if n == 11 {
            FileResult::InvalidDrive
        } else if n == 12 {
            FileResult::NotEnabled
        } else if n == 13 {
            FileResult::NoFileSystem
        } else if n == 14 {
            FileResult::MkfsAborted
        } else if n == 15 {
            FileResult::Timeout
        } else if n == 16 {
            FileResult::Locked
        } else if n == 17 {
            FileResult::NotEnoughCore
        } else if n == 18 {
            FileResult::TooManyOpenFiles
        } else if n == 19 {
            FileResult::InvalidParameter
        } else {
            FileResult::Unknown(n)
        }
    }

    /// The code of the result.
    pub open spec fn spec_code(self) -> u32 {
        match self {
            FileResult::Success => 0,
            FileResult::DiskErr => 1,
            FileResult::IntErr => 2,
            FileResult::NotReady => 3,
            FileResult::NoFile => 4,
            FileResult::NoPath => 5,
            FileResult::InvalidName => 6,
            FileResult::Denied => 7,
            FileResult::Exist => 8,
            FileResult::InvalidObject => 9,
            FileResult::WriteProtected => 10,
            FileResult::InvalidDrive => 11,
            FileResult::NotEnabled => 12,
            FileResult::NoFileSystem => 13,
            FileResult::MkfsAborted => 14,
            FileResult::Timeout => 15,
            FileResult::Locked => 16,
            FileResult::NotEnoughCore => 17,
            FileResult::TooManyOpenFiles => 18,
            FileResult::InvalidParameter => 19,
            FileResult::Unknown(n) => n,
        }
    }

    /// The description of a known result.
    pub open spec fn spec_known_message(self) -> Seq<char> {
        match self {
            FileResult::Success => "Succeeded"@,
            FileResult::DiskErr => "A hard error occurred in the low level disk I/O layer"@,
            FileResult::IntErr => "Assertion failed"@,
            FileResult::NotReady => "The physical drive cannot work"@,
            FileResult::NoFile => "Could not find the file"@,
            FileResult::NoPath => "Could not find the path"@,
            FileResult::InvalidName => "The path name format is invalid"@,
            FileResult::Denied => "Access denied due to prohibited access or directory full"@,
            FileResult::Exist => "Access denied due to prohibited access (object exists)"@,
            FileResult::InvalidObject => "The file/directory object is invalid"@,
            FileResult::WriteProtected => "The physical drive is write protected"@,
            FileResult::InvalidDrive => "The logical drive number is invalid"@,
            FileResult::NotEnabled => "The volume has no work area"@,
            FileResult::NoFileSystem => "There is no valid FAT volume"@,
            FileResult::MkfsAborted => "The f_mkfs() aborted due to a parameter error"@,
            FileResult::Timeout => "Could not get a grant to access the volume (timeout)"@,
            FileResult::Locked => "The operation is rejected according to the file sharing policy"@,
            FileResult::NotEnoughCore => "LFN working buffer could not be allocated"@,
            FileResult::TooManyOpenFiles => "Number of open files > FF_FS_LOCK"@,
            FileResult::InvalidParameter => "Given parameter is invalid"@,
            FileResult::Unknown(n) => "Unknown FatFs error code: "@ + decimal(n as nat),
        }
    }

    /// The description of the result (its `Display`).
    pub fn message(&self) -> (r: String)
        ensures
            r@ == self.spec_known_message(),
    {
        match self {
            FileResult::Success => <String as StringExecFns>::from_str("Succeeded"),
            FileResult::DiskErr => <String as StringExecFns>::from_str("A hard error occurred in the low level disk I/O layer"),
            FileResult::IntErr => <String as StringExecFns>::from_str("Assertion failed"),
            FileResult::NotReady => <String as StringExecFns>::from_str("The physical drive cannot work"),
            FileResult::NoFile => <String as StringExecFns>::from_str("Could not find the file"),
            FileResult::NoPath => <String as StringExecFns>::from_str("Could not find the path"),
            FileResult::InvalidName => <String as StringExecFns>::from_str("The path name format is invalid"),
            FileResult::Denied => <String as StringExecFns>::from_str("Access denied due to prohibited access or directory full"),
            FileResult::Exist => <String as StringExecFns>::from_str("Access denied due to prohibited access (object exists)"),
            FileResult::InvalidObject => <String as StringExecFns>::from_str("The file/directory object is invalid"),
            FileResult::WriteProtected => <String as StringExecFns>::from_str("The physical drive is write protected"),
            FileResult::InvalidDrive => <String as StringExecFns>::from_str("The logical drive number is invalid"),
            FileResult::NotEnabled => <String as StringExecFns>::from_str("The volume has no work area"),
            FileResult::NoFileSystem => <String as StringExecFns>::from_str("There is no valid FAT volume"),
            FileResult::MkfsAborted => <String as StringExecFns>::from_str("The f_mkfs() aborted due to a parameter error"),
            FileResult::Timeout => <String as StringExecFns>::from_str("Could not get a grant to access the volume (timeout)"),
            FileResult::Locked => <String as StringExecFns>::from_str("The operation is rejected according to the file sharing policy"),
            FileResult::NotEnoughCore => <String as StringExecFns>::from_str("LFN working buffer could not be allocated"),
            FileResult::TooManyOpenFiles => <String as StringExecFns>::from_str("Number of open files > FF_FS_LOCK"),
            FileResult::InvalidParameter => <String as StringExecFns>::from_str("Given parameter is invalid"),
            FileResult::Unknown(n) => {
                let mut s = <String as StringExecFns>::from_str("Unknown FatFs error code: ");
                let digits = string_of(&decimal_string(*n as u64));
                <String as StringExecFns>::append(&mut s, digits.as_str());
                s
            },
        }
    }

}


impl FileResult {
    /// The kind of I/O error of the result.
    pub fn kind(&self) -> (r: ErrorKind)
        ensures
            r == match *self {
                FileResult::NoFile | FileResult::NoPath => ErrorKind::NotFound,
                FileResult::Denied => ErrorKind::PermissionDenied,
                FileResult::Exist => ErrorKind::AlreadyExists,
                FileResult::Timeout => ErrorKind::TimedOut,
                FileResult::InvalidParameter => ErrorKind::InvalidInput,
                _ => ErrorKind::Other,
            },
    {
        match self {
            FileResult::Success => ErrorKind::Other,
            FileResult::NoFile | FileResult::NoPath => ErrorKind::NotFound,
            FileResult::Denied => ErrorKind::PermissionDenied,
            FileResult::Exist => ErrorKind::AlreadyExists,
            FileResult::Timeout => ErrorKind::TimedOut,
            FileResult::InvalidParameter => ErrorKind::InvalidInput,
            _ => ErrorKind::Other,
        }
    }

    /// `Ok(())` for success, the result itself as the error otherwise.
    pub fn into_result(self) -> (r: Result<(), FileResult>)
        ensures
            self == FileResult::Success ==> r is Ok,
            self != FileResult::Success ==> r == Err::<(), FileResult>(self),
    {
        if self == FileResult::Success {
            Ok(())
        } else {
            Err(self)
        }
    }
}

/// Each result's code reads back as that result, but for the unknown
/// codes FatFs itself uses, which read back as the result they name.
pub proof fn law_file_result_codes_round_trip(v: FileResult)
    requires
        v matches FileResult::Unknown(n) ==> n >= 20,
    ensures
        FileResult::spec_from_primitive(v.spec_code()) == v,
{
}

/// The state of the one file that can be open.
pub struct FileSlot {
    pub is_open: bool,
}

impl FileSlot {
    /// No file is open.
    pub fn new() -> (r: FileSlot)
        ensures
            !r.is_open,
    {
        FileSlot { is_open: false }
    }
}

/// The right to use the open file.
pub struct FileLock();

/// The next call of a file operation, or its end.
pub enum FileStep<T> {
    /// Make the FatFs call (`f_open` with these mode bits, `f_write` of the
    /// buffer, or `f_close`) and hand its answer back.
    Call(u8),
    /// The operation is over, with this result.
    Done(T),
}

/// What `f_write` answered, as the operation's result.
pub open spec fn write_result(res: (FileResult, u32)) -> Result<usize, FileResult> {
    if res.0 == FileResult::Success {
        Ok(res.1 as usize)
    } else {
        Err(res.0)
    }
}

impl FileLock {
    /// Opens a file in `mode` through FatFs's `f_open` on the slot's file
    /// object, given `f_open`'s answer once it was made: a slot with a file
    /// already open is refused with `TooManyOpenFiles` and `f_open` is not
    /// called; otherwise `f_open` is called with the mode's bits, and the
    /// slot holds the file when it succeeded.
    pub fn open(slot: &mut FileSlot, mode: FileMode, answer: Option<FileResult>) -> (r: FileStep<
        Result<FileLock, FileResult>,
    >)
        ensures
            old(slot).is_open ==> (r matches FileStep::Done(d) && d == Err::<FileLock, FileResult>(
                FileResult::TooManyOpenFiles,
            )) && final(slot).is_open,
            !old(slot).is_open && answer is None ==> r == FileStep::<Result<FileLock, FileResult>>::Call(
                mode.bits,
            ) && !final(slot).is_open,
            !old(slot).is_open && answer == Some(FileResult::Success) ==> (r matches FileStep::Done(d)
                && d is Ok) && final(slot).is_open,
            !old(slot).is_open && answer is Some && answer->Some_0 != FileResult::Success ==> (
            r matches FileStep::Done(d) && d == Err::<FileLock, FileResult>(answer->Some_0)) && !final(slot).is_open,
    {
        if slot.is_open {
            return FileStep::Done(Err(FileResult::TooManyOpenFiles));
        }
        match answer {
            None => FileStep::Call(mode.bits()),
            Some(res) => {
                if res != FileResult::Success {
                    return FileStep::Done(Err(res));
                }
                slot.is_open = true;
                FileStep::Done(Ok(FileLock()))
            },
        }
    }

    /// Writes a buffer through FatFs's `f_write`, given its answer (the
    /// result and the bytes written) once it was made: without an open
    /// file the answer is `NoFile` and `f_write` is not called.
    pub fn write(&self, slot: &FileSlot, answer: Option<(FileResult, u32)>) -> (r: FileStep<
        Result<usize, FileResult>,
    >)
        ensures
            !slot.is_open ==> (r matches FileStep::Done(d) && d == Err::<usize, FileResult>(
                FileResult::NoFile,
            )),
            slot.is_open && answer is None ==> r matches FileStep::Call(_),
            slot.is_open && answer is Some ==> (r matches FileStep::Done(d) && d == write_result(
                answer->Some_0,
            )),
    {
        if !slot.is_open {
            return FileStep::Done(Err(FileResult::NoFile));
        }
        match answer {
            None => FileStep::Call(0),
            Some((res, written)) => {
                if res != FileResult::Success {
                    return FileStep::Done(Err(res));
                }
                FileStep::Done(Ok(written as usize))
            },
        }
    }

    /// Releases the lock, as dropping it does, given `f_close`'s answer
    /// once it was made: a file that is open is closed through FatFs's
    /// `f_close`, and a failed close leaves it open; without an open file
    /// nothing is called.
    pub fn release(&self, slot: &mut FileSlot, answer: Option<FileResult>) -> (r: FileStep<
        Result<(), FileResult>,
    >)
        ensures
            !old(slot).is_open ==> (r matches FileStep::Done(d) && d is Ok) && !final(slot).is_open,
            old(slot).is_open && answer is None ==> (r matches FileStep::Call(_)) && final(slot).is_open,
            old(slot).is_open && answer == Some(FileResult::Success) ==> (r matches FileStep::Done(d)
                && d is Ok) && !final(slot).is_open,
            old(slot).is_open && answer is Some && answer->Some_0 != FileResult::Success ==> (
            r matches FileStep::Done(d) && d == Err::<(), FileResult>(answer->Some_0)) && final(slot).is_open,
    {
        if !slot.is_open {
            return FileStep::Done(Ok(()));
        }
        match answer {
            None => FileStep::Call(0),
            Some(res) => {
                if res != FileResult::Success {
                    return FileStep::Done(Err(res));
                }
                slot.is_open = false;
                FileStep::Done(Ok(()))
            },
        }
    }

    /// Closes the file, given the answers of `f_close` so far: an open file
    /// is closed through FatFs's `f_close`; when that fails, its error is
    /// the result and the lock is then dropped, which calls `f_close` once
    /// more. The file stays open only when both calls failed; without an
    /// open file nothing is called.
    pub fn close(&self, slot: &mut FileSlot, first: Option<FileResult>, again: Option<FileResult>) -> (r:
        FileStep<Result<(), FileResult>>)
        ensures
            !old(slot).is_open ==> (r matches FileStep::Done(d) && d is Ok) && !final(slot).is_open,
            old(slot).is_open && first is None ==> (r matches FileStep::Call(_)) && final(slot).is_open,
            old(slot).is_open && first == Some(FileResult::Success) ==> (r matches FileStep::Done(d)
                && d is Ok) && !final(slot).is_open,
            old(slot).is_open && first is Some && first->Some_0 != FileResult::Success ==> {
                &&& again is None ==> (r matches FileStep::Call(_)) && final(slot).is_open
                &&& again is Some ==> (r matches FileStep::Done(d) && d == Err::<(), FileResult>(
                    first->Some_0,
                )) && (final(slot).is_open <==> again->Some_0 != FileResult::Success)
            },
    {
        if !slot.is_open {
            return FileStep::Done(Ok(()));
        }
        match first {
            None => FileStep::Call(0),
            Some(res) => {
                if res == FileResult::Success {
                    slot.is_open = false;
                    return FileStep::Done(Ok(()));
                }
                match again {
                    None => FileStep::Call(0),
                    Some(a) => {
                        if a == FileResult::Success {
                            slot.is_open = false;
                        }
                        FileStep::Done(Err(res))
                    },
                }
            },
        }
    }
}

/// What `test_file` did: the file could not be opened, or the result of
/// writing to it.
pub enum TestFileOutcome {
    NotOpened,
    Written(Result<usize, FileResult>),
}

/// The next call of the file test, or its end.
pub enum TestFileStep {
    /// `f_open` the file at `path` with the mode bits `bits`.
    Open { path: Vec<u8>, bits: u8 },
    /// `f_write` these bytes.
    Write(Vec<u8>),
    /// `f_close` the file (the lock is dropped).
    Close,
    /// The test is over.
    Done(TestFileOutcome),
}

/// The ASCII bytes of a text.
pub open spec fn ascii(t: Seq<char>) -> Seq<u8> {
    t.map_values(|c: char| c as u8)
}

/// A copy of `b`.
fn copy_bytes(b: &[u8]) -> (r: Vec<u8>)
    ensures
        r@ == b@,
{
    let mut v: Vec<u8> = Vec::new();
    let mut i: usize = 0;
    while i < b.len()
        invariant
            i <= b@.len(),
            v@ == b@.subrange(0, i as int),
        decreases b@.len() - i,
    {
        v.push(b[i]);
        i = i + 1;
        assert(v@ =~= b@.subrange(0, i as int));
    }
    assert(b@.subrange(0, b@.len() as int) =~= b@);
    v
}

/// The file test writes `Hello World\n` to `test.txt`, created afresh for
/// reading and writing, then drops the lock, which closes it. Given the
/// answers so far of `f_open` (`opened`), `f_write` (`wrote`) and
/// `f_close` (`closed`), this is the next step. With a file already open
/// nothing is called; a failed open is neither written nor closed; each
/// call is made once, and the slot is free at the end exactly when the
/// file was never opened or `f_close` succeeded.
pub fn test_file(
    slot: &mut FileSlot,
    opened: Option<FileResult>,
    wrote: Option<(FileResult, u32)>,
    closed: Option<FileResult>,
) -> (r: TestFileStep)
    ensures
        opened is None ==> *final(slot) == *old(slot) && if old(slot).is_open {
            r matches TestFileStep::Done(o) && o is NotOpened
        } else {
            r matches TestFileStep::Open { path, bits } && path@ == ascii("test.txt"@) && bits
                == 0x0b
        },
        opened is Some && opened->Some_0 != FileResult::Success ==> (r matches TestFileStep::Done(t)
            && t is NotOpened) && *final(slot) == *old(slot),
        opened == Some(FileResult::Success) && wrote is None ==> (r matches TestFileStep::Write(b)
            && b@ == ascii("Hello World\n"@)) && final(slot).is_open,
        opened == Some(FileResult::Success) && wrote is Some && closed is None ==> r is Close
            && final(slot).is_open,
        opened == Some(FileResult::Success) && wrote is Some && closed is Some ==> (
        r matches TestFileStep::Done(TestFileOutcome::Written(res)) && res == write_result(
            wrote->Some_0,
        )) && (final(slot).is_open <==> closed->Some_0 != FileResult::Success),
{
    match opened {
        None => {
            if slot.is_open {
                return TestFileStep::Done(TestFileOutcome::NotOpened);
            }
            let mode = FileMode::read().union(FileMode::write()).union(FileMode::create_always());
            let bits = mode.bits();
            assert(bits == 0x0b) by (bit_vector)
                requires
                    bits == (0x01u8 | 0x02u8) | 0x08u8,
            ;
            let name = "test.txt".as_bytes();
            proof {
                reveal_strlit("test.txt");
                vstd::utf8::is_ascii_chars_encode_utf8("test.txt"@);
                assert(name@ =~= ascii("test.txt"@));
            }
            TestFileStep::Open { path: copy_bytes(name), bits }
        },
        Some(o) => {
            if o != FileResult::Success {
                return TestFileStep::Done(TestFileOutcome::NotOpened);
            }
            match wrote {
                None => {
                    slot.is_open = true;
                    let text = "Hello World\n".as_bytes();
                    proof {
                        reveal_strlit("Hello World\n");
                        vstd::utf8::is_ascii_chars_encode_utf8("Hello World\n"@);
                        assert(text@ =~= ascii("Hello World\n"@));
                    }
                    TestFileStep::Write(copy_bytes(text))
                },
                Some((res, n)) => {
                    let written = if res == FileResult::Success {
                        Ok(n as usize)
                    } else {
                        Err(res)
                    };
                    match closed {
                        None => {
                            slot.is_open = true;
                            TestFileStep::Close
                        },
                        Some(c) => {
                            slot.is_open = c != FileResult::Success;
                            TestFileStep::Done(TestFileOutcome::Written(written))
                        },
                    }
                },
            }
        },
    }
}

} // verus!
