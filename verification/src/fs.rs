//! Files on the printer's USB stick: the paths of jobs, the checks made
//! before the C library is asked to open or stat a file, and the file
//! system's result codes.
use vstd::prelude::*;
use vstd::utf8::is_ascii_chars;

use crate::ids::{hex_digit, hyphenated, nibble, to_hyphenated_string};
use crate::text::find;

verus! {

// ---------------------------------------------------------------------------
// Fixed-capacity C strings
// ---------------------------------------------------------------------------

/// A nul-terminated path of at most 63 bytes, in a `heapless::CString<64>`.
#[verifier::external_body]
pub struct CString64 {
    inner: heapless::CString<64>,
}

/// The bytes of a C string, without its terminating nul.
pub uninterp spec fn c_string_bytes(s: CString64) -> Seq<u8>;

/// Why `CString::extend_from_bytes` refused bytes.
#[derive(PartialEq, Eq, Structural, Debug, Clone, Copy)]
pub enum ExtendError {
    /// The string would not fit in its 64 bytes.
    Capacity,
    /// The bytes hold a nul before their end, at `position`.
    InteriorNul { position: usize },
}

/// The bytes and the result after `CString::<64>::extend_from_bytes(b)` on a
/// string holding `c`. A trailing nul in `b` is the terminator; nothing
/// happens for empty bytes or a lone nul; otherwise the bytes must fit
/// with the terminator in 64 bytes and hold no other nul.
pub open spec fn extended(c: Seq<u8>, b: Seq<u8>) -> (Seq<u8>, Result<(), ExtendError>) {
    if b.len() == 0 || (b.len() == 1 && b[0] == 0) {
        (c, Ok(()))
    } else if b.last() == 0 {
        if c.len() + b.len() > 64 {
            (c, Err(ExtendError::Capacity))
        } else {
            match find(b, seq![0u8]) {
                Some(p) => if p < b.len() - 1 {
                    (c, Err(ExtendError::InteriorNul { position: p as usize }))
                } else {
                    (c + b.drop_last(), Ok(()))
                },
                None => (c + b.drop_last(), Ok(())),
            }
        }
    } else {
        if c.len() + 1 + b.len() > 64 {
            (c, Err(ExtendError::Capacity))
        } else {
            match find(b, seq![0u8]) {
                Some(p) => (c, Err(ExtendError::InteriorNul { position: p as usize })),
                None => (c + b, Ok(())),
            }
        }
    }
}

/// Calls `heapless::CString::<64>::new`: the string starts empty.
#[verifier::external_body]
fn c_string_new() -> (r: CString64)
    ensures
        c_string_bytes(r) == Seq::<u8>::empty(),
{
    CString64 { inner: heapless::CString::new() }
}

/// Calls `heapless::CString::<64>::extend_from_bytes`; the contract states
/// the function's source (see `extended`).
#[verifier::external_body]
fn c_string_extend(s: &mut CString64, b: &[u8]) -> (r: Result<(), ExtendError>)
    ensures
        c_string_bytes(*final(s)) == extended(c_string_bytes(*old(s)), b@).0,
        r == extended(c_string_bytes(*old(s)), b@).1,
{
    match s.inner.extend_from_bytes(b) {
        Ok(()) => Ok(()),
        Err(heapless::c_string::ExtendError::Capacity(_)) => Err(ExtendError::Capacity),
        Err(heapless::c_string::ExtendError::InteriorNul { position }) => Err(
            ExtendError::InteriorNul { position },
        ),
    }
}

/// Calls `heapless::CString::as_bytes`, copying the bytes out.
#[verifier::external_body]
fn c_string_to_vec(s: &CString64) -> (r: Vec<u8>)
    ensures
        r@ == c_string_bytes(*s),
{
    s.inner.as_bytes().to_vec()
}

impl View for CString64 {
    type V = Seq<u8>;

    open spec fn view(&self) -> Seq<u8> {
        c_string_bytes(*self)
    }
}

impl CString64 {
    pub fn new() -> (r: CString64)
        ensures
            r@ == Seq::<u8>::empty(),
    {
        c_string_new()
    }

    pub fn extend_from_bytes(&mut self, b: &[u8]) -> (r: Result<(), ExtendError>)
        ensures
            final(self)@ == extended(old(self)@, b@).0,
            r == extended(old(self)@, b@).1,
    {
        c_string_extend(self, b)
    }

    /// The bytes of the string, without the terminating nul.
    pub fn to_bytes(&self) -> (r: Vec<u8>)
        ensures
            r@ == self@,
    {
        c_string_to_vec(self)
    }
}

/// Bytes without a nul fit: they are appended.
pub proof fn lemma_extend_plain(c: Seq<u8>, b: Seq<u8>)
    requires
        b.len() > 0,
        c.len() + 1 + b.len() <= 64,
        forall|i: int| 0 <= i < b.len() ==> b[i] != 0,
    ensures
        extended(c, b) == (c + b, Ok::<(), ExtendError>(())),
{
    crate::text::lemma_find_from(b, seq![0u8], 0);
    if let Some(p) = find(b, seq![0u8]) {
        assert(b.subrange(p, p + 1)[0] == b[p]);
    }
    assert(b[b.len() - 1] == b.last());
}

// ---------------------------------------------------------------------------
// Paths
// ---------------------------------------------------------------------------

/// Where the USB stick is mounted.
pub open spec fn usb_prefix() -> Seq<u8> {
    seq![47u8, 117u8, 115u8, 98u8, 47u8]
}

pub open spec fn starts_with(s: Seq<u8>, p: Seq<u8>) -> bool {
    p.len() <= s.len() && s.subrange(0, p.len() as int) == p
}

pub fn bytes_start_with(s: &[u8], p: &[u8]) -> (r: bool)
    ensures
        r == starts_with(s@, p@),
{
    if p.len() > s.len() {
        return false;
    }
    let mut i: usize = 0;
    while i < p.len()
        invariant
            p@.len() <= s@.len(),
            i <= p@.len(),
            forall|k: int| 0 <= k < i ==> s@[k] == p@[k],
        decreases p@.len() - i,
    {
        if s[i] != p[i] {
            return false;
        }
        i = i + 1;
    }
    assert(s@.subrange(0, p@.len() as int) =~= p@);
    true
}

/// The bytes of the ASCII characters `s`.
pub open spec fn ascii_bytes(s: Seq<char>) -> Seq<u8> {
    s.map_values(|c: char| c as u8)
}

/// The path of a job's file: `/usb/<guid>.partial` while it is being
/// received, `/usb/<guid>.gcode` once complete, `<guid>` being the job's
/// UUID in hyphenated form.
pub open spec fn job_path(guid: u128, partial: bool) -> Seq<u8> {
    usb_prefix() + ascii_bytes(hyphenated(guid)) + if partial {
        ".partial"@.map_values(|c: char| c as u8)
    } else {
        ".gcode"@.map_values(|c: char| c as u8)
    }
}

pub(crate) proof fn lemma_hyphenated_ascii(guid: u128)
    ensures
        is_ascii_chars(hyphenated(guid)),
        forall|i: int| 0 <= i < 36 ==> (hyphenated(guid)[i] as u8) != 0,
        hyphenated(guid).len() == 36,
{
    assert forall|i: int| 0 <= i < 36 implies '\0' <= #[trigger] hyphenated(guid)[i] <= '\u{7f}'
        && (hyphenated(guid)[i] as u8) != 0 by {
        if !(i == 8 || i == 13 || i == 18 || i == 23) {
            let n = nibble(guid, crate::ids::digit_index(i));
            vstd::arithmetic::power::lemma_pow_positive(16, (31 - crate::ids::digit_index(i)) as nat);
            assert(0 <= n < 16);
            let c = hex_digit(n);
            if n < 10 {
                assert(c as u32 == 48 + n);
            } else {
                assert(c as u32 == 97 + n - 10);
            }
        }
    }
}

proof fn lemma_ascii_nonzero(s: Seq<char>)
    requires
        is_ascii_chars(s),
        forall|i: int| 0 <= i < s.len() ==> (s[i] as u8) != 0,
    ensures
        forall|i: int| 0 <= i < ascii_bytes(s).len() ==> ascii_bytes(s)[i] != 0,
        ascii_bytes(s).len() == s.len(),
{
}

/// Create the full file path for a given job.
pub fn make_path(job_guid: u128, partial: bool) -> (r: CString64)
    ensures
        r@ == job_path(job_guid, partial),
{
    let mut path = CString64::new();
    let usb: [u8; 5] = [47u8, 117u8, 115u8, 98u8, 47u8];
    proof {
        lemma_extend_plain(Seq::empty(), usb@);
        assert(Seq::<u8>::empty() + usb@ =~= usb_prefix());
    }
    let _ = path.extend_from_bytes(&usb);
    let id = to_hyphenated_string(job_guid);
    let id_bytes = id.as_str().as_bytes();
    proof {
        lemma_hyphenated_ascii(job_guid);
        vstd::utf8::is_ascii_chars_encode_utf8(hyphenated(job_guid));
        assert(id_bytes@ =~= ascii_bytes(hyphenated(job_guid)));
        lemma_ascii_nonzero(hyphenated(job_guid));
        lemma_extend_plain(usb_prefix(), id_bytes@);
    }
    let _ = path.extend_from_bytes(id_bytes);
    let suffix = if partial {
        ".partial"
    } else {
        ".gcode"
    };
    let suffix_bytes = suffix.as_bytes();
    proof {
        reveal_strlit(".partial");
        reveal_strlit(".gcode");
        vstd::utf8::is_ascii_chars_encode_utf8(suffix@);
        assert(suffix_bytes@ =~= suffix@.map_values(|c: char| c as u8));
        lemma_extend_plain(usb_prefix() + ascii_bytes(hyphenated(job_guid)), suffix_bytes@);
    }
    let _ = path.extend_from_bytes(suffix_bytes);
    path
}

/// Opening a file is only allowed under `/usb/`; the file is then opened by
/// the C library in the mode asked for.
pub fn open(path: &[u8]) -> (r: Result<(), ()>)
    ensures
        r is Ok <==> starts_with(path@, usb_prefix()),
{
    let usb: [u8; 5] = [47u8, 117u8, 115u8, 98u8, 47u8];
    assert(usb@ == usb_prefix());
    if bytes_start_with(path, &usb) {
        Ok(())
    } else {
        Err(())
    }
}

/// The native path to `stat` for `path`: only paths under `/usb/` are
/// allowed, and the native path must fit in a `CString<64>`.
pub open spec fn stat_path(path: Seq<u8>) -> Result<Seq<u8>, FResult> {
    if !starts_with(path, usb_prefix()) {
        Err(FResult::InvalidName)
    } else {
        let drive = extended(Seq::empty(), seq![48u8, 58u8]);
        let rest = extended(drive.0, path.subrange(4, path.len() as int));
        match rest.1 {
            Ok(_) => Ok(rest.0),
            Err(_) => Err(FResult::InvalidName),
        }
    }
}

/// The checks `stat` makes before FatFs is asked, and the native path it
/// asks about.
pub fn stat(path: &[u8]) -> (r: Result<CString64, FResult>)
    ensures
        match stat_path(path@) {
            Ok(p) => r matches Ok(c) && c@ == p,
            Err(e) => r == Err::<CString64, FResult>(e),
        },
{
    match open(path) {
        Ok(()) => {},
        Err(()) => return Err(FResult::InvalidName),
    }
    let (_, rest) = path.split_at(4);
    let mut native = CString64::new();
    let drive: [u8; 2] = [48u8, 58u8];
    assert(drive@ == seq![48u8, 58u8]);
    proof {
        lemma_extend_plain(Seq::empty(), drive@);
        assert(Seq::<u8>::empty() + drive@ =~= drive@);
    }
    match native.extend_from_bytes(&drive) {
        Ok(()) => {},
        Err(_) => return Err(FResult::InvalidName),
    }
    match native.extend_from_bytes(rest) {
        Ok(()) => {},
        Err(_) => return Err(FResult::InvalidName),
    }
    Ok(native)
}

/// Whether the result of FatFs's `f_stat` is a success.
pub fn stat_result(res: FResult) -> (r: Result<(), FResult>)
    ensures
        res == FResult::Success ==> r is Ok,
        res != FResult::Success ==> r == Err::<(), FResult>(res),
{
    if res != FResult::Success {
        Err(res)
    } else {
        Ok(())
    }
}

// ---------------------------------------------------------------------------
// Modes
// ---------------------------------------------------------------------------

/// The `fopen` flags of a file mode.
pub trait Mode {
    fn as_cstr(&self) -> &'static str;
}

/// Marker for a mode whose files can be read.
pub trait ImplementsEmbeddedIoRead {}

/// Marker for a mode whose files can be written.
pub trait ImplementsEmbeddedIoWrite {}

/// Marker for opening a file read-only.
pub struct ReadBytes;

impl Mode for ReadBytes {
    fn as_cstr(&self) -> (r: &'static str)
        ensures
            r == "rb",
    {
        "rb"
    }
}

impl ImplementsEmbeddedIoRead for ReadBytes {}

/// Marker for opening a file for writing.
pub struct WriteBytes;

impl Mode for WriteBytes {
    fn as_cstr(&self) -> (r: &'static str)
        ensures
            r == "wb",
    {
        "wb"
    }
}

impl ImplementsEmbeddedIoWrite for WriteBytes {}

/// What `test_file` did: the file could not be opened, or this many bytes
/// were written and `fclose` then answered this.
#[derive(PartialEq, Eq, Structural, Debug, Clone, Copy)]
pub enum TestFileOutcome {
    NotOpened,
    Written(usize, i32),
}

/// The next call of the file test.
pub enum TestFileStep {
    /// `fopen` the file at `path` in `mode`.
    Open { path: Vec<u8>, mode: &'static str },
    /// `fwrite` these bytes to the open file.
    Write(Vec<u8>),
    /// `fclose` the open file.
    Close,
    /// The test is over.
    Done(TestFileOutcome),
}

/// The ASCII bytes of `/usb/test.txt`.
pub open spec fn test_path() -> Seq<u8> {
    "/usb/test.txt"@.map_values(|c: char| c as u8)
}

/// The ASCII bytes of `Hello World\n`.
pub open spec fn greeting() -> Seq<u8> {
    "Hello World\n"@.map_values(|c: char| c as u8)
}

/// The test writes `Hello World\n` to `/usb/test.txt`, opened for writing,
/// then closes it; given the answers so far of `fopen` (`opened`), `fwrite`
/// (`wrote`) and `fclose` (`closed`), this is the next step: nothing is
/// written or closed when `fopen` fails, and each call is made once.
pub open spec fn test_file_spec(opened: Option<bool>, wrote: Option<usize>, closed: Option<i32>, r: TestFileStep) -> bool {
    match opened {
        None => r matches TestFileStep::Open { path, mode } && path@ == test_path() && mode@ == "wb"@,
        Some(false) => r matches TestFileStep::Done(o) && o == TestFileOutcome::NotOpened,
        Some(true) => match wrote {
            None => r matches TestFileStep::Write(b) && b@ == greeting(),
            Some(n) => match closed {
                None => r is Close,
                Some(c) => r matches TestFileStep::Done(o) && o == TestFileOutcome::Written(n, c),
            },
        },
    }
}

/// Decides the next step of the file test from the answers so far.
pub fn test_file(opened: Option<bool>, wrote: Option<usize>, closed: Option<i32>) -> (r: TestFileStep)
    ensures
        test_file_spec(opened, wrote, closed, r),
{
    match opened {
        None => {
            let path = "/usb/test.txt".as_bytes();
            let mode = WriteBytes;
            let flags = mode.as_cstr();
            proof {
                reveal_strlit("/usb/test.txt");
                vstd::utf8::is_ascii_chars_encode_utf8("/usb/test.txt"@);
                assert(path@ =~= test_path());
            }
            TestFileStep::Open { path: copy_bytes(path), mode: flags }
        },
        Some(false) => TestFileStep::Done(TestFileOutcome::NotOpened),
        Some(true) => match wrote {
            None => {
                let text = "Hello World\n".as_bytes();
                proof {
                    reveal_strlit("Hello World\n");
                    vstd::utf8::is_ascii_chars_encode_utf8("Hello World\n"@);
                    assert(text@ =~= greeting());
                }
                TestFileStep::Write(copy_bytes(text))
            },
            Some(n) => match closed {
                None => TestFileStep::Close,
                Some(c) => TestFileStep::Done(TestFileOutcome::Written(n, c)),
            },
        },
    }
}

/// A copy of `b`.
fn copy_bytes(b: &[u8]) -> (r: Vec<u8>)
    ensures
        r@ == b@,
{
    let mut v: Vec<u8> = Vec::new();
    let mut i: usize = 0;
    while i < b.len()
        invariant
            i <= b@.len(),
            v@ == b@.subrange(0, i as int),
        decreases b@.len() - i,
    {
        v.push(b[i]);
        i = i + 1;
        assert(v@ =~= b@.subrange(0, i as int));
    }
    assert(b@.subrange(0, b@.len() as int) =~= b@);
    v
}

/// The error of a file operation.
#[derive(PartialEq, Eq, Structural, Debug, Clone, Copy)]
pub enum Error {
    IoError,
}

impl Error {
    pub fn message(&self) -> (r: &'static str)
        ensures
            r == "Internal ChanFS/stdio error.",
    {
        "Internal ChanFS/stdio error."
    }
}

/// What a flush of a file returns, given `fflush`'s result.
pub fn flush_result(res: i32) -> (r: Result<(), Error>)
    ensures
        r is Ok <==> res <= 0,
{
    if res > 0 {
        Err(Error::IoError)
    } else {
        Ok(())
    }
}

/// What a seek returns, given whether `fseek` failed and what `ftell`
/// then reports.
pub fn seek_result(seek_res: i32, tell: i64) -> (r: Result<u64, Error>)
    ensures
        seek_res != 0 ==> r == Err::<u64, Error>(Error::IoError),
        seek_res == 0 && tell < 0 ==> r == Err::<u64, Error>(Error::IoError),
        seek_res == 0 && tell >= 0 ==> r == Ok::<u64, Error>(tell as u64),
{
    if seek_res != 0 {
        return Err(Error::IoError);
    }
    if tell < 0 {
        Err(Error::IoError)
    } else {
        Ok(tell as u64)
    }
}

/// What a write returns: writing nothing succeeds at once without asking
/// the C library.
pub fn write_needs_call(buf: &[u8]) -> (r: bool)
    ensures
        r == (buf@.len() > 0),
{
    !buf.is_empty()
}

/// FatFs's `FRESULT` codes (see `ff.h`).
#[derive(PartialEq, Eq, Structural, Debug, Clone, Copy)]
pub enum FResult {
    Success,
    DiskErr,
    IntErr,
    NotReady,
    NoFile,
    NoPath,
    InvalidName,
    Denied,
    Exist,
    InvalidObject,
    WriteProtected,
    InvalidDrive,
    NotEnabled,
    NoFilesystem,
    MkfsAborted,
    Timeout,
    Locked,
    NotEnoughCore,
    TooManyOpenFiles,
    InvalidParameter,
}

impl FResult {
    /// The value the C side uses for this variant.
    pub open spec fn spec_code(self) -> u32 {
        match self {
            FResult::Success => 0,
            FResult::DiskErr => 1,
            FResult::IntErr => 2,
            FResult::NotReady => 3,
            FResult::NoFile => 4,
            FResult::NoPath => 5,
            FResult::InvalidName => 6,
            FResult::Denied => 7,
            FResult::Exist => 8,
            FResult::InvalidObject => 9,
            FResult::WriteProtected => 10,
            FResult::InvalidDrive => 11,
            FResult::NotEnabled => 12,
            FResult::NoFilesystem => 13,
            FResult::MkfsAborted => 14,
            FResult::Timeout => 15,
            FResult::Locked => 16,
            FResult::NotEnoughCore => 17,
            FResult::TooManyOpenFiles => 18,
            FResult::InvalidParameter => 19,
        }
    }

    pub fn code(&self) -> (r: u32)
        ensures
            r == self.spec_code(),
    {
        match self {
            FResult::Success => 0,
            FResult::DiskErr => 1,
            FResult::IntErr => 2,
            FResult::NotReady => 3,
            FResult::NoFile => 4,
            FResult::NoPath => 5,
            FResult::InvalidName => 6,
            FResult::Denied => 7,
            FResult::Exist => 8,
            FResult::InvalidObject => 9,
            FResult::WriteProtected => 10,
            FResult::InvalidDrive => 11,
            FResult::NotEnabled => 12,
            FResult::NoFilesystem => 13,
            FResult::MkfsAborted => 14,
            FResult::Timeout => 15,
            FResult::Locked => 16,
            FResult::NotEnoughCore => 17,
            FResult::TooManyOpenFiles => 18,
            FResult::InvalidParameter => 19,
        }
    }

    /// The variant with the C value `code`, if there is one.
    pub fn from_code(code: u32) -> (r: Option<FResult>)
        ensures
            r == FResult::from_code_spec(code),
            r matches Some(v) ==> v.spec_code() == code,
            r is None ==> forall|v: FResult| v.spec_code() != code,
    {
        if code == 0 {
            return Some(FResult::Success);
        }
        if code == 1 {
            return Some(FResult::DiskErr);
        }
        if code == 2 {
            return Some(FResult::IntErr);
        }
        if code == 3 {
            return Some(FResult::NotReady);
        }
        if code == 4 {
            return Some(FResult::NoFile);
        }
        if code == 5 {
            return Some(FResult::NoPath);
        }
        if code == 6 {
            return Some(FResult::InvalidName);
        }
        if code == 7 {
            return Some(FResult::Denied);
        }
        if code == 8 {
            return Some(FResult::Exist);
        }
        if code == 9 {
            return Some(FResult::InvalidObject);
        }
        if code == 10 {
            return Some(FResult::WriteProtected);
        }
        if code == 11 {
            return Some(FResult::InvalidDrive);
        }
        if code == 12 {
            return Some(FResult::NotEnabled);
        }
        if code == 13 {
            return Some(FResult::NoFilesystem);
        }
        if code == 14 {
            return Some(FResult::MkfsAborted);
        }
        if code == 15 {
            return Some(FResult::Timeout);
        }
        if code == 16 {
            return Some(FResult::Locked);
        }
        if code == 17 {
            return Some(FResult::NotEnoughCore);
        }
        if code == 18 {
            return Some(FResult::TooManyOpenFiles);
        }
        if code == 19 {
            return Some(FResult::InvalidParameter);
        }
        proof {
            assert forall|v: FResult| v.spec_code() != code by {
                match v {
                    FResult::Success => {},
                    FResult::DiskErr => {},
                    FResult::IntErr => {},
                    FResult::NotReady => {},
                    FResult::NoFile => {},
                    FResult::NoPath => {},
                    FResult::InvalidName => {},
                    FResult::Denied => {},
                    FResult::Exist => {},
                    FResult::InvalidObject => {},
                    FResult::WriteProtected => {},
                    FResult::InvalidDrive => {},
                    FResult::NotEnabled => {},
                    FResult::NoFilesystem => {},
                    FResult::MkfsAborted => {},
                    FResult::Timeout => {},
                    FResult::Locked => {},
                    FResult::NotEnoughCore => {},
                    FResult::TooManyOpenFiles => {},
                    FResult::InvalidParameter => {},
                }
            }
        }
        None
    }

    /// The description of the code.
    pub open spec fn spec_message(self) -> &'static str {
        match self {
            FResult::Success => "Succeeded",
            FResult::DiskErr => "A hard error occurred in the low level disk I/O layer",
            FResult::IntErr => "Assertion failed (internal FatFs error)",
            FResult::NotReady => "The physical drive cannot work",
            FResult::NoFile => "Could not find the file",
            FResult::NoPath => "Could not find the path",
            FResult::InvalidName => "The path name format is invalid",
            FResult::Denied => "Access denied due to prohibited access or directory full",
            FResult::Exist => "Access denied due to prohibited access",
            FResult::InvalidObject => "The file/directory object is invalid",
            FResult::WriteProtected => "The physical drive is write protected",
            FResult::InvalidDrive => "The logical drive number is invalid",
            FResult::NotEnabled => "The volume has no work area",
            FResult::NoFilesystem => "There is no valid FAT volume",
            FResult::MkfsAborted => "The f_mkfs() aborted due to any problem",
            FResult::Timeout => "Could not get a grant to access the volume within defined period",
            FResult::Locked => "The operation is rejected according to the file sharing policy",
            FResult::NotEnoughCore => "LFN working buffer could not be allocated",
            FResult::TooManyOpenFiles => "Number of open files > FF_FS_LOCK",
            FResult::InvalidParameter => "Given parameter is invalid",
        }
    }

    pub fn message(&self) -> (r: &'static str)
        ensures
            r == self.spec_message(),
    {
        match self {
            FResult::Success => "Succeeded",
            FResult::DiskErr => "A hard error occurred in the low level disk I/O layer",
            FResult::IntErr => "Assertion failed (internal FatFs error)",
            FResult::NotReady => "The physical drive cannot work",
            FResult::NoFile => "Could not find the file",
            FResult::NoPath => "Could not find the path",
            FResult::InvalidName => "The path name format is invalid",
            FResult::Denied => "Access denied due to prohibited access or directory full",
            FResult::Exist => "Access denied due to prohibited access",
            FResult::InvalidObject => "The file/directory object is invalid",
            FResult::WriteProtected => "The physical drive is write protected",
            FResult::InvalidDrive => "The logical drive number is invalid",
            FResult::NotEnabled => "The volume has no work area",
            FResult::NoFilesystem => "There is no valid FAT volume",
            FResult::MkfsAborted => "The f_mkfs() aborted due to any problem",
            FResult::Timeout => "Could not get a grant to access the volume within defined period",
            FResult::Locked => "The operation is rejected according to the file sharing policy",
            FResult::NotEnoughCore => "LFN working buffer could not be allocated",
            FResult::TooManyOpenFiles => "Number of open files > FF_FS_LOCK",
            FResult::InvalidParameter => "Given parameter is invalid",
        }
    }
}

impl FResult {
    /// The variant with the C value `code`, if there is one.
    pub open spec fn from_code_spec(code: u32) -> Option<FResult> {
        if code == 0 {
            Some(FResult::Success)
        } else if code == 1 {
            Some(FResult::DiskErr)
        } else if code == 2 {
            Some(FResult::IntErr)
        } else if code == 3 {
            Some(FResult::NotReady)
        } else if code == 4 {
            Some(FResult::NoFile)
        } else if code == 5 {
            Some(FResult::NoPath)
        } else if code == 6 {
            Some(FResult::InvalidName)
        } else if code == 7 {
            Some(FResult::Denied)
        } else if code == 8 {
            Some(FResult::Exist)
        } else if code == 9 {
            Some(FResult::InvalidObject)
        } else if code == 10 {
            Some(FResult::WriteProtected)
        } else if code == 11 {
            Some(FResult::InvalidDrive)
        } else if code == 12 {
            Some(FResult::NotEnabled)
        } else if code == 13 {
            Some(FResult::NoFilesystem)
        } else if code == 14 {
            Some(FResult::MkfsAborted)
        } else if code == 15 {
            Some(FResult::Timeout)
        } else if code == 16 {
            Some(FResult::Locked)
        } else if code == 17 {
            Some(FResult::NotEnoughCore)
        } else if code == 18 {
            Some(FResult::TooManyOpenFiles)
        } else if code == 19 {
            Some(FResult::InvalidParameter)
        } else {
            None
        }
    }
}

/// Each of FatFs's codes names one result: the code of a result reads back as that result.
pub proof fn law_fresult_codes_round_trip(v: FResult)
    ensures
        FResult::from_code_spec(v.spec_code()) == Some(v),
{
    match v {
        FResult::Success => {},
        FResult::DiskErr => {},
        FResult::IntErr => {},
        FResult::NotReady => {},
        FResult::NoFile => {},
        FResult::NoPath => {},
        FResult::InvalidName => {},
        FResult::Denied => {},
        FResult::Exist => {},
        FResult::InvalidObject => {},
        FResult::WriteProtected => {},
        FResult::InvalidDrive => {},
        FResult::NotEnabled => {},
        FResult::NoFilesystem => {},
        FResult::MkfsAborted => {},
        FResult::Timeout => {},
        FResult::Locked => {},
        FResult::NotEnoughCore => {},
        FResult::TooManyOpenFiles => {},
        FResult::InvalidParameter => {},
    }
}

} // verus!
