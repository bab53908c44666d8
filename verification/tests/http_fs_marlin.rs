use std::cell::RefCell;

use derusting::fs::{
    bytes_start_with, flush_result, make_path, open, seek_result, stat, stat_result, test_file,
    write_needs_call, CString64, Error, ExtendError, FResult, Mode, ReadBytes, TestFileOutcome,
    TestFileStep,
    WriteBytes,
};
use derusting::http::{index_html, BAD_REQUEST, OK};
use derusting::marlin::{extend_error_display, gcode_step, home, print, Error as MarlinError, GcodeStep};

#[test]
fn index_response_carries_length() {
    let r = index_html(b"<p>hi</p>");
    let text = String::from_utf8(r).unwrap();
    assert_eq!(
        text,
        "HTTP/1.1 200 OK\r\nContent-Type: text/html\r\nContent-Length: 9\r\nConnection: close\r\n\r\n<p>hi</p>"
    );
}

#[test]
fn fixed_responses() {
    assert!(BAD_REQUEST.starts_with("HTTP/1.1 400 Bad Request\r\n"));
    assert!(OK.ends_with("\r\n\r\npong"));
}

#[test]
fn c_string_extension_rules() {
    let mut s = CString64::new();
    assert_eq!(s.extend_from_bytes(b"abc"), Ok(()));
    assert_eq!(s.to_bytes(), b"abc".to_vec());
    assert_eq!(s.extend_from_bytes(b"d\0"), Ok(()));
    assert_eq!(s.to_bytes(), b"abcd".to_vec());
    assert_eq!(s.extend_from_bytes(b"x\0y"), Err(ExtendError::InteriorNul { position: 1 }));
    assert_eq!(s.to_bytes(), b"abcd".to_vec());
    let long = [b'a'; 60];
    assert_eq!(s.extend_from_bytes(&long), Err(ExtendError::Capacity));
    assert_eq!(s.to_bytes(), b"abcd".to_vec());
}

#[test]
fn job_paths() {
    let id: u128 = 0x67e5_5044_10b1_426f_9247_bb68_0e5f_e0c8;
    assert_eq!(
        make_path(id, false).to_bytes(),
        b"/usb/67e55044-10b1-426f-9247-bb680e5fe0c8.gcode".to_vec()
    );
    assert_eq!(
        make_path(id, true).to_bytes(),
        b"/usb/67e55044-10b1-426f-9247-bb680e5fe0c8.partial".to_vec()
    );
}

#[test]
fn only_usb_paths_open() {
    assert!(bytes_start_with(b"/usb/x", b"/usb/"));
    assert_eq!(open(b"/usb/test.txt"), Ok(()));
    assert_eq!(open(b"/sd/test.txt"), Err(()));
    assert_eq!(open(b"/usb"), Err(()));
}

#[test]
fn stat_uses_native_path() {
    let native = stat(b"/usb/firmware.bbf").unwrap();
    assert_eq!(native.to_bytes(), b"0:/firmware.bbf".to_vec());
    assert!(matches!(stat(b"/tmp/firmware.bbf"), Err(FResult::InvalidName)));
    let long = [b'a'; 70];
    let mut p = b"/usb/".to_vec();
    p.extend_from_slice(&long);
    assert!(matches!(stat(&p), Err(FResult::InvalidName)));
    assert_eq!(stat_result(FResult::Success), Ok(()));
    assert_eq!(stat_result(FResult::NoFile), Err(FResult::NoFile));
}

#[test]
fn fresult_codes_round_trip() {
    assert_eq!(FResult::InvalidParameter.code(), 19);
    assert_eq!(FResult::from_code(5), Some(FResult::NoPath));
    assert_eq!(FResult::from_code(20), None);
    assert_eq!(FResult::NoFile.message(), "Could not find the file");
}

#[test]
fn file_io_results() {
    assert_eq!(flush_result(0), Ok(()));
    assert_eq!(flush_result(-1), Ok(()));
    assert_eq!(flush_result(1), Err(Error::IoError));
    assert_eq!(seek_result(0, 42), Ok(42));
    assert_eq!(seek_result(-1, 42), Err(Error::IoError));
    assert_eq!(seek_result(0, -1), Err(Error::IoError));
    assert!(!write_needs_call(b""));
    assert!(write_needs_call(b"x"));
    assert_eq!(Error::IoError.message(), "Internal ChanFS/stdio error.");
    assert_eq!(ReadBytes.as_cstr(), "rb");
    assert_eq!(WriteBytes.as_cstr(), "wb");
}

/// Runs the file test with the given answers, recording the calls.
fn run_fs_test(open_ok: bool, close_answer: i32) -> (TestFileOutcome, Vec<String>) {
    let mut log = Vec::new();
    let (mut opened, mut wrote, mut closed) = (None, None, None);
    loop {
        match test_file(opened, wrote, closed) {
            TestFileStep::Open { path, mode } => {
                log.push(format!("open {} {}", String::from_utf8_lossy(&path), mode));
                opened = Some(open_ok);
            }
            TestFileStep::Write(b) => {
                log.push(format!("write {:?}", String::from_utf8_lossy(&b)));
                wrote = Some(b.len());
            }
            TestFileStep::Close => {
                log.push("close".to_string());
                closed = Some(close_answer);
            }
            TestFileStep::Done(o) => return (o, log),
        }
    }
}

#[test]
fn fs_test_file_writes_greeting() {
    let (r, log) = run_fs_test(true, 0);
    assert_eq!(r, TestFileOutcome::Written(12, 0));
    assert_eq!(
        log,
        vec!["open /usb/test.txt wb".to_string(), "write \"Hello World\\n\"".to_string(), "close".to_string()]
    );
    let (r, log) = run_fs_test(false, 0);
    assert_eq!(r, TestFileOutcome::NotOpened);
    assert_eq!(log, vec!["open /usb/test.txt wb".to_string()]);
}

/// Sends the commands through `gcode` as `gcode_step` says; returns the
/// result and what was sent.
fn send_all(cmds: Vec<Vec<u8>>, gcode: impl Fn(&[u8]) -> bool) -> (Result<(), MarlinError>, Vec<Vec<u8>>) {
    let mut sent = Vec::new();
    let mut answers = Vec::new();
    loop {
        match gcode_step(cmds.len(), &answers) {
            GcodeStep::Send(i) => {
                sent.push(cmds[i].clone());
                answers.push(gcode(&cmds[i]));
            }
            GcodeStep::Done(r) => return (r, sent),
        }
    }
}

#[test]
fn marlin_print_sends_m32() {
    let cmds = print(b"/usb/a.gcode", false, true).unwrap();
    let (r, sent) = send_all(cmds, |_: &[u8]| true);
    assert_eq!(r, Ok(()));
    assert_eq!(sent, vec![b"M32 /usb/a.gcode".to_vec()]);
}

#[test]
fn marlin_dry_run_first_sends_m111() {
    let cmds = print(b"/usb/a.gcode", true, true).unwrap();
    let (r, sent) = send_all(cmds.clone(), |_: &[u8]| true);
    assert_eq!(r, Ok(()));
    assert_eq!(sent, vec![b"M111 S8".to_vec(), b"M32 /usb/a.gcode".to_vec()]);
    let (r, sent) = send_all(cmds, |_: &[u8]| false);
    assert_eq!(r, Err(MarlinError::MarlinReturnedFalse));
    assert_eq!(sent, vec![b"M111 S8".to_vec()]);
}

#[test]
fn marlin_busy_and_errors() {
    assert_eq!(print(b"/usb/a.gcode", false, false), Err(MarlinError::Busy));
    let long = [b'a'; 70];
    assert_eq!(print(&long, false, true), Err(MarlinError::ExtendError(ExtendError::Capacity)));
    let (r, sent) = send_all(home(true).unwrap(), |c: &[u8]| c == b"G28");
    assert_eq!(r, Ok(()));
    assert_eq!(sent, vec![b"G28".to_vec()]);
    assert_eq!(home(false), Err(MarlinError::Busy));
    assert_eq!(MarlinError::Busy.message(), "the printer is is busy.");
    assert_eq!(
        MarlinError::ExtendError(ExtendError::InteriorNul { position: 3 }).message(),
        "Error build gcode: interior nul byte at 3."
    );
    assert_eq!(extend_error_display(ExtendError::Capacity), "insufficient capacity");
}
