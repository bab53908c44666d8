use derusting::chanfs::FileResult;
use derusting::free_rtos::FreeRtosError;
use derusting::fs::FResult;
use derusting::log::Severity;
use derusting::lwip::bindings::err_t;
use derusting::lwip::put::put_headers;
use derusting::tasks::rng::HalStatus;
use derusting::tasks::tcp::{route_request, Route};

const GUID: u128 = 0x0190_d3a4_5c11_7abc_8def_0123_4567_89ab;

#[test]
fn a_shared_file_is_accepted_by_the_receiver() {
    let mut request = put_headers(GUID, 5);
    request.extend_from_slice(b"G28\nM");
    match route_request(Some(&request)) {
        Route::Upload { info, size, body } => {
            assert_eq!(size, 5);
            assert_eq!(body, b"G28\nM");
            assert_eq!(info.size, Some(5));
            assert_eq!(info.guid, Some(GUID));
            assert!(info.is_gcode);
        }
        _ => panic!("the receiver takes the upload"),
    }
}

#[test]
fn a_large_shared_file_is_accepted() {
    let request = put_headers(7, 1_000_000);
    match route_request(Some(&request)) {
        Route::Upload { info, size, body } => {
            assert_eq!(size, 1_000_000);
            assert!(body.is_empty());
            assert_eq!(info.guid, Some(7));
        }
        _ => panic!("the receiver takes the upload"),
    }
}

#[test]
fn err_t_codes_round_trip() {
    let all = [
        err_t::Success, err_t::Mem, err_t::Buf, err_t::Timeout, err_t::Rte, err_t::InProgress,
        err_t::Val, err_t::WouldBlock, err_t::Use, err_t::Already, err_t::IsConn, err_t::Conn,
        err_t::If, err_t::Abrt, err_t::Rst, err_t::Clsd, err_t::Arg,
    ];
    for v in all {
        assert_eq!(err_t::from_code(v.code()), Some(v));
    }
}

#[test]
fn fatfs_codes_round_trip() {
    for code in 0..20u32 {
        let v = FResult::from_code(code).unwrap();
        assert_eq!(v.code(), code);
        assert_eq!(FileResult::from_primitive(code).into_result().is_ok(), code == 0);
    }
    assert_eq!(FileResult::from_primitive(300), FileResult::Unknown(300));
}

#[test]
fn other_codes_round_trip() {
    for v in [FreeRtosError::InsufficientHeapMemory, FreeRtosError::GenericFailure, FreeRtosError::Unknown, FreeRtosError::Success] {
        assert_eq!(FreeRtosError::from_code(v.code()), Some(v));
    }
    for v in [HalStatus::Success, HalStatus::Error, HalStatus::Busy, HalStatus::Timeout] {
        assert_eq!(HalStatus::from_code(v.code()), Some(v));
    }
    for v in [Severity::Debug, Severity::Info, Severity::Warning, Severity::Error, Severity::Critical] {
        assert_eq!(Severity::from_code(v.code()), Some(v));
    }
}
