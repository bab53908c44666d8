use derusting::http::{redirect_response, Method, BAD_REQUEST, METHOD_NOT_ALLOWED};
use derusting::tasks::tcp::{
    check_put_header, check_start_line, check_upload, route_request, route_when_busy, split_request,
    upload_job,
    Route, Upload, UploadStep, MAX_UPLOAD,
};
use derusting::tasks::{
    check_put_header as strict_check_put_header, route_request as strict_route_request,
    StrictRoute,
};

const PUT_REQ: &[u8] = b"PUT / HTTP/1.1\r\nguid: 67e55044-10b1-426f-9247-bb680e5fe0c8\r\nContent-Type: text/x.gcode\r\nContent-Length: 5\r\n\r\nG28\nM";

#[test]
fn requests_split_into_parts() {
    let (s, h, b) = split_request(b"GET / HTTP/1.1\r\nHost: x\r\nA: b\r\n\r\nbody").unwrap();
    assert_eq!(s, "GET / HTTP/1.1");
    assert_eq!(h, "Host: x\r\nA: b");
    assert_eq!(b, b"body");
    assert!(split_request(b"GET / HTTP/1.1").is_none());
    assert!(split_request(b"GET / HTTP/1.1\r\nHost: x\r\n").is_none());
    assert!(split_request(b"\xff\r\n\r\n\r\n").is_none());
}

#[test]
fn start_lines() {
    assert_eq!(check_start_line("GET / HTTP/1.1"), Ok(Method::Get));
    assert_eq!(check_start_line("PUT / HTTP/1.1"), Ok(Method::Put));
    assert_eq!(check_start_line("POST / HTTP/1.1"), Err(METHOD_NOT_ALLOWED));
    assert_eq!(check_start_line("GET /index.html HTTP/1.1"), Err(BAD_REQUEST));
    assert_eq!(check_start_line("GET"), Err(BAD_REQUEST));
    assert_eq!(check_start_line("PUT /"), Ok(Method::Put));
}

#[test]
fn put_headers_are_read() {
    let info = check_put_header(
        "guid: 67e55044-10b1-426f-9247-bb680e5fe0c8\r\ncontent-type:  text/x.gcode \r\nCONTENT-LENGTH: 42\nbroken line",
    );
    assert_eq!(info.size, Some(42));
    assert_eq!(info.guid, Some(0x67e5_5044_10b1_426f_9247_bb68_0e5f_e0c8));
    assert!(info.is_gcode);
    let info = check_put_header("Content-Type: text/plain\r\nContent-Length: x\r\nguid: nope");
    assert_eq!(info.size, None);
    assert_eq!(info.guid, None);
    assert!(!info.is_gcode);
}

#[test]
fn uploads_need_gcode_and_a_sane_size() {
    let mut info = check_put_header("Content-Type: text/x.gcode\r\nContent-Length: 10");
    assert_eq!(check_upload(&info), Some(10));
    info.size = Some(0);
    assert_eq!(check_upload(&info), None);
    info.size = Some(MAX_UPLOAD + 1);
    assert_eq!(check_upload(&info), None);
    info.size = Some(MAX_UPLOAD);
    assert_eq!(check_upload(&info), Some(MAX_UPLOAD));
    info.is_gcode = false;
    assert_eq!(check_upload(&info), None);
}

#[test]
fn routing_the_first_packet() {
    assert!(matches!(route_request(None), Route::Respond(r) if r == BAD_REQUEST));
    assert!(matches!(route_request(Some(b"GET / HTTP/1.1\r\n\r\n\r\n")), Route::Index));
    assert!(matches!(route_request(Some(b"DELETE / HTTP/1.1\r\nA: b\r\n\r\n")), Route::Respond(r) if r == METHOD_NOT_ALLOWED));
    match route_request(Some(PUT_REQ)) {
        Route::Upload { info, size, body } => {
            assert_eq!(size, 5);
            assert_eq!(body, b"G28\nM");
            assert_eq!(info.guid, Some(0x67e5_5044_10b1_426f_9247_bb68_0e5f_e0c8));
        }
        _ => panic!("the upload is accepted"),
    }
    assert!(matches!(
        route_request(Some(b"PUT / HTTP/1.1\r\nContent-Length: 5\r\n\r\nabcde")),
        Route::Respond(r) if r == BAD_REQUEST
    ));
}

#[test]
fn upload_counts_down() {
    let mut up = Upload::new(10);
    assert_eq!(up.take(4), 4);
    assert!(!up.is_complete());
    assert_eq!(up.take(100), 6);
    assert!(up.is_complete());
    assert_eq!(up.take(3), 0);
}

#[test]
fn upload_keeps_the_bytes_sent() {
    let mut up = Upload::new(7);
    let mut stored = Vec::new();
    for chunk in [&b"abc"[..], &b"defg"[..], &b"hij"[..]] {
        stored.extend_from_slice(up.accept(chunk));
    }
    assert_eq!(stored, b"abcdefg".to_vec());
    assert!(up.is_complete());
    let mut short = Upload::new(10);
    assert_eq!(short.accept(b"xy"), b"xy");
    assert_eq!(short.remaining, 8);
}

#[test]
fn upload_job_identity() {
    let info = check_put_header("guid: 67e55044-10b1-426f-9247-bb680e5fe0c8");
    assert_eq!(upload_job(&info, 5), Ok((0x67e5_5044_10b1_426f_9247_bb68_0e5f_e0c8, false)));
    let info = check_put_header("Content-Length: 3");
    let (id, is_new) = upload_job(&info, 123_456).unwrap();
    assert!(is_new);
    assert_eq!((id >> 80) as u64, 123_456);
}

#[test]
fn strict_server_headers() {
    assert_eq!(strict_check_put_header("Content-Length: 12\r\nContent-Type: text/x.gcode"), Ok(12));
    assert_eq!(strict_check_put_header("content-length: 12\ncontent-type:text/x.gcode"), Ok(12));
    assert_eq!(strict_check_put_header("Content-Length: 12"), Err(BAD_REQUEST));
    assert_eq!(strict_check_put_header("Content-Length: 12\r\nHost"), Err(BAD_REQUEST));
    assert_eq!(strict_check_put_header("CONTENT-LENGTH: 12\r\nContent-Type: text/x.gcode"), Err(BAD_REQUEST));
    assert_eq!(strict_check_put_header("Content-Length: 0\r\nContent-Type: text/x.gcode"), Err(BAD_REQUEST));
}

#[test]
fn strict_server_routing() {
    assert!(matches!(strict_route_request(None), StrictRoute::Respond(r) if r == BAD_REQUEST));
    assert!(matches!(strict_route_request(Some(b"GET / HTTP/1.1\r\nA: b\r\n\r\n")), StrictRoute::Index));
    match strict_route_request(Some(b"PUT / HTTP/1.1\r\nContent-Length: 3\r\nContent-Type: text/x.gcode\r\n\r\nabc")) {
        StrictRoute::Upload { size, body } => {
            assert_eq!(size, 3);
            assert_eq!(body, b"abc");
        }
        _ => panic!("the upload is accepted"),
    }
}

#[test]
fn a_busy_machine_redirects_uploads() {
    let others = vec![0x0a00_0011u32, 0x0a00_0007, 0x0a00_0020];
    let r = route_when_busy(route_request(Some(PUT_REQ)), false, &others);
    assert!(matches!(r, Route::Redirect(0x0a00_0007)));
    let r = route_when_busy(route_request(Some(PUT_REQ)), false, &vec![]);
    assert!(matches!(r, Route::Upload { size: 5, .. }));
    let r = route_when_busy(route_request(Some(PUT_REQ)), true, &others);
    assert!(matches!(r, Route::Upload { size: 5, .. }));
    let r = route_when_busy(route_request(Some(b"GET / HTTP/1.1\r\n\r\n\r\n")), false, &others);
    assert!(matches!(r, Route::Index));
    assert_eq!(
        redirect_response(0x0a00_0007, 8080),
        b"HTTP/1.1 307 Temporary Redirect\r\nLocation: http://10.0.0.7:8080/\r\nContent-length:0\r\nConnection: close\r\n\r\n".to_vec()
    );
    assert_eq!(
        redirect_response(0xc0a8_01fe, 80),
        b"HTTP/1.1 307 Temporary Redirect\r\nLocation: http://192.168.1.254:80/\r\nContent-length:0\r\nConnection: close\r\n\r\n".to_vec()
    );
}

#[test]
fn upload_steps_write_finish_and_abandon() {
    let mut up = Upload::new(5);
    assert!(matches!(up.step(Some(b"abc")), UploadStep::Write(w) if w == b"abc"));
    assert!(matches!(up.step(Some(b"defgh")), UploadStep::Finish(w) if w == b"de"));
    assert!(matches!(up.step(None), UploadStep::Finish(w) if w.is_empty()));
    let mut up = Upload::new(4);
    assert!(matches!(up.step(Some(b"ab")), UploadStep::Write(w) if w == b"ab"));
    assert!(matches!(up.step(None), UploadStep::Abandon));
    assert_eq!(up.remaining, 2);
}

#[test]
fn steps_store_the_bytes_sent() {
    let mut up = Upload::new(7);
    let mut stored: Vec<u8> = Vec::new();
    for chunk in [&b"abc"[..], &b""[..], &b"defgh"[..], &b"ij"[..]] {
        match up.step(Some(chunk)) {
            UploadStep::Write(w) | UploadStep::Finish(w) => stored.extend_from_slice(w),
            UploadStep::Abandon => panic!("no reset"),
        }
    }
    assert_eq!(stored, b"abcdefg".to_vec());
}
