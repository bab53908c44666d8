use std::cell::RefCell;

use derusting::fs::FResult;
use derusting::lwip::bindings::{err_t, ip_addr_t, netif, pbuf_layer, pbuf_type};
use derusting::lwip::ipaddr::{Error as IpError, IpAddr};
use derusting::lwip::packet_buffer::{chain_total, PacketBuffer};
use derusting::lwip::put::{
    pump_fill, pump_need, pump_offer, pump_reply, pump_written, put_file, put_headers, send_finish, PutRequest,
    Reply, RequestStep, SetupStep, StagingBuffer, BUF_CAP,
};
use derusting::lwip::tcp::{
    AcceptStep, Accepted, AttachStep, ListenStep, PicoWriter, RecvStep, ResponseStep, TcpConnection, TcpListener,
};
use derusting::lwip::udp::{BindStep, BroadcastStep, UdpSocket};
use derusting::lwip::{my_ipaddr, to_host_order};

const GUID: u128 = 0x67e5_5044_10b1_426f_9247_bb68_0e5f_e0c8;

#[test]
fn err_t_codes_and_messages() {
    assert_eq!(err_t::Success.code(), 0);
    assert_eq!(err_t::Arg.code(), -16);
    assert_eq!(err_t::from_code(-6), Some(err_t::Val));
    assert_eq!(err_t::from_code(-17), None);
    assert_eq!(err_t::from_code(1), None);
    assert_eq!(err_t::Clsd.message(), "Connection closed");
    assert_eq!(err_t::Success.message(), "Ok: No error, all is ok");
}

#[test]
fn pbuf_flags() {
    assert_eq!(pbuf_layer::Transport.value(), 54);
    assert_eq!(pbuf_layer::Raw.value(), 0);
    assert_eq!(pbuf_type::Ram.value(), 0x280);
    assert_eq!(pbuf_type::Pool.value(), 0x182);
    assert_eq!(pbuf_type::Ref.value(), 0x41);
}

#[test]
fn addresses_in_host_order() {
    let raw = u32::from_ne_bytes([192, 168, 1, 20]);
    assert_eq!(to_host_order(raw), u32::from_be_bytes([192, 168, 1, 20]));
    let ip = ip_addr_t { addr: raw };
    let n = netif { ip_addr: ip, netmask: ip_addr_t { addr: 0 }, gateway: ip_addr_t { addr: 0 } };
    assert_eq!(my_ipaddr(Some(&n)), Some(u32::from_be_bytes([192, 168, 1, 20])));
    assert_eq!(my_ipaddr(None), None);
}

#[test]
fn ip_addr_needs_a_value() {
    assert!(matches!(IpAddr::try_from(None), Err(IpError::Null)));
    assert_eq!(IpAddr::try_from(Some(ip_addr_t { addr: 7 })).ok().unwrap().addr(), 7);
    assert_eq!(IpError::Null.message(), "Value is null.");
}

#[test]
fn packet_buffer_chains() {
    assert_eq!(chain_total(&vec![vec![1u8; 3], vec![2u8; 4]]), Some(7));
    assert_eq!(chain_total(&vec![vec![0u8; 40_000], vec![0u8; 40_000]]), None);
    assert!(PacketBuffer::try_from(None).is_err());
    let pb = PacketBuffer::try_from(Some(vec![b"ab".to_vec(), b"cde".to_vec()])).ok().unwrap();
    assert_eq!(pb.total_len(), 5);
    let mut it = pb.into_iter();
    assert_eq!(it.next(), Some(b"ab".to_vec()));
    assert_eq!(it.next(), Some(b"cde".to_vec()));
    assert_eq!(it.next(), None);
    assert_eq!(it.next(), None);
}

#[test]
fn allocated_buffers_fit_sixteen_bits() {
    let pb = PacketBuffer::allocate(vec![9u8; 100]).unwrap();
    assert_eq!(pb.total_len(), 100);
    assert!(PacketBuffer::allocate(vec![0u8; 65_536]).is_none());
    assert_eq!(PacketBuffer::allocate(vec![0u8; 65_535]).unwrap().total_len(), 65_535);
}

#[test]
fn put_request_head() {
    let head = String::from_utf8(put_headers(GUID, 1234)).unwrap();
    assert_eq!(
        head,
        "PUT / HTTP/1.1\r\nguid: 67e55044-10b1-426f-9247-bb680e5fe0c8\r\nContent-Type: text/x.gcode\r\n\nContent-Length: 1234\r\nConnection: close\r\n\r\n"
    );
}

/// Makes a request through `make` (`PutRequest::new` or `put_file`),
/// answering `f_stat` with `stat` and the open with `opens`; gives the
/// result and the paths handed to the calls.
fn drive_request<E>(
    make: impl Fn(Option<(FResult, u32)>, Option<bool>) -> RequestStep<E>,
    stat: (FResult, u32),
    opens: bool,
) -> (Result<PutRequest, E>, Vec<String>) {
    let mut seen = Vec::new();
    let (mut st, mut op) = (None, None);
    loop {
        match make(st, op) {
            RequestStep::Stat(p) => {
                seen.push(String::from_utf8_lossy(&p).to_string());
                st = Some(stat);
            }
            RequestStep::Open(p) => {
                seen.push(String::from_utf8_lossy(&p).to_string());
                op = Some(opens);
            }
            RequestStep::Done(r) => return (r, seen),
        }
    }
}

fn ok_request() -> PutRequest {
    drive_request(|s, o| PutRequest::new(GUID, 0x0a00_0009, 8080, s, o), (FResult::Success, 3000), true)
        .0
        .ok()
        .unwrap()
}

#[test]
fn put_request_reads_file_size() {
    let (r, seen) = drive_request(|s, o| PutRequest::new(GUID, 0x0a00_0009, 8080, s, o), (FResult::Success, 3000), true);
    let req = r.ok().unwrap();
    assert_eq!(req.fsize, 3000);
    assert!(!req.pcb);
    assert_eq!(req.buf.len(), 0);
    assert_eq!(
        seen,
        vec![
            "0:/67e55044-10b1-426f-9247-bb680e5fe0c8.gcode".to_string(),
            "/usb/67e55044-10b1-426f-9247-bb680e5fe0c8.gcode".to_string()
        ]
    );
}

#[test]
fn put_request_errors() {
    let (r, seen) = drive_request(|s, o| PutRequest::new(GUID, 1, 2, s, o), (FResult::NoFile, 0), true);
    assert!(matches!(r, Err(FResult::NoFile)));
    assert_eq!(seen.len(), 1);
    let (r, _) = drive_request(|s, o| PutRequest::new(GUID, 1, 2, s, o), (FResult::Success, 5), false);
    assert!(matches!(r, Err(FResult::NoPath)));
    let (r, _) = drive_request(|s, o| put_file(GUID, 1, 2, s, o), (FResult::Denied, 0), true);
    assert!(matches!(r, Err(err_t::Val)));
    assert!(drive_request(|s, o| put_file(GUID, 1, 2, s, o), (FResult::Success, 5), true).0.is_ok());
}

/// One pump through the library's four steps, with the given file reader,
/// send-buffer room and `tcp_write`; `tcp_output` is counted in `outputs`.
fn pump(
    buf: &mut StagingBuffer,
    read: impl Fn(usize) -> Vec<u8>,
    room: impl Fn() -> u16,
    write: impl Fn(&[u8]) -> err_t,
    output: impl Fn() -> err_t,
) -> Result<(), err_t> {
    if let Some(n) = pump_need(buf) {
        let mut got = read(n);
        got.truncate(n);
        pump_fill(buf, &got);
    }
    match pump_offer(buf, room()) {
        None => Ok(()),
        Some(w) => {
            let e = write(&w);
            let (r, out) = pump_written(buf, w.len(), e);
            if out {
                let _ = output();
            }
            r
        }
    }
}

#[test]
fn pump_offers_what_fits() {
    let mut buf = StagingBuffer::new();
    let _ = buf.extend_from_slice(b"0123456789");
    let written = RefCell::new(Vec::<u8>::new());
    let r = pump(
        &mut buf,
        |n: usize| {
            assert_eq!(n, BUF_CAP - 10);
            b"abc".to_vec()
        },
        || 4,
        |w: &[u8]| {
            written.borrow_mut().extend_from_slice(w);
            err_t::Success
        },
        || err_t::Success,
    );
    assert_eq!(r, Ok(()));
    assert_eq!(*written.borrow(), b"0123".to_vec());
    assert_eq!(buf.len(), 9);
}

#[test]
fn pump_keeps_data_when_lwip_is_out_of_memory() {
    let mut buf = StagingBuffer::new();
    let _ = buf.extend_from_slice(b"0123456789");
    let r = pump(&mut buf, |_: usize| Vec::new(), || 100, |_: &[u8]| err_t::Mem, || err_t::Success);
    assert_eq!(r, Ok(()));
    assert_eq!(buf.len(), 10);
    let r = pump(&mut buf, |_: usize| Vec::new(), || 100, |_: &[u8]| err_t::Rst, || err_t::Success);
    assert_eq!(r, Err(err_t::Rst));
    assert_eq!(buf.len(), 10);
    let r = pump(&mut buf, |_: usize| Vec::new(), || 0, |_: &[u8]| err_t::Rst, || err_t::Success);
    assert_eq!(r, Ok(()));
}

#[test]
fn staging_buffer_refuses_overflow() {
    let mut buf = StagingBuffer::new();
    assert_eq!(buf.extend_from_slice(&[0u8; 1000]), Ok(()));
    assert_eq!(buf.extend_from_slice(&[0u8; 25]), Err(()));
    assert_eq!(buf.len(), 1000);
    assert_eq!(buf.extend_from_slice(&[0u8; 24]), Ok(()));
    assert_eq!(buf.len(), BUF_CAP);
}

#[test]
fn connecting_stages_the_head() {
    let mut req = ok_request();
    let sent = RefCell::new(Vec::<u8>::new());
    assert_eq!(req.connected(err_t::Success), None);
    let reply = pump_reply(pump(
        &mut req.buf,
        |_: usize| b"G28".to_vec(),
        || 1000,
        |w: &[u8]| {
            sent.borrow_mut().extend_from_slice(w);
            err_t::Success
        },
        || err_t::Success,
    ));
    assert_eq!(reply, Reply { ret: err_t::Success, signal: None });
    let mut expected = put_headers(GUID, 3000);
    expected.extend_from_slice(b"G28");
    assert_eq!(*sent.borrow(), expected);
    assert_eq!(req.buf.len(), 0);
    let mut req = ok_request();
    assert_eq!(req.connected(err_t::Rst), Some(Reply { ret: err_t::Rst, signal: Some(err_t::Rst) }));
    assert_eq!(req.buf.len(), 0);
}

#[test]
fn sent_callback_reports_write_errors() {
    let mut req = ok_request();
    let reply = pump_reply(pump(&mut req.buf, |_: usize| b"abc".to_vec(), || 10, |_: &[u8]| err_t::Conn, || err_t::Success));
    assert_eq!(reply, Reply { ret: err_t::Conn, signal: Some(err_t::Conn) });
    assert_eq!(req.buf.len(), 3);
}

#[test]
fn answers_end_the_request() {
    let req = ok_request();
    assert_eq!(req.recv(err_t::Success, None), Reply { ret: err_t::Success, signal: Some(err_t::Clsd) });
    let pb = PacketBuffer::allocate(b"HTTP/1.1 200 OK".to_vec());
    assert_eq!(req.recv(err_t::Success, pb), Reply { ret: err_t::Success, signal: Some(err_t::Success) });
    assert_eq!(req.recv(err_t::Abrt, None), Reply { ret: err_t::Abrt, signal: Some(err_t::Abrt) });
    assert_eq!(send_finish(err_t::Success), Ok(()));
    assert_eq!(send_finish(err_t::Clsd), Err(err_t::Clsd));
}

/// Sets the request's connection up, answering `tcp_new` with `made` and
/// `tcp_connect` with `connect`; gives the result and the calls made.
fn drive_setup(req: &mut PutRequest, made: bool, connect: impl Fn(u32, u16) -> err_t) -> (Result<(), err_t>, Vec<String>) {
    let mut calls = Vec::new();
    let (mut m, mut c) = (None, None);
    loop {
        match req.send_setup(m, c) {
            SetupStep::New => {
                calls.push("new".to_string());
                m = Some(made);
            }
            SetupStep::RegisterAndConnect(a, p) => {
                calls.push(format!("connect {a:#x} {p}"));
                c = Some(connect(a, p));
            }
            SetupStep::Done(r) => return (r, calls),
        }
    }
}

#[test]
fn a_new_request_connects_in_network_order() {
    let mut req = ok_request();
    assert_eq!(drive_setup(&mut req, false, |_: u32, _: u16| err_t::Success), (Err(err_t::Mem), vec!["new".to_string()]));
    assert!(!req.pcb);
    assert_eq!(drive_setup(&mut req, true, |_: u32, _: u16| err_t::Rte).0, Err(err_t::Rte));
    assert!(!req.pcb);
    let (r, calls) = drive_setup(&mut req, true, |a: u32, p: u16| if a == 0x0900_000a && p == 8080 { err_t::Success } else { err_t::Arg });
    assert_eq!(r, Ok(()));
    assert_eq!(calls, vec!["new".to_string(), "connect 0x900000a 8080".to_string()]);
    assert!(req.pcb);
    let (again, calls) = drive_setup(&mut req, true, |_: u32, _: u16| err_t::Success);
    assert_eq!(again, Err(err_t::Val));
    assert!(calls.is_empty());
}

/// Listens through `TcpListener::listen` with the given answers; gives
/// the result and the calls made.
fn drive_listen(l: &mut TcpListener, made: bool, bind: err_t, listens: bool) -> (Result<(), err_t>, Vec<String>) {
    let mut calls = Vec::new();
    let (mut m, mut b, mut li) = (None, None, None);
    loop {
        match l.listen(8080, m, b, li) {
            ListenStep::New => {
                calls.push("new".to_string());
                m = Some(made);
            }
            ListenStep::Bind(p) => {
                calls.push(format!("bind {p}"));
                b = Some(bind);
            }
            ListenStep::Listen(backlog) => {
                calls.push(format!("listen {backlog}"));
                li = Some(listens);
            }
            ListenStep::CloseAndFail(e) => {
                calls.push("close".to_string());
                return (Err(e), calls);
            }
            ListenStep::Register => {
                calls.push("register".to_string());
                return (Ok(()), calls);
            }
            ListenStep::Fail(e) => return (Err(e), calls),
        }
    }
}

#[test]
fn listening() {
    let mut l = TcpListener::new();
    let (r, calls) = drive_listen(&mut l, true, err_t::Use, true);
    assert_eq!(r, Err(err_t::Use));
    assert_eq!(calls, vec!["new", "bind 8080", "close"]);
    assert!(!l.pcb);
    assert_eq!(drive_listen(&mut l, false, err_t::Success, true), (Err(err_t::Mem), vec!["new".to_string()]));
    assert_eq!(drive_listen(&mut l, true, err_t::Success, false).0, Err(err_t::Mem));
    let (r, calls) = drive_listen(&mut l, true, err_t::Success, true);
    assert_eq!(r, Ok(()));
    assert_eq!(calls, vec!["new", "bind 8080", "listen 2", "register"]);
    assert!(l.pcb);
    assert_eq!(drive_listen(&mut l, true, err_t::Success, true), (Err(err_t::Val), Vec::<String>::new()));
}

/// Runs the accept callback with the given queue answer; gives lwIP's
/// answer, the outcome and the calls made.
fn drive_accept(err: err_t, pcb: bool, listener: bool, room: bool) -> (err_t, Accepted, Vec<&'static str>) {
    let mut calls = Vec::new();
    let mut queued = None;
    loop {
        let (ret, step) = TcpListener::accept(err, pcb, listener, queued);
        match step {
            AcceptStep::HoldAndQueue => {
                calls.push("hold and queue");
                queued = Some(room);
            }
            AcceptStep::Abort => {
                calls.push("abort");
                return (ret, Accepted::Aborted, calls);
            }
            AcceptStep::Done(a) => return (ret, a, calls),
        }
    }
}

#[test]
fn accepting() {
    assert_eq!(drive_accept(err_t::Success, true, true, true), (err_t::Success, Accepted::Queued, vec!["hold and queue"]));
    assert_eq!(
        drive_accept(err_t::Success, true, true, false),
        (err_t::Success, Accepted::Aborted, vec!["hold and queue", "abort"])
    );
    assert_eq!(drive_accept(err_t::Mem, true, true, true), (err_t::Success, Accepted::Ignored, vec![]));
    assert_eq!(drive_accept(err_t::Success, false, true, true), (err_t::Success, Accepted::Ignored, vec![]));
}

/// Answers through `TcpConnection::response` with the given answers;
/// gives the result and the calls made.
fn drive_response(conn: &TcpConnection, bytes: &[u8], write: err_t, output: err_t) -> (Result<(), err_t>, Vec<&'static str>) {
    let mut calls = Vec::new();
    let (mut w, mut o) = (None, None);
    loop {
        match conn.response(bytes, w, o) {
            ResponseStep::Write => {
                calls.push("write");
                w = Some(write);
            }
            ResponseStep::Output => {
                calls.push("output");
                o = Some(output);
            }
            ResponseStep::Done(r) => return (r, calls),
        }
    }
}

/// Attaches the callbacks, answering whether refused data waits with
/// `refused`; gives the result and the calls made.
fn drive_attach(conn: &TcpConnection, refused: bool) -> (Result<(), err_t>, Vec<&'static str>) {
    let mut calls = Vec::new();
    let (mut r, mut p) = (None, None);
    loop {
        match conn.attach_callbacks(r, p) {
            AttachStep::RegisterAndAsk => {
                calls.push("register and ask");
                r = Some(refused);
            }
            AttachStep::ProcessRefused => {
                calls.push("process");
                p = Some(err_t::Success);
            }
            AttachStep::Done(res) => return (res, calls),
        }
    }
}

#[test]
fn connection_callbacks() {
    let mut conn = TcpConnection::new(true);
    assert_eq!(drive_attach(&conn, true), (Ok(()), vec!["register and ask", "process"]));
    assert_eq!(drive_attach(&conn, false), (Ok(()), vec!["register and ask"]));
    let pb = PacketBuffer::allocate(vec![1u8; 300]).unwrap();
    assert_eq!(conn.received(&pb), Some(300));
    assert_eq!(drive_response(&conn, b"hi", err_t::Success, err_t::Success), (Ok(()), vec!["write", "output"]));
    assert_eq!(drive_response(&conn, b"hi", err_t::Mem, err_t::Success), (Err(err_t::Mem), vec!["write"]));
    assert_eq!(drive_response(&conn, b"hi", err_t::Success, err_t::Rte), (Err(err_t::Rte), vec!["write", "output"]));
    assert_eq!(drive_response(&conn, &vec![0u8; 70_000], err_t::Success, err_t::Success), (Err(err_t::Val), vec![]));
    conn.on_err();
    assert!(!conn.pcb);
    assert_eq!(conn.received(&pb), None);
    assert_eq!(drive_response(&conn, b"hi", err_t::Success, err_t::Success), (Err(err_t::Mem), vec![]));
    assert_eq!(drive_attach(&conn, true), (Err(err_t::Val), vec![]));
}

/// Runs the receive callback with the given queue answer; gives lwIP's
/// answer and whether something was queued.
fn drive_recv(conn: bool, end: bool, room: bool) -> (err_t, bool) {
    let mut queued = None;
    loop {
        match TcpConnection::on_recv(conn, end, queued) {
            RecvStep::Queue => queued = Some(room),
            RecvStep::Done(r) => return (r, queued.is_some()),
        }
    }
}

#[test]
fn receiving_packets() {
    assert_eq!(drive_recv(false, false, true), (err_t::Val, false));
    assert_eq!(drive_recv(true, true, true), (err_t::Success, true));
    assert_eq!(drive_recv(true, false, false), (err_t::Mem, true));
    assert_eq!(drive_recv(true, false, true), (err_t::Success, true));
}

#[test]
fn closing_acknowledges_queued_packets() {
    let queue = vec![
        PacketBuffer::allocate(vec![0u8; 10]),
        None,
        PacketBuffer::allocate(vec![0u8; 7]),
    ];
    assert_eq!(TcpConnection::drain_acknowledgements(&queue), vec![10u16, 7]);
    assert!(TcpConnection::drain_acknowledgements(&vec![]).is_empty());
}

#[test]
fn pico_writer_counts_bytes() {
    let w = PicoWriter { conn: TcpConnection::new(true) };
    assert_eq!(w.write(b"abcd", Ok(())), 4);
    assert_eq!(w.write(b"abcd", Err(err_t::Mem)), 0);
}

/// Broadcasts through `UdpSocket::broadcast`, answering `udp_sendto` with
/// `answer`; gives the result and where the packet was sent, if anywhere.
fn drive_broadcast(s: &UdpSocket, answer: err_t) -> (Result<(), err_t>, Option<(u32, u16)>) {
    let mut sent = None;
    let mut to = None;
    loop {
        match s.broadcast(9090, sent) {
            BroadcastStep::SendTo(a, p) => {
                to = Some((a.addr, p));
                sent = Some(answer);
            }
            BroadcastStep::Done(r) => return (r, to),
        }
    }
}

/// Binds through `UdpSocket::bind` with the given answers; gives the
/// result and the calls made.
fn drive_bind(s: &mut UdpSocket, made: bool, bind: err_t) -> (Result<(), err_t>, Vec<String>) {
    let mut calls = Vec::new();
    let (mut m, mut b) = (None, None);
    loop {
        match s.bind(9090, m, b) {
            BindStep::New => {
                calls.push("new".to_string());
                m = Some(made);
            }
            BindStep::Bind(p) => {
                calls.push(format!("bind {p}"));
                b = Some(bind);
            }
            BindStep::Register => {
                calls.push("register".to_string());
                return (Ok(()), calls);
            }
            BindStep::RemoveAndFail(e) => {
                calls.push("remove".to_string());
                return (Err(e), calls);
            }
            BindStep::Fail(e) => return (Err(e), calls),
        }
    }
}

#[test]
fn udp_socket() {
    let mut s = UdpSocket::new();
    assert_eq!(drive_broadcast(&s, err_t::Success), (Err(err_t::Val), None));
    let (r, calls) = drive_bind(&mut s, true, err_t::Use);
    assert_eq!(r, Err(err_t::Use));
    assert_eq!(calls, vec!["new", "bind 9090", "remove"]);
    assert!(!s.pcb);
    let (r, calls) = drive_bind(&mut s, false, err_t::Success);
    assert_eq!(r, Err(err_t::Mem));
    assert_eq!(calls, vec!["new"]);
    let (r, calls) = drive_bind(&mut s, true, err_t::Success);
    assert_eq!(r, Ok(()));
    assert_eq!(calls, vec!["new", "bind 9090", "register"]);
    assert!(s.pcb);
    assert_eq!(drive_broadcast(&s, err_t::Success), (Ok(()), Some((u32::MAX, 9090))));
    assert_eq!(drive_broadcast(&s, err_t::Rte), (Err(err_t::Rte), Some((u32::MAX, 9090))));
}

#[test]
fn udp_receive_callback() {
    let raw = u32::from_ne_bytes([10, 0, 0, 7]);
    let pb = PacketBuffer::allocate(vec![5]);
    let (addr, p) = UdpSocket::on_recv(true, pb, ip_addr_t { addr: raw }).unwrap();
    assert_eq!(addr, u32::from_be_bytes([10, 0, 0, 7]));
    assert_eq!(p.total_len(), 1);
    assert!(UdpSocket::on_recv(false, PacketBuffer::allocate(vec![5]), ip_addr_t { addr: raw }).is_none());
    assert!(UdpSocket::on_recv(true, None, ip_addr_t { addr: raw }).is_none());
}

#[test]
fn pumping_again_and_again_hands_over_head_then_file() {
    let file: Vec<u8> = (0..40u8).collect();
    let pos = RefCell::new(0usize);
    let sent = RefCell::new(Vec::<u8>::new());
    let mut buf = StagingBuffer::new();
    let head = b"PUT / HTTP/1.1\r\n\r\n".to_vec();
    let _ = buf.extend_from_slice(&head);
    let refuse = RefCell::new(true);
    for _ in 0..30 {
        let r = pump(
            &mut buf,
            |n: usize| {
                let at = *pos.borrow();
                let end = (at + n.min(7)).min(file.len());
                *pos.borrow_mut() = end;
                file[at..end].to_vec()
            },
            || 5,
            |w: &[u8]| {
                let r = !*refuse.borrow();
                *refuse.borrow_mut() = r;
                if r {
                    err_t::Mem
                } else {
                    sent.borrow_mut().extend_from_slice(w);
                    err_t::Success
                }
            },
            || err_t::Success,
        );
        assert_eq!(r, Ok(()));
    }
    let mut expected = head.clone();
    expected.extend_from_slice(&file);
    assert_eq!(*sent.borrow(), expected);
    assert_eq!(buf.len(), 0);
}

#[test]
fn a_full_buffer_reads_nothing_and_no_room_writes_nothing() {
    let mut buf = StagingBuffer::new();
    let _ = buf.extend_from_slice(&vec![7u8; BUF_CAP]);
    assert_eq!(pump_need(&buf), None);
    assert!(pump_offer(&buf, 0).is_none());
    let w = pump_offer(&buf, 3).unwrap();
    assert_eq!(w, vec![7u8; 3]);
    assert_eq!(pump_written(&mut buf, 3, err_t::Success), (Ok(()), true));
    assert_eq!(buf.len(), BUF_CAP - 3);
    assert_eq!(pump_need(&buf), Some(3));
    assert_eq!(pump_written(&mut buf, 3, err_t::Mem), (Ok(()), false));
    assert_eq!(buf.len(), BUF_CAP - 3);
}
