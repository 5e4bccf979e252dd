use ncrs::duplex::{convert_lf_to_crlf, quit_action, DuplexOptions, QuitAction, ReceiveLoop, SendLoop, TelnetState};

#[test]
fn crlf_mode_converts_lf_before_sending() {
    let options = DuplexOptions { crlf: true, ..Default::default() };
    let mut send = SendLoop::new(options);
    let out = send.on_input(b"line one\nline two\n");
    assert_eq!(out, Some(b"line one\r\nline two\r\n".to_vec()));
}

#[test]
fn crlf_leaves_existing_crlf_alone() {
    assert_eq!(convert_lf_to_crlf(b"a\r\nb\n"), b"a\r\nb\r\n".to_vec());
    assert_eq!(convert_lf_to_crlf(b"\n\n"), b"\r\n\r\n".to_vec());
    assert_eq!(convert_lf_to_crlf(b""), Vec::<u8>::new());
    assert_eq!(convert_lf_to_crlf(b"no newline"), b"no newline".to_vec());
    assert_eq!(convert_lf_to_crlf(b"\r\r\n"), b"\r\r\n".to_vec());
}

#[test]
fn crlf_twice_is_crlf_once() {
    let once = convert_lf_to_crlf(b"x\ny\r\nz\n\r");
    assert_eq!(convert_lf_to_crlf(&once), once);
}

#[test]
fn crlf_chunk_ending_in_cr_gets_another_cr() {
    let mut joined = convert_lf_to_crlf(b"a\r");
    joined.extend(convert_lf_to_crlf(b"\nb"));
    assert_eq!(joined, b"a\r\r\nb".to_vec());
    let mut joined = convert_lf_to_crlf(b"a");
    joined.extend(convert_lf_to_crlf(b"\nb"));
    assert_eq!(joined, convert_lf_to_crlf(b"a\nb"));
}

#[test]
fn telnet_mode_rejects_do_and_will_negotiations() {
    let mut t = TelnetState::new();
    let (clean, replies) = t.process(&[255, 253, 1, 255, 251, 3]);
    assert_eq!(clean, Vec::<u8>::new());
    assert_eq!(replies, vec![255, 252, 1, 255, 254, 3]);
}

#[test]
fn telnet_dont_and_wont_need_no_reply() {
    let mut t = TelnetState::new();
    let (clean, replies) = t.process(&[b'a', 255, 254, 1, 255, 252, 3, b'b']);
    assert_eq!(clean, vec![b'a', b'b']);
    assert_eq!(replies, Vec::<u8>::new());
}

#[test]
fn telnet_negotiation_split_across_reads() {
    let mut t = TelnetState::new();
    let (c1, r1) = t.process(&[b'x', 255]);
    assert_eq!(c1, vec![b'x']);
    assert_eq!(r1, Vec::<u8>::new());
    let (c2, r2) = t.process(&[253]);
    assert_eq!(c2, Vec::<u8>::new());
    assert_eq!(r2, Vec::<u8>::new());
    let (c3, r3) = t.process(&[24, b'y']);
    assert_eq!(c3, vec![b'y']);
    assert_eq!(r3, vec![255, 252, 24]);
}

#[test]
fn telnet_other_commands_pass_as_data() {
    let mut t = TelnetState::new();
    let (clean, replies) = t.process(&[255, 255, 253, 1, b'z']);
    assert_eq!(clean, vec![255, b'z']);
    assert_eq!(replies, vec![255, 252, 1]);
    let (clean, replies) = t.process(&[255, 250, 1, 2]);
    assert_eq!(clean, vec![255, 250, 1, 2]);
    assert_eq!(replies, Vec::<u8>::new());
}

#[test]
fn telnet_plain_data_is_unchanged() {
    let mut t = TelnetState::new();
    let (clean, replies) = t.process(b"hello telnet");
    assert_eq!(clean, b"hello telnet".to_vec());
    assert!(replies.is_empty());
}

#[test]
fn receive_limit_stops_at_the_limit() {
    let mut r = ReceiveLoop::new(false, Some(2));
    let a = r.on_data(b"one");
    assert_eq!(a.output, b"one".to_vec());
    assert!(!a.stop);
    let b = r.on_data(b"two");
    assert!(b.stop);
    let mut z = ReceiveLoop::new(false, Some(0));
    assert!(z.on_data(b"x").stop);
    let mut u = ReceiveLoop::new(false, None);
    for _ in 0..10 {
        assert!(!u.on_data(b"x").stop);
    }
}

#[test]
fn receive_with_telnet_filters_and_replies() {
    let mut r = ReceiveLoop::new(true, Some(1));
    let got = r.on_data(&[b'h', 255, 251, 1, b'i']);
    assert_eq!(got.output, vec![b'h', b'i']);
    assert_eq!(got.replies, vec![255, 254, 1]);
    assert!(got.stop);
}

#[test]
fn hello_from_client_read_once() {
    let mut r = ReceiveLoop::new(false, Some(1));
    let got = r.on_data(b"hello from client\n");
    assert_eq!(got.output, b"hello from client\n".to_vec());
    assert!(got.stop);
}

#[test]
fn send_loop_runs_until_input_and_replies_end() {
    let options = DuplexOptions { telnet: true, ..Default::default() };
    let mut s = SendLoop::new(options);
    assert!(s.running() && s.reads_input() && s.takes_replies());
    assert_eq!(s.on_input(b"abc\n"), Some(b"abc\n".to_vec()));
    assert_eq!(s.on_input(b""), None);
    assert!(s.running());
    assert!(!s.reads_input());
    assert_eq!(s.on_reply(Some(vec![255, 252, 1])), Some(vec![255, 252, 1]));
    assert_eq!(s.on_reply(Some(vec![])), None);
    assert_eq!(s.on_reply(None), None);
    assert!(!s.running());
}

#[test]
fn no_stdin_without_telnet_does_not_run() {
    let options = DuplexOptions { no_stdin: true, ..Default::default() };
    let s = SendLoop::new(options);
    assert!(!s.running());
}

#[test]
fn quit_delay_choices() {
    assert_eq!(quit_action(None), QuitAction::WaitForPeer);
    assert_eq!(quit_action(Some(5)), QuitAction::Linger(5));
    assert_eq!(quit_action(Some(0)), QuitAction::StopNow);
    assert_eq!(quit_action(Some(-1)), QuitAction::StayForever);
}

#[test]
fn with_input_turns_off_stdin_only() {
    let o = DuplexOptions { crlf: true, recv_limit: Some(3), ..Default::default() };
    let w = o.with_input();
    assert!(w.no_stdin);
    assert!(w.crlf);
    assert_eq!(w.recv_limit, Some(3));
}
