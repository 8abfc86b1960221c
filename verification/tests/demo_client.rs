use crabhole::demo::{
    pty_step, script_keys, shell_or_default, DemoAction, DemoScript, PtyAction, PtyRead,
    END_OF_TRANSMISSION, ENTER, PTY_CLOSED, PTY_START, SCRIPT_LEN,
};

#[test]
fn the_script_is_typed_in_order_then_finishes() {
    let expected: [&[u8]; 10] = [
        b"echo 'Hello, World!'",
        b"ls",
        b"vi demo.txt",
        b"iHello, World!\x1b",
        b"ccRaw mode works!\x1b",
        b"yy12p",
        b":wq",
        b"ls",
        b"echo \"there's our file\"",
        b"bat demo.txt",
    ];
    let mut s = DemoScript::new();
    for keys in expected.iter() {
        match s.tick() {
            DemoAction::Type(k) => assert_eq!(&k[..], *keys),
            DemoAction::Finish => panic!("finished early"),
        }
    }
    assert!(matches!(s.tick(), DemoAction::Finish));
    assert!(matches!(s.tick(), DemoAction::Finish));
    assert_eq!(s.next, SCRIPT_LEN);
    assert!(script_keys(SCRIPT_LEN).is_none());
    assert_eq!(END_OF_TRANSMISSION, 4);
    assert_eq!(ENTER, b'\n');
}

#[test]
fn pty_reads() {
    match pty_step(PtyRead::Data(b"abc".to_vec())) {
        PtyAction::Forward(d) => assert_eq!(d, b"abc".to_vec()),
        _ => panic!("expected forwarding"),
    }
    match pty_step(PtyRead::Data(Vec::new())) {
        PtyAction::Stop(d) => assert_eq!(d, b"big sads\n".to_vec()),
        _ => panic!("expected a stop"),
    }
    match pty_step(PtyRead::Failed) {
        PtyAction::Stop(d) => assert!(d.is_empty()),
        _ => panic!("expected a stop"),
    }
    assert_eq!(PTY_START, "\n\n");
    assert_eq!(PTY_CLOSED, "big sads\n");
}

#[test]
fn pty_run_copies_chunks_then_reports() {
    let reads = vec![
        PtyRead::Data(b"he".to_vec()),
        PtyRead::Data(b"llo".to_vec()),
        PtyRead::Data(Vec::new()),
        PtyRead::Data(b"never".to_vec()),
    ];
    let mut out: Vec<u8> = Vec::new();
    for read in reads {
        match pty_step(read) {
            PtyAction::Forward(d) => out.extend(d),
            PtyAction::Stop(d) => {
                out.extend(d);
                break;
            }
        }
    }
    assert_eq!(out, b"hellobig sads\n".to_vec());
}

#[test]
fn shell_defaults_to_sh() {
    assert_eq!(shell_or_default(None), "/bin/sh");
    assert_eq!(shell_or_default(Some("/bin/zsh".to_string())), "/bin/zsh");
}

#[test]
fn past_the_end_the_script_stays_done() {
    let mut s = DemoScript { next: SCRIPT_LEN + 5 };
    assert!(matches!(s.tick(), DemoAction::Finish));
    assert_eq!(s.next, SCRIPT_LEN + 5);
}
