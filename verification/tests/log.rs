use hello_web::{format_line, join_notice, log, worker_notice, Action};

#[test]
fn line_is_stamp_colon_message_return() {
    assert_eq!(format_line("2024-01-02 03:04:05", "hello"), "2024-01-02 03:04:05: hello\r");
    assert_eq!(format_line("", ""), ": \r");
    assert_eq!(format_line("t", "a: b"), "t: a: b\r");
}

#[test]
fn log_puts_the_local_time_before_the_message() {
    let line = log("Shutting down.".to_string());
    let (stamp, rest) = line.split_at(line.len() - ": Shutting down.\r".len());
    assert_eq!(rest, ": Shutting down.\r");
    let bytes = stamp.as_bytes();
    assert_eq!(bytes.len(), 19);
    for (i, b) in bytes.iter().enumerate() {
        match i {
            4 | 7 => assert_eq!(*b, b'-'),
            10 => assert_eq!(*b, b' '),
            13 | 16 => assert_eq!(*b, b':'),
            _ => assert!(b.is_ascii_digit()),
        }
    }
}

#[test]
fn worker_notices() {
    assert_eq!(
        worker_notice(0, &Action::Run(())),
        Some("Worker 0 got a job; executing.".to_string())
    );
    assert_eq!(
        worker_notice(12, &Action::Run(5u8)),
        Some("Worker 12 got a job; executing.".to_string())
    );
    assert_eq!(
        worker_notice(3, &Action::<u8>::Exit),
        Some("Worker 3 was told to terminate.".to_string())
    );
    assert_eq!(worker_notice(3, &Action::<u8>::Wait), None);
}

#[test]
fn join_notices() {
    assert_eq!(join_notice(0), "Shutting down worker 0");
    assert_eq!(join_notice(41), "Shutting down worker 41");
}
