use soda_fuzz::buffer::{U16FixedBuffer, U8FixedBuffer, FIXED_BUF_SIZE};
use soda_fuzz::config::{Fuzz, FuzzError, SodaArgs};
use soda_fuzz::dispatch::{CompletionTracker, ThreadMessage};
use soda_fuzz::worker::Worker;

fn args() -> SodaArgs {
    SodaArgs {
        url: "http://x/".to_string(),
        wordlist: "words.txt".to_string(),
        fuzz: Fuzz::DirectoryPath,
        debug: false,
        verbose: false,
        htmlbody: false,
        no_timeout_errs: false,
        ext: None,
        output: None,
        status_codes: None,
        ignore_len: None,
        timeout: 300,
        threads: 10,
    }
}

fn drain(worker: &mut Worker) -> Vec<String> {
    let mut urls = Vec::new();
    while let Some(url) = worker.next_request() {
        urls.push(url);
    }
    urls
}

#[test]
fn buffer_starts_empty() {
    let b = U8FixedBuffer::new();
    assert_eq!(b.len, 0);
    assert_eq!(b.cap, FIXED_BUF_SIZE);
    assert_eq!(b.buffer.len(), FIXED_BUF_SIZE);
    assert!(b.buffer.iter().all(|&x| x == 0));
}

#[test]
fn buffer_push_and_reject() {
    let mut b = U8FixedBuffer::new();
    assert_eq!(b.push_str("hi"), 2);
    assert_eq!(b.push('!'), 3);
    assert_eq!(b.len, 3);
    assert_eq!(&b.buffer[0..3], &b"hi!"[..]);
    let mut big = String::new();
    for _ in 0..FIXED_BUF_SIZE {
        big.push('x');
    }
    // two characters are already stored, so a full-capacity string is refused
    assert_eq!(b.push_str(&big), 0);
    assert_eq!(b.len, 3);
    b.clear();
    assert_eq!(b.len, 0);
    assert!(b.buffer.iter().all(|&x| x == 0));
}

#[test]
fn buffer_pop_zeroes_next_cell() {
    let mut b = U8FixedBuffer::new();
    b.push_str("ab");
    b.pop();
    assert_eq!(b.len, 2);
    assert_eq!(b.buffer[2], 0);
}

#[test]
fn u16_buffer_mirrors_u8_buffer() {
    let mut b = U16FixedBuffer::new();
    assert_eq!(b.cap, FIXED_BUF_SIZE);
    assert_eq!(b.push_str("hé"), 2);
    assert_eq!(b.buffer[0], 'h' as u16);
    assert_eq!(b.buffer[1], 'é' as u16);
    assert_eq!(b.push('z'), 3);
    b.pop();
    assert_eq!(b.len, 3);
    b.clear();
    assert_eq!(b.len, 0);
}

#[test]
fn flush_empty_is_noop() {
    let b = U8FixedBuffer::new();
    assert_eq!(b.flush_payload(), None);
}

#[test]
fn flush_then_flush_writes_nothing() {
    let mut b = U8FixedBuffer::new();
    b.push_str("line one\n");
    let payload = b.flush_payload();
    assert_eq!(payload, Some(b"line one\n".to_vec()));
    b.flush_complete(true);
    assert_eq!(b.flush_payload(), None);
}

#[test]
fn failed_flush_keeps_content_for_retry() {
    let mut b = U8FixedBuffer::new();
    b.push_str("kept\n");
    assert_eq!(b.flush_payload(), Some(b"kept\n".to_vec()));
    b.flush_complete(false);
    assert_eq!(b.flush_payload(), Some(b"kept\n".to_vec()));
    b.flush_complete(true);
    assert_eq!(b.flush_payload(), None);
}

#[test]
fn flush_needed_at_margin() {
    let mut b = U8FixedBuffer::new();
    assert!(!b.flush_needed());
    let mut chunk = String::new();
    for _ in 0..(FIXED_BUF_SIZE - 200) {
        chunk.push('x');
    }
    b.push_str(&chunk);
    assert!(b.flush_needed());
}

#[test]
fn end_to_end_request_order_single_worker() {
    let mut a = args();
    a.threads = 1;
    let plan = a.plan_run("a\nb\nc").unwrap();
    assert_eq!(plan.chunk_size, 3);
    assert_eq!(plan.chunks.len(), 1);
    let mut w = Worker::new(
        plan.base.clone(),
        a.fuzz,
        plan.exts.clone(),
        plan.chunks[0].clone(),
        false,
        plan.accepted.clone(),
        plan.suppressed.clone(),
    );
    let urls = drain(&mut w);
    assert_eq!(
        urls,
        vec![
            "http://x/a".to_string(),
            "http://x/b".to_string(),
            "http://x/c".to_string()
        ]
    );
    assert_eq!(w.next_request(), None);
}

#[test]
fn end_to_end_request_order_unpooled() {
    let mut a = args();
    a.threads = 0;
    let plan = a.plan_run("a\nb\nc").unwrap();
    assert_eq!(plan.chunk_size, 20);
    assert_eq!(plan.chunks.len(), 1);
    let mut w = Worker::new(
        plan.base.clone(),
        a.fuzz,
        plan.exts.clone(),
        plan.chunks[0].clone(),
        false,
        plan.accepted.clone(),
        plan.suppressed.clone(),
    );
    let urls = drain(&mut w);
    assert_eq!(
        urls,
        vec![
            "http://x/a".to_string(),
            "http://x/b".to_string(),
            "http://x/c".to_string()
        ]
    );
}

#[test]
fn worker_expands_extensions_in_order() {
    let mut w = Worker::new(
        "http://x/".to_string(),
        Fuzz::DirectoryPath,
        vec!["php".to_string(), "html".to_string()],
        vec!["admin".to_string(), "login".to_string()],
        false,
        Vec::new(),
        Vec::new(),
    );
    let urls = drain(&mut w);
    assert_eq!(
        urls,
        vec![
            "http://x/admin.php".to_string(),
            "http://x/admin.html".to_string(),
            "http://x/login.php".to_string(),
            "http://x/login.html".to_string()
        ]
    );
}

#[test]
fn worker_logs_reported_responses() {
    let mut w = Worker::new(
        "http://x/".to_string(),
        Fuzz::DirectoryPath,
        Vec::new(),
        vec!["a".to_string()],
        true,
        vec![200u16],
        vec![0u64],
    );
    assert!(w.record_response("http://x/a", 200, Some(9)));
    assert!(!w.record_response("http://x/a", 404, Some(9)));
    assert!(!w.record_response("http://x/a", 200, Some(0)));
    assert_eq!(
        w.buffer.flush_payload(),
        Some(b"http://x/a -- 200\n".to_vec())
    );
}

#[test]
fn worker_without_output_file_logs_nothing() {
    let mut w = Worker::new(
        "http://x/".to_string(),
        Fuzz::DirectoryPath,
        Vec::new(),
        vec!["a".to_string()],
        false,
        vec![200u16],
        Vec::new(),
    );
    assert!(w.record_response("http://x/a", 200, None));
    assert_eq!(w.buffer.flush_payload(), None);
}

#[test]
fn plan_run_fatal_errors() {
    let mut bad_scheme = args();
    bad_scheme.url = "x.com".to_string();
    assert!(matches!(
        bad_scheme.plan_run("a\nb"),
        Err(FuzzError::BadUrlScheme)
    ));

    let mut no_token = args();
    no_token.fuzz = Fuzz::Parameter;
    assert!(matches!(
        no_token.plan_run("a\nb"),
        Err(FuzzError::MissingPlaceholder)
    ));

    assert!(matches!(
        args().plan_run("no newline at all"),
        Err(FuzzError::MalformedWordlist)
    ));

    let mut bad_codes = args();
    bad_codes.status_codes = Some("2zz".to_string());
    assert!(matches!(
        bad_codes.plan_run("a\nb"),
        Err(FuzzError::BadStatusCode)
    ));

    let mut bad_lens = args();
    bad_lens.ignore_len = Some("-1".to_string());
    assert!(matches!(
        bad_lens.plan_run("a\nb"),
        Err(FuzzError::BadLengthValue)
    ));
}

#[test]
fn plan_run_partitions_words() {
    let mut a = args();
    a.threads = 2;
    let plan = a.plan_run("a\nb\nc\nd\ne").unwrap();
    assert_eq!(plan.chunk_size, 2);
    let rejoined: Vec<String> = plan.chunks.clone().into_iter().flatten().collect();
    assert_eq!(
        rejoined,
        vec![
            "a".to_string(),
            "b".to_string(),
            "c".to_string(),
            "d".to_string(),
            "e".to_string()
        ]
    );
    assert_eq!(plan.chunks.len(), 3);
    assert_eq!(plan.chunks[2], vec!["e".to_string()]);
}

#[test]
fn completion_accounting() {
    let mut t = CompletionTracker::new(3);
    assert!(!t.is_complete());
    t.on_message(ThreadMessage::Continue);
    t.on_message(ThreadMessage::Finished);
    t.on_message(ThreadMessage::Continue);
    t.on_message(ThreadMessage::Finished);
    assert!(!t.is_complete());
    t.on_message(ThreadMessage::Finished);
    assert!(t.is_complete());
    assert_eq!(t.finished, 3);
}

#[test]
fn completion_zero_workers_is_immediately_complete() {
    let t = CompletionTracker::new(0);
    assert!(t.is_complete());
}

#[test]
fn receive_timeouts_bounded() {
    let mut t = CompletionTracker::new(1);
    for _ in 0..10 {
        assert!(!t.on_timeout());
    }
    assert!(t.on_timeout());
    assert!(t.on_timeout());
    assert!(!t.is_complete());
}

#[test]
fn received_message_breaks_timeout_streak() {
    let mut t = CompletionTracker::new(2);
    for _ in 0..9 {
        assert!(!t.on_timeout());
    }
    t.on_message(ThreadMessage::Continue);
    assert_eq!(t.retries, 0);
    for _ in 0..10 {
        assert!(!t.on_timeout());
    }
    assert!(t.on_timeout());
}
