use chimes_utils::mail::start_email_queue_thread;
use chimes_utils::mail::stop_email_queue_thread;
use chimes_utils::mail::EmailBody;
use chimes_utils::mail::EmailSendingQueue;
use chimes_utils::queue::WakeSignal;

fn message(receiver: &str, subject: &str) -> EmailBody {
    EmailBody {
        email_receiver: receiver.to_owned(),
        mine_email: String::new(),
        subject: subject.to_owned(),
        content: "hello".to_owned(),
        html_email: false,
    }
}

#[test]
fn drain_hands_every_item_to_the_transport_once() {
    // five items from three interleaved submitters; draining to idle hands
    // each to the transport exactly once
    let mut q = EmailSendingQueue::new();
    q.config(
        "smtp.example.org".to_owned(),
        "pw".to_owned(),
        "587".to_owned(),
        "me@example.org".to_owned(),
        false,
    );
    q.queue_send(&message("a@example.org", "s1"));
    q.queue_send(&message("b@example.org", "s2"));
    q.queue_send(&message("c@example.org", "s3"));
    q.queue_send(&message("a@example.org", "s4"));
    q.queue_send(&message("b@example.org", "s5"));
    let _ = start_email_queue_thread(&mut q);
    let mut sent: Vec<String> = Vec::new();
    while let Some(m) = q.pop_next() {
        sent.push(m.subject);
    }
    assert_eq!(q.count(), 0);
    assert_eq!(sent.len(), 5);
    let mut sorted = sent.clone();
    sorted.sort();
    assert_eq!(sorted, vec!["s1", "s2", "s3", "s4", "s5"]);
    stop_email_queue_thread(&mut q);
}

#[test]
fn drain_order_is_last_pushed_first() {
    let mut q = EmailSendingQueue::new();
    q.queue_send(&message("x", "first"));
    q.queue_send(&message("x", "second"));
    q.queue_send(&message("x", "third"));
    assert_eq!(q.pop_next().unwrap().subject, "third");
    assert_eq!(q.pop_next().unwrap().subject, "second");
    assert_eq!(q.pop_next().unwrap().subject, "first");
    assert!(q.pop_next().is_none());
}

#[test]
fn enqueue_stamps_the_configured_sender() {
    let mut q = EmailSendingQueue::new();
    q.config(
        "smtp.example.org".to_owned(),
        "pw".to_owned(),
        "587".to_owned(),
        "sender@example.org".to_owned(),
        true,
    );
    assert!(q.client_conf.ssl);
    let m = message("rcpt@example.org", "subject");
    q.queue_send(&m);
    let stored = q.pop_next().unwrap();
    assert_eq!(stored.mine_email, "sender@example.org");
    assert_eq!(stored.email_receiver, "rcpt@example.org");
    // the caller's copy was not touched
    assert_eq!(m.mine_email, "");
}

#[test]
fn enqueue_wakes_the_drain_loop() {
    let mut q = EmailSendingQueue::new();
    assert!(!q.take_wake_signal());
    q.queue_send(&message("x", "s"));
    assert!(q.take_wake_signal());
    assert!(!q.take_wake_signal());
}

#[test]
fn mail_shutdown_wakes_all_waiters() {
    let mut q = EmailSendingQueue::new();
    assert!(start_email_queue_thread(&mut q));
    assert!(!start_email_queue_thread(&mut q));
    let _ = q.take_wake_signal();
    stop_email_queue_thread(&mut q);
    assert!(!q.started);
    assert_eq!(q.wake, WakeSignal::WakeAll);
    assert!(q.take_wake_signal());
}

#[test]
fn empty_backlog_pops_nothing() {
    let mut q = EmailSendingQueue::new();
    assert!(q.pop_next().is_none());
    assert_eq!(q.count(), 0);
}
