use titan_ipoverlay_client::messages::DestAddr;
use titan_ipoverlay_client::proxy::{
    check_idle_timeout, idle_sessions, watchdog_period, OpenAction, OpenStage, ProxyError,
    QueueAction, QueueItem, ReadAction, ReadOutcome, SessionOpening, TcpSessionState, WriteQueue,
};

#[test]
fn connection_is_attached_once() {
    let mut s = TcpSessionState::new();
    assert_eq!(s.attach(), Ok(()));
    assert_eq!(s.attach(), Err(ProxyError::ReaderAlreadySet));
}

#[test]
fn reads_before_and_after_half_close() {
    let mut s = TcpSessionState::new();
    assert_eq!(s.on_read(ReadOutcome::Data(10)), ReadAction::Forward(10));
    assert_eq!(s.on_read(ReadOutcome::Eof), ReadAction::NotifyHalfClose);
    assert_eq!(s.on_read(ReadOutcome::Failed), ReadAction::NotifyClose);
    s.mark_half_closed();
    assert_eq!(s.on_read(ReadOutcome::Eof), ReadAction::NotifyClose);
}

#[test]
fn opening_existing_session_only_answers() {
    assert_eq!(SessionOpening::request(true), OpenAction::AnswerExisting);
    assert_eq!(SessionOpening::request(false), OpenAction::Register);
}

#[test]
fn opening_happy_path() {
    let payload = DestAddr { addr: "h:80".to_string() }.encode();
    let (mut o, a) = SessionOpening::begin(&payload);
    assert_eq!(a, OpenAction::Connect { addr: "h:80".to_string() });
    assert_eq!(o.on_connected(Ok(())), OpenAction::Attach);
    assert_eq!(o.on_attached(Ok(())), OpenAction::ReplySuccess);
    assert_eq!(o.on_replied(true), OpenAction::Relay);
    let _ = OpenStage::Relaying;
}

#[test]
fn opening_failures_answer_and_close() {
    let (_, a) = SessionOpening::begin(&[0x0a, 0x05]);
    assert_eq!(
        a,
        OpenAction::FailAndClose {
            reason: "failed to decode Protobuf message: DestAddr.addr: buffer underflow".to_string()
        }
    );
    let payload = DestAddr { addr: "h:80".to_string() }.encode();
    let (mut o, _) = SessionOpening::begin(&payload);
    assert_eq!(
        o.on_connected(Err("deadline has elapsed".to_string())),
        OpenAction::FailAndClose { reason: "deadline has elapsed".to_string() }
    );
    let (mut o2, _) = SessionOpening::begin(&payload);
    o2.on_connected(Ok(()));
    assert_eq!(
        o2.on_attached(Err("reader already set".to_string())),
        OpenAction::FailAndClose { reason: "reader already set".to_string() }
    );
    let (mut o3, _) = SessionOpening::begin(&payload);
    o3.on_connected(Ok(()));
    o3.on_attached(Ok(()));
    assert_eq!(o3.on_replied(false), OpenAction::Close);
}

#[test]
fn idle_timeout_boundary() {
    assert!(check_idle_timeout(60, 60));
    assert!(!check_idle_timeout(59, 60));
}

#[test]
fn idle_sessions_keep_order() {
    let sessions = vec![
        ("a".to_string(), 100u64),
        ("b".to_string(), 5),
        ("c".to_string(), 60),
    ];
    assert_eq!(idle_sessions(&sessions, 60), vec!["a".to_string(), "c".to_string()]);
    assert!(idle_sessions(&vec![], 60).is_empty());
}

#[test]
fn watchdog_runs_at_half_the_timeout() {
    assert_eq!(watchdog_period(60), 30);
    assert_eq!(watchdog_period(3), 1);
}

/// Runs a queue over `items`, the writes succeeding as `oks` says, and
/// returns what was written and whether a shutdown was asked for.
fn drive(items: Vec<QueueItem>, oks: Vec<bool>) -> (Vec<Vec<u8>>, bool) {
    let mut q = WriteQueue::new();
    let mut written = Vec::new();
    let mut shutdown = false;
    for (item, ok) in items.into_iter().zip(oks) {
        match q.on_item(item) {
            QueueAction::Write(d) => {
                written.push(d);
                if q.after_write(ok) != QueueAction::Continue {
                    break;
                }
            }
            QueueAction::ShutdownAndStop => {
                shutdown = true;
                break;
            }
            QueueAction::Continue => {}
            QueueAction::Stop => break,
        }
    }
    (written, shutdown)
}

#[test]
fn write_queue_writes_in_order_until_half_close() {
    let items = vec![
        QueueItem::Data(vec![1]),
        QueueItem::Data(vec![2, 3]),
        QueueItem::HalfClose,
        QueueItem::Data(vec![4]),
    ];
    assert_eq!(drive(items, vec![true; 4]), (vec![vec![1], vec![2, 3]], true));
}

#[test]
fn write_queue_stops_after_failed_write() {
    let items = vec![QueueItem::Data(vec![1]), QueueItem::Data(vec![2]), QueueItem::Data(vec![3])];
    assert_eq!(drive(items, vec![true, false, true]), (vec![vec![1], vec![2]], false));
}

#[test]
fn stopped_write_queue_writes_nothing() {
    let mut q = WriteQueue::new();
    assert_eq!(q.on_item(QueueItem::Data(vec![9])), QueueAction::Write(vec![9]));
    assert_eq!(q.after_write(false), QueueAction::Stop);
    assert_eq!(q.on_item(QueueItem::Data(vec![1])), QueueAction::Stop);
    assert_eq!(q.on_item(QueueItem::HalfClose), QueueAction::Stop);
    assert_eq!(q.after_write(true), QueueAction::Stop);
    let mut h = WriteQueue::new();
    assert_eq!(h.on_item(QueueItem::HalfClose), QueueAction::ShutdownAndStop);
    assert_eq!(h.on_item(QueueItem::Data(vec![1])), QueueAction::Stop);
}
