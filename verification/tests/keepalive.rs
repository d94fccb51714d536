use titan_ipoverlay_client::keepalive::{
    ping_payload, serve_event, Keepalive, KeepaliveAction, KeepaliveEvent, ServeAction, WsEvent,
    MAX_PONG_MISS,
};

fn tick(k: &mut Keepalive) -> KeepaliveAction {
    k.step(KeepaliveEvent::Tick { destroyed: false })
}

#[test]
fn silence_sends_sixteen_pings_then_closes() {
    let mut k = Keepalive::new();
    for n in 1..=(MAX_PONG_MISS + 1) {
        assert!(matches!(tick(&mut k), KeepaliveAction::SendPing { .. }));
        assert_eq!(k.missed(), n);
    }
    assert_eq!(tick(&mut k), KeepaliveAction::CloseConnection);
    assert_eq!(tick(&mut k), KeepaliveAction::CloseConnection);
    assert_eq!(k.missed(), MAX_PONG_MISS + 1);
}

#[test]
fn late_flag_after_five_missed() {
    let mut k = Keepalive::new();
    for _ in 0..5 {
        assert_eq!(tick(&mut k), KeepaliveAction::SendPing { late: false });
    }
    assert_eq!(tick(&mut k), KeepaliveAction::SendPing { late: true });
}

#[test]
fn traffic_resets_the_count() {
    let mut k = Keepalive::new();
    for _ in 0..20 {
        tick(&mut k);
    }
    assert_eq!(serve_event(&mut k, WsEvent::Pong), ServeAction::Continue);
    assert_eq!(k.missed(), 0);
    assert!(matches!(tick(&mut k), KeepaliveAction::SendPing { .. }));
}

#[test]
fn destroyed_tunnel_stops() {
    let mut k = Keepalive::new();
    assert_eq!(k.step(KeepaliveEvent::Tick { destroyed: true }), KeepaliveAction::Stop);
    assert_eq!(k.missed(), 0);
}

#[test]
fn cancel_signals() {
    let mut k = Keepalive::new();
    assert_eq!(k.step(KeepaliveEvent::KeepaliveSignal { cancelled: false }), KeepaliveAction::Wait);
    assert_eq!(k.step(KeepaliveEvent::KeepaliveSignal { cancelled: true }), KeepaliveAction::Stop);
    assert_eq!(k.step(KeepaliveEvent::ReaderSignal { cancelled: true }), KeepaliveAction::Stop);
}

#[test]
fn serve_events() {
    let mut k = Keepalive::new();
    tick(&mut k);
    assert_eq!(serve_event(&mut k, WsEvent::Other), ServeAction::Continue);
    assert_eq!(k.missed(), 1);
    assert_eq!(serve_event(&mut k, WsEvent::Binary(vec![1])), ServeAction::HandleFrame(vec![1]));
    assert_eq!(k.missed(), 0);
    tick(&mut k);
    assert_eq!(serve_event(&mut k, WsEvent::Ping(vec![7, 8])), ServeAction::SendPong(vec![7, 8]));
    assert_eq!(k.missed(), 0);
    assert_eq!(serve_event(&mut k, WsEvent::ReadError), ServeAction::Stop);
    assert_eq!(serve_event(&mut k, WsEvent::Ended), ServeAction::Stop);
    assert_eq!(serve_event(&mut k, WsEvent::Shutdown), ServeAction::Stop);
}

#[test]
fn ping_payload_is_little_endian_seconds() {
    assert_eq!(ping_payload(0x0102030405060708), vec![8, 7, 6, 5, 4, 3, 2, 1]);
    let t = 1_700_000_000u64;
    assert_eq!(ping_payload(t), t.to_le_bytes().to_vec());
}
