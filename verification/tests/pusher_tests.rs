use comet::codec::{decode_frame, encode_frame, Header};
use comet::comm::SORT_WEBBROKER;
use comet::ids::IDType;
use comet::numbers::{parse_i64, parse_u64};
use comet::overlay::{decode_overlay_peer_message, encode_game_join, encode_open_web_page,
    OverlayPeerMessage, MT_OV_GAME_JOIN, MT_OV_SHOW_WEB_PAGE};
use comet::msg::{encode_fields, parse_fields, Field, FieldVal};
use comet::pusher::{build_auth_frame, build_subscribe_frame, pusher_step,
    NotificationPusherState, PusherAction, PusherEvent, PusherInbound, AUTH_REQUEST_OSEQ,
    FIRST_SUBSCRIPTION_OSEQ, MT_WB_AUTH_REQUEST, MT_WB_AUTH_RESPONSE, MT_WB_MESSAGE_FROM_TOPIC};

fn auth_response_frame(status: u64) -> Vec<u8> {
    let mut h = Header::new();
    h.sort = SORT_WEBBROKER;
    h.type_ = MT_WB_AUTH_RESPONSE;
    h.unknown = vec![(101, status)];
    encode_frame(&mut h, &Vec::new())
}

fn topic_frame() -> Vec<u8> {
    let mut h = Header::new();
    h.sort = SORT_WEBBROKER;
    h.type_ = MT_WB_MESSAGE_FROM_TOPIC;
    encode_frame(&mut h, &b"presence update".to_vec())
}

fn online_broadcasts(actions: &[PusherAction]) -> usize {
    actions
        .iter()
        .filter(|a| matches!(a, PusherAction::Broadcast(PusherEvent::Online)))
        .count()
}

fn offline_broadcasts(actions: &[PusherAction]) -> usize {
    actions
        .iter()
        .filter(|a| matches!(a, PusherAction::Broadcast(PusherEvent::Offline)))
        .count()
}

#[test]
fn auth_frame_carries_the_bearer_token_under_oseq_10000() {
    let frame = build_auth_frame(&String::from("tok123")).unwrap();
    let pp = decode_frame(&frame).unwrap();
    assert_eq!(pp.header.sort, SORT_WEBBROKER);
    assert_eq!(pp.header.type_, MT_WB_AUTH_REQUEST);
    assert_eq!(pp.header.oseq, Some(AUTH_REQUEST_OSEQ));
    let body = String::from_utf8(pp.payload[2..].to_vec()).unwrap();
    assert_eq!(body, "Bearer tok123");
}

#[test]
fn accepted_auth_subscribes_the_three_topics_in_order() {
    let mut state = NotificationPusherState { pending_ping: false };
    let actions = pusher_step(&mut state, PusherInbound::Binary(auth_response_frame(0)));
    let frames: Vec<&Vec<u8>> = actions
        .iter()
        .filter_map(|a| match a {
            PusherAction::Send(f) => Some(f),
            _ => None,
        })
        .collect();
    assert_eq!(frames.len(), 3);
    let expected = ["chat", "friends", "presence"];
    for (i, frame) in frames.iter().enumerate() {
        let pp = decode_frame(frame).unwrap();
        assert_eq!(pp.header.oseq, Some(FIRST_SUBSCRIPTION_OSEQ + i as u32));
        let topic = String::from_utf8(pp.payload[2..].to_vec()).unwrap();
        assert_eq!(topic, expected[i]);
    }
}

#[test]
fn refused_auth_terminates() {
    let mut state = NotificationPusherState { pending_ping: false };
    let actions = pusher_step(&mut state, PusherInbound::Binary(auth_response_frame(3)));
    assert!(actions.iter().any(|a| matches!(a, PusherAction::Terminate)));
}

#[test]
fn subscribe_frame_carries_topic_and_oseq() {
    let frame = build_subscribe_frame(&String::from("friends"), 1021).unwrap();
    let pp = decode_frame(&frame).unwrap();
    assert_eq!(pp.header.oseq, Some(1021));
    let topic = String::from_utf8(pp.payload[2..].to_vec()).unwrap();
    assert_eq!(topic, "friends");
}

#[test]
fn topic_messages_are_broadcast_raw() {
    let mut state = NotificationPusherState { pending_ping: false };
    let frame = topic_frame();
    let actions = pusher_step(&mut state, PusherInbound::Binary(frame.clone()));
    assert!(actions.iter().any(|a| matches!(
        a,
        PusherAction::Broadcast(PusherEvent::Topic(data)) if *data == frame
    )));
}

#[test]
fn missed_keepalive_broadcasts_offline_before_the_next_online() {
    let mut state = NotificationPusherState { pending_ping: false };
    // A quiet period: a ping goes out.
    let a1 = pusher_step(&mut state, PusherInbound::KeepaliveTick(60));
    assert!(a1.iter().any(|a| matches!(a, PusherAction::SendPing(_))));
    assert!(state.pending_ping);
    // The partition: the next period finds the ping unanswered.
    let a2 = pusher_step(&mut state, PusherInbound::KeepaliveTick(120));
    assert_eq!(offline_broadcasts(&a2), 1, "exactly one Offline per missed keepalive");
    assert_eq!(online_broadcasts(&a2), 0);
    assert!(a2.iter().any(|a| matches!(a, PusherAction::Reconnect)));
    // The partition heals: the fresh connection's ping is answered.
    let a3 = pusher_step(&mut state, PusherInbound::KeepaliveTick(180));
    assert!(a3.iter().any(|a| matches!(a, PusherAction::SendPing(_))));
    let a4 = pusher_step(&mut state, PusherInbound::Pong);
    assert_eq!(online_broadcasts(&a4), 1, "exactly one Online per pong");
    assert_eq!(offline_broadcasts(&a4), 0);
    assert!(!state.pending_ping);
}

#[test]
fn shutdown_closes_the_connection() {
    let mut state = NotificationPusherState { pending_ping: true };
    let actions = pusher_step(&mut state, PusherInbound::Shutdown);
    assert_eq!(actions.len(), 1);
    assert!(matches!(actions[0], PusherAction::Close));
}

#[test]
fn connection_reset_reconnects() {
    let mut state = NotificationPusherState { pending_ping: true };
    let actions = pusher_step(&mut state, PusherInbound::ConnectionReset);
    assert!(actions.iter().any(|a| matches!(a, PusherAction::Reconnect)));
    assert!(!state.pending_ping);
}

#[test]
fn entity_ids_tag_and_untag_losslessly() {
    let id = IDType::User(50736722030801397);
    assert_eq!(id.value() >> 56, 2);
    match IDType::parse(id.value()) {
        IDType::User(inner) => assert_eq!(inner, 50736722030801397),
        _ => panic!("a tagged user id must parse back as a user id"),
    }
    assert_eq!(IDType::parse(7).inner(), 7);
    assert!(matches!(IDType::parse(7), IDType::Unassigned(_)));
    assert!(matches!(IDType::parse((1u64 << 56) | 42), IDType::Lobby(42)));
}

#[test]
fn decimal_ids_parse_exactly() {
    assert_eq!(parse_u64("46899977096215655"), Some(46899977096215655));
    assert_eq!(parse_u64("0"), Some(0));
    assert_eq!(parse_u64("18446744073709551615"), Some(u64::MAX));
    assert_eq!(parse_u64("18446744073709551616"), None);
    assert_eq!(parse_u64(""), None);
    assert_eq!(parse_u64("12a"), None);
    assert_eq!(parse_u64("-5"), None);
    assert_eq!(parse_i64("9223372036854775807"), Some(i64::MAX));
    assert_eq!(parse_i64("9223372036854775808"), None);
}

#[test]
fn overlay_web_page_round_trips_through_the_frame() {
    let frame = encode_open_web_page(String::from("https://example.net/page")).unwrap();
    let pp = decode_frame(&frame).unwrap();
    assert_eq!(pp.header.type_, MT_OV_SHOW_WEB_PAGE);
    let msg = decode_overlay_peer_message(pp.header.type_, &pp.payload).unwrap();
    match msg {
        OverlayPeerMessage::OpenWebPage(url) => assert_eq!(url, "https://example.net/page"),
        _ => panic!("a show-web-page frame must decode as one"),
    }
}

#[test]
fn overlay_game_join_round_trips_through_the_frame() {
    let frame = encode_game_join((8, String::from("client9"), String::from("join-me"))).unwrap();
    let pp = decode_frame(&frame).unwrap();
    assert_eq!(pp.header.type_, MT_OV_GAME_JOIN);
    let msg = decode_overlay_peer_message(pp.header.type_, &pp.payload).unwrap();
    match msg {
        OverlayPeerMessage::GameJoin((inviter, client, conn)) => {
            assert_eq!(inviter, 8);
            assert_eq!(client, "client9");
            assert_eq!(conn, "join-me");
        },
        _ => panic!("a game-join frame must decode as one"),
    }
}

#[test]
fn achievement_notification_frames_the_unlock() {
    let achievement = comet::remote::Achievement::new(
        String::from("17"),
        String::from("ach_first"),
        String::from("First Steps"),
        String::from("Take a step"),
        String::from("https://img/locked"),
        String::from("https://img/unlocked"),
        true,
        Some(String::from("2024-01-01T00:00:00+00:00")),
        0,
        String::new(),
        String::new(),
    );
    let frame = comet::overlay::achievement_notification(&achievement).unwrap();
    let pp = decode_frame(&frame).unwrap();
    assert_eq!(pp.header.sort, comet::comm::SORT_OVERLAY_SERVICE);
    assert_eq!(pp.header.type_, comet::overlay::MT_OVS_NOTIFY_ACHIEVEMENT_UNLOCKED);
    let fields = comet::msg::parse_fields(&pp.payload).unwrap();
    let id = fields.iter().find(|f| f.num == 4).unwrap();
    match &id.val {
        FieldVal::Varint(v) => assert_eq!(*v, 17),
        _ => panic!("the id field must be numeric"),
    }
    let unlock = fields.iter().find(|f| f.num == 5).unwrap();
    match &unlock.val {
        FieldVal::Varint(v) => assert_eq!(*v, 1704067200),
        _ => panic!("the unlock time field must be numeric"),
    }
}

#[test]
fn token_age_boundary_is_exactly_3500_seconds() {
    let token = comet::types::Token::new(String::from("a"), String::from("r"), 1000);
    assert!(!token.needs_refresh(1000 + 3499));
    assert!(token.needs_refresh(1000 + 3500));
}

#[test]
fn auth_response_without_a_status_does_nothing() {
    let mut h = Header::new();
    h.sort = SORT_WEBBROKER;
    h.type_ = MT_WB_AUTH_RESPONSE;
    let frame = encode_frame(&mut h, &Vec::new());
    let mut state = NotificationPusherState { pending_ping: false };
    let actions = pusher_step(&mut state, PusherInbound::Binary(frame));
    assert!(actions.is_empty());
}

#[test]
fn overlay_decode_refuses_bad_utf8_text() {
    let fields = vec![Field { num: 1, val: FieldVal::Bytes(vec![0xFF, 0xFE]) }];
    let body = encode_fields(&fields);
    assert!(decode_overlay_peer_message(MT_OV_SHOW_WEB_PAGE, &body).is_none());
}

#[test]
fn overlay_decode_refuses_a_malformed_body() {
    let fields = vec![Field { num: 2, val: FieldVal::Varint(1) }];
    let body = encode_fields(&fields);
    assert!(decode_overlay_peer_message(MT_OV_SHOW_WEB_PAGE, &body).is_none());
}
