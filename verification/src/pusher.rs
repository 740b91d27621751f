//! The notification-pusher client's decision core.
//!
//! The pusher holds one long-lived push connection. Its loop is driven
//! by what arrives on that connection and by a keepalive timer; every
//! reaction is decided here, as a step function from the client's
//! state and one happening to a list of actions for the caller: bytes
//! to send, events to broadcast to the connection handlers, or an
//! order to reconnect or stop. A ping goes out on each quiet keepalive
//! period; a pong answers it and broadcasts that the daemon is online;
//! a second quiet period in a row means the keepalive went unanswered,
//! and the daemon broadcasts that it is offline and reconnects.
use vstd::prelude::*;

use crate::codec::{encode_frame, spec_decode_frame, spec_frame_bytes, decode_frame,
    lemma_header_bytes_len, Header, HeaderV, ProtoPayload};
use crate::comm::SORT_WEBBROKER;
use crate::msg::{encode_fields, spec_fields_view, spec_msg_bytes, Field, FieldVal};

verus! {

/// Webbroker message type of the pusher's auth request.
pub const MT_WB_AUTH_REQUEST: u32 = 1;

/// Webbroker message type of the pusher's auth response.
pub const MT_WB_AUTH_RESPONSE: u32 = 2;

/// Webbroker message type of a topic subscription request.
pub const MT_WB_SUBSCRIBE_TOPIC_REQUEST: u32 = 3;

/// Webbroker message type of a topic subscription response.
pub const MT_WB_SUBSCRIBE_TOPIC_RESPONSE: u32 = 4;

/// Webbroker message type of a pushed topic message.
pub const MT_WB_MESSAGE_FROM_TOPIC: u32 = 5;

/// Connection-plane message type of the application ping.
pub const MT_CONNECTION_PING: u32 = 1;

/// The sequence number the auth request is sent with.
pub const AUTH_REQUEST_OSEQ: u32 = 10000;

/// The sequence number of the first topic subscription.
pub const FIRST_SUBSCRIPTION_OSEQ: u32 = 1020;

/// What the pusher broadcasts to every connection handler.
pub enum PusherEvent {
    Online,
    Offline,
    Topic(Vec<u8>),
}

impl Clone for PusherEvent {
    fn clone(&self) -> (r: Self)
        ensures
            *self is Online ==> r is Online,
            *self is Offline ==> r is Offline,
            (*self matches PusherEvent::Topic(d) ==> (r matches PusherEvent::Topic(d2) && d2@
                == d@)),
    {
        match self {
            PusherEvent::Online => PusherEvent::Online,
            PusherEvent::Offline => PusherEvent::Offline,
            PusherEvent::Topic(data) => PusherEvent::Topic(
                vstd::slice::slice_to_vec(data.as_slice()),
            ),
        }
    }
}

/// The pusher's own state: whether a ping went out that no pong has
/// answered yet.
pub struct NotificationPusherState {
    pub pending_ping: bool,
}

/// One happening the pusher reacts to.
pub enum PusherInbound {
    /// A binary message arrived on the push connection.
    Binary(Vec<u8>),
    /// A pong answered our ping.
    Pong,
    /// The connection was reset by the other side.
    ConnectionReset,
    /// A keepalive period passed with nothing arriving; the value is
    /// the ping time to echo.
    KeepaliveTick(u64),
    /// Reading the connection failed recoverably.
    ReadError,
    /// The daemon is shutting down.
    Shutdown,
}

/// What the caller must do after a step.
pub enum PusherAction {
    /// Send these bytes as one binary message.
    Send(Vec<u8>),
    /// Send these bytes as the payload of a ping control frame.
    SendPing(Vec<u8>),
    /// Hand this event to every live subscriber.
    Broadcast(PusherEvent),
    /// Drop the connection and connect anew.
    Reconnect,
    /// Close the connection and stop: the service refused our auth,
    /// which will not mend on its own.
    Terminate,
    /// Close the connection and stop because of shutdown.
    Close,
}

/// The pending flag after a step.
pub open spec fn spec_step_pending(pending: bool, ev: PusherInbound) -> bool {
    match ev {
        PusherInbound::Pong => false,
        PusherInbound::KeepaliveTick(_) => !pending,
        PusherInbound::ConnectionReset => false,
        _ => pending,
    }
}

/// Whether a step broadcasts `Online`: exactly the steps that see a
/// pong.
pub open spec fn spec_step_emits_online(pending: bool, ev: PusherInbound) -> bool {
    ev is Pong
}

/// Whether a step broadcasts `Offline`: exactly a keepalive period
/// that finds the previous ping unanswered.
pub open spec fn spec_step_emits_offline(pending: bool, ev: PusherInbound) -> bool {
    pending && ev is KeepaliveTick
}

/// The pending flag before step `i` of a run.
pub open spec fn spec_run_pending(p0: bool, events: Seq<PusherInbound>, i: int) -> bool
    decreases i,
{
    if i <= 0 {
        p0
    } else {
        spec_step_pending(spec_run_pending(p0, events, i - 1), events[i - 1])
    }
}

/// After a missed keepalive every subscriber observes `Offline` before
/// the next `Online`: the missed keepalive's own step broadcasts
/// `Offline` and no `Online`, and any later `Online` comes from a pong
/// at a strictly later step; the broadcast channel hands each
/// subscriber the events of earlier steps first.
pub proof fn lemma_offline_before_online(
    p0: bool,
    events: Seq<PusherInbound>,
    i: int,
    j: int,
)
    requires
        0 <= i < j < events.len(),
        events[i] is KeepaliveTick,
        spec_run_pending(p0, events, i),
        spec_step_emits_online(spec_run_pending(p0, events, j), events[j]),
    ensures
        spec_step_emits_offline(spec_run_pending(p0, events, i), events[i]),
        !spec_step_emits_online(spec_run_pending(p0, events, i), events[i]),
        events[j] is Pong,
{
}

/// The first value of the status field 101 among a header's extra
/// fields, if any.
pub open spec fn spec_first_status(u: Seq<(u32, u64)>) -> Option<u64>
    decreases u.len(),
{
    if u.len() == 0 {
        None
    } else if u[0].0 == 101 {
        Some(u[0].1)
    } else {
        spec_first_status(u.drop_first())
    }
}

/// The framed subscription for a topic under a sequence number.
pub open spec fn spec_subscribe_frame(topic: Seq<char>, oseq: u32) -> Seq<u8> {
    spec_frame_bytes(
        HeaderV {
            sort: SORT_WEBBROKER,
            type_: MT_WB_SUBSCRIBE_TOPIC_REQUEST,
            size: spec_subscribe_body(topic).len() as u32,
            oseq: Some(oseq),
            unknown: Seq::empty(),
        },
        spec_subscribe_body(topic),
    )
}

/// The three initial subscriptions, exactly: chat, friends and
/// presence, under sequence numbers 1020, 1021 and 1022.
pub open spec fn spec_subscribe_actions(r: Seq<PusherAction>) -> bool {
    &&& r.len() == 3
    &&& (r[0] matches PusherAction::Send(f) && f@ == spec_subscribe_frame(
        "chat"@,
        FIRST_SUBSCRIPTION_OSEQ,
    ))
    &&& (r[1] matches PusherAction::Send(f) && f@ == spec_subscribe_frame(
        "friends"@,
        (FIRST_SUBSCRIPTION_OSEQ + 1) as u32,
    ))
    &&& (r[2] matches PusherAction::Send(f) && f@ == spec_subscribe_frame(
        "presence"@,
        (FIRST_SUBSCRIPTION_OSEQ + 2) as u32,
    ))
}

/// A short ASCII topic's subscription body always fits a frame.
proof fn lemma_short_subscribe_body(topic: Seq<char>)
    requires
        vstd::utf8::is_ascii_chars(topic),
        topic.len() <= 64,
    ensures
        spec_subscribe_body(topic).len() <= 66,
{
    vstd::utf8::is_ascii_chars_encode_utf8(topic);
    let f = crate::msg::FieldV {
        num: 1,
        val: crate::msg::FieldValV::Bytes(vstd::utf8::encode_utf8(topic)),
    };
    crate::msg::lemma_msg_bytes_singleton(f);
    crate::codec::lemma_varint_len((1u32 * 8 + 2) as u64);
    crate::codec::lemma_varint_len(vstd::utf8::encode_utf8(topic).len() as u64);
}

/// The topics every fresh connection subscribes to, in order.
pub fn subscription_topics() -> (r: Vec<String>)
    ensures
        r@.len() == 3,
        r@[0]@ == "chat"@,
        r@[1]@ == "friends"@,
        r@[2]@ == "presence"@,
{
    let mut v: Vec<String> = Vec::new();
    v.push(String::from_str("chat"));
    v.push(String::from_str("friends"));
    v.push(String::from_str("presence"));
    v
}

/// The body of the pusher's auth request: field 1 carries the bearer
/// text.
pub open spec fn spec_auth_request_body(token: Seq<char>) -> Seq<u8> {
    spec_msg_bytes(
        seq![
            crate::msg::FieldV {
                num: 1,
                val: crate::msg::FieldValV::Bytes(vstd::utf8::encode_utf8("Bearer "@ + token)),
            },
        ],
    )
}

/// Build the framed auth request a fresh connection opens with:
/// webbroker sort, auth-request type, sequence number 10000, the
/// bearer token in the body. Nothing exactly when the token is too
/// long for a frame.
pub fn build_auth_frame(access_token: &String) -> (r: Option<Vec<u8>>)
    ensures
        (r is None <==> spec_auth_request_body(access_token@).len() > u32::MAX),
        (r matches Some(bytes) ==> {
            let body = spec_auth_request_body(access_token@);
            bytes@ == spec_frame_bytes(
                HeaderV {
                    sort: SORT_WEBBROKER,
                    type_: MT_WB_AUTH_REQUEST,
                    size: body.len() as u32,
                    oseq: Some(AUTH_REQUEST_OSEQ),
                    unknown: Seq::empty(),
                },
                body,
            )
        }),
{
    let bearer = String::from_str("Bearer ").concat(access_token.as_str());
    let token_bytes = vstd::slice::slice_to_vec(bearer.as_str().as_bytes());
    let mut fields: Vec<Field> = Vec::new();
    fields.push(Field { num: 1, val: FieldVal::Bytes(token_bytes) });
    let body = encode_fields(&fields);
    proof {
        assert(spec_fields_view(fields@) =~= seq![
            crate::msg::FieldV {
                num: 1,
                val: crate::msg::FieldValV::Bytes(
                    vstd::utf8::encode_utf8("Bearer "@ + access_token@),
                ),
            },
        ]);
    }
    if body.len() > u32::MAX as usize {
        return None;
    }
    let mut header = Header::new();
    header.sort = SORT_WEBBROKER;
    header.type_ = MT_WB_AUTH_REQUEST;
    header.oseq = Some(AUTH_REQUEST_OSEQ);
    proof {
        lemma_header_bytes_len(header@.with_size(body@.len() as u32));
    }
    let frame = encode_frame(&mut header, &body);
    Some(frame)
}

/// The body of a subscription request: field 1 carries the topic.
pub open spec fn spec_subscribe_body(topic: Seq<char>) -> Seq<u8> {
    spec_msg_bytes(
        seq![
            crate::msg::FieldV {
                num: 1,
                val: crate::msg::FieldValV::Bytes(vstd::utf8::encode_utf8(topic)),
            },
        ],
    )
}

/// Build one framed topic subscription with its sequence number;
/// nothing exactly when the topic is too long for a frame.
pub fn build_subscribe_frame(topic: &String, oseq: u32) -> (r: Option<Vec<u8>>)
    ensures
        (r matches Some(bytes) ==> bytes@ == spec_subscribe_frame(topic@, oseq)),
        (r is None <==> spec_subscribe_body(topic@).len() > u32::MAX),
{
    let topic_bytes = vstd::slice::slice_to_vec(topic.as_str().as_bytes());
    let mut fields: Vec<Field> = Vec::new();
    fields.push(Field { num: 1, val: FieldVal::Bytes(topic_bytes) });
    let body = encode_fields(&fields);
    proof {
        assert(spec_fields_view(fields@) =~= seq![
            crate::msg::FieldV {
                num: 1,
                val: crate::msg::FieldValV::Bytes(vstd::utf8::encode_utf8(topic@)),
            },
        ]);
    }
    if body.len() > u32::MAX as usize {
        return None;
    }
    let mut header = Header::new();
    header.sort = SORT_WEBBROKER;
    header.type_ = MT_WB_SUBSCRIBE_TOPIC_REQUEST;
    header.oseq = Some(oseq);
    proof {
        lemma_header_bytes_len(header@.with_size(body@.len() as u32));
    }
    let frame = encode_frame(&mut header, &body);
    Some(frame)
}

/// The body of the application ping: field 1 carries the ping time.
pub open spec fn spec_ping_body(ping_time: u64) -> Seq<u8> {
    spec_msg_bytes(
        seq![crate::msg::FieldV { num: 1, val: crate::msg::FieldValV::Varint(ping_time) }],
    )
}

/// Build the framed application ping carried inside the keepalive.
pub fn build_ping_frame(ping_time: u64) -> (r: Vec<u8>)
    ensures
        ({
            let body = spec_ping_body(ping_time);
            r@ == spec_frame_bytes(
                HeaderV {
                    sort: SORT_WEBBROKER,
                    type_: MT_CONNECTION_PING,
                    size: body.len() as u32,
                    oseq: None,
                    unknown: Seq::empty(),
                },
                body,
            )
        }),
{
    let mut fields: Vec<Field> = Vec::new();
    fields.push(Field { num: 1, val: FieldVal::Varint(ping_time) });
    let body = encode_fields(&fields);
    proof {
        assert(spec_fields_view(fields@) =~= seq![
            crate::msg::FieldV { num: 1, val: crate::msg::FieldValV::Varint(ping_time) },
        ]);
        crate::msg::lemma_msg_bytes_singleton(
            crate::msg::FieldV { num: 1, val: crate::msg::FieldValV::Varint(ping_time) },
        );
        crate::codec::lemma_varint_len(8);
        crate::codec::lemma_varint_len(ping_time);
    }
    let mut header = Header::new();
    header.sort = SORT_WEBBROKER;
    header.type_ = MT_CONNECTION_PING;
    proof {
        lemma_header_bytes_len(header@.with_size(body@.len() as u32));
    }
    encode_frame(&mut header, &body)
}

/// Decode one pushed binary message into its header and payload.
pub fn parse_message(msg_data: &Vec<u8>) -> (r: Result<
    ProtoPayload,
    crate::codec::CodecError,
>)
    ensures
        (match r {
            Ok(pp) => spec_decode_frame(msg_data@) == Ok::<_, crate::codec::CodecError>(pp@),
            Err(e) => spec_decode_frame(msg_data@) == Err::<(HeaderV, Seq<u8>), _>(e),
        }),
{
    decode_frame(msg_data.as_slice())
}

/// One step of the pusher: react to a happening, move the pending
/// flag, and say what to send, broadcast, or do with the connection.
///
/// `Online` is broadcast exactly on a pong; `Offline` exactly on a
/// keepalive period that finds the previous ping unanswered, and the
/// connection is then dropped for a fresh one. A binary message is
/// decoded as a frame: an accepted auth answers with exactly the three
/// initial subscriptions, a refused auth stops the client, a pushed
/// topic message is broadcast raw, and anything else does nothing.
#[verifier::rlimit(30)]
pub fn pusher_step(state: &mut NotificationPusherState, event: PusherInbound) -> (r: Vec<
    PusherAction,
>)
    ensures
        final(state).pending_ping == spec_step_pending(old(state).pending_ping, event),
        (exists|i: int|
            0 <= i < r@.len() && (#[trigger] r@[i]) matches PusherAction::Broadcast(
                PusherEvent::Online,
            )) <==> spec_step_emits_online(old(state).pending_ping, event),
        (exists|i: int|
            0 <= i < r@.len() && (#[trigger] r@[i]) matches PusherAction::Broadcast(
                PusherEvent::Offline,
            )) <==> spec_step_emits_offline(old(state).pending_ping, event),
        (event is Pong ==> r@.len() == 1),
        (event is Shutdown ==> r@.len() == 1 && (r@[0] is Close)),
        (event is ConnectionReset ==> r@.len() == 1 && (r@[0] is Reconnect)),
        (event is ReadError ==> r@.len() == 0),
        (event is KeepaliveTick && old(state).pending_ping ==> r@.len() == 2 && (
        r@[0] matches PusherAction::Broadcast(PusherEvent::Offline)) && (r@[1] is Reconnect)),
        (event matches PusherInbound::KeepaliveTick(t) ==> (!old(state).pending_ping ==> r@.len()
            == 1 && (r@[0] matches PusherAction::SendPing(b) && b@ == spec_frame_bytes(
            HeaderV {
                sort: SORT_WEBBROKER,
                type_: MT_CONNECTION_PING,
                size: spec_ping_body(t).len() as u32,
                oseq: None,
                unknown: Seq::empty(),
            },
            spec_ping_body(t),
        )))),
        (event matches PusherInbound::Binary(data) ==> (match spec_decode_frame(data@) {
            Ok(hp) => {
                &&& (hp.0.type_ == MT_WB_AUTH_RESPONSE ==> (match spec_first_status(
                    hp.0.unknown,
                ) {
                    Some(st) => (st == 0 ==> spec_subscribe_actions(r@)) && (st != 0 ==> r@.len()
                        == 1 && (r@[0] is Terminate)),
                    None => r@.len() == 0,
                }))
                &&& (hp.0.type_ == MT_WB_MESSAGE_FROM_TOPIC ==> r@.len() == 1 && (
                r@[0] matches PusherAction::Broadcast(PusherEvent::Topic(d)) && d@ == data@))
                &&& (hp.0.type_ != MT_WB_AUTH_RESPONSE && hp.0.type_ != MT_WB_MESSAGE_FROM_TOPIC
                    ==> r@.len() == 0)
            },
            Err(e) => r@.len() == 0,
        })),
{
    let mut actions: Vec<PusherAction> = Vec::new();
    match event {
        PusherInbound::Pong => {
            state.pending_ping = false;
            actions.push(PusherAction::Broadcast(PusherEvent::Online));
            proof {
                assert(actions@[0] matches PusherAction::Broadcast(PusherEvent::Online));
            }
        },
        PusherInbound::KeepaliveTick(ping_time) => {
            if state.pending_ping {
                state.pending_ping = false;
                actions.push(PusherAction::Broadcast(PusherEvent::Offline));
                actions.push(PusherAction::Reconnect);
                proof {
                    assert(actions@[0] matches PusherAction::Broadcast(PusherEvent::Offline));
                }
            } else {
                let ping = build_ping_frame(ping_time);
                state.pending_ping = true;
                actions.push(PusherAction::SendPing(ping));
            }
        },
        PusherInbound::ConnectionReset => {
            state.pending_ping = false;
            actions.push(PusherAction::Reconnect);
        },
        PusherInbound::ReadError => {},
        PusherInbound::Shutdown => {
            actions.push(PusherAction::Close);
        },
        PusherInbound::Binary(data) => {
            let ghost data_view = data@;
            let parsed = match decode_frame(data.as_slice()) {
                Ok(pp) => pp,
                Err(_) => {
                    return actions;
                },
            };
            let msg_type = parsed.header.type_;
            if msg_type == MT_WB_AUTH_RESPONSE {
                let ghost uk = parsed.header.unknown@;
                let mut status: Option<u64> = None;
                let mut i: usize = 0;
                proof {
                    assert(uk.skip(0) =~= uk);
                }
                while i < parsed.header.unknown.len() && status.is_none()
                    invariant
                        0 <= i <= uk.len(),
                        uk == parsed.header.unknown@,
                        status is None ==> spec_first_status(uk.skip(i as int))
                            == spec_first_status(uk),
                        (status matches Some(v) ==> spec_first_status(uk) == Some(v)),
                    decreases uk.len() - i,
                {
                    proof {
                        assert(uk.skip(i as int)[0] == uk[i as int]);
                        assert(uk.skip(i as int).drop_first() =~= uk.skip(i as int + 1));
                    }
                    let (num, v) = parsed.header.unknown[i];
                    if num == 101 {
                        status = Some(v);
                    }
                    i += 1;
                }
                proof {
                    if status is None {
                        assert(uk.skip(uk.len() as int) =~= Seq::<(u32, u64)>::empty());
                    }
                }
                match status {
                    Some(0u64) => {
                        let topics = subscription_topics();
                        proof {
                            reveal_strlit("chat");
                            reveal_strlit("friends");
                            reveal_strlit("presence");
                            assert(vstd::utf8::is_ascii_chars("chat"@));
                            assert(vstd::utf8::is_ascii_chars("friends"@));
                            assert(vstd::utf8::is_ascii_chars("presence"@));
                            lemma_short_subscribe_body("chat"@);
                            lemma_short_subscribe_body("friends"@);
                            lemma_short_subscribe_body("presence"@);
                        }
                        match build_subscribe_frame(&topics[0], FIRST_SUBSCRIPTION_OSEQ) {
                            Some(frame) => actions.push(PusherAction::Send(frame)),
                            None => {
                                proof {
                                    assert(false);
                                }
                            },
                        }
                        match build_subscribe_frame(&topics[1], FIRST_SUBSCRIPTION_OSEQ + 1) {
                            Some(frame) => actions.push(PusherAction::Send(frame)),
                            None => {
                                proof {
                                    assert(false);
                                }
                            },
                        }
                        match build_subscribe_frame(&topics[2], FIRST_SUBSCRIPTION_OSEQ + 2) {
                            Some(frame) => actions.push(PusherAction::Send(frame)),
                            None => {
                                proof {
                                    assert(false);
                                }
                            },
                        }
                        proof {
                            assert(spec_subscribe_actions(actions@));
                        }
                    },
                    Some(_) => {
                        actions.push(PusherAction::Terminate);
                    },
                    None => {},
                }
            } else if msg_type == MT_WB_MESSAGE_FROM_TOPIC {
                actions.push(PusherAction::Broadcast(PusherEvent::Topic(data)));
                proof {
                    assert(actions@[0] matches PusherAction::Broadcast(PusherEvent::Topic(d))
                        && d@ == data_view);
                }
            }
        },
    }
    actions
}

} // verus!
