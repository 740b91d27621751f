//! The overlay message plane.
//!
//! The in-game overlay talks to the daemon over a local byte stream
//! carrying the same framing as the game socket. This module decodes
//! the overlay's notifications into [`OverlayPeerMessage`] values for
//! the broadcast to peers, and encodes the messages the daemon
//! originates: peer messages with a fresh sequence number, the
//! achievement-unlocked notification, and the access-token answer.
use vstd::prelude::*;

use crate::codec::{encode_frame, spec_frame_bytes, lemma_header_bytes_len, Header, HeaderV};
use crate::comm::{SORT_OVERLAY_SERVICE};
use crate::ext::{bytes_to_string, random_oseq, rfc3339_to_timestamp, timestamp_of_rfc3339};
use crate::msg::{encode_fields, parse_fields, spec_fields_view, spec_msg_bytes, spec_parse_msg,
    Field, FieldV, FieldVal, FieldValV};
use crate::numbers::{parse_i64, spec_digits_value, spec_is_digits};
use crate::remote::Achievement;
use crate::token_store::{spec_find, TokenStore};

verus! {

/// Sort byte of the overlay-for-peer message family.
pub const SORT_OVERLAY_PEER: u32 = 5;

/// Overlay-peer message type: open a web page.
pub const MT_OV_SHOW_WEB_PAGE: u32 = 1;

/// Overlay-peer message type: the overlay's visibility changed.
pub const MT_OV_VISIBILITY_CHANGE: u32 = 2;

/// Overlay-peer message type: show an invitation dialog.
pub const MT_OV_SHOW_INVITATION: u32 = 3;

/// Overlay-peer message type: a game-join request.
pub const MT_OV_GAME_JOIN: u32 = 4;

/// Overlay-peer message type: the overlay finished initializing.
pub const MT_OV_INITIALIZED: u32 = 5;

/// Overlay-service message type: the overlay asks for a token.
pub const MT_OVS_ACCESS_TOKEN_REQUEST: u32 = 1;

/// Overlay-service message type: the token answer.
pub const MT_OVS_ACCESS_TOKEN_RESPONSE: u32 = 2;

/// Overlay-service message type: the overlay reports initialization.
pub const MT_OVS_INIT_NOTIFICATION: u32 = 3;

/// Overlay-service message type: an achievement was unlocked.
pub const MT_OVS_NOTIFY_ACHIEVEMENT_UNLOCKED: u32 = 4;

/// The bootstrap platform client id whose token the overlay borrows.
pub const GALAXY_CLIENT_ID: &'static str = "46899977096215655";

/// A message from the overlay fanned out to peers.
pub enum OverlayPeerMessage {
    Achievement(Achievement),
    DisablePopups(Vec<u8>),
    OpenWebPage(String),
    InvitationDialog(String),
    VisibilityChange(bool),
    GameJoin((u64, String, String)),
}

impl Clone for OverlayPeerMessage {
    fn clone(&self) -> (r: Self)
        ensures
            (*self matches OverlayPeerMessage::Achievement(a) ==> (
            r matches OverlayPeerMessage::Achievement(a2) && a2 == a)),
            (*self matches OverlayPeerMessage::DisablePopups(d) ==> (
            r matches OverlayPeerMessage::DisablePopups(d2) && d2@ == d@)),
            (*self matches OverlayPeerMessage::OpenWebPage(u) ==> (
            r matches OverlayPeerMessage::OpenWebPage(u2) && u2 == u)),
            (*self matches OverlayPeerMessage::InvitationDialog(c) ==> (
            r matches OverlayPeerMessage::InvitationDialog(c2) && c2 == c)),
            (*self matches OverlayPeerMessage::VisibilityChange(v) ==> (
            r matches OverlayPeerMessage::VisibilityChange(v2) && v2 == v)),
            (*self matches OverlayPeerMessage::GameJoin(g) ==> (
            r matches OverlayPeerMessage::GameJoin(g2) && g2.0 == g.0 && g2.1 == g.1 && g2.2
                == g.2)),
    {
        match self {
            OverlayPeerMessage::Achievement(a) => OverlayPeerMessage::Achievement(a.clone()),
            OverlayPeerMessage::DisablePopups(d) => OverlayPeerMessage::DisablePopups(
                vstd::slice::slice_to_vec(d.as_slice()),
            ),
            OverlayPeerMessage::OpenWebPage(u) => OverlayPeerMessage::OpenWebPage(u.clone()),
            OverlayPeerMessage::InvitationDialog(c) => OverlayPeerMessage::InvitationDialog(
                c.clone(),
            ),
            OverlayPeerMessage::VisibilityChange(v) => OverlayPeerMessage::VisibilityChange(*v),
            OverlayPeerMessage::GameJoin(g) => OverlayPeerMessage::GameJoin(
                (g.0, g.1.clone(), g.2.clone()),
            ),
        }
    }
}

/// A framed overlay-peer message under sequence number `q`.
pub open spec fn spec_overlay_frame(msg_type: u32, q: u32, body: Seq<u8>) -> Seq<u8> {
    spec_frame_bytes(
        HeaderV {
            sort: SORT_OVERLAY_PEER,
            type_: msg_type,
            size: body.len() as u32,
            oseq: Some(q),
            unknown: Seq::empty(),
        },
        body,
    )
}

/// A body holding one text field.
pub open spec fn spec_text_body(num: u32, text: Seq<char>) -> Seq<u8> {
    spec_msg_bytes(seq![FieldV { num: num, val: FieldValV::Bytes(vstd::utf8::encode_utf8(text)) }])
}

/// A body holding one numeric field.
pub open spec fn spec_varint_body(num: u32, v: u64) -> Seq<u8> {
    spec_msg_bytes(seq![FieldV { num: num, val: FieldValV::Varint(v) }])
}

/// The body of a game-join message: inviter, client id, connection
/// string.
pub open spec fn spec_game_join_body(inviter: u64, client_id: Seq<char>, conn: Seq<char>) -> Seq<
    u8,
> {
    spec_msg_bytes(
        seq![
            FieldV { num: 1, val: FieldValV::Varint(inviter) },
            FieldV { num: 2, val: FieldValV::Bytes(vstd::utf8::encode_utf8(client_id)) },
            FieldV { num: 3, val: FieldValV::Bytes(vstd::utf8::encode_utf8(conn)) },
        ],
    )
}

/// The first byte-string value of a field number among parsed fields.
pub open spec fn spec_first_bytes(fs: Seq<FieldV>, num: u32) -> Option<Seq<u8>>
    decreases fs.len(),
{
    if fs.len() == 0 {
        None
    } else if fs[0].num == num && fs[0].val is Bytes {
        match fs[0].val {
            FieldValV::Bytes(b) => Some(b),
            _ => None,
        }
    } else {
        spec_first_bytes(fs.drop_first(), num)
    }
}

/// The first numeric value of a field number among parsed fields.
pub open spec fn spec_first_varint(fs: Seq<FieldV>, num: u32) -> Option<u64>
    decreases fs.len(),
{
    if fs.len() == 0 {
        None
    } else if fs[0].num == num && fs[0].val is Varint {
        match fs[0].val {
            FieldValV::Varint(v) => Some(v),
            _ => None,
        }
    } else {
        spec_first_varint(fs.drop_first(), num)
    }
}

/// The exec mirror of [`spec_first_bytes`].
fn first_bytes(fields: &Vec<Field>, num: u32) -> (r: Option<Vec<u8>>)
    ensures
        (match r {
            Some(b) => spec_first_bytes(spec_fields_view(fields@), num) == Some(b@),
            None => spec_first_bytes(spec_fields_view(fields@), num) is None,
        }),
{
    let ghost fs = spec_fields_view(fields@);
    let mut i: usize = 0;
    proof {
        assert(fs.skip(0) =~= fs);
    }
    while i < fields.len()
        invariant
            0 <= i <= fields@.len(),
            fs == spec_fields_view(fields@),
            spec_first_bytes(fs.skip(i as int), num) == spec_first_bytes(fs, num),
        decreases fields@.len() - i,
    {
        proof {
            assert(fs.skip(i as int)[0] == fields@[i as int]@);
            assert(fs.skip(i as int).drop_first() =~= fs.skip(i as int + 1));
        }
        let f = &fields[i];
        if f.num == num {
            if let FieldVal::Bytes(b) = &f.val {
                return Some(vstd::slice::slice_to_vec(b.as_slice()));
            }
        }
        i += 1;
    }
    proof {
        assert(fs.skip(fs.len() as int) =~= Seq::<FieldV>::empty());
    }
    None
}

/// The exec mirror of [`spec_first_varint`].
fn first_varint(fields: &Vec<Field>, num: u32) -> (r: Option<u64>)
    ensures
        r == spec_first_varint(spec_fields_view(fields@), num),
    decreases fields@.len(),
{
    let ghost fs = spec_fields_view(fields@);
    let mut i: usize = 0;
    proof {
        assert(fs.skip(0) =~= fs);
    }
    while i < fields.len()
        invariant
            0 <= i <= fields@.len(),
            fs == spec_fields_view(fields@),
            spec_first_varint(fs.skip(i as int), num) == spec_first_varint(fs, num),
        decreases fields@.len() - i,
    {
        proof {
            assert(fs.skip(i as int)[0] == fields@[i as int]@);
            assert(fs.skip(i as int).drop_first() =~= fs.skip(i as int + 1));
        }
        let f = &fields[i];
        if f.num == num {
            if let FieldVal::Varint(v) = &f.val {
                return Some(*v);
            }
        }
        i += 1;
    }
    proof {
        assert(fs.skip(fs.len() as int) =~= Seq::<FieldV>::empty());
    }
    None
}

/// Whether a notification of this type decodes: the pass-through type
/// always does; the others need the body to parse, the required
/// fields to be present, and every text field to be valid UTF-8.
pub open spec fn spec_overlay_decodes(type_: u32, payload: Seq<u8>) -> bool {
    if type_ == MT_OV_INITIALIZED {
        true
    } else {
        match spec_parse_msg(payload) {
            None => false,
            Some(fs) => {
                if type_ == MT_OV_SHOW_WEB_PAGE || type_ == MT_OV_SHOW_INVITATION {
                    spec_first_bytes(fs, 1) matches Some(b) && vstd::utf8::valid_utf8(b)
                } else if type_ == MT_OV_VISIBILITY_CHANGE {
                    spec_first_varint(fs, 1) is Some
                } else if type_ == MT_OV_GAME_JOIN {
                    &&& spec_first_varint(fs, 1) is Some
                    &&& (spec_first_bytes(fs, 2) matches Some(b2) && vstd::utf8::valid_utf8(b2))
                    &&& (spec_first_bytes(fs, 3) matches Some(b3) && vstd::utf8::valid_utf8(b3))
                } else {
                    false
                }
            },
        }
    }
}

/// Decode one overlay-to-service notification into the message to fan
/// out: it decodes exactly when [`spec_overlay_decodes`] holds of its
/// type and body.
pub fn decode_overlay_peer_message(type_: u32, payload: &[u8]) -> (r: Option<OverlayPeerMessage>)
    ensures
        (r is Some <==> spec_overlay_decodes(type_, payload@)),
        (r is Some ==> type_ == MT_OV_SHOW_WEB_PAGE || type_ == MT_OV_VISIBILITY_CHANGE || type_
            == MT_OV_SHOW_INVITATION || type_ == MT_OV_GAME_JOIN || type_ == MT_OV_INITIALIZED),
        (r matches Some(OverlayPeerMessage::OpenWebPage(u)) ==> type_ == MT_OV_SHOW_WEB_PAGE && (
        spec_parse_msg(payload@) matches Some(fs) && spec_first_bytes(fs, 1)
            == Some(vstd::utf8::encode_utf8(u@)))),
        (r matches Some(OverlayPeerMessage::VisibilityChange(v)) ==> type_
            == MT_OV_VISIBILITY_CHANGE && (spec_parse_msg(payload@) matches Some(fs)
            && spec_first_varint(fs, 1) matches Some(x) && v == (x != 0))),
        (r matches Some(OverlayPeerMessage::InvitationDialog(c)) ==> type_ == MT_OV_SHOW_INVITATION
            && (spec_parse_msg(payload@) matches Some(fs) && spec_first_bytes(fs, 1)
            == Some(vstd::utf8::encode_utf8(c@)))),
        (r matches Some(OverlayPeerMessage::GameJoin(g)) ==> type_ == MT_OV_GAME_JOIN && (
        spec_parse_msg(payload@) matches Some(fs) && spec_first_varint(fs, 1) == Some(g.0)
            && spec_first_bytes(fs, 2) == Some(vstd::utf8::encode_utf8(g.1@))
            && spec_first_bytes(fs, 3) == Some(vstd::utf8::encode_utf8(g.2@)))),
        (r matches Some(OverlayPeerMessage::DisablePopups(b)) ==> type_ == MT_OV_INITIALIZED && b@
            == payload@),
{
    if type_ == MT_OV_INITIALIZED {
        return Some(OverlayPeerMessage::DisablePopups(vstd::slice::slice_to_vec(payload)));
    }
    let fields = match parse_fields(payload) {
        Some(fs) => fs,
        None => {
            return None;
        },
    };
    if type_ == MT_OV_SHOW_WEB_PAGE {
        let url_bytes = match first_bytes(&fields, 1) {
            Some(b) => b,
            None => {
                return None;
            },
        };
        match bytes_to_string(url_bytes) {
            Some(url) => Some(OverlayPeerMessage::OpenWebPage(url)),
            None => None,
        }
    } else if type_ == MT_OV_VISIBILITY_CHANGE {
        match first_varint(&fields, 1) {
            Some(v) => Some(OverlayPeerMessage::VisibilityChange(v != 0)),
            None => None,
        }
    } else if type_ == MT_OV_SHOW_INVITATION {
        let conn_bytes = match first_bytes(&fields, 1) {
            Some(b) => b,
            None => {
                return None;
            },
        };
        match bytes_to_string(conn_bytes) {
            Some(conn) => Some(OverlayPeerMessage::InvitationDialog(conn)),
            None => None,
        }
    } else if type_ == MT_OV_GAME_JOIN {
        let inviter = match first_varint(&fields, 1) {
            Some(v) => v,
            None => {
                return None;
            },
        };
        let client_bytes = match first_bytes(&fields, 2) {
            Some(b) => b,
            None => {
                return None;
            },
        };
        let conn_bytes = match first_bytes(&fields, 3) {
            Some(b) => b,
            None => {
                return None;
            },
        };
        let client_id = match bytes_to_string(client_bytes) {
            Some(s) => s,
            None => {
                return None;
            },
        };
        let conn = match bytes_to_string(conn_bytes) {
            Some(s) => s,
            None => {
                return None;
            },
        };
        Some(OverlayPeerMessage::GameJoin((inviter, client_id, conn)))
    } else {
        None
    }
}

/// Frame a message the daemon originates on the overlay plane, under a
/// fresh sequence number. Nothing if the body is too long for a frame.
pub fn encode_message(msg_type: u32, msg_data: Vec<u8>) -> (r: Option<Vec<u8>>)
    ensures
        (r matches Some(bytes) ==> exists|q: u32|
            bytes@ == #[trigger] spec_overlay_frame(msg_type, q, msg_data@)),
        (r is None <==> msg_data@.len() > u32::MAX),
{
    if msg_data.len() > u32::MAX as usize {
        return None;
    }
    let mut header = Header::new();
    header.sort = SORT_OVERLAY_PEER;
    header.type_ = msg_type;
    header.oseq = Some(random_oseq());
    proof {
        lemma_header_bytes_len(header@.with_size(msg_data@.len() as u32));
    }
    let oseq = header.oseq;
    let frame = encode_frame(&mut header, &msg_data);
    proof {
        if let Some(q) = oseq {
            assert(frame@ == spec_overlay_frame(msg_type, q, msg_data@));
        }
    }
    Some(frame)
}

/// Frame an open-web-page message for the overlay.
pub fn encode_open_web_page(msg: String) -> (r: Option<Vec<u8>>)
    ensures
        (r matches Some(bytes) ==> exists|q: u32|
            bytes@ == #[trigger] spec_overlay_frame(
                MT_OV_SHOW_WEB_PAGE,
                q,
                spec_text_body(1, msg@),
            )),
{
    let b = vstd::slice::slice_to_vec(msg.as_str().as_bytes());
    let mut fields: Vec<Field> = Vec::new();
    fields.push(Field { num: 1, val: FieldVal::Bytes(b) });
    let body = encode_fields(&fields);
    proof {
        assert(spec_fields_view(fields@) =~= seq![
            FieldV { num: 1, val: FieldValV::Bytes(vstd::utf8::encode_utf8(msg@)) },
        ]);
    }
    let r = encode_message(MT_OV_SHOW_WEB_PAGE, body);
    proof {
        match &r {
            Some(bytes) => {
                let q0 = choose|q: u32| bytes@ == spec_overlay_frame(MT_OV_SHOW_WEB_PAGE, q, body@);
                assert(bytes@ == spec_overlay_frame(MT_OV_SHOW_WEB_PAGE, q0, spec_text_body(1, msg@)));
            },
            None => {},
        }
    }
    r
}

/// Frame a visibility-change message for the overlay.
pub fn encode_visibility_change(msg: bool) -> (r: Option<Vec<u8>>)
    ensures
        (r matches Some(bytes) ==> msg ==> exists|q: u32|
            bytes@ == #[trigger] spec_overlay_frame(
                MT_OV_VISIBILITY_CHANGE,
                q,
                spec_varint_body(1, 1),
            )),
        (r matches Some(bytes) ==> !msg ==> exists|q: u32|
            bytes@ == #[trigger] spec_overlay_frame(
                MT_OV_VISIBILITY_CHANGE,
                q,
                spec_varint_body(1, 0),
            )),
{
    let mut fields: Vec<Field> = Vec::new();
    let v: u64 = if msg {
        1
    } else {
        0
    };
    fields.push(Field { num: 1, val: FieldVal::Varint(v) });
    let body = encode_fields(&fields);
    proof {
        assert(spec_fields_view(fields@) =~= seq![FieldV { num: 1, val: FieldValV::Varint(v) }]);
    }
    let r = encode_message(MT_OV_VISIBILITY_CHANGE, body);
    proof {
        match &r {
            Some(bytes) => {
                let q0 = choose|q: u32| bytes@ == spec_overlay_frame(MT_OV_VISIBILITY_CHANGE, q, body@);
                assert(bytes@ == spec_overlay_frame(MT_OV_VISIBILITY_CHANGE, q0, spec_varint_body(1, v)));
            },
            None => {},
        }
    }
    r
}

/// Frame a game-invite message for the overlay.
pub fn encode_game_invite(msg: String) -> (r: Option<Vec<u8>>)
    ensures
        (r matches Some(bytes) ==> exists|q: u32|
            bytes@ == #[trigger] spec_overlay_frame(
                MT_OV_SHOW_INVITATION,
                q,
                spec_text_body(1, msg@),
            )),
{
    let b = vstd::slice::slice_to_vec(msg.as_str().as_bytes());
    let mut fields: Vec<Field> = Vec::new();
    fields.push(Field { num: 1, val: FieldVal::Bytes(b) });
    let body = encode_fields(&fields);
    proof {
        assert(spec_fields_view(fields@) =~= seq![
            FieldV { num: 1, val: FieldValV::Bytes(vstd::utf8::encode_utf8(msg@)) },
        ]);
    }
    let r = encode_message(MT_OV_SHOW_INVITATION, body);
    proof {
        match &r {
            Some(bytes) => {
                let q0 = choose|q: u32| bytes@ == spec_overlay_frame(MT_OV_SHOW_INVITATION, q, body@);
                assert(bytes@ == spec_overlay_frame(MT_OV_SHOW_INVITATION, q0, spec_text_body(1, msg@)));
            },
            None => {},
        }
    }
    r
}

/// Frame a game-join message for the overlay.
pub fn encode_game_join(msg: (u64, String, String)) -> (r: Option<Vec<u8>>)
    ensures
        (r matches Some(bytes) ==> exists|q: u32|
            bytes@ == #[trigger] spec_overlay_frame(
                MT_OV_GAME_JOIN,
                q,
                spec_game_join_body(msg.0, msg.1@, msg.2@),
            )),
{
    let (inviter, client_id, connection_string) = msg;
    let cb = vstd::slice::slice_to_vec(client_id.as_str().as_bytes());
    let nb = vstd::slice::slice_to_vec(connection_string.as_str().as_bytes());
    let mut fields: Vec<Field> = Vec::new();
    fields.push(Field { num: 1, val: FieldVal::Varint(inviter) });
    fields.push(Field { num: 2, val: FieldVal::Bytes(cb) });
    fields.push(Field { num: 3, val: FieldVal::Bytes(nb) });
    let body = encode_fields(&fields);
    proof {
        assert(spec_fields_view(fields@) =~= seq![
            FieldV { num: 1, val: FieldValV::Varint(inviter) },
            FieldV { num: 2, val: FieldValV::Bytes(vstd::utf8::encode_utf8(client_id@)) },
            FieldV {
                num: 3,
                val: FieldValV::Bytes(vstd::utf8::encode_utf8(connection_string@)),
            },
        ]);
    }
    let r = encode_message(MT_OV_GAME_JOIN, body);
    proof {
        match &r {
            Some(bytes) => {
                let q0 = choose|q: u32| bytes@ == spec_overlay_frame(MT_OV_GAME_JOIN, q, body@);
                assert(bytes@ == spec_overlay_frame(MT_OV_GAME_JOIN, q0, spec_game_join_body(inviter, client_id@, connection_string@)));
            },
            None => {},
        }
    }
    r
}

/// Frame the overlay-initialized pass-through.
pub fn encode_overlay_initialized(data: Vec<u8>) -> (r: Option<Vec<u8>>)
    ensures
        (r matches Some(bytes) ==> exists|q: u32|
            bytes@ == #[trigger] spec_overlay_frame(MT_OV_INITIALIZED, q, data@)),
{
    encode_message(MT_OV_INITIALIZED, data)
}

/// The fields of the achievement-unlocked notification.
pub open spec fn spec_achievement_fields(a: Achievement, id: u64, unlock: Option<i64>) -> Seq<
    FieldV,
> {
    seq![
        FieldV { num: 1, val: FieldValV::Bytes(vstd::utf8::encode_utf8(a.achievement_key@)) },
        FieldV { num: 2, val: FieldValV::Bytes(vstd::utf8::encode_utf8(a.name@)) },
        FieldV { num: 3, val: FieldValV::Bytes(vstd::utf8::encode_utf8(a.description@)) },
        FieldV { num: 4, val: FieldValV::Varint(id) },
        FieldV {
            num: 5,
            val: FieldValV::Varint(
                match unlock {
                    Some(t) => t as u64,
                    None => 0,
                },
            ),
        },
        FieldV {
            num: 6,
            val: FieldValV::Bytes(vstd::utf8::encode_utf8(a.image_url_locked@)),
        },
        FieldV {
            num: 7,
            val: FieldValV::Bytes(vstd::utf8::encode_utf8(a.image_url_unlocked@)),
        },
        FieldV {
            num: 8,
            val: FieldValV::Varint(
                if a.visible {
                    1u64
                } else {
                    0u64
                },
            ),
        },
    ]
}

/// The unlock second the notification carries: the stored RFC 3339
/// text read back as an epoch second, absent while locked.
pub open spec fn spec_unlock_seconds(a: Achievement) -> Option<i64> {
    match a.date_unlocked {
        Some(d) => timestamp_of_rfc3339(d@),
        None => None,
    }
}

/// Whether the notification can be framed: the id is a decimal number
/// that fits, any stored unlock text reads as a date, and the body
/// fits a frame.
pub open spec fn spec_notification_ok(a: Achievement) -> bool {
    &&& spec_is_digits(vstd::utf8::encode_utf8(a.achievement_id@))
    &&& spec_digits_value(vstd::utf8::encode_utf8(a.achievement_id@)) <= i64::MAX
    &&& (a.date_unlocked matches Some(d) ==> timestamp_of_rfc3339(d@) is Some)
    &&& spec_msg_bytes(
        spec_achievement_fields(
            a,
            spec_digits_value(vstd::utf8::encode_utf8(a.achievement_id@)) as u64,
            spec_unlock_seconds(a),
        ),
    ).len() <= u32::MAX
}

/// Frame the notification the overlay shows when an achievement
/// unlocks; it is framed exactly when [`spec_notification_ok`] holds.
pub fn achievement_notification(achievement: &Achievement) -> (r: Option<Vec<u8>>)
    ensures
        (r is Some <==> spec_notification_ok(*achievement)),
        (r matches Some(bytes) ==> exists|id: u64, unlock: Option<i64>|
            ({
                let body = spec_msg_bytes(
                    #[trigger] spec_achievement_fields(*achievement, id, unlock),
                );
                &&& id == spec_digits_value(vstd::utf8::encode_utf8(achievement.achievement_id@))
                &&& (achievement.date_unlocked matches Some(d) ==> unlock
                    == timestamp_of_rfc3339(d@))
                &&& (achievement.date_unlocked is None ==> unlock is None)
                &&& bytes@ == spec_frame_bytes(
                    HeaderV {
                        sort: SORT_OVERLAY_SERVICE,
                        type_: MT_OVS_NOTIFY_ACHIEVEMENT_UNLOCKED,
                        size: body.len() as u32,
                        oseq: None,
                        unknown: Seq::empty(),
                    },
                    body,
                )
            })),
{
    let id = match parse_i64(achievement.achievement_id.as_str()) {
        Some(v) => v as u64,
        None => {
            return None;
        },
    };
    let unlock: Option<i64> = match &achievement.date_unlocked {
        Some(d) => {
            match rfc3339_to_timestamp(d) {
                Some(t) => Some(t),
                None => {
                    return None;
                },
            }
        },
        None => None,
    };
    let unlock_val: u64 = match unlock {
        Some(t) => t as u64,
        None => 0,
    };
    let kb = vstd::slice::slice_to_vec(achievement.achievement_key.as_str().as_bytes());
    let nb = vstd::slice::slice_to_vec(achievement.name.as_str().as_bytes());
    let db = vstd::slice::slice_to_vec(achievement.description.as_str().as_bytes());
    let lb = vstd::slice::slice_to_vec(achievement.image_url_locked.as_str().as_bytes());
    let ub = vstd::slice::slice_to_vec(achievement.image_url_unlocked.as_str().as_bytes());
    let mut fields: Vec<Field> = Vec::new();
    fields.push(Field { num: 1, val: FieldVal::Bytes(kb) });
    fields.push(Field { num: 2, val: FieldVal::Bytes(nb) });
    fields.push(Field { num: 3, val: FieldVal::Bytes(db) });
    fields.push(Field { num: 4, val: FieldVal::Varint(id) });
    fields.push(Field { num: 5, val: FieldVal::Varint(unlock_val) });
    fields.push(Field { num: 6, val: FieldVal::Bytes(lb) });
    fields.push(Field { num: 7, val: FieldVal::Bytes(ub) });
    fields.push(
        Field {
            num: 8,
            val: FieldVal::Varint(
                if achievement.visible {
                    1
                } else {
                    0
                },
            ),
        },
    );
    let body = encode_fields(&fields);
    proof {
        assert(spec_fields_view(fields@) =~= spec_achievement_fields(
            *achievement,
            id as u64,
            unlock,
        ));
    }
    if body.len() > u32::MAX as usize {
        return None;
    }
    let mut header = Header::new();
    header.sort = SORT_OVERLAY_SERVICE;
    header.type_ = MT_OVS_NOTIFY_ACHIEVEMENT_UNLOCKED;
    proof {
        lemma_header_bytes_len(header@.with_size(body@.len() as u32));
    }
    let frame = encode_frame(&mut header, &body);
    Some(frame)
}

/// The access token the overlay asked for: the bootstrap client's,
/// when the store holds one.
pub fn access_token(store: &TokenStore) -> (r: Option<String>)
    ensures
        (match spec_find(store@, GALAXY_CLIENT_ID@) {
            Some(t) => r == Some(t.access_token),
            None => r is None,
        }),
{
    let key = String::from_str(GALAXY_CLIENT_ID);
    match store.get(&key) {
        Some(t) => Some(t.access_token),
        None => None,
    }
}

} // verus!
