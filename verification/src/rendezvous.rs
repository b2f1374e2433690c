//! The connection to the rendezvous server, for the host and for a viewer.

use vstd::prelude::*;
use crate::inbox::{
    absorbed, elements_of, empty_inbox, entry_of, inbox_after, message_in, message_of, payload_text,
    read_message, EntryModel, InboxModel, Mailbox, MailboxModel, MessageModel, OfferModel, WsInbox,
    WsMessage,
};
use crate::json::{
    empty_object, flag_at, flag_member, flag_value, json_document, json_member, members_of,
    parse_json, reads_back, set_member, set_text, text_at, text_member, write_json, JsonTree,
};
use crate::peer_signal::{kind_name, PeerSignal, PeerSignalKind, SignalModel};
use crate::process_tap::opt_str;
use crate::room_mode::{
    handshake_outcome, outcome_in, HandshakeEvent, HandshakeOutcome, SessionMode,
};
use crate::text::{
    begins_with, chars_of, copy_opt_text, is_white, law_trimming_takes_white_space, opt_text, part,
    push_text, same_text, strip_prefix, text_of, trim_chars, trimmed,
};
use crate::types::StunarState;

verus! {

/// What the user is told when the server does not answer.
pub const UNREACHABLE: &'static str = "Stunar is unreachable.";

/// What the user is told when a request to join has no reason of its own.
pub const COULD_NOT_JOIN: &'static str = "Could not join.";

/// What the user is told when the host does not let them in.
pub const DECLINED: &'static str = "The host declined.";

/// A text without the slashes at its end.
pub open spec fn without_slashes(text: Seq<char>) -> Seq<char>
    decreases text.len(),
{
    if text.len() > 0 && text.last() == '/' {
        without_slashes(text.drop_last())
    } else {
        text
    }
}

/// The base address of a server: trimmed, without slashes at its end.
pub open spec fn base_address(base: Seq<char>) -> Seq<char> {
    without_slashes(trimmed(base))
}

/// The base address of a server.
pub fn normalize_base(base: &str) -> (address: String)
    ensures
        address@ == base_address(base@),
{
    let chars = trim_chars(&chars_of(base));
    let mut end: usize = chars.len();
    assert(chars@.take(end as int) =~= chars@);
    while end > 0 && chars[end - 1] == '/'
        invariant
            end <= chars@.len(),
            without_slashes(chars@.take(end as int)) == without_slashes(chars@),
        decreases end,
    {
        assert(chars@.take(end as int).last() == '/');
        assert(chars@.take(end as int).drop_last() =~= chars@.take(end as int - 1));
        end -= 1;
    }
    let rest = part(&chars, 0, end);
    assert(rest@ =~= chars@.take(end as int));
    assert(without_slashes(rest@) == rest@) by {
        if end > 0 {
            assert(rest@.last() == chars@[end - 1]);
        }
    }
    text_of(&rest)
}

/// The address of a request.
pub fn endpoint(base: &str, path: &str) -> (url: String)
    ensures
        url@ == base_address(base@) + path@,
{
    let mut url = normalize_base(base);
    push_text(&mut url, path);
    url
}

/// The scheme of the socket and what follows the scheme of the base address.
pub open spec fn socket_parts(base: Seq<char>) -> Option<(Seq<char>, Seq<char>)> {
    let address = base_address(base);
    if begins_with(address, "https://"@) {
        Some(("wss"@, address.skip("https://"@.len() as int)))
    } else if begins_with(address, "http://"@) {
        Some(("ws"@, address.skip("http://"@.len() as int)))
    } else {
        None
    }
}

/// The address of the signalling socket.
pub open spec fn socket_address(base: Seq<char>, role: Seq<char>, token: Seq<char>) -> Option<
    Seq<char>,
> {
    match socket_parts(base) {
        Some((scheme, rest)) => Some(
            scheme + "://"@ + rest + "/v1/ws?role="@ + role + "&token="@ + token,
        ),
        None => None,
    }
}

/// The address of the signalling socket.
pub fn ws_url(base: &str, role: &str, token: &str) -> (url: Result<String, String>)
    ensures
        url is Ok <==> socket_address(base@, role@, token@) is Some,
        url is Ok ==> Some(url->Ok_0@) == socket_address(base@, role@, token@),
        match socket_parts(base@) {
            Some((scheme, rest)) => url is Ok && url->Ok_0@ == scheme + "://"@ + rest
                + "/v1/ws?role="@ + role@ + "&token="@ + token@,
            None => url is Err && url->Err_0@ == "invalid rendezvous URL"@,
        },
{
    let address = chars_of(normalize_base(base).as_str());
    let (scheme, rest): (&str, Vec<char>) = match strip_prefix(&address, &chars_of("https://")) {
        Some(rest) => ("wss", rest),
        None => match strip_prefix(&address, &chars_of("http://")) {
            Some(rest) => ("ws", rest),
            None => {
                return Err("invalid rendezvous URL".to_owned());
            },
        },
    };
    let mut url = scheme.to_owned();
    push_text(&mut url, "://");
    push_text(&mut url, text_of(&rest).as_str());
    push_text(&mut url, "/v1/ws?role=");
    push_text(&mut url, role);
    push_text(&mut url, "&token=");
    push_text(&mut url, token);
    Ok(url)
}

/// How a request calls a session mode.
pub open spec fn mode_text(mode: SessionMode) -> Seq<char> {
    match mode {
        SessionMode::Room => "room"@,
        SessionMode::Broadcast => "broadcast"@,
    }
}

/// How a request calls a session mode.
pub fn mode_name(mode: SessionMode) -> (name: &'static str)
    ensures
        name@ == mode_text(mode),
{
    match mode {
        SessionMode::Room => "room",
        SessionMode::Broadcast => "broadcast",
    }
}

/// What a host asks for that opens a room.
pub open spec fn open_request(
    password: Seq<char>,
    nickname: Seq<char>,
    admission: bool,
    mode: SessionMode,
) -> JsonTree {
    JsonTree::Object(
        map![
            "password"@ => JsonTree::Text(password),
            "nickname"@ => JsonTree::Text(nickname),
            "admission"@ => JsonTree::Bool(admission),
            "mode"@ => JsonTree::Text(mode_text(mode)),
        ],
    )
}

/// The body of a host's request to open a room.
pub fn open_body(password: &str, nickname: &str, admission: bool, mode: SessionMode) -> (body:
    String)
    ensures
        json_document(body@) == Some(open_request(password@, nickname@, admission, mode)),
        json_document(body@) == Some(
            JsonTree::Object(
                map![
                    "password"@ => JsonTree::Text(password@),
                    "nickname"@ => JsonTree::Text(nickname@),
                    "admission"@ => JsonTree::Bool(admission),
                    "mode"@ => JsonTree::Text(mode_text(mode)),
                ],
            ),
        ),
{
    let mut object = empty_object();
    set_text(&mut object, "password", password);
    set_text(&mut object, "nickname", nickname);
    set_member(&mut object, "admission", flag_value(admission));
    set_text(&mut object, "mode", mode_name(mode));
    proof {
        reveal_with_fuel(reads_back, 2);
    }
    write_json(&object)
}

/// What a viewer asks for that wants to join.
pub open spec fn ask_request(code: Seq<char>, password: Seq<char>, nickname: Seq<char>) -> JsonTree {
    JsonTree::Object(
        map![
            "code"@ => JsonTree::Text(code),
            "password"@ => JsonTree::Text(password),
            "nickname"@ => JsonTree::Text(nickname),
        ],
    )
}

/// The body of a viewer's request to join a room.
pub fn ask_body(code: &str, password: &str, nickname: &str) -> (body: String)
    ensures
        json_document(body@) == Some(ask_request(code@, password@, nickname@)),
        json_document(body@) == Some(
            JsonTree::Object(
                map![
                    "code"@ => JsonTree::Text(code@),
                    "password"@ => JsonTree::Text(password@),
                    "nickname"@ => JsonTree::Text(nickname@),
                ],
            ),
        ),
{
    let mut object = empty_object();
    set_text(&mut object, "code", code);
    set_text(&mut object, "password", password);
    set_text(&mut object, "nickname", nickname);
    proof {
        reveal_with_fuel(reads_back, 2);
    }
    write_json(&object)
}

/// What a host says of itself.
pub open spec fn host_request(host_token: Seq<char>) -> JsonTree {
    JsonTree::Object(map!["host_token"@ => JsonTree::Text(host_token)])
}

/// The body of a host's sign of life, and of its request to close the room.
pub fn host_body(host_token: &str) -> (body: String)
    ensures
        json_document(body@) == Some(host_request(host_token@)),
        json_document(body@) == Some(
            JsonTree::Object(map!["host_token"@ => JsonTree::Text(host_token@)]),
        ),
{
    let mut object = empty_object();
    set_text(&mut object, "host_token", host_token);
    proof {
        reveal_with_fuel(reads_back, 2);
    }
    write_json(&object)
}

/// What a viewer says of itself.
pub open spec fn member_request(token: Seq<char>) -> JsonTree {
    JsonTree::Object(map!["token"@ => JsonTree::Text(token)])
}

/// The body of a viewer's sign of life, and of its request to leave the room.
pub fn member_body(token: &str) -> (body: String)
    ensures
        json_document(body@) == Some(member_request(token@)),
        json_document(body@) == Some(
            JsonTree::Object(map!["token"@ => JsonTree::Text(token@)]),
        ),
{
    let mut object = empty_object();
    set_text(&mut object, "token", token);
    proof {
        reveal_with_fuel(reads_back, 2);
    }
    write_json(&object)
}

/// What a host decides on a viewer.
#[derive(Clone, Copy, Debug, PartialEq, Eq, Structural)]
pub enum HostDecision {
    Accept,
    Reject,
    Kick,
}

/// How a request calls a decision.
pub open spec fn decision_text(decision: HostDecision) -> Seq<char> {
    match decision {
        HostDecision::Accept => "accept"@,
        HostDecision::Reject => "reject"@,
        HostDecision::Kick => "kick"@,
    }
}

/// What a host decides on a viewer.
pub open spec fn decide_request(
    host_token: Seq<char>,
    viewer_id: Seq<char>,
    decision: HostDecision,
) -> JsonTree {
    JsonTree::Object(
        map![
            "host_token"@ => JsonTree::Text(host_token),
            "viewer_id"@ => JsonTree::Text(viewer_id),
            "action"@ => JsonTree::Text(decision_text(decision)),
        ],
    )
}

/// The body of a host's decision on a viewer.
pub fn decide_body(host_token: &str, viewer_id: &str, decision: HostDecision) -> (body: String)
    ensures
        json_document(body@) == Some(decide_request(host_token@, viewer_id@, decision)),
        json_document(body@) == Some(
            JsonTree::Object(
                map![
                    "host_token"@ => JsonTree::Text(host_token@),
                    "viewer_id"@ => JsonTree::Text(viewer_id@),
                    "action"@ => JsonTree::Text(decision_text(decision)),
                ],
            ),
        ),
{
    let action: &str = match decision {
        HostDecision::Accept => "accept",
        HostDecision::Reject => "reject",
        HostDecision::Kick => "kick",
    };
    let mut object = empty_object();
    set_text(&mut object, "host_token", host_token);
    set_text(&mut object, "viewer_id", viewer_id);
    set_text(&mut object, "action", action);
    proof {
        reveal_with_fuel(reads_back, 2);
    }
    write_json(&object)
}

/// What a host asks for that wants a new password.
pub open spec fn rotate_request(host_token: Seq<char>, password: Option<Seq<char>>) -> JsonTree {
    JsonTree::Object(
        match password {
            Some(text) => map![
                "host_token"@ => JsonTree::Text(host_token),
                "password"@ => JsonTree::Text(text),
            ],
            None => map!["host_token"@ => JsonTree::Text(host_token)],
        },
    )
}

/// The body of a host's request for a new password. Without one the current one stays;
/// the code of the room is the server's and never changes.
pub fn rotate_body(host_token: &str, password: Option<&str>) -> (body: String)
    ensures
        json_document(body@) == Some(rotate_request(host_token@, opt_str(password))),
        json_document(body@) == Some(
            JsonTree::Object(
                match password {
                    Some(text) => map![
                        "host_token"@ => JsonTree::Text(host_token@),
                        "password"@ => JsonTree::Text(text@),
                    ],
                    None => map!["host_token"@ => JsonTree::Text(host_token@)],
                },
            ),
        ),
{
    let mut object = empty_object();
    set_text(&mut object, "host_token", host_token);
    if let Some(text) = password {
        set_text(&mut object, "password", text);
    }
    proof {
        reveal_with_fuel(reads_back, 2);
    }
    write_json(&object)
}

/// The result of a request that only succeeds or fails: `None` where no reply came.
pub fn request_result(success: Option<bool>) -> (result: Result<(), String>)
    ensures
        result is Ok <==> success == Some(true),
        result matches Err(message) ==> message@ == UNREACHABLE@,
{
    match success {
        Some(true) => Ok(()),
        _ => Err(UNREACHABLE.to_owned()),
    }
}

/// What the server said to a host that opens a room.
#[derive(Debug, PartialEq, Eq)]
pub struct OpenReply {
    pub ok: bool,
    pub host_token: Option<String>,
    pub code: Option<String>,
    pub member_id: Option<String>,
}

/// A room on the server.
#[derive(Debug, PartialEq, Eq)]
pub struct OpenRoom {
    pub host_token: String,
    pub code: String,
    pub member_id: Option<String>,
}

/// What an [`OpenRoom`] holds.
pub struct OpenRoomModel {
    pub host_token: Seq<char>,
    pub code: Seq<char>,
    pub member_id: Option<Seq<char>>,
}

impl View for OpenRoom {
    type V = OpenRoomModel;

    open spec fn view(&self) -> OpenRoomModel {
        OpenRoomModel {
            host_token: self.host_token@,
            code: self.code@,
            member_id: opt_text(self.member_id),
        }
    }
}

/// The room that a reply opens: only one that succeeds and carries token and code.
pub fn opened_room(success: bool, reply: OpenReply) -> (room: Result<OpenRoom, String>)
    ensures
        room is Ok <==> success && reply.ok && reply.host_token is Some && reply.code is Some,
        room matches Ok(r) ==> r@ == (OpenRoomModel {
            host_token: reply.host_token->0@,
            code: reply.code->0@,
            member_id: opt_text(reply.member_id),
        }),
        room matches Err(message) ==> message@ == UNREACHABLE@,
{
    if success && reply.ok {
        if let Some(host_token) = reply.host_token {
            if let Some(code) = reply.code {
                return Ok(OpenRoom { host_token, code, member_id: reply.member_id });
            }
        }
    }
    Err(UNREACHABLE.to_owned())
}

/// The room that a reply document opens.
pub open spec fn open_room_in(success: bool, body: Seq<char>) -> Option<OpenRoomModel> {
    match json_document(body) {
        None => None,
        Some(tree) => {
            let token = text_member(tree, "host_token"@);
            let code = text_member(tree, "code"@);
            if success && flag_member(tree, "ok"@) == Some(true) && token is Some && code is Some {
                Some(
                    OpenRoomModel {
                        host_token: token->0,
                        code: code->0,
                        member_id: text_member(tree, "member_id"@),
                    },
                )
            } else {
                None
            }
        },
    }
}

/// Reads the reply to a host that opens a room.
pub fn read_open_reply(success: bool, body: &str) -> (room: Result<OpenRoom, String>)
    ensures
        match open_room_in(success, body@) {
            Some(model) => room is Ok && room->Ok_0@ == model,
            None => room is Err && room->Err_0@ == UNREACHABLE@,
        },
{
    match parse_json(body) {
        None => Err(UNREACHABLE.to_owned()),
        Some(value) => {
            let reply = OpenReply {
                ok: match flag_at(&value, "ok") {
                    Some(flag) => flag,
                    None => false,
                },
                host_token: text_at(&value, "host_token"),
                code: text_at(&value, "code"),
                member_id: text_at(&value, "member_id"),
            };
            opened_room(success, reply)
        },
    }
}

/// What the server said to a viewer that asks to join.
#[derive(Debug, PartialEq, Eq)]
pub struct AskReply {
    pub ok: bool,
    pub error: Option<String>,
    pub viewer_token: Option<String>,
    pub member_id: Option<String>,
    pub mode: Option<String>,
}

/// The right to wait in front of a room.
#[derive(Debug, PartialEq, Eq)]
pub struct Grant {
    pub token: String,
    pub member_id: Option<String>,
    pub mode: String,
}

/// What a [`Grant`] holds.
pub struct GrantModel {
    pub token: Seq<char>,
    pub member_id: Option<Seq<char>>,
    pub mode: Seq<char>,
}

impl View for Grant {
    type V = GrantModel;

    open spec fn view(&self) -> GrantModel {
        GrantModel { token: self.token@, member_id: opt_text(self.member_id), mode: self.mode@ }
    }
}

/// What a viewer is told about a refusal.
pub open spec fn refusal(error: Seq<char>) -> Seq<char> {
    if error == "full"@ {
        "This session is full."@
    } else if error == "invalid"@ {
        "Could not join. (server: invalid \u{2014} check the password)"@
    } else if error == "busy"@ {
        "Could not join. (server: busy \u{2014} too many attempts, wait a bit)"@
    } else if error == "denied"@ {
        "Could not join. (server: denied \u{2014} wrong code or password)"@
    } else {
        COULD_NOT_JOIN@
    }
}

/// The text of an optional text, or another one.
pub open spec fn text_or(text: Option<Seq<char>>, other: Seq<char>) -> Seq<char> {
    match text {
        Some(t) => t,
        None => other,
    }
}

/// Decides on the reply to a viewer that asks to join.
pub fn granted(success: bool, reply: AskReply) -> (grant: Result<Grant, String>)
    ensures
        grant is Ok <==> success && reply.ok && reply.viewer_token is Some,
        grant matches Ok(g) ==> g@ == (GrantModel {
            token: reply.viewer_token->0@,
            member_id: opt_text(reply.member_id),
            mode: text_or(opt_text(reply.mode), "broadcast"@),
        }),
        grant matches Err(message) ==> message@ == if success && reply.ok {
            COULD_NOT_JOIN@
        } else {
            refusal(text_or(opt_text(reply.error), "unknown"@))
        },
{
    if !success || !reply.ok {
        let error: String = match reply.error {
            Some(error) => error,
            None => "unknown".to_owned(),
        };
        let error: &str = error.as_str();
        let message: &str = if same_text(error, "full") {
            "This session is full."
        } else if same_text(error, "invalid") {
            "Could not join. (server: invalid \u{2014} check the password)"
        } else if same_text(error, "busy") {
            "Could not join. (server: busy \u{2014} too many attempts, wait a bit)"
        } else if same_text(error, "denied") {
            "Could not join. (server: denied \u{2014} wrong code or password)"
        } else {
            COULD_NOT_JOIN
        };
        return Err(message.to_owned());
    }
    match reply.viewer_token {
        None => Err(COULD_NOT_JOIN.to_owned()),
        Some(token) => {
            let mode: String = match reply.mode {
                Some(mode) => mode,
                None => "broadcast".to_owned(),
            };
            Ok(Grant { token, member_id: reply.member_id, mode })
        },
    }
}

/// The answer of a reply document to a viewer that asks to join.
pub open spec fn grant_in(success: bool, body: Seq<char>) -> Result<GrantModel, Seq<char>> {
    match json_document(body) {
        None => Err(UNREACHABLE@),
        Some(tree) => if !success || flag_member(tree, "ok"@) != Some(true) {
            Err(refusal(text_or(text_member(tree, "error"@), "unknown"@)))
        } else {
            match text_member(tree, "viewer_token"@) {
                None => Err(COULD_NOT_JOIN@),
                Some(token) => Ok(
                    GrantModel {
                        token,
                        member_id: text_member(tree, "member_id"@),
                        mode: text_or(text_member(tree, "mode"@), "broadcast"@),
                    },
                ),
            }
        },
    }
}

/// Reads the reply to a viewer that asks to join.
pub fn read_ask_reply(success: bool, body: &str) -> (grant: Result<Grant, String>)
    ensures
        match grant_in(success, body@) {
            Ok(model) => grant is Ok && grant->Ok_0@ == model,
            Err(message) => grant is Err && grant->Err_0@ == message,
        },
{
    match parse_json(body) {
        None => Err(UNREACHABLE.to_owned()),
        Some(value) => {
            let reply = AskReply {
                ok: match flag_at(&value, "ok") {
                    Some(flag) => flag,
                    None => false,
                },
                error: text_at(&value, "error"),
                viewer_token: text_at(&value, "viewer_token"),
                member_id: text_at(&value, "member_id"),
                mode: text_at(&value, "mode"),
            };
            granted(success, reply)
        },
    }
}

/// The error code of a reply that refuses, as the server worded it.
pub fn raw_error(success: bool, ok: bool, error: Option<String>) -> (code: Option<String>)
    ensures
        opt_text(code) == if success && ok {
            None
        } else {
            Some(text_or(opt_text(error), "unknown"@))
        },
{
    if success && ok {
        return None;
    }
    match error {
        Some(code) => Some(code),
        None => Some("unknown".to_owned()),
    }
}

/// The error code in a reply document that refuses.
pub open spec fn error_in(success: bool, body: Seq<char>) -> Option<Seq<char>> {
    match json_document(body) {
        None => None,
        Some(tree) => if success && flag_member(tree, "ok"@) == Some(true) {
            None
        } else {
            Some(text_or(text_member(tree, "error"@), "unknown"@))
        },
    }
}

/// Reads the error code of a reply that refuses, for the log.
pub fn read_error(success: bool, body: &str) -> (code: Option<String>)
    ensures
        opt_text(code) == error_in(success, body@),
{
    match parse_json(body) {
        None => None,
        Some(value) => {
            let ok: bool = match flag_at(&value, "ok") {
                Some(flag) => flag,
                None => false,
            };
            raw_error(success, ok, text_at(&value, "error"))
        },
    }
}

/// What a host or a viewer wants to send.
#[derive(Debug, PartialEq, Eq)]
pub enum Outgoing {
    Signal { viewer_id: String, to: Option<String>, kind: PeerSignalKind, sdp: String },
    Share { start: bool },
    Watch { to: String, start: bool },
    Close,
}

/// A frame as it goes out: its kind, and the fields that it carries.
#[derive(Debug, PartialEq, Eq)]
pub struct WsFrame {
    pub t: String,
    pub viewer_id: Option<String>,
    pub to: Option<String>,
    pub payload: Option<(String, String)>,
}

/// What a [`WsFrame`] holds.
pub struct FrameModel {
    pub t: Seq<char>,
    pub viewer_id: Option<Seq<char>>,
    pub to: Option<Seq<char>>,
    pub payload: Option<(Seq<char>, Seq<char>)>,
}

impl View for WsFrame {
    type V = FrameModel;

    open spec fn view(&self) -> FrameModel {
        FrameModel {
            t: self.t@,
            viewer_id: opt_text(self.viewer_id),
            to: opt_text(self.to),
            payload: match self.payload {
                Some((kind, sdp)) => Some((kind@, sdp@)),
                None => None,
            },
        }
    }
}

/// The frame of something to send. To close there is none.
pub open spec fn frame_of(outgoing: Outgoing) -> Option<FrameModel> {
    match outgoing {
        Outgoing::Signal { viewer_id, to, kind, sdp } => Some(
            FrameModel {
                t: "signal"@,
                viewer_id: Some(viewer_id@),
                to: opt_text(to),
                payload: Some((kind_name(kind), sdp@)),
            },
        ),
        Outgoing::Share { start } => Some(
            FrameModel {
                t: if start {
                    "share-start"@
                } else {
                    "share-stop"@
                },
                viewer_id: None,
                to: None,
                payload: None,
            },
        ),
        Outgoing::Watch { to, start } => Some(
            FrameModel {
                t: if start {
                    "watch"@
                } else {
                    "unwatch"@
                },
                viewer_id: None,
                to: Some(to@),
                payload: None,
            },
        ),
        Outgoing::Close => None,
    }
}

/// What an optional frame holds.
pub open spec fn opt_frame(frame: Option<WsFrame>) -> Option<FrameModel> {
    match frame {
        Some(f) => Some(f@),
        None => None,
    }
}

/// The frame of something to send.
pub fn outgoing_frame(outgoing: Outgoing) -> (frame: Option<WsFrame>)
    ensures
        opt_frame(frame) == frame_of(outgoing),
{
    match outgoing {
        Outgoing::Signal { viewer_id, to, kind, sdp } => {
            let name: &str = match kind {
                PeerSignalKind::Offer => "offer",
                PeerSignalKind::Answer => "answer",
            };
            Some(
                WsFrame {
                    t: "signal".to_owned(),
                    viewer_id: Some(viewer_id),
                    to,
                    payload: Some((name.to_owned(), sdp)),
                },
            )
        },
        Outgoing::Share { start } => {
            let name: &str = if start {
                "share-start"
            } else {
                "share-stop"
            };
            Some(WsFrame { t: name.to_owned(), viewer_id: None, to: None, payload: None })
        },
        Outgoing::Watch { to, start } => {
            let name: &str = if start {
                "watch"
            } else {
                "unwatch"
            };
            Some(WsFrame { t: name.to_owned(), viewer_id: None, to: Some(to), payload: None })
        },
        Outgoing::Close => None,
    }
}

/// What a host sends to one of its viewers.
pub fn host_signal(viewer_id: &str, signal: &PeerSignal) -> (outgoing: Outgoing)
    ensures
        frame_of(outgoing) == Some(
            (FrameModel {
                t: "signal"@,
                viewer_id: Some(viewer_id@),
                to: Some(viewer_id@),
                payload: Some((kind_name(signal.kind), signal.sdp@)),
            }),
        ),
{
    Outgoing::Signal {
        viewer_id: viewer_id.to_owned(),
        to: Some(viewer_id.to_owned()),
        kind: signal.kind,
        sdp: signal.sdp.clone(),
    }
}

/// What a viewer sends to another member. Without a name the server sends it to the
/// host.
pub fn viewer_signal(to: &str, signal: &PeerSignal) -> (outgoing: Outgoing)
    ensures
        frame_of(outgoing) == Some(
            (FrameModel {
                t: "signal"@,
                viewer_id: Some(to@),
                to: if to@.len() == 0 {
                    None
                } else {
                    Some(to@)
                },
                payload: Some((kind_name(signal.kind), signal.sdp@)),
            }),
        ),
{
    let nameless: bool = chars_of(to).len() == 0;
    Outgoing::Signal {
        viewer_id: to.to_owned(),
        to: if nameless {
            None
        } else {
            Some(to.to_owned())
        },
        kind: signal.kind,
        sdp: signal.sdp.clone(),
    }
}

/// What a viewer sends in answer to an offer: to the member that the answer names.
pub fn answer_signal(answer: &PeerSignal) -> (outgoing: Outgoing)
    ensures
        ({
            let to = text_or(opt_text(answer.id), Seq::empty());
            frame_of(outgoing) == Some(
                (FrameModel {
                    t: "signal"@,
                    viewer_id: Some(to),
                    to: if to.len() == 0 {
                        None
                    } else {
                        Some(to)
                    },
                    payload: Some((kind_name(answer.kind), answer.sdp@)),
                }),
            )
        }),
{
    let to: String = match &answer.id {
        Some(id) => id.clone(),
        None => String::new(),
    };
    assert(to@ =~= text_or(opt_text(answer.id), Seq::empty()));
    viewer_signal(to.as_str(), answer)
}

/// Members with one more text, if there is one.
pub open spec fn with_text(
    members: Map<Seq<char>, JsonTree>,
    name: Seq<char>,
    text: Option<Seq<char>>,
) -> Map<Seq<char>, JsonTree> {
    match text {
        Some(t) => members.insert(name, JsonTree::Text(t)),
        None => members,
    }
}

/// The document of a payload: its type and its session description.
pub open spec fn payload_tree(kind: Seq<char>, sdp: Seq<char>) -> JsonTree {
    JsonTree::Object(map!["type"@ => JsonTree::Text(kind), "sdp"@ => JsonTree::Text(sdp)])
}

/// The members of a frame's document: what the frame does not carry is left out.
pub open spec fn frame_members(frame: FrameModel) -> Map<Seq<char>, JsonTree> {
    let named = with_text(
        with_text(map!["t"@ => JsonTree::Text(frame.t)], "viewer_id"@, frame.viewer_id),
        "to"@,
        frame.to,
    );
    match frame.payload {
        Some((kind, sdp)) => named.insert("payload"@, payload_tree(kind, sdp)),
        None => named,
    }
}

/// The text of a frame.
pub fn frame_text(frame: &WsFrame) -> (text: String)
    ensures
        json_document(text@) == Some(JsonTree::Object(frame_members(frame@))),
{
    let mut object = empty_object();
    set_text(&mut object, "t", frame.t.as_str());
    if let Some(id) = &frame.viewer_id {
        set_text(&mut object, "viewer_id", id.as_str());
    }
    if let Some(to) = &frame.to {
        set_text(&mut object, "to", to.as_str());
    }
    if let Some((kind, sdp)) = &frame.payload {
        let mut payload = empty_object();
        set_text(&mut payload, "type", kind.as_str());
        set_text(&mut payload, "sdp", sdp.as_str());
        set_member(&mut object, "payload", payload);
    }
    proof {
        reveal_with_fuel(reads_back, 3);
    }
    write_json(&object)
}

/// The document of a frame that the server passes on: it adds the sender's id.
pub open spec fn passed_on(frame: FrameModel, from: Seq<char>) -> JsonTree {
    JsonTree::Object(frame_members(frame).insert("from"@, JsonTree::Text(from)))
}

proof fn lemma_different_members()
    ensures
        "t"@ != "viewer_id"@ && "t"@ != "to"@ && "t"@ != "payload"@ && "t"@ != "from"@,
        "viewer_id"@ != "to"@ && "viewer_id"@ != "payload"@ && "viewer_id"@ != "from"@,
        "to"@ != "payload"@ && "to"@ != "from"@ && "payload"@ != "from"@,
        "type"@ != "sdp"@,
        "nickname"@ != "t"@ && "nickname"@ != "viewer_id"@ && "nickname"@ != "to"@,
        "nickname"@ != "payload"@ && "nickname"@ != "from"@,
        "master_id"@ != "t"@ && "master_id"@ != "viewer_id"@ && "master_id"@ != "to"@,
        "master_id"@ != "payload"@ && "master_id"@ != "from"@,
        "entries"@ != "t"@ && "entries"@ != "viewer_id"@ && "entries"@ != "to"@,
        "entries"@ != "payload"@ && "entries"@ != "from"@,
{
    reveal_strlit("t");
    reveal_strlit("viewer_id");
    reveal_strlit("to");
    reveal_strlit("payload");
    reveal_strlit("from");
    reveal_strlit("type");
    reveal_strlit("sdp");
    reveal_strlit("nickname");
    reveal_strlit("master_id");
    reveal_strlit("entries");
    assert("t"@.len() == 1);
    assert("viewer_id"@.len() == 9);
    assert("to"@.len() == 2);
    assert("payload"@.len() == 7);
    assert("from"@.len() == 4);
    assert("type"@.len() == 4);
    assert("sdp"@.len() == 3);
    assert("nickname"@.len() == 8);
    assert("master_id"@.len() == 9);
    assert("entries"@.len() == 7);
    assert("entries"@[0] != "payload"@[0]);
    assert("master_id"@[0] != "viewer_id"@[0]);
}

/// What a member writes in a frame is what another one reads in the document that the
/// server passes on, with the sender's id.
pub proof fn law_frames_are_read(frame: FrameModel, from: Seq<char>)
    ensures
        message_of(passed_on(frame, from)) == (MessageModel {
            t: Some(frame.t),
            viewer_id: frame.viewer_id,
            nickname: None,
            from: Some(from),
            master_id: None,
            payload_type: match frame.payload {
                Some((kind, _)) => Some(kind),
                None => None,
            },
            payload_sdp: match frame.payload {
                Some((_, sdp)) => Some(sdp),
                None => None,
            },
            entries: Seq::empty(),
        }),
{
    lemma_different_members();
    let tree = passed_on(frame, from);
    let members = members_of(tree);
    assert(members["from"@] == JsonTree::Text(from));
    assert(members["t"@] == JsonTree::Text(frame.t));
    assert(!members.contains_key("nickname"@));
    assert(!members.contains_key("master_id"@));
    assert(!members.contains_key("entries"@));
    assert(json_member(tree, "entries"@) is None);
    assert(elements_of(tree, "entries"@).map_values(|element: JsonTree| entry_of(element))
        =~= Seq::<EntryModel>::empty());
    match frame.payload {
        Some((kind, sdp)) => {
            assert(json_member(tree, "payload"@) == Some(payload_tree(kind, sdp)));
            assert(payload_text(tree, "type"@) == Some(kind));
            assert(payload_text(tree, "sdp"@) == Some(sdp));
        },
        None => {
            assert(json_member(tree, "payload"@) is None);
        },
    }
}

/// A signal that one member sends arrives at the other as the same signal, under the
/// sender's name.
pub proof fn law_signals_arrive(
    mailbox: MailboxModel,
    viewer_id: Seq<char>,
    to: Option<Seq<char>>,
    kind: PeerSignalKind,
    sdp: Seq<char>,
    from: Seq<char>,
)
    requires
        from.len() > 0,
    ensures
        ({
            let frame = FrameModel {
                t: "signal"@,
                viewer_id: Some(viewer_id),
                to,
                payload: Some((kind_name(kind), sdp)),
            };
            let after = absorbed(
                mailbox,
                inbox_after(empty_inbox(), message_of(passed_on(frame, from))),
            );
            match kind {
                PeerSignalKind::Answer => after == (MailboxModel {
                    answers: mailbox.answers.push(SignalModel { kind, sdp, id: Some(from) }),
                    ..mailbox
                }),
                PeerSignalKind::Offer => after == (MailboxModel {
                    incoming_offers: mailbox.incoming_offers.push(OfferModel { from, sdp }),
                    ..mailbox
                }),
            }
        }),
{
    reveal_strlit("roster");
    reveal_strlit("pending");
    reveal_strlit("signal");
    reveal_strlit("offer");
    reveal_strlit("answer");
    assert("signal"@.len() != "pending"@.len());
    assert("signal"@[0] != "roster"@[0]);
    assert("offer"@.len() != "answer"@.len());
    let frame = FrameModel {
        t: "signal"@,
        viewer_id: Some(viewer_id),
        to,
        payload: Some((kind_name(kind), sdp)),
    };
    law_frames_are_read(frame, from);
    let inbox = inbox_after(empty_inbox(), message_of(passed_on(frame, from)));
    let after = absorbed(mailbox, inbox);
    match kind {
        PeerSignalKind::Answer => {
            let one = SignalModel { kind, sdp, id: Some(from) };
            assert(inbox.answers =~= seq![one]);
            assert(after =~= (MailboxModel { answers: mailbox.answers.push(one), ..mailbox }));
        },
        PeerSignalKind::Offer => {
            let one = OfferModel { from, sdp };
            assert(inbox.offers =~= seq![one]);
            assert(after =~= (MailboxModel {
                incoming_offers: mailbox.incoming_offers.push(one),
                ..mailbox
            }));
        },
    }
}

/// A wish to watch, or to stop watching, arrives under the name of the one who has it.
pub proof fn law_watch_wishes_arrive(
    mailbox: MailboxModel,
    to: Seq<char>,
    start: bool,
    from: Seq<char>,
)
    ensures
        ({
            let frame = FrameModel {
                t: if start {
                    "watch"@
                } else {
                    "unwatch"@
                },
                viewer_id: None,
                to: Some(to),
                payload: None,
            };
            let after = absorbed(
                mailbox,
                inbox_after(empty_inbox(), message_of(passed_on(frame, from))),
            );
            after == if start {
                MailboxModel { watch_from: mailbox.watch_from.push(from), ..mailbox }
            } else {
                MailboxModel { unwatch_from: mailbox.unwatch_from.push(from), ..mailbox }
            }
        }),
{
    reveal_strlit("roster");
    reveal_strlit("pending");
    reveal_strlit("signal");
    reveal_strlit("you-are-master");
    reveal_strlit("gone");
    reveal_strlit("kicked");
    reveal_strlit("rejected");
    reveal_strlit("watch");
    reveal_strlit("unwatch");
    assert("watch"@.len() == 5 && "unwatch"@.len() == 7);
    assert("pending"@.len() == 7 && "unwatch"@[0] != "pending"@[0]);
    assert("roster"@.len() == 6 && "signal"@.len() == 6 && "kicked"@.len() == 6);
    assert("you-are-master"@.len() == 14 && "gone"@.len() == 4 && "rejected"@.len() == 8);
    let frame = FrameModel {
        t: if start {
            "watch"@
        } else {
            "unwatch"@
        },
        viewer_id: None,
        to: Some(to),
        payload: None,
    };
    law_frames_are_read(frame, from);
    let inbox = inbox_after(empty_inbox(), message_of(passed_on(frame, from)));
    let after = absorbed(mailbox, inbox);
    if start {
        assert(inbox.watch_from =~= seq![from]);
        assert(after =~= (MailboxModel { watch_from: mailbox.watch_from.push(from), ..mailbox }));
    } else {
        assert(inbox.unwatch_from =~= seq![from]);
        assert(after =~= (MailboxModel {
            unwatch_from: mailbox.unwatch_from.push(from),
            ..mailbox
        }));
    }
}

/// What came over a signalling socket.
#[derive(Debug, PartialEq, Eq)]
pub enum SocketEvent {
    Text(String),
    Ping,
    Other,
    /// The socket failed or was closed.
    Ended,
}

/// What is to be done about it.
#[derive(Clone, Copy, Debug, PartialEq, Eq, Structural)]
pub enum SocketReply {
    Nothing,
    Pong,
}

/// Where the connection of a host or viewer stands.
#[derive(Clone, Copy, Debug, PartialEq, Eq, Structural)]
pub enum LinkPhase {
    /// The socket is about to be opened.
    Connecting,
    Connected,
    /// The socket is lost; it is opened again after a while.
    Waiting,
    /// There will be no other socket.
    Stopped,
}

/// What to do about something that is to be sent.
#[derive(Debug, PartialEq, Eq)]
pub enum SendStep {
    /// Send this frame.
    Send(WsFrame),
    /// Close the socket and stop.
    CloseSocket,
    /// Stop.
    Stop,
}

/// The host's connection to the server.
pub struct HostLink {
    pub phase: LinkPhase,
    pub state: StunarState,
    pub mailbox: Mailbox,
}

/// What a [`HostLink`] holds.
#[verifier::ext_equal]
pub struct HostModel {
    pub phase: LinkPhase,
    pub state: StunarState,
    pub mailbox: MailboxModel,
}

impl View for HostLink {
    type V = HostModel;

    open spec fn view(&self) -> HostModel {
        HostModel { phase: self.phase, state: self.state, mailbox: self.mailbox@ }
    }
}

/// A mailbox that took the text of a message in.
pub open spec fn delivered(mailbox: MailboxModel, text: Seq<char>) -> MailboxModel {
    match message_in(text) {
        Some(message) => absorbed(mailbox, inbox_after(empty_inbox(), message)),
        None => mailbox,
    }
}

/// The host's connection after something came over the socket.
pub open spec fn host_after_event(host: HostModel, event: SocketEvent) -> HostModel {
    match event {
        SocketEvent::Text(text) => HostModel { mailbox: delivered(host.mailbox, text@), ..host },
        SocketEvent::Ping | SocketEvent::Other => host,
        SocketEvent::Ended => HostModel { phase: LinkPhase::Waiting, ..host },
    }
}

/// What is done about something to send.
pub open spec fn send_step_of(outgoing: Option<Outgoing>, step: SendStep) -> bool {
    match outgoing {
        None => step == SendStep::Stop,
        Some(wish) => match frame_of(wish) {
            Some(frame) => step is Send && step->Send_0@ == frame,
            None => step == SendStep::CloseSocket,
        },
    }
}

fn send_step(outgoing: Option<Outgoing>) -> (step: SendStep)
    ensures
        send_step_of(outgoing, step),
{
    match outgoing {
        None => SendStep::Stop,
        Some(wish) => match outgoing_frame(wish) {
            Some(frame) => SendStep::Send(frame),
            None => SendStep::CloseSocket,
        },
    }
}

/// The host's connection once its socket was opened, or could not be.
pub open spec fn host_after_connect(host: HostModel, connected: bool) -> HostModel {
    HostModel {
        phase: if connected {
            LinkPhase::Connected
        } else {
            LinkPhase::Waiting
        },
        state: if connected {
            StunarState::Live
        } else {
            StunarState::Unreachable
        },
        ..host
    }
}

/// The host's connection once the while between two sockets is over.
pub open spec fn host_after_delay(host: HostModel, shutdown: bool) -> HostModel {
    if host.phase != LinkPhase::Waiting {
        host
    } else if shutdown {
        HostModel { phase: LinkPhase::Stopped, ..host }
    } else {
        HostModel { phase: LinkPhase::Connecting, ..host }
    }
}

/// The host's connection after a sign of life.
pub open spec fn host_after_heartbeat(host: HostModel, accepted: bool) -> HostModel {
    if accepted {
        host
    } else {
        HostModel { state: StunarState::Unreachable, ..host }
    }
}

/// The host's connection after an attempt to send.
pub open spec fn host_after_send(host: HostModel, sent: bool) -> HostModel {
    if sent {
        host
    } else {
        HostModel { phase: LinkPhase::Waiting, ..host }
    }
}

impl HostLink {
    /// A connection that was opened and is not live yet. Without a usable address it
    /// never will be.
    pub fn new(url_is_valid: bool) -> (link: Self)
        ensures
            link.mailbox.roster.wf(),
            link@ == (HostModel {
                phase: if url_is_valid {
                    LinkPhase::Connecting
                } else {
                    LinkPhase::Stopped
                },
                state: StunarState::Calling,
                mailbox: crate::inbox::empty_mailbox(),
            }),
    {
        HostLink {
            phase: if url_is_valid {
                LinkPhase::Connecting
            } else {
                LinkPhase::Stopped
            },
            state: StunarState::Calling,
            mailbox: Mailbox::default(),
        }
    }

    /// The socket was opened, or it could not be.
    pub fn on_connect(&mut self, connected: bool)
        requires
            old(self).mailbox.roster.wf(),
        ensures
            final(self).mailbox.roster.wf(),
            final(self)@ == host_after_connect(old(self)@, connected),
            final(self)@ == (HostModel {
                phase: if connected {
                    LinkPhase::Connected
                } else {
                    LinkPhase::Waiting
                },
                state: if connected {
                    StunarState::Live
                } else {
                    StunarState::Unreachable
                },
                ..old(self)@
            }),
    {
        if connected {
            self.phase = LinkPhase::Connected;
            self.state = StunarState::Live;
        } else {
            self.phase = LinkPhase::Waiting;
            self.state = StunarState::Unreachable;
        }
    }

    /// Something came over the socket. One that ended is opened again later.
    pub fn on_event(&mut self, event: SocketEvent) -> (reply: SocketReply)
        requires
            old(self).mailbox.roster.wf(),
        ensures
            final(self).mailbox.roster.wf(),
            final(self)@ == host_after_event(old(self)@, event),
            reply == if event == SocketEvent::Ping {
                SocketReply::Pong
            } else {
                SocketReply::Nothing
            },
    {
        match event {
            SocketEvent::Text(text) => {
                self.mailbox.handle_message(text.as_str());
                SocketReply::Nothing
            },
            SocketEvent::Ping => SocketReply::Pong,
            SocketEvent::Other => SocketReply::Nothing,
            SocketEvent::Ended => {
                self.phase = LinkPhase::Waiting;
                SocketReply::Nothing
            },
        }
    }

    /// Something is to be sent, or nothing ever will be again.
    pub fn on_outgoing(&mut self, outgoing: Option<Outgoing>) -> (step: SendStep)
        requires
            old(self).mailbox.roster.wf(),
        ensures
            final(self).mailbox.roster.wf(),
            send_step_of(outgoing, step),
            final(self)@ == if step is Send {
                old(self)@
            } else {
                HostModel { phase: LinkPhase::Stopped, ..old(self)@ }
            },
    {
        let step = send_step(outgoing);
        match &step {
            SendStep::Send(_) => {},
            SendStep::CloseSocket | SendStep::Stop => {
                self.phase = LinkPhase::Stopped;
            },
        }
        step
    }

    /// A frame was sent, or the socket is lost.
    pub fn on_sent(&mut self, sent: bool)
        requires
            old(self).mailbox.roster.wf(),
        ensures
            final(self).mailbox.roster.wf(),
            final(self)@ == host_after_send(old(self)@, sent),
            final(self)@ == if sent {
                old(self)@
            } else {
                HostModel { phase: LinkPhase::Waiting, ..old(self)@ }
            },
    {
        if !sent {
            self.phase = LinkPhase::Waiting;
        }
    }

    /// The while between two sockets is over, or the host shuts down.
    pub fn on_delay(&mut self, shutdown: bool)
        requires
            old(self).mailbox.roster.wf(),
        ensures
            final(self).mailbox.roster.wf(),
            final(self)@ == host_after_delay(old(self)@, shutdown),
            final(self)@ == if old(self).phase != LinkPhase::Waiting {
                old(self)@
            } else if shutdown {
                HostModel { phase: LinkPhase::Stopped, ..old(self)@ }
            } else {
                HostModel { phase: LinkPhase::Connecting, ..old(self)@ }
            },
    {
        if self.phase == LinkPhase::Waiting {
            self.phase = if shutdown {
                LinkPhase::Stopped
            } else {
                LinkPhase::Connecting
            };
        }
    }

    /// A sign of life was accepted by the server, or it was not.
    pub fn on_heartbeat(&mut self, accepted: bool)
        requires
            old(self).mailbox.roster.wf(),
        ensures
            final(self).mailbox.roster.wf(),
            final(self)@ == host_after_heartbeat(old(self)@, accepted),
            final(self)@ == if accepted {
                old(self)@
            } else {
                HostModel { state: StunarState::Unreachable, ..old(self)@ }
            },
    {
        if !accepted {
            self.state = StunarState::Unreachable;
        }
    }
}

/// The host's connection after a list of things came over its sockets.
pub open spec fn host_after_events(host: HostModel, events: Seq<SocketEvent>) -> HostModel
    decreases events.len(),
{
    if events.len() == 0 {
        host
    } else {
        host_after_event(host_after_events(host, events.drop_last()), events.last())
    }
}

/// Everything that lies in one mailbox lies in the other one too, in front and in its
/// order.
pub open spec fn mail_is_kept(before: MailboxModel, after: MailboxModel) -> bool {
    &&& before.answers.is_prefix_of(after.answers)
    &&& before.incoming_offers.is_prefix_of(after.incoming_offers)
    &&& before.watch_from.is_prefix_of(after.watch_from)
    &&& before.unwatch_from.is_prefix_of(after.unwatch_from)
}

/// A lost socket costs no mail: what was received stays until it is fetched, whatever
/// comes over any number of sockets.
pub proof fn law_mail_survives_the_socket(host: HostModel, events: Seq<SocketEvent>)
    ensures
        mail_is_kept(host.mailbox, host_after_events(host, events).mailbox),
    decreases events.len(),
{
    if events.len() > 0 {
        let before = host_after_events(host, events.drop_last());
        law_mail_survives_the_socket(host, events.drop_last());
        let after = host_after_event(before, events.last());
        assert(mail_is_kept(before.mailbox, after.mailbox));
        assert(mail_is_kept(host.mailbox, after.mailbox));
    }
}

/// The viewer's connection to the server, once it was let in.
pub struct ViewerLink {
    pub phase: LinkPhase,
    pub mailbox: Mailbox,
}

/// What a [`ViewerLink`] holds.
#[verifier::ext_equal]
pub struct ViewerLinkModel {
    pub phase: LinkPhase,
    pub mailbox: MailboxModel,
}

impl View for ViewerLink {
    type V = ViewerLinkModel;

    open spec fn view(&self) -> ViewerLinkModel {
        ViewerLinkModel { phase: self.phase, mailbox: self.mailbox@ }
    }
}

/// A message that ends the viewer's stay: the room is gone, or the viewer was put out.
pub open spec fn ends_stay(text: Seq<char>) -> bool {
    match message_in(text) {
        Some(message) => {
            let inbox = inbox_after(empty_inbox(), message);
            inbox.gone || inbox.kicked
        },
        None => false,
    }
}

/// The viewer's connection after something came over the socket: one that is lost is
/// not opened again.
pub open spec fn viewer_after_event(viewer: ViewerLinkModel, event: SocketEvent) -> ViewerLinkModel {
    match event {
        SocketEvent::Text(text) => ViewerLinkModel {
            phase: if ends_stay(text@) {
                LinkPhase::Stopped
            } else {
                viewer.phase
            },
            mailbox: delivered(viewer.mailbox, text@),
        },
        SocketEvent::Ping | SocketEvent::Other => viewer,
        SocketEvent::Ended => ViewerLinkModel { phase: LinkPhase::Stopped, ..viewer },
    }
}

/// The viewer's connection after an attempt to send.
pub open spec fn viewer_after_send(viewer: ViewerLinkModel, sent: bool) -> ViewerLinkModel {
    if sent {
        viewer
    } else {
        ViewerLinkModel { phase: LinkPhase::Stopped, ..viewer }
    }
}

impl ViewerLink {
    /// The connection of a viewer whose handshake left the given mail behind.
    pub fn new(mailbox: Mailbox) -> (link: Self)
        requires
            mailbox.roster.wf(),
        ensures
            link.mailbox.roster.wf(),
            link@ == (ViewerLinkModel { phase: LinkPhase::Connected, mailbox: mailbox@ }),
    {
        ViewerLink { phase: LinkPhase::Connected, mailbox }
    }

    /// Something came over the socket.
    pub fn on_event(&mut self, event: SocketEvent) -> (reply: SocketReply)
        requires
            old(self).mailbox.roster.wf(),
        ensures
            final(self).mailbox.roster.wf(),
            final(self)@ == viewer_after_event(old(self)@, event),
            reply == if event == SocketEvent::Ping {
                SocketReply::Pong
            } else {
                SocketReply::Nothing
            },
    {
        match event {
            SocketEvent::Text(text) => {
                let mut inbox = WsInbox::default();
                crate::inbox::apply_ws_message(text.as_str(), &mut inbox);
                let over: bool = inbox.gone || inbox.kicked;
                self.mailbox.absorb(inbox);
                if over {
                    self.phase = LinkPhase::Stopped;
                }
                proof {
                    if message_in(text@) is None {
                        assert(absorbed(old(self)@.mailbox, empty_inbox()) =~= old(self)@.mailbox);
                    }
                }
                SocketReply::Nothing
            },
            SocketEvent::Ping => SocketReply::Pong,
            SocketEvent::Other => SocketReply::Nothing,
            SocketEvent::Ended => {
                self.phase = LinkPhase::Stopped;
                SocketReply::Nothing
            },
        }
    }

    /// Something is to be sent. A viewer with nothing left to send closes its socket.
    pub fn on_outgoing(&mut self, outgoing: Option<Outgoing>) -> (step: SendStep)
        requires
            old(self).mailbox.roster.wf(),
        ensures
            final(self).mailbox.roster.wf(),
            outgoing is Some ==> send_step_of(outgoing, step),
            outgoing is None ==> step == SendStep::CloseSocket,
            final(self)@ == if step is Send {
                old(self)@
            } else {
                ViewerLinkModel { phase: LinkPhase::Stopped, ..old(self)@ }
            },
    {
        let step = match outgoing {
            None => SendStep::CloseSocket,
            Some(wish) => send_step(Some(wish)),
        };
        match &step {
            SendStep::Send(_) => {},
            SendStep::CloseSocket | SendStep::Stop => {
                self.phase = LinkPhase::Stopped;
            },
        }
        step
    }

    /// A frame was sent, or the socket is lost.
    pub fn on_sent(&mut self, sent: bool)
        requires
            old(self).mailbox.roster.wf(),
        ensures
            final(self).mailbox.roster.wf(),
            final(self)@ == viewer_after_send(old(self)@, sent),
            final(self)@ == if sent {
                old(self)@
            } else {
                ViewerLinkModel { phase: LinkPhase::Stopped, ..old(self)@ }
            },
    {
        if !sent {
            self.phase = LinkPhase::Stopped;
        }
    }
}

/// What a viewer sees while it waits to be let in.
#[derive(Debug, PartialEq, Eq)]
pub enum HandshakeInput {
    Text(String),
    /// A frame that is no text.
    Other,
    /// The socket was closed or failed.
    Ended,
    /// Nobody answered in time.
    TimedOut,
}

/// What follows.
#[derive(Debug, PartialEq, Eq)]
pub enum HandshakeStep {
    Wait,
    /// The viewer is in, with this offer. In a room it is empty.
    Ready(PeerSignal),
    Failed(String),
}

/// What a step says.
pub enum HandshakeModel {
    Wait,
    Ready(SignalModel),
    Failed(Seq<char>),
}

impl View for HandshakeStep {
    type V = HandshakeModel;

    open spec fn view(&self) -> HandshakeModel {
        match self {
            HandshakeStep::Wait => HandshakeModel::Wait,
            HandshakeStep::Ready(offer) => HandshakeModel::Ready(offer@),
            HandshakeStep::Failed(message) => HandshakeModel::Failed(message@),
        }
    }
}

/// The event of the handshake that a message is, if it is one.
pub open spec fn handshake_event(message: MessageModel) -> Option<HandshakeEvent> {
    match message.t {
        None => None,
        Some(kind) => if kind == "accepted"@ {
            Some(HandshakeEvent::Accepted)
        } else if kind == "rejected"@ {
            Some(HandshakeEvent::Rejected)
        } else if kind == "gone"@ {
            Some(HandshakeEvent::Gone)
        } else if kind == "signal"@ && message.payload_type == Some("offer"@) {
            Some(HandshakeEvent::Offer)
        } else {
            None
        },
    }
}

/// What follows a message: the step, and the mailbox. The offer that ends the handshake
/// does not go into the mailbox as well.
pub open spec fn handshake_after(
    room: bool,
    mailbox: MailboxModel,
    message: MessageModel,
) -> (HandshakeModel, MailboxModel) {
    let inbox = inbox_after(empty_inbox(), message);
    match handshake_event(message) {
        None => (HandshakeModel::Wait, absorbed(mailbox, inbox)),
        Some(event) => match outcome_in(room, event) {
            HandshakeOutcome::KeepWaiting => (HandshakeModel::Wait, absorbed(mailbox, inbox)),
            HandshakeOutcome::ReadyWithoutOffer => (
                HandshakeModel::Ready(
                    SignalModel { kind: PeerSignalKind::Offer, sdp: Seq::empty(), id: None },
                ),
                absorbed(mailbox, inbox),
            ),
            HandshakeOutcome::ReadyWithOffer => (
                match message.payload_sdp {
                    Some(sdp) => HandshakeModel::Ready(
                        SignalModel { kind: PeerSignalKind::Offer, sdp, id: message.from },
                    ),
                    None => HandshakeModel::Wait,
                },
                absorbed(mailbox, InboxModel { offers: Seq::empty(), ..inbox }),
            ),
            HandshakeOutcome::Rejected => (HandshakeModel::Failed(DECLINED@), mailbox),
            HandshakeOutcome::Gone => (HandshakeModel::Failed(COULD_NOT_JOIN@), mailbox),
        },
    }
}

fn is_text(text: &Option<String>, name: &str) -> (same: bool)
    ensures
        same == (opt_text(*text) == Some(name@)),
{
    match text {
        Some(t) => same_text(t.as_str(), name),
        None => false,
    }
}

fn event_of(message: &WsMessage) -> (event: Option<HandshakeEvent>)
    ensures
        event == handshake_event(message@),
{
    if is_text(&message.t, "accepted") {
        Some(HandshakeEvent::Accepted)
    } else if is_text(&message.t, "rejected") {
        Some(HandshakeEvent::Rejected)
    } else if is_text(&message.t, "gone") {
        Some(HandshakeEvent::Gone)
    } else if is_text(&message.t, "signal") && is_text(&message.payload_type, "offer") {
        Some(HandshakeEvent::Offer)
    } else {
        None
    }
}

/// Decides on a message during the handshake.
pub fn on_handshake_message(mode: &str, mailbox: &mut Mailbox, message: &WsMessage) -> (step:
    HandshakeStep)
    requires
        old(mailbox).roster.wf(),
    ensures
        final(mailbox).roster.wf(),
        (step@, final(mailbox)@) == handshake_after(mode@ == "room"@, old(mailbox)@, message@),
{
    let mut inbox = WsInbox::default();
    inbox.apply_message(message);
    match event_of(message) {
        None => {
            mailbox.absorb(inbox);
            HandshakeStep::Wait
        },
        Some(event) => match handshake_outcome(mode, event) {
            HandshakeOutcome::KeepWaiting => {
                mailbox.absorb(inbox);
                HandshakeStep::Wait
            },
            HandshakeOutcome::ReadyWithoutOffer => {
                mailbox.absorb(inbox);
                let offer = PeerSignal {
                    kind: PeerSignalKind::Offer,
                    sdp: String::new(),
                    id: None,
                };
                assert(offer@.sdp =~= Seq::<char>::empty());
                HandshakeStep::Ready(offer)
            },
            HandshakeOutcome::ReadyWithOffer => {
                let ghost before = inbox@;
                inbox.offers = Vec::new();
                assert(inbox@ =~= (InboxModel { offers: Seq::empty(), ..before }));
                mailbox.absorb(inbox);
                match &message.payload_sdp {
                    Some(sdp) => HandshakeStep::Ready(
                        PeerSignal {
                            kind: PeerSignalKind::Offer,
                            sdp: sdp.clone(),
                            id: copy_opt_text(&message.from),
                        },
                    ),
                    None => HandshakeStep::Wait,
                }
            },
            HandshakeOutcome::Rejected => HandshakeStep::Failed(DECLINED.to_owned()),
            HandshakeOutcome::Gone => HandshakeStep::Failed(COULD_NOT_JOIN.to_owned()),
        },
    }
}

/// What follows an input of the handshake.
pub open spec fn handshake_on(
    room: bool,
    mailbox: MailboxModel,
    input: HandshakeInput,
) -> (HandshakeModel, MailboxModel) {
    match input {
        HandshakeInput::Text(text) => match message_in(text@) {
            Some(message) => handshake_after(room, mailbox, message),
            None => (HandshakeModel::Wait, mailbox),
        },
        HandshakeInput::Other => (HandshakeModel::Wait, mailbox),
        HandshakeInput::Ended => (HandshakeModel::Failed(UNREACHABLE@), mailbox),
        HandshakeInput::TimedOut => (HandshakeModel::Failed(DECLINED@), mailbox),
    }
}

/// One step of a viewer that waits to be let in. A room is entered as soon as the host
/// agrees, a broadcast with the host's offer.
pub fn viewer_handshake(mode: &str, mailbox: &mut Mailbox, input: HandshakeInput) -> (step:
    HandshakeStep)
    requires
        old(mailbox).roster.wf(),
    ensures
        final(mailbox).roster.wf(),
        (step@, final(mailbox)@) == handshake_on(mode@ == "room"@, old(mailbox)@, input),
{
    match input {
        HandshakeInput::Text(text) => match read_message(text.as_str()) {
            Some(message) => on_handshake_message(mode, mailbox, &message),
            None => HandshakeStep::Wait,
        },
        HandshakeInput::Other => HandshakeStep::Wait,
        HandshakeInput::Ended => HandshakeStep::Failed(UNREACHABLE.to_owned()),
        HandshakeInput::TimedOut => HandshakeStep::Failed(DECLINED.to_owned()),
    }
}

/// In a broadcast nobody is in before the host's offer is there, and the offer that lets
/// a viewer in is not delivered a second time.
pub proof fn law_broadcast_waits_for_the_offer(mailbox: MailboxModel, message: MessageModel)
    ensures
        ({
            let (step, after) = handshake_after(false, mailbox, message);
            step is Ready ==> message.payload_type == Some("offer"@) && message.payload_sdp is Some
                && after.incoming_offers == mailbox.incoming_offers
        }),
{
    let (step, after) = handshake_after(false, mailbox, message);
    if step is Ready {
        assert(after.incoming_offers =~= mailbox.incoming_offers);
    }
}

/// Slashes at the end of an address do not count, however many there are, and no others go.
pub proof fn law_trailing_slashes_do_not_count(text: Seq<char>)
    ensures
        without_slashes(text + seq!['/']) == without_slashes(text),
        without_slashes(text).len() == 0 || without_slashes(text).last() != '/',
        text.len() > 0 && text.last() != '/' ==> without_slashes(text) == text,
    decreases text.len(),
{
    assert((text + seq!['/']).drop_last() =~= text);
    if text.len() > 0 && text.last() == '/' {
        law_trailing_slashes_do_not_count(text.drop_last());
    }
}

/// The socket is at the same place as the server, under the scheme that matches: a secure one
/// for a secure server. Role and token stand behind it. Any other scheme is refused.
pub proof fn law_sockets_match_their_server(
    place: Seq<char>,
    role: Seq<char>,
    token: Seq<char>,
    base: Seq<char>,
)
    requires
        place.len() > 0,
        place.last() != '/',
        !is_white(place.last()),
    ensures
        socket_address("https://"@ + place, role, token) == Some(
            "wss"@ + "://"@ + place + "/v1/ws?role="@ + role + "&token="@ + token,
        ),
        socket_address("http://"@ + place, role, token) == Some(
            "ws"@ + "://"@ + place + "/v1/ws?role="@ + role + "&token="@ + token,
        ),
        socket_address(base, role, token) is Some <==> begins_with(base_address(base), "https://"@)
            || begins_with(base_address(base), "http://"@),
{
    reveal_strlit("https://");
    reveal_strlit("http://");
    let secure = "https://"@ + place;
    let plain = "http://"@ + place;
    lemma_address_stays(secure);
    lemma_address_stays(plain);
    assert(secure.subrange(0, 8) =~= "https://"@);
    assert(secure.skip(8) =~= place);
    assert(plain.subrange(0, 7) =~= "http://"@);
    assert(plain.skip(7) =~= place);
    assert(!begins_with(plain, "https://"@)) by {
        if begins_with(plain, "https://"@) {
            assert(plain.subrange(0, 8)[4] == "https://"@[4]);
            assert(plain[4] == ':');
        }
    }
}

proof fn lemma_address_stays(text: Seq<char>)
    requires
        text.len() > 0,
        !is_white(text[0]),
        !is_white(text.last()),
        text.last() != '/',
    ensures
        base_address(text) == text,
{
    let (from, to) = law_trimming_takes_white_space(text);
    assert(from == 0) by {
        if from > 0 {
            assert(is_white(text[0]));
        }
    }
    assert(to == text.len()) by {
        if to < text.len() {
            assert(is_white(text[text.len() - 1]));
        }
    }
    assert(text.subrange(0, text.len() as int) =~= text);
}

/// A viewer may wait in front of the room exactly where the request succeeded, the server
/// agreed, and it gave a token; it gets that token, and a broadcast where no mode is told.
pub proof fn law_the_server_grants(success: bool, body: Seq<char>, tree: JsonTree)
    requires
        json_document(body) == Some(tree),
    ensures
        ({
            let token = text_member(tree, "viewer_token"@);
            let agreed = success && flag_member(tree, "ok"@) == Some(true);
            let mode = text_member(tree, "mode"@);
            &&& grant_in(success, body) is Ok <==> agreed && token is Some
            &&& grant_in(success, body) is Ok ==> {
                let grant = grant_in(success, body)->Ok_0;
                &&& grant.token == token->0
                &&& grant.member_id == text_member(tree, "member_id"@)
                &&& mode is Some ==> grant.mode == mode->0
                &&& mode is None ==> grant.mode == "broadcast"@
            }
            &&& agreed && token is None ==> grant_in(success, body) == Err::<
                GrantModel,
                Seq<char>,
            >("Could not join."@)
            &&& !agreed && text_member(tree, "error"@) is Some ==> grant_in(success, body) == Err::<
                GrantModel,
                Seq<char>,
            >(refusal(text_member(tree, "error"@)->0))
            &&& error_in(success, body) is None <==> agreed
            &&& !agreed && text_member(tree, "error"@) is Some ==> error_in(success, body)
                == text_member(tree, "error"@)
            &&& !agreed && text_member(tree, "error"@) is None ==> error_in(success, body) == Some(
                "unknown"@,
            )
        }),
{
}

/// A full room, a wrong password, too many attempts and a denial are told apart; any other
/// refusal is told without a reason.
pub proof fn law_refusals_are_told_apart(error: Seq<char>)
    ensures
        refusal("full"@) == "This session is full."@,
        begins_with(refusal("invalid"@), "Could not join. (server: invalid"@),
        begins_with(refusal("busy"@), "Could not join. (server: busy"@),
        begins_with(refusal("denied"@), "Could not join. (server: denied"@),
        error != "full"@ && error != "invalid"@ && error != "busy"@ && error != "denied"@
            ==> refusal(error) == "Could not join."@,
{
    reveal_strlit("full");
    reveal_strlit("invalid");
    reveal_strlit("busy");
    reveal_strlit("denied");
    assert("full"@[0] == 'f' && "invalid"@[0] == 'i');
    assert("busy"@[0] == 'b' && "denied"@[0] == 'd');
    reveal_strlit("Could not join. (server: invalid");
    reveal_strlit("Could not join. (server: busy");
    reveal_strlit("Could not join. (server: denied");
    reveal_strlit("Could not join. (server: invalid \u{2014} check the password)");
    reveal_strlit("Could not join. (server: busy \u{2014} too many attempts, wait a bit)");
    reveal_strlit("Could not join. (server: denied \u{2014} wrong code or password)");
    assert(refusal("invalid"@).subrange(0, 32) =~= "Could not join. (server: invalid"@);
    assert(refusal("busy"@).subrange(0, 29) =~= "Could not join. (server: busy"@);
    assert(refusal("denied"@).subrange(0, 31) =~= "Could not join. (server: denied"@);
}

/// A room is open exactly where the request succeeded, the server agreed, and it gave both a
/// token and a code: those are the room's.
pub proof fn law_the_server_opens(success: bool, body: Seq<char>, tree: JsonTree)
    requires
        json_document(body) == Some(tree),
    ensures
        ({
            let token = text_member(tree, "host_token"@);
            let code = text_member(tree, "code"@);
            &&& open_room_in(success, body) is Some <==> success && flag_member(tree, "ok"@)
                == Some(true) && token is Some && code is Some
            &&& open_room_in(success, body) is Some ==> {
                let room = open_room_in(success, body)->0;
                &&& room.host_token == token->0
                &&& room.code == code->0
                &&& room.member_id == text_member(tree, "member_id"@)
            }
        }),
{
}

/// Only a text brings mail. A lost socket, and nothing else that comes, makes the host wait
/// for another one; nothing that comes changes how the server is known to be.
pub proof fn law_host_follows_its_socket(host: HostModel, event: SocketEvent)
    ensures
        ({
            let after = host_after_event(host, event);
            &&& after.state == host.state
            &&& event is Ended ==> after.phase == LinkPhase::Waiting
            &&& !(event is Ended) ==> after.phase == host.phase
            &&& !(event is Text) ==> after.mailbox == host.mailbox
            &&& (event matches SocketEvent::Text(text) ==> {
                &&& message_in(text@) is None ==> after.mailbox == host.mailbox
                &&& message_in(text@) is Some ==> after.mailbox == absorbed(
                    host.mailbox,
                    inbox_after(empty_inbox(), message_in(text@)->0),
                )
            })
        }),
{
}

/// The host keeps trying until it is shut down: a socket that fails or is lost is waited for,
/// and behind the wait comes the next attempt. What was stopped stays stopped. Only a socket
/// makes the server known as live, and only a failure as unreachable. No mail is lost.
pub proof fn law_host_keeps_trying(host: HostModel, good: bool)
    ensures
        host_after_connect(host, true).phase == LinkPhase::Connected,
        host_after_connect(host, true).state == StunarState::Live,
        host_after_connect(host, false).phase == LinkPhase::Waiting,
        host_after_connect(host, false).state == StunarState::Unreachable,
        host.phase == LinkPhase::Waiting ==> host_after_delay(host, false).phase
            == LinkPhase::Connecting,
        host.phase == LinkPhase::Waiting ==> host_after_delay(host, true).phase
            == LinkPhase::Stopped,
        host.phase != LinkPhase::Waiting ==> host_after_delay(host, good) == host,
        host_after_delay(host, good).state == host.state,
        host_after_send(host, true) == host,
        host_after_send(host, false).phase == LinkPhase::Waiting,
        host_after_send(host, good).state == host.state,
        host_after_heartbeat(host, true) == host,
        host_after_heartbeat(host, false).state == StunarState::Unreachable,
        host_after_heartbeat(host, good).phase == host.phase,
        host_after_connect(host, good).mailbox == host.mailbox,
        host_after_delay(host, good).mailbox == host.mailbox,
        host_after_send(host, good).mailbox == host.mailbox,
        host_after_heartbeat(host, good).mailbox == host.mailbox,
{
}

/// A viewer's stay ends with its socket, or with word that the room is gone or that the viewer
/// is put out or refused, and with nothing else; what came with that word is still delivered.
pub proof fn law_stay_ends_for_a_reason(viewer: ViewerLinkModel, event: SocketEvent)
    ensures
        ({
            let after = viewer_after_event(viewer, event);
            &&& event is Ended ==> after.phase == LinkPhase::Stopped && after.mailbox
                == viewer.mailbox
            &&& event is Ping || event is Other ==> after == viewer
            &&& (event matches SocketEvent::Text(text) ==> {
                &&& after.mailbox == delivered(viewer.mailbox, text@)
                &&& message_in(text@) is None ==> after.phase == viewer.phase
                &&& (message_in(text@) matches Some(message) ==> if message.t == Some("gone"@)
                    || message.t == Some("kicked"@) || message.t == Some("rejected"@) {
                    after.phase == LinkPhase::Stopped
                } else {
                    after.phase == viewer.phase
                })
            })
        }),
{
    if let SocketEvent::Text(text) = event {
        if let Some(message) = message_in(text@) {
            crate::inbox::law_messages_change_their_part(empty_inbox(), message);
        }
    }
}

/// A viewer is let in by what its mode waits for, with what that brings: in a room by the
/// host's word, in a broadcast by the offer, whose text and sender it gets. A refusal and a
/// room that is gone end the wait. While it waits nothing that came is lost.
pub proof fn law_waiting_ends_as_it_should(room: bool, mailbox: MailboxModel, message: MessageModel)
    ensures
        ({
            let (step, after) = handshake_after(room, mailbox, message);
            let kept = absorbed(mailbox, inbox_after(empty_inbox(), message));
            let offers = message.t == Some("signal"@) && message.payload_type == Some("offer"@);
            &&& message.t == Some("rejected"@) ==> step == HandshakeModel::Failed(
                "The host declined."@,
            ) && after == mailbox
            &&& message.t == Some("gone"@) ==> step == HandshakeModel::Failed("Could not join."@)
                && after == mailbox
            &&& room && message.t == Some("accepted"@) ==> {
                &&& step is Ready
                &&& step->Ready_0.sdp.len() == 0
                &&& step->Ready_0.kind == PeerSignalKind::Offer
                &&& step->Ready_0.id is None
                &&& after == kept
            }
            &&& !room && message.t == Some("accepted"@) ==> step is Wait && after == kept
            &&& room && offers ==> step is Wait && after == kept
            &&& !room && offers && message.payload_sdp is Some ==> {
                &&& step is Ready
                &&& step->Ready_0.sdp == message.payload_sdp->0
                &&& step->Ready_0.kind == PeerSignalKind::Offer
                &&& step->Ready_0.id == message.from
            }
            &&& !offers && message.t != Some("accepted"@) && message.t != Some("rejected"@)
                && message.t != Some("gone"@) ==> step is Wait && after == kept
        }),
{
    reveal_strlit("accepted");
    reveal_strlit("rejected");
    reveal_strlit("gone");
    reveal_strlit("signal");
    assert("accepted"@[0] == 'a' && "rejected"@[0] == 'r');
    assert("gone"@[0] == 'g' && "signal"@[0] == 's');
}

/// A socket that ends leaves the server unreachable, silence means that the host declined,
/// and what is no message changes nothing.
pub proof fn law_silence_is_a_refusal(room: bool, mailbox: MailboxModel, text: String)
    ensures
        handshake_on(room, mailbox, HandshakeInput::Ended) == (
            HandshakeModel::Failed("Stunar is unreachable."@),
            mailbox,
        ),
        handshake_on(room, mailbox, HandshakeInput::TimedOut) == (
            HandshakeModel::Failed("The host declined."@),
            mailbox,
        ),
        handshake_on(room, mailbox, HandshakeInput::Other) == (HandshakeModel::Wait, mailbox),
        message_in(text@) is None ==> handshake_on(room, mailbox, HandshakeInput::Text(text)) == (
            HandshakeModel::Wait,
            mailbox,
        ),
        message_in(text@) is Some ==> handshake_on(room, mailbox, HandshakeInput::Text(text))
            == handshake_after(room, mailbox, message_in(text@)->0),
{
}

/// A frame says what is meant: a signal carries its text to the one it is for, a share and a
/// wish to watch tell their beginning from their end, and nothing else is in it.
pub proof fn law_frames_say_what_is_meant(
    viewer_id: String,
    to: Option<String>,
    kind: PeerSignalKind,
    sdp: String,
    start: bool,
    member: String,
)
    ensures
        frame_of(Outgoing::Signal { viewer_id, to, kind, sdp }) == Some(
            FrameModel {
                t: "signal"@,
                viewer_id: Some(viewer_id@),
                to: opt_text(to),
                payload: Some((kind_name(kind), sdp@)),
            },
        ),
        frame_of(Outgoing::Share { start }) is Some,
        frame_of(Outgoing::Share { start })->0.t == "share-start"@ <==> start,
        frame_of(Outgoing::Share { start })->0.t == "share-stop"@ <==> !start,
        frame_of(Outgoing::Share { start })->0.payload is None,
        frame_of(Outgoing::Watch { to: member, start }) is Some,
        frame_of(Outgoing::Watch { to: member, start })->0.to == Some(member@),
        frame_of(Outgoing::Watch { to: member, start })->0.t == "watch"@ <==> start,
        frame_of(Outgoing::Watch { to: member, start })->0.t == "unwatch"@ <==> !start,
        frame_of(Outgoing::Close) is None,
{
    reveal_strlit("share-start");
    reveal_strlit("share-stop");
    reveal_strlit("watch");
    reveal_strlit("unwatch");
    assert("share-start"@[8] == 'a' && "share-stop"@[8] == 'o');
    assert("watch"@[0] == 'w' && "unwatch"@[0] == 'u');
}

/// The server reads in a request what was meant, each part under its own name, and nothing
/// that was not said: no password where the current one stays.
pub proof fn law_requests_say_what_is_meant(
    host_token: Seq<char>,
    password: Seq<char>,
    nickname: Seq<char>,
    code: Seq<char>,
    admission: bool,
    mode: SessionMode,
    decision: HostDecision,
    name: Seq<char>,
)
    ensures
        ({
            let open = open_request(password, nickname, admission, mode);
            &&& text_member(open, "password"@) == Some(password)
            &&& text_member(open, "nickname"@) == Some(nickname)
            &&& flag_member(open, "admission"@) == Some(admission)
            &&& text_member(open, "mode"@) == Some("room"@) <==> mode is Room
            &&& text_member(open, "mode"@) == Some("broadcast"@) <==> mode is Broadcast
        }),
        ({
            let ask = ask_request(code, password, nickname);
            &&& text_member(ask, "code"@) == Some(code)
            &&& text_member(ask, "password"@) == Some(password)
            &&& text_member(ask, "nickname"@) == Some(nickname)
        }),
        text_member(host_request(host_token), "host_token"@) == Some(host_token),
        text_member(member_request(host_token), "token"@) == Some(host_token),
        ({
            let decide = decide_request(host_token, code, decision);
            &&& text_member(decide, "host_token"@) == Some(host_token)
            &&& text_member(decide, "viewer_id"@) == Some(code)
            &&& decision is Accept ==> text_member(decide, "action"@) == Some("accept"@)
            &&& decision is Reject ==> text_member(decide, "action"@) == Some("reject"@)
            &&& decision is Kick ==> text_member(decide, "action"@) == Some("kick"@)
        }),
        text_member(rotate_request(host_token, Some(password)), "host_token"@) == Some(host_token),
        text_member(rotate_request(host_token, Some(password)), "password"@) == Some(password),
        text_member(rotate_request(host_token, None), "host_token"@) == Some(host_token),
        name != "host_token"@ ==> json_member(rotate_request(host_token, None), name) is None,
{
    reveal_strlit("password");
    reveal_strlit("nickname");
    reveal_strlit("admission");
    reveal_strlit("mode");
    reveal_strlit("code");
    reveal_strlit("host_token");
    reveal_strlit("viewer_id");
    reveal_strlit("action");
    reveal_strlit("room");
    reveal_strlit("broadcast");
    assert("password"@[0] == 'p' && "nickname"@[0] == 'n' && "admission"@[0] == 'a');
    assert("mode"@[0] == 'm' && "code"@[0] == 'c' && "host_token"@[0] == 'h');
    assert("viewer_id"@[0] == 'v' && "action"@[0] == 'a');
    assert("room"@[0] == 'r' && "broadcast"@[0] == 'b');
}

/// What can be sent is sent, and a wish to close closes; a viewer whose frame did not go out
/// is done, and its mail stays.
pub proof fn law_wishes_are_sent(outgoing: Outgoing, step: SendStep, viewer: ViewerLinkModel)
    ensures
        send_step_of(Some(outgoing), step) && outgoing is Close ==> step is CloseSocket,
        send_step_of(Some(outgoing), step) && !(outgoing is Close) ==> step is Send
            && step->Send_0@ == frame_of(outgoing)->0,
        send_step_of(None, step) ==> step is Stop,
        viewer_after_send(viewer, true) == viewer,
        viewer_after_send(viewer, false).phase == LinkPhase::Stopped,
        viewer_after_send(viewer, false).mailbox == viewer.mailbox,
{
}

} // verus!
