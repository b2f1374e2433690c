//! Rooms in the local network: their codes, how they are found and what is asked of
//! them.

use rand::Rng;
use vstd::prelude::*;
use crate::peer_signal::{PeerSignal, SignalModel, LOOPBACK};
use crate::sdp::{rewrite_mdns_candidate_addresses, rewritten};
use crate::text::{
    begins_with, chars_of, contains_text, decimal, is_white, is_word, joined_by,
    law_line_feeds_end_lines, law_white_space_parts_words, lemma_line_feed_is, lemma_words_of_join,
    lines, lines_of, occurs_at, occurs_in, opt_text, push_decimal, push_text, same_text,
    strip_prefix, text_of, texts, trim_chars, trimmed, trimmed_start, without_return, words,
    words_of,
};

verus! {

/// The port on which rooms are looked for.
pub const DISCOVERY_PORT: u16 = 17424;

/// How many characters a room code has.
pub const CODE_LENGTH: usize = 6;

/// How many characters there are for a room code.
pub const CODE_CHARACTERS: usize = 36;

/// A character of a room code: a digit or a capital letter.
pub open spec fn is_code_byte(byte: u8) -> bool {
    (0x30 <= byte <= 0x39) || (0x41 <= byte <= 0x5a)
}

/// The characters of room codes, each of them once: the digits and the capital letters.
pub open spec fn code_alphabet() -> Seq<u8> {
    Seq::new(
        CODE_CHARACTERS as nat,
        |i: int|
            if i < 10 {
                (0x30 + i) as u8
            } else {
                (0x41 + i - 10) as u8
            },
    )
}

fn code_characters() -> (alphabet: Vec<u8>)
    ensures
        alphabet@ == code_alphabet(),
{
    let mut alphabet: Vec<u8> = Vec::new();
    let mut i: u8 = 0;
    while i < 36
        invariant
            i <= 36,
            alphabet@ == code_alphabet().take(i as int),
        decreases 36 - i,
    {
        let byte: u8 = if i < 10 {
            0x30 + i
        } else {
            0x41 + (i - 10)
        };
        alphabet.push(byte);
        i += 1;
        assert(alphabet@ =~= code_alphabet().take(i as int));
    }
    assert(code_alphabet().take(36) =~= code_alphabet());
    alphabet
}

/// Draws bytes with `rand::thread_rng` from `rand::distributions::Slice`: as many as are
/// asked for, each of them one of the alphabet. Which ones is left to chance. An empty
/// alphabet has nothing to draw, and a list has room for no more than `isize::MAX` bytes.
#[verifier::external_body]
fn draw_from(alphabet: &Vec<u8>, count: usize) -> (drawn: Vec<u8>)
    requires
        alphabet@.len() > 0,
        count <= isize::MAX,
    ensures
        drawn@.len() == count,
        forall|i: int| 0 <= i < drawn@.len() ==> alphabet@.contains(#[trigger] drawn@[i]),
{
    let distribution = rand::distributions::Slice::new(alphabet).unwrap();
    rand::thread_rng().sample_iter(distribution).copied().take(count).collect()
}

/// What may be drawn for a room code: so many bytes of its alphabet.
pub open spec fn is_draw(drawn: Seq<u8>) -> bool {
    &&& drawn.len() == CODE_LENGTH
    &&& forall|i: int| 0 <= i < drawn.len() ==> code_alphabet().contains(#[trigger] drawn[i])
}

/// The text of drawn bytes, character by character.
pub open spec fn code_of(drawn: Seq<u8>) -> Seq<char> {
    Seq::new(drawn.len(), |i: int| drawn[i] as char)
}

/// A room code: six digits and capital letters.
pub open spec fn is_room_code(code: Seq<char>) -> bool {
    &&& code.len() == CODE_LENGTH
    &&& forall|i: int|
        0 <= i < code.len() ==> ('0' <= #[trigger] code[i] <= '9') || ('A' <= code[i] <= 'Z')
}

/// The alphabet of codes holds every digit and capital letter, once, and nothing else.
pub proof fn lemma_code_alphabet(byte: u8)
    ensures
        code_alphabet().contains(byte) <==> is_code_byte(byte),
        code_alphabet().no_duplicates(),
{
    let alphabet = code_alphabet();
    if is_code_byte(byte) {
        let i: int = if byte <= 0x39 {
            byte - 0x30
        } else {
            byte - 0x41 + 10
        };
        assert(alphabet[i] == byte);
    }
}

/// Whatever is drawn for a code gives a room code, and every room code can be drawn.
pub proof fn law_draws_are_codes(code: Seq<char>)
    ensures
        is_room_code(code) <==> exists|drawn: Seq<u8>| #[trigger] is_draw(drawn) && code == code_of(
            drawn,
        ),
{
    if is_room_code(code) {
        let drawn = Seq::new(code.len(), |i: int| code[i] as u8);
        assert forall|i: int| 0 <= i < drawn.len() implies code_alphabet().contains(
            #[trigger] drawn[i],
        ) by {
            assert('0' <= code[i] <= '9' || 'A' <= code[i] <= 'Z');
            lemma_code_alphabet(drawn[i]);
        }
        assert(is_draw(drawn));
        assert(code =~= code_of(drawn));
    }
    if exists|drawn: Seq<u8>| #[trigger] is_draw(drawn) && code == code_of(drawn) {
        let drawn = choose|drawn: Seq<u8>| #[trigger] is_draw(drawn) && code == code_of(drawn);
        assert forall|i: int| 0 <= i < code.len() implies ('0' <= #[trigger] code[i] <= '9') || (
        'A' <= code[i] <= 'Z') by {
            assert(code_alphabet().contains(drawn[i]));
            lemma_code_alphabet(drawn[i]);
        }
    }
}

/// The text of drawn bytes.
pub fn code_from(drawn: &Vec<u8>) -> (code: String)
    ensures
        code@ == code_of(drawn@),
{
    let mut code = String::new();
    let mut i: usize = 0;
    assert(code@ =~= code_of(drawn@.take(0)));
    while i < drawn.len()
        invariant
            i <= drawn@.len(),
            code@ == code_of(drawn@.take(i as int)),
        decreases drawn@.len() - i,
    {
        code.push(drawn[i] as char);
        i += 1;
        assert(code@ =~= code_of(drawn@.take(i as int)));
    }
    assert(drawn@.take(i as int) =~= drawn@);
    code
}

/// Draws a code for a new room.
pub fn random_code() -> (code: String)
    ensures
        exists|drawn: Seq<u8>| #[trigger] is_draw(drawn) && code@ == code_of(drawn),
        is_room_code(code@),
{
    let alphabet = code_characters();
    let drawn = draw_from(&alphabet, CODE_LENGTH);
    let code = code_from(&drawn);
    proof {
        assert(is_draw(drawn@));
        law_draws_are_codes(code@);
    }
    code
}

/// The first line of a request or reply, trimmed.
pub open spec fn first_line(text: Seq<char>) -> Seq<char> {
    if lines(text).len() > 0 {
        trimmed(lines(text)[0])
    } else {
        Seq::empty()
    }
}

fn read_first_line(text: &str) -> (line: Vec<char>)
    ensures
        line@ == first_line(text@),
{
    let list = lines_of(text);
    if list.len() > 0 {
        assert(texts(list@)[0] == list@[0]@);
        trim_chars(&chars_of(list[0].as_str()))
    } else {
        assert(texts(list@).len() == 0);
        let line: Vec<char> = Vec::new();
        assert(line@ =~= Seq::<char>::empty());
        line
    }
}

/// What a viewer asks of a room.
#[derive(Debug, PartialEq, Eq)]
pub enum RoomRequest {
    GetOffer,
    /// The document of an answer.
    Answer(String),
    Unsupported,
}

/// The request behind a text.
pub open spec fn request_in(text: Seq<char>) -> RoomRequestModel {
    let line = first_line(text);
    if line == "GET_OFFER"@ {
        RoomRequestModel::GetOffer
    } else if begins_with(line, "ANSWER "@) {
        RoomRequestModel::Answer(line.skip("ANSWER "@.len() as int))
    } else {
        RoomRequestModel::Unsupported
    }
}

/// What a [`RoomRequest`] says.
pub enum RoomRequestModel {
    GetOffer,
    Answer(Seq<char>),
    Unsupported,
}

impl View for RoomRequest {
    type V = RoomRequestModel;

    open spec fn view(&self) -> RoomRequestModel {
        match self {
            RoomRequest::GetOffer => RoomRequestModel::GetOffer,
            RoomRequest::Answer(json) => RoomRequestModel::Answer(json@),
            RoomRequest::Unsupported => RoomRequestModel::Unsupported,
        }
    }
}

/// Reads a request.
pub fn read_request(text: &str) -> (request: RoomRequest)
    ensures
        request@ == request_in(text@),
{
    let line = read_first_line(text);
    if same_text(text_of(&line).as_str(), "GET_OFFER") {
        RoomRequest::GetOffer
    } else {
        match strip_prefix(&line, &chars_of("ANSWER ")) {
            Some(json) => RoomRequest::Answer(text_of(&json)),
            None => RoomRequest::Unsupported,
        }
    }
}

/// The line that hands an offer out.
pub open spec fn offer_sent(json: Seq<char>) -> Seq<char> {
    "OFFER "@ + json + "\n"@
}

/// The line that hands an answer in.
pub open spec fn answer_sent(json: Seq<char>) -> Seq<char> {
    "ANSWER "@ + json + "\n"@
}

/// The document of the offer in a room's reply, if there is one.
pub open spec fn offer_in(text: Seq<char>) -> Option<Seq<char>> {
    if begins_with(first_line(text), "OFFER "@) {
        Some(first_line(text).skip("OFFER "@.len() as int))
    } else {
        None
    }
}

/// The query for a room.
pub open spec fn query_text(code: Seq<char>) -> Seq<char> {
    "GOLIVE1 FIND "@ + code
}

/// The line that hands an offer out.
pub fn offer_line(json: &str) -> (line: String)
    ensures
        line@ == offer_sent(json@),
        line@ == "OFFER "@ + json@ + "\n"@,
{
    let mut line = "OFFER ".to_owned();
    push_text(&mut line, json);
    push_text(&mut line, "\n");
    line
}

/// The line that hands an answer in.
pub fn answer_line(json: &str) -> (line: String)
    ensures
        line@ == answer_sent(json@),
        line@ == "ANSWER "@ + json@ + "\n"@,
{
    let mut line = "ANSWER ".to_owned();
    push_text(&mut line, json);
    push_text(&mut line, "\n");
    line
}

/// The document of the offer in a room's reply.
pub fn read_offer_line(text: &str) -> (json: Result<String, String>)
    ensures
        json is Ok <==> offer_in(text@) is Some,
        json is Ok ==> Some(json->Ok_0@) == offer_in(text@),
        json is Ok <==> begins_with(first_line(text@), "OFFER "@),
        json matches Ok(body) ==> body@ == first_line(text@).skip("OFFER "@.len() as int),
        json matches Err(message) ==> message@ == "host did not return an offer"@,
{
    match strip_prefix(&read_first_line(text), &chars_of("OFFER ")) {
        Some(body) => Ok(text_of(&body)),
        None => Err("host did not return an offer".to_owned()),
    }
}

/// The query for a room.
pub fn find_query(code: &str) -> (query: String)
    ensures
        query@ == query_text(code@),
        query@ == "GOLIVE1 FIND "@ + code@,
{
    let mut query = "GOLIVE1 FIND ".to_owned();
    push_text(&mut query, code);
    query
}

/// A query for the room with the given code.
pub open spec fn asks_for(request: Seq<char>, code: Seq<char>) -> bool {
    let pieces = words(request);
    &&& pieces.len() >= 3
    &&& pieces[0] == "GOLIVE1"@
    &&& pieces[1] == "FIND"@
    &&& pieces[2] == code
}

/// Whether a query is for the room with the given code.
pub fn is_find_request(request: &str, code: &str) -> (found: bool)
    ensures
        found == asks_for(request@, code@),
{
    let pieces = words_of(&chars_of(request));
    if pieces.len() < 3 {
        assert(texts(pieces@).len() < 3);
        return false;
    }
    assert(texts(pieces@)[0] == pieces@[0]@);
    assert(texts(pieces@)[1] == pieces@[1]@);
    assert(texts(pieces@)[2] == pieces@[2]@);
    same_text(pieces[0].as_str(), "GOLIVE1") && same_text(pieces[1].as_str(), "FIND") && same_text(
        pieces[2].as_str(),
        code,
    )
}

/// The reply of a room.
pub open spec fn host_reply_text(code: Seq<char>, port: u16) -> Seq<char> {
    "GOLIVE1 HOST "@ + code + " "@ + decimal(port as nat)
}

/// The reply of a room to a query.
pub fn host_reply(code: &str, port: u16) -> (reply: String)
    ensures
        reply@ == host_reply_text(code@, port),
{
    let mut reply = "GOLIVE1 HOST ".to_owned();
    push_text(&mut reply, code);
    push_text(&mut reply, " ");
    push_decimal(&mut reply, port as u64);
    reply
}

/// A list of decimal digits.
pub open spec fn all_digits(text: Seq<char>) -> bool {
    forall|i: int| 0 <= i < text.len() ==> '0' <= #[trigger] text[i] <= '9'
}

/// The number that a list of digits writes.
pub open spec fn digits_value(text: Seq<char>) -> nat
    decreases text.len(),
{
    if text.len() == 0 {
        0
    } else {
        10 * digits_value(text.drop_last()) + ((text.last() as nat) - ('0' as nat)) as nat
    }
}

/// The digits of a number, behind an optional plus sign.
pub open spec fn unsigned_digits(text: Seq<char>) -> Seq<char> {
    if text.len() > 1 && text[0] == '+' {
        text.skip(1)
    } else {
        text
    }
}

/// The port that a text writes.
pub open spec fn port_in(text: Seq<char>) -> Option<u16> {
    let digits = unsigned_digits(text);
    if digits.len() > 0 && all_digits(digits) && digits_value(digits) <= u16::MAX {
        Some(digits_value(digits) as u16)
    } else {
        None
    }
}

proof fn lemma_value_grows(text: Seq<char>, n: int)
    requires
        0 <= n <= text.len(),
    ensures
        digits_value(text.take(n)) <= digits_value(text),
    decreases text.len() - n,
{
    if n == text.len() {
        assert(text.take(n) =~= text);
    } else {
        lemma_value_grows(text, n + 1);
        assert(text.take(n + 1).drop_last() =~= text.take(n));
    }
}

/// Reads a port.
pub fn parse_port(text: &str) -> (port: Option<u16>)
    ensures
        port == port_in(text@),
{
    let chars = chars_of(text);
    let len: usize = chars.len();
    let from: usize = if len > 1 && chars[0] == '+' {
        1
    } else {
        0
    };
    let ghost digits = unsigned_digits(text@);
    assert(digits =~= text@.skip(from as int));
    if from == len {
        return None;
    }
    let mut value: u32 = 0;
    let mut i: usize = from;
    assert(digits.take(0) =~= Seq::<char>::empty());
    while i < len
        invariant
            chars@ == text@,
            len == chars@.len(),
            from <= i <= len,
            digits == text@.skip(from as int),
            digits == unsigned_digits(text@),
            value <= u16::MAX,
            value == digits_value(digits.take(i - from)),
            forall|j: int| 0 <= j < i - from ==> '0' <= #[trigger] digits[j] <= '9',
        decreases len - i,
    {
        let c: char = chars[i];
        assert(digits[i - from] == c);
        if c < '0' || c > '9' {
            assert(!all_digits(digits));
            return None;
        }
        assert(digits.take(i - from + 1).drop_last() =~= digits.take(i - from));
        assert(digits.take(i - from + 1).last() == c);
        value = value * 10 + (c as u32 - '0' as u32);
        i += 1;
        if value > u16::MAX as u32 {
            proof {
                lemma_value_grows(digits, i - from);
            }
            return None;
        }
    }
    assert(digits.take(i - from) =~= digits);
    Some(value as u16)
}

/// Why a reply does not lead to the room.
pub open spec fn reply_refusal(reply: Seq<char>, code: Seq<char>) -> Option<Seq<char>> {
    let pieces = words(reply);
    if pieces.len() < 2 || pieces[0] != "GOLIVE1"@ || pieces[1] != "HOST"@ {
        Some("invalid room discovery reply"@)
    } else if pieces.len() < 3 || pieces[2] != code {
        Some("room code mismatch"@)
    } else if pieces.len() < 4 || port_in(pieces[3]) is None {
        Some("room reply is missing a port"@)
    } else {
        None
    }
}

/// The port of the room in a reply to a query.
pub fn read_discovery_reply(reply: &str, code: &str) -> (port: Result<u16, String>)
    ensures
        match reply_refusal(reply@, code@) {
            Some(message) => port is Err && port->Err_0@ == message,
            None => port is Ok && Some(port->Ok_0) == port_in(words(reply@)[3]),
        },
{
    let pieces = words_of(&chars_of(reply));
    let ghost all = words(reply@);
    assert(texts(pieces@).len() == pieces@.len());
    assert(forall|i: int| 0 <= i < pieces@.len() ==> #[trigger] all[i] == pieces@[i]@);
    if pieces.len() < 2 || !same_text(pieces[0].as_str(), "GOLIVE1") || !same_text(
        pieces[1].as_str(),
        "HOST",
    ) {
        return Err("invalid room discovery reply".to_owned());
    }
    if pieces.len() < 3 || !same_text(pieces[2].as_str(), code) {
        return Err("room code mismatch".to_owned());
    }
    if pieces.len() >= 4 {
        if let Some(port) = parse_port(pieces[3].as_str()) {
            return Ok(port);
        }
    }
    Err("room reply is missing a port".to_owned())
}

/// The address of a peer: as text, and whether it is this machine's loopback.
#[derive(Debug, PartialEq, Eq)]
pub struct PeerAddress {
    pub rendered: String,
    pub loopback: bool,
}

/// The address under which a peer is reached: loopback where it is on this machine or
/// not known.
pub open spec fn reachable(peer: Option<PeerAddress>, local: Seq<Seq<char>>) -> Seq<char> {
    match peer {
        None => LOOPBACK@,
        Some(address) => if address.loopback || local.contains(address.rendered@) {
            LOOPBACK@
        } else {
            address.rendered@
        },
    }
}

/// The address under which a peer is reached.
pub fn ice_ip_for_peer(peer: Option<PeerAddress>, local: &Vec<String>) -> (ip: String)
    ensures
        ip@ == reachable(peer, texts(local@)),
{
    match peer {
        None => LOOPBACK.to_owned(),
        Some(address) => {
            if address.loopback {
                return LOOPBACK.to_owned();
            }
            let mut i: usize = 0;
            while i < local.len()
                invariant
                    i <= local@.len(),
                    peer == Some(address),
                    forall|j: int| 0 <= j < i ==> #[trigger] texts(local@)[j] != address.rendered@,
                decreases local@.len() - i,
            {
                assert(texts(local@)[i as int] == local@[i as int]@);
                if same_text(local[i].as_str(), address.rendered.as_str()) {
                    assert(texts(local@).contains(address.rendered@));
                    return LOOPBACK.to_owned();
                }
                i += 1;
            }
            assert(!texts(local@).contains(address.rendered@));
            address.rendered
        },
    }
}

/// The addresses of this machine: the one towards the network, or loopback where there
/// is none.
pub fn local_addresses(outward: Option<PeerAddress>) -> (list: Vec<String>)
    ensures
        texts(list@) == seq![own_address(outward)],
        texts(list@) == seq![
            match outward {
                Some(address) => if address.loopback {
                    LOOPBACK@
                } else {
                    address.rendered@
                },
                None => LOOPBACK@,
            },
        ],
{
    let mut list: Vec<String> = Vec::new();
    match outward {
        Some(address) => {
            if address.loopback {
                list.push(LOOPBACK.to_owned());
            } else {
                list.push(address.rendered);
            }
        },
        None => {
            list.push(LOOPBACK.to_owned());
        },
    }
    assert(list@.len() == 1);
    assert(texts(list@) =~= seq![
        match outward {
            Some(address) => if address.loopback {
                LOOPBACK@
            } else {
                address.rendered@
            },
            None => LOOPBACK@,
        },
    ]);
    list
}

/// What a room holds: the offer that it hands out, and the newest answer.
#[derive(Debug, PartialEq, Eq)]
pub struct LanRoom {
    pub code: String,
    pub port: u16,
    pub offer: Option<PeerSignal>,
    pub answer: Option<PeerSignal>,
}

/// What an optional signal holds.
pub open spec fn opt_signal(signal: Option<PeerSignal>) -> Option<SignalModel> {
    match signal {
        Some(s) => Some(s@),
        None => None,
    }
}

/// What a [`LanRoom`] holds.
pub struct LanRoomModel {
    pub code: Seq<char>,
    pub port: u16,
    pub offer: Option<SignalModel>,
    pub answer: Option<SignalModel>,
}

impl View for LanRoom {
    type V = LanRoomModel;

    open spec fn view(&self) -> LanRoomModel {
        LanRoomModel {
            code: self.code@,
            port: self.port,
            offer: opt_signal(self.offer),
            answer: opt_signal(self.answer),
        }
    }
}

/// The address of this machine: the one towards the network, or loopback.
pub open spec fn own_address(outward: Option<PeerAddress>) -> Seq<char> {
    match outward {
        Some(address) => if address.loopback {
            LOOPBACK@
        } else {
            address.rendered@
        },
        None => LOOPBACK@,
    }
}

/// A room with the answer of a viewer, which is reached under the given address.
pub open spec fn answered(room: LanRoomModel, signal: SignalModel, ip: Seq<char>) -> LanRoomModel {
    LanRoomModel {
        answer: Some(SignalModel { sdp: rewritten(signal.sdp, ip), ..signal }),
        ..room
    }
}

/// What a room tells a viewer that asks for the offer.
pub open spec fn offer_told(room: LanRoomModel) -> Result<SignalModel, Seq<char>> {
    match room.offer {
        Some(signal) => Ok(signal),
        None => Err("offer is not ready"@),
    }
}

impl LanRoom {
    /// A room without offer and answer.
    pub fn new(code: String, port: u16) -> (room: Self)
        ensures
            room@ == (LanRoomModel { code: code@, port, offer: None, answer: None }),
    {
        LanRoom { code, port, offer: None, answer: None }
    }

    /// Puts the offer up.
    pub fn publish_offer(&mut self, signal: PeerSignal)
        ensures
            final(self)@ == (LanRoomModel { offer: Some(signal@), ..old(self)@ }),
    {
        self.offer = Some(signal);
    }

    /// The offer for a viewer that asks.
    pub fn current_offer(&self) -> (offer: Result<PeerSignal, String>)
        ensures
            match offer_told(self@) {
                Ok(model) => offer is Ok && offer->Ok_0@ == model,
                Err(message) => offer is Err && offer->Err_0@ == message,
            },
            match self@.offer {
                Some(model) => offer is Ok && offer->Ok_0@ == model,
                None => offer is Err && offer->Err_0@ == "offer is not ready"@,
            },
    {
        match &self.offer {
            Some(signal) => Ok(signal.clone()),
            None => Err("offer is not ready".to_owned()),
        }
    }

    /// Keeps the answer of a viewer, with the address under which the viewer is reached.
    pub fn store_answer(&mut self, signal: PeerSignal, peer: Option<PeerAddress>, local: &Vec<String>)
        ensures
            final(self)@ == answered(old(self)@, signal@, reachable(peer, texts(local@))),
            final(self)@ == (LanRoomModel {
                answer: Some(
                    SignalModel {
                        sdp: rewritten(signal.sdp@, reachable(peer, texts(local@))),
                        ..signal@
                    },
                ),
                ..old(self)@
            }),
    {
        let ip = ice_ip_for_peer(peer, local);
        let sdp = rewrite_mdns_candidate_addresses(signal.sdp.as_str(), ip.as_str());
        self.answer = Some(PeerSignal { kind: signal.kind, sdp, id: signal.id });
    }

    /// Hands the answer out.
    pub fn take_answer(&mut self) -> (answer: Option<PeerSignal>)
        ensures
            opt_signal(answer) == old(self)@.answer,
            final(self)@ == (LanRoomModel { answer: None, ..old(self)@ }),
    {
        self.answer.take()
    }
}

/// The address with its separate port. One that holds a colon has its port already, and
/// the separate one is ignored.
pub open spec fn with_port(host: Seq<char>, port: Option<u16>) -> Option<Seq<char>> {
    match port {
        Some(p) if !host.contains(':') => Some(host + ":"@ + decimal(p as nat)),
        _ => None,
    }
}

proof fn lemma_colon(text: Seq<char>)
    ensures
        occurs_in(text, ":"@) <==> text.contains(':'),
{
    reveal_strlit(":");
    if text.contains(':') {
        let i = text.index_of(':');
        assert(text.subrange(i, i + 1) =~= ":"@);
        assert(occurs_at(text, ":"@, i));
    }
    if occurs_in(text, ":"@) {
        let i = choose|i: int| occurs_at(text, ":"@, i);
        assert(text.subrange(i, i + 1)[0] == ':');
        assert(text[i] == ':');
    }
}

/// What a viewer of a direct session tries to reach: the address as given and, for one
/// without a port, the address with the separate port.
pub fn direct_candidates(host: Option<String>, port: Option<u16>) -> (candidates: Result<
    (String, Option<String>),
    String,
>)
    ensures
        candidates is Ok <==> host is Some && trimmed(host->0@).len() > 0,
        candidates matches Ok((whole, split)) ==> whole@ == trimmed(host->0@) && opt_text(split)
            == with_port(trimmed(host->0@), port),
        candidates matches Err(message) ==> message@ == "Could not reach that address."@,
{
    match host {
        None => Err("Could not reach that address.".to_owned()),
        Some(raw) => {
            let chars = trim_chars(&chars_of(raw.as_str()));
            if chars.len() == 0 {
                return Err("Could not reach that address.".to_owned());
            }
            let whole = text_of(&chars);
            let has_port: bool = contains_text(&chars, &chars_of(":"));
            proof {
                lemma_colon(chars@);
            }
            let split: Option<String> = match port {
                None => None,
                Some(p) => if has_port {
                    None
                } else {
                    let mut text = whole.clone();
                    push_text(&mut text, ":");
                    push_decimal(&mut text, p as u64);
                    Some(text)
                },
            };
            Ok((whole, split))
        },
    }
}

/// A query for a room is answered by that room: the reply leads back to its port.
pub proof fn law_rooms_are_found(code: Seq<char>, port: u16)
    requires
        is_room_code(code),
    ensures
        asks_for("GOLIVE1 FIND "@ + code, code),
        reply_refusal(host_reply_text(code, port), code) is None,
        port_in(words(host_reply_text(code, port))[3]) == Some(port),
{
    reveal_strlit("GOLIVE1");
    reveal_strlit("FIND");
    reveal_strlit("HOST");
    reveal_strlit(" ");
    reveal_strlit("GOLIVE1 FIND ");
    reveal_strlit("GOLIVE1 HOST ");
    let blank = " "@;
    assert(is_word(code));
    assert(is_word("GOLIVE1"@));
    assert(is_word("FIND"@));
    assert(is_word("HOST"@));
    let query = seq!["GOLIVE1"@, "FIND"@, code];
    lemma_words_of_join(query);
    assert(query.drop_last().drop_last() =~= seq!["GOLIVE1"@]);
    assert(joined_by(query.drop_last().drop_last(), blank) == "GOLIVE1"@);
    assert(joined_by(query.drop_last(), blank) == "GOLIVE1"@ + blank + "FIND"@);
    assert("GOLIVE1 FIND "@ + code =~= joined_by(query, blank));
    let number = decimal(port as nat);
    lemma_decimal_reads_back(port as nat);
    assert(is_word(number));
    let reply = seq!["GOLIVE1"@, "HOST"@, code, number];
    lemma_words_of_join(reply);
    let three = reply.drop_last();
    assert(three.drop_last().drop_last() =~= seq!["GOLIVE1"@]);
    assert(joined_by(three.drop_last().drop_last(), blank) == "GOLIVE1"@);
    assert(joined_by(three.drop_last(), blank) == "GOLIVE1"@ + blank + "HOST"@);
    assert(joined_by(three, blank) == "GOLIVE1"@ + blank + "HOST"@ + blank + code);
    assert(host_reply_text(code, port) =~= joined_by(reply, blank));
    assert(unsigned_digits(number) == number);
}

/// A number that was written in decimal reads back, and its text is a word of digits.
proof fn lemma_decimal_reads_back(n: nat)
    ensures
        decimal(n).len() > 0,
        all_digits(decimal(n)),
        is_word(decimal(n)),
        digits_value(decimal(n)) == n,
        decimal(n)[0] != '+',
    decreases n,
{
    if n >= 10 {
        lemma_decimal_reads_back(n / 10);
        assert(decimal(n).drop_last() =~= decimal(n / 10));
    } else {
        assert(decimal(n).drop_last() =~= Seq::<char>::empty());
        assert(digits_value(decimal(n).drop_last()) == 0);
    }
}

/// A line that is written is read: text without line feeds, and without white space at
/// its ends, is the first line of itself.
proof fn lemma_first_line(body: Seq<char>)
    requires
        body.len() > 0,
        forall|i: int| 0 <= i < body.len() ==> #[trigger] body[i] != '\n',
        !is_white(body[0]),
        !is_white(body.last()),
    ensures
        first_line(body + "\n"@) == body,
{
    reveal_strlit("\n");
    let line = body + "\n"@;
    let end = body.len() as int;
    assert(line[end] == '\n');
    assert forall|i: int| 0 <= i < end implies line[i] != '\n' by {
        assert(line[i] == body[i]);
    }
    lemma_line_feed_is(line, end);
    assert(line.take(end) =~= body);
    assert(lines(line)[0] == without_return(body));
    assert(is_white('\r'));
    assert(without_return(body) == body);
    assert(trimmed_start(body) == body);
    assert(trimmed(body) == body);
}

/// A document that a room hands out, or that a viewer hands in, arrives as it was.
pub proof fn law_documents_arrive(json: Seq<char>)
    requires
        json.len() > 0,
        forall|i: int| 0 <= i < json.len() ==> #[trigger] json[i] != '\n',
        !is_white(json.last()),
    ensures
        begins_with(first_line("OFFER "@ + json + "\n"@), "OFFER "@),
        first_line("OFFER "@ + json + "\n"@).skip("OFFER "@.len() as int) == json,
        request_in("ANSWER "@ + json + "\n"@) == RoomRequestModel::Answer(json),
        request_in("GET_OFFER"@ + "\n"@) == RoomRequestModel::GetOffer,
{
    reveal_strlit("OFFER ");
    reveal_strlit("ANSWER ");
    reveal_strlit("GET_OFFER");
    let offer = "OFFER "@ + json;
    assert(offer.last() == json.last());
    lemma_first_line(offer);
    assert(offer.subrange(0, 6) =~= "OFFER "@);
    assert(offer.skip(6) =~= json);
    let answer = "ANSWER "@ + json;
    assert(answer.last() == json.last());
    lemma_first_line(answer);
    assert(answer[0] != "GET_OFFER"@[0]);
    assert(answer.subrange(0, 7) =~= "ANSWER "@);
    assert(answer.skip(7) =~= json);
    lemma_first_line("GET_OFFER"@);
}

/// A query is for the room that it names and for no other, whatever follows the code.
pub proof fn law_queries_name_one_room(code: Seq<char>, other: Seq<char>, rest: Seq<char>)
    requires
        is_room_code(code),
    ensures
        asks_for("GOLIVE1 FIND "@ + code + " "@ + rest, other) <==> code == other,
{
    reveal_strlit("GOLIVE1");
    reveal_strlit("FIND");
    reveal_strlit(" ");
    reveal_strlit("GOLIVE1 FIND ");
    assert(is_word(code));
    assert(is_word("GOLIVE1"@));
    assert(is_word("FIND"@));
    let line = "GOLIVE1 FIND "@ + code + " "@ + rest;
    assert(line =~= "GOLIVE1"@ + seq![' '] + ("FIND"@ + seq![' '] + (code + seq![' '] + rest)));
    law_white_space_parts_words(
        "GOLIVE1"@,
        ' ',
        "FIND"@ + seq![' '] + (code + seq![' '] + rest),
    );
    law_white_space_parts_words("FIND"@, ' ', code + seq![' '] + rest);
    law_white_space_parts_words(code, ' ', rest);
    assert(words(line) =~= seq!["GOLIVE1"@, "FIND"@, code] + words(rest));
}

/// A reply is refused for its first fault: a strange opening, then another room, then a
/// port that is none. What follows the port does not count.
pub proof fn law_replies_are_refused_in_order(
    first: Seq<char>,
    second: Seq<char>,
    room: Seq<char>,
    port: Seq<char>,
    rest: Seq<char>,
    code: Seq<char>,
)
    requires
        is_word(first),
        is_word(second),
        is_word(room),
        is_word(port),
    ensures
        ({
            let refusal = reply_refusal(
                first + " "@ + second + " "@ + room + " "@ + port + " "@ + rest,
                code,
            );
            let opens = first == "GOLIVE1"@ && second == "HOST"@;
            &&& !opens ==> refusal == Some("invalid room discovery reply"@)
            &&& opens && room != code ==> refusal == Some("room code mismatch"@)
            &&& opens && room == code && port_in(port) is None ==> refusal == Some(
                "room reply is missing a port"@,
            )
            &&& opens && room == code && port_in(port) is Some ==> refusal is None
        }),
{
    reveal_strlit(" ");
    let line = first + " "@ + second + " "@ + room + " "@ + port + " "@ + rest;
    let d = port + seq![' '] + rest;
    let c = room + seq![' '] + d;
    let b = second + seq![' '] + c;
    assert(line =~= first + seq![' '] + b);
    law_white_space_parts_words(first, ' ', b);
    law_white_space_parts_words(second, ' ', c);
    law_white_space_parts_words(room, ' ', d);
    law_white_space_parts_words(port, ' ', rest);
    assert(words(line) =~= seq![first, second, room, port] + words(rest));
}

/// A port is a number of sixteen bits in decimal digits, with or without a plus sign and
/// leading zeros, and nothing else is one.
pub proof fn law_ports_are_numbers(port: u16, text: Seq<char>)
    ensures
        port_in(decimal(port as nat)) == Some(port),
        port_in("+"@ + decimal(port as nat)) == Some(port),
        port_in("0"@ + decimal(port as nat)) == Some(port),
        text.len() == 0 ==> port_in(text) is None,
        text.len() > 0 && !('0' <= text.last() <= '9') ==> port_in(text) is None,
        port_in(text) is Some ==> port_in(text)->0 == digits_value(unsigned_digits(text)),
        text.len() > 0 && text[0] != '+' && all_digits(text) ==> (port_in(text) is Some
            <==> digits_value(text) <= 65535),
{
    reveal_strlit("+");
    reveal_strlit("0");
    let digits = decimal(port as nat);
    lemma_decimal_reads_back(port as nat);
    assert(unsigned_digits(digits) == digits);
    assert(unsigned_digits("+"@ + digits) =~= digits);
    let longer = "0"@ + digits;
    assert(unsigned_digits(longer) == longer);
    lemma_leading_zero(digits);
    assert forall|i: int| 0 <= i < longer.len() implies '0' <= #[trigger] longer[i] <= '9' by {
        if i > 0 {
            assert(longer[i] == digits[i - 1]);
        }
    }
    if text.len() > 0 && !('0' <= text.last() <= '9') {
        let own = unsigned_digits(text);
        assert(own.last() == text.last());
        assert(own[own.len() - 1] == text.last());
        assert(!all_digits(own));
    }
}

proof fn lemma_leading_zero(digits: Seq<char>)
    ensures
        digits_value("0"@ + digits) == digits_value(digits),
    decreases digits.len(),
{
    reveal_strlit("0");
    reveal_with_fuel(digits_value, 2);
    let longer = "0"@ + digits;
    if digits.len() == 0 {
        assert(longer.drop_last() =~= Seq::<char>::empty());
        assert(longer.last() == '0');
    } else {
        lemma_leading_zero(digits.drop_last());
        assert(longer.drop_last() =~= "0"@ + digits.drop_last());
        assert(longer.last() == digits.last());
    }
}

/// A request is what its first line says: lines behind it do not count, and neither does
/// white space around it. Neither of the two requests is taken for the other.
pub proof fn law_first_line_is_the_request(line: Seq<char>, behind: Seq<char>)
    requires
        forall|i: int| 0 <= i < line.len() ==> line[i] != '\n',
    ensures
        first_line(line + seq!['\n'] + behind) == trimmed(without_return(line)),
        first_line(line) == trimmed(line),
        request_in(line + seq!['\n'] + behind) is GetOffer <==> trimmed(without_return(line))
            == "GET_OFFER"@,
        request_in(line + seq!['\n'] + behind) is Answer <==> begins_with(
            trimmed(without_return(line)),
            "ANSWER "@,
        ),
{
    law_line_feeds_end_lines(line, behind);
    reveal_strlit("GET_OFFER");
    reveal_strlit("ANSWER ");
    let core = trimmed(without_return(line));
    if core == "GET_OFFER"@ && begins_with(core, "ANSWER "@) {
        assert(core.subrange(0, 7)[0] == 'A');
    }
    if line.len() == 0 {
        assert(trimmed(line) =~= Seq::<char>::empty());
    }
}

/// A viewer is reached at its own address, unless that is this machine: then, and where it
/// is not known, at the loopback. This machine's own address is found by the same rule.
pub proof fn law_peers_are_reached_where_they_are(
    peer: PeerAddress,
    local: Seq<Seq<char>>,
    more: Seq<char>,
)
    ensures
        reachable(None, local) == "127.0.0.1"@,
        peer.loopback ==> reachable(Some(peer), local) == "127.0.0.1"@,
        reachable(Some(peer), local.push(peer.rendered@)) == "127.0.0.1"@,
        !peer.loopback && !local.contains(peer.rendered@) ==> reachable(Some(peer), local)
            == peer.rendered@,
        !peer.loopback && !local.contains(peer.rendered@) && more != peer.rendered@ ==> reachable(
            Some(peer),
            local.push(more),
        ) == peer.rendered@,
        own_address(None) == "127.0.0.1"@,
        own_address(Some(peer)) == if peer.loopback {
            "127.0.0.1"@
        } else {
            peer.rendered@
        },
{
    let longer = local.push(peer.rendered@);
    assert(longer[local.len() as int] == peer.rendered@);
}

/// A viewer's answer is kept as it came, but for the addresses that it hides, and the room
/// is otherwise the same: it still hands its own offer out.
pub proof fn law_answers_are_kept(room: LanRoomModel, signal: SignalModel, ip: Seq<char>)
    ensures
        answered(room, signal, ip).answer is Some,
        answered(room, signal, ip).answer->0.kind == signal.kind,
        answered(room, signal, ip).answer->0.id == signal.id,
        answered(room, signal, ip).answer->0.sdp == rewritten(signal.sdp, ip),
        answered(room, signal, ip).offer == room.offer,
        answered(room, signal, ip).code == room.code,
        answered(room, signal, ip).port == room.port,
        offer_told(answered(room, signal, ip)) == offer_told(room),
        offer_told(room) is Ok <==> room.offer is Some,
        room.offer is Some ==> offer_told(room) == Ok::<SignalModel, Seq<char>>(room.offer->0),
{
}

/// A separate port is put behind an address that has none, and only there: what is read
/// behind the colon is that port.
pub proof fn law_separate_ports_are_added_once(host: Seq<char>, port: Option<u16>)
    ensures
        with_port(host, port) is Some <==> port is Some && !host.contains(':'),
        with_port(host, port) is Some ==> {
            let whole = with_port(host, port)->0;
            &&& whole.take(host.len() as int) == host
            &&& whole[host.len() as int] == ':'
            &&& port_in(whole.skip(host.len() as int + 1)) == port
            &&& with_port(whole, port) is None
        },
{
    reveal_strlit(":");
    if port is Some && !host.contains(':') {
        let whole = with_port(host, port)->0;
        let digits = decimal(port->0 as nat);
        lemma_decimal_reads_back(port->0 as nat);
        assert(unsigned_digits(digits) == digits);
        assert(whole.take(host.len() as int) =~= host);
        assert(whole.skip(host.len() as int + 1) =~= digits);
        assert(whole[host.len() as int] == ':');
        assert(whole.contains(':'));
    }
}

/// What one side writes the other side reads: an offer that is handed out, an answer that is
/// handed in, and a query for a room. Neither line is taken for the other.
pub proof fn law_written_lines_are_read(json: Seq<char>, code: Seq<char>)
    requires
        json.len() > 0,
        forall|i: int| 0 <= i < json.len() ==> #[trigger] json[i] != '\n',
        !is_white(json.last()),
        is_room_code(code),
    ensures
        offer_in(offer_sent(json)) == Some(json),
        request_in(answer_sent(json)) == RoomRequestModel::Answer(json),
        offer_in(answer_sent(json)) is None,
        request_in(offer_sent(json)) is Unsupported,
        asks_for(query_text(code), code),
{
    law_documents_arrive(json);
    law_rooms_are_found(code, 0);
    reveal_strlit("OFFER ");
    reveal_strlit("ANSWER ");
    reveal_strlit("GET_OFFER");
    let offer = "OFFER "@ + json;
    let answer = "ANSWER "@ + json;
    assert(offer.last() == json.last());
    assert(answer.last() == json.last());
    lemma_first_line(offer);
    lemma_first_line(answer);
    assert(offer[0] == 'O' && answer[0] == 'A');
    if begins_with(answer, "OFFER "@) {
        assert(answer.subrange(0, 6)[0] == 'O');
    }
    if begins_with(offer, "ANSWER "@) {
        assert(offer.subrange(0, 7)[0] == 'A');
    }
    assert("GET_OFFER"@[0] == 'G');
}

} // verus!
