//! Messages from the rendezvous server and what they leave behind.

use vstd::prelude::*;
use crate::json::{flag_at, flag_member, json_document, json_member, json_tree, json_trees, member,
    parse_json, text_at, text_member, JsonTree};
use crate::peer_signal::{PeerSignal, PeerSignalKind, SignalModel};
use crate::registry::Registry;
use crate::text::{chars_of, copy_opt_text, opt_text, same_text, texts};

verus! {

/// A member of the room as the server lists it.
#[derive(Debug, PartialEq, Eq)]
pub struct RosterViewer {
    pub nickname: String,
    pub state: String,
    pub master: bool,
    pub share: bool,
}

/// What a [`RosterViewer`] holds.
pub struct ViewerModel {
    pub nickname: Seq<char>,
    pub state: Seq<char>,
    pub master: bool,
    pub share: bool,
}

impl View for RosterViewer {
    type V = ViewerModel;

    open spec fn view(&self) -> ViewerModel {
        ViewerModel {
            nickname: self.nickname@,
            state: self.state@,
            master: self.master,
            share: self.share,
        }
    }
}

/// What a roster holds.
pub open spec fn roster_models(roster: Map<Seq<char>, RosterViewer>) -> Map<Seq<char>, ViewerModel> {
    roster.map_values(|viewer: RosterViewer| viewer@)
}

/// An offer that another member of the room sent.
#[derive(Debug, PartialEq, Eq)]
pub struct StunarIncomingOffer {
    pub from: String,
    pub sdp: String,
}

/// What a [`StunarIncomingOffer`] holds.
pub struct OfferModel {
    pub from: Seq<char>,
    pub sdp: Seq<char>,
}

impl View for StunarIncomingOffer {
    type V = OfferModel;

    open spec fn view(&self) -> OfferModel {
        OfferModel { from: self.from@, sdp: self.sdp@ }
    }
}

impl Clone for StunarIncomingOffer {
    fn clone(&self) -> (copy: Self)
        ensures
            copy@ == self@,
    {
        StunarIncomingOffer { from: self.from.clone(), sdp: self.sdp.clone() }
    }
}

/// What a list of offers holds.
pub open spec fn offer_models(list: Seq<StunarIncomingOffer>) -> Seq<OfferModel> {
    Seq::new(list.len(), |i: int| list[i]@)
}

/// What a list of signals holds.
pub open spec fn signal_models(list: Seq<PeerSignal>) -> Seq<SignalModel> {
    Seq::new(list.len(), |i: int| list[i]@)
}

/// One entry of a roster message. Every part may be missing.
#[derive(Debug, PartialEq, Eq)]
pub struct MessageEntry {
    pub id: Option<String>,
    pub nickname: Option<String>,
    pub state: Option<String>,
    pub master: Option<bool>,
    pub share: Option<bool>,
}

/// What a [`MessageEntry`] holds.
pub struct EntryModel {
    pub id: Option<Seq<char>>,
    pub nickname: Option<Seq<char>>,
    pub state: Option<Seq<char>>,
    pub master: Option<bool>,
    pub share: Option<bool>,
}

impl View for MessageEntry {
    type V = EntryModel;

    open spec fn view(&self) -> EntryModel {
        EntryModel {
            id: opt_text(self.id),
            nickname: opt_text(self.nickname),
            state: opt_text(self.state),
            master: self.master,
            share: self.share,
        }
    }
}

/// What a list of entries holds.
pub open spec fn entry_models(list: Seq<MessageEntry>) -> Seq<EntryModel> {
    Seq::new(list.len(), |i: int| list[i]@)
}

/// A message of the server: the parts that are read of it. Every part may be missing.
#[derive(Debug, PartialEq, Eq)]
pub struct WsMessage {
    pub t: Option<String>,
    pub viewer_id: Option<String>,
    pub nickname: Option<String>,
    pub from: Option<String>,
    pub master_id: Option<String>,
    pub payload_type: Option<String>,
    pub payload_sdp: Option<String>,
    pub entries: Vec<MessageEntry>,
}

/// What a [`WsMessage`] holds.
#[verifier::ext_equal]
pub struct MessageModel {
    pub t: Option<Seq<char>>,
    pub viewer_id: Option<Seq<char>>,
    pub nickname: Option<Seq<char>>,
    pub from: Option<Seq<char>>,
    pub master_id: Option<Seq<char>>,
    pub payload_type: Option<Seq<char>>,
    pub payload_sdp: Option<Seq<char>>,
    pub entries: Seq<EntryModel>,
}

impl View for WsMessage {
    type V = MessageModel;

    open spec fn view(&self) -> MessageModel {
        MessageModel {
            t: opt_text(self.t),
            viewer_id: opt_text(self.viewer_id),
            nickname: opt_text(self.nickname),
            from: opt_text(self.from),
            master_id: opt_text(self.master_id),
            payload_type: opt_text(self.payload_type),
            payload_sdp: opt_text(self.payload_sdp),
            entries: entry_models(self.entries@),
        }
    }
}

/// The entry that a document describes.
pub open spec fn entry_of(tree: JsonTree) -> EntryModel {
    EntryModel {
        id: text_member(tree, "id"@),
        nickname: text_member(tree, "nickname"@),
        state: text_member(tree, "state"@),
        master: flag_member(tree, "master"@),
        share: flag_member(tree, "share"@),
    }
}

/// The elements of an array member.
pub open spec fn elements_of(tree: JsonTree, name: Seq<char>) -> Seq<JsonTree> {
    match json_member(tree, name) {
        Some(JsonTree::Array(elements)) => elements,
        _ => Seq::empty(),
    }
}

/// A part of the payload.
pub open spec fn payload_text(tree: JsonTree, name: Seq<char>) -> Option<Seq<char>> {
    match json_member(tree, "payload"@) {
        Some(payload) => text_member(payload, name),
        None => None,
    }
}

/// The message that a document describes.
pub open spec fn message_of(tree: JsonTree) -> MessageModel {
    MessageModel {
        t: text_member(tree, "t"@),
        viewer_id: text_member(tree, "viewer_id"@),
        nickname: text_member(tree, "nickname"@),
        from: text_member(tree, "from"@),
        master_id: text_member(tree, "master_id"@),
        payload_type: payload_text(tree, "type"@),
        payload_sdp: payload_text(tree, "sdp"@),
        entries: elements_of(tree, "entries"@).map_values(|element: JsonTree| entry_of(element)),
    }
}

/// What an optional message holds.
pub open spec fn opt_message(message: Option<WsMessage>) -> Option<MessageModel> {
    match message {
        Some(m) => Some(m@),
        None => None,
    }
}

/// The message behind a text, where it is JSON.
pub open spec fn message_in(text: Seq<char>) -> Option<MessageModel> {
    match json_document(text) {
        Some(tree) => Some(message_of(tree)),
        None => None,
    }
}

fn read_entries(value: &serde_json::Value) -> (entries: Vec<MessageEntry>)
    ensures
        entry_models(entries@) == elements_of(json_tree(*value), "entries"@).map_values(
            |element: JsonTree| entry_of(element),
        ),
{
    let mut entries: Vec<MessageEntry> = Vec::new();
    let ghost wanted = elements_of(json_tree(*value), "entries"@).map_values(
        |element: JsonTree| entry_of(element),
    );
    assert(entry_models(entries@) =~= wanted.take(0));
    if let Some(list) = member(value, "entries") {
        if let Some(elements) = list.as_array() {
            let mut i: usize = 0;
            assert(json_trees(elements@).len() == elements@.len());
            while i < elements.len()
                invariant
                    i <= elements@.len(),
                    wanted == json_trees(elements@).map_values(|element: JsonTree| entry_of(element)),
                    entry_models(entries@) == wanted.take(i as int),
                decreases elements@.len() - i,
            {
                let element = &elements[i];
                let ghost before = entries@;
                let entry = MessageEntry {
                    id: text_at(element, "id"),
                    nickname: text_at(element, "nickname"),
                    state: text_at(element, "state"),
                    master: flag_at(element, "master"),
                    share: flag_at(element, "share"),
                };
                assert(json_trees(elements@)[i as int] == json_tree(*element));
                assert(entry@ == wanted[i as int]);
                entries.push(entry);
                assert(entry_models(entries@) =~= entry_models(before).push(wanted[i as int]));
                i += 1;
                assert(wanted.take(i as int) =~= wanted.take(i - 1).push(wanted[i - 1]));
            }
            assert(wanted.take(i as int) =~= wanted);
            return entries;
        }
    }
    assert(wanted =~= Seq::<EntryModel>::empty());
    assert(wanted.take(0) =~= wanted);
    entries
}

/// Reads a message of the server. A text that is no JSON document is no message.
pub fn read_message(text: &str) -> (message: Option<WsMessage>)
    ensures
        opt_message(message) == message_in(text@),
{
    match parse_json(text) {
        None => None,
        Some(value) => {
            let (payload_type, payload_sdp) = match member(&value, "payload") {
                Some(payload) => (text_at(payload, "type"), text_at(payload, "sdp")),
                None => (None, None),
            };
            let message = WsMessage {
                t: text_at(&value, "t"),
                viewer_id: text_at(&value, "viewer_id"),
                nickname: text_at(&value, "nickname"),
                from: text_at(&value, "from"),
                master_id: text_at(&value, "master_id"),
                payload_type,
                payload_sdp,
                entries: read_entries(&value),
            };
            assert(message@ =~= message_of(json_tree(value)));
            Some(message)
        },
    }
}

/// What one or more messages said.
pub struct WsInbox {
    pub roster: Option<Registry<RosterViewer>>,
    pub master_id: Option<String>,
    pub answers: Vec<PeerSignal>,
    pub offers: Vec<StunarIncomingOffer>,
    pub watch_from: Vec<String>,
    pub unwatch_from: Vec<String>,
    pub you_are_master: bool,
    pub gone: bool,
    pub kicked: bool,
}

/// What a [`WsInbox`] holds.
#[verifier::ext_equal]
pub struct InboxModel {
    pub roster: Option<Map<Seq<char>, ViewerModel>>,
    pub master_id: Option<Seq<char>>,
    pub answers: Seq<SignalModel>,
    pub offers: Seq<OfferModel>,
    pub watch_from: Seq<Seq<char>>,
    pub unwatch_from: Seq<Seq<char>>,
    pub you_are_master: bool,
    pub gone: bool,
    pub kicked: bool,
}

impl View for WsInbox {
    type V = InboxModel;

    open spec fn view(&self) -> InboxModel {
        InboxModel {
            roster: match self.roster {
                Some(roster) => Some(roster_models(roster@)),
                None => None,
            },
            master_id: opt_text(self.master_id),
            answers: signal_models(self.answers@),
            offers: offer_models(self.offers@),
            watch_from: texts(self.watch_from@),
            unwatch_from: texts(self.unwatch_from@),
            you_are_master: self.you_are_master,
            gone: self.gone,
            kicked: self.kicked,
        }
    }
}

/// An inbox without messages.
pub open spec fn empty_inbox() -> InboxModel {
    InboxModel {
        roster: None,
        master_id: None,
        answers: Seq::empty(),
        offers: Seq::empty(),
        watch_from: Seq::empty(),
        unwatch_from: Seq::empty(),
        you_are_master: false,
        gone: false,
        kicked: false,
    }
}

/// A roster with one more entry. An entry without id or nickname is passed over.
pub open spec fn with_entry(roster: Map<Seq<char>, ViewerModel>, entry: EntryModel) -> Map<
    Seq<char>,
    ViewerModel,
> {
    if entry.id is Some && entry.nickname is Some {
        let state = match entry.state {
            Some(text) => text,
            None => "accepted"@,
        };
        roster.insert(
            entry.id->0,
            ViewerModel {
                nickname: entry.nickname->0,
                state,
                master: entry.master == Some(true),
                share: entry.share == Some(true) || state == "sharing"@,
            },
        )
    } else {
        roster
    }
}

/// The roster that a list of entries describes: of two entries with one id the later
/// counts.
pub open spec fn roster_of(entries: Seq<EntryModel>) -> Map<Seq<char>, ViewerModel>
    decreases entries.len(),
{
    if entries.len() == 0 {
        Map::empty()
    } else {
        with_entry(roster_of(entries.drop_last()), entries.last())
    }
}

/// Who sent a signal: the sender, or the viewer it is about.
pub open spec fn sender_of(message: MessageModel) -> Seq<char> {
    match message.from {
        Some(from) => from,
        None => match message.viewer_id {
            Some(id) => id,
            None => Seq::empty(),
        },
    }
}

/// The inbox after a message.
pub open spec fn inbox_after(inbox: InboxModel, message: MessageModel) -> InboxModel {
    match message.t {
        None => inbox,
        Some(kind) => if kind == "pending"@ {
            if message.viewer_id is Some && message.nickname is Some {
                let known = match inbox.roster {
                    Some(roster) => roster,
                    None => Map::empty(),
                };
                InboxModel {
                    roster: Some(
                        known.insert(
                            message.viewer_id->0,
                            ViewerModel {
                                nickname: message.nickname->0,
                                state: "pending"@,
                                master: false,
                                share: false,
                            },
                        ),
                    ),
                    ..inbox
                }
            } else {
                inbox
            }
        } else if kind == "roster"@ {
            InboxModel {
                roster: Some(roster_of(message.entries)),
                master_id: message.master_id,
                ..inbox
            }
        } else if kind == "signal"@ {
            inbox_after_signal(inbox, message)
        } else if kind == "you-are-master"@ {
            InboxModel { you_are_master: true, ..inbox }
        } else if kind == "gone"@ {
            InboxModel { gone: true, ..inbox }
        } else if kind == "kicked"@ || kind == "rejected"@ {
            InboxModel { kicked: true, ..inbox }
        } else if kind == "watch"@ {
            match message.from {
                Some(from) => InboxModel { watch_from: inbox.watch_from.push(from), ..inbox },
                None => inbox,
            }
        } else if kind == "unwatch"@ {
            match message.from {
                Some(from) => InboxModel { unwatch_from: inbox.unwatch_from.push(from), ..inbox },
                None => inbox,
            }
        } else {
            inbox
        },
    }
}

/// The inbox after a signal: an answer is kept whoever sent it, an offer only with its
/// sender.
pub open spec fn inbox_after_signal(inbox: InboxModel, message: MessageModel) -> InboxModel {
    let from = sender_of(message);
    match message.payload_sdp {
        None => inbox,
        Some(sdp) => if message.payload_type == Some("answer"@) {
            InboxModel {
                answers: inbox.answers.push(
                    SignalModel {
                        kind: PeerSignalKind::Answer,
                        sdp,
                        id: if from.len() == 0 {
                            None
                        } else {
                            Some(from)
                        },
                    },
                ),
                ..inbox
            }
        } else if message.payload_type == Some("offer"@) && from.len() > 0 {
            InboxModel { offers: inbox.offers.push(OfferModel { from, sdp }), ..inbox }
        } else {
            inbox
        },
    }
}

fn is_kind(text: &Option<String>, name: &str) -> (same: bool)
    ensures
        same == (opt_text(*text) == Some(name@)),
{
    match text {
        Some(t) => same_text(t.as_str(), name),
        None => false,
    }
}

fn build_roster(entries: &Vec<MessageEntry>) -> (roster: Registry<RosterViewer>)
    ensures
        roster.wf(),
        roster_models(roster@) == roster_of(entry_models(entries@)),
{
    let mut roster: Registry<RosterViewer> = Registry::new();
    let ghost models = entry_models(entries@);
    let mut i: usize = 0;
    assert(models.take(0) =~= Seq::<EntryModel>::empty());
    assert(roster_models(roster@) =~= Map::<Seq<char>, ViewerModel>::empty());
    while i < entries.len()
        invariant
            i <= entries@.len(),
            models == entry_models(entries@),
            roster.wf(),
            roster_models(roster@) == roster_of(models.take(i as int)),
        decreases entries@.len() - i,
    {
        let entry = &entries[i];
        assert(models[i as int] == entry@);
        let ghost before = roster@;
        if let Some(id) = &entry.id {
            if let Some(nickname) = &entry.nickname {
                let state: String = match &entry.state {
                    Some(text) => text.clone(),
                    None => "accepted".to_owned(),
                };
                let master: bool = match entry.master {
                    Some(flag) => flag,
                    None => false,
                };
                let flagged: bool = match entry.share {
                    Some(flag) => flag,
                    None => false,
                };
                let share: bool = flagged || same_text(state.as_str(), "sharing");
                let viewer = RosterViewer { nickname: nickname.clone(), state, master, share };
                let ghost model = viewer@;
                let _ = roster.insert(id.as_str(), viewer);
                assert(roster_models(roster@) =~= roster_models(before).insert(id@, model));
            }
        }
        i += 1;
        assert(models.take(i as int).drop_last() =~= models.take(i - 1));
        assert(models.take(i as int).last() == models[i - 1]);
    }
    assert(models.take(i as int) =~= models);
    roster
}

impl Default for WsInbox {
    fn default() -> (inbox: Self)
        ensures
            inbox.wf(),
            inbox@ == empty_inbox(),
    {
        let inbox = WsInbox {
            roster: None,
            master_id: None,
            answers: Vec::new(),
            offers: Vec::new(),
            watch_from: Vec::new(),
            unwatch_from: Vec::new(),
            you_are_master: false,
            gone: false,
            kicked: false,
        };
        assert(inbox@ =~= empty_inbox());
        inbox
    }
}

impl WsInbox {
    /// The roster, if there is one, is well formed.
    pub open spec fn wf(&self) -> bool {
        self.roster matches Some(roster) ==> roster.wf()
    }

    fn apply_pending(&mut self, message: &WsMessage)
        requires
            old(self).wf(),
            message@.t == Some("pending"@),
        ensures
            final(self).wf(),
            final(self)@ == inbox_after(old(self)@, message@),
    {
        if let Some(id) = &message.viewer_id {
            if let Some(nickname) = &message.nickname {
                let mut roster: Registry<RosterViewer> = match self.roster.take() {
                    Some(roster) => roster,
                    None => Registry::new(),
                };
                let ghost before = roster@;
                let viewer = RosterViewer {
                    nickname: nickname.clone(),
                    state: "pending".to_owned(),
                    master: false,
                    share: false,
                };
                let ghost model = viewer@;
                let _ = roster.insert(id.as_str(), viewer);
                assert(roster_models(roster@) =~= roster_models(before).insert(id@, model));
                proof {
                    if old(self).roster is None {
                        assert(roster_models(before) =~= Map::<Seq<char>, ViewerModel>::empty());
                    }
                }
                self.roster = Some(roster);
            }
        }
        assert(self@ =~= inbox_after(old(self)@, message@));
    }

    fn apply_signal(&mut self, message: &WsMessage)
        requires
            old(self).wf(),
        ensures
            final(self).wf(),
            final(self)@ == inbox_after_signal(old(self)@, message@),
    {
        let from: String = match &message.from {
            Some(from) => from.clone(),
            None => match &message.viewer_id {
                Some(id) => id.clone(),
                None => String::new(),
            },
        };
        assert(from@ =~= sender_of(message@));
        let nameless: bool = chars_of(from.as_str()).len() == 0;
        if let Some(sdp) = &message.payload_sdp {
            if is_kind(&message.payload_type, "answer") {
                let id: Option<String> = if nameless {
                    None
                } else {
                    Some(from)
                };
                let answer = PeerSignal { kind: PeerSignalKind::Answer, sdp: sdp.clone(), id };
                let ghost model = answer@;
                self.answers.push(answer);
                assert(self@.answers =~= old(self)@.answers.push(model));
            } else if is_kind(&message.payload_type, "offer") && !nameless {
                let offer = StunarIncomingOffer { from, sdp: sdp.clone() };
                let ghost model = offer@;
                self.offers.push(offer);
                assert(self@.offers =~= old(self)@.offers.push(model));
            }
        }
        assert(self@ =~= inbox_after_signal(old(self)@, message@));
    }

    /// Takes a message in.
    pub fn apply_message(&mut self, message: &WsMessage)
        requires
            old(self).wf(),
        ensures
            final(self).wf(),
            final(self)@ == inbox_after(old(self)@, message@),
    {
        if is_kind(&message.t, "pending") {
            self.apply_pending(message);
        } else if is_kind(&message.t, "roster") {
            self.master_id = copy_opt_text(&message.master_id);
            self.roster = Some(build_roster(&message.entries));
        } else if is_kind(&message.t, "signal") {
            self.apply_signal(message);
        } else if is_kind(&message.t, "you-are-master") {
            self.you_are_master = true;
        } else if is_kind(&message.t, "gone") {
            self.gone = true;
        } else if is_kind(&message.t, "kicked") || is_kind(&message.t, "rejected") {
            self.kicked = true;
        } else if is_kind(&message.t, "watch") {
            if let Some(from) = &message.from {
                self.watch_from.push(from.clone());
                assert(self@.watch_from =~= old(self)@.watch_from.push(from@));
            }
        } else if is_kind(&message.t, "unwatch") {
            if let Some(from) = &message.from {
                self.unwatch_from.push(from.clone());
                assert(self@.unwatch_from =~= old(self)@.unwatch_from.push(from@));
            }
        }
        assert(self@ =~= inbox_after(old(self)@, message@));
    }
}

/// Takes the text of a message in. A text that is no JSON document changes nothing.
pub fn apply_ws_message(text: &str, inbox: &mut WsInbox)
    requires
        old(inbox).wf(),
    ensures
        final(inbox).wf(),
        final(inbox)@ == match message_in(text@) {
            Some(message) => inbox_after(old(inbox)@, message),
            None => old(inbox)@,
        },
{
    if let Some(message) = read_message(text) {
        inbox.apply_message(&message);
    }
}

/// What a member of a room has received and nobody has fetched yet.
pub struct Mailbox {
    pub roster: Registry<RosterViewer>,
    pub master_id: Option<String>,
    pub answers: Vec<PeerSignal>,
    pub incoming_offers: Vec<StunarIncomingOffer>,
    pub watch_from: Vec<String>,
    pub unwatch_from: Vec<String>,
}

/// What a [`Mailbox`] holds.
#[verifier::ext_equal]
pub struct MailboxModel {
    pub roster: Map<Seq<char>, ViewerModel>,
    pub master_id: Option<Seq<char>>,
    pub answers: Seq<SignalModel>,
    pub incoming_offers: Seq<OfferModel>,
    pub watch_from: Seq<Seq<char>>,
    pub unwatch_from: Seq<Seq<char>>,
}

impl View for Mailbox {
    type V = MailboxModel;

    open spec fn view(&self) -> MailboxModel {
        MailboxModel {
            roster: roster_models(self.roster@),
            master_id: opt_text(self.master_id),
            answers: signal_models(self.answers@),
            incoming_offers: offer_models(self.incoming_offers@),
            watch_from: texts(self.watch_from@),
            unwatch_from: texts(self.unwatch_from@),
        }
    }
}

/// A mailbox without anything in it.
pub open spec fn empty_mailbox() -> MailboxModel {
    MailboxModel {
        roster: Map::empty(),
        master_id: None,
        answers: Seq::empty(),
        incoming_offers: Seq::empty(),
        watch_from: Seq::empty(),
        unwatch_from: Seq::empty(),
    }
}

/// A mailbox that took an inbox in: the newest roster and master replace what was
/// known, everything else is added behind.
pub open spec fn absorbed(mailbox: MailboxModel, inbox: InboxModel) -> MailboxModel {
    MailboxModel {
        roster: match inbox.roster {
            Some(roster) => roster,
            None => mailbox.roster,
        },
        master_id: match inbox.master_id {
            Some(id) => Some(id),
            None => mailbox.master_id,
        },
        answers: mailbox.answers + inbox.answers,
        incoming_offers: mailbox.incoming_offers + inbox.offers,
        watch_from: mailbox.watch_from + inbox.watch_from,
        unwatch_from: mailbox.unwatch_from + inbox.unwatch_from,
    }
}

/// The pairs of id and nickname, in the order of the roster, of the members that are
/// in one of two states.
pub open spec fn members_in(
    order: Seq<Seq<char>>,
    roster: Map<Seq<char>, ViewerModel>,
    one: Seq<char>,
    other: Seq<char>,
) -> Seq<(Seq<char>, Seq<char>)>
    decreases order.len(),
{
    if order.len() == 0 {
        Seq::empty()
    } else {
        let before = members_in(order.drop_last(), roster, one, other);
        let viewer = roster[order.last()];
        if viewer.state == one || viewer.state == other {
            before.push((order.last(), viewer.nickname))
        } else {
            before
        }
    }
}

/// What a list of pairs of texts holds.
pub open spec fn pair_texts(list: Seq<(String, String)>) -> Seq<(Seq<char>, Seq<char>)> {
    Seq::new(list.len(), |i: int| (list[i].0@, list[i].1@))
}

/// A line of the room's member list: id, nickname, master, sharing.
#[derive(Debug, PartialEq, Eq)]
pub struct RoomEntry {
    pub id: String,
    pub nickname: String,
    pub master: bool,
    pub share: bool,
}

/// Every member of a roster, in its order.
pub open spec fn room_entries(order: Seq<Seq<char>>, roster: Map<Seq<char>, ViewerModel>) -> Seq<
    (Seq<char>, ViewerModel),
> {
    Seq::new(order.len(), |i: int| (order[i], roster[order[i]]))
}

/// A mailbox with the host's decision on a member.
pub open spec fn decided(mailbox: MailboxModel, id: Seq<char>, accept: bool) -> MailboxModel {
    MailboxModel {
        roster: if !accept {
            mailbox.roster.remove(id)
        } else if mailbox.roster.contains_key(id) {
            mailbox.roster.insert(
                id,
                ViewerModel { state: "accepted"@, ..mailbox.roster[id] },
            )
        } else {
            mailbox.roster
        },
        ..mailbox
    }
}

/// The mailbox once its requests were fetched, and the requests: who wants to watch and who
/// no longer does.
pub open spec fn requests_taken(mailbox: MailboxModel, take_watch: bool) -> (
    MailboxModel,
    Seq<Seq<char>>,
    Seq<Seq<char>>,
) {
    (
        MailboxModel {
            watch_from: if take_watch {
                Seq::empty()
            } else {
                mailbox.watch_from
            },
            unwatch_from: Seq::empty(),
            ..mailbox
        },
        if take_watch {
            mailbox.watch_from
        } else {
            Seq::empty()
        },
        mailbox.unwatch_from,
    )
}

impl Default for Mailbox {
    fn default() -> (mailbox: Self)
        ensures
            mailbox.roster.wf(),
            mailbox@ == empty_mailbox(),
    {
        let mailbox = Mailbox {
            roster: Registry::new(),
            master_id: None,
            answers: Vec::new(),
            incoming_offers: Vec::new(),
            watch_from: Vec::new(),
            unwatch_from: Vec::new(),
        };
        assert(mailbox@.roster =~= empty_mailbox().roster);
        assert(mailbox@ =~= empty_mailbox());
        mailbox
    }
}

impl Mailbox {
    /// Takes an inbox in.
    pub fn absorb(&mut self, inbox: WsInbox)
        requires
            old(self).roster.wf(),
            inbox.wf(),
        ensures
            final(self).roster.wf(),
            final(self)@ == absorbed(old(self)@, inbox@),
    {
        let mut inbox = inbox;
        let ghost given = inbox@;
        if let Some(next) = inbox.roster {
            self.roster = next;
        }
        if inbox.master_id.is_some() {
            self.master_id = inbox.master_id;
        }
        self.answers.append(&mut inbox.answers);
        self.incoming_offers.append(&mut inbox.offers);
        self.watch_from.append(&mut inbox.watch_from);
        self.unwatch_from.append(&mut inbox.unwatch_from);
        assert(self@.answers =~= old(self)@.answers + given.answers);
        assert(self@.incoming_offers =~= old(self)@.incoming_offers + given.offers);
        assert(self@.watch_from =~= old(self)@.watch_from + given.watch_from);
        assert(self@.unwatch_from =~= old(self)@.unwatch_from + given.unwatch_from);
        assert(self@ =~= absorbed(old(self)@, given));
    }

    /// Takes the text of a message in.
    pub fn handle_message(&mut self, text: &str)
        requires
            old(self).roster.wf(),
        ensures
            final(self).roster.wf(),
            final(self)@ == match message_in(text@) {
                Some(message) => absorbed(old(self)@, inbox_after(empty_inbox(), message)),
                None => old(self)@,
            },
    {
        let mut inbox = WsInbox::default();
        apply_ws_message(text, &mut inbox);
        self.absorb(inbox);
        proof {
            if message_in(text@) is None {
                assert(absorbed(old(self)@, empty_inbox()) =~= old(self)@);
            }
        }
    }

    /// Hands the answers out.
    pub fn take_answers(&mut self) -> (answers: Vec<PeerSignal>)
        requires
            old(self).roster.wf(),
        ensures
            final(self).roster.wf(),
            signal_models(answers@) == old(self)@.answers,
            final(self)@ == (MailboxModel { answers: Seq::empty(), ..old(self)@ }),
    {
        let mut answers: Vec<PeerSignal> = Vec::new();
        std::mem::swap(&mut answers, &mut self.answers);
        assert(self@ =~= (MailboxModel { answers: Seq::empty(), ..old(self)@ }));
        answers
    }

    /// Hands the offers of other members out.
    pub fn take_incoming_offers(&mut self) -> (offers: Vec<StunarIncomingOffer>)
        requires
            old(self).roster.wf(),
        ensures
            final(self).roster.wf(),
            offer_models(offers@) == old(self)@.incoming_offers,
            final(self)@ == (MailboxModel { incoming_offers: Seq::empty(), ..old(self)@ }),
    {
        let mut offers: Vec<StunarIncomingOffer> = Vec::new();
        std::mem::swap(&mut offers, &mut self.incoming_offers);
        assert(self@ =~= (MailboxModel { incoming_offers: Seq::empty(), ..old(self)@ }));
        offers
    }

    /// Hands out who no longer wants to watch and, if wished, who wants to.
    pub fn take_watch_requests(&mut self, take_watch: bool) -> (requests: (Vec<String>, Vec<String>))
        requires
            old(self).roster.wf(),
        ensures
            final(self).roster.wf(),
            (final(self)@, texts(requests.0@), texts(requests.1@)) == requests_taken(
                old(self)@,
                take_watch,
            ),
            texts(requests.0@) == if take_watch {
                old(self)@.watch_from
            } else {
                Seq::empty()
            },
            texts(requests.1@) == old(self)@.unwatch_from,
            final(self)@ == (MailboxModel {
                watch_from: if take_watch {
                    Seq::empty()
                } else {
                    old(self)@.watch_from
                },
                unwatch_from: Seq::empty(),
                ..old(self)@
            }),
    {
        let mut watch: Vec<String> = Vec::new();
        if take_watch {
            std::mem::swap(&mut watch, &mut self.watch_from);
        }
        let mut unwatch: Vec<String> = Vec::new();
        std::mem::swap(&mut unwatch, &mut self.unwatch_from);
        assert(texts(watch@) =~= if take_watch {
            old(self)@.watch_from
        } else {
            Seq::empty()
        });
        assert(self@ =~= (MailboxModel {
            watch_from: if take_watch {
                Seq::empty()
            } else {
                old(self)@.watch_from
            },
            unwatch_from: Seq::empty(),
            ..old(self)@
        }));
        (watch, unwatch)
    }

    fn members_with(&self, one: &str, other: &str) -> (list: Vec<(String, String)>)
        requires
            self.roster.wf(),
        ensures
            pair_texts(list@) == members_in(self.roster.order(), self@.roster, one@, other@),
    {
        let mut list: Vec<(String, String)> = Vec::new();
        let ghost order = self.roster.order();
        let mut i: usize = 0;
        proof {
            self.roster.lemma_items();
        }
        assert(order.take(0) =~= Seq::<Seq<char>>::empty());
        assert(pair_texts(list@) =~= members_in(order.take(0), self@.roster, one@, other@));
        while i < self.roster.len()
            invariant
                i <= order.len(),
                order == self.roster.order(),
                self.roster.wf(),
                forall|j: int|
                    0 <= j < order.len() ==> self.roster@.contains_key(#[trigger] order[j])
                        && self.roster@[order[j]] == self.roster.items()[j],
                pair_texts(list@) == members_in(order.take(i as int), self@.roster, one@, other@),
            decreases order.len() - i,
        {
            let ghost before = list@;
            let id = self.roster.key_at(i);
            let viewer = self.roster.value_at(i);
            assert(self.roster@.contains_key(order[i as int]));
            assert(self@.roster[order[i as int]] == viewer@);
            if same_text(viewer.state.as_str(), one) || same_text(viewer.state.as_str(), other) {
                list.push((id.clone(), viewer.nickname.clone()));
                assert(pair_texts(list@) =~= pair_texts(before).push(
                    (order[i as int], viewer.nickname@),
                ));
            }
            i += 1;
            assert(order.take(i as int).drop_last() =~= order.take(i - 1));
            assert(order.take(i as int).last() == order[i - 1]);
        }
        assert(order.take(i as int) =~= order);
        list
    }

    /// The members that wait to be let in.
    pub fn pending_roster(&self) -> (list: Vec<(String, String)>)
        requires
            self.roster.wf(),
        ensures
            pair_texts(list@) == members_in(
                self.roster.order(),
                self@.roster,
                "pending"@,
                "pending"@,
            ),
    {
        self.members_with("pending", "pending")
    }

    /// The members that were let in.
    pub fn accepted_roster(&self) -> (list: Vec<(String, String)>)
        requires
            self.roster.wf(),
        ensures
            pair_texts(list@) == members_in(
                self.roster.order(),
                self@.roster,
                "accepted"@,
                "sharing"@,
            ),
    {
        self.members_with("accepted", "sharing")
    }

    /// The nickname of a member.
    pub fn nickname_of(&self, id: &str) -> (nickname: Option<String>)
        requires
            self.roster.wf(),
        ensures
            opt_text(nickname) == if self@.roster.contains_key(id@) {
                Some(self@.roster[id@].nickname)
            } else {
                None
            },
    {
        match self.roster.get(id) {
            Some(viewer) => Some(viewer.nickname.clone()),
            None => None,
        }
    }

    /// The nickname of a member that waits to be let in.
    pub fn pending_nickname(&self, id: &str) -> (nickname: Option<String>)
        requires
            self.roster.wf(),
        ensures
            opt_text(nickname) == if self@.roster.contains_key(id@) && self@.roster[id@].state
                == "pending"@ {
                Some(self@.roster[id@].nickname)
            } else {
                None
            },
    {
        match self.roster.get(id) {
            Some(viewer) => if same_text(viewer.state.as_str(), "pending") {
                Some(viewer.nickname.clone())
            } else {
                None
            },
            None => None,
        }
    }

    /// The member list of the room.
    pub fn room_roster(&self) -> (list: Vec<RoomEntry>)
        requires
            self.roster.wf(),
        ensures
            list@.len() == self.roster.order().len(),
            forall|i: int|
                0 <= i < list@.len() ==> {
                    let (id, viewer) = room_entries(self.roster.order(), self@.roster)[i];
                    &&& (#[trigger] list@[i]).id@ == id
                    &&& list@[i].nickname@ == viewer.nickname
                    &&& list@[i].master == viewer.master
                    &&& list@[i].share == viewer.share
                },
    {
        let mut list: Vec<RoomEntry> = Vec::new();
        let ghost order = self.roster.order();
        let mut i: usize = 0;
        proof {
            self.roster.lemma_items();
        }
        while i < self.roster.len()
            invariant
                i <= order.len(),
                order == self.roster.order(),
                self.roster.wf(),
                list@.len() == i,
                forall|j: int|
                    0 <= j < order.len() ==> self.roster@.contains_key(#[trigger] order[j])
                        && self.roster@[order[j]] == self.roster.items()[j],
                forall|j: int|
                    0 <= j < i ==> {
                        let (id, viewer) = room_entries(order, self@.roster)[j];
                        &&& (#[trigger] list@[j]).id@ == id
                        &&& list@[j].nickname@ == viewer.nickname
                        &&& list@[j].master == viewer.master
                        &&& list@[j].share == viewer.share
                    },
            decreases order.len() - i,
        {
            let id = self.roster.key_at(i);
            let viewer = self.roster.value_at(i);
            assert(self.roster@.contains_key(order[i as int]));
            assert(self@.roster[order[i as int]] == viewer@);
            list.push(
                RoomEntry {
                    id: id.clone(),
                    nickname: viewer.nickname.clone(),
                    master: viewer.master,
                    share: viewer.share,
                },
            );
            i += 1;
        }
        list
    }

    /// Records the host's decision on a member that waits: one that is let in changes
    /// its state, one that is turned away leaves the roster.
    pub fn note_decision(&mut self, id: &str, accept: bool)
        requires
            old(self).roster.wf(),
        ensures
            final(self).roster.wf(),
            final(self)@ == decided(old(self)@, id@, accept),
            final(self)@ == (MailboxModel {
                roster: if !accept {
                    old(self)@.roster.remove(id@)
                } else if old(self)@.roster.contains_key(id@) {
                    old(self)@.roster.insert(
                        id@,
                        ViewerModel { state: "accepted"@, ..old(self)@.roster[id@] },
                    )
                } else {
                    old(self)@.roster
                },
                ..old(self)@
            }),
    {
        if accept {
            if let Some(viewer) = self.roster.get(id) {
                let moved = RosterViewer {
                    nickname: viewer.nickname.clone(),
                    state: "accepted".to_owned(),
                    master: viewer.master,
                    share: viewer.share,
                };
                let ghost model = moved@;
                let _ = self.roster.insert(id, moved);
                assert(self@.roster =~= old(self)@.roster.insert(id@, model));
            }
        } else {
            let _ = self.roster.remove(id);
            assert(self@.roster =~= old(self)@.roster.remove(id@));
        }
    }
}

/// A roster message replaces the roster: nobody stays who is not in it.
pub proof fn law_roster_message_is_authoritative(
    mailbox: MailboxModel,
    message: MessageModel,
    id: Seq<char>,
)
    requires
        message.t == Some("roster"@),
        absorbed(mailbox, inbox_after(empty_inbox(), message)).roster.contains_key(id),
    ensures
        exists|k: int|
            0 <= k < message.entries.len() && (#[trigger] message.entries[k]).id == Some(id),
{
    lemma_different_kinds();
    lemma_roster_members(message.entries, id);
}

proof fn lemma_different_kinds()
    ensures
        "roster"@ != "pending"@,
        "signal"@ != "pending"@,
        "signal"@ != "roster"@,
        "offer"@ != "answer"@,
{
    reveal_strlit("roster");
    reveal_strlit("pending");
    reveal_strlit("signal");
    reveal_strlit("offer");
    reveal_strlit("answer");
    assert("roster"@.len() != "pending"@.len());
    assert("signal"@.len() != "pending"@.len());
    assert("signal"@[0] != "roster"@[0]);
    assert("offer"@.len() != "answer"@.len());
}

proof fn lemma_roster_members(entries: Seq<EntryModel>, id: Seq<char>)
    requires
        roster_of(entries).contains_key(id),
    ensures
        exists|k: int| 0 <= k < entries.len() && (#[trigger] entries[k]).id == Some(id),
    decreases entries.len(),
{
    if entries.len() > 0 {
        if entries.last().id == Some(id) {
            assert(entries[entries.len() - 1].id == Some(id));
        } else {
            lemma_roster_members(entries.drop_last(), id);
            let k = choose|k: int|
                0 <= k < entries.drop_last().len() && (#[trigger] entries.drop_last()[k]).id == Some(
                    id,
                );
            assert(entries[k].id == Some(id));
        }
    }
}

/// An offer is never taken for an answer, nor an answer for an offer, and no signal
/// touches the roster.
pub proof fn law_signals_keep_apart(mailbox: MailboxModel, message: MessageModel)
    requires
        message.t == Some("signal"@),
    ensures
        ({
            let after = absorbed(mailbox, inbox_after(empty_inbox(), message));
            &&& after.roster == mailbox.roster
            &&& after.master_id == mailbox.master_id
            &&& message.payload_type == Some("offer"@) ==> after.answers == mailbox.answers
            &&& message.payload_type == Some("answer"@) ==> after.incoming_offers
                == mailbox.incoming_offers
        }),
{
    lemma_different_kinds();
    let after = absorbed(mailbox, inbox_after(empty_inbox(), message));
    if message.payload_type == Some("offer"@) {
        assert(after.answers =~= mailbox.answers);
    }
    if message.payload_type == Some("answer"@) {
        assert(after.incoming_offers =~= mailbox.incoming_offers);
    }
}

/// What was received is handed out once and in its order: nothing is lost between two
/// messages.
pub proof fn law_mail_is_kept_in_order(mailbox: MailboxModel, first: InboxModel, second: InboxModel)
    ensures
        absorbed(absorbed(mailbox, first), second).answers == mailbox.answers + (first.answers
            + second.answers),
        absorbed(absorbed(mailbox, first), second).incoming_offers == mailbox.incoming_offers + (
        first.offers + second.offers),
{
    assert(absorbed(absorbed(mailbox, first), second).answers =~= mailbox.answers + (first.answers
        + second.answers));
    assert(absorbed(absorbed(mailbox, first), second).incoming_offers =~= mailbox.incoming_offers
        + (first.offers + second.offers));
}

/// Of several entries with one id the last that has a nickname counts, whatever stands around
/// it: its nickname, its state, or that it is let in where it has none, and whether it is
/// master or shares.
pub proof fn law_last_entry_counts(before: Seq<EntryModel>, entry: EntryModel, behind: Seq<EntryModel>)
    requires
        entry.id is Some,
        entry.nickname is Some,
        forall|k: int|
            0 <= k < behind.len() ==> (#[trigger] behind[k]).id != entry.id || behind[k].nickname
                is None,
    ensures
        ({
            let roster = roster_of(before.push(entry) + behind);
            let id = entry.id->0;
            &&& roster.contains_key(id)
            &&& roster[id].nickname == entry.nickname->0
            &&& entry.state is Some ==> roster[id].state == entry.state->0
            &&& entry.state is None ==> roster[id].state == "accepted"@
            &&& roster[id].master <==> entry.master == Some(true)
            &&& roster[id].share <==> entry.share == Some(true) || entry.state == Some("sharing"@)
        }),
    decreases behind.len(),
{
    reveal_strlit("accepted");
    reveal_strlit("sharing");
    assert("accepted"@[0] == 'a' && "sharing"@[0] == 's');
    let all = before.push(entry) + behind;
    if behind.len() == 0 {
        assert(all =~= before.push(entry));
        assert(all.drop_last() =~= before);
        assert(all.last() == entry);
    } else {
        assert(all.drop_last() =~= before.push(entry) + behind.drop_last());
        assert(all.last() == behind[behind.len() - 1]);
        assert forall|k: int| 0 <= k < behind.drop_last().len() implies (#[trigger] behind.drop_last()[k]).id
            != entry.id || behind.drop_last()[k].nickname is None by {
            assert(behind.drop_last()[k] == behind[k]);
        }
        law_last_entry_counts(before, entry, behind.drop_last());
    }
}

/// A member that asks to be let in is on the roster as one that waits, beside those that
/// were known, and nothing else comes of it.
pub proof fn law_pending_members_wait(inbox: InboxModel, message: MessageModel, other: Seq<char>)
    requires
        message.t == Some("pending"@),
        message.viewer_id is Some,
        message.nickname is Some,
        other != message.viewer_id->0,
    ensures
        ({
            let after = inbox_after(inbox, message);
            let id = message.viewer_id->0;
            &&& after.roster is Some
            &&& after.roster->0.contains_key(id)
            &&& after.roster->0[id].nickname == message.nickname->0
            &&& after.roster->0[id].state == "pending"@
            &&& !after.roster->0[id].master && !after.roster->0[id].share
            &&& inbox.roster is Some ==> {
                &&& after.roster->0.contains_key(other) == inbox.roster->0.contains_key(other)
                &&& inbox.roster->0.contains_key(other) ==> after.roster->0[other]
                    == inbox.roster->0[other]
            }
            &&& inbox.roster is None ==> !after.roster->0.contains_key(other)
            &&& after == (InboxModel { roster: after.roster, ..inbox })
        }),
{
}

/// Every kind of message changes its own part of the inbox and no other: a roster also tells
/// the master, a refusal counts like an expulsion, and what is not understood changes nothing.
pub proof fn law_messages_change_their_part(inbox: InboxModel, message: MessageModel)
    ensures
        ({
            let after = inbox_after(inbox, message);
            let kind = message.t;
            &&& kind == Some("roster"@) ==> after == (InboxModel {
                roster: Some(roster_of(message.entries)),
                master_id: message.master_id,
                ..inbox
            })
            &&& kind == Some("you-are-master"@) ==> after.you_are_master && after == (InboxModel {
                you_are_master: true,
                ..inbox
            })
            &&& kind == Some("gone"@) ==> after.gone && after == (InboxModel {
                gone: true,
                ..inbox
            })
            &&& kind == Some("kicked"@) || kind == Some("rejected"@) ==> after.kicked && after == (
            InboxModel { kicked: true, ..inbox })
            &&& kind == Some("watch"@) && message.from is Some ==> after.watch_from
                == inbox.watch_from.push(message.from->0) && after == (InboxModel {
                watch_from: after.watch_from,
                ..inbox
            })
            &&& kind == Some("unwatch"@) && message.from is Some ==> after.unwatch_from
                == inbox.unwatch_from.push(message.from->0) && after == (InboxModel {
                unwatch_from: after.unwatch_from,
                ..inbox
            })
            &&& (kind == Some("watch"@) || kind == Some("unwatch"@)) && message.from is None
                ==> after == inbox
            &&& kind == Some("pending"@) && (message.viewer_id is None || message.nickname is None)
                ==> after == inbox
            &&& kind is None ==> after == inbox
            &&& kind is Some && kind != Some("pending"@) && kind != Some("roster"@) && kind != Some(
                "signal"@,
            ) && kind != Some("you-are-master"@) && kind != Some("gone"@) && kind != Some(
                "kicked"@,
            ) && kind != Some("rejected"@) && kind != Some("watch"@) && kind != Some("unwatch"@)
                ==> after == inbox
            &&& inbox.you_are_master ==> after.you_are_master
            &&& inbox.gone ==> after.gone
            &&& inbox.kicked ==> after.kicked
        }),
{
    lemma_kinds_differ();
}

proof fn lemma_kinds_differ()
    ensures
        "roster"@ != "pending"@,
        "you-are-master"@ != "pending"@ && "you-are-master"@ != "roster"@ && "you-are-master"@
            != "signal"@,
        "gone"@ != "pending"@ && "gone"@ != "roster"@ && "gone"@ != "signal"@ && "gone"@
            != "you-are-master"@,
        "kicked"@ != "pending"@ && "kicked"@ != "roster"@ && "kicked"@ != "signal"@ && "kicked"@
            != "you-are-master"@ && "kicked"@ != "gone"@,
        "rejected"@ != "pending"@ && "rejected"@ != "roster"@ && "rejected"@ != "signal"@
            && "rejected"@ != "you-are-master"@ && "rejected"@ != "gone"@,
        "watch"@ != "pending"@ && "watch"@ != "roster"@ && "watch"@ != "signal"@ && "watch"@
            != "you-are-master"@ && "watch"@ != "gone"@ && "watch"@ != "kicked"@ && "watch"@
            != "rejected"@,
        "unwatch"@ != "pending"@ && "unwatch"@ != "roster"@ && "unwatch"@ != "signal"@
            && "unwatch"@ != "you-are-master"@ && "unwatch"@ != "gone"@ && "unwatch"@ != "kicked"@
            && "unwatch"@ != "rejected"@ && "unwatch"@ != "watch"@,
        "signal"@ != "pending"@ && "signal"@ != "roster"@,
{
    reveal_strlit("pending");
    reveal_strlit("roster");
    reveal_strlit("signal");
    reveal_strlit("you-are-master");
    reveal_strlit("gone");
    reveal_strlit("kicked");
    reveal_strlit("rejected");
    reveal_strlit("watch");
    reveal_strlit("unwatch");
    assert("pending"@[0] == 'p' && "roster"@[0] == 'r' && "signal"@[0] == 's');
    assert("you-are-master"@[0] == 'y' && "gone"@[0] == 'g' && "kicked"@[0] == 'k');
    assert("rejected"@[0] == 'r' && "watch"@[0] == 'w' && "unwatch"@[0] == 'u');
    assert("rejected"@[1] == 'e' && "roster"@[1] == 'o');
}

/// An answer is kept behind the earlier ones, with its text and, where it is known, its
/// sender: who it is from, or else the viewer that it names. An offer is kept so too, but not
/// without a sender. A signal without text, or of another kind, is none.
pub proof fn law_signals_are_kept_behind(inbox: InboxModel, message: MessageModel)
    requires
        message.t == Some("signal"@),
    ensures
        ({
            let after = inbox_after(inbox, message);
            let text = message.payload_sdp;
            let sender = if message.from is Some {
                message.from
            } else {
                message.viewer_id
            };
            let named = sender is Some && sender->0.len() > 0;
            &&& text is Some && message.payload_type == Some("answer"@) ==> {
                &&& after.answers.len() == inbox.answers.len() + 1
                &&& after.answers.drop_last() == inbox.answers
                &&& after.answers.last().kind == PeerSignalKind::Answer
                &&& after.answers.last().sdp == text->0
                &&& after.answers.last().id == if named {
                    sender
                } else {
                    None
                }
                &&& after.offers == inbox.offers
            }
            &&& text is Some && message.payload_type == Some("offer"@) && named ==> {
                &&& after.offers.len() == inbox.offers.len() + 1
                &&& after.offers.drop_last() == inbox.offers
                &&& after.offers.last().sdp == text->0
                &&& after.offers.last().from == sender->0
                &&& after.answers == inbox.answers
            }
            &&& text is None || (message.payload_type != Some("answer"@) && message.payload_type
                != Some("offer"@)) ==> after == inbox
            &&& message.payload_type == Some("offer"@) && !named ==> after == inbox
            &&& after == (InboxModel { answers: after.answers, offers: after.offers, ..inbox })
        }),
{
    lemma_kinds_differ();
    reveal_strlit("answer");
    reveal_strlit("offer");
    assert("answer"@[0] == 'a' && "offer"@[0] == 'o');
    let after = inbox_after(inbox, message);
    if message.payload_sdp is Some && message.payload_type == Some("answer"@) {
        assert(after.answers.drop_last() =~= inbox.answers);
    }
    if after.offers.len() > inbox.offers.len() {
        assert(after.offers.drop_last() =~= inbox.offers);
    }
}

/// What a mailbox takes in it keeps: the newest roster and master, where there are some, and
/// all mail behind what it had.
pub proof fn law_mailbox_takes_everything_in(mailbox: MailboxModel, inbox: InboxModel)
    ensures
        ({
            let after = absorbed(mailbox, inbox);
            &&& inbox.roster is Some ==> after.roster == inbox.roster->0
            &&& inbox.roster is None ==> after.roster == mailbox.roster
            &&& inbox.master_id is Some ==> after.master_id == inbox.master_id
            &&& inbox.master_id is None ==> after.master_id == mailbox.master_id
            &&& after.answers.take(mailbox.answers.len() as int) == mailbox.answers
            &&& after.answers.skip(mailbox.answers.len() as int) == inbox.answers
            &&& after.incoming_offers.take(mailbox.incoming_offers.len() as int)
                == mailbox.incoming_offers
            &&& after.incoming_offers.skip(mailbox.incoming_offers.len() as int) == inbox.offers
            &&& after.watch_from.take(mailbox.watch_from.len() as int) == mailbox.watch_from
            &&& after.watch_from.skip(mailbox.watch_from.len() as int) == inbox.watch_from
            &&& after.unwatch_from.take(mailbox.unwatch_from.len() as int) == mailbox.unwatch_from
            &&& after.unwatch_from.skip(mailbox.unwatch_from.len() as int) == inbox.unwatch_from
        }),
{
    let after = absorbed(mailbox, inbox);
    assert(after.answers.take(mailbox.answers.len() as int) =~= mailbox.answers);
    assert(after.answers.skip(mailbox.answers.len() as int) =~= inbox.answers);
    assert(after.incoming_offers.take(mailbox.incoming_offers.len() as int)
        =~= mailbox.incoming_offers);
    assert(after.incoming_offers.skip(mailbox.incoming_offers.len() as int) =~= inbox.offers);
    assert(after.watch_from.take(mailbox.watch_from.len() as int) =~= mailbox.watch_from);
    assert(after.watch_from.skip(mailbox.watch_from.len() as int) =~= inbox.watch_from);
    assert(after.unwatch_from.take(mailbox.unwatch_from.len() as int) =~= mailbox.unwatch_from);
    assert(after.unwatch_from.skip(mailbox.unwatch_from.len() as int) =~= inbox.unwatch_from);
}

/// Members are listed in the order of the roster: those in one of the two states with their
/// nickname, and no others.
pub proof fn law_members_are_listed_in_order(
    a: Seq<Seq<char>>,
    b: Seq<Seq<char>>,
    roster: Map<Seq<char>, ViewerModel>,
    one: Seq<char>,
    other: Seq<char>,
)
    ensures
        members_in(a + b, roster, one, other) == members_in(a, roster, one, other) + members_in(
            b,
            roster,
            one,
            other,
        ),
        a.len() == 1 && (roster[a[0]].state == one || roster[a[0]].state == other) ==> members_in(
            a,
            roster,
            one,
            other,
        ) == seq![(a[0], roster[a[0]].nickname)],
        a.len() == 1 && roster[a[0]].state != one && roster[a[0]].state != other ==> members_in(
            a,
            roster,
            one,
            other,
        ).len() == 0,
    decreases b.len(),
{
    reveal_with_fuel(members_in, 2);
    if b.len() == 0 {
        assert(a + b =~= a);
        assert(members_in(a, roster, one, other) + members_in(b, roster, one, other)
            =~= members_in(a, roster, one, other));
    } else {
        assert((a + b).drop_last() =~= a + b.drop_last());
        law_members_are_listed_in_order(a, b.drop_last(), roster, one, other);
        assert(members_in(a + b, roster, one, other) =~= members_in(a, roster, one, other)
            + members_in(b, roster, one, other));
    }
    if a.len() == 1 && (roster[a[0]].state == one || roster[a[0]].state == other) {
        assert(members_in(a, roster, one, other) =~= seq![(a[0], roster[a[0]].nickname)]);
    }
}

/// A decision concerns one member: let in, it keeps all but its state; turned away, it is
/// off the roster. Nobody else is touched, and nobody appears.
pub proof fn law_decisions_concern_one_member(
    mailbox: MailboxModel,
    id: Seq<char>,
    accept: bool,
    other: Seq<char>,
)
    requires
        other != id,
    ensures
        ({
            let after = decided(mailbox, id, accept);
            &&& after.roster.contains_key(id) <==> accept && mailbox.roster.contains_key(id)
            &&& after.roster.contains_key(id) ==> {
                &&& after.roster[id].state == "accepted"@
                &&& after.roster[id].nickname == mailbox.roster[id].nickname
                &&& after.roster[id].master == mailbox.roster[id].master
                &&& after.roster[id].share == mailbox.roster[id].share
            }
            &&& after.roster.contains_key(other) == mailbox.roster.contains_key(other)
            &&& mailbox.roster.contains_key(other) ==> after.roster[other] == mailbox.roster[other]
            &&& after == (MailboxModel { roster: after.roster, ..mailbox })
        }),
{
}

/// Requests are handed out once and none is lost: what is not wanted yet stays where it is.
pub proof fn law_requests_are_handed_out_once(mailbox: MailboxModel, take_watch: bool)
    ensures
        ({
            let (after, watch, unwatch) = requests_taken(mailbox, take_watch);
            &&& watch + after.watch_from == mailbox.watch_from
            &&& take_watch ==> after.watch_from.len() == 0
            &&& !take_watch ==> watch.len() == 0
            &&& unwatch == mailbox.unwatch_from
            &&& after.unwatch_from.len() == 0
            &&& after == (MailboxModel {
                watch_from: after.watch_from,
                unwatch_from: after.unwatch_from,
                ..mailbox
            })
        }),
{
    let (after, watch, unwatch) = requests_taken(mailbox, take_watch);
    assert(watch + after.watch_from =~= mailbox.watch_from);
}

/// A roster message is read member by member, and each of its entries in its place: what
/// stands under a name is what is read, and what is not there is missing.
pub proof fn law_roster_messages_are_read(
    kind: Seq<char>,
    nickname: Seq<char>,
    master_id: Seq<char>,
    list: Seq<JsonTree>,
    i: int,
)
    ensures
        ({
            let message = message_of(
                JsonTree::Object(
                    map![
                        "t"@ => JsonTree::Text(kind),
                        "nickname"@ => JsonTree::Text(nickname),
                        "master_id"@ => JsonTree::Text(master_id),
                        "entries"@ => JsonTree::Array(list),
                    ],
                ),
            );
            &&& message.t == Some(kind)
            &&& message.nickname == Some(nickname)
            &&& message.master_id == Some(master_id)
            &&& message.viewer_id is None && message.from is None
            &&& message.payload_type is None && message.payload_sdp is None
            &&& message.entries.len() == list.len()
            &&& 0 <= i < list.len() ==> message.entries[i] == entry_of(list[i])
        }),
{
    lemma_member_names();
}

/// An entry is read member by member.
pub proof fn law_entries_are_read(
    id: Seq<char>,
    nickname: Seq<char>,
    state: Seq<char>,
    master: bool,
    share: bool,
)
    ensures
        entry_of(
            JsonTree::Object(
                map![
                    "id"@ => JsonTree::Text(id),
                    "nickname"@ => JsonTree::Text(nickname),
                    "state"@ => JsonTree::Text(state),
                    "master"@ => JsonTree::Bool(master),
                    "share"@ => JsonTree::Bool(share),
                ],
            ),
        ) == (EntryModel {
            id: Some(id),
            nickname: Some(nickname),
            state: Some(state),
            master: Some(master),
            share: Some(share),
        }),
        entry_of(JsonTree::Object(Map::empty())) == (EntryModel {
            id: None,
            nickname: None,
            state: None,
            master: None,
            share: None,
        }),
{
    lemma_member_names();
}

proof fn lemma_member_names()
    ensures
        "t"@.len() == 1,
        "id"@.len() == 2,
        "from"@.len() == 4,
        "share"@.len() == 5,
        "share"@[1] == 'h',
        "state"@.len() == 5,
        "state"@[1] == 't',
        "master"@.len() == 6,
        "payload"@.len() == 7,
        "payload"@[0] == 'p',
        "entries"@.len() == 7,
        "entries"@[0] == 'e',
        "nickname"@.len() == 8,
        "viewer_id"@.len() == 9,
        "viewer_id"@[0] == 'v',
        "master_id"@.len() == 9,
        "master_id"@[0] == 'm',
{
    reveal_strlit("t");
    reveal_strlit("id");
    reveal_strlit("from");
    reveal_strlit("share");
    reveal_strlit("state");
    reveal_strlit("master");
    reveal_strlit("payload");
    reveal_strlit("entries");
    reveal_strlit("nickname");
    reveal_strlit("viewer_id");
    reveal_strlit("master_id");
}

} // verus!
