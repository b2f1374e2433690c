//! The session descriptions that two peers exchange.

use vstd::prelude::*;
use crate::sdp::{
    has_candidate, rejected_video_section, require_candidates, rewrite_mdns_candidate_addresses,
    rewritten,
};
use crate::text::{copy_opt_text, opt_text, push_text};

verus! {

#[derive(Clone, Copy, Debug, PartialEq, Eq, Structural)]
pub enum PeerSignalKind {
    Offer,
    Answer,
}

/// A session description on its way to the other peer.
#[derive(Debug, PartialEq, Eq)]
pub struct PeerSignal {
    pub kind: PeerSignalKind,
    pub sdp: String,
    pub id: Option<String>,
}

/// What a [`PeerSignal`] holds.
pub struct SignalModel {
    pub kind: PeerSignalKind,
    pub sdp: Seq<char>,
    pub id: Option<Seq<char>>,
}

impl View for PeerSignal {
    type V = SignalModel;

    open spec fn view(&self) -> SignalModel {
        SignalModel { kind: self.kind, sdp: self.sdp@, id: opt_text(self.id) }
    }
}

impl Clone for PeerSignal {
    fn clone(&self) -> (copy: Self)
        ensures
            copy@ == self@,
    {
        PeerSignal { kind: self.kind, sdp: self.sdp.clone(), id: copy_opt_text(&self.id) }
    }
}

/// The address that takes the place of mDNS names.
pub const LOOPBACK: &'static str = "127.0.0.1";

/// How messages name a kind of description.
pub open spec fn kind_name(kind: PeerSignalKind) -> Seq<char> {
    match kind {
        PeerSignalKind::Offer => "offer"@,
        PeerSignalKind::Answer => "answer"@,
    }
}

/// Why a local description could not be sent.
pub open spec fn local_refusal(kind: PeerSignalKind, sdp: Option<Seq<char>>) -> Option<Seq<char>> {
    match sdp {
        None => Some("local "@ + kind_name(kind) + " is unavailable"@),
        Some(text) => if has_candidate(text) {
            None
        } else {
            Some(kind_name(kind) + " gathered no ICE candidates"@)
        },
    }
}

/// Turns the gathered local description into a signal. One that is missing or has no
/// candidates is refused.
pub fn local_signal(kind: PeerSignalKind, sdp: Option<String>) -> (result: Result<
    PeerSignal,
    String,
>)
    ensures
        match local_refusal(kind, opt_text(sdp)) {
            Some(message) => result is Err && result->Err_0@ == message,
            None => result is Ok && result->Ok_0@ == (SignalModel {
                kind,
                sdp: sdp->0@,
                id: None,
            }),
        },
{
    let name: &str = match kind {
        PeerSignalKind::Offer => "offer",
        PeerSignalKind::Answer => "answer",
    };
    match sdp {
        None => {
            let mut message = "local ".to_owned();
            push_text(&mut message, name);
            push_text(&mut message, " is unavailable");
            Err(message)
        },
        Some(text) => match require_candidates(text.as_str(), name) {
            Ok(()) => Ok(PeerSignal { kind, sdp: text, id: None }),
            Err(message) => Err(message),
        },
    }
}

/// The description of a remote offer that is about to be applied.
pub fn remote_offer(offer: PeerSignal) -> (result: Result<String, String>)
    ensures
        offer.kind == PeerSignalKind::Offer ==> result is Ok && result->Ok_0@ == offer.sdp@,
        offer.kind != PeerSignalKind::Offer ==> result is Err && result->Err_0@
            == "accept_offer requires an offer signal"@,
{
    match offer.kind {
        PeerSignalKind::Offer => Ok(offer.sdp),
        PeerSignalKind::Answer => Err("accept_offer requires an offer signal".to_owned()),
    }
}

/// Why a remote answer is refused.
#[derive(Debug, PartialEq, Eq)]
pub enum AnswerRefusal {
    /// It is no answer.
    NotAnAnswer,
    /// The viewer refused the video: its line of the answer.
    VideoRejected(String),
}

impl AnswerRefusal {
    pub open spec fn spec_message(self) -> Seq<char> {
        match self {
            AnswerRefusal::NotAnAnswer => "set_answer requires an answer signal"@,
            AnswerRefusal::VideoRejected(_) =>
                "viewer rejected the video stream: browser has no decoder for this codec"@,
        }
    }

    /// The message for the host.
    pub fn message(&self) -> (text: String)
        ensures
            text@ == self.spec_message(),
    {
        match self {
            AnswerRefusal::NotAnAnswer => "set_answer requires an answer signal".to_owned(),
            AnswerRefusal::VideoRejected(_) => {
                "viewer rejected the video stream: browser has no decoder for this codec".to_owned()
            },
        }
    }
}

/// An answer in which some line refuses video.
pub open spec fn answer_refuses_video(sdp: Seq<char>) -> bool {
    exists|i: int|
        0 <= i < crate::text::lines(sdp).len() && crate::sdp::refuses_video(
            #[trigger] crate::text::lines(sdp)[i],
        )
}

/// What comes of a remote answer: its description with reachable addresses, or the line that
/// refuses the video, or nothing where it is no answer.
pub open spec fn answer_read(answer: SignalModel) -> Result<Seq<char>, Option<Seq<char>>> {
    let text = rewritten(answer.sdp, LOOPBACK@);
    if answer.kind != PeerSignalKind::Answer {
        Err(None)
    } else {
        match crate::sdp::first_refusal(crate::text::lines(text)) {
            Some(line) => Err(Some(line)),
            None => Ok(text),
        }
    }
}

/// The description of a remote answer that is about to be applied: with reachable
/// addresses. An answer that refuses the video fails at once: its peer would wait for
/// ever.
pub fn remote_answer(answer: &PeerSignal) -> (result: Result<String, AnswerRefusal>)
    ensures
        match answer_read(answer@) {
            Ok(text) => result is Ok && result->Ok_0@ == text,
            Err(None) => result == Err::<String, AnswerRefusal>(AnswerRefusal::NotAnAnswer),
            Err(Some(line)) => result is Err && result->Err_0 is VideoRejected
                && result->Err_0->VideoRejected_0@ == line,
        },
        answer.kind != PeerSignalKind::Answer ==> result == Err::<String, AnswerRefusal>(
            AnswerRefusal::NotAnAnswer,
        ),
        answer.kind == PeerSignalKind::Answer ==> match result {
            Ok(sdp) => !answer_refuses_video(rewritten(answer.sdp@, LOOPBACK@)) && sdp@
                == rewritten(answer.sdp@, LOOPBACK@),
            Err(AnswerRefusal::NotAnAnswer) => false,
            Err(AnswerRefusal::VideoRejected(line)) => {
                let text = rewritten(answer.sdp@, LOOPBACK@);
                exists|i: int|
                    {
                        &&& 0 <= i < crate::text::lines(text).len()
                        &&& crate::sdp::refuses_video(#[trigger] crate::text::lines(text)[i])
                        &&& line@ == crate::text::trimmed(crate::text::lines(text)[i])
                        &&& forall|j: int|
                            0 <= j < i ==> !crate::sdp::refuses_video(
                                #[trigger] crate::text::lines(text)[j],
                            )
                    }
            },
        },
{
    match answer.kind {
        PeerSignalKind::Offer => Err(AnswerRefusal::NotAnAnswer),
        PeerSignalKind::Answer => {
            let sdp = rewrite_mdns_candidate_addresses(answer.sdp.as_str(), LOOPBACK);
            match rejected_video_section(sdp.as_str()) {
                Some(line) => Err(AnswerRefusal::VideoRejected(line)),
                None => Ok(sdp),
            }
        },
    }
}

/// A local description is sent exactly where it is there and offers a candidate; the message
/// names what is missing and of which description.
pub proof fn law_descriptions_need_candidates(kind: PeerSignalKind, sdp: Option<Seq<char>>)
    ensures
        local_refusal(kind, sdp) is None <==> sdp is Some && has_candidate(sdp->0),
        sdp is None ==> local_refusal(kind, sdp) == Some(
            "local "@ + kind_name(kind) + " is unavailable"@,
        ),
        sdp is Some && !has_candidate(sdp->0) ==> local_refusal(kind, sdp) == Some(
            kind_name(kind) + " gathered no ICE candidates"@,
        ),
        kind_name(PeerSignalKind::Offer) != kind_name(PeerSignalKind::Answer),
{
    reveal_strlit("offer");
    reveal_strlit("answer");
    assert("offer"@[0] == 'o' && "answer"@[0] == 'a');
}

/// An offer is never applied as an answer. An answer is, with the addresses that it hides
/// replaced by this machine's, unless it refuses the video: then the first line that does is
/// told.
pub proof fn law_answers_are_applied_or_told(answer: SignalModel)
    ensures
        answer.kind is Offer ==> answer_read(answer) == Err::<Seq<char>, Option<Seq<char>>>(None),
        answer.kind is Answer && !answer_refuses_video(rewritten(answer.sdp, "127.0.0.1"@))
            ==> answer_read(answer) == Ok::<Seq<char>, Option<Seq<char>>>(
            rewritten(answer.sdp, "127.0.0.1"@),
        ),
        answer.kind is Answer && answer_refuses_video(rewritten(answer.sdp, "127.0.0.1"@))
            ==> answer_read(answer) is Err && answer_read(answer)->Err_0 is Some,
{
    let all = crate::text::lines(rewritten(answer.sdp, "127.0.0.1"@));
    if answer_refuses_video(rewritten(answer.sdp, "127.0.0.1"@)) {
        let i = choose|i: int| 0 <= i < all.len() && crate::sdp::refuses_video(#[trigger] all[i]);
        lemma_some_refusal(all, i);
    } else {
        assert forall|j: int| 0 <= j < all.len() implies !crate::sdp::refuses_video(
            #[trigger] all[j],
        ) by {}
        crate::sdp::law_first_refusal_is_told(all, Seq::empty(), Seq::empty());
    }
}

proof fn lemma_some_refusal(all: Seq<Seq<char>>, i: int)
    requires
        0 <= i < all.len(),
        crate::sdp::refuses_video(all[i]),
    ensures
        crate::sdp::first_refusal(all) is Some,
    decreases all.len(),
{
    if !crate::sdp::refuses_video(all[0]) {
        assert(all.skip(1)[i - 1] == all[i]);
        lemma_some_refusal(all.skip(1), i - 1);
    }
}

} // verus!
