//! Copies encoded video and audio to every viewer.

use std::collections::VecDeque;
use vstd::prelude::*;
use crate::access_unit::{AccessUnit, EncodedAccessUnit};
use crate::pipeline::EncoderControl;
use crate::process_tap::EncodedAudioPacket;
use crate::queue::{AccessUnitPushResult, AccessUnitQueue, QueueModel};
use crate::registry::Registry;
use crate::text::texts;

verus! {

/// How many access units a viewer's queue holds.
pub const VIDEO_QUEUE_CAPACITY: usize = 16;

/// How many audio packets a viewer's queue holds.
pub const AUDIO_QUEUE: usize = 16;

/// A bounded queue of audio packets. A packet that finds it full is dropped.
pub struct AudioQueue {
    packets: VecDeque<EncodedAudioPacket>,
}

/// What an audio packet holds.
pub struct AudioPacket {
    pub data: Seq<u8>,
    pub duration_micros: u64,
}

/// The content of an audio packet.
pub open spec fn packet_view(packet: EncodedAudioPacket) -> AudioPacket {
    AudioPacket { data: packet.data@, duration_micros: packet.duration_micros }
}

impl View for AudioQueue {
    type V = Seq<AudioPacket>;

    closed spec fn view(&self) -> Seq<AudioPacket> {
        Seq::new(self.packets@.len(), |i: int| packet_view(self.packets@[i]))
    }
}

impl AudioQueue {
    /// A queue without packets.
    pub fn new() -> (queue: Self)
        ensures
            queue@ == Seq::<AudioPacket>::empty(),
    {
        let queue = AudioQueue { packets: VecDeque::new() };
        assert(queue@ =~= Seq::<AudioPacket>::empty());
        queue
    }

    /// Takes a packet in while there is room.
    pub fn try_send(&mut self, packet: EncodedAudioPacket) -> (taken: bool)
        ensures
            taken == (old(self)@.len() < AUDIO_QUEUE),
            final(self)@ == if taken {
                old(self)@.push(packet_view(packet))
            } else {
                old(self)@
            },
    {
        if self.packets.len() >= AUDIO_QUEUE {
            return false;
        }
        self.packets.push_back(packet);
        assert(self@ =~= old(self)@.push(packet_view(packet)));
        true
    }

    /// Hands the oldest packet out.
    pub fn try_recv(&mut self) -> (packet: Option<EncodedAudioPacket>)
        ensures
            packet is Some <==> old(self)@.len() > 0,
            packet matches Some(first) ==> packet_view(first) == old(self)@[0] && final(self)@
                == old(self)@.skip(1),
            packet is None ==> final(self)@ == old(self)@,
    {
        let packet = self.packets.pop_front();
        assert(packet is Some ==> self@ =~= old(self)@.skip(1));
        assert(packet is None ==> self@ =~= old(self)@);
        packet
    }
}

/// The queues of all viewers. A viewer has an audio queue only while there is
/// audio.
pub struct MediaFanout {
    video: Registry<AccessUnitQueue>,
    audio: Registry<AudioQueue>,
    has_audio: bool,
}

/// The models of a map of queues.
pub open spec fn queue_models(
    queues: Map<Seq<char>, AccessUnitQueue>,
) -> Map<Seq<char>, QueueModel> {
    queues.map_values(|queue: AccessUnitQueue| queue@)
}

/// An empty queue for a viewer.
pub open spec fn fresh_queue() -> QueueModel {
    QueueModel {
        units: Seq::empty(),
        recovering: false,
        closed: false,
        capacity: VIDEO_QUEUE_CAPACITY as nat,
    }
}

/// Every queue once `unit` was pushed into it.
pub open spec fn all_pushed(
    queues: Map<Seq<char>, QueueModel>,
    unit: AccessUnit,
) -> Map<Seq<char>, QueueModel> {
    queues.map_values(|queue: QueueModel| queue.pushed(unit).0)
}

/// Some queue drops `unit` and waits for a keyframe.
pub open spec fn overflows(queues: Map<Seq<char>, QueueModel>, unit: AccessUnit) -> bool {
    exists|id: Seq<char>| #[trigger]
        queues.contains_key(id) && queues[id].pushed(unit).1
            == AccessUnitPushResult::DroppedUntilKeyframe
}

/// A viewer's audio once `packet` was offered to it: a full queue stays as it is.
pub open spec fn offered(queue: Seq<AudioPacket>, packet: AudioPacket) -> Seq<AudioPacket> {
    if queue.len() < AUDIO_QUEUE {
        queue.push(packet)
    } else {
        queue
    }
}

/// Every viewer's audio once `packet` was offered to it.
pub open spec fn all_offered(
    queues: Map<Seq<char>, Seq<AudioPacket>>,
    packet: AudioPacket,
) -> Map<Seq<char>, Seq<AudioPacket>> {
    queues.map_values(|queue: Seq<AudioPacket>| offered(queue, packet))
}

/// The queues of all viewers once one subscribed.
pub open spec fn subscribed(
    video: Map<Seq<char>, QueueModel>,
    audio: Map<Seq<char>, Seq<AudioPacket>>,
    has_audio: bool,
    id: Seq<char>,
) -> (Map<Seq<char>, QueueModel>, Map<Seq<char>, Seq<AudioPacket>>) {
    (
        video.insert(id, fresh_queue()),
        if has_audio {
            audio.insert(id, Seq::empty())
        } else {
            audio
        },
    )
}

/// The queues of all viewers once one is gone.
pub open spec fn unsubscribed(
    video: Map<Seq<char>, QueueModel>,
    audio: Map<Seq<char>, Seq<AudioPacket>>,
    id: Seq<char>,
) -> (Map<Seq<char>, QueueModel>, Map<Seq<char>, Seq<AudioPacket>>) {
    (video.remove(id), audio.remove(id))
}

/// Everything that a turn of the fanout reads and changes.
pub struct TurnModel {
    pub viewers: Map<Seq<char>, QueueModel>,
    pub listeners: Map<Seq<char>, Seq<AudioPacket>>,
    pub control: Option<EncoderControl>,
    pub video: QueueModel,
    pub audio: Seq<AudioPacket>,
}

/// A turn goes on unless the fanout is shut down or the video is closed and used up.
pub open spec fn turn_goes_on(turn: TurnModel, shutdown: bool) -> bool {
    !shutdown && (turn.video.units.len() > 0 || !turn.video.closed)
}

/// Everything behind one turn.
pub open spec fn turned(turn: TurnModel, shutdown: bool) -> TurnModel {
    if !turn_goes_on(turn, shutdown) {
        turn
    } else {
        TurnModel {
            viewers: match turn.video.taken() {
                Some(unit) => all_pushed(turn.viewers, unit),
                None => turn.viewers,
            },
            control: match turn.video.taken() {
                Some(unit) => if overflows(turn.viewers, unit) {
                    keyframe_asked(turn.control)
                } else {
                    turn.control
                },
                None => turn.control,
            },
            video: turn.video.popped(),
            listeners: if turn.audio.len() > 0 {
                all_offered(turn.listeners, turn.audio[0])
            } else {
                turn.listeners
            },
            audio: if turn.audio.len() > 0 {
                turn.audio.skip(1)
            } else {
                turn.audio
            },
        }
    }
}

/// The control with a keyframe asked for.
pub open spec fn keyframe_asked(control: Option<EncoderControl>) -> Option<EncoderControl> {
    match control {
        Some(c) => Some(EncoderControl { keyframe_requested: true, ..c }),
        None => None,
    }
}

fn ask_for_keyframe(control: &mut Option<EncoderControl>)
    ensures
        *final(control) == keyframe_asked(*old(control)),
{
    if let Some(current) = *control {
        let mut asked: EncoderControl = current;
        asked.request_keyframe();
        *control = Some(asked);
    }
}

impl MediaFanout {
    /// The video queues by viewer.
    pub closed spec fn video_queues(&self) -> Map<Seq<char>, QueueModel> {
        queue_models(self.video@)
    }

    /// The waiting audio packets by viewer.
    pub closed spec fn audio_queues(&self) -> Map<Seq<char>, Seq<AudioPacket>> {
        self.audio@.map_values(|queue: AudioQueue| queue@)
    }

    /// Whether viewers get audio.
    pub closed spec fn carries_audio(&self) -> bool {
        self.has_audio
    }

    /// Every queue is well formed.
    pub closed spec fn wf(&self) -> bool {
        &&& self.video.wf()
        &&& self.audio.wf()
        &&& forall|id: Seq<char>| #[trigger]
            self.video@.contains_key(id) ==> self.video@[id]@.wf()
    }

    /// A fanout without viewers.
    pub fn start(has_audio: bool) -> (fanout: Self)
        ensures
            fanout.wf(),
            fanout.video_queues() == Map::<Seq<char>, QueueModel>::empty(),
            fanout.audio_queues() == Map::<Seq<char>, Seq<AudioPacket>>::empty(),
            fanout.carries_audio() == has_audio,
    {
        let fanout = MediaFanout { video: Registry::new(), audio: Registry::new(), has_audio };
        assert(fanout.video_queues() =~= Map::<Seq<char>, QueueModel>::empty());
        assert(fanout.audio_queues() =~= Map::<Seq<char>, Seq<AudioPacket>>::empty());
        fanout
    }

    /// Adds a viewer with empty queues, or gives a returning one fresh queues. The
    /// encoder owes a keyframe, so that the newcomer sees something at once.
    pub fn subscribe(&mut self, control: &mut Option<EncoderControl>, id: &str)
        requires
            old(self).wf(),
        ensures
            final(self).wf(),
            final(self).carries_audio() == old(self).carries_audio(),
            final(self).video_queues() == old(self).video_queues().insert(id@, fresh_queue()),
            final(self).audio_queues() == if old(self).carries_audio() {
                old(self).audio_queues().insert(id@, Seq::empty())
            } else {
                old(self).audio_queues()
            },
            (final(self).video_queues(), final(self).audio_queues()) == subscribed(
                old(self).video_queues(),
                old(self).audio_queues(),
                old(self).carries_audio(),
                id@,
            ),
            *final(control) == keyframe_asked(*old(control)),
    {
        let queue = AccessUnitQueue::bounded(VIDEO_QUEUE_CAPACITY);
        let _ = self.video.insert(id, queue);
        assert(self.video_queues() =~= old(self).video_queues().insert(id@, fresh_queue()));
        if self.has_audio {
            let _ = self.audio.insert(id, AudioQueue::new());
            assert(self.audio_queues() =~= old(self).audio_queues().insert(
                id@,
                Seq::<AudioPacket>::empty(),
            ));
        }
        ask_for_keyframe(control);
    }

    /// Puts a queue that is in use under a viewer's name.
    pub fn adopt(&mut self, id: &str, queue: AccessUnitQueue)
        requires
            old(self).wf(),
            queue@.wf(),
        ensures
            final(self).wf(),
            final(self).carries_audio() == old(self).carries_audio(),
            final(self).video_queues() == old(self).video_queues().insert(id@, queue@),
            final(self).audio_queues() == old(self).audio_queues(),
    {
        let _ = self.video.insert(id, queue);
        assert(self.video_queues() =~= old(self).video_queues().insert(id@, queue@));
    }

    /// Removes a viewer.
    pub fn unsubscribe(&mut self, id: &str)
        requires
            old(self).wf(),
        ensures
            final(self).wf(),
            final(self).carries_audio() == old(self).carries_audio(),
            final(self).video_queues() == old(self).video_queues().remove(id@),
            final(self).audio_queues() == old(self).audio_queues().remove(id@),
            (final(self).video_queues(), final(self).audio_queues()) == unsubscribed(
                old(self).video_queues(),
                old(self).audio_queues(),
                id@,
            ),
    {
        let _ = self.video.remove(id);
        let _ = self.audio.remove(id);
        assert(self.video_queues() =~= old(self).video_queues().remove(id@));
        assert(self.audio_queues() =~= old(self).audio_queues().remove(id@));
    }

    /// Pushes an access unit to every viewer. Where a viewer's queue overflows, the
    /// encoder owes a keyframe; the other viewers do not notice.
    pub fn push_video(&mut self, control: &mut Option<EncoderControl>, unit: &EncodedAccessUnit)
        requires
            old(self).wf(),
        ensures
            final(self).wf(),
            final(self).carries_audio() == old(self).carries_audio(),
            final(self).video_queues() == all_pushed(old(self).video_queues(), unit@),
            final(self).audio_queues() == old(self).audio_queues(),
            *final(control) == if overflows(old(self).video_queues(), unit@) {
                keyframe_asked(*old(control))
            } else {
                *old(control)
            },
    {
        let ghost start = self.video;
        let ghost start_queues = self.video_queues();
        let mut overflowed: bool = false;
        let mut k: usize = 0;
        proof {
            start.lemma_items();
        }
        while k < self.video.len()
            invariant
                k <= self.video.order().len(),
                self.video.wf(),
                self.audio == old(self).audio,
                self.has_audio == old(self).has_audio,
                start == old(self).video,
                start.wf(),
                start_queues == queue_models(start@),
                self.video.order() == start.order(),
                self.video.items().len() == start.items().len(),
                start.order().len() == start.items().len(),
                start.order().no_duplicates(),
                self.video@.dom() == start@.dom(),
                forall|i: int|
                    0 <= i < start.order().len() ==> start@.contains_key(#[trigger] start.order()[i])
                        && start@[start.order()[i]] == start.items()[i],
                forall|id: Seq<char>| #[trigger] start@.contains_key(id) ==> start@[id]@.wf(),
                forall|id: Seq<char>| #[trigger] start@.contains_key(id) ==> start.order().contains(
                    id,
                ),
                forall|i: int|
                    0 <= i < k ==> self.video@[#[trigger] start.order()[i]]@
                        == start@[start.order()[i]]@.pushed(unit@).0,
                forall|i: int|
                    k <= i < start.order().len() ==> self.video@[#[trigger] start.order()[i]]
                        == start@[start.order()[i]],
                forall|i: int|
                    k <= i < start.order().len() ==> #[trigger] self.video.items()[i]
                        == start.items()[i],
                overflowed == exists|i: int|
                    0 <= i < k && start@[#[trigger] start.order()[i]]@.pushed(unit@).1
                        == AccessUnitPushResult::DroppedUntilKeyframe,
            decreases start.order().len() - k,
        {
            let ghost before = self.video@;
            let ghost id = start.order()[k as int];
            proof {
                self.video.lemma_items();
                assert(start@.contains_key(id));
                assert(self.video.items()[k as int] == start@[id]);
            }
            let result: AccessUnitPushResult = self.push_one(k, unit);
            if result == AccessUnitPushResult::DroppedUntilKeyframe {
                overflowed = true;
                assert(start@[start.order()[k as int]]@.pushed(unit@).1
                    == AccessUnitPushResult::DroppedUntilKeyframe);
            }
            k += 1;
            proof {
                assert forall|i: int| 0 <= i < k implies self.video@[#[trigger] start.order()[i]]@
                    == start@[start.order()[i]]@.pushed(unit@).0 by {
                    if i < k - 1 {
                        assert(start.order()[i] != id);
                    }
                }
                assert forall|i: int|
                    k <= i < start.order().len() implies self.video@[#[trigger] start.order()[i]]
                    == start@[start.order()[i]] by {
                    assert(start.order()[i] != id);
                }
                assert(self.video@.dom() =~= start@.dom());
            }
        }
        if overflowed {
            ask_for_keyframe(control);
        }
        proof {
            let now = self.video_queues();
            let wanted = all_pushed(start_queues, unit@);
            assert forall|id: Seq<char>| #[trigger] now.dom().contains(id) implies now[id]
                == wanted[id] && self.video@[id]@.wf() by {
                assert(start@.contains_key(id));
                let i = start.order().index_of(id);
                assert(start.order()[i] == id);
                crate::queue::law_queue_stays_bounded(start@[id]@, seq![unit@]);
                assert(seq![unit@].drop_last() =~= Seq::<AccessUnit>::empty());
                assert(start@[id]@.pushed_all(seq![unit@].drop_last()) == start@[id]@);
            }
            assert(now =~= wanted);
            assert forall|id: Seq<char>| #[trigger] self.video@.contains_key(id) implies
                self.video@[id]@.wf() by {
                assert(now.dom().contains(id));
            }
            if overflows(start_queues, unit@) {
                let id = choose|id: Seq<char>| #[trigger]
                    start_queues.contains_key(id) && start_queues[id].pushed(unit@).1
                        == AccessUnitPushResult::DroppedUntilKeyframe;
                assert(start@.contains_key(id));
                let i = start.order().index_of(id);
                assert(start.order()[i] == id);
                assert(overflowed);
            }
            if overflowed {
                let i = choose|i: int|
                    0 <= i < k && start@[#[trigger] start.order()[i]]@.pushed(unit@).1
                        == AccessUnitPushResult::DroppedUntilKeyframe;
                assert(start_queues.contains_key(start.order()[i]));
            }
        }
    }

    /// Pushes an access unit to the viewer at one position.
    fn push_one(&mut self, k: usize, unit: &EncodedAccessUnit) -> (result: AccessUnitPushResult)
        requires
            old(self).video.wf(),
            k < old(self).video.order().len(),
            old(self).video.items()[k as int]@.wf(),
        ensures
            final(self).video.wf(),
            final(self).audio == old(self).audio,
            final(self).has_audio == old(self).has_audio,
            final(self).video.order() == old(self).video.order(),
            final(self).video.items().len() == old(self).video.items().len(),
            forall|i: int|
                0 <= i < old(self).video.items().len() && i != k ==> #[trigger] final(self).video.items()[i]
                    == old(self).video.items()[i],
            ({
                let id = old(self).video.order()[k as int];
                &&& final(self).video@ == old(self).video@.insert(id, final(self).video@[id])
                &&& final(self).video@[id]@ == old(self).video.items()[k as int]@.pushed(unit@).0
                &&& result == old(self).video.items()[k as int]@.pushed(unit@).1
            }),
    {
        proof {
            self.video.lemma_items();
        }
        let mut queue = AccessUnitQueue::bounded(1);
        self.video.swap_at(k, &mut queue);
        let result: AccessUnitPushResult = queue.try_push(unit.clone());
        self.video.swap_at(k, &mut queue);
        proof {
            let id = old(self).video.order()[k as int];
            assert(self.video@ =~= old(self).video@.insert(id, self.video@[id]));
        }
        result
    }

    /// Offers an audio packet to every viewer. A viewer whose queue is full misses it.
    pub fn push_audio(&mut self, packet: &EncodedAudioPacket)
        requires
            old(self).wf(),
        ensures
            final(self).wf(),
            final(self).carries_audio() == old(self).carries_audio(),
            final(self).video_queues() == old(self).video_queues(),
            final(self).audio_queues() == all_offered(
                old(self).audio_queues(),
                packet_view(*packet),
            ),
    {
        let ghost start = self.audio;
        let ghost start_queues = self.audio_queues();
        let ghost sent = packet_view(*packet);
        let mut k: usize = 0;
        proof {
            start.lemma_items();
        }
        while k < self.audio.len()
            invariant
                k <= self.audio.order().len(),
                self.audio.wf(),
                self.video == old(self).video,
                self.has_audio == old(self).has_audio,
                start == old(self).audio,
                start.wf(),
                sent == packet_view(*packet),
                self.audio.order() == start.order(),
                self.audio.items().len() == start.items().len(),
                start.order().len() == start.items().len(),
                start.order().no_duplicates(),
                self.audio@.dom() == start@.dom(),
                forall|i: int|
                    0 <= i < start.order().len() ==> start@.contains_key(#[trigger] start.order()[i])
                        && start@[start.order()[i]] == start.items()[i],
                forall|id: Seq<char>| #[trigger] start@.contains_key(id) ==> start.order().contains(
                    id,
                ),
                forall|i: int|
                    0 <= i < k ==> self.audio@[#[trigger] start.order()[i]]@ == offered(
                        start@[start.order()[i]]@,
                        sent,
                    ),
                forall|i: int|
                    k <= i < start.order().len() ==> self.audio@[#[trigger] start.order()[i]]
                        == start@[start.order()[i]],
                forall|i: int|
                    k <= i < start.order().len() ==> #[trigger] self.audio.items()[i]
                        == start.items()[i],
            decreases start.order().len() - k,
        {
            let ghost id = start.order()[k as int];
            let ghost before = self.audio@;
            proof {
                self.audio.lemma_items();
                assert(start@.contains_key(id));
                assert(self.audio.items()[k as int] == start@[id]);
            }
            let mut queue = AudioQueue::new();
            self.audio.swap_at(k, &mut queue);
            let _ = queue.try_send(packet.clone());
            self.audio.swap_at(k, &mut queue);
            k += 1;
            proof {
                assert(self.audio@ =~= before.insert(id, self.audio@[id]));
                assert forall|i: int| 0 <= i < k implies self.audio@[#[trigger] start.order()[i]]@
                    == offered(start@[start.order()[i]]@, sent) by {
                    if i < k - 1 {
                        assert(start.order()[i] != id);
                    }
                }
                assert forall|i: int|
                    k <= i < start.order().len() implies self.audio@[#[trigger] start.order()[i]]
                    == start@[start.order()[i]] by {
                    assert(start.order()[i] != id);
                }
                assert(self.audio@.dom() =~= start@.dom());
            }
        }
        proof {
            let now = self.audio_queues();
            let wanted = all_offered(start_queues, sent);
            assert forall|id: Seq<char>| #[trigger] now.dom().contains(id) implies now[id]
                == wanted[id] by {
                assert(start@.contains_key(id));
                let i = start.order().index_of(id);
                assert(start.order()[i] == id);
            }
            assert(now =~= wanted);
        }
    }

    /// One turn of the fanout: the oldest access unit and the oldest audio packet go to
    /// every viewer. It does not go on once it is shut down, or once the video is closed
    /// and used up.
    pub fn turn(
        &mut self,
        control: &mut Option<EncoderControl>,
        video: &mut AccessUnitQueue,
        audio: &mut AudioQueue,
        shutdown: bool,
    ) -> (goes_on: bool)
        requires
            old(self).wf(),
            old(video)@.wf(),
        ensures
            final(self).wf(),
            final(video)@.wf(),
            final(self).carries_audio() == old(self).carries_audio(),
            goes_on == (!shutdown && (old(video)@.units.len() > 0 || !old(video)@.closed)),
            ({
                let before = TurnModel {
                    viewers: old(self).video_queues(),
                    listeners: old(self).audio_queues(),
                    control: *old(control),
                    video: old(video)@,
                    audio: old(audio)@,
                };
                &&& goes_on == turn_goes_on(before, shutdown)
                &&& turned(before, shutdown) == (TurnModel {
                    viewers: final(self).video_queues(),
                    listeners: final(self).audio_queues(),
                    control: *final(control),
                    video: final(video)@,
                    audio: final(audio)@,
                })
            }),
            ({
                let unit = old(video)@.units[0];
                let pushes = goes_on && old(video)@.units.len() > 0;
                &&& final(self).video_queues() == if pushes {
                    all_pushed(old(self).video_queues(), unit)
                } else {
                    old(self).video_queues()
                }
                &&& *final(control) == if pushes && overflows(old(self).video_queues(), unit) {
                    keyframe_asked(*old(control))
                } else {
                    *old(control)
                }
            }),
            final(video)@ == if goes_on {
                old(video)@.popped()
            } else {
                old(video)@
            },
            ({
                let offers = goes_on && old(audio)@.len() > 0;
                &&& final(self).audio_queues() == if offers {
                    all_offered(old(self).audio_queues(), old(audio)@[0])
                } else {
                    old(self).audio_queues()
                }
                &&& final(audio)@ == if offers {
                    old(audio)@.skip(1)
                } else {
                    old(audio)@
                }
            }),
    {
        if shutdown {
            return false;
        }
        match video.try_recv() {
            Some(unit) => {
                self.push_video(control, &unit);
            },
            None => {
                assert(old(video)@.popped() == old(video)@);
                if video.is_closed() {
                    return false;
                }
            },
        }
        if let Some(packet) = audio.try_recv() {
            self.push_audio(&packet);
        }
        true
    }

    /// Takes the oldest audio packet of a viewer.
    pub fn recv_audio(&mut self, id: &str) -> (packet: Option<EncodedAudioPacket>)
        requires
            old(self).wf(),
        ensures
            final(self).wf(),
            final(self).carries_audio() == old(self).carries_audio(),
            final(self).video_queues() == old(self).video_queues(),
            packet is Some <==> old(self).audio_queues().contains_key(id@)
                && old(self).audio_queues()[id@].len() > 0,
            packet matches Some(first) ==> packet_view(first) == old(self).audio_queues()[id@][0]
                && final(self).audio_queues() == old(self).audio_queues().insert(
                id@,
                old(self).audio_queues()[id@].skip(1),
            ),
            packet is None ==> final(self).audio_queues() == old(self).audio_queues(),
    {
        match self.audio.position(id) {
            None => None,
            Some(k) => {
                proof {
                    self.audio.lemma_items();
                }
                let mut queue = AudioQueue::new();
                self.audio.swap_at(k, &mut queue);
                let packet = queue.try_recv();
                self.audio.swap_at(k, &mut queue);
                proof {
                    if packet is Some {
                        assert(self.audio_queues() =~= old(self).audio_queues().insert(
                            id@,
                            old(self).audio_queues()[id@].skip(1),
                        ));
                    } else {
                        assert(self.audio_queues() =~= old(self).audio_queues());
                    }
                }
                packet
            },
        }
    }

    /// Takes the oldest access unit of a viewer.
    pub fn recv_video(&mut self, id: &str) -> (unit: Option<EncodedAccessUnit>)
        requires
            old(self).wf(),
        ensures
            final(self).wf(),
            final(self).carries_audio() == old(self).carries_audio(),
            final(self).audio_queues() == old(self).audio_queues(),
            unit is Some <==> old(self).video_queues().contains_key(id@)
                && old(self).video_queues()[id@].units.len() > 0,
            unit matches Some(first) ==> first@ == old(self).video_queues()[id@].units[0],
            final(self).video_queues() == if old(self).video_queues().contains_key(id@) {
                old(self).video_queues().insert(id@, old(self).video_queues()[id@].popped())
            } else {
                old(self).video_queues()
            },
    {
        match self.video.position(id) {
            None => None,
            Some(k) => {
                proof {
                    self.video.lemma_items();
                }
                let mut queue = AccessUnitQueue::bounded(1);
                self.video.swap_at(k, &mut queue);
                let unit = queue.try_recv();
                self.video.swap_at(k, &mut queue);
                assert(self.video_queues() =~= old(self).video_queues().insert(
                    id@,
                    old(self).video_queues()[id@].popped(),
                ));
                unit
            },
        }
    }
}

/// One viewer that overflows leaves every other viewer's queue as if that viewer
/// were not there.
pub proof fn law_overflow_stays_with_its_viewer(
    queues: Map<Seq<char>, QueueModel>,
    slow: Seq<char>,
    id: Seq<char>,
    unit: AccessUnit,
)
    requires
        queues.contains_key(id),
        id != slow,
    ensures
        all_pushed(queues, unit)[id] == all_pushed(queues.remove(slow), unit)[id],
        all_pushed(queues, unit)[id] == queues[id].pushed(unit).0,
{
}

/// A keyframe reaches every viewer whose queue is open, however full, and asks for
/// no further keyframe.
pub proof fn law_keyframe_reaches_everyone(queues: Map<Seq<char>, QueueModel>, unit: AccessUnit)
    requires
        unit.keyframe,
        forall|id: Seq<char>| #[trigger]
            queues.contains_key(id) ==> queues[id].wf() && !queues[id].closed,
    ensures
        !overflows(queues, unit),
        forall|id: Seq<char>|
            queues.contains_key(id) ==> (#[trigger] all_pushed(queues, unit)[id]).units.last()
                == unit,
{
}

/// What became of a worker that was asked to end.
#[derive(Clone, Copy, Debug, PartialEq, Eq, Structural)]
pub enum WorkerEnd {
    /// There is no worker.
    Absent,
    /// It did not end in time.
    Running,
    /// It ended and was joined.
    Joined,
    /// It panicked.
    Panicked,
}

/// Whether a shutdown is complete, what is still running and what went wrong.
#[derive(Debug, PartialEq, Eq)]
pub struct ShutdownStatus {
    pub quiesced: bool,
    pub pending: Vec<String>,
    pub errors: Vec<String>,
}

/// The optional text as a list.
pub open spec fn text_list(text: Option<Seq<char>>) -> Seq<Seq<char>> {
    match text {
        Some(chars) => seq![chars],
        None => Seq::empty(),
    }
}

/// The status of a fanout that was asked to end, given why its worker could not be
/// started, if so, and what became of it.
pub fn fanout_shutdown(worker_error: Option<String>, end: WorkerEnd) -> (status: ShutdownStatus)
    ensures
        status.quiesced == (worker_error is None && end != WorkerEnd::Running && end
            != WorkerEnd::Panicked),
        texts(status.pending@) == if end == WorkerEnd::Running {
            seq!["fanout worker"@]
        } else {
            Seq::empty()
        },
        texts(status.errors@) == text_list(crate::text::opt_text(worker_error)) + if end
            == WorkerEnd::Panicked {
            seq!["fanout worker panicked"@]
        } else {
            Seq::empty()
        },
{
    let mut quiesced: bool = worker_error.is_none();
    let mut pending: Vec<String> = Vec::new();
    let mut errors: Vec<String> = Vec::new();
    if let Some(text) = worker_error {
        errors.push(text);
    }
    match end {
        WorkerEnd::Absent => {},
        WorkerEnd::Joined => {},
        WorkerEnd::Running => {
            quiesced = false;
            pending.push("fanout worker".to_owned());
        },
        WorkerEnd::Panicked => {
            quiesced = false;
            errors.push("fanout worker panicked".to_owned());
        },
    }
    let status = ShutdownStatus { quiesced, pending, errors };
    assert(texts(status.pending@) =~= if end == WorkerEnd::Running {
        seq!["fanout worker"@]
    } else {
        Seq::empty()
    });
    assert(texts(status.errors@) =~= text_list(crate::text::opt_text(worker_error)) + if end
        == WorkerEnd::Panicked {
        seq!["fanout worker panicked"@]
    } else {
        Seq::empty()
    });
    status
}

/// Every viewer gets every unit: one whose queue is open and has room has it last, behind
/// what it had, and nobody comes or goes. A keyframe is asked for exactly where the unit is
/// none and finds some open queue full or waiting.
pub proof fn law_units_reach_every_viewer(
    queues: Map<Seq<char>, QueueModel>,
    unit: AccessUnit,
    id: Seq<char>,
)
    requires
        forall|viewer: Seq<char>| #[trigger] queues.contains_key(viewer) ==> queues[viewer].wf(),
    ensures
        all_pushed(queues, unit).dom() == queues.dom(),
        queues.contains_key(id) && !queues[id].closed && !queues[id].recovering
            && queues[id].units.len() < queues[id].capacity ==> all_pushed(queues, unit)[id].units
            == queues[id].units + seq![unit],
        queues.contains_key(id) && queues[id].closed ==> all_pushed(queues, unit)[id] == queues[id],
        overflows(queues, unit) <==> !unit.keyframe && exists|viewer: Seq<char>| #[trigger]
            queues.contains_key(viewer) && !queues[viewer].closed && (queues[viewer].recovering
                || queues[viewer].units.len() >= queues[viewer].capacity),
{
    assert(all_pushed(queues, unit).dom() =~= queues.dom());
    if queues.contains_key(id) && !queues[id].closed && !queues[id].recovering
        && queues[id].units.len() < queues[id].capacity {
        assert(all_pushed(queues, unit)[id].units =~= queues[id].units + seq![unit]);
    }
    if overflows(queues, unit) {
        let viewer = choose|viewer: Seq<char>| #[trigger]
            queues.contains_key(viewer) && queues[viewer].pushed(unit).1
                == AccessUnitPushResult::DroppedUntilKeyframe;
        assert(queues.contains_key(viewer) && !queues[viewer].closed && (queues[viewer].recovering
            || queues[viewer].units.len() >= queues[viewer].capacity));
    }
    if !unit.keyframe && exists|viewer: Seq<char>| #[trigger]
        queues.contains_key(viewer) && !queues[viewer].closed && (queues[viewer].recovering
            || queues[viewer].units.len() >= queues[viewer].capacity) {
        let viewer = choose|viewer: Seq<char>| #[trigger]
            queues.contains_key(viewer) && !queues[viewer].closed && (queues[viewer].recovering
                || queues[viewer].units.len() >= queues[viewer].capacity);
        assert(queues.contains_key(viewer));
        assert(queues[viewer].pushed(unit).1 == AccessUnitPushResult::DroppedUntilKeyframe);
    }
}

/// Every viewer gets every sound while there is room for it, in order, and holds no more
/// than sixteen; one that is full misses it and keeps what it has.
pub proof fn law_sounds_reach_every_viewer(
    queues: Map<Seq<char>, Seq<AudioPacket>>,
    packet: AudioPacket,
    id: Seq<char>,
)
    ensures
        all_offered(queues, packet).dom() == queues.dom(),
        queues.contains_key(id) && queues[id].len() < 16 ==> all_offered(queues, packet)[id]
            == queues[id] + seq![packet],
        queues.contains_key(id) && queues[id].len() >= 16 ==> all_offered(queues, packet)[id]
            == queues[id],
{
    assert(all_offered(queues, packet).dom() =~= queues.dom());
    if queues.contains_key(id) && queues[id].len() < 16 {
        assert(all_offered(queues, packet)[id] =~= queues[id] + seq![packet]);
    }
}

/// A newcomer starts with empty, open queues for one group of pictures, whatever was there
/// under its name, and is owed a keyframe; nobody else's queues change. One that leaves
/// takes its own queues along and no other.
pub proof fn law_viewers_come_and_go_alone(
    video: Map<Seq<char>, QueueModel>,
    audio: Map<Seq<char>, Seq<AudioPacket>>,
    has_audio: bool,
    id: Seq<char>,
    other: Seq<char>,
    control: EncoderControl,
)
    requires
        other != id,
    ensures
        ({
            let (pictures, sounds) = subscribed(video, audio, has_audio, id);
            &&& pictures.contains_key(id)
            &&& pictures[id].units.len() == 0
            &&& pictures[id].capacity == 16
            &&& !pictures[id].closed
            &&& !pictures[id].recovering
            &&& has_audio ==> sounds.contains_key(id) && sounds[id].len() == 0
            &&& !has_audio ==> sounds == audio
            &&& pictures.contains_key(other) == video.contains_key(other)
            &&& video.contains_key(other) ==> pictures[other] == video[other]
            &&& sounds.contains_key(other) == audio.contains_key(other)
            &&& audio.contains_key(other) ==> sounds[other] == audio[other]
        }),
        ({
            let (pictures, sounds) = unsubscribed(video, audio, id);
            &&& !pictures.contains_key(id)
            &&& !sounds.contains_key(id)
            &&& pictures.contains_key(other) == video.contains_key(other)
            &&& video.contains_key(other) ==> pictures[other] == video[other]
            &&& sounds.contains_key(other) == audio.contains_key(other)
            &&& audio.contains_key(other) ==> sounds[other] == audio[other]
        }),
        keyframe_asked(Some(control)) matches Some(asked) && asked.keyframe_requested
            && asked.target == control.target && asked.bitrate == control.bitrate
            && asked.stop_requested == control.stop_requested,
        keyframe_asked(None) is None,
{
}

/// A turn hands the oldest picture and the oldest sound on, once each, and loses nothing
/// that waits behind them. It ends where the fanout is shut down, or where the video is
/// closed and used up, and then changes nothing.
pub proof fn law_turn_hands_on_the_oldest(turn: TurnModel, shutdown: bool)
    ensures
        turn_goes_on(turn, shutdown) <==> !shutdown && !(turn.video.closed && turn.video.units.len()
            == 0),
        !turn_goes_on(turn, shutdown) ==> turned(turn, shutdown) == turn,
        turn_goes_on(turn, shutdown) && turn.video.units.len() > 0 ==> {
            &&& turned(turn, shutdown).viewers == all_pushed(turn.viewers, turn.video.units[0])
            &&& seq![turn.video.units[0]] + turned(turn, shutdown).video.units == turn.video.units
            &&& turned(turn, shutdown).control == if overflows(turn.viewers, turn.video.units[0]) {
                keyframe_asked(turn.control)
            } else {
                turn.control
            }
        },
        turn_goes_on(turn, shutdown) && turn.video.units.len() == 0 ==> {
            &&& turned(turn, shutdown).viewers == turn.viewers
            &&& turned(turn, shutdown).control == turn.control
            &&& turned(turn, shutdown).video.units.len() == 0
        },
        turn_goes_on(turn, shutdown) && turn.audio.len() > 0 ==> {
            &&& turned(turn, shutdown).listeners == all_offered(turn.listeners, turn.audio[0])
            &&& seq![turn.audio[0]] + turned(turn, shutdown).audio == turn.audio
        },
        turn_goes_on(turn, shutdown) && turn.audio.len() == 0 ==> {
            &&& turned(turn, shutdown).listeners == turn.listeners
            &&& turned(turn, shutdown).audio == turn.audio
        },
{
    if turn_goes_on(turn, shutdown) && turn.video.units.len() > 0 {
        assert(seq![turn.video.units[0]] + turned(turn, shutdown).video.units =~= turn.video.units);
    }
    if turn_goes_on(turn, shutdown) && turn.audio.len() > 0 {
        assert(seq![turn.audio[0]] + turned(turn, shutdown).audio =~= turn.audio);
    }
}

} // verus!
