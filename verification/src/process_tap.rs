//! System audio capture: which applications are left out, and how sound is cut
//! into packets.

use vstd::prelude::*;
use crate::bytes::{be32, read_be32};
use crate::text::{
    chars_of, contains_text, lower_chars, lowercase, occurs_at, occurs_in, opt_text, push_signed,
    push_text, signed, trim_chars, trimmed,
};

verus! {

/// Samples of one stereo Opus frame of 20 ms at 48 kHz.
pub const OPUS_FRAME_SAMPLES: usize = 1920;

/// One encoded audio packet.
#[derive(Debug, PartialEq, Eq)]
pub struct EncodedAudioPacket {
    pub data: Vec<u8>,
    pub duration_micros: u64,
}

impl Clone for EncodedAudioPacket {
    fn clone(&self) -> (copy: Self)
        ensures
            copy.data@ == self.data@,
            copy.duration_micros == self.duration_micros,
    {
        EncodedAudioPacket {
            data: crate::bytes::copy_bytes(self.data.as_slice()),
            duration_micros: self.duration_micros,
        }
    }
}

/// A running application.
#[derive(Debug, PartialEq, Eq)]
pub struct NativeRunningApp {
    pub name: String,
    pub bundle_id: Option<String>,
    pub pid: i32,
}

/// An audio process object with the process behind it.
#[derive(Debug, PartialEq, Eq)]
pub struct AudioProcess {
    pub object: u32,
    pub pid: i32,
    pub name: String,
}

/// The characters of an optional borrowed text.
pub open spec fn opt_str(text: Option<&str>) -> Option<Seq<char>> {
    match text {
        Some(chars) => Some(chars@),
        None => None,
    }
}

/// A token excludes an application if, apart from case and outer white space, it is
/// not empty and stands in the name or in the bundle identifier.
pub open spec fn excluded_by(
    name: Seq<char>,
    bundle_id: Option<Seq<char>>,
    token: Seq<char>,
) -> bool {
    let wanted = lowercase(trimmed(token));
    &&& wanted.len() > 0
    &&& occurs_in(lowercase(name), wanted) || match bundle_id {
        Some(bundle) => occurs_in(lowercase(bundle), wanted),
        None => false,
    }
}

/// Whether a token excludes an application. A short token such as a product name
/// also excludes every helper process of that product.
pub fn app_excluded_by_token(name: &str, bundle_id: Option<&str>, token: &str) -> (excluded: bool)
    ensures
        excluded == excluded_by(name@, opt_str(bundle_id), token@),
{
    let wanted = lower_chars(&trim_chars(&chars_of(token)));
    if wanted.len() == 0 {
        return false;
    }
    if contains_text(&lower_chars(&chars_of(name)), &wanted) {
        return true;
    }
    match bundle_id {
        Some(bundle) => contains_text(&lower_chars(&chars_of(bundle)), &wanted),
        None => false,
    }
}

/// Some token of the list excludes the application.
pub open spec fn excluded_by_any(
    name: Seq<char>,
    bundle_id: Option<Seq<char>>,
    tokens: Seq<String>,
) -> bool {
    exists|k: int|
        0 <= k < tokens.len() && excluded_by(name, bundle_id, (#[trigger] tokens[k])@)
}

fn app_excluded_by_any(name: &str, bundle_id: Option<&str>, tokens: &Vec<String>) -> (excluded: bool)
    ensures
        excluded == excluded_by_any(name@, opt_str(bundle_id), tokens@),
{
    let mut k: usize = 0;
    while k < tokens.len()
        invariant
            k <= tokens@.len(),
            forall|j: int|
                0 <= j < k ==> !excluded_by(name@, opt_str(bundle_id), (#[trigger] tokens@[j])@),
        decreases tokens@.len() - k,
    {
        if app_excluded_by_token(name, bundle_id, tokens[k].as_str()) {
            return true;
        }
        k += 1;
    }
    false
}

/// A running application with the audio process object that its process maps to.
#[derive(Debug, PartialEq, Eq)]
pub struct TappedApp {
    pub app: NativeRunningApp,
    pub object: Option<u32>,
}

/// The application is excluded by a token.
pub open spec fn app_matched(app: NativeRunningApp, tokens: Seq<String>) -> bool {
    excluded_by_any(app.name@, opt_text(app.bundle_id), tokens)
}

/// The object belongs to an excluded application, or to a process that carries the
/// number of one or is excluded by its own name.
pub open spec fn object_excluded(
    apps: Seq<TappedApp>,
    tokens: Seq<String>,
    audio: Seq<AudioProcess>,
    object: u32,
) -> bool {
    ||| exists|k: int|
        0 <= k < apps.len() && app_matched((#[trigger] apps[k]).app, tokens) && apps[k].object
            == Some(object)
    ||| exists|k: int|
        0 <= k < audio.len() && (#[trigger] audio[k]).object == object && process_excluded(
            apps,
            tokens,
            audio[k],
        )
}

/// An audio process is excluded by the number of a matched application or by name.
pub open spec fn process_excluded(
    apps: Seq<TappedApp>,
    tokens: Seq<String>,
    process: AudioProcess,
) -> bool {
    ||| excluded_by_any(process.name@, None, tokens)
    ||| exists|j: int|
        0 <= j < apps.len() && app_matched((#[trigger] apps[j]).app, tokens) && apps[j].app.pid
            == process.pid
}

fn is_process_excluded(apps: &Vec<TappedApp>, tokens: &Vec<String>, process: &AudioProcess) -> (found:
    bool)
    ensures
        found == process_excluded(apps@, tokens@, *process),
{
    if app_excluded_by_any(process.name.as_str(), None, tokens) {
        return true;
    }
    let mut j: usize = 0;
    while j < apps.len()
        invariant
            j <= apps@.len(),
            forall|i: int|
                0 <= i < j ==> !(app_matched((#[trigger] apps@[i]).app, tokens@)
                    && apps@[i].app.pid == process.pid),
        decreases apps@.len() - j,
    {
        if apps[j].app.pid == process.pid && is_app_matched(&apps[j].app, tokens) {
            return true;
        }
        j += 1;
    }
    false
}

fn is_app_matched(app: &NativeRunningApp, tokens: &Vec<String>) -> (found: bool)
    ensures
        found == app_matched(*app, tokens@),
{
    match &app.bundle_id {
        Some(bundle) => app_excluded_by_any(app.name.as_str(), Some(bundle.as_str()), tokens),
        None => app_excluded_by_any(app.name.as_str(), None, tokens),
    }
}

fn holds(objects: &Vec<u32>, object: u32) -> (found: bool)
    ensures
        found == objects@.contains(object),
{
    let mut i: usize = 0;
    while i < objects.len()
        invariant
            i <= objects@.len(),
            forall|j: int| 0 <= j < i ==> objects@[j] != object,
        decreases objects@.len() - i,
    {
        if objects[i] == object {
            return true;
        }
        i += 1;
    }
    false
}

/// The objects of the applications that the tokens exclude, in the order of the
/// applications.
pub open spec fn app_objects(apps: Seq<TappedApp>, tokens: Seq<String>) -> Seq<u32>
    decreases apps.len(),
{
    if apps.len() == 0 {
        Seq::empty()
    } else {
        let before = app_objects(apps.drop_last(), tokens);
        match apps.last().object {
            Some(object) if app_matched(apps.last().app, tokens) => before.push(object),
            _ => before,
        }
    }
}

/// The objects of the excluded applications, and behind them, in its order, every excluded
/// audio object that is not in the list yet.
pub open spec fn excluded_objects(
    apps: Seq<TappedApp>,
    tokens: Seq<String>,
    audio: Seq<AudioProcess>,
) -> Seq<u32>
    decreases audio.len(),
{
    if audio.len() == 0 {
        app_objects(apps, tokens)
    } else {
        let before = excluded_objects(apps, tokens, audio.drop_last());
        let process = audio.last();
        if !before.contains(process.object) && process_excluded(apps, tokens, process) {
            before.push(process.object)
        } else {
            before
        }
    }
}

proof fn lemma_pushed(list: Seq<u32>, object: u32, other: u32)
    ensures
        list.push(object).contains(other) <==> list.contains(other) || other == object,
{
    let longer = list.push(object);
    if list.contains(other) {
        assert(longer[list.index_of(other)] == other);
    }
    assert(longer[list.len() as int] == object);
    if longer.contains(other) && other != object {
        assert(list[longer.index_of(other)] == other);
    }
}

proof fn lemma_app_objects(apps: Seq<TappedApp>, tokens: Seq<String>, object: u32)
    ensures
        app_objects(apps, tokens).contains(object) <==> exists|k: int|
            0 <= k < apps.len() && app_matched((#[trigger] apps[k]).app, tokens) && apps[k].object
                == Some(object),
    decreases apps.len(),
{
    if apps.len() > 0 {
        let rest = apps.drop_last();
        let last = apps.len() - 1;
        lemma_app_objects(rest, tokens, object);
        if let Some(found) = apps.last().object {
            lemma_pushed(app_objects(rest, tokens), found, object);
        }
        if app_objects(rest, tokens).contains(object) {
            let k = choose|k: int|
                0 <= k < rest.len() && app_matched((#[trigger] rest[k]).app, tokens)
                    && rest[k].object == Some(object);
            assert(apps[k] == rest[k]);
        }
        if app_objects(apps, tokens).contains(object) && !app_objects(rest, tokens).contains(
            object,
        ) {
            assert(apps[last] == apps.last());
        }
        if exists|k: int|
            0 <= k < apps.len() && app_matched((#[trigger] apps[k]).app, tokens) && apps[k].object
                == Some(object) {
            let k = choose|k: int|
                0 <= k < apps.len() && app_matched((#[trigger] apps[k]).app, tokens)
                    && apps[k].object == Some(object);
            if k < last {
                assert(rest[k] == apps[k]);
            }
        }
    }
}

/// The tokens exclude exactly the objects of matched applications and of processes that
/// carry the number of one or are excluded by name.
pub proof fn law_exclusions_are_complete(
    apps: Seq<TappedApp>,
    tokens: Seq<String>,
    audio: Seq<AudioProcess>,
    object: u32,
)
    ensures
        excluded_objects(apps, tokens, audio).contains(object) <==> object_excluded(
            apps,
            tokens,
            audio,
            object,
        ),
    decreases audio.len(),
{
    if audio.len() == 0 {
        lemma_app_objects(apps, tokens, object);
    } else {
        let rest = audio.drop_last();
        let last = audio.len() - 1;
        let before = excluded_objects(apps, tokens, rest);
        law_exclusions_are_complete(apps, tokens, rest, object);
        lemma_pushed(before, audio.last().object, object);
        if object_excluded(apps, tokens, rest, object) && exists|k: int|
            0 <= k < rest.len() && (#[trigger] rest[k]).object == object && process_excluded(
                apps,
                tokens,
                rest[k],
            ) {
            let k = choose|k: int|
                0 <= k < rest.len() && (#[trigger] rest[k]).object == object && process_excluded(
                    apps,
                    tokens,
                    rest[k],
                );
            assert(audio[k] == rest[k]);
        }
        if excluded_objects(apps, tokens, audio).contains(object) && !before.contains(object) {
            assert(audio[last] == audio.last());
        }
        if exists|k: int|
            0 <= k < audio.len() && (#[trigger] audio[k]).object == object && process_excluded(
                apps,
                tokens,
                audio[k],
            ) {
            let k = choose|k: int|
                0 <= k < audio.len() && (#[trigger] audio[k]).object == object && process_excluded(
                    apps,
                    tokens,
                    audio[k],
                );
            if k < last {
                assert(rest[k] == audio[k]);
            }
        }
    }
}

/// The audio process objects that the tokens exclude, those of applications first.
pub fn process_objects_for_bundles(
    apps: &Vec<TappedApp>,
    tokens: &Vec<String>,
    audio: &Vec<AudioProcess>,
) -> (objects: Vec<u32>)
    ensures
        objects@ == excluded_objects(apps@, tokens@, audio@),
{
    let mut objects: Vec<u32> = Vec::new();
    let mut k: usize = 0;
    assert(apps@.take(0) =~= Seq::<TappedApp>::empty());
    while k < apps.len()
        invariant
            k <= apps@.len(),
            objects@ == app_objects(apps@.take(k as int), tokens@),
        decreases apps@.len() - k,
    {
        assert(apps@.take(k as int + 1).drop_last() =~= apps@.take(k as int));
        assert(apps@.take(k as int + 1).last() == apps@[k as int]);
        if is_app_matched(&apps[k].app, tokens) {
            if let Some(object) = apps[k].object {
                objects.push(object);
            }
        }
        k += 1;
    }
    assert(apps@.take(k as int) =~= apps@);
    let mut k: usize = 0;
    assert(audio@.take(0) =~= Seq::<AudioProcess>::empty());
    while k < audio.len()
        invariant
            k <= audio@.len(),
            objects@ == excluded_objects(apps@, tokens@, audio@.take(k as int)),
        decreases audio@.len() - k,
    {
        assert(audio@.take(k as int + 1).drop_last() =~= audio@.take(k as int));
        assert(audio@.take(k as int + 1).last() == audio@[k as int]);
        let object: u32 = audio[k].object;
        if !holds(&objects, object) {
            if is_process_excluded(apps, tokens, &audio[k]) {
                objects.push(object);
            }
        }
        k += 1;
    }
    assert(audio@.take(k as int) =~= audio@);
    objects
}

/// A list in which each number is greater than the one before it.
pub open spec fn strictly_ascending(list: Seq<u32>) -> bool {
    forall|i: int, j: int| 0 <= i < j < list.len() ==> list[i] < list[j]
}

/// Puts a number in its place in an ascending list, unless it is there already.
fn insert_ascending(list: &mut Vec<u32>, object: u32)
    requires
        strictly_ascending(old(list)@),
    ensures
        strictly_ascending(final(list)@),
        forall|other: u32| #[trigger]
            final(list)@.contains(other) <==> old(list)@.contains(other) || other == object,
{
    let mut i: usize = 0;
    while i < list.len() && list[i] < object
        invariant
            i <= list@.len(),
            list@ == old(list)@,
            strictly_ascending(list@),
            forall|j: int| 0 <= j < i ==> list@[j] < object,
        decreases list@.len() - i,
    {
        i += 1;
    }
    if i < list.len() && list[i] == object {
        assert(old(list)@.contains(object));
        return ;
    }
    let ghost before = list@;
    list.insert(i, object);
    assert(list@[i as int] == object);
    assert forall|a: int, b: int| 0 <= a < b < list@.len() implies list@[a] < list@[b] by {
        let a0 = if a < i {
            a
        } else {
            a - 1
        };
        let b0 = if b < i {
            b
        } else {
            b - 1
        };
        if a != i {
            assert(list@[a] == before[a0]);
        }
        if b != i {
            assert(list@[b] == before[b0]);
        }
        if i < before.len() {
            assert(before[i as int] > object);
        }
    }
    assert forall|other: u32| #[trigger] list@.contains(other) implies before.contains(other)
        || other == object by {
        let k = choose|k: int| 0 <= k < list@.len() && list@[k] == other;
        if k < i {
            assert(before[k] == other);
        } else if k > i {
            assert(before[k - 1] == other);
        }
    }
    assert forall|other: u32| before.contains(other) implies #[trigger] list@.contains(other) by {
        let k = choose|k: int| 0 <= k < before.len() && before[k] == other;
        if k < i {
            assert(list@[k] == other);
        } else {
            assert(list@[k + 1] == other);
        }
    }
}

/// The objects that a tap leaves out: the excluded ones and the own process, each
/// once and in ascending order.
pub fn tap_exclusions(objects: &Vec<u32>, own: Option<u32>) -> (list: Vec<u32>)
    ensures
        strictly_ascending(list@),
        forall|object: u32| #[trigger]
            list@.contains(object) <==> objects@.contains(object) || own == Some(object),
{
    let mut list: Vec<u32> = Vec::new();
    let mut k: usize = 0;
    while k < objects.len()
        invariant
            k <= objects@.len(),
            strictly_ascending(list@),
            forall|object: u32| #[trigger]
                list@.contains(object) <==> objects@.take(k as int).contains(object),
        decreases objects@.len() - k,
    {
        insert_ascending(&mut list, objects[k]);
        k += 1;
        proof {
            let wider = objects@.take(k as int);
            let narrow = objects@.take(k - 1);
            assert forall|object: u32| wider.contains(object) == (narrow.contains(object) || object
                == objects@[k - 1]) by {
                if wider.contains(object) {
                    let i = choose|i: int| 0 <= i < wider.len() && wider[i] == object;
                    if i < k - 1 {
                        assert(narrow[i] == object);
                    }
                }
                if narrow.contains(object) {
                    let i = choose|i: int| 0 <= i < narrow.len() && narrow[i] == object;
                    assert(wider[i] == object);
                }
                if object == objects@[k - 1] {
                    assert(wider[k - 1] == object);
                }
            }
        }
    }
    assert(objects@.take(k as int) =~= objects@);
    if let Some(object) = own {
        insert_ascending(&mut list, object);
    }
    list
}

/// A process plays sound: the object that it maps to runs, or another of its objects does.
pub open spec fn plays_sound(pid: i32, own_running: bool, audio: Seq<(i32, bool)>) -> bool {
    pid > 0 && (own_running || exists|k: int|
        0 <= k < audio.len() && (#[trigger] audio[k]).0 == pid && audio[k].1)
}

/// Whether a process plays sound: it has a positive number, and the object that it
/// maps to or another object of the same process is running output.
pub fn pid_is_emitting_output(pid: i32, own_running: bool, audio: &Vec<(i32, bool)>) -> (emits:
    bool)
    ensures
        emits == plays_sound(pid, own_running, audio@),
        emits == (pid > 0 && (own_running || exists|k: int|
            0 <= k < audio@.len() && (#[trigger] audio@[k]).0 == pid && audio@[k].1)),
{
    if pid <= 0 {
        return false;
    }
    if own_running {
        return true;
    }
    let mut k: usize = 0;
    while k < audio.len()
        invariant
            pid > 0,
            k <= audio@.len(),
            forall|j: int| 0 <= j < k ==> !((#[trigger] audio@[j]).0 == pid && audio@[j].1),
        decreases audio@.len() - k,
    {
        if audio[k].0 == pid && audio[k].1 {
            return true;
        }
        k += 1;
    }
    false
}

/// The audio object of a process, as Core Audio translates its number.
pub fn translated_pid(pid: i32, status: i32, object: u32) -> (result: Result<u32, String>)
    ensures
        result is Ok <==> status == 0 && object != 0,
        result matches Ok(found) ==> found == object,
        result matches Err(message) ==> message@ == "no Core Audio process object for pid "@ + signed(
            pid as int,
        ) + " ("@ + signed(status as int) + ")"@,
{
    if status != 0 || object == 0 {
        let mut message = "no Core Audio process object for pid ".to_owned();
        push_signed(&mut message, pid as i64);
        push_text(&mut message, " (");
        push_signed(&mut message, status as i64);
        push_text(&mut message, ")");
        return Err(message);
    }
    Ok(object)
}

/// The running applications as enumerated, or none where that failed.
pub fn running_applications(enumerated: Result<Vec<NativeRunningApp>, String>) -> (apps: Vec<
    NativeRunningApp,
>)
    ensures
        match enumerated {
            Ok(list) => apps == list,
            Err(_) => apps@.len() == 0,
        },
{
    match enumerated {
        Ok(list) => list,
        Err(_) => Vec::new(),
    }
}

/// The number that four characters of a property selector stand for.
pub fn fourcc(value: &[u8; 4]) -> (code: u32)
    ensures
        code == be32(value@[0], value@[1], value@[2], value@[3]),
{
    read_be32(value[0], value[1], value[2], value[3])
}

/// How many whole Opus frames stand in `pending` samples, and how many samples
/// stay behind.
pub fn opus_frames(pending: usize) -> (cut: (usize, usize))
    ensures
        cut.0 * OPUS_FRAME_SAMPLES + cut.1 == pending,
        cut.1 < OPUS_FRAME_SAMPLES,
{
    (pending / OPUS_FRAME_SAMPLES, pending % OPUS_FRAME_SAMPLES)
}

/// The packet that the encoder wrote: the first `size` bytes of its buffer, for 20
/// milliseconds of sound. An empty frame gives none.
pub fn opus_packet(output: Vec<u8>, size: usize) -> (packet: Option<EncodedAudioPacket>)
    requires
        size <= output@.len(),
    ensures
        packet is Some <==> size > 0,
        packet matches Some(p) ==> p.data@ == output@.take(size as int) && p.duration_micros
            == 20_000,
{
    if size == 0 {
        return None;
    }
    let mut data = output;
    data.truncate(size);
    assert(data@ =~= output@.take(size as int));
    Some(EncodedAudioPacket { data, duration_micros: 20_000 })
}

/// An optional text with ASCII capitals turned into small letters.
pub open spec fn opt_lowercase(text: Option<Seq<char>>) -> Option<Seq<char>> {
    match text {
        Some(chars) => Some(lowercase(chars)),
        None => None,
    }
}

/// Whether a token excludes an application does not depend on how the token, the name
/// and the bundle identifier are capitalised.
pub proof fn law_exclusion_ignores_case(
    name: Seq<char>,
    bundle_id: Option<Seq<char>>,
    token: Seq<char>,
    other_name: Seq<char>,
    other_bundle_id: Option<Seq<char>>,
    other_token: Seq<char>,
)
    requires
        lowercase(name) == lowercase(other_name),
        opt_lowercase(bundle_id) == opt_lowercase(other_bundle_id),
        lowercase(token) == lowercase(other_token),
    ensures
        excluded_by(name, bundle_id, token) == excluded_by(
            other_name,
            other_bundle_id,
            other_token,
        ),
{
    crate::text::lemma_trim_lowercase(token);
    crate::text::lemma_trim_lowercase(other_token);
}

proof fn lemma_occurs_in_longer(front: Seq<char>, text: Seq<char>, back: Seq<char>, wanted: Seq<char>)
    requires
        occurs_in(text, wanted),
    ensures
        occurs_in(front + text + back, wanted),
{
    let whole = front + text + back;
    let i = choose|i: int| occurs_at(text, wanted, i);
    assert(whole.subrange(front.len() + i, front.len() + i + wanted.len()) =~= text.subrange(
        i,
        i + wanted.len(),
    ));
    assert(occurs_at(whole, wanted, front.len() + i));
}

/// A token that excludes an application excludes every helper of it whose name holds the
/// application's name.
pub proof fn law_helpers_are_excluded_too(
    name: Seq<char>,
    front: Seq<char>,
    back: Seq<char>,
    token: Seq<char>,
)
    requires
        excluded_by(name, None, token),
    ensures
        excluded_by(front + name + back, None, token),
        excluded_by(Seq::empty(), Some(front + name + back), token),
{
    let wanted = lowercase(trimmed(token));
    lemma_occurs_in_longer(lowercase(front), lowercase(name), lowercase(back), wanted);
    assert(lowercase(front + name + back) =~= lowercase(front) + lowercase(name) + lowercase(back));
}

/// A token of white space alone excludes nothing.
pub proof fn law_blank_token_excludes_nothing(
    name: Seq<char>,
    bundle_id: Option<Seq<char>>,
    token: Seq<char>,
)
    requires
        forall|i: int| 0 <= i < token.len() ==> crate::text::is_white(#[trigger] token[i]),
    ensures
        !excluded_by(name, bundle_id, token),
{
    crate::text::lemma_trim_blank(token);
}

/// What the setup of a tap does next.
#[derive(Clone, Copy, Debug, PartialEq, Eq, Structural)]
pub enum TapStage {
    /// Describe the tap and the processes that it leaves out.
    Describe,
    CreateTap,
    /// Describe the device that carries the tap.
    DescribeAggregate,
    CreateAggregate,
    /// Register the callback that receives the sound.
    CreateIoProc,
    Start,
    /// Start the worker that encodes the sound.
    Encode,
    Running,
    Failed,
}

impl TapStage {
    /// The place of a stage in the order of the steps.
    pub open spec fn rank(self) -> int {
        match self {
            TapStage::Describe => 0,
            TapStage::CreateTap => 1,
            TapStage::DescribeAggregate => 2,
            TapStage::CreateAggregate => 3,
            TapStage::CreateIoProc => 4,
            TapStage::Start => 5,
            TapStage::Encode => 6,
            TapStage::Running => 7,
            TapStage::Failed => 8,
        }
    }

    /// The step is a call to Core Audio, which answers with a status.
    pub open spec fn calls_core_audio(self) -> bool {
        self == TapStage::CreateTap || self == TapStage::CreateAggregate || self
            == TapStage::CreateIoProc || self == TapStage::Start
    }
}

/// Why a step failed.
#[derive(Debug, PartialEq, Eq)]
pub enum TapError {
    Status(i32),
    Message(String),
}

/// The parts of a tap that are given back.
#[derive(Clone, Copy, Debug, PartialEq, Eq, Structural)]
pub struct TapParts {
    pub io_proc: bool,
    /// What the callback works with.
    pub context: bool,
    pub aggregate: bool,
    pub tap: bool,
}

/// The parts that exist while a step is taken.
pub open spec fn tap_parts(stage: TapStage) -> TapParts {
    TapParts {
        io_proc: stage.rank() > TapStage::CreateIoProc.rank(),
        context: stage.rank() >= TapStage::CreateIoProc.rank(),
        aggregate: stage.rank() > TapStage::CreateAggregate.rank(),
        tap: stage.rank() > TapStage::CreateTap.rank(),
    }
}

/// No part of a tap.
pub open spec fn no_tap_parts() -> TapParts {
    TapParts { io_proc: false, context: false, aggregate: false, tap: false }
}

/// What a step that failed gives back.
pub open spec fn tap_undo(stage: TapStage) -> TapParts {
    if stage.calls_core_audio() {
        tap_parts(stage)
    } else {
        no_tap_parts()
    }
}

/// The call of a step.
pub open spec fn tap_call(stage: TapStage) -> Seq<char> {
    match stage {
        TapStage::CreateTap => "AudioHardwareCreateProcessTap"@,
        TapStage::CreateAggregate => "AudioHardwareCreateAggregateDevice"@,
        TapStage::CreateIoProc => "AudioDeviceCreateIOProcID"@,
        _ => "AudioDeviceStart"@,
    }
}

/// The message of a step that failed.
pub open spec fn tap_failure(stage: TapStage, error: TapError) -> Seq<char> {
    match error {
        TapError::Status(status) => tap_call(stage) + " failed ("@ + signed(status as int) + ")"@,
        TapError::Message(text) => text@,
    }
}

/// The step behind a successful one.
pub open spec fn tap_next(stage: TapStage) -> TapStage {
    match stage {
        TapStage::Describe => TapStage::CreateTap,
        TapStage::CreateTap => TapStage::DescribeAggregate,
        TapStage::DescribeAggregate => TapStage::CreateAggregate,
        TapStage::CreateAggregate => TapStage::CreateIoProc,
        TapStage::CreateIoProc => TapStage::Start,
        TapStage::Start => TapStage::Encode,
        TapStage::Encode => TapStage::Running,
        TapStage::Running => TapStage::Running,
        TapStage::Failed => TapStage::Failed,
    }
}

/// The setup of a tap.
#[derive(Clone, Copy, Debug, PartialEq, Eq, Structural)]
pub struct TapSetup {
    pub stage: TapStage,
}

impl TapSetup {
    /// A setup that has not begun. Only macOS has process taps.
    pub fn new(macos: bool) -> (setup: Result<Self, String>)
        ensures
            setup is Ok <==> macos,
            setup matches Ok(s) ==> s.stage == TapStage::Describe,
            setup matches Err(message) ==> message@
                == "process taps are unavailable on this platform"@,
    {
        if !macos {
            return Err("process taps are unavailable on this platform".to_owned());
        }
        Ok(TapSetup { stage: TapStage::Describe })
    }

    fn parts(&self) -> (parts: TapParts)
        ensures
            parts == tap_undo(self.stage),
    {
        match self.stage {
            TapStage::CreateAggregate => TapParts {
                io_proc: false,
                context: false,
                aggregate: false,
                tap: true,
            },
            TapStage::CreateIoProc => TapParts {
                io_proc: false,
                context: true,
                aggregate: true,
                tap: true,
            },
            TapStage::Start => TapParts { io_proc: true, context: true, aggregate: true, tap: true },
            _ => TapParts { io_proc: false, context: false, aggregate: false, tap: false },
        }
    }

    fn message(&self, error: TapError) -> (text: String)
        ensures
            text@ == tap_failure(self.stage, error),
    {
        match error {
            TapError::Message(text) => text,
            TapError::Status(status) => {
                let call: &str = match self.stage {
                    TapStage::CreateTap => "AudioHardwareCreateProcessTap",
                    TapStage::CreateAggregate => "AudioHardwareCreateAggregateDevice",
                    TapStage::CreateIoProc => "AudioDeviceCreateIOProcID",
                    _ => "AudioDeviceStart",
                };
                let mut text = call.to_owned();
                push_text(&mut text, " failed (");
                push_signed(&mut text, status as i64);
                push_text(&mut text, ")");
                text
            },
        }
    }

    /// Takes the outcome of the current step. One that fails says why and what has to be
    /// given back.
    pub fn on_step(&mut self, result: Result<(), TapError>) -> (failure: Option<(String, TapParts)>)
        requires
            old(self).stage != TapStage::Running,
            old(self).stage != TapStage::Failed,
        ensures
            match result {
                Ok(_) => failure is None && final(self).stage == tap_next(old(self).stage),
                Err(error) => {
                    &&& final(self).stage == TapStage::Failed
                    &&& failure matches Some((text, parts))
                    &&& text@ == tap_failure(old(self).stage, error)
                    &&& parts == tap_undo(old(self).stage)
                },
            },
    {
        match result {
            Ok(_) => {
                self.stage = match self.stage {
                    TapStage::Describe => TapStage::CreateTap,
                    TapStage::CreateTap => TapStage::DescribeAggregate,
                    TapStage::DescribeAggregate => TapStage::CreateAggregate,
                    TapStage::CreateAggregate => TapStage::CreateIoProc,
                    TapStage::CreateIoProc => TapStage::Start,
                    TapStage::Start => TapStage::Encode,
                    TapStage::Encode => TapStage::Running,
                    TapStage::Running => TapStage::Running,
                    TapStage::Failed => TapStage::Failed,
                };
                None
            },
            Err(error) => {
                let parts = self.parts();
                let text = self.message(error);
                self.stage = TapStage::Failed;
                Some((text, parts))
            },
        }
    }
}

/// A call to Core Audio that fails leaves no part of the tap behind.
pub proof fn law_refused_tap_leaves_nothing(stage: TapStage)
    requires
        stage.calls_core_audio(),
    ensures
        tap_undo(stage) == tap_parts(stage),
        stage == TapStage::CreateTap ==> tap_undo(stage) == no_tap_parts(),
{
}

/// An application that holds the token neither in its name nor in its identifier is not
/// excluded; white space around a token does not count.
pub proof fn law_only_holders_are_excluded(
    name: Seq<char>,
    bundle_id: Option<Seq<char>>,
    token: Seq<char>,
)
    ensures
        !occurs_in(lowercase(name), lowercase(trimmed(token))) && (bundle_id is None || !occurs_in(
            lowercase(bundle_id->0),
            lowercase(trimmed(token)),
        )) ==> !excluded_by(name, bundle_id, token),
        trimmed(token).len() > 0 ==> excluded_by(token, None, token),
        trimmed(token).len() > 0 ==> excluded_by(name, Some(token), token),
        excluded_by(name, bundle_id, trimmed(token)) == excluded_by(name, bundle_id, token),
        excluded_by(name, None, token) ==> excluded_by(name, bundle_id, token),
{
    let (from, to) = crate::text::law_trimming_takes_white_space(token);
    let wanted = lowercase(trimmed(token));
    assert(lowercase(token).subrange(from, from + wanted.len()) =~= wanted);
    assert(occurs_at(lowercase(token), wanted, from));
}

/// Those of the applications come first, in the order of the applications, and behind them
/// each further object stands once.
pub proof fn law_applications_come_first(
    apps: Seq<TappedApp>,
    tokens: Seq<String>,
    audio: Seq<AudioProcess>,
)
    ensures
        ({
            let all = excluded_objects(apps, tokens, audio);
            let own = app_objects(apps, tokens);
            &&& own.len() <= all.len() <= own.len() + audio.len()
            &&& all.take(own.len() as int) == own
            &&& forall|i: int, j: int|
                own.len() <= i < all.len() && 0 <= j < i ==> #[trigger] all[i] != #[trigger] all[j]
        }),
    decreases audio.len(),
{
    let own = app_objects(apps, tokens);
    if audio.len() == 0 {
        assert(own.take(own.len() as int) =~= own);
    } else {
        law_applications_come_first(apps, tokens, audio.drop_last());
        let before = excluded_objects(apps, tokens, audio.drop_last());
        let all = excluded_objects(apps, tokens, audio);
        assert(all.take(own.len() as int) =~= before.take(own.len() as int));
        assert forall|i: int, j: int| own.len() <= i < all.len() && 0 <= j < i implies #[trigger] all[i]
            != #[trigger] all[j] by {
            if i < before.len() {
                assert(all[i] == before[i] && all[j] == before[j]);
            } else {
                assert(all[j] == before[j]);
                assert(before.contains(before[j]));
            }
        }
    }
}

/// Applications count one by one: what a list of them excludes is what its parts exclude.
pub proof fn law_applications_count_one_by_one(
    a: Seq<TappedApp>,
    b: Seq<TappedApp>,
    tokens: Seq<String>,
)
    ensures
        app_objects(a + b, tokens) == app_objects(a, tokens) + app_objects(b, tokens),
        a.len() == 1 ==> app_objects(a, tokens) == if app_matched(a[0].app, tokens) && a[0].object
            is Some {
            seq![a[0].object->0]
        } else {
            Seq::empty()
        },
    decreases b.len(),
{
    reveal_with_fuel(app_objects, 2);
    if b.len() == 0 {
        assert(a + b =~= a);
        assert(app_objects(a, tokens) + app_objects(b, tokens) =~= app_objects(a, tokens));
    } else {
        assert((a + b).drop_last() =~= a + b.drop_last());
        law_applications_count_one_by_one(a, b.drop_last(), tokens);
        assert(app_objects(a + b, tokens) =~= app_objects(a, tokens) + app_objects(b, tokens));
    }
    if a.len() == 1 {
        assert(app_objects(a, tokens) =~= if app_matched(a[0].app, tokens) && a[0].object is Some {
            seq![a[0].object->0]
        } else {
            Seq::empty()
        });
    }
}

/// The steps of a tap follow one another without a gap, and each part exists from the step
/// behind its creation on; what the callback works with exists while the callback is made.
pub proof fn law_taps_are_built_in_order(stage: TapStage)
    requires
        stage != TapStage::Running,
        stage != TapStage::Failed,
    ensures
        tap_next(stage).rank() == stage.rank() + 1,
        !tap_parts(TapStage::Describe).tap,
        tap_parts(tap_next(stage)).tap == (tap_parts(stage).tap || stage == TapStage::CreateTap),
        tap_parts(tap_next(stage)).aggregate == (tap_parts(stage).aggregate || stage
            == TapStage::CreateAggregate),
        tap_parts(tap_next(stage)).io_proc == (tap_parts(stage).io_proc || stage
            == TapStage::CreateIoProc),
        tap_parts(stage).io_proc ==> tap_parts(stage).context,
        tap_parts(stage).context ==> tap_parts(stage).aggregate,
        tap_parts(stage).aggregate ==> tap_parts(stage).tap,
        tap_parts(TapStage::CreateIoProc).context,
        !tap_parts(TapStage::CreateAggregate).context,
        !stage.calls_core_audio() ==> tap_undo(stage) == no_tap_parts(),
{
}

/// An audio process is excluded exactly where a token stands in its own name or where it has
/// the number of an application that a token excludes.
pub proof fn law_processes_follow_their_application(
    apps: Seq<TappedApp>,
    tokens: Seq<String>,
    process: AudioProcess,
    j: int,
    k: int,
)
    requires
        0 <= j < apps.len(),
        0 <= k < tokens.len(),
    ensures
        excluded_by(process.name@, None, tokens[k]@) ==> process_excluded(apps, tokens, process),
        excluded_by(apps[j].app.name@, opt_text(apps[j].app.bundle_id), tokens[k]@)
            ==> app_matched(apps[j].app, tokens),
        app_matched(apps[j].app, tokens) && apps[j].app.pid == process.pid ==> process_excluded(
            apps,
            tokens,
            process,
        ),
        (forall|t: int|
            0 <= t < tokens.len() ==> !excluded_by(process.name@, None, (#[trigger] tokens[t])@))
            && (forall|a: int|
            0 <= a < apps.len() ==> (#[trigger] apps[a]).app.pid != process.pid || !app_matched(
                apps[a].app,
                tokens,
            )) ==> !process_excluded(apps, tokens, process),
        (forall|t: int|
            0 <= t < tokens.len() ==> !excluded_by(
                apps[j].app.name@,
                opt_text(apps[j].app.bundle_id),
                (#[trigger] tokens[t])@,
            )) ==> !app_matched(apps[j].app, tokens),
{
}

/// A process with a number plays sound as soon as one of its objects runs, and none of another
/// process counts; one without a number plays none.
pub proof fn law_sound_comes_from_the_own_objects(
    pid: i32,
    own_running: bool,
    audio: Seq<(i32, bool)>,
    k: int,
)
    ensures
        pid <= 0 ==> !plays_sound(pid, own_running, audio),
        pid > 0 && own_running ==> plays_sound(pid, own_running, audio),
        pid > 0 && 0 <= k < audio.len() && audio[k] == (pid, true) ==> plays_sound(
            pid,
            own_running,
            audio,
        ),
        !own_running && (forall|i: int|
            0 <= i < audio.len() ==> (#[trigger] audio[i]).0 != pid || !audio[i].1)
            ==> !plays_sound(pid, own_running, audio),
{
}

/// A refused call is told by its name and its status, in this order; any other failure in its
/// own words.
pub proof fn law_refused_calls_are_named(stage: TapStage, status: i32, text: String)
    ensures
        tap_failure(stage, TapError::Message(text)) == text@,
        stage.calls_core_audio() ==> crate::text::begins_with(
            tap_failure(stage, TapError::Status(status)),
            tap_call(stage) + " failed ("@ + signed(status as int),
        ),
        tap_call(TapStage::CreateTap) == "AudioHardwareCreateProcessTap"@,
        tap_call(TapStage::CreateAggregate) == "AudioHardwareCreateAggregateDevice"@,
        tap_call(TapStage::CreateIoProc) == "AudioDeviceCreateIOProcID"@,
        tap_call(TapStage::Start) == "AudioDeviceStart"@,
{
    let told = tap_failure(stage, TapError::Status(status));
    let opening = tap_call(stage) + " failed ("@ + signed(status as int);
    assert(told.subrange(0, opening.len() as int) =~= opening);
}

} // verus!
