//! Dictation: what the microphone hears, on its way into the input box.
use vstd::prelude::*;

use crate::json::Json;
use crate::status::VoiceState;
use crate::text::{cat2, char_count};
use crate::time::Instant;

verus! {

/// How many loudness samples are kept.
pub const VOICE_AUDIO_LEVELS_CAP: usize = 16;

/// What the dictation reports.
#[derive(Debug)]
pub enum VoiceEvent<L> {
    /// The raw number of a state.
    StateChanged(u8),
    Level(L),
    Interim(String),
    Final(String),
    Error(String),
}

/// What is known of the dictation.
#[derive(Debug)]
pub struct VoiceView<L> {
    pub state: VoiceState,
    pub levels: Vec<L>,
    pub record_started: Option<Instant>,
    pub interim: Option<String>,
    /// How many characters of the input box are not final yet.
    pub interim_chars: usize,
}

/// What to do with the input box.
#[derive(Debug)]
pub enum VoiceAction {
    Nothing,
    /// Take so many characters away, then type the text.
    Retype { delete: usize, text: String },
    /// Take so many characters away, then hand in the transcript.
    Transcript { delete: usize, text: String },
    /// Take so many characters away, then show the notice.
    Notice { delete: usize, text: String },
}

/// The state of that number.
pub open spec fn state_of(raw: u8) -> VoiceState {
    if raw == 0 {
        VoiceState::Idle
    } else if raw == 1 {
        VoiceState::Recording
    } else {
        VoiceState::Processing
    }
}

/// The samples after one more: the oldest makes room.
pub open spec fn levels_after<L>(levels: Seq<L>, level: L) -> Seq<L> {
    if levels.len() >= VOICE_AUDIO_LEVELS_CAP {
        levels.skip(1).push(level)
    } else {
        levels.push(level)
    }
}

/// The view after an event.
pub open spec fn is_view_after<L>(after: VoiceView<L>, v: VoiceView<L>, ev: VoiceEvent<L>, now: Instant) -> bool {
    match ev {
        VoiceEvent::StateChanged(raw) => {
            let state = state_of(raw);
            &&& after.state == state
            &&& after.interim_chars == v.interim_chars
            &&& match state {
                VoiceState::Recording => after.levels@.len() == 0 && after.record_started == Some(now)
                    && after.interim == v.interim,
                VoiceState::Idle => after.levels@.len() == 0 && after.record_started is None
                    && after.interim is None,
                VoiceState::Processing => after.levels@ == v.levels@ && after.record_started
                    == v.record_started && after.interim == v.interim,
            }
        },
        VoiceEvent::Level(level) => {
            &&& after.levels@ == levels_after(v.levels@, level)
            &&& after.state == v.state
            &&& after.record_started == v.record_started
            &&& after.interim == v.interim
            &&& after.interim_chars == v.interim_chars
        },
        VoiceEvent::Interim(text) => {
            &&& after.interim == (if text@.len() == 0 {
                None
            } else {
                Some(text)
            })
            &&& after.interim_chars == text@.len()
            &&& after.state == v.state
            &&& after.levels@ == v.levels@
            &&& after.record_started == v.record_started
        },
        VoiceEvent::Final(text) => {
            &&& after.interim is None
            &&& after.interim_chars == 0
            &&& after.state == v.state
            &&& after.levels@ == v.levels@
            &&& after.record_started == v.record_started
        },
        VoiceEvent::Error(msg) => {
            &&& after.interim is None
            &&& after.interim_chars == 0
            &&& after.state == VoiceState::Idle
            &&& after.levels@ == v.levels@
            &&& after.record_started == v.record_started
        },
    }
}

/// What an event asks for. Text that is not final is replaced, never doubled.
pub open spec fn is_action_for<L>(a: VoiceAction, v: VoiceView<L>, ev: VoiceEvent<L>) -> bool {
    match ev {
        VoiceEvent::StateChanged(_) | VoiceEvent::Level(_) => a is Nothing,
        VoiceEvent::Interim(text) => a matches VoiceAction::Retype { delete, text: t } && delete
            == v.interim_chars && t@ == text@,
        VoiceEvent::Final(text) => if text@.len() == 0 {
            a matches VoiceAction::Retype { delete, text: t } && delete == v.interim_chars && t@.len() == 0
        } else {
            a matches VoiceAction::Transcript { delete, text: t } && delete == v.interim_chars && t@ == text@
        },
        VoiceEvent::Error(msg) => a matches VoiceAction::Notice { delete, text: t } && delete
            == v.interim_chars && t@ == "Voice error: "@ + msg@,
    }
}

/// Follow an event of the dictation.
pub fn handle_voice_event<L>(v: &mut VoiceView<L>, ev: VoiceEvent<L>, now: Instant) -> (r: VoiceAction)
    ensures
        is_view_after(*final(v), *old(v), ev, now),
        is_action_for(r, *old(v), ev),
{
    match ev {
        VoiceEvent::StateChanged(raw) => {
            let state = if raw == 0 {
                VoiceState::Idle
            } else if raw == 1 {
                VoiceState::Recording
            } else {
                VoiceState::Processing
            };
            v.state = state;
            match state {
                VoiceState::Recording => {
                    v.levels.clear();
                    v.record_started = Some(now);
                },
                VoiceState::Idle => {
                    v.interim = None;
                    v.levels.clear();
                    v.record_started = None;
                },
                VoiceState::Processing => {},
            }
            VoiceAction::Nothing
        },
        VoiceEvent::Level(level) => {
            if v.levels.len() >= VOICE_AUDIO_LEVELS_CAP {
                let _ = v.levels.remove(0);
                assert(v.levels@ =~= old(v).levels@.skip(1));
            }
            v.levels.push(level);
            VoiceAction::Nothing
        },
        VoiceEvent::Interim(text) => {
            let delete: usize = v.interim_chars;
            v.interim_chars = char_count(text.as_str());
            v.interim = if text.as_str().is_empty() {
                None
            } else {
                Some(text.clone())
            };
            VoiceAction::Retype { delete, text }
        },
        VoiceEvent::Final(text) => {
            let delete: usize = v.interim_chars;
            v.interim = None;
            v.interim_chars = 0;
            if text.as_str().is_empty() {
                VoiceAction::Retype { delete, text }
            } else {
                VoiceAction::Transcript { delete, text }
            }
        },
        VoiceEvent::Error(msg) => {
            let delete: usize = v.interim_chars;
            v.interim = None;
            v.state = VoiceState::Idle;
            v.interim_chars = 0;
            VoiceAction::Notice { delete, text: cat2("Voice error: ", msg.as_str()) }
        },
    }
}

/// The samples never outgrow their bound.
pub proof fn law_levels_are_bounded<L>(levels: Seq<L>, level: L)
    requires
        levels.len() <= VOICE_AUDIO_LEVELS_CAP,
    ensures
        levels_after(levels, level).len() <= VOICE_AUDIO_LEVELS_CAP,
{
}

// ── transcripts ─────────────────────────────────────────────────────────

/// The settings ask for transcripts to be sent at once.
pub open spec fn sends_at_once(settings: Option<Json>) -> bool {
    settings is Some && settings->0.member("autoSubmit"@) == Some(Json::Bool(true))
}

/// What becomes of a transcript.
#[derive(Debug)]
pub enum Delivery {
    /// The input box is emptied and the transcript is sent.
    Send(String),
    /// The transcript is typed, for the user to change and send.
    Type(String),
}

/// What becomes of a transcript, given the settings for dictation.
pub fn inject_voice_transcript(settings: &Option<Json>, text: String) -> (r: Delivery)
    ensures
        r == (if sends_at_once(*settings) {
            Delivery::Send(text)
        } else {
            Delivery::Type(text)
        }),
{
    if let Some(s) = settings {
        if let Some(Json::Bool(on)) = s.get("autoSubmit") {
            if *on {
                return Delivery::Send(text);
            }
        }
    }
    Delivery::Type(text)
}

/// What the input box holds once an action is done, but for a transcript or a notice,
/// which only take characters away.
pub open spec fn box_after(shown: Seq<char>, a: VoiceAction) -> Seq<char> {
    match a {
        VoiceAction::Nothing => shown,
        VoiceAction::Retype { delete, text } => shown.take(shown.len() - delete) + text@,
        VoiceAction::Transcript { delete, text } => shown.take(shown.len() - delete),
        VoiceAction::Notice { delete, text } => shown.take(shown.len() - delete),
    }
}

/// What was typed by hand stays in the input box whatever is said: only the text that
/// is not final yet is taken away, and the new one stands in its place. A final text
/// is handed over word for word.
pub proof fn law_speech_replaces_only_speech<L>(
    typed: Seq<char>,
    interim: Seq<char>,
    v: VoiceView<L>,
    ev: VoiceEvent<L>,
    now: Instant,
    after: VoiceView<L>,
    a: VoiceAction,
)
    requires
        v.interim_chars == interim.len(),
        is_view_after(after, v, ev, now),
        is_action_for(a, v, ev),
    ensures
        after.interim_chars <= box_after(typed + interim, a).len(),
        box_after(typed + interim, a).take(box_after(typed + interim, a).len() - after.interim_chars) == typed,
        ev matches VoiceEvent::Interim(text) ==> box_after(typed + interim, a) == typed + text@,
        ev is StateChanged || ev is Level ==> box_after(typed + interim, a) == typed + interim,
        ev is Final || ev is Error ==> box_after(typed + interim, a) == typed,
        ev matches VoiceEvent::Final(text) ==> text@.len() > 0 ==> a is Transcript && a->Transcript_text@ == text@,
        ev matches VoiceEvent::Error(msg) ==> a is Notice && crate::slicing::has_suffix(a->Notice_text@, msg@),
{
    let shown = typed + interim;
    assert(shown.take(shown.len() - interim.len()) =~= typed);
    assert(shown.take(shown.len() as int) =~= shown);
    match ev {
        VoiceEvent::Interim(text) => {
            assert((typed + text@).take(typed.len() as int) =~= typed);
        },
        VoiceEvent::Final(text) => {
            assert(typed + Seq::<char>::empty() =~= typed);
            assert(typed.take(typed.len() as int) =~= typed);
            if text@.len() == 0 {
                assert(text@ =~= Seq::<char>::empty());
                assert(a->Retype_text@ =~= Seq::<char>::empty());
            }
        },
        VoiceEvent::Error(msg) => {
            assert(typed.take(typed.len() as int) =~= typed);
            let notice = "Voice error: "@ + msg@;
            assert(notice.subrange(notice.len() - msg@.len(), notice.len() as int) =~= msg@);
        },
        _ => {
        },
    }
}

/// The latest sample is kept, and the samples before it are the latest ones in their
/// order.
pub proof fn law_latest_samples_are_kept<L>(levels: Seq<L>, level: L, k: int)
    requires
        levels.len() <= VOICE_AUDIO_LEVELS_CAP,
        0 <= k < levels_after(levels, level).len(),
    ensures
        levels_after(levels, level).last() == level,
        k > 0 ==> levels_after(levels, level)[levels_after(levels, level).len() - 1 - k] == levels[levels.len()
            - k],
        levels.len() < VOICE_AUDIO_LEVELS_CAP ==> levels_after(levels, level).len() == levels.len() + 1,
        levels.len() == VOICE_AUDIO_LEVELS_CAP ==> levels_after(levels, level).len() == levels.len(),
{
}

/// Recording starts the clock and clears the samples; being idle stops the clock and
/// forgets the text that was not final.
pub proof fn law_recording_runs_the_clock<L>(v: VoiceView<L>, raw: u8, now: Instant, after: VoiceView<L>)
    requires
        is_view_after(after, v, VoiceEvent::StateChanged(raw), now),
    ensures
        raw == 1 ==> after.state == VoiceState::Recording && after.record_started == Some(now)
            && after.levels@.len() == 0,
        raw == 0 ==> after.state == VoiceState::Idle && after.record_started is None && after.interim is None
            && after.levels@.len() == 0,
        raw > 1 ==> after.state == VoiceState::Processing && after.record_started == v.record_started
            && after.levels@ == v.levels@,
{
}

/// A transcript is never lost or changed: it is sent at once where the settings ask for
/// that, and typed for the user otherwise.
pub proof fn law_transcripts_are_sent_only_when_asked(settings: Option<Json>, text: String, r: Delivery)
    requires
        call_ensures(inject_voice_transcript, (&settings, text), r),
    ensures
        settings is None ==> r == Delivery::Type(text),
        r is Send ==> r->Send_0 == text && settings is Some && settings->0.member("autoSubmit"@) == Some(
            Json::Bool(true),
        ),
        r is Type ==> r->Type_0 == text,
        settings is Some && settings->0.member("autoSubmit"@) == Some(Json::Bool(true)) ==> r is Send,
{
}

} // verus!
