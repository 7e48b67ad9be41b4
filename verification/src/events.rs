//! Turning switch events into MIDI messages and screen updates.
use vstd::prelude::*;

use crate::constants::{
    DRUM_CHANNEL, DRUM_NOTE, DRUM_SWITCH_START, NUM_DRUM_PADS, NUM_SWITCHES, SETTINGS_CHAN1,
    SETTINGS_CHAN2, SWITCH_TO_NOTE,
};
use crate::midi::{
    channel_message, pitch_bend_message, MidiSender, CONTROL_CHANGE, NOTE_OFF, NOTE_ON,
};
use crate::queue::{dequeue_event, indices_in_range, queue_items, EventQueue, IndexedEvent};
use crate::switch::SwitchEvent;
use crate::types::{DisplayState, LastEvent};

verus! {

/// The two switches that pick the melody channel instead of playing a note.
pub open spec fn is_settings_switch(idx: int) -> bool {
    idx == SETTINGS_CHAN1 || idx == SETTINGS_CHAN2
}

/// The switches that play the drum pads.
pub open spec fn is_drum_switch(idx: int) -> bool {
    DRUM_SWITCH_START <= idx < DRUM_SWITCH_START + NUM_DRUM_PADS
}

/// The note and the channel that an event of switch `idx` plays; note 0 means none.
pub open spec fn event_target(melody_channel: u8, idx: int) -> (u8, u8) {
    if is_drum_switch(idx) {
        (DRUM_NOTE@[idx - DRUM_SWITCH_START], DRUM_CHANNEL)
    } else {
        (SWITCH_TO_NOTE@[idx], melody_channel)
    }
}

/// The MIDI bytes an event sends for `note` on `channel`.
pub open spec fn event_message(ev: SwitchEvent, note: u8, channel: u8) -> Seq<u8> {
    match ev {
        SwitchEvent::NoteOn { velocity } => channel_message(
            NOTE_ON,
            channel,
            note as int,
            velocity as int,
        ),
        SwitchEvent::NoteOff => channel_message(NOTE_OFF, channel, note as int, 0),
        SwitchEvent::PotChange { cc, value } => channel_message(
            CONTROL_CHANGE,
            channel,
            cc as int,
            value as int,
        ),
        SwitchEvent::PitchBend { value } => pitch_bend_message(channel, value),
    }
}

/// What an event shows on the main screen; `None` leaves the screen as it was.
pub open spec fn event_display(ev: SwitchEvent, note: u8) -> Option<LastEvent> {
    match ev {
        SwitchEvent::NoteOn { .. } => Some(LastEvent::Note { note }),
        SwitchEvent::NoteOff => Some(LastEvent::Clear),
        SwitchEvent::PotChange { cc, value } => Some(LastEvent::Cc { num: cc, value }),
        SwitchEvent::PitchBend { .. } => None,
    }
}

/// Routing the events `items` in order, from melody channel `melody` and sender channel
/// `sender_channel`, gives: the melody channel, the sender channel, the MIDI bytes sent,
/// the last screen event, whether the melody channel was picked, and whether anything
/// was sent.
pub open spec fn route_events(melody: u8, sender_channel: u8, items: Seq<IndexedEvent>) -> (
    u8,
    u8,
    Seq<u8>,
    Option<LastEvent>,
    bool,
    bool,
)
    decreases items.len(),
{
    if items.len() == 0 {
        (melody, sender_channel, Seq::empty(), None, false, false)
    } else {
        let prev = route_events(melody, sender_channel, items.drop_last());
        let (idx, ev) = items.last();
        if is_settings_switch(idx as int) {
            if ev is NoteOn {
                (
                    if idx == SETTINGS_CHAN1 {
                        0u8
                    } else {
                        1u8
                    },
                    prev.1,
                    prev.2,
                    prev.3,
                    true,
                    prev.5,
                )
            } else {
                prev
            }
        } else {
            let (note, channel) = event_target(prev.0, idx as int);
            if note == 0 {
                prev
            } else {
                let ch = channel % 16;
                (
                    prev.0,
                    ch,
                    prev.2 + event_message(ev, note, ch),
                    match event_display(ev, note) {
                        Some(d) => Some(d),
                        None => prev.3,
                    },
                    prev.4,
                    true,
                )
            }
        }
    }
}

/// Every note a switch plays is a MIDI note (0–127).
proof fn lemma_notes_in_midi_range(melody: u8, idx: int)
    requires
        0 <= idx < NUM_SWITCHES,
    ensures
        event_target(melody, idx).0 < 128,
{
    assert(forall|i: int| 0 <= i < NUM_SWITCHES ==> #[trigger] SWITCH_TO_NOTE@[i] < 128);
    assert(forall|i: int| 0 <= i < NUM_DRUM_PADS ==> #[trigger] DRUM_NOTE@[i] < 128);
}

/// When the last event of a batch is a note-on that was sent, the main screen shows the
/// note of the message sent for it: the batch's bytes end with a note-on message whose
/// note byte is the note shown.
pub proof fn lemma_shown_note_is_sent_note(melody: u8, sender_channel: u8, items: Seq<IndexedEvent>)
    requires
        items.len() > 0,
        items.last().0 < NUM_SWITCHES,
        items.last().1 is NoteOn,
        route_events(melody, sender_channel, items).2.len() > route_events(
            melody,
            sender_channel,
            items.drop_last(),
        ).2.len(),
    ensures
        ({
            let bytes = route_events(melody, sender_channel, items).2;
            let n = bytes.len() as int;
            &&& n >= 3
            &&& bytes[n - 3] / 16 == NOTE_ON / 16
            &&& route_events(melody, sender_channel, items).3 == Some(
                LastEvent::Note { note: bytes[n - 2] },
            )
        }),
{
    let prev = route_events(melody, sender_channel, items.drop_last());
    lemma_notes_in_midi_range(prev.0, items.last().0 as int);
}

/// What the last event of a batch does, in terms of the bytes it sends: a note-on sends a
/// note-on carrying its velocity and shows the note sent; a note-off sends a note-off with
/// velocity 0 and clears the screen; a controller event sends that controller's change and
/// shows it; a pitch bend leaves the screen as the earlier events left it. Drum pads play on
/// the drum channel, every other switch on the melody channel; the channel-select switches
/// send nothing.
pub proof fn lemma_last_event_effect(melody: u8, sender_channel: u8, items: Seq<IndexedEvent>)
    requires
        items.len() > 0,
        items.last().0 < NUM_SWITCHES,
    ensures
        ({
            let prev = route_events(melody, sender_channel, items.drop_last());
            let r = route_events(melody, sender_channel, items);
            let (idx, ev) = items.last();
            let bytes = r.2;
            let n = bytes.len() as int;
            let sent = n > prev.2.len();
            &&& sent ==> n == prev.2.len() + 3 && bytes.subrange(0, n - 3) == prev.2
            &&& is_settings_switch(idx as int) ==> !sent && r.0 == (if ev is NoteOn {
                if idx == SETTINGS_CHAN1 {
                    0u8
                } else {
                    1u8
                }
            } else {
                prev.0
            })
            &&& sent && is_drum_switch(idx as int) ==> bytes[n - 3] % 16 == DRUM_CHANNEL
            &&& sent && !is_drum_switch(idx as int) ==> bytes[n - 3] % 16 == prev.0 % 16
            &&& sent ==> r.0 == prev.0 && r.5
            &&& !is_settings_switch(idx as int) && (is_drum_switch(idx as int)
                || SWITCH_TO_NOTE@[idx as int] != 0) ==> sent
            &&& !sent ==> bytes == prev.2 && r.3 == prev.3
            &&& sent && is_drum_switch(idx as int) && (ev is NoteOn || ev is NoteOff)
                ==> bytes[n - 2] == DRUM_NOTE@[idx - DRUM_SWITCH_START]
            &&& sent && !is_drum_switch(idx as int) && (ev is NoteOn || ev is NoteOff)
                ==> bytes[n - 2] == SWITCH_TO_NOTE@[idx as int]
            &&& sent ==> (ev matches SwitchEvent::NoteOn { velocity } ==> {
                &&& bytes[n - 3] / 16 == NOTE_ON / 16
                &&& bytes[n - 1] == velocity % 128
                &&& r.3 == Some(LastEvent::Note { note: bytes[n - 2] })
            })
            &&& (sent && ev is NoteOff) ==> {
                &&& bytes[n - 3] / 16 == NOTE_OFF / 16
                &&& bytes[n - 1] == 0
                &&& r.3 == Some(LastEvent::Clear)
            }
            &&& sent ==> (ev matches SwitchEvent::PotChange { cc, value } ==> {
                &&& bytes[n - 3] / 16 == CONTROL_CHANGE / 16
                &&& bytes[n - 2] == cc % 128
                &&& bytes[n - 1] == value % 128
                &&& r.3 == Some(LastEvent::Cc { num: cc, value })
            })
            &&& (ev is PitchBend) ==> r.3 == prev.3
        }),
{
    let prev = route_events(melody, sender_channel, items.drop_last());
    lemma_notes_in_midi_range(prev.0, items.last().0 as int);
    assert(forall|i: int| 0 <= i < NUM_DRUM_PADS ==> #[trigger] DRUM_NOTE@[i] != 0);
    let r = route_events(melody, sender_channel, items);
    if r.2.len() > prev.2.len() {
        assert(r.2.subrange(0, r.2.len() - 3) =~= prev.2);
    }
}

/// The main screen after a batch of events: the last screen event replaces the shown one
/// (a note-off clears it), and a picked melody channel is shown.
pub open spec fn display_after(
    d: DisplayState,
    shown: Option<LastEvent>,
    melody_changed: bool,
    melody: u8,
) -> DisplayState {
    DisplayState {
        last_event: match shown {
            Some(LastEvent::Clear) => None,
            Some(e) => Some(e),
            None => d.last_event,
        },
        melody_channel: if melody_changed {
            melody
        } else {
            d.melody_channel
        },
        drum_channel: d.drum_channel,
        recalibrating: d.recalibrating,
        current_voice: d.current_voice,
        volume_level: d.volume_level,
        current_preset: d.current_preset,
    }
}

/// What the MIDI task reports back to the scheduler.
#[derive(Clone, Copy, Debug, PartialEq, Eq)]
pub struct EventsOutcome {
    /// At least one MIDI message was sent (flash the TX LED).
    pub did_send: bool,
    /// The main screen changed (redraw it).
    pub display_changed: bool,
}

/// Drains `queue`, sending the MIDI message of every event and tracking what the main
/// screen shows.
pub fn process_events(
    queue: &mut EventQueue,
    sender: &mut MidiSender,
    melody_channel: &mut u8,
    display: &mut DisplayState,
) -> (out: EventsOutcome)
    requires
        indices_in_range(queue_items(*old(queue))),
    ensures
        ({
            let r = route_events(
                *old(melody_channel),
                old(sender).channel_spec(),
                queue_items(*old(queue)),
            );
            &&& queue_items(*final(queue)).len() == 0
            &&& *final(melody_channel) == r.0
            &&& final(sender).channel_spec() == r.1
            &&& final(sender).pending() == old(sender).pending() + r.2
            &&& out.did_send == r.5
            &&& out.display_changed == (r.3 is Some || r.4)
            &&& *final(display) == if r.3 is Some || r.4 {
                display_after(*old(display), r.3, r.4, r.0)
            } else {
                *old(display)
            }
        }),
{
    let ghost items = queue_items(*queue);
    let ghost start_sender = *sender;
    let ghost start_melody = *melody_channel;
    let ghost mut k: int = 0;
    let mut did_send = false;
    let mut new_display_event: Option<LastEvent> = None;
    let mut melody_changed = false;

    loop
        invariant
            0 <= k <= items.len(),
            queue_items(*queue) == items.skip(k),
            forall|i: int| 0 <= i < items.len() ==> (#[trigger] items[i]).0 < NUM_SWITCHES,
            ({
                let r = route_events(start_melody, start_sender.channel_spec(), items.take(k));
                &&& *melody_channel == r.0
                &&& sender.channel_spec() == r.1
                &&& sender.pending() == start_sender.pending() + r.2
                &&& new_display_event == r.3
                &&& melody_changed == r.4
                &&& did_send == r.5
            }),
        ensures
            k == items.len(),
            queue_items(*queue).len() == 0,
        decreases items.len() - k,
    {
        let next = dequeue_event(queue);
        match next {
            None => {
                assert(items.skip(k).len() == 0);
                break;
            },
            Some((switch_idx, event)) => {
                assert(items.take(k + 1).drop_last() =~= items.take(k));
                assert(items.take(k + 1).last() == items[k]);
                assert(items.skip(k)[0] == items[k]);
                assert(items.skip(k).drop_first() =~= items.skip(k + 1));
                proof {
                    k = k + 1;
                }
                if switch_idx == SETTINGS_CHAN1 || switch_idx == SETTINGS_CHAN2 {
                    if let SwitchEvent::NoteOn { .. } = event {
                        *melody_channel = if switch_idx == SETTINGS_CHAN1 {
                            0
                        } else {
                            1
                        };
                        melody_changed = true;
                    }
                    continue ;
                }
                let is_drum = switch_idx >= DRUM_SWITCH_START && switch_idx < DRUM_SWITCH_START
                    + NUM_DRUM_PADS;
                let (note, channel) = if is_drum {
                    (DRUM_NOTE[switch_idx - DRUM_SWITCH_START], DRUM_CHANNEL)
                } else {
                    (SWITCH_TO_NOTE[switch_idx], *melody_channel)
                };
                if note == 0 {
                    continue ;
                }
                sender.set_channel(channel);
                match event {
                    SwitchEvent::NoteOn { velocity } => {
                        sender.note_on(note, velocity);
                        new_display_event = Some(LastEvent::Note { note });
                    },
                    SwitchEvent::NoteOff => {
                        sender.note_off(note, 0);
                        new_display_event = Some(LastEvent::Clear);
                    },
                    SwitchEvent::PotChange { cc, value } => {
                        sender.control_change(cc, value);
                        new_display_event = Some(LastEvent::Cc { num: cc, value });
                    },
                    SwitchEvent::PitchBend { value } => {
                        sender.pitch_bend(value);
                    },
                }
                did_send = true;
            },
        }
    }
    assert(items.take(k) =~= items);

    let display_changed = new_display_event.is_some() || melody_changed;
    if display_changed {
        match new_display_event {
            Some(LastEvent::Clear) => display.last_event = None,
            Some(ev) => display.last_event = Some(ev),
            None => {},
        }
        if melody_changed {
            display.melody_channel = *melody_channel;
        }
    }
    EventsOutcome { did_send, display_changed }
}

} // verus!
