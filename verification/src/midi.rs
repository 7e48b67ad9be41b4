//! MIDI 1.0 channel messages, queued as bytes for the UART.
use vstd::prelude::*;

verus! {

/// Status nibble of a note-on message.
pub const NOTE_ON: u8 = 0x90;
/// Status nibble of a note-off message.
pub const NOTE_OFF: u8 = 0x80;
/// Status nibble of a control-change message.
pub const CONTROL_CHANGE: u8 = 0xB0;
/// Status nibble of a pitch-bend message.
pub const PITCH_BEND: u8 = 0xE0;
/// Controller number of "All Notes Off".
pub const ALL_NOTES_OFF: u8 = 123;

/// A three-byte channel message: status `kind | channel`, then two 7-bit data bytes.
pub open spec fn channel_message(kind: u8, channel: u8, d1: int, d2: int) -> Seq<u8> {
    seq![(kind + channel % 16) as u8, (d1 % 128) as u8, (d2 % 128) as u8]
}

/// The bytes of a pitch-bend message carrying the 14-bit `value`, low 7 bits first.
pub open spec fn pitch_bend_message(channel: u8, value: u16) -> Seq<u8> {
    channel_message(PITCH_BEND, channel, value as int, value as int / 128)
}

/// A MIDI channel number, 0–15.
struct Channel {
    number: u8,
}

impl Channel {
    #[verifier::type_invariant]
    spec fn inv(self) -> bool {
        self.number < 16
    }

    /// The low four bits of `channel`.
    fn masked(channel: u8) -> (c: Self)
        ensures
            c.number == channel % 16,
    {
        assert(channel & 0x0F == channel % 16 && channel & 0x0F < 16) by (bit_vector);
        Channel { number: channel & 0x0F }
    }
}

/// Builds MIDI messages for one channel and queues their bytes for the UART.
pub struct MidiSender {
    channel: Channel,
    outbox: Vec<u8>,
}

impl MidiSender {
    /// The channel (0–15) the next messages go to.
    pub closed spec fn channel_spec(self) -> u8 {
        self.channel.number
    }

    /// The bytes queued and not yet taken, oldest first.
    pub closed spec fn pending(self) -> Seq<u8> {
        self.outbox@
    }

    pub fn new(channel: u8) -> (s: Self)
        ensures
            s.channel_spec() < 16,
            s.channel_spec() == channel % 16,
            s.pending() == Seq::<u8>::empty(),
    {
        let channel = Channel::masked(channel);
        proof {
            use_type_invariant(&channel);
        }
        Self { channel, outbox: Vec::new() }
    }

    fn send_message(&mut self, kind: u8, d1: u8, d2: u8)
        requires
            kind == NOTE_ON || kind == NOTE_OFF || kind == CONTROL_CHANGE || kind == PITCH_BEND,
        ensures
            final(self).pending() == old(self).pending() + channel_message(
                kind,
                old(self).channel_spec(),
                d1 as int,
                d2 as int,
            ),
            final(self).channel_spec() == old(self).channel_spec(),
    {
        proof {
            use_type_invariant(&self.channel);
        }
        let ch = self.channel.number;
        assert(kind & 0x0F == 0) by (bit_vector)
            requires
                kind == 0x90u8 || kind == 0x80u8 || kind == 0xB0u8 || kind == 0xE0u8,
        ;
        assert(kind | ch == kind + ch) by (bit_vector)
            requires
                kind & 0x0F == 0,
                ch < 16,
        ;
        assert(d1 & 0x7F == d1 % 128) by (bit_vector);
        assert(d2 & 0x7F == d2 % 128) by (bit_vector);
        self.outbox.push(kind | ch);
        self.outbox.push(d1 & 0x7F);
        self.outbox.push(d2 & 0x7F);
        assert(self.outbox@ =~= old(self).pending() + channel_message(
            kind,
            old(self).channel_spec(),
            d1 as int,
            d2 as int,
        ));
    }

    pub fn note_on(&mut self, note: u8, velocity: u8)
        ensures
            final(self).pending() == old(self).pending() + channel_message(
                NOTE_ON,
                old(self).channel_spec(),
                note as int,
                velocity as int,
            ),
            final(self).channel_spec() == old(self).channel_spec(),
    {
        self.send_message(NOTE_ON, note, velocity);
    }

    pub fn note_off(&mut self, note: u8, velocity: u8)
        ensures
            final(self).pending() == old(self).pending() + channel_message(
                NOTE_OFF,
                old(self).channel_spec(),
                note as int,
                velocity as int,
            ),
            final(self).channel_spec() == old(self).channel_spec(),
    {
        self.send_message(NOTE_OFF, note, velocity);
    }

    pub fn control_change(&mut self, controller: u8, value: u8)
        ensures
            final(self).pending() == old(self).pending() + channel_message(
                CONTROL_CHANGE,
                old(self).channel_spec(),
                controller as int,
                value as int,
            ),
            final(self).channel_spec() == old(self).channel_spec(),
    {
        self.send_message(CONTROL_CHANGE, controller, value);
    }

    /// `value` is 14-bit: 0x2000 = center, 0x0000 = full down, 0x3FFF = full up.
    pub fn pitch_bend(&mut self, value: u16)
        ensures
            final(self).pending() == old(self).pending() + pitch_bend_message(
                old(self).channel_spec(),
                value,
            ),
            final(self).channel_spec() == old(self).channel_spec(),
    {
        let lsb = (value & 0x7F) as u8;
        let msb = ((value >> 7) & 0x7F) as u8;
        assert((value & 0x7F) as u8 % 128 == value % 128) by (bit_vector);
        assert(((value >> 7) & 0x7F) as u8 % 128 == (value / 128) % 128) by (bit_vector);
        self.send_message(PITCH_BEND, lsb, msb);
    }

    pub fn all_notes_off(&mut self)
        ensures
            final(self).pending() == old(self).pending() + channel_message(
                CONTROL_CHANGE,
                old(self).channel_spec(),
                ALL_NOTES_OFF as int,
                0,
            ),
            final(self).channel_spec() == old(self).channel_spec(),
    {
        self.control_change(ALL_NOTES_OFF, 0);
    }

    pub fn set_channel(&mut self, channel: u8)
        ensures
            final(self).channel_spec() == channel % 16,
            final(self).pending() == old(self).pending(),
    {
        self.channel = Channel::masked(channel);
    }

    /// Hands over the queued bytes, oldest first, for the UART to transmit.
    pub fn take_pending(&mut self) -> (bytes: Vec<u8>)
        ensures
            bytes@ == old(self).pending(),
            final(self).pending() == Seq::<u8>::empty(),
            final(self).channel_spec() == old(self).channel_spec(),
    {
        let mut bytes = Vec::new();
        std::mem::swap(&mut bytes, &mut self.outbox);
        bytes
    }
}

/// Every queued message is a status byte (top bit set) carrying the channel in its low
/// nibble, followed by two data bytes (top bit clear).
pub proof fn lemma_channel_message_shape(kind: u8, channel: u8, d1: int, d2: int)
    requires
        kind == NOTE_ON || kind == NOTE_OFF || kind == CONTROL_CHANGE || kind == PITCH_BEND,
    ensures
        ({
            let m = channel_message(kind, channel, d1, d2);
            &&& m.len() == 3
            &&& m[0] >= 0x80
            &&& m[0] / 16 == kind / 16
            &&& m[0] % 16 == channel % 16
            &&& m[1] < 0x80
            &&& m[2] < 0x80
        }),
{
}

/// A 14-bit pitch-bend value travels exactly: low 7 bits in the first data byte, high 7 in
/// the second.
pub proof fn lemma_pitch_bend_exact(channel: u8, value: u16)
    requires
        value < 0x4000,
    ensures
        ({
            let m = pitch_bend_message(channel, value);
            m[1] + 128 * m[2] == value
        }),
{
}

} // verus!
