//! What the screens show: note names, the texts of the main screen and the rows of the
//! settings screen. Drawing them is left to the display driver.
use vstd::prelude::*;

use crate::settings::{settings_item, Settings, NUM_SETTINGS_ITEMS, SETTINGS_ITEM_NAMES};
use crate::types::{DisplayState, LastEvent};

verus! {

/// Names of the twelve pitch classes, from C.
pub const NOTE_NAMES: [&'static str; 12] = [
    "C", "C#", "D", "D#", "E", "F", "F#", "G", "G#", "A", "A#", "B",
];

/// Decimal digits.
pub const DIGITS: [char; 10] = ['0', '1', '2', '3', '4', '5', '6', '7', '8', '9'];

/// The pitch-class name and the octave of MIDI note `midi` (middle C, 60, is C4).
pub fn note_name(midi: u8) -> (r: (&'static str, i8))
    ensures
        r.0 == NOTE_NAMES@[(midi % 12) as int],
        r.1 == midi / 12 - 1,
{
    (NOTE_NAMES[(midi % 12) as usize], (midi / 12) as i8 - 1)
}

/// The decimal digits of `n`, most significant first.
pub open spec fn decimal(n: nat) -> Seq<char>
    decreases n,
{
    if n < 10 {
        seq![DIGITS@[n as int]]
    } else {
        decimal(n / 10).push(DIGITS@[(n % 10) as int])
    }
}

/// 10 to the `k`.
pub open spec fn pow10(k: nat) -> nat
    decreases k,
{
    if k == 0 {
        1
    } else {
        10 * pow10((k - 1) as nat)
    }
}

/// A number below 10ᵏ has at most `k` digits.
pub proof fn lemma_decimal_len(n: nat, k: nat)
    requires
        k >= 1,
        n < pow10(k),
    ensures
        1 <= decimal(n).len() <= k,
    decreases k,
{
    if n >= 10 {
        let p = pow10((k - 1) as nat);
        assert(k >= 2) by {
            if k == 1 {
                assert(pow10(1) == 10 * pow10(0));
            }
        }
        assert(n / 10 < p) by (nonlinear_arith)
            requires
                n < 10 * p,
        ;
        lemma_decimal_len(n / 10, (k - 1) as nat);
    }
}

/// `v` in decimal, with a leading minus sign when negative.
pub open spec fn signed_decimal(v: int) -> Seq<char> {
    if v < 0 {
        seq!['-'] + decimal((-v) as nat)
    } else {
        decimal(v as nat)
    }
}

/// `String::push`: appends the character `c`.
#[verifier::external_body]
fn string_push(s: &mut String, c: char)
    ensures
        final(s)@ == old(s)@.push(c),
{
    s.push(c)
}

/// Every character is ASCII (one byte in UTF-8).
pub open spec fn ascii(s: Seq<char>) -> bool {
    forall|i: int| 0 <= i < s.len() ==> (#[trigger] s[i] as u32) < 128
}

proof fn lemma_digits_ascii()
    ensures
        forall|d: int| 0 <= d < 10 ==> (#[trigger] DIGITS@[d] as u32) < 128,
{
}

proof fn lemma_decimal_ascii(n: nat)
    ensures
        ascii(decimal(n)),
    decreases n,
{
    lemma_digits_ascii();
    if n >= 10 {
        lemma_decimal_ascii(n / 10);
    }
}

/// The decimal digits of `n`.
fn decimal_string(n: u32) -> (s: String)
    ensures
        s@ == decimal(n as nat),
        ascii(s@),
        n < 1000 ==> s@.len() <= 3,
        n < 100000 ==> s@.len() <= 5,
{
    proof {
        lemma_decimal_ascii(n as nat);
        reveal_with_fuel(pow10, 6);
        if n < 1000 {
            lemma_decimal_len(n as nat, 3);
        }
        if n < 100000 {
            lemma_decimal_len(n as nat, 5);
        }
    }
    let mut s = String::new();
    push_decimal(&mut s, n);
    assert(s@ =~= decimal(n as nat));
    s
}

// ── Fixed-capacity texts ─────────────────────────────────────────────────────

#[verifier::external_type_specification]
#[verifier::external_body]
pub struct ExHeaplessString<const N: usize>(heapless::String<N>);

/// The small text of the main screen (16 bytes).
pub type LabelText = heapless::String<16>;
/// A number of up to 8 bytes: the large text of the main screen, a settings value.
pub type ValueText = heapless::String<8>;
/// A channel number of up to 4 bytes.
pub type ChannelText = heapless::String<4>;

/// What push results hand back.
pub type TextResult = Result<(), ()>;

/// The characters of a label text.
pub uninterp spec fn label_chars(s: LabelText) -> Seq<char>;

/// The characters of a value text.
pub uninterp spec fn value_chars(s: ValueText) -> Seq<char>;

/// The characters of a channel text.
pub uninterp spec fn channel_chars(s: ChannelText) -> Seq<char>;

/// `heapless::String::new`: an empty text.
#[verifier::external_body]
fn label_new() -> (s: LabelText)
    ensures
        label_chars(s) == Seq::<char>::empty(),
{
    heapless::String::new()
}

/// `heapless::String::push_str`: appends `t` when all its bytes fit in the capacity,
/// otherwise leaves the text unchanged.
#[verifier::external_body]
fn label_push_str(s: &mut LabelText, t: &str) -> (r: TextResult)
    requires
        ascii(label_chars(*old(s))),
        ascii(t@),
    ensures
        label_chars(*old(s)).len() + t@.len() <= 16 ==> r is Ok && label_chars(*final(s))
            == label_chars(*old(s)) + t@,
        label_chars(*old(s)).len() + t@.len() > 16 ==> r is Err && label_chars(*final(s))
            == label_chars(*old(s)),
{
    s.push_str(t)
}

/// `heapless::String::new`: an empty text.
#[verifier::external_body]
fn value_new() -> (s: ValueText)
    ensures
        value_chars(s) == Seq::<char>::empty(),
{
    heapless::String::new()
}

/// `heapless::String::push_str`: appends `t` when all its bytes fit in the capacity,
/// otherwise leaves the text unchanged.
#[verifier::external_body]
fn value_push_str(s: &mut ValueText, t: &str) -> (r: TextResult)
    requires
        ascii(value_chars(*old(s))),
        ascii(t@),
    ensures
        value_chars(*old(s)).len() + t@.len() <= 8 ==> r is Ok && value_chars(*final(s))
            == value_chars(*old(s)) + t@,
        value_chars(*old(s)).len() + t@.len() > 8 ==> r is Err && value_chars(*final(s))
            == value_chars(*old(s)),
{
    s.push_str(t)
}

/// `heapless::String`'s `len` (through `Deref<Target = str>`): its length in bytes, which
/// for ASCII text is its number of characters.
#[verifier::external_body]
fn value_len(s: &ValueText) -> (n: usize)
    requires
        ascii(value_chars(*s)),
    ensures
        n == value_chars(*s).len(),
{
    s.len()
}

/// `heapless::String::new`: an empty text.
#[verifier::external_body]
fn channel_new() -> (s: ChannelText)
    ensures
        channel_chars(s) == Seq::<char>::empty(),
{
    heapless::String::new()
}

/// `heapless::String::push_str`: appends `t` when all its bytes fit in the capacity,
/// otherwise leaves the text unchanged.
#[verifier::external_body]
fn channel_push_str(s: &mut ChannelText, t: &str) -> (r: TextResult)
    requires
        ascii(channel_chars(*old(s))),
        ascii(t@),
    ensures
        channel_chars(*old(s)).len() + t@.len() <= 4 ==> r is Ok && channel_chars(*final(s))
            == channel_chars(*old(s)) + t@,
        channel_chars(*old(s)).len() + t@.len() > 4 ==> r is Err && channel_chars(*final(s))
            == channel_chars(*old(s)),
{
    s.push_str(t)
}

/// Appends `n` in decimal and returns the number of characters appended.
fn push_decimal(s: &mut String, n: u32) -> (len: usize)
    ensures
        final(s)@ == old(s)@ + decimal(n as nat),
        len == decimal(n as nat).len(),
        len <= 10,
    decreases n,
{
    proof {
        reveal_with_fuel(pow10, 11);
        assert(pow10(10) == 10_000_000_000);
        lemma_decimal_len(n as nat, 10);
    }
    if n < 10 {
        string_push(s, DIGITS[n as usize]);
        assert(final(s)@ =~= old(s)@ + decimal(n as nat));
        1
    } else {
        let len = push_decimal(s, n / 10);
        string_push(s, DIGITS[(n % 10) as usize]);
        assert(final(s)@ =~= old(s)@ + decimal(n as nat));
        len + 1
    }
}

proof fn lemma_note_names()
    ensures
        forall|i: int|
            0 <= i < 12 ==> ascii((#[trigger] NOTE_NAMES@[i])@) && NOTE_NAMES@[i]@.len() <= 2,
{
    reveal_strlit("C");
    reveal_strlit("C#");
    reveal_strlit("D");
    reveal_strlit("D#");
    reveal_strlit("E");
    reveal_strlit("F");
    reveal_strlit("F#");
    reveal_strlit("G");
    reveal_strlit("G#");
    reveal_strlit("A");
    reveal_strlit("A#");
    reveal_strlit("B");
    assert forall|i: int| 0 <= i < 12 implies ascii((#[trigger] NOTE_NAMES@[i])@)
        && NOTE_NAMES@[i]@.len() <= 2 by {
        assert(i == 0 || i == 1 || i == 2 || i == 3 || i == 4 || i == 5 || i == 6 || i == 7 || i
            == 8 || i == 9 || i == 10 || i == 11);
    }
}

/// The texts of the main screen.
pub struct MainScreenText {
    /// Small text above the center: note name and octave ("C4"), or "CC <n>".
    pub label: LabelText,
    /// Large text in the center: the MIDI note number ("60"), or the controller value.
    pub number: ValueText,
    /// Melody channel, 1-indexed, top left.
    pub keys_channel: ChannelText,
    /// Drum channel, 1-indexed, top right.
    pub drum_channel: ChannelText,
}

/// The small text of the main screen for the last event.
pub open spec fn main_label(ev: Option<LastEvent>) -> Seq<char> {
    match ev {
        Some(LastEvent::Note { note }) => NOTE_NAMES@[(note % 12) as int]@ + signed_decimal(
            note / 12 - 1,
        ),
        Some(LastEvent::Cc { num, .. }) => seq!['C', 'C', ' '] + decimal(num as nat),
        _ => Seq::empty(),
    }
}

/// The large text of the main screen for the last event.
pub open spec fn main_number(ev: Option<LastEvent>) -> Seq<char> {
    match ev {
        Some(LastEvent::Note { note }) => decimal(note as nat),
        Some(LastEvent::Cc { value, .. }) => decimal(value as nat),
        _ => Seq::empty(),
    }
}

/// The texts the main screen shows for `state`; every one fits its capacity.
pub fn main_screen_text(state: &DisplayState) -> (t: MainScreenText)
    requires
        state.melody_channel < u8::MAX,
        state.drum_channel < u8::MAX,
    ensures
        label_chars(t.label) == main_label(state.last_event),
        value_chars(t.number) == main_number(state.last_event),
        channel_chars(t.keys_channel) == decimal((state.melody_channel + 1) as nat),
        channel_chars(t.drum_channel) == decimal((state.drum_channel + 1) as nat),
{
    proof {
        lemma_note_names();
        reveal_strlit("-");
        reveal_strlit("CC ");
    }
    let mut label = label_new();
    let mut number = value_new();
    match state.last_event {
        Some(LastEvent::Note { note }) => {
            let (name, oct) = note_name(note);
            let _ = label_push_str(&mut label, name);
            if oct < 0 {
                let _ = label_push_str(&mut label, "-");
            }
            let oct_digits = decimal_string(if oct < 0 {
                (-(oct as i32)) as u32
            } else {
                oct as u32
            });
            let _ = label_push_str(&mut label, oct_digits.as_str());
            let digits = decimal_string(note as u32);
            let _ = value_push_str(&mut number, digits.as_str());
            assert(label_chars(label) =~= main_label(state.last_event));
        },
        Some(LastEvent::Cc { num, value }) => {
            let _ = label_push_str(&mut label, "CC ");
            let digits = decimal_string(num as u32);
            let _ = label_push_str(&mut label, digits.as_str());
            let digits = decimal_string(value as u32);
            let _ = value_push_str(&mut number, digits.as_str());
            assert(label_chars(label) =~= main_label(state.last_event));
        },
        _ => {},
    }
    assert(label_chars(label) =~= main_label(state.last_event));
    assert(value_chars(number) =~= main_number(state.last_event));
    let mut keys_channel = channel_new();
    let digits = decimal_string((state.melody_channel + 1) as u32);
    let _ = channel_push_str(&mut keys_channel, digits.as_str());
    let mut drum_channel = channel_new();
    let digits = decimal_string((state.drum_channel + 1) as u32);
    let _ = channel_push_str(&mut drum_channel, digits.as_str());
    assert(channel_chars(keys_channel) =~= decimal((state.melody_channel + 1) as nat));
    assert(channel_chars(drum_channel) =~= decimal((state.drum_channel + 1) as nat));
    MainScreenText { label, number, keys_channel, drum_channel }
}

/// Right edge, in pixels, of the settings values.
pub const SETTINGS_VALUE_RIGHT: i32 = 127;
/// Width in pixels of one character of the settings font.
pub const SETTINGS_CHAR_WIDTH: i32 = 6;

/// One row of the settings screen: the item's name on the left, its value on the right.
pub struct SettingsRow {
    pub item: usize,
    pub name: &'static str,
    pub value: ValueText,
}

/// The settings screen: the previous, the selected and the next item, and where the
/// underline under the selected value starts.
pub struct SettingsScreen {
    pub prev: SettingsRow,
    pub current: SettingsRow,
    pub next: SettingsRow,
    pub underline_x0: i32,
}

/// The row of item `idx`.
pub open spec fn row_shows(row: SettingsRow, idx: int, settings: Settings) -> bool {
    &&& row.item == idx
    &&& row.name == SETTINGS_ITEM_NAMES@[idx]
    &&& value_chars(row.value) == signed_decimal(settings.display_value(idx))
}

/// The settings value `v` as text, with its length in bytes.
fn value_text(v: i16) -> (r: (ValueText, usize))
    ensures
        value_chars(r.0) == signed_decimal(v as int),
        r.1 == signed_decimal(v as int).len(),
        r.1 <= 6,
{
    proof {
        reveal_strlit("-");
    }
    let mut value = value_new();
    if v < 0 {
        let _ = value_push_str(&mut value, "-");
    }
    let digits = decimal_string(if v < 0 {
        (-(v as i32)) as u32
    } else {
        v as u32
    });
    let _ = value_push_str(&mut value, digits.as_str());
    assert(value_chars(value) =~= signed_decimal(v as int));
    let len = value_len(&value);
    (value, len)
}

fn settings_row(idx: usize, settings: &Settings) -> (row: SettingsRow)
    requires
        idx < NUM_SETTINGS_ITEMS,
    ensures
        row_shows(row, idx as int, *settings),
{
    let item = settings_item(idx);
    let v = settings.get(idx);
    let (value, _) = value_text(v);
    SettingsRow { item: idx, name: item.name, value }
}

/// The settings screen with item `selected` in the middle, wrapping around the menu.
pub fn settings_screen(selected: usize, settings: &Settings) -> (screen: SettingsScreen)
    requires
        selected < NUM_SETTINGS_ITEMS,
    ensures
        row_shows(
            screen.prev,
            ((selected + NUM_SETTINGS_ITEMS - 1) % NUM_SETTINGS_ITEMS as int) as int,
            *settings,
        ),
        row_shows(screen.current, selected as int, *settings),
        row_shows(screen.next, ((selected + 1) % NUM_SETTINGS_ITEMS as int) as int, *settings),
        screen.underline_x0 == SETTINGS_VALUE_RIGHT - SETTINGS_CHAR_WIDTH * signed_decimal(
            settings.display_value(selected as int),
        ).len() + 1,
{
    let prev_idx = (selected + NUM_SETTINGS_ITEMS - 1) % NUM_SETTINGS_ITEMS;
    let next_idx = (selected + 1) % NUM_SETTINGS_ITEMS;
    let prev = settings_row(prev_idx, settings);
    let next = settings_row(next_idx, settings);
    let item = settings_item(selected);
    let v = settings.get(selected);
    let (value, len) = value_text(v);
    let underline_x0 = SETTINGS_VALUE_RIGHT - len as i32 * SETTINGS_CHAR_WIDTH + 1;
    let current = SettingsRow { item: selected, name: item.name, value };
    SettingsScreen { prev, current, next, underline_x0 }
}

} // verus!
