//! Mapping from actual inputs to virtual inputs.

use std::collections::HashMap;
use vstd::prelude::*;
use vstd::string::StrSliceExecFns;
use crate::keyspec::{KeyKind, KeySpec};
use crate::obj::Lane;
use crate::text::{chars_of, digit10, digit10_char, eq_ignore_case, is_space, is_space_char, lowered};

verus! {

broadcast use vstd::std_specs::hash::group_hash_axioms;

/// The code of a key of the keyboard, as the input device numbers its keys.
#[derive(Clone, Copy, Debug, PartialEq, Eq, Structural)]
pub struct KeyCode(pub u32);

/// The code of the escape key.
pub const ESCAPE: u32 = 27;

/// An event of the input devices.
#[derive(Clone, Copy, Debug, PartialEq, Eq)]
pub enum Event {
    /// The user asked for the program to quit.
    Quit,
    /// A key went down (`true`) or up (`false`).
    Key(KeyCode, bool),
    /// A button of a joystick went down (`true`) or up (`false`).
    JoyButton(u32, bool),
    /// An axis of a joystick moved to the given position, from -32768 to 32767.
    JoyAxis(u32, i16),
    /// An event that no input is made of.
    Other,
}

/// Actual input. Mapped to zero or more virtual inputs by input mapping.
#[derive(Clone, Copy, Debug, PartialEq, Eq, Structural)]
pub enum Input {
    /// Keyboard input.
    Key(KeyCode),
    /// Joystick axis input.
    JoyAxis(u32),
    /// Joystick button input.
    JoyButton(u32),
    /// A special input generated by pressing the quit button or escape key.
    Quit,
}

/// Virtual input.
#[derive(Clone, Copy, Debug, PartialEq, Eq, Structural)]
pub enum VirtualInput {
    /// Virtual input mapped to the lane.
    Lane(Lane),
    /// Speed down input (normally F3).
    SpeedDown,
    /// Speed up input (normally F4).
    SpeedUp,
}

/// State of virtual input elements. There are three states: neutral, and positive or negative.
/// There is no difference between positive and negative states (the naming is arbitrary)
/// except for that they are distinct.
///
/// The states should really be one of pressed (non-neutral) or unpressed (neutral) states,
/// but we need two non-neutral states since the actual input device with continuous values
/// (e.g. joystick axes) can trigger the state transition *twice* without hitting the neutral
/// state. We solve this problem by making the transition from negative to positive (and vice
/// versa) temporarily hit the neutral state.
#[derive(Clone, Copy, Debug, PartialEq, Eq, Structural)]
pub enum InputState {
    /// Positive input state. Occurs when the button is pressed or the joystick axis is moved
    /// in the positive direction.
    Positive,
    /// Neutral input state. Occurs when the button is not pressed or the joystick axis is moved
    /// back to the origin.
    Neutral,
    /// Negative input state. Occurs when the joystick axis is moved in the negative direction.
    Negative,
}

impl Input {
    /// The input and its state that an event stands for, if it stands for one. An axis is
    /// out of its neutral state beyond 3200 on either side.
    pub open spec fn from_event_spec(event: Event) -> Option<(Input, InputState)> {
        match event {
            Event::Quit => Some((Input::Quit, InputState::Positive)),
            Event::Key(key, down) => if key.0 == ESCAPE {
                Some((Input::Quit, InputState::Positive))
            } else if down {
                Some((Input::Key(key), InputState::Positive))
            } else {
                Some((Input::Key(key), InputState::Neutral))
            },
            Event::JoyButton(button, down) => if down {
                Some((Input::JoyButton(button), InputState::Positive))
            } else {
                Some((Input::JoyButton(button), InputState::Neutral))
            },
            Event::JoyAxis(axis, delta) => if delta > 3200 {
                Some((Input::JoyAxis(axis), InputState::Positive))
            } else if delta < -3200 {
                Some((Input::JoyAxis(axis), InputState::Negative))
            } else {
                Some((Input::JoyAxis(axis), InputState::Neutral))
            },
            Event::Other => None,
        }
    }

    /// A number that stands for the input: no two inputs have the same.
    pub open spec fn code_spec(self) -> u64 {
        match self {
            Input::Key(key) => key.0 as u64,
            Input::JoyAxis(axis) => (0x1_0000_0000 + axis) as u64,
            Input::JoyButton(button) => (0x2_0000_0000 + button) as u64,
            Input::Quit => 0x3_0000_0000u64,
        }
    }

    /// True if the input has a continuous range of values, so that it can go from one
    /// non-neutral state to the other without a neutral state in between.
    pub open spec fn is_continuous_spec(self) -> bool {
        self is JoyAxis
    }

    /// Translates an event to the actual input type and state.
    pub fn from_event(event: Event) -> (r: Option<(Input, InputState)>)
        ensures
            r == Input::from_event_spec(event),
    {
        match event {
            Event::Quit => Some((Input::Quit, InputState::Positive)),
            Event::Key(key, down) => {
                if key.0 == ESCAPE {
                    Some((Input::Quit, InputState::Positive))
                } else if down {
                    Some((Input::Key(key), InputState::Positive))
                } else {
                    Some((Input::Key(key), InputState::Neutral))
                }
            },
            Event::JoyButton(button, down) => {
                if down {
                    Some((Input::JoyButton(button), InputState::Positive))
                } else {
                    Some((Input::JoyButton(button), InputState::Neutral))
                }
            },
            Event::JoyAxis(axis, delta) => {
                if delta > 3200 {
                    Some((Input::JoyAxis(axis), InputState::Positive))
                } else if delta < -3200 {
                    Some((Input::JoyAxis(axis), InputState::Negative))
                } else {
                    Some((Input::JoyAxis(axis), InputState::Neutral))
                }
            },
            Event::Other => None,
        }
    }

    /// Returns the number that stands for the input.
    pub fn code(&self) -> (c: u64)
        ensures
            c == self.code_spec(),
    {
        match *self {
            Input::Key(key) => key.0 as u64,
            Input::JoyAxis(axis) => 0x1_0000_0000 + axis as u64,
            Input::JoyButton(button) => 0x2_0000_0000 + button as u64,
            Input::Quit => 0x3_0000_0000,
        }
    }

    /// Tells whether the input has a continuous range of values.
    pub fn is_continuous(&self) -> (r: bool)
        ensures
            r == self.is_continuous_spec(),
    {
        match *self {
            Input::JoyAxis(..) => true,
            _ => false,
        }
    }
}

/// No two inputs have the same code.
pub proof fn lemma_code_injective(a: Input, b: Input)
    requires
        a.code_spec() == b.code_spec(),
    ensures
        a == b,
{
}

impl VirtualInput {
    /// True if the virtual input is a lane of the given kind in the key specification, or
    /// no lane at all.
    pub open spec fn active_spec(self, kind: KeyKind, kinds: Seq<Option<KeyKind>>) -> bool {
        match self {
            VirtualInput::Lane(lane) => lane.0 < kinds.len() && kinds[lane.0 as int] == Some(kind),
            _ => true,
        }
    }

    /// Returns true if the virtual input has a specified key kind in the key specification.
    /// A lane that the key specification has no place for has no kind.
    pub fn active_in_key_spec(&self, kind: KeyKind, keyspec: &KeySpec) -> (r: bool)
        ensures
            r == self.active_spec(kind, keyspec.kinds@),
    {
        match *self {
            VirtualInput::Lane(lane) => {
                if lane.0 < keyspec.kinds.len() {
                    match keyspec.kinds[lane.0] {
                        Some(k) => k == kind,
                        None => false,
                    }
                } else {
                    false
                }
            },
            VirtualInput::SpeedDown | VirtualInput::SpeedUp => true,
        }
    }
}

/// An input mapping, i.e. a mapping from the actual input to the virtual input.
pub struct KeyMap {
    map: HashMap<u64, VirtualInput>,
}

impl KeyMap {
    /// The virtual input of each mapped input, by the code of the input.
    pub closed spec fn view(&self) -> Map<u64, VirtualInput> {
        self.map@
    }

    /// The virtual input that an input is mapped to, if it is mapped.
    pub open spec fn find_spec(&self, input: Input) -> Option<VirtualInput> {
        if self@.contains_key(input.code_spec()) {
            Some(self@[input.code_spec()])
        } else {
            None
        }
    }

    /// Returns a mapping of no input.
    pub fn new() -> (m: KeyMap)
        ensures
            m@ == Map::<u64, VirtualInput>::empty(),
    {
        KeyMap { map: HashMap::new() }
    }

    /// Maps the input to the virtual input, in place of what it was mapped to before.
    pub fn insert(&mut self, input: Input, vinput: VirtualInput)
        ensures
            final(self)@ == old(self)@.insert(input.code_spec(), vinput),
    {
        self.map.insert(input.code(), vinput);
    }

    /// Returns the virtual input that the input is mapped to, if it is mapped.
    pub fn find(&self, input: &Input) -> (r: Option<VirtualInput>)
        ensures
            r == self.find_spec(*input),
    {
        let code: u64 = input.code();
        match self.map.get(&code) {
            Some(v) => Some(*v),
            None => None,
        }
    }

    /// Returns the number of inputs that are mapped.
    pub fn len(&self) -> (n: usize)
        ensures
            n == self@.len(),
    {
        self.map.len()
    }
}

/// The name of a key, as the input device gives it.
pub struct KeyName {
    /// The name of the key.
    pub name: String,
    /// The key.
    pub key: KeyCode,
}

/// The settings of the keys. A setting that is absent stands for its default.
pub struct KeyConfig {
    /// The keys of the first player: scratch, keys 1 to 7 and pedal.
    pub keys1p: Option<String>,
    /// The keys of the second player: pedal, keys 1 to 7 and scratch.
    pub keys2p: Option<String>,
    /// The keys of the nine buttons.
    pub keyspms: Option<String>,
    /// The keys for the lower and the higher play speed.
    pub keysspeed: Option<String>,
    /// The key of each lane of its own, by the number of the lane.
    pub lanes: Vec<Option<String>>,
}

/// The setting that an error lies in.
#[derive(Clone, Copy, Debug, PartialEq, Eq)]
pub enum KeySetting {
    /// The keys of the first player.
    Keys1P,
    /// The keys of the second player.
    Keys2P,
    /// The keys of the nine buttons.
    KeysPMS,
    /// The keys for the play speed.
    KeysSpeed,
    /// The key of a lane of its own.
    LaneKey(Lane),
}

/// Why an input mapping could not be read: the setting names a key that does not exist.
#[derive(Debug, PartialEq, Eq)]
pub struct KeyMapError {
    /// The setting that the name lies in.
    pub setting: KeySetting,
    /// The name as it is written.
    pub name: String,
}

/// The index of the first occurrence of a character from `from` on, or the length of the
/// text if there is none.
pub open spec fn find_sep(s: Seq<char>, from: int, sep: char) -> int
    decreases s.len() - from,
{
    if from < 0 || from >= s.len() {
        s.len() as int
    } else if s[from] == sep {
        from
    } else {
        find_sep(s, from + 1, sep)
    }
}

/// The index of the first character from `from` up to `to` that is no white space, or `to`.
pub open spec fn skip_spaces(s: Seq<char>, from: int, to: int) -> int
    decreases to - from,
{
    if from >= to || from < 0 || from >= s.len() {
        to
    } else if is_space(s[from]) {
        skip_spaces(s, from + 1, to)
    } else {
        from
    }
}

/// The index after the last character from `from` up to `to` that is no white space, or
/// `from`.
pub open spec fn drop_spaces(s: Seq<char>, from: int, to: int) -> int
    decreases to - from,
{
    if to <= from || to > s.len() || to <= 0 {
        from
    } else if is_space(s[to - 1]) {
        drop_spaces(s, from, to - 1)
    } else {
        to
    }
}

/// True if every character from `from` up to `to` is a decimal digit.
pub open spec fn all_digits(s: Seq<char>, from: int, to: int) -> bool {
    forall|i: int| from <= i < to ==> digit10(#[trigger] s[i]) is Some
}

/// The number that the decimal digits from `from` up to `to` write.
pub open spec fn value_of(s: Seq<char>, from: int, to: int) -> nat
    decreases to - from,
{
    if to <= from {
        0
    } else {
        value_of(s, from, to - 1) * 10 + match digit10(s[to - 1]) {
            Some(d) => d as nat,
            None => 0nat,
        }
    }
}

/// The number of a joystick input that the text from `from` up to `to` names with the given
/// word: the word, white space and a decimal number that a `u32` holds.
pub open spec fn joy_number(s: Seq<char>, from: int, to: int, word: Seq<char>) -> Option<u32> {
    let digits = skip_spaces(s, from + word.len(), to);
    if from + word.len() < to && s.subrange(from, from + word.len()) == word && digits > from
        + word.len() && digits < to && all_digits(s, digits, to) && value_of(s, digits, to)
        <= u32::MAX {
        Some(value_of(s, digits, to) as u32)
    } else {
        None
    }
}

/// The key of the first name, from index `i` on, that is the text but for the case of
/// letters.
pub open spec fn key_named(names: Seq<KeyName>, t: Seq<char>, i: int) -> Option<KeyCode>
    decreases names.len() - i,
{
    if i < 0 || i >= names.len() {
        None
    } else if lowered(names[i].name@) == lowered(t) {
        Some(names[i].key)
    } else {
        key_named(names, t, i + 1)
    }
}

/// The input that the text from `from` up to `to` names, white space around it aside:
/// `button` and a number for a joystick button, `axis` and a number for a joystick axis, the
/// name of a key in either case for that key.
pub open spec fn input_named(s: Seq<char>, from: int, to: int, names: Seq<KeyName>) -> Option<Input> {
    let a = skip_spaces(s, from, to);
    let b = drop_spaces(s, a, to);
    match joy_number(s, a, b, "button"@) {
        Some(n) => Some(Input::JoyButton(n)),
        None => match joy_number(s, a, b, "axis"@) {
            Some(n) => Some(Input::JoyAxis(n)),
            None => match key_named(names, s.subrange(a, b), 0) {
                Some(key) => Some(Input::Key(key)),
                None => None,
            },
        },
    }
}

/// The mapping with the input mapped to each of the virtual inputs from index `i` on that is
/// active for the kind with the key specification, or to each of them if there is no kind.
pub open spec fn mapped_to(
    map: Map<u64, VirtualInput>,
    kind: Option<KeyKind>,
    input: Input,
    vinputs: Seq<VirtualInput>,
    i: int,
    kinds: Seq<Option<KeyKind>>,
) -> Map<u64, VirtualInput>
    decreases vinputs.len() - i,
{
    if i < 0 || i >= vinputs.len() {
        map
    } else {
        let active = match kind {
            Some(k) => vinputs[i].active_spec(k, kinds),
            None => true,
        };
        mapped_to(
            if active {
                map.insert(input.code_spec(), vinputs[i])
            } else {
                map
            },
            kind,
            input,
            vinputs,
            i + 1,
            kinds,
        )
    }
}

/// What reading a part of a setting comes to.
pub enum Read {
    /// The mapping so far.
    Fine(Map<u64, VirtualInput>),
    /// The bounds of a name that names no input.
    Unknown(int, int),
}

/// What the alternatives of a part come to, from index `from` up to `to`: the names between
/// `%` are those of the inputs of the virtual inputs of the part.
pub open spec fn read_alternatives(
    map: Map<u64, VirtualInput>,
    s: Seq<char>,
    from: int,
    to: int,
    kind: Option<KeyKind>,
    vinputs: Seq<VirtualInput>,
    kinds: Seq<Option<KeyKind>>,
    names: Seq<KeyName>,
) -> Read
    decreases to - from,
{
    let end = if find_sep(s, from, '%') < to {
        find_sep(s, from, '%')
    } else {
        to
    };
    if from < 0 || from > to || to > s.len() {
        Read::Fine(map)
    } else {
        match input_named(s, from, end, names) {
            None => Read::Unknown(from, end),
            Some(input) => {
                let next = mapped_to(map, kind, input, vinputs, 0, kinds);
                if from <= end < to {
                    read_alternatives(next, s, end + 1, to, kind, vinputs, kinds, names)
                } else {
                    Read::Fine(next)
                }
            },
        }
    }
}

/// The key sets: the kind and the virtual inputs of each part of their settings.
pub open spec fn keyset_parts(setting: KeySetting) -> Seq<(Option<KeyKind>, Seq<VirtualInput>)> {
    match setting {
        KeySetting::Keys1P => seq![
            (Some(KeyKind::Scratch), seq![VirtualInput::Lane(Lane(6))]),
            (Some(KeyKind::WhiteKey), seq![VirtualInput::Lane(Lane(1))]),
            (Some(KeyKind::BlackKey), seq![VirtualInput::Lane(Lane(2))]),
            (Some(KeyKind::WhiteKey), seq![VirtualInput::Lane(Lane(3))]),
            (Some(KeyKind::BlackKey), seq![VirtualInput::Lane(Lane(4))]),
            (Some(KeyKind::WhiteKey), seq![VirtualInput::Lane(Lane(5))]),
            (Some(KeyKind::BlackKey), seq![VirtualInput::Lane(Lane(8))]),
            (Some(KeyKind::WhiteKey), seq![VirtualInput::Lane(Lane(9))]),
            (Some(KeyKind::FootPedal), seq![VirtualInput::Lane(Lane(7))]),
        ],
        KeySetting::Keys2P => seq![
            (Some(KeyKind::FootPedal), seq![VirtualInput::Lane(Lane(43))]),
            (Some(KeyKind::WhiteKey), seq![VirtualInput::Lane(Lane(37))]),
            (Some(KeyKind::BlackKey), seq![VirtualInput::Lane(Lane(38))]),
            (Some(KeyKind::WhiteKey), seq![VirtualInput::Lane(Lane(39))]),
            (Some(KeyKind::BlackKey), seq![VirtualInput::Lane(Lane(40))]),
            (Some(KeyKind::WhiteKey), seq![VirtualInput::Lane(Lane(41))]),
            (Some(KeyKind::BlackKey), seq![VirtualInput::Lane(Lane(44))]),
            (Some(KeyKind::WhiteKey), seq![VirtualInput::Lane(Lane(45))]),
            (Some(KeyKind::Scratch), seq![VirtualInput::Lane(Lane(42))]),
        ],
        KeySetting::KeysPMS => seq![
            (Some(KeyKind::Button1), seq![VirtualInput::Lane(Lane(1))]),
            (Some(KeyKind::Button2), seq![VirtualInput::Lane(Lane(2))]),
            (Some(KeyKind::Button3), seq![VirtualInput::Lane(Lane(3))]),
            (Some(KeyKind::Button4), seq![VirtualInput::Lane(Lane(4))]),
            (Some(KeyKind::Button5), seq![VirtualInput::Lane(Lane(5))]),
            (
                Some(KeyKind::Button4),
                seq![VirtualInput::Lane(Lane(8)), VirtualInput::Lane(Lane(38))],
            ),
            (
                Some(KeyKind::Button3),
                seq![VirtualInput::Lane(Lane(9)), VirtualInput::Lane(Lane(39))],
            ),
            (
                Some(KeyKind::Button2),
                seq![VirtualInput::Lane(Lane(6)), VirtualInput::Lane(Lane(40))],
            ),
            (
                Some(KeyKind::Button1),
                seq![VirtualInput::Lane(Lane(7)), VirtualInput::Lane(Lane(41))],
            ),
        ],
        KeySetting::KeysSpeed => seq![
            (None, seq![VirtualInput::SpeedDown]),
            (None, seq![VirtualInput::SpeedUp]),
        ],
        KeySetting::LaneKey(lane) => Seq::empty(),
    }
}

/// The default of the setting of a key set.
pub open spec fn keyset_default(setting: KeySetting) -> Seq<char> {
    match setting {
        KeySetting::Keys1P => "left shift%axis 3|z%button 3|s%button 6|x%button 2|d%button 7|c%button 1|f%button 4|v%axis 2|left alt"@,
        KeySetting::Keys2P => "right alt|m|k|,|l|.|;|/|right shift"@,
        KeySetting::KeysPMS => "z|s|x|d|c|f|v|g|b"@,
        KeySetting::KeysSpeed => "f3|f4"@,
        KeySetting::LaneKey(lane) => ""@,
    }
}

/// What the parts of the setting of a key set come to, from index `from` on, where the part
/// there is the one of number `i`: the parts lie between `|`, and those beyond the last one
/// of the key set are not read.
pub open spec fn read_parts(
    map: Map<u64, VirtualInput>,
    s: Seq<char>,
    from: int,
    parts: Seq<(Option<KeyKind>, Seq<VirtualInput>)>,
    i: int,
    kinds: Seq<Option<KeyKind>>,
    names: Seq<KeyName>,
) -> Read
    decreases s.len() - from,
{
    if from < 0 || from > s.len() || i < 0 || i >= parts.len() {
        Read::Fine(map)
    } else {
        let end = find_sep(s, from, '|');
        match read_alternatives(map, s, from, end, parts[i].0, parts[i].1, kinds, names) {
            Read::Unknown(a, b) => Read::Unknown(a, b),
            Read::Fine(next) => if from <= end < s.len() {
                read_parts(next, s, end + 1, parts, i + 1, kinds, names)
            } else {
                Read::Fine(next)
            },
        }
    }
}

/// `find_sep` gives an index from `from` on, within the text.
pub proof fn lemma_find_sep(s: Seq<char>, from: int, sep: char)
    requires
        0 <= from <= s.len(),
    ensures
        from <= find_sep(s, from, sep) <= s.len(),
        find_sep(s, from, sep) < s.len() ==> s[find_sep(s, from, sep)] == sep,
    decreases s.len() - from,
{
    if from < s.len() && s[from] != sep {
        lemma_find_sep(s, from + 1, sep);
    }
}

/// Returns the index of the first occurrence of a character from `from` on, or the length
/// of the text.
fn seek_sep(chars: &Vec<char>, from: usize, sep: char) -> (r: usize)
    requires
        from <= chars@.len(),
    ensures
        r == find_sep(chars@, from as int, sep),
        from <= r <= chars@.len(),
{
    let n: usize = chars.len();
    let mut i: usize = from;
    while i < n && chars[i] != sep
        invariant
            n == chars@.len(),
            from <= i <= n,
            find_sep(chars@, i as int, sep) == find_sep(chars@, from as int, sep),
        decreases n - i,
    {
        i += 1;
    }
    i
}

/// Returns the bounds of the text from `from` up to `to` without the white space around it.
fn trim(chars: &Vec<char>, from: usize, to: usize) -> (r: (usize, usize))
    requires
        from <= to <= chars@.len(),
    ensures
        r.0 == skip_spaces(chars@, from as int, to as int),
        r.1 == drop_spaces(chars@, r.0 as int, to as int),
        from <= r.0 <= r.1 <= to,
{
    let mut a: usize = from;
    while a < to && is_space_char(chars[a])
        invariant
            from <= a <= to <= chars@.len(),
            skip_spaces(chars@, a as int, to as int) == skip_spaces(
                chars@,
                from as int,
                to as int,
            ),
        decreases to - a,
    {
        a += 1;
    }
    let mut b: usize = to;
    while b > a && is_space_char(chars[b - 1])
        invariant
            a <= b <= to <= chars@.len(),
            drop_spaces(chars@, a as int, b as int) == drop_spaces(chars@, a as int, to as int),
        decreases b - a,
    {
        b -= 1;
    }
    (a, b)
}

/// The number that digits write does not fall when more digits follow.
proof fn lemma_value_grows(s: Seq<char>, from: int, k: int, to: int)
    requires
        from <= k <= to,
    ensures
        value_of(s, from, to) >= value_of(s, from, k),
    decreases to - k,
{
    if k < to {
        lemma_value_grows(s, from, k, to - 1);
    }
}

/// Returns the number of a joystick input that the text names with the given word.
fn joy_input(chars: &Vec<char>, from: usize, to: usize, word: &str) -> (r: Option<u32>)
    requires
        from <= to <= chars@.len(),
    ensures
        r == joy_number(chars@, from as int, to as int, word@),
{
    let w = chars_of(word);
    let wn: usize = w.len();
    if to - from <= wn {
        return None;
    }
    let mut i: usize = 0;
    while i < wn
        invariant
            wn == w@.len(),
            w@ == word@,
            from + wn < to <= chars@.len(),
            0 <= i <= wn,
            forall|j: int| 0 <= j < i ==> chars@[from + j] == w@[j],
        decreases wn - i,
    {
        if chars[from + i] != w[i] {
            assert(chars@.subrange(from as int, from + wn)[i as int] != w@[i as int]);
            return None;
        }
        i += 1;
    }
    assert(chars@.subrange(from as int, from + wn) =~= w@);
    let mut d: usize = from + wn;
    while d < to && is_space_char(chars[d])
        invariant
            from + wn <= d <= to <= chars@.len(),
            skip_spaces(chars@, d as int, to as int) == skip_spaces(
                chars@,
                from + wn,
                to as int,
            ),
        decreases to - d,
    {
        d += 1;
    }
    assert(skip_spaces(chars@, d as int, to as int) == d);
    if d == from + wn || d >= to {
        return None;
    }
    let mut acc: u64 = 0;
    let mut k: usize = d;
    while k < to
        invariant
            d <= k <= to <= chars@.len(),
            from + wn < d < to,
            wn == word@.len(),
            chars@.subrange(from as int, from + wn) == word@,
            d == skip_spaces(chars@, from + wn, to as int),
            all_digits(chars@, d as int, k as int),
            acc == value_of(chars@, d as int, k as int),
            acc <= u32::MAX,
        decreases to - k,
    {
        match digit10_char(chars[k]) {
            Some(digit) => {
                acc = acc * 10 + digit as u64;
                if acc > u32::MAX as u64 {
                    proof {
                        lemma_value_grows(chars@, d as int, k + 1, to as int);
                    }
                    return None;
                }
            },
            None => {
                assert(!all_digits(chars@, d as int, to as int));
                return None;
            },
        }
        k += 1;
    }
    Some(acc as u32)
}

/// Returns the key of the first name that is the text from `from` up to `to` but for the
/// case of letters.
fn key_of_name(names: &Vec<KeyName>, chars: &Vec<char>, from: usize, to: usize) -> (r: Option<KeyCode>)
    requires
        from <= to <= chars@.len(),
    ensures
        r == key_named(names@, chars@.subrange(from as int, to as int), 0),
{
    let mut t: Vec<char> = Vec::new();
    let mut k: usize = from;
    while k < to
        invariant
            from <= k <= to <= chars@.len(),
            t@ == chars@.subrange(from as int, k as int),
        decreases to - k,
    {
        t.push(chars[k]);
        k += 1;
        assert(t@ =~= chars@.subrange(from as int, k as int));
    }
    let n: usize = names.len();
    let mut i: usize = 0;
    while i < n
        invariant
            n == names@.len(),
            0 <= i <= n,
            t@ == chars@.subrange(from as int, to as int),
            key_named(names@, t@, i as int) == key_named(names@, t@, 0),
        decreases n - i,
    {
        let name = chars_of(names[i].name.as_str());
        if eq_ignore_case(&name, &t) {
            return Some(names[i].key);
        }
        i += 1;
    }
    None
}

/// Parses an `Input` value from the text from `from` up to `to`. E.g. `backspace`,
/// `button 2` or `axis 0`.
fn parse_input(chars: &Vec<char>, from: usize, to: usize, names: &Vec<KeyName>) -> (r: Option<Input>)
    requires
        from <= to <= chars@.len(),
    ensures
        r == input_named(chars@, from as int, to as int, names@),
{
    let (a, b) = trim(chars, from, to);
    match joy_input(chars, a, b, "button") {
        Some(n) => Some(Input::JoyButton(n)),
        None => match joy_input(chars, a, b, "axis") {
            Some(n) => Some(Input::JoyAxis(n)),
            None => match key_of_name(names, chars, a, b) {
                Some(key) => Some(Input::Key(key)),
                None => None,
            },
        },
    }
}

/// Maps the input to each of the virtual inputs that is active for the kind.
fn add_mappings(
    map: &mut KeyMap,
    kind: Option<KeyKind>,
    input: Input,
    vinputs: &Vec<VirtualInput>,
    keyspec: &KeySpec,
)
    ensures
        final(map)@ == mapped_to(old(map)@, kind, input, vinputs@, 0, keyspec.kinds@),
{
    let n: usize = vinputs.len();
    let mut i: usize = 0;
    while i < n
        invariant
            n == vinputs@.len(),
            0 <= i <= n,
            mapped_to(map@, kind, input, vinputs@, i as int, keyspec.kinds@) == mapped_to(
                old(map)@,
                kind,
                input,
                vinputs@,
                0,
                keyspec.kinds@,
            ),
        decreases n - i,
    {
        let vinput = vinputs[i];
        let active = match kind {
            Some(k) => vinput.active_in_key_spec(k, keyspec),
            None => true,
        };
        if active {
            map.insert(input, vinput);
        }
        i += 1;
    }
}

/// Reads the alternatives of a part. Returns the bounds of the first name that names no
/// input, if there is one.
fn read_part(
    map: &mut KeyMap,
    chars: &Vec<char>,
    from: usize,
    to: usize,
    kind: Option<KeyKind>,
    vinputs: &Vec<VirtualInput>,
    keyspec: &KeySpec,
    names: &Vec<KeyName>,
) -> (r: Option<(usize, usize)>)
    requires
        from <= to <= chars@.len(),
    ensures
        match read_alternatives(
            old(map)@,
            chars@,
            from as int,
            to as int,
            kind,
            vinputs@,
            keyspec.kinds@,
            names@,
        ) {
            Read::Fine(m) => r is None && final(map)@ == m,
            Read::Unknown(a, b) => r == Some((a as usize, b as usize)) && 0 <= a <= b <= chars@.len(),
        },
{
    let mut at: usize = from;
    loop
        invariant
            from <= at <= to <= chars@.len(),
            read_alternatives(
                map@,
                chars@,
                at as int,
                to as int,
                kind,
                vinputs@,
                keyspec.kinds@,
                names@,
            ) == read_alternatives(
                old(map)@,
                chars@,
                from as int,
                to as int,
                kind,
                vinputs@,
                keyspec.kinds@,
                names@,
            ),
        decreases to - at,
    {
        let sep: usize = seek_sep(chars, at, '%');
        let end: usize = if sep < to {
            sep
        } else {
            to
        };
        match parse_input(chars, at, end, names) {
            None => {
                return Some((at, end));
            },
            Some(input) => {
                add_mappings(map, kind, input, vinputs, keyspec);
                if end < to {
                    at = end + 1;
                } else {
                    return None;
                }
            },
        }
    }
}

/// Returns the kind and the virtual inputs of each part of the setting of a key set.
pub fn keyset_mapping(setting: KeySetting) -> (parts: Vec<(Option<KeyKind>, Vec<VirtualInput>)>)
    ensures
        parts@.len() == keyset_parts(setting).len(),
        forall|i: int|
            0 <= i < parts@.len() ==> (#[trigger] parts@[i]).0 == keyset_parts(setting)[i].0
                && parts@[i].1@ == keyset_parts(setting)[i].1,
{
    let mut parts: Vec<(Option<KeyKind>, Vec<VirtualInput>)> = Vec::new();
    match setting {
        KeySetting::Keys1P => {
            parts.push((Some(KeyKind::Scratch), one_lane(6)));
            parts.push((Some(KeyKind::WhiteKey), one_lane(1)));
            parts.push((Some(KeyKind::BlackKey), one_lane(2)));
            parts.push((Some(KeyKind::WhiteKey), one_lane(3)));
            parts.push((Some(KeyKind::BlackKey), one_lane(4)));
            parts.push((Some(KeyKind::WhiteKey), one_lane(5)));
            parts.push((Some(KeyKind::BlackKey), one_lane(8)));
            parts.push((Some(KeyKind::WhiteKey), one_lane(9)));
            parts.push((Some(KeyKind::FootPedal), one_lane(7)));
        },
        KeySetting::Keys2P => {
            parts.push((Some(KeyKind::FootPedal), one_lane(43)));
            parts.push((Some(KeyKind::WhiteKey), one_lane(37)));
            parts.push((Some(KeyKind::BlackKey), one_lane(38)));
            parts.push((Some(KeyKind::WhiteKey), one_lane(39)));
            parts.push((Some(KeyKind::BlackKey), one_lane(40)));
            parts.push((Some(KeyKind::WhiteKey), one_lane(41)));
            parts.push((Some(KeyKind::BlackKey), one_lane(44)));
            parts.push((Some(KeyKind::WhiteKey), one_lane(45)));
            parts.push((Some(KeyKind::Scratch), one_lane(42)));
        },
        KeySetting::KeysPMS => {
            parts.push((Some(KeyKind::Button1), one_lane(1)));
            parts.push((Some(KeyKind::Button2), one_lane(2)));
            parts.push((Some(KeyKind::Button3), one_lane(3)));
            parts.push((Some(KeyKind::Button4), one_lane(4)));
            parts.push((Some(KeyKind::Button5), one_lane(5)));
            parts.push((Some(KeyKind::Button4), two_lanes(8, 38)));
            parts.push((Some(KeyKind::Button3), two_lanes(9, 39)));
            parts.push((Some(KeyKind::Button2), two_lanes(6, 40)));
            parts.push((Some(KeyKind::Button1), two_lanes(7, 41)));
        },
        KeySetting::KeysSpeed => {
            let mut downs: Vec<VirtualInput> = Vec::new();
            downs.push(VirtualInput::SpeedDown);
            let mut ups: Vec<VirtualInput> = Vec::new();
            ups.push(VirtualInput::SpeedUp);
            assert(downs@ =~= seq![VirtualInput::SpeedDown]);
            assert(ups@ =~= seq![VirtualInput::SpeedUp]);
            parts.push((None, downs));
            parts.push((None, ups));
        },
        KeySetting::LaneKey(_) => {},
    }
    parts
}

fn one_lane(lane: usize) -> (v: Vec<VirtualInput>)
    ensures
        v@ == seq![VirtualInput::Lane(Lane(lane))],
{
    let mut v: Vec<VirtualInput> = Vec::new();
    v.push(VirtualInput::Lane(Lane(lane)));
    assert(v@ =~= seq![VirtualInput::Lane(Lane(lane))]);
    v
}

fn two_lanes(a: usize, b: usize) -> (v: Vec<VirtualInput>)
    ensures
        v@ == seq![VirtualInput::Lane(Lane(a)), VirtualInput::Lane(Lane(b))],
{
    let mut v: Vec<VirtualInput> = Vec::new();
    v.push(VirtualInput::Lane(Lane(a)));
    v.push(VirtualInput::Lane(Lane(b)));
    assert(v@ =~= seq![VirtualInput::Lane(Lane(a)), VirtualInput::Lane(Lane(b))]);
    v
}

/// Returns the default of the setting of a key set.
pub fn keyset_default_text(setting: KeySetting) -> (s: &'static str)
    ensures
        s@ == keyset_default(setting),
{
    match setting {
        KeySetting::Keys1P => "left shift%axis 3|z%button 3|s%button 6|x%button 2|d%button 7|c%button 1|f%button 4|v%axis 2|left alt",
        KeySetting::Keys2P => "right alt|m|k|,|l|.|;|/|right shift",
        KeySetting::KeysPMS => "z|s|x|d|c|f|v|g|b",
        KeySetting::KeysSpeed => "f3|f4",
        KeySetting::LaneKey(_) => "",
    }
}

/// Reads the setting of a key set into the mapping. Returns the bounds of the first name
/// that names no input, if there is one.
fn read_keyset(
    map: &mut KeyMap,
    chars: &Vec<char>,
    setting: KeySetting,
    keyspec: &KeySpec,
    names: &Vec<KeyName>,
) -> (r: Option<(usize, usize)>)
    ensures
        match read_parts(
            old(map)@,
            chars@,
            0,
            keyset_parts(setting),
            0,
            keyspec.kinds@,
            names@,
        ) {
            Read::Fine(m) => r is None && final(map)@ == m,
            Read::Unknown(a, b) => r == Some((a as usize, b as usize)) && 0 <= a <= b <= chars@.len(),
        },
{
    let parts = keyset_mapping(setting);
    let n: usize = chars.len();
    let np: usize = parts.len();
    let mut at: usize = 0;
    let mut i: usize = 0;
    while i < np
        invariant
            n == chars@.len(),
            np == parts@.len(),
            np == keyset_parts(setting).len(),
            forall|k: int|
                0 <= k < parts@.len() ==> (#[trigger] parts@[k]).0 == keyset_parts(setting)[k].0
                    && parts@[k].1@ == keyset_parts(setting)[k].1,
            0 <= at <= n,
            0 <= i <= np,
            read_parts(
                map@,
                chars@,
                at as int,
                keyset_parts(setting),
                i as int,
                keyspec.kinds@,
                names@,
            ) == read_parts(
                old(map)@,
                chars@,
                0,
                keyset_parts(setting),
                0,
                keyspec.kinds@,
                names@,
            ),
        decreases np - i,
    {
        let end: usize = seek_sep(chars, at, '|');
        match read_part(map, chars, at, end, parts[i].0, &parts[i].1, keyspec, names) {
            Some(bounds) => {
                return Some(bounds);
            },
            None => {},
        }
        if end < n {
            at = end + 1;
            i += 1;
        } else {
            return None;
        }
    }
    None
}

/// The text of a setting: the setting itself, or the default of its key set.
pub open spec fn setting_text(config: Option<String>, setting: KeySetting) -> Seq<char> {
    match config {
        Some(text) => text@,
        None => keyset_default(setting),
    }
}

/// What the keys of the lanes of their own come to, from the place `i` of the order on: a
/// lane with a setting of its own has the whole of the setting as the name of its input.
pub open spec fn read_lanes(
    map: Map<u64, VirtualInput>,
    order: Seq<Lane>,
    i: int,
    lanes: Seq<Option<String>>,
    kinds: Seq<Option<KeyKind>>,
    names: Seq<KeyName>,
) -> (Read, int)
    decreases order.len() - i,
{
    if i < 0 || i >= order.len() {
        (Read::Fine(map), i)
    } else {
        let lane = order[i];
        if lane.0 < lanes.len() && lane.0 < kinds.len() && lanes[lane.0 as int] is Some
            && kinds[lane.0 as int] is Some {
            let text = lanes[lane.0 as int].unwrap()@;
            match input_named(text, 0, text.len() as int, names) {
                Some(input) => read_lanes(
                    map.insert(input.code_spec(), VirtualInput::Lane(lane)),
                    order,
                    i + 1,
                    lanes,
                    kinds,
                    names,
                ),
                None => (Read::Unknown(0, text.len() as int), i),
            }
        } else {
            read_lanes(map, order, i + 1, lanes, kinds, names)
        }
    }
}

/// What reading the settings comes to: the four key sets in their order, then the keys of
/// the lanes of their own in the order of the key specification. Each later mapping of an
/// input takes the place of an earlier one. The first name that names no input ends the
/// reading, and the outcome tells the setting and the name.
pub open spec fn read_keymap_spec(
    keyspec: &KeySpec,
    config: &KeyConfig,
    names: Seq<KeyName>,
) -> Result<Map<u64, VirtualInput>, (KeySetting, Seq<char>)> {
    let kinds = keyspec.kinds@;
    let t1 = setting_text(config.keys1p, KeySetting::Keys1P);
    let t2 = setting_text(config.keys2p, KeySetting::Keys2P);
    let t3 = setting_text(config.keyspms, KeySetting::KeysPMS);
    let t4 = setting_text(config.keysspeed, KeySetting::KeysSpeed);
    match read_parts(Map::empty(), t1, 0, keyset_parts(KeySetting::Keys1P), 0, kinds, names) {
        Read::Unknown(a, b) => Err((KeySetting::Keys1P, t1.subrange(a, b))),
        Read::Fine(m1) => match read_parts(
            m1,
            t2,
            0,
            keyset_parts(KeySetting::Keys2P),
            0,
            kinds,
            names,
        ) {
            Read::Unknown(a, b) => Err((KeySetting::Keys2P, t2.subrange(a, b))),
            Read::Fine(m2) => match read_parts(
                m2,
                t3,
                0,
                keyset_parts(KeySetting::KeysPMS),
                0,
                kinds,
                names,
            ) {
                Read::Unknown(a, b) => Err((KeySetting::KeysPMS, t3.subrange(a, b))),
                Read::Fine(m3) => match read_parts(
                    m3,
                    t4,
                    0,
                    keyset_parts(KeySetting::KeysSpeed),
                    0,
                    kinds,
                    names,
                ) {
                    Read::Unknown(a, b) => Err((KeySetting::KeysSpeed, t4.subrange(a, b))),
                    Read::Fine(m4) => after_lanes(keyspec, config, names, m4),
                },
            },
        },
    }
}

/// What reading the keys of the lanes of their own comes to, after the key sets.
pub open spec fn after_lanes(
    keyspec: &KeySpec,
    config: &KeyConfig,
    names: Seq<KeyName>,
    map: Map<u64, VirtualInput>,
) -> Result<Map<u64, VirtualInput>, (KeySetting, Seq<char>)> {
    match read_lanes(map, keyspec.order@, 0, config.lanes@, keyspec.kinds@, names) {
        (Read::Unknown(a, b), i) => Err(
            (
                KeySetting::LaneKey(keyspec.order@[i]),
                config.lanes@[keyspec.order@[i].0 as int].unwrap()@,
            ),
        ),
        (Read::Fine(m5), _) => Ok(m5),
    }
}

/// Reads one key set, from its setting or its default.
fn read_one(
    map: &mut KeyMap,
    config: &Option<String>,
    setting: KeySetting,
    keyspec: &KeySpec,
    names: &Vec<KeyName>,
) -> (r: Option<KeyMapError>)
    ensures
        match read_parts(
            old(map)@,
            setting_text(*config, setting),
            0,
            keyset_parts(setting),
            0,
            keyspec.kinds@,
            names@,
        ) {
            Read::Fine(m) => r is None && final(map)@ == m,
            Read::Unknown(a, b) => r matches Some(e) && e.setting == setting && e.name@
                == setting_text(*config, setting).subrange(a, b),
        },
{
    let text: &str = match config {
        Some(t) => t.as_str(),
        None => keyset_default_text(setting),
    };
    let chars = chars_of(text);
    match read_keyset(map, &chars, setting, keyspec, names) {
        Some((a, b)) => Some(
            KeyMapError { setting: setting, name: text.substring_char(a, b).to_owned() },
        ),
        None => None,
    }
}

/// Reads an input mapping from the settings of the keys. `names` holds the names of the
/// keys as the input device gives them, in the order of the keys.
pub fn read_keymap(keyspec: &KeySpec, config: &KeyConfig, names: &Vec<KeyName>) -> (r: Result<
    KeyMap,
    KeyMapError,
>)
    ensures
        match read_keymap_spec(keyspec, config, names@) {
            Ok(m) => r matches Ok(map) && map@ == m,
            Err((setting, name)) => r matches Err(e) && e.setting == setting && e.name@ == name,
        },
{
    let mut map = KeyMap::new();
    match read_one(&mut map, &config.keys1p, KeySetting::Keys1P, keyspec, names) {
        Some(e) => {
            return Err(e);
        },
        None => {},
    }
    match read_one(&mut map, &config.keys2p, KeySetting::Keys2P, keyspec, names) {
        Some(e) => {
            return Err(e);
        },
        None => {},
    }
    match read_one(&mut map, &config.keyspms, KeySetting::KeysPMS, keyspec, names) {
        Some(e) => {
            return Err(e);
        },
        None => {},
    }
    match read_one(&mut map, &config.keysspeed, KeySetting::KeysSpeed, keyspec, names) {
        Some(e) => {
            return Err(e);
        },
        None => {},
    }
    let ghost m4 = map@;
    let n: usize = keyspec.order.len();
    let mut i: usize = 0;
    while i < n
        invariant
            n == keyspec.order@.len(),
            0 <= i <= n,
            read_keymap_spec(keyspec, config, names@) == after_lanes(keyspec, config, names@, m4),
            read_lanes(map@, keyspec.order@, i as int, config.lanes@, keyspec.kinds@, names@)
                == read_lanes(m4, keyspec.order@, 0, config.lanes@, keyspec.kinds@, names@),
        decreases n - i,
    {
        let lane = keyspec.order[i];
        if lane.0 < config.lanes.len() && lane.0 < keyspec.kinds.len() {
            match (&config.lanes[lane.0], keyspec.kinds[lane.0]) {
                (Some(text), Some(_)) => {
                    let chars = chars_of(text.as_str());
                    match parse_input(&chars, 0, chars.len(), names) {
                        Some(input) => {
                            map.insert(input, VirtualInput::Lane(lane));
                        },
                        None => {
                            return Err(
                                KeyMapError { setting: KeySetting::LaneKey(lane), name: text.clone() },
                            );
                        },
                    }
                },
                _ => {},
            }
        }
        i += 1;
    }
    Ok(map)
}

} // verus!
