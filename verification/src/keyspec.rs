//! Key kinds and specification.

use vstd::prelude::*;
use crate::bms::{Bms, PlayMode};
use crate::modf::filter_lanes;
use crate::obj::{Lane, Obj, NLANES};
use crate::obj::ObjQueryOps;
use crate::text::{chars_of, digit36, digit36_char, is_space, is_space_char, is_word, lowered};
use crate::timeline::Timeline;

verus! {

/// Key kinds. They define an appearance of particular lane, but otherwise ignored for the game
/// play.
#[derive(Clone, Copy, Debug, PartialEq, Eq, Structural)]
pub enum KeyKind {
    /// White key, which mimics a real white key in the musical keyboard.
    WhiteKey,
    /// White key, but rendered yellow.
    WhiteKeyAlt,
    /// Black key, which mimics a real black key in the keyboard but rendered light blue.
    BlackKey,
    /// Scratch, rendered red. Scratch lane is wider than other "keys" and normally doesn't
    /// count as a key.
    Scratch,
    /// Foot pedal, rendered green. Otherwise has the same properties as scratch.
    FootPedal,
    /// White button. The "buttons" are wider than aforementioned "keys" but narrower than
    /// scratch and foot pedal.
    Button1,
    /// Yellow button.
    Button2,
    /// Green button.
    Button3,
    /// Navy button.
    Button4,
    /// Red button.
    Button5,
}

impl KeyKind {
    /// The ten key kinds, in the order of their declaration.
    pub open spec fn all_spec() -> Seq<KeyKind> {
        seq![
            KeyKind::WhiteKey,
            KeyKind::WhiteKeyAlt,
            KeyKind::BlackKey,
            KeyKind::Scratch,
            KeyKind::FootPedal,
            KeyKind::Button1,
            KeyKind::Button2,
            KeyKind::Button3,
            KeyKind::Button4,
            KeyKind::Button5,
        ]
    }

    /// The key kind that a mnemonic character stands for in a key specification.
    pub open spec fn from_char_spec(c: char) -> Option<KeyKind> {
        if c == 'a' {
            Some(KeyKind::WhiteKey)
        } else if c == 'y' {
            Some(KeyKind::WhiteKeyAlt)
        } else if c == 'b' {
            Some(KeyKind::BlackKey)
        } else if c == 's' {
            Some(KeyKind::Scratch)
        } else if c == 'p' {
            Some(KeyKind::FootPedal)
        } else if c == 'q' {
            Some(KeyKind::Button1)
        } else if c == 'w' {
            Some(KeyKind::Button2)
        } else if c == 'e' {
            Some(KeyKind::Button3)
        } else if c == 'r' {
            Some(KeyKind::Button4)
        } else if c == 't' {
            Some(KeyKind::Button5)
        } else {
            None
        }
    }

    /// The character that names the key kind in the name of a per-lane key setting.
    pub open spec fn to_char_spec(self) -> char {
        match self {
            KeyKind::WhiteKey => 'a',
            KeyKind::WhiteKeyAlt => 'y',
            KeyKind::BlackKey => 'b',
            KeyKind::Scratch => 's',
            KeyKind::FootPedal => 'p',
            KeyKind::Button1 => 'w',
            KeyKind::Button2 => 'e',
            KeyKind::Button3 => 'r',
            KeyKind::Button4 => 't',
            KeyKind::Button5 => 's',
        }
    }

    /// True unless the kind is a scratch or a foot pedal.
    pub open spec fn counts_as_key_spec(self) -> bool {
        !(self is Scratch) && !(self is FootPedal)
    }

    /// Returns a list of all supported key kinds.
    pub fn all() -> (kinds: Vec<KeyKind>)
        ensures
            kinds@ == KeyKind::all_spec(),
    {
        let mut kinds: Vec<KeyKind> = Vec::new();
        kinds.push(KeyKind::WhiteKey);
        kinds.push(KeyKind::WhiteKeyAlt);
        kinds.push(KeyKind::BlackKey);
        kinds.push(KeyKind::Scratch);
        kinds.push(KeyKind::FootPedal);
        kinds.push(KeyKind::Button1);
        kinds.push(KeyKind::Button2);
        kinds.push(KeyKind::Button3);
        kinds.push(KeyKind::Button4);
        kinds.push(KeyKind::Button5);
        assert(kinds@ =~= KeyKind::all_spec());
        kinds
    }

    /// Converts a mnemonic character to an appropriate key kind. Used for parsing a key
    /// specification (see also `KeySpec`).
    pub fn from_char(c: char) -> (kind: Option<KeyKind>)
        ensures
            kind == KeyKind::from_char_spec(c),
    {
        if c == 'a' {
            Some(KeyKind::WhiteKey)
        } else if c == 'y' {
            Some(KeyKind::WhiteKeyAlt)
        } else if c == 'b' {
            Some(KeyKind::BlackKey)
        } else if c == 's' {
            Some(KeyKind::Scratch)
        } else if c == 'p' {
            Some(KeyKind::FootPedal)
        } else if c == 'q' {
            Some(KeyKind::Button1)
        } else if c == 'w' {
            Some(KeyKind::Button2)
        } else if c == 'e' {
            Some(KeyKind::Button3)
        } else if c == 'r' {
            Some(KeyKind::Button4)
        } else if c == 't' {
            Some(KeyKind::Button5)
        } else {
            None
        }
    }

    /// Converts an appropriate key kind to a mnemonic character. Used for the names of the
    /// per-lane key settings. For the five buttons it is not the character that `from_char`
    /// reads: it is the one of the next button, and `'s'` for the last.
    pub fn to_char(self) -> (c: char)
        ensures
            c == self.to_char_spec(),
    {
        match self {
            KeyKind::WhiteKey => 'a',
            KeyKind::WhiteKeyAlt => 'y',
            KeyKind::BlackKey => 'b',
            KeyKind::Scratch => 's',
            KeyKind::FootPedal => 'p',
            KeyKind::Button1 => 'w',
            KeyKind::Button2 => 'e',
            KeyKind::Button3 => 'r',
            KeyKind::Button4 => 't',
            KeyKind::Button5 => 's',
        }
    }

    /// Returns true if a kind counts as a "key".
    ///
    /// This affects the number of keys displayed in the loading screen, and reflects a common
    /// practice of counting "keys" in many games.
    pub fn counts_as_key(self) -> (r: bool)
        ensures
            r == self.counts_as_key_spec(),
    {
        match self {
            KeyKind::Scratch | KeyKind::FootPedal => false,
            _ => true,
        }
    }
}

/// The key specification. Specifies the order and apperance of lanes. Once determined from
/// the options and chart file, the key specification is fixed and independent of other data.
pub struct KeySpec {
    /// The number of lanes on the left side. This number is significant only when Couple Play
    /// is used.
    pub split: usize,
    /// The order of significant lanes. The first `split` lanes go to the left side and
    /// the remaining lanes go to the right side.
    pub order: Vec<Lane>,
    /// The type of lanes.
    pub kinds: Vec<Option<KeyKind>>,
}

/// Why a key specification could not be determined.
#[derive(Debug, PartialEq, Eq)]
pub enum KeySpecError {
    /// No preset has the name; the name is kept, empty if none was given.
    InvalidPreset(String),
    /// No key specification was given for the left hand side.
    NoKeyModel,
    /// The key specification for the left hand side is malformed or empty, or names a lane
    /// twice.
    InvalidLeft(String),
    /// The key specification for the right hand side is malformed or empty, or names a lane
    /// twice.
    InvalidRight(String),
}

/// The number of kinds among the first `upto` that count as keys.
pub open spec fn count_keys(kinds: Seq<Option<KeyKind>>, upto: int) -> nat
    decreases upto,
{
    if upto <= 0 {
        0
    } else {
        count_keys(kinds, upto - 1) + match kinds[upto - 1] {
            Some(kind) => if kind.counts_as_key_spec() {
                1nat
            } else {
                0nat
            },
            None => 0nat,
        }
    }
}

impl KeySpec {
    /// A key specification is well formed if it has a kind, or none, for each of the `NLANES`
    /// lanes, the split lies within the order, and each lane of the order is a lane with a
    /// kind that no other place of the order names.
    pub open spec fn wf(&self) -> bool {
        &&& self.kinds@.len() == NLANES
        &&& self.split <= self.order@.len()
        &&& forall|i: int|
            0 <= i < self.order@.len() ==> (#[trigger] self.order@[i]).0 < NLANES
                && self.kinds@[self.order@[i].0 as int] is Some
        &&& forall|i: int, j: int|
            0 <= i < j < self.order@.len() ==> self.order@[i] != self.order@[j]
    }

    /// Returns a number of lanes that count towards "keys". Notably scratches and pedals do not
    /// count as keys.
    pub fn nkeys(&self) -> (n: usize)
        ensures
            n == count_keys(self.kinds@, self.kinds@.len() as int),
    {
        let len: usize = self.kinds.len();
        let mut n: usize = 0;
        let mut i: usize = 0;
        while i < len
            invariant
                len == self.kinds@.len(),
                0 <= i <= len,
                n == count_keys(self.kinds@, i as int),
                n <= i,
            decreases len - i,
        {
            match self.kinds[i] {
                Some(kind) => {
                    if kind.counts_as_key() {
                        n += 1;
                    }
                },
                None => {},
            }
            i += 1;
        }
        n
    }

    /// Returns a list of lanes on the left side, from left to right.
    pub fn left_lanes(&self) -> (lanes: Vec<Lane>)
        requires
            self.split <= self.order@.len(),
        ensures
            lanes@ == self.order@.take(self.split as int),
    {
        let mut lanes: Vec<Lane> = Vec::new();
        let mut i: usize = 0;
        while i < self.split
            invariant
                self.split <= self.order@.len(),
                0 <= i <= self.split,
                lanes@ == self.order@.take(i as int),
            decreases self.split - i,
        {
            lanes.push(self.order[i]);
            i += 1;
            assert(lanes@ =~= self.order@.take(i as int));
        }
        lanes
    }

    /// Returns a list of lanes on the right side if any, from left to right.
    pub fn right_lanes(&self) -> (lanes: Vec<Lane>)
        requires
            self.split <= self.order@.len(),
        ensures
            lanes@ == self.order@.skip(self.split as int),
    {
        let n: usize = self.order.len();
        let mut lanes: Vec<Lane> = Vec::new();
        let mut i: usize = self.split;
        while i < n
            invariant
                n == self.order@.len(),
                self.split <= i <= n,
                lanes@ == self.order@.subrange(self.split as int, i as int),
            decreases n - i,
        {
            lanes.push(self.order[i]);
            i += 1;
            assert(lanes@ =~= self.order@.subrange(self.split as int, i as int));
        }
        assert(lanes@ =~= self.order@.skip(self.split as int));
        lanes
    }

    /// Removes insignificant lanes: an object in a lane that the order does not name becomes
    /// the effect that is left of it.
    pub fn filter_timeline(&self, timeline: &mut Timeline)
        ensures
            final(timeline).initbpm == old(timeline).initbpm,
            final(timeline).objs@ == crate::modf::filtered(old(timeline).objs@, self.order@),
    {
        filter_lanes(timeline, &self.order);
    }
}

/// The lane and the kind that the three characters from index `i` on name, if they name one:
/// two digits of base 36 for the channel of a lane, from `10` to `2Z`, and the mnemonic
/// character of a kind.
pub open spec fn item_at(s: Seq<char>, i: int) -> Option<(Lane, KeyKind)> {
    if 0 <= i && i + 3 <= s.len() {
        match (digit36(s[i]), digit36(s[i + 1]), KeyKind::from_char_spec(s[i + 2])) {
            (Some(hi), Some(lo), Some(kind)) => {
                let chan = hi * 36 + lo;
                if 36 <= chan <= 107 {
                    Some((Lane((chan - 36) as usize), kind))
                } else {
                    None
                }
            },
            _ => None,
        }
    } else {
        None
    }
}

/// The items that the text names from index `i` on, where an item may begin, or `None` if
/// what is there is no list of items. White space may stand before and after each item.
pub open spec fn items_from(s: Seq<char>, i: int) -> Option<Seq<(Lane, KeyKind)>>
    decreases s.len() - i,
{
    if i < 0 || i >= s.len() {
        Some(Seq::empty())
    } else if is_space(s[i]) {
        items_from(s, i + 1)
    } else {
        match item_at(s, i) {
            Some(item) => match items_from(s, i + 3) {
                Some(rest) => Some(seq![item] + rest),
                None => None,
            },
            None => None,
        }
    }
}

/// Parses the key specification from the string: items of a channel and a kind, such as
/// `16s 11a 12b`, with optional white space around them.
pub fn parse_key_spec(s: &str) -> (specs: Option<Vec<(Lane, KeyKind)>>)
    ensures
        match specs {
            Some(v) => items_from(s@, 0) == Some(v@),
            None => items_from(s@, 0) is None,
        },
{
    let chars = chars_of(s);
    let n: usize = chars.len();
    let mut specs: Vec<(Lane, KeyKind)> = Vec::new();
    let mut i: usize = 0;
    while i < n
        invariant
            n == chars@.len(),
            chars@ == s@,
            0 <= i <= n,
            items_from(s@, 0) == match items_from(s@, i as int) {
                Some(rest) => Some(specs@ + rest),
                None => None,
            },
        decreases n - i,
    {
        if is_space_char(chars[i]) {
            i += 1;
        } else {
            if n - i < 3 {
                return None;
            }
            let hi = digit36_char(chars[i]);
            let lo = digit36_char(chars[i + 1]);
            let kind = KeyKind::from_char(chars[i + 2]);
            match (hi, lo, kind) {
                (Some(hi), Some(lo), Some(kind)) => {
                    let chan: u32 = hi * 36 + lo;
                    if chan < 36 || chan > 107 {
                        return None;
                    }
                    let item = (Lane((chan - 36) as usize), kind);
                    proof {
                        let rest = items_from(s@, i + 3);
                        if rest is Some {
                            assert(specs@ + (seq![item] + rest.unwrap()) =~= specs@.push(item)
                                + rest.unwrap());
                        }
                    }
                    specs.push(item);
                    i += 3;
                },
                _ => {
                    return None;
                },
            }
        }
    }
    assert(specs@ + Seq::<(Lane, KeyKind)>::empty() =~= specs@);
    Some(specs)
}

/// The well-known key specifications.
#[derive(Clone, Copy, Debug, PartialEq, Eq, Structural)]
pub enum Preset {
    /// 5 keys and a scratch, single play.
    Keys5,
    /// 5 keys and a scratch on each side.
    Keys10,
    /// 5 keys, a scratch and a foot pedal, single play.
    Keys5Fp,
    /// 5 keys, a scratch and a foot pedal on each side.
    Keys10Fp,
    /// 7 keys and a scratch, single play.
    Keys7,
    /// 7 keys and a scratch on each side.
    Keys14,
    /// 7 keys, a scratch and a foot pedal, single play.
    Keys7Fp,
    /// 7 keys, a scratch and a foot pedal on each side.
    Keys14Fp,
    /// 9 buttons over both sides' channels.
    Buttons9,
    /// 9 buttons over the channels of one side.
    Buttons9Bme,
}

impl Preset {
    /// The name of the preset.
    pub open spec fn name_spec(self) -> Seq<char> {
        match self {
            Preset::Keys5 => "5"@,
            Preset::Keys10 => "10"@,
            Preset::Keys5Fp => "5/fp"@,
            Preset::Keys10Fp => "10/fp"@,
            Preset::Keys7 => "7"@,
            Preset::Keys14 => "14"@,
            Preset::Keys7Fp => "7/fp"@,
            Preset::Keys14Fp => "14/fp"@,
            Preset::Buttons9 => "9"@,
            Preset::Buttons9Bme => "9-bme"@,
        }
    }

    /// The key specifications of the left and of the right hand side.
    pub open spec fn keys_spec(self) -> (Seq<char>, Seq<char>) {
        match self {
            Preset::Keys5 => ("16s 11a 12b 13a 14b 15a"@, ""@),
            Preset::Keys10 => ("16s 11a 12b 13a 14b 15a"@, "21a 22b 23a 24b 25a 26s"@),
            Preset::Keys5Fp => ("16s 11a 12b 13a 14b 15a 17p"@, ""@),
            Preset::Keys10Fp => (
                "16s 11a 12b 13a 14b 15a 17p"@,
                "27p 21a 22b 23a 24b 25a 26s"@,
            ),
            Preset::Keys7 => ("16s 11a 12b 13a 14b 15a 18b 19a"@, ""@),
            Preset::Keys14 => (
                "16s 11a 12b 13a 14b 15a 18b 19a"@,
                "21a 22b 23a 24b 25a 28b 29a 26s"@,
            ),
            Preset::Keys7Fp => ("16s 11a 12b 13a 14b 15a 18b 19a 17p"@, ""@),
            Preset::Keys14Fp => (
                "16s 11a 12b 13a 14b 15a 18b 19a 17p"@,
                "27p 21a 22b 23a 24b 25a 28b 29a 26s"@,
            ),
            Preset::Buttons9 => ("11q 12w 13e 14r 15t 22r 23e 24w 25q"@, ""@),
            Preset::Buttons9Bme => ("11q 12w 13e 14r 15t 18r 19e 16w 17q"@, ""@),
        }
    }

    /// The first preset, in the order of their declaration, whose name is `name` but for
    /// the case of letters.
    pub open spec fn named_spec(name: Seq<char>) -> Option<Preset> {
        let l = lowered(name);
        if l == lowered(Preset::Keys5.name_spec()) {
            Some(Preset::Keys5)
        } else if l == lowered(Preset::Keys10.name_spec()) {
            Some(Preset::Keys10)
        } else if l == lowered(Preset::Keys5Fp.name_spec()) {
            Some(Preset::Keys5Fp)
        } else if l == lowered(Preset::Keys10Fp.name_spec()) {
            Some(Preset::Keys10Fp)
        } else if l == lowered(Preset::Keys7.name_spec()) {
            Some(Preset::Keys7)
        } else if l == lowered(Preset::Keys14.name_spec()) {
            Some(Preset::Keys14)
        } else if l == lowered(Preset::Keys7Fp.name_spec()) {
            Some(Preset::Keys7Fp)
        } else if l == lowered(Preset::Keys14Fp.name_spec()) {
            Some(Preset::Keys14Fp)
        } else if l == lowered(Preset::Buttons9.name_spec()) {
            Some(Preset::Buttons9)
        } else if l == lowered(Preset::Buttons9Bme.name_spec()) {
            Some(Preset::Buttons9Bme)
        } else {
            None
        }
    }

    /// The preset for a chart of keys: 7 keys if the chart uses the sixth or seventh key of
    /// either side, else 5; both sides for couple and double play; with a foot pedal if the
    /// chart uses one.
    pub open spec fn for_keys_spec(objs: Seq<Obj>, mode: PlayMode) -> Preset {
        let isbme = lane_present(objs, 8) || lane_present(objs, 9) || lane_present(objs, 44)
            || lane_present(objs, 45);
        let haspedal = lane_present(objs, 7) || lane_present(objs, 43);
        let both = mode is Couple || mode is Double;
        if both {
            if isbme {
                if haspedal {
                    Preset::Keys14Fp
                } else {
                    Preset::Keys14
                }
            } else {
                if haspedal {
                    Preset::Keys10Fp
                } else {
                    Preset::Keys10
                }
            }
        } else {
            if isbme {
                if haspedal {
                    Preset::Keys7Fp
                } else {
                    Preset::Keys7
                }
            } else {
                if haspedal {
                    Preset::Keys5Fp
                } else {
                    Preset::Keys5
                }
            }
        }
    }

    /// The preset for a chart of buttons: the one over the channels of one side if the chart
    /// uses any of the channels 16 to 19.
    pub open spec fn for_buttons_spec(objs: Seq<Obj>) -> Preset {
        if lane_present(objs, 6) || lane_present(objs, 7) || lane_present(objs, 8) || lane_present(
            objs,
            9,
        ) {
            Preset::Buttons9Bme
        } else {
            Preset::Buttons9
        }
    }

    /// The preset that a name stands for with a given chart: the pseudo-presets `bms`, `bme`,
    /// `bml` and no name at all choose among the presets of keys, `pms` chooses among those of
    /// buttons, any other name is that of a preset or of nothing.
    pub open spec fn resolve_spec(objs: Seq<Obj>, mode: PlayMode, preset: Option<Seq<char>>) -> Option<
        Preset,
    > {
        match preset {
            None => Some(Preset::for_keys_spec(objs, mode)),
            Some(name) => {
                let l = lowered(name);
                if l == lowered("bms"@) || l == lowered("bme"@) || l == lowered("bml"@) {
                    Some(Preset::for_keys_spec(objs, mode))
                } else if l == lowered("pms"@) {
                    Some(Preset::for_buttons_spec(objs))
                } else {
                    Preset::named_spec(name)
                }
            },
        }
    }

    /// Returns the name of the preset.
    pub fn name(self) -> (s: &'static str)
        ensures
            s@ == self.name_spec(),
    {
        match self {
            Preset::Keys5 => "5",
            Preset::Keys10 => "10",
            Preset::Keys5Fp => "5/fp",
            Preset::Keys10Fp => "10/fp",
            Preset::Keys7 => "7",
            Preset::Keys14 => "14",
            Preset::Keys7Fp => "7/fp",
            Preset::Keys14Fp => "14/fp",
            Preset::Buttons9 => "9",
            Preset::Buttons9Bme => "9-bme",
        }
    }

    /// Returns the key specifications of the left and of the right hand side.
    pub fn keys(self) -> (lr: (&'static str, &'static str))
        ensures
            lr.0@ == self.keys_spec().0,
            lr.1@ == self.keys_spec().1,
    {
        match self {
            Preset::Keys5 => ("16s 11a 12b 13a 14b 15a", ""),
            Preset::Keys10 => ("16s 11a 12b 13a 14b 15a", "21a 22b 23a 24b 25a 26s"),
            Preset::Keys5Fp => ("16s 11a 12b 13a 14b 15a 17p", ""),
            Preset::Keys10Fp => ("16s 11a 12b 13a 14b 15a 17p", "27p 21a 22b 23a 24b 25a 26s"),
            Preset::Keys7 => ("16s 11a 12b 13a 14b 15a 18b 19a", ""),
            Preset::Keys14 => (
                "16s 11a 12b 13a 14b 15a 18b 19a",
                "21a 22b 23a 24b 25a 28b 29a 26s",
            ),
            Preset::Keys7Fp => ("16s 11a 12b 13a 14b 15a 18b 19a 17p", ""),
            Preset::Keys14Fp => (
                "16s 11a 12b 13a 14b 15a 18b 19a 17p",
                "27p 21a 22b 23a 24b 25a 28b 29a 26s",
            ),
            Preset::Buttons9 => ("11q 12w 13e 14r 15t 22r 23e 24w 25q", ""),
            Preset::Buttons9Bme => ("11q 12w 13e 14r 15t 18r 19e 16w 17q", ""),
        }
    }

    /// Returns the preset of the given name, whatever the case of its letters.
    pub fn named(name: &str) -> (p: Option<Preset>)
        ensures
            p == Preset::named_spec(name@),
    {
        let chars = chars_of(name);
        if is_word(&chars, Preset::Keys5.name()) {
            Some(Preset::Keys5)
        } else if is_word(&chars, Preset::Keys10.name()) {
            Some(Preset::Keys10)
        } else if is_word(&chars, Preset::Keys5Fp.name()) {
            Some(Preset::Keys5Fp)
        } else if is_word(&chars, Preset::Keys10Fp.name()) {
            Some(Preset::Keys10Fp)
        } else if is_word(&chars, Preset::Keys7.name()) {
            Some(Preset::Keys7)
        } else if is_word(&chars, Preset::Keys14.name()) {
            Some(Preset::Keys14)
        } else if is_word(&chars, Preset::Keys7Fp.name()) {
            Some(Preset::Keys7Fp)
        } else if is_word(&chars, Preset::Keys14Fp.name()) {
            Some(Preset::Keys14Fp)
        } else if is_word(&chars, Preset::Buttons9.name()) {
            Some(Preset::Buttons9)
        } else if is_word(&chars, Preset::Buttons9Bme.name()) {
            Some(Preset::Buttons9Bme)
        } else {
            None
        }
    }
}

/// True if an object lies in the lane of the given number.
pub open spec fn lane_present(objs: Seq<Obj>, lane: int) -> bool {
    exists|i: int|
        0 <= i < objs.len() && (#[trigger] objs[i]).data.lane_spec() == Some(Lane(lane as usize))
}

/// Tells, for each lane, whether an object lies in it.
pub fn present_lanes(timeline: &Timeline) -> (present: Vec<bool>)
    ensures
        present@.len() == NLANES,
        forall|lane: int| 0 <= lane < NLANES ==> present@[lane] == lane_present(timeline.objs@, lane),
{
    let mut present: Vec<bool> = Vec::new();
    let mut k: usize = 0;
    while k < NLANES
        invariant
            0 <= k <= NLANES,
            present@.len() == k,
            forall|lane: int| 0 <= lane < k ==> present@[lane] == false,
        decreases NLANES - k,
    {
        present.push(false);
        k += 1;
    }
    let n: usize = timeline.objs.len();
    let mut i: usize = 0;
    while i < n
        invariant
            n == timeline.objs@.len(),
            0 <= i <= n,
            present@.len() == NLANES,
            forall|lane: int|
                0 <= lane < NLANES ==> present@[lane] == lane_present(
                    timeline.objs@.take(i as int),
                    lane,
                ),
        decreases n - i,
    {
        let ghost before = timeline.objs@.take(i as int);
        let ghost after = timeline.objs@.take(i + 1);
        let obj = &timeline.objs[i];
        let lane = obj.object_lane();
        proof {
            assert forall|l: int| 0 <= l < NLANES implies lane_present(after, l) == (lane_present(
                before,
                l,
            ) || lane == Some(Lane(l as usize))) by {
                if lane_present(before, l) {
                    let j = choose|j: int|
                        0 <= j < before.len() && (#[trigger] before[j]).data.lane_spec() == Some(Lane(l as usize));
                    assert(after[j] == before[j]);
                }
                if lane == Some(Lane(l as usize)) {
                    assert(after[i as int] == timeline.objs@[i as int]);
                }
                if lane_present(after, l) {
                    let j = choose|j: int|
                        0 <= j < after.len() && (#[trigger] after[j]).data.lane_spec() == Some(Lane(l as usize));
                    if j < i {
                        assert(before[j] == after[j]);
                    }
                }
            }
        }
        match lane {
            Some(l) => {
                if l.0 < NLANES {
                    present.set(l.0, true);
                }
            },
            None => {},
        }
        i += 1;
    }
    assert(timeline.objs@.take(n as int) =~= timeline.objs@);
    present
}

/// Determines the key specification from the preset name, in the absence of explicit key
/// specification.
///
/// Besides from the presets themselves, this function also allows the following
/// pseudo-presets inferred from the chart:
///
/// - `bms`, `bme`, `bml` or no preset: Selects one of eight presets `{5,7,10,14}[/fp]`.
/// - `pms`: Selects one of two presets `9` and `9-bme`.
pub fn preset_to_key_spec(bms: &Bms, preset: Option<String>) -> (keys: Option<(String, String)>)
    ensures
        match Preset::resolve_spec(
            bms.timeline.objs@,
            bms.meta.mode,
            match preset {
                Some(name) => Some(name@),
                None => None,
            },
        ) {
            Some(p) => keys matches Some(lr) && lr.0@ == p.keys_spec().0 && lr.1@
                == p.keys_spec().1,
            None => keys is None,
        },
{
    let resolved = resolve_preset(bms, &preset);
    match resolved {
        Some(p) => {
            let (left, right) = p.keys();
            Some((left.to_owned(), right.to_owned()))
        },
        None => None,
    }
}

/// Chooses the preset that a name stands for with the given chart.
pub fn resolve_preset(bms: &Bms, preset: &Option<String>) -> (p: Option<Preset>)
    ensures
        p == Preset::resolve_spec(
            bms.timeline.objs@,
            bms.meta.mode,
            match *preset {
                Some(name) => Some(name@),
                None => None,
            },
        ),
{
    let pseudo: u8 = match preset {
        None => 1,
        Some(name) => {
            let chars = chars_of(name.as_str());
            if is_word(&chars, "bms") || is_word(&chars, "bme") || is_word(&chars, "bml") {
                1
            } else if is_word(&chars, "pms") {
                2
            } else {
                0
            }
        },
    };
    if pseudo == 0 {
        match preset {
            Some(name) => Preset::named(name.as_str()),
            None => None,
        }
    } else {
        let present = present_lanes(&bms.timeline);
        if pseudo == 1 {
            let isbme = present[8] || present[9] || present[36 + 8] || present[36 + 9];
            let haspedal = present[7] || present[36 + 7];
            let both = match bms.meta.mode {
                PlayMode::Couple | PlayMode::Double => true,
                _ => false,
            };
            Some(
                if both {
                    if isbme {
                        if haspedal {
                            Preset::Keys14Fp
                        } else {
                            Preset::Keys14
                        }
                    } else {
                        if haspedal {
                            Preset::Keys10Fp
                        } else {
                            Preset::Keys10
                        }
                    }
                } else {
                    if isbme {
                        if haspedal {
                            Preset::Keys7Fp
                        } else {
                            Preset::Keys7
                        }
                    } else {
                        if haspedal {
                            Preset::Keys5Fp
                        } else {
                            Preset::Keys5
                        }
                    }
                },
            )
        } else {
            let isbme = present[6] || present[7] || present[8] || present[9];
            Some(
                if isbme {
                    Preset::Buttons9Bme
                } else {
                    Preset::Buttons9
                },
            )
        }
    }
}

/// The index of the last occurrence of a character, or -1 if there is none.
pub open spec fn last_index(s: Seq<char>, c: char) -> int
    decreases s.len(),
{
    if s.len() == 0 {
        -1
    } else if s.last() == c {
        s.len() - 1
    } else {
        last_index(s.drop_last(), c)
    }
}

/// The extension of the file that a path names: what follows the last dot of the part after
/// the last slash, unless that part has no dot or only a leading one.
pub open spec fn extension(path: Seq<char>) -> Option<Seq<char>> {
    let name = path.skip(last_index(path, '/') + 1);
    let dot = last_index(name, '.');
    if dot <= 0 {
        None
    } else {
        Some(name.skip(dot + 1))
    }
}

/// True if the path names a file with the extension `pms`, in either case.
pub open spec fn is_pms_path(path: Option<Seq<char>>) -> bool {
    match path {
        Some(p) => match extension(p) {
            Some(ext) => lowered(ext) == lowered("pms"@),
            None => false,
        },
        None => false,
    }
}

/// Returns the index after the last occurrence of a character among the first `upto`
/// characters from `from` on, or 0 if there is none.
fn after_last(chars: &Vec<char>, from: usize, c: char) -> (r: usize)
    requires
        from <= chars@.len(),
    ensures
        r == last_index(chars@.skip(from as int), c) + 1,
        r <= chars@.len() - from,
{
    let n: usize = chars.len();
    let ghost part = chars@.skip(from as int);
    let mut r: usize = 0;
    let mut i: usize = from;
    assert(part.take(0) =~= Seq::<char>::empty());
    while i < n
        invariant
            n == chars@.len(),
            part == chars@.skip(from as int),
            from <= i <= n,
            r == last_index(part.take(i - from), c) + 1,
            r <= i - from,
        decreases n - i,
    {
        proof {
            assert(part.take(i - from + 1).drop_last() =~= part.take(i - from));
            assert(part.take(i - from + 1).last() == chars@[i as int]);
        }
        if chars[i] == c {
            r = i - from + 1;
        }
        i += 1;
    }
    assert(part.take(n - from) =~= part);
    r
}

/// True if the path names a file with the extension `word`, in either case.
pub open spec fn has_extension(path: Seq<char>, word: Seq<char>) -> bool {
    match extension(path) {
        Some(ext) => lowered(ext) == lowered(word),
        None => false,
    }
}

/// Tells whether the path names a file with the extension `word`, in either case.
pub fn path_has_extension(path: &str, word: &str) -> (r: bool)
    ensures
        r == has_extension(path@, word@),
{
    let chars = chars_of(path);
    let n: usize = chars.len();
    let start: usize = after_last(&chars, 0, '/');
    assert(chars@.skip(0) =~= chars@);
    let dot: usize = after_last(&chars, start, '.');
    if dot <= 1 {
        false
    } else {
        let ghost name = chars@.skip(start as int);
        let mut ext: Vec<char> = Vec::new();
        let mut i: usize = start + dot;
        while i < n
            invariant
                n == chars@.len(),
                start + dot <= i <= n,
                ext@ == chars@.subrange(start + dot, i as int),
            decreases n - i,
        {
            ext.push(chars[i]);
            i += 1;
            assert(ext@ =~= chars@.subrange(start + dot, i as int));
        }
        assert(ext@ =~= name.skip(dot as int));
        is_word(&ext, word)
    }
}

/// Tells whether the path names a file with the extension `pms`, in either case.
pub fn path_is_pms(path: &Option<String>) -> (r: bool)
    ensures
        r == is_pms_path(
            match *path {
                Some(p) => Some(p@),
                None => None,
            },
        ),
{
    match path {
        None => false,
        Some(p) => path_has_extension(p.as_str(), "pms"),
    }
}

/// The lanes of the items, in order.
pub open spec fn lanes_of(items: Seq<(Lane, KeyKind)>) -> Seq<Lane> {
    Seq::new(items.len(), |i: int| items[i].0)
}

/// True if no two items name the same lane.
pub open spec fn distinct_lanes(items: Seq<(Lane, KeyKind)>) -> bool {
    forall|i: int, j: int| 0 <= i < j < items.len() ==> items[i].0 != items[j].0
}

/// The kind of each of the `NLANES` lanes after the items have given their lanes their kinds,
/// one after the other.
pub open spec fn kinds_of(items: Seq<(Lane, KeyKind)>) -> Seq<Option<KeyKind>>
    decreases items.len(),
{
    if items.len() == 0 {
        Seq::new(NLANES as nat, |l: int| None)
    } else {
        kinds_of(items.drop_last()).update(items.last().0.0 as int, Some(items.last().1))
    }
}

/// The items of one hand side, given those that came before: the text has to name at least
/// one item, and no lane may be named twice.
pub open spec fn side_items(text: Seq<char>, before: Seq<(Lane, KeyKind)>) -> Option<
    Seq<(Lane, KeyKind)>,
> {
    match items_from(text, 0) {
        Some(items) => if items.len() > 0 && distinct_lanes(before + items) {
            Some(items)
        } else {
            None
        },
        None => None,
    }
}

/// What `key_spec` comes to.
pub enum KeySpecOutcome {
    /// A key specification with the given split and items.
    Fine { split: nat, items: Seq<(Lane, KeyKind)> },
    /// No preset of the given name.
    InvalidPreset(Seq<char>),
    /// No key specification for the left hand side.
    NoKeyModel,
    /// The left hand side, as given, is no valid key specification.
    InvalidLeft(Seq<char>),
    /// The right hand side, as given, is no valid key specification.
    InvalidRight(Seq<char>),
}

/// The text, or the empty text if there is none.
pub open spec fn text_or_empty(text: Option<Seq<char>>) -> Seq<char> {
    match text {
        Some(t) => t,
        None => Seq::empty(),
    }
}

/// The outcome for the two hand sides once they are chosen.
pub open spec fn sides_outcome(mode: PlayMode, left: Seq<char>, right: Seq<char>) -> KeySpecOutcome {
    if left.len() == 0 {
        KeySpecOutcome::NoKeyModel
    } else {
        match side_items(left, Seq::empty()) {
            None => KeySpecOutcome::InvalidLeft(left),
            Some(li) => if right.len() == 0 {
                KeySpecOutcome::Fine { split: li.len(), items: li }
            } else {
                match side_items(right, li) {
                    None => KeySpecOutcome::InvalidRight(right),
                    Some(ri) => KeySpecOutcome::Fine {
                        split: if mode is Couple {
                            li.len()
                        } else {
                            li.len() + ri.len()
                        },
                        items: li + ri,
                    },
                }
            },
        }
    }
}

/// The outcome of `key_spec`. Without a key specification for either side the preset
/// decides, where a chart file with the extension `pms` and no preset stands for the preset
/// `pms`. The lanes of the right hand side lie right of the split only in couple play.
pub open spec fn key_spec_outcome(
    objs: Seq<Obj>,
    mode: PlayMode,
    path: Option<Seq<char>>,
    preset: Option<Seq<char>>,
    leftkeys: Option<Seq<char>>,
    rightkeys: Option<Seq<char>>,
) -> KeySpecOutcome {
    if leftkeys is None && rightkeys is None {
        let chosen = if preset is None && is_pms_path(path) {
            Some("pms"@)
        } else {
            preset
        };
        match Preset::resolve_spec(objs, mode, chosen) {
            Some(p) => sides_outcome(mode, p.keys_spec().0, p.keys_spec().1),
            None => KeySpecOutcome::InvalidPreset(text_or_empty(chosen)),
        }
    } else {
        sides_outcome(mode, text_or_empty(leftkeys), text_or_empty(rightkeys))
    }
}

/// True if the order and the kinds are those that the items give, and the items name
/// distinct lanes.
pub open spec fn built(order: Seq<Lane>, kinds: Seq<Option<KeyKind>>, items: Seq<(Lane, KeyKind)>) -> bool {
    &&& order == lanes_of(items)
    &&& kinds == kinds_of(items)
    &&& kinds.len() == NLANES
    &&& distinct_lanes(items)
    &&& forall|i: int| 0 <= i < items.len() ==> (#[trigger] items[i]).0.0 < NLANES
    &&& forall|l: int|
        0 <= l < NLANES ==> ((#[trigger] kinds[l]) is Some <==> exists|i: int|
            0 <= i < items.len() && (#[trigger] items[i]).0.0 == l)
}

/// Every item that a text names lies in one of the `NLANES` lanes.
pub proof fn lemma_items_in_range(s: Seq<char>, i: int)
    ensures
        items_from(s, i) matches Some(items) ==> forall|k: int|
            0 <= k < items.len() ==> (#[trigger] items[k]).0.0 < NLANES,
    decreases s.len() - i,
{
    if i < 0 || i >= s.len() {
    } else if is_space(s[i]) {
        lemma_items_in_range(s, i + 1);
    } else {
        match item_at(s, i) {
            Some(item) => {
                lemma_items_in_range(s, i + 3);
            },
            None => {},
        }
    }
}

/// Adds the items of one hand side to the order and the kinds. Returns their number, or
/// `None` if the text is no valid key specification after what is there already.
fn add_side(
    order: &mut Vec<Lane>,
    kinds: &mut Vec<Option<KeyKind>>,
    keys: &str,
    Ghost(before): Ghost<Seq<(Lane, KeyKind)>>,
) -> (added: Option<usize>)
    requires
        built(old(order)@, old(kinds)@, before),
    ensures
        match side_items(keys@, before) {
            Some(items) => added matches Some(n) && n == items.len() && built(
                final(order)@,
                final(kinds)@,
                before + items,
            ),
            None => added is None,
        },
{
    let parsed = parse_key_spec(keys);
    match parsed {
        None => None,
        Some(items) => {
            if items.len() == 0 {
                return None;
            }
            proof {
                lemma_items_in_range(keys@, 0);
            }
            let n: usize = items.len();
            let mut k: usize = 0;
            assert(before + items@.take(0) =~= before);
            while k < n
                invariant
                    n == items@.len(),
                    0 <= k <= n,
                    items_from(keys@, 0) == Some(items@),
                    forall|j: int| 0 <= j < n ==> (#[trigger] items@[j]).0.0 < NLANES,
                    built(order@, kinds@, before + items@.take(k as int)),
                decreases n - k,
            {
                let (lane, kind) = items[k];
                let ghost sofar = before + items@.take(k as int);
                let ghost next = before + items@.take(k + 1);
                proof {
                    assert(next =~= sofar.push(items@[k as int]));
                    assert(next.drop_last() =~= sofar);
                }
                if kinds[lane.0].is_some() {
                    proof {
                        let i = choose|i: int|
                            0 <= i < sofar.len() && (#[trigger] sofar[i]).0.0 == lane.0;
                        let all = before + items@;
                        assert(all[i] == sofar[i]);
                        assert(all[before.len() + k] == items@[k as int]);
                        assert(!distinct_lanes(all));
                    }
                    return None;
                }
                order.push(lane);
                kinds.set(lane.0, Some(kind));
                proof {
                    assert(order@ =~= lanes_of(next));
                    assert forall|l: int| 0 <= l < NLANES implies ((#[trigger] kinds@[l]) is Some
                        <==> exists|i: int| 0 <= i < next.len() && (#[trigger] next[i]).0.0 == l) by {
                        if l == lane.0 {
                            assert(next[next.len() - 1].0.0 == l);
                        } else {
                            if kinds@[l] is Some {
                                let i = choose|i: int|
                                    0 <= i < sofar.len() && (#[trigger] sofar[i]).0.0 == l;
                                assert(next[i] == sofar[i]);
                            }
                            if exists|i: int| 0 <= i < next.len() && (#[trigger] next[i]).0.0 == l {
                                let i = choose|i: int|
                                    0 <= i < next.len() && (#[trigger] next[i]).0.0 == l;
                                assert(sofar[i] == next[i]);
                            }
                        }
                    }
                    assert forall|i: int, j: int| 0 <= i < j < next.len() implies next[i].0
                        != next[j].0 by {
                        if j == next.len() - 1 {
                            assert(sofar[i] == next[i]);
                        } else {
                            assert(sofar[i] == next[i]);
                            assert(sofar[j] == next[j]);
                        }
                    }
                }
                k += 1;
            }
            assert(items@.take(n as int) =~= items@);
            Some(n)
        },
    }
}

/// Builds the key specification from the key specifications of the two hand sides.
pub fn key_spec_of_sides(mode: PlayMode, leftkeys: &str, rightkeys: &str) -> (r: Result<
    KeySpec,
    KeySpecError,
>)
    ensures
        match sides_outcome(mode, leftkeys@, rightkeys@) {
            KeySpecOutcome::Fine { split, items } => r matches Ok(ks) && ks.split == split
                && ks.order@ == lanes_of(items) && ks.kinds@ == kinds_of(items) && ks.wf(),
            KeySpecOutcome::InvalidPreset(name) => false,
            KeySpecOutcome::NoKeyModel => r == Err::<KeySpec, KeySpecError>(
                KeySpecError::NoKeyModel,
            ),
            KeySpecOutcome::InvalidLeft(text) => r matches Err(KeySpecError::InvalidLeft(t)) && t@
                == text,
            KeySpecOutcome::InvalidRight(text) => r matches Err(KeySpecError::InvalidRight(t))
                && t@ == text,
        },
{
    let mut order: Vec<Lane> = Vec::new();
    let mut kinds: Vec<Option<KeyKind>> = Vec::new();
    let mut l: usize = 0;
    while l < NLANES
        invariant
            0 <= l <= NLANES,
            kinds@.len() == l,
            forall|j: int| 0 <= j < l ==> kinds@[j] is None,
        decreases NLANES - l,
    {
        kinds.push(None);
        l += 1;
    }
    let ghost nothing = Seq::<(Lane, KeyKind)>::empty();
    assert(kinds@ =~= kinds_of(nothing));
    assert(order@ =~= lanes_of(nothing));
    if leftkeys.unicode_len() == 0 {
        return Err(KeySpecError::NoKeyModel);
    }
    let mut split: usize = 0;
    match add_side(&mut order, &mut kinds, leftkeys, Ghost(nothing)) {
        None => {
            return Err(KeySpecError::InvalidLeft(leftkeys.to_owned()));
        },
        Some(nkeys) => {
            split = nkeys;
            assert(order@.len() == lanes_of(nothing + side_items(leftkeys@, nothing).unwrap()).len());
        },
    }
    let ghost li = side_items(leftkeys@, nothing).unwrap();
    assert(nothing + li =~= li);
    if rightkeys.unicode_len() != 0 {
        match add_side(&mut order, &mut kinds, rightkeys, Ghost(li)) {
            None => {
                return Err(KeySpecError::InvalidRight(rightkeys.to_owned()));
            },
            Some(nkeys) => {
                match mode {
                    PlayMode::Couple => {},
                    _ => {
                        proof {
                            let ri = side_items(rightkeys@, li).unwrap();
                            assert(order@.len() == (li + ri).len());
                            assert((li + ri).len() == li.len() + ri.len());
                        }
                        split = order.len();
                    },
                }
            },
        }
    }
    let ks = KeySpec { split: split, order: order, kinds: kinds };
    proof {
        let items = if rightkeys@.len() == 0 {
            li
        } else {
            li + side_items(rightkeys@, li).unwrap()
        };
        assert(built(ks.order@, ks.kinds@, items));
        assert forall|i: int| 0 <= i < ks.order@.len() implies (#[trigger] ks.order@[i]).0
            < NLANES && ks.kinds@[ks.order@[i].0 as int] is Some by {
            assert(items[i].0.0 == ks.order@[i].0);
        }
        assert forall|i: int, j: int| 0 <= i < j < ks.order@.len() implies ks.order@[i]
            != ks.order@[j] by {
            assert(items[i].0 != items[j].0);
        }
    }
    Ok(ks)
}

/// Parses a key specification from the options: the key specifications of the two hand
/// sides if either is given, else the preset.
pub fn key_spec(
    bms: &Bms,
    preset: Option<String>,
    leftkeys: Option<String>,
    rightkeys: Option<String>,
) -> (r: Result<KeySpec, KeySpecError>)
    ensures
        match key_spec_outcome(
            bms.timeline.objs@,
            bms.meta.mode,
            match bms.bmspath {
                Some(p) => Some(p@),
                None => None,
            },
            match preset {
                Some(p) => Some(p@),
                None => None,
            },
            match leftkeys {
                Some(p) => Some(p@),
                None => None,
            },
            match rightkeys {
                Some(p) => Some(p@),
                None => None,
            },
        ) {
            KeySpecOutcome::Fine { split, items } => r matches Ok(ks) && ks.split == split
                && ks.order@ == lanes_of(items) && ks.kinds@ == kinds_of(items) && ks.wf(),
            KeySpecOutcome::InvalidPreset(name) => r matches Err(KeySpecError::InvalidPreset(t))
                && t@ == name,
            KeySpecOutcome::NoKeyModel => r == Err::<KeySpec, KeySpecError>(
                KeySpecError::NoKeyModel,
            ),
            KeySpecOutcome::InvalidLeft(text) => r matches Err(KeySpecError::InvalidLeft(t)) && t@
                == text,
            KeySpecOutcome::InvalidRight(text) => r matches Err(KeySpecError::InvalidRight(t))
                && t@ == text,
        },
{
    if leftkeys.is_none() && rightkeys.is_none() {
        let chosen: Option<String> = if preset.is_none() && path_is_pms(&bms.bmspath) {
            Some("pms".to_owned())
        } else {
            preset
        };
        match resolve_preset(bms, &chosen) {
            Some(p) => {
                let (left, right) = p.keys();
                key_spec_of_sides(bms.meta.mode, left, right)
            },
            None => {
                let name: String = match chosen {
                    Some(name) => name,
                    None => "".to_owned(),
                };
                proof {
                    reveal_strlit("");
                    assert(""@ =~= Seq::<char>::empty());
                }
                Err(KeySpecError::InvalidPreset(name))
            },
        }
    } else {
        proof {
            reveal_strlit("");
            assert(""@ =~= Seq::<char>::empty());
        }
        let left: String = match leftkeys {
            Some(t) => t,
            None => "".to_owned(),
        };
        let right: String = match rightkeys {
            Some(t) => t,
            None => "".to_owned(),
        };
        key_spec_of_sides(bms.meta.mode, left.as_str(), right.as_str())
    }
}

} // verus!
