use sonorous::input::{
    keyset_default_text, keyset_mapping, read_keymap, Event, Input, InputState, KeyCode,
    KeyConfig, KeyMap, KeyMapError, KeyName, KeySetting, VirtualInput, ESCAPE,
};
use sonorous::keyspec::{KeyKind, KeySpec};
use sonorous::obj::{Lane, NLANES};

fn names() -> Vec<KeyName> {
    let table: &[(&str, u32)] = &[
        ("backspace", 8),
        ("space", 32),
        (",", 44),
        (".", 46),
        ("/", 47),
        (";", 59),
        ("b", 98),
        ("c", 99),
        ("d", 100),
        ("f", 102),
        ("g", 103),
        ("k", 107),
        ("l", 108),
        ("m", 109),
        ("s", 115),
        ("v", 118),
        ("x", 120),
        ("z", 122),
        ("f3", 284),
        ("f4", 285),
        ("right shift", 303),
        ("left shift", 304),
        ("right alt", 307),
        ("left alt", 308),
        ("Z", 999),
    ];
    table.iter().map(|&(name, key)| KeyName { name: name.to_string(), key: KeyCode(key) }).collect()
}

fn seven_keys() -> KeySpec {
    let order = [6usize, 1, 2, 3, 4, 5, 8, 9];
    let mut kinds = vec![None; NLANES];
    for &l in &order {
        kinds[l] = Some(match l {
            6 => KeyKind::Scratch,
            1 | 3 | 5 | 9 => KeyKind::WhiteKey,
            _ => KeyKind::BlackKey,
        });
    }
    KeySpec { split: 8, order: order.iter().map(|&l| Lane(l)).collect(), kinds: kinds }
}

fn defaults() -> KeyConfig {
    KeyConfig { keys1p: None, keys2p: None, keyspms: None, keysspeed: None, lanes: vec![None; NLANES] }
}

#[test]
fn from_event_maps_each_kind_of_event() {
    assert_eq!(Input::from_event(Event::Quit), Some((Input::Quit, InputState::Positive)));
    assert_eq!(
        Input::from_event(Event::Key(KeyCode(ESCAPE), false)),
        Some((Input::Quit, InputState::Positive))
    );
    assert_eq!(
        Input::from_event(Event::Key(KeyCode(122), true)),
        Some((Input::Key(KeyCode(122)), InputState::Positive))
    );
    assert_eq!(
        Input::from_event(Event::Key(KeyCode(122), false)),
        Some((Input::Key(KeyCode(122)), InputState::Neutral))
    );
    assert_eq!(
        Input::from_event(Event::JoyButton(3, true)),
        Some((Input::JoyButton(3), InputState::Positive))
    );
    assert_eq!(
        Input::from_event(Event::JoyButton(3, false)),
        Some((Input::JoyButton(3), InputState::Neutral))
    );
    assert_eq!(Input::from_event(Event::Other), None);
}

#[test]
fn from_event_axis_thresholds() {
    let state = |delta: i16| Input::from_event(Event::JoyAxis(2, delta)).map(|r| r.1);
    assert_eq!(state(3201), Some(InputState::Positive));
    assert_eq!(state(3200), Some(InputState::Neutral));
    assert_eq!(state(0), Some(InputState::Neutral));
    assert_eq!(state(-3200), Some(InputState::Neutral));
    assert_eq!(state(-3201), Some(InputState::Negative));
    assert_eq!(state(i16::MIN), Some(InputState::Negative));
    assert_eq!(
        Input::from_event(Event::JoyAxis(2, i16::MAX)),
        Some((Input::JoyAxis(2), InputState::Positive))
    );
}

#[test]
fn input_codes_are_distinct() {
    let inputs = [
        Input::Key(KeyCode(0)),
        Input::Key(KeyCode(3)),
        Input::Key(KeyCode(u32::MAX)),
        Input::JoyAxis(0),
        Input::JoyAxis(3),
        Input::JoyAxis(u32::MAX),
        Input::JoyButton(0),
        Input::JoyButton(3),
        Input::JoyButton(u32::MAX),
        Input::Quit,
    ];
    for (i, a) in inputs.iter().enumerate() {
        for (j, b) in inputs.iter().enumerate() {
            assert_eq!(a.code() == b.code(), i == j);
        }
    }
    assert!(Input::JoyAxis(1).is_continuous());
    assert!(!Input::JoyButton(1).is_continuous());
    assert!(!Input::Key(KeyCode(1)).is_continuous());
}

#[test]
fn active_in_key_spec_follows_the_kinds() {
    let ks = seven_keys();
    assert!(VirtualInput::Lane(Lane(6)).active_in_key_spec(KeyKind::Scratch, &ks));
    assert!(!VirtualInput::Lane(Lane(6)).active_in_key_spec(KeyKind::WhiteKey, &ks));
    assert!(!VirtualInput::Lane(Lane(7)).active_in_key_spec(KeyKind::FootPedal, &ks));
    assert!(!VirtualInput::Lane(Lane(500)).active_in_key_spec(KeyKind::WhiteKey, &ks));
    assert!(VirtualInput::SpeedDown.active_in_key_spec(KeyKind::Button5, &ks));
    assert!(VirtualInput::SpeedUp.active_in_key_spec(KeyKind::Scratch, &ks));
}

#[test]
fn keymap_later_mapping_replaces_earlier() {
    let mut map = KeyMap::new();
    assert_eq!(map.len(), 0);
    assert_eq!(map.find(&Input::Quit), None);
    map.insert(Input::JoyButton(1), VirtualInput::SpeedUp);
    map.insert(Input::JoyAxis(1), VirtualInput::SpeedDown);
    map.insert(Input::JoyButton(1), VirtualInput::Lane(Lane(4)));
    assert_eq!(map.len(), 2);
    assert_eq!(map.find(&Input::JoyButton(1)), Some(VirtualInput::Lane(Lane(4))));
    assert_eq!(map.find(&Input::JoyAxis(1)), Some(VirtualInput::SpeedDown));
    assert_eq!(map.find(&Input::Key(KeyCode(1))), None);
}

#[test]
fn read_keymap_defaults() {
    let map = read_keymap(&seven_keys(), &defaults(), &names()).unwrap();
    let lane = |l| Some(VirtualInput::Lane(Lane(l)));
    assert_eq!(map.find(&Input::Key(KeyCode(304))), lane(6));
    assert_eq!(map.find(&Input::JoyAxis(3)), lane(6));
    assert_eq!(map.find(&Input::JoyButton(3)), lane(1));
    assert_eq!(map.find(&Input::Key(KeyCode(115))), lane(2));
    assert_eq!(map.find(&Input::JoyButton(6)), lane(2));
    assert_eq!(map.find(&Input::Key(KeyCode(120))), lane(3));
    assert_eq!(map.find(&Input::Key(KeyCode(100))), lane(4));
    assert_eq!(map.find(&Input::Key(KeyCode(99))), lane(5));
    assert_eq!(map.find(&Input::Key(KeyCode(102))), lane(8));
    assert_eq!(map.find(&Input::Key(KeyCode(118))), lane(9));
    assert_eq!(map.find(&Input::JoyAxis(2)), lane(9));
    // the pedal has no place in the key specification, nor has the second player or a button
    assert_eq!(map.find(&Input::Key(KeyCode(308))), None);
    assert_eq!(map.find(&Input::Key(KeyCode(109))), None);
    assert_eq!(map.find(&Input::Key(KeyCode(103))), None);
    // the first of the two keys named z is the one that is meant
    assert_eq!(map.find(&Input::Key(KeyCode(122))), lane(1));
    assert_eq!(map.find(&Input::Key(KeyCode(999))), None);
    assert_eq!(map.find(&Input::Key(KeyCode(284))), Some(VirtualInput::SpeedDown));
    assert_eq!(map.find(&Input::Key(KeyCode(285))), Some(VirtualInput::SpeedUp));
    assert_eq!(map.len(), 18);
}

#[test]
fn read_keymap_settings_and_lane_keys() {
    let mut config = defaults();
    config.keys1p = Some("  SPACE % button 12 |Backspace|axis  4|x".to_string());
    config.keysspeed = Some("f4|f3|z".to_string());
    config.lanes[3] = Some(" button 0 ".to_string());
    config.lanes[5] = Some("button 0".to_string());
    config.lanes[7] = Some("no such key".to_string());
    let map = read_keymap(&seven_keys(), &config, &names()).unwrap();
    let lane = |l| Some(VirtualInput::Lane(Lane(l)));
    assert_eq!(map.find(&Input::Key(KeyCode(32))), lane(6));
    assert_eq!(map.find(&Input::JoyButton(12)), lane(6));
    assert_eq!(map.find(&Input::Key(KeyCode(8))), lane(1));
    assert_eq!(map.find(&Input::JoyAxis(4)), lane(2));
    assert_eq!(map.find(&Input::Key(KeyCode(120))), lane(3));
    assert_eq!(map.find(&Input::Key(KeyCode(304))), None);
    assert_eq!(map.find(&Input::Key(KeyCode(285))), Some(VirtualInput::SpeedDown));
    assert_eq!(map.find(&Input::Key(KeyCode(284))), Some(VirtualInput::SpeedUp));
    // a part beyond the last one of the key set is not read
    assert_eq!(map.find(&Input::Key(KeyCode(122))), None);
    assert_eq!(map.find(&Input::JoyButton(0)), lane(5));
}

#[test]
fn read_keymap_takes_any_white_space() {
    let mut config = defaults();
    config.keys1p = Some("\u{a0}SPACE\u{3000}%\u{2003}button\u{a0}\u{2009}12\u{85}|axis\u{3000}4".to_string());
    let map = read_keymap(&seven_keys(), &config, &names()).unwrap();
    let lane = |l| Some(VirtualInput::Lane(Lane(l)));
    assert_eq!(map.find(&Input::Key(KeyCode(32))), lane(6));
    assert_eq!(map.find(&Input::JoyButton(12)), lane(6));
    assert_eq!(map.find(&Input::JoyAxis(4)), lane(1));
    // a character that is no white space is part of the name
    let mut config = defaults();
    config.keys1p = Some("button\u{200b}12".to_string());
    assert_eq!(
        read_keymap(&seven_keys(), &config, &names()).err(),
        Some(KeyMapError { setting: KeySetting::Keys1P, name: "button\u{200b}12".to_string() })
    );
}

#[test]
fn read_keymap_unknown_names() {
    let mut config = defaults();
    config.keys2p = Some("m|k%nothing |l".to_string());
    assert_eq!(
        read_keymap(&seven_keys(), &config, &names()).err(),
        Some(KeyMapError { setting: KeySetting::Keys2P, name: "nothing ".to_string() })
    );
    let mut config = defaults();
    config.keys1p = Some("".to_string());
    assert_eq!(
        read_keymap(&seven_keys(), &config, &names()).err(),
        Some(KeyMapError { setting: KeySetting::Keys1P, name: "".to_string() })
    );
    let mut config = defaults();
    config.keyspms = Some("z|button|x".to_string());
    assert_eq!(
        read_keymap(&seven_keys(), &config, &names()).err(),
        Some(KeyMapError { setting: KeySetting::KeysPMS, name: "button".to_string() })
    );
    let mut config = defaults();
    config.keysspeed = Some("button 4294967296".to_string());
    assert_eq!(
        read_keymap(&seven_keys(), &config, &names()).err(),
        Some(KeyMapError { setting: KeySetting::KeysSpeed, name: "button 4294967296".to_string() })
    );
    let mut config = defaults();
    config.keysspeed = Some("button 4294967295|axis 007".to_string());
    let map = read_keymap(&seven_keys(), &config, &names()).unwrap();
    assert_eq!(map.find(&Input::JoyButton(u32::MAX)), Some(VirtualInput::SpeedDown));
    assert_eq!(map.find(&Input::JoyAxis(7)), Some(VirtualInput::SpeedUp));
    let mut config = defaults();
    config.lanes[9] = Some("button3".to_string());
    assert_eq!(
        read_keymap(&seven_keys(), &config, &names()).err(),
        Some(KeyMapError { setting: KeySetting::LaneKey(Lane(9)), name: "button3".to_string() })
    );
    let mut config = defaults();
    config.lanes[3] = Some("Button 0".to_string());
    assert_eq!(
        read_keymap(&seven_keys(), &config, &names()).err(),
        Some(KeyMapError { setting: KeySetting::LaneKey(Lane(3)), name: "Button 0".to_string() })
    );
    let mut config = defaults();
    config.lanes[1] = Some("axis 1 x".to_string());
    assert_eq!(
        read_keymap(&seven_keys(), &config, &names()).err(),
        Some(KeyMapError { setting: KeySetting::LaneKey(Lane(1)), name: "axis 1 x".to_string() })
    );
}

#[test]
fn keyset_tables() {
    assert_eq!(keyset_mapping(KeySetting::Keys1P).len(), 9);
    assert_eq!(keyset_mapping(KeySetting::Keys2P).len(), 9);
    assert_eq!(
        keyset_mapping(KeySetting::KeysPMS)[8],
        (Some(KeyKind::Button1), vec![VirtualInput::Lane(Lane(7)), VirtualInput::Lane(Lane(41))])
    );
    assert_eq!(
        keyset_mapping(KeySetting::KeysSpeed),
        vec![(None, vec![VirtualInput::SpeedDown]), (None, vec![VirtualInput::SpeedUp])]
    );
    assert!(keyset_mapping(KeySetting::LaneKey(Lane(0))).is_empty());
    assert_eq!(keyset_default_text(KeySetting::KeysSpeed), "f3|f4");
    assert_eq!(keyset_default_text(KeySetting::Keys2P).split('|').count(), 9);
    assert_eq!(keyset_default_text(KeySetting::KeysPMS), "z|s|x|d|c|f|v|g|b");
}
