use sonorous::bms::{Bms, BmsMeta, PlayMode};
use sonorous::keyspec::{
    key_spec, key_spec_of_sides, parse_key_spec, path_is_pms, preset_to_key_spec,
    present_lanes, resolve_preset, KeyKind, KeySpec, KeySpecError, Preset,
};
use sonorous::obj::{Lane, Obj, ObjData, ObjLoc, SoundRef, BPM, NLANES};
use sonorous::timeline::Timeline;

fn obj(t: i64, data: ObjData) -> Obj {
    Obj { loc: ObjLoc { vpos: t, pos: t, vtime: t, time: t }, data: data }
}

fn chart(lanes: &[usize], mode: PlayMode, path: Option<&str>) -> Bms {
    let mut objs: Vec<Obj> =
        lanes.iter().map(|&l| obj(0, ObjData::Visible(Lane(l), None))).collect();
    objs.push(obj(1, ObjData::BGM(SoundRef(1))));
    objs.push(obj(2, ObjData::End));
    Bms {
        bmspath: path.map(|p| p.to_string()),
        meta: BmsMeta {
            mode: mode,
            rank: 2,
            basepath: None,
            stagefile: None,
            sndpath: Vec::new(),
            imgpath: Vec::new(),
        },
        timeline: Timeline { initbpm: BPM(130_000_000), objs: objs },
    }
}

fn some(s: &str) -> Option<String> {
    Some(s.to_string())
}

#[test]
fn key_kinds() {
    let all = KeyKind::all();
    assert_eq!(all.len(), 10);
    assert_eq!(all[0], KeyKind::WhiteKey);
    assert_eq!(all[9], KeyKind::Button5);
    for (c, kind) in [
        ('a', KeyKind::WhiteKey),
        ('y', KeyKind::WhiteKeyAlt),
        ('b', KeyKind::BlackKey),
        ('s', KeyKind::Scratch),
        ('p', KeyKind::FootPedal),
        ('q', KeyKind::Button1),
        ('w', KeyKind::Button2),
        ('e', KeyKind::Button3),
        ('r', KeyKind::Button4),
        ('t', KeyKind::Button5),
    ] {
        assert_eq!(KeyKind::from_char(c), Some(kind));
    }
    assert_eq!(KeyKind::from_char('A'), None);
    assert_eq!(KeyKind::from_char('z'), None);
    let chars: Vec<char> = all.iter().map(|k| k.to_char()).collect();
    assert_eq!(chars, vec!['a', 'y', 'b', 's', 'p', 'w', 'e', 'r', 't', 's']);
    let keys: Vec<bool> = all.iter().map(|k| k.counts_as_key()).collect();
    assert_eq!(keys, vec![true, true, true, false, false, true, true, true, true, true]);
}

#[test]
fn parse_key_spec_reads_items() {
    assert_eq!(
        parse_key_spec("16s 11a 12b"),
        Some(vec![
            (Lane(6), KeyKind::Scratch),
            (Lane(1), KeyKind::WhiteKey),
            (Lane(2), KeyKind::BlackKey)
        ])
    );
    assert_eq!(parse_key_spec(""), Some(vec![]));
    assert_eq!(parse_key_spec("  \t"), Some(vec![]));
    assert_eq!(parse_key_spec(" 10q11w\n2Zt "), Some(vec![
        (Lane(0), KeyKind::Button1),
        (Lane(1), KeyKind::Button2),
        (Lane(71), KeyKind::Button5)
    ]));
    assert_eq!(parse_key_spec("2zp"), Some(vec![(Lane(71), KeyKind::FootPedal)]));
    // any white space separates the items, not only that of ASCII
    assert_eq!(
        parse_key_spec("\u{3000}16s\u{a0}11a\u{2003}\u{85}12b\u{2028}"),
        Some(vec![
            (Lane(6), KeyKind::Scratch),
            (Lane(1), KeyKind::WhiteKey),
            (Lane(2), KeyKind::BlackKey)
        ])
    );
    assert_eq!(parse_key_spec("\u{a0}\u{1680}\u{205f}"), Some(vec![]));
    assert_eq!(parse_key_spec("16s\u{200b}11a"), None);
    assert_eq!(parse_key_spec("1Ay"), Some(vec![(Lane(10), KeyKind::WhiteKeyAlt)]));
}

#[test]
fn parse_key_spec_rejects_malformed_text() {
    assert_eq!(parse_key_spec("0Za"), None);
    assert_eq!(parse_key_spec("30a"), None);
    assert_eq!(parse_key_spec("11"), None);
    assert_eq!(parse_key_spec("11x"), None);
    assert_eq!(parse_key_spec("11A"), None);
    assert_eq!(parse_key_spec("1 1a"), None);
    assert_eq!(parse_key_spec("11a 1"), None);
    assert_eq!(parse_key_spec("-1a"), None);
}

#[test]
fn nkeys_and_sides() {
    let ks = key_spec_of_sides(PlayMode::Couple, "16s 11a 12b 17p", "21a 22b 26s").unwrap();
    assert_eq!(ks.nkeys(), 4);
    assert_eq!(ks.split, 4);
    assert_eq!(ks.left_lanes(), vec![Lane(6), Lane(1), Lane(2), Lane(7)]);
    assert_eq!(ks.right_lanes(), vec![Lane(37), Lane(38), Lane(42)]);
    let ks = key_spec_of_sides(PlayMode::Double, "16s 11a 12b 17p", "21a 22b 26s").unwrap();
    assert_eq!(ks.split, 7);
    assert_eq!(ks.left_lanes().len(), 7);
    assert_eq!(ks.right_lanes(), vec![]);
    assert_eq!(ks.kinds.len(), NLANES);
    assert_eq!(ks.kinds[42], Some(KeyKind::Scratch));
    assert_eq!(ks.kinds[0], None);
}

#[test]
fn presets_by_name() {
    assert_eq!(Preset::named("5"), Some(Preset::Keys5));
    assert_eq!(Preset::named("14/FP"), Some(Preset::Keys14Fp));
    assert_eq!(Preset::named("9-BME"), Some(Preset::Buttons9Bme));
    assert_eq!(Preset::named("9-bme "), None);
    assert_eq!(Preset::named(""), None);
    assert_eq!(Preset::Keys7Fp.name(), "7/fp");
    assert_eq!(Preset::Keys10.keys(), ("16s 11a 12b 13a 14b 15a", "21a 22b 23a 24b 25a 26s"));
    for p in [
        Preset::Keys5,
        Preset::Keys10,
        Preset::Keys5Fp,
        Preset::Keys10Fp,
        Preset::Keys7,
        Preset::Keys14,
        Preset::Keys7Fp,
        Preset::Keys14Fp,
        Preset::Buttons9,
        Preset::Buttons9Bme,
    ] {
        assert_eq!(Preset::named(p.name()), Some(p));
        let (left, right) = p.keys();
        assert!(key_spec_of_sides(PlayMode::Single, left, right).is_ok());
    }
}

#[test]
fn preset_follows_the_chart() {
    let five = chart(&[1, 2, 6], PlayMode::Single, None);
    let seven = chart(&[1, 9], PlayMode::Single, None);
    let pedal = chart(&[1, 43], PlayMode::Double, None);
    let both = chart(&[44, 7], PlayMode::Couple, None);
    let battle = chart(&[1, 37], PlayMode::Battle, None);
    assert_eq!(resolve_preset(&five, &None), Some(Preset::Keys5));
    assert_eq!(resolve_preset(&five, &some("BME")), Some(Preset::Keys5));
    assert_eq!(resolve_preset(&seven, &some("bml")), Some(Preset::Keys7));
    assert_eq!(resolve_preset(&pedal, &some("bms")), Some(Preset::Keys10Fp));
    assert_eq!(resolve_preset(&both, &None), Some(Preset::Keys14Fp));
    assert_eq!(resolve_preset(&battle, &None), Some(Preset::Keys5));
    assert_eq!(resolve_preset(&five, &some("pms")), Some(Preset::Buttons9Bme));
    assert_eq!(resolve_preset(&chart(&[1, 38], PlayMode::Single, None), &some("PMS")), Some(Preset::Buttons9));
    assert_eq!(resolve_preset(&five, &some("14")), Some(Preset::Keys14));
    assert_eq!(resolve_preset(&five, &some("15")), None);
    assert_eq!(
        preset_to_key_spec(&seven, None),
        Some(("16s 11a 12b 13a 14b 15a 18b 19a".to_string(), "".to_string()))
    );
    assert_eq!(preset_to_key_spec(&seven, some("nothing")), None);
    let present = present_lanes(&five.timeline);
    assert_eq!(present.len(), NLANES);
    assert_eq!(present.iter().filter(|&&p| p).count(), 3);
    assert!(present[1] && present[2] && present[6]);
}

#[test]
fn extension_of_the_chart_file() {
    assert!(path_is_pms(&some("song.pms")));
    assert!(path_is_pms(&some("dir.d/Song.PmS")));
    assert!(path_is_pms(&some("/a/b.c/x.y.pms")));
    assert!(!path_is_pms(&some("song.pms/")));
    assert!(!path_is_pms(&some("song.bms")));
    assert!(!path_is_pms(&some("dir.pms/song")));
    assert!(!path_is_pms(&some(".pms")));
    assert!(!path_is_pms(&some("a/.pms")));
    assert!(!path_is_pms(&some("pms")));
    assert!(!path_is_pms(&some("")));
    assert!(!path_is_pms(&None));
}

#[test]
fn key_spec_from_the_preset() {
    let ks = key_spec(&chart(&[1, 8], PlayMode::Single, None), None, None, None).unwrap();
    assert_eq!(ks.split, 8);
    assert_eq!(ks.order.len(), 8);
    assert_eq!(ks.order[0], Lane(6));
    assert_eq!(ks.nkeys(), 7);
    let ks = key_spec(&chart(&[1], PlayMode::Single, Some("a/b.PMS")), None, None, None).unwrap();
    assert_eq!(ks.order.len(), 9);
    assert_eq!(ks.kinds[1], Some(KeyKind::Button1));
    assert_eq!(ks.kinds[38], Some(KeyKind::Button4));
    // a preset that is named wins over the extension
    let ks = key_spec(&chart(&[1], PlayMode::Single, Some("b.pms")), some("5"), None, None).unwrap();
    assert_eq!(ks.order.len(), 6);
    let ks = key_spec(&chart(&[1], PlayMode::Couple, None), some("10"), None, None).unwrap();
    assert_eq!(ks.split, 6);
    assert_eq!(ks.order.len(), 12);
}

#[test]
fn key_spec_errors() {
    let bms = chart(&[1], PlayMode::Single, None);
    assert_eq!(
        key_spec(&bms, some("eleven"), None, None).err(),
        Some(KeySpecError::InvalidPreset("eleven".to_string()))
    );
    assert_eq!(key_spec(&bms, None, None, some("11a")).err(), Some(KeySpecError::NoKeyModel));
    assert_eq!(key_spec(&bms, None, some(""), None).err(), Some(KeySpecError::NoKeyModel));
    assert_eq!(
        key_spec(&bms, None, some("  "), None).err(),
        Some(KeySpecError::InvalidLeft("  ".to_string()))
    );
    assert_eq!(
        key_spec(&bms, None, some("11a 11b"), None).err(),
        Some(KeySpecError::InvalidLeft("11a 11b".to_string()))
    );
    assert_eq!(
        key_spec(&bms, None, some("11a zz"), some("12a")).err(),
        Some(KeySpecError::InvalidLeft("11a zz".to_string()))
    );
    assert_eq!(
        key_spec(&bms, None, some("11a"), some("12a 11b")).err(),
        Some(KeySpecError::InvalidRight("12a 11b".to_string()))
    );
    assert_eq!(
        key_spec(&bms, None, some("11a"), some("1")).err(),
        Some(KeySpecError::InvalidRight("1".to_string()))
    );
    let ks: KeySpec = key_spec(&bms, some("ignored"), some("11a"), some("12b")).unwrap();
    assert_eq!(ks.order, vec![Lane(1), Lane(2)]);
    assert_eq!(ks.split, 2);
}

#[test]
fn filter_timeline_keeps_the_lanes_of_the_order() {
    let mut bms = chart(&[1, 2, 3], PlayMode::Single, None);
    bms.timeline.objs.insert(0, obj(0, ObjData::LNStart(Lane(3), Some(SoundRef(5)))));
    bms.timeline.objs.insert(1, obj(0, ObjData::Deleted));
    let ks = key_spec(&bms, None, some("11a 12b"), None).unwrap();
    ks.filter_timeline(&mut bms.timeline);
    let data: Vec<ObjData> = bms.timeline.objs.iter().map(|o| o.data).collect();
    assert_eq!(
        data,
        vec![
            ObjData::BGM(SoundRef(5)),
            ObjData::Visible(Lane(1), None),
            ObjData::Visible(Lane(2), None),
            ObjData::BGM(SoundRef(1)),
            ObjData::End
        ]
    );
    assert_eq!(bms.timeline.initbpm, BPM(130_000_000));
}
