use sonorous::obj::{
    mul_div, BGALayer, BGARef, Damage, Duration, ImageRef, ImageSlice, Lane, Obj, ObjAxis,
    ObjConvOps, ObjData, ObjLoc, ObjQueryOps, SoundRef, ToObjData, WithObjData, BPM, NLAYERS,
};
use sonorous::version;

const U: i64 = 1_000_000;

fn slice() -> ImageSlice {
    ImageSlice { sx: 1, sy: 2, dx: 3, dy: 4, w: 5, h: 6 }
}

fn every_kind() -> Vec<ObjData> {
    vec![
        ObjData::Deleted,
        ObjData::Visible(Lane(1), Some(SoundRef(1))),
        ObjData::Invisible(Lane(2), Some(SoundRef(2))),
        ObjData::LNStart(Lane(3), Some(SoundRef(3))),
        ObjData::LNDone(Lane(4), Some(SoundRef(4))),
        ObjData::Bomb(Lane(5), Some(SoundRef(5)), Damage::InstantDeath),
        ObjData::BGM(SoundRef(6)),
        ObjData::SetBGA(BGALayer::Layer1, BGARef::SlicedImageBGA(ImageRef(7), slice())),
        ObjData::SetBPM(BPM(8)),
        ObjData::Stop(Duration::Seconds(9)),
        ObjData::StopEnd,
        ObjData::SetMeasureFactor(11),
        ObjData::MeasureBar,
        ObjData::End,
    ]
}

fn table(f: impl Fn(&ObjData) -> bool) -> Vec<usize> {
    every_kind().iter().enumerate().filter(|(_, d)| f(d)).map(|(i, _)| i).collect()
}

#[test]
fn version_is_named() {
    assert_eq!(version(), "Sonorous 0.1.0-pre");
}

#[test]
fn queries_tell_the_kinds_apart() {
    assert_eq!(table(|d| d.is_deleted()), [0]);
    assert_eq!(table(|d| d.is_visible()), [1]);
    assert_eq!(table(|d| d.is_invisible()), [2]);
    assert_eq!(table(|d| d.is_lnstart()), [3]);
    assert_eq!(table(|d| d.is_lndone()), [4]);
    assert_eq!(table(|d| d.is_ln()), [3, 4]);
    assert_eq!(table(|d| d.is_bomb()), [5]);
    assert_eq!(table(|d| d.is_soundable()), [1, 2, 3, 4]);
    assert_eq!(table(|d| d.is_gradable()), [1, 3, 4]);
    assert_eq!(table(|d| d.is_renderable()), [1, 3, 4, 5]);
    assert_eq!(table(|d| d.is_object()), [1, 2, 3, 4, 5]);
    assert_eq!(table(|d| d.is_bgm()), [6]);
    assert_eq!(table(|d| d.is_setbga()), [7]);
    assert_eq!(table(|d| d.is_setbpm()), [8]);
    assert_eq!(table(|d| d.is_stop()), [9]);
    assert_eq!(table(|d| d.is_stopend()), [10]);
    assert_eq!(table(|d| d.is_setmeasurefactor()), [11]);
    assert_eq!(table(|d| d.is_measurebar()), [12]);
    assert_eq!(table(|d| d.is_end()), [13]);
}

#[test]
fn queries_give_lanes_sounds_and_images() {
    let lanes: Vec<Option<Lane>> = every_kind().iter().map(|d| d.object_lane()).collect();
    assert_eq!(lanes[..7], [None, Some(Lane(1)), Some(Lane(2)), Some(Lane(3)), Some(Lane(4)), Some(Lane(5)), None]);
    assert!(lanes[7..].iter().all(|l| l.is_none()));
    let sounds: Vec<Vec<SoundRef>> = every_kind().iter().map(|d| d.sounds()).collect();
    for i in 1..=6 {
        assert_eq!(sounds[i], vec![SoundRef(i as u32)]);
    }
    assert!(sounds[0].is_empty() && sounds[7..].iter().all(|s| s.is_empty()));
    assert!(ObjData::Visible(Lane(1), None).sounds().is_empty());
    let keydown: Vec<Option<SoundRef>> = every_kind().iter().map(|d| d.keydown_sound()).collect();
    assert_eq!(keydown[..5], [None, Some(SoundRef(1)), Some(SoundRef(2)), Some(SoundRef(3)), None]);
    assert!(keydown[5..].iter().all(|s| s.is_none()));
    assert_eq!(table(|d| d.keyup_sound().is_some()), [4]);
    assert_eq!(every_kind()[4].keyup_sound(), Some(SoundRef(4)));
    assert_eq!(table(|d| d.through_sound().is_some()), [5]);
    assert_eq!(table(|d| d.through_damage().is_some()), [5]);
    assert_eq!(every_kind()[5].through_damage(), Some(Damage::InstantDeath));
    assert_eq!(table(|d| !d.images().is_empty()), [7]);
    assert_eq!(every_kind()[7].images(), vec![ImageRef(7)]);
    assert_eq!(ObjData::SetBGA(BGALayer::PoorBGA, BGARef::ImageBGA(ImageRef(3))).images(), vec![ImageRef(3)]);
    assert!(ObjData::SetBGA(BGALayer::PoorBGA, BGARef::BlankBGA).images().is_empty());
}

#[test]
fn conversions_keep_lane_and_sound() {
    for d in &every_kind()[1..6] {
        let lane = d.object_lane().unwrap();
        let snd = d.sounds().first().copied();
        assert_eq!(d.to_visible(), ObjData::Visible(lane, snd));
        assert_eq!(d.to_invisible(), ObjData::Invisible(lane, snd));
        assert_eq!(d.to_lnstart(), ObjData::LNStart(lane, snd));
        assert_eq!(d.to_lndone(), ObjData::LNDone(lane, snd));
    }
    assert_eq!(ObjData::LNDone(Lane(9), None).to_visible(), ObjData::Visible(Lane(9), None));
}

#[test]
fn effects_and_lanes() {
    let effects: Vec<ObjData> = every_kind().iter().map(|d| d.to_effect()).collect();
    assert_eq!(
        effects[..6],
        [
            ObjData::Deleted,
            ObjData::BGM(SoundRef(1)),
            ObjData::BGM(SoundRef(2)),
            ObjData::BGM(SoundRef(3)),
            ObjData::BGM(SoundRef(4)),
            ObjData::Deleted
        ]
    );
    assert_eq!(effects[6..], every_kind()[6..]);
    assert_eq!(ObjData::Invisible(Lane(1), None).to_effect(), ObjData::Deleted);
    let moved: Vec<ObjData> = every_kind().iter().map(|d| d.with_object_lane(Lane(70))).collect();
    for i in 1..=5 {
        assert_eq!(moved[i].object_lane(), Some(Lane(70)));
        assert_eq!(moved[i].sounds(), every_kind()[i].sounds());
    }
    assert_eq!(moved[5], ObjData::Bomb(Lane(70), Some(SoundRef(5)), Damage::InstantDeath));
    assert_eq!(moved[0], ObjData::Deleted);
    assert_eq!(moved[6..], every_kind()[6..]);
}

#[test]
fn objects_convert_with_their_location() {
    let loc = ObjLoc { vpos: 1, pos: 2, vtime: 3, time: 4 };
    let o = Obj { loc: loc, data: ObjData::LNStart(Lane(1), Some(SoundRef(2))) };
    assert_eq!(o.to_obj_data(), o.data);
    assert_eq!(o.with_obj_data(ObjData::End), Obj { loc: loc, data: ObjData::End });
    assert_eq!(o.to_visible(), Obj { loc: loc, data: ObjData::Visible(Lane(1), Some(SoundRef(2))) });
    assert_eq!(o.to_effect(), Obj { loc: loc, data: ObjData::BGM(SoundRef(2)) });
    assert_eq!(o.with_object_lane(Lane(5)).loc, loc);
    assert!(o.is_lnstart() && o.is_ln() && o.is_gradable() && !o.is_visible());
    assert_eq!(o.object_lane(), Some(Lane(1)));
    assert_eq!(ObjData::End.with_obj_data(ObjData::StopEnd), ObjData::StopEnd);
}

#[test]
fn locations_are_ordered_by_actual_time() {
    let a = ObjLoc { vpos: 9, pos: 9, vtime: 9, time: 1 };
    let b = ObjLoc { vpos: 0, pos: 0, vtime: 0, time: 2 };
    assert!(a.lt(&b) && a.le(&b) && !a.gt(&b) && !a.ge(&b));
    assert!(a.le(&a) && a.ge(&a) && !a.lt(&a) && !a.gt(&a));
    let x = Obj { loc: a, data: ObjData::End };
    let y = Obj { loc: b, data: ObjData::Deleted };
    assert!(x.lt(&y) && x.le(&y) && y.gt(&x) && y.ge(&x) && !y.lt(&x));
    assert_eq!(a.index(ObjAxis::VirtualPos), 9);
    assert_eq!(b.index(ObjAxis::ActualTime), 2);
    let c = ObjLoc { vpos: 1, pos: 2, vtime: 3, time: 4 };
    assert_eq!(
        [ObjAxis::VirtualPos, ObjAxis::ActualPos, ObjAxis::VirtualTime, ObjAxis::ActualTime].map(|x| c.index(x)),
        [1, 2, 3, 4]
    );
}

#[test]
fn bpm_converts_measures_and_seconds() {
    let bpm = BPM(120 * U);
    assert_eq!(bpm.measure_to_sec(U), Some(2 * U));
    assert_eq!(bpm.measure_to_sec(-U / 2), Some(-U));
    assert_eq!(bpm.sec_to_measure(2 * U), U);
    assert_eq!(bpm.sec_to_measure(-3 * U), -3 * U / 2);
    assert_eq!(BPM(130 * U).measure_to_sec(U), Some(1_846_153));
    assert_eq!(BPM(130 * U).measure_to_sec(-U), Some(-1_846_153));
    assert_eq!(BPM(0).measure_to_sec(U), None);
    assert_eq!(BPM(-120 * U).measure_to_sec(U), None);
    assert_eq!(BPM(-120 * U).sec_to_measure(2 * U), -U);
    assert_eq!(BPM(0).sec_to_measure(2 * U), 0);
    assert_eq!(BPM(1).measure_to_sec(i64::MAX), Some(i64::MAX));
    assert_eq!(BPM(i64::MAX).sec_to_measure(i64::MIN), i64::MIN);
}

#[test]
fn mul_div_rounds_towards_zero() {
    assert_eq!(mul_div(7, 3, 2), 10);
    assert_eq!(mul_div(-7, 3, 2), -10);
    assert_eq!(mul_div(7, -3, 2), -10);
    assert_eq!(mul_div(-7, -3, 2), 10);
    assert_eq!(mul_div(i64::MAX, i64::MAX, 1), i64::MAX);
    assert_eq!(mul_div(i64::MIN, i64::MAX, 1), i64::MIN);
    assert_eq!(mul_div(i64::MIN, i64::MIN, i64::MAX), i64::MAX);
    assert_eq!(mul_div(i64::MAX, 2, 2), i64::MAX);
    assert_eq!(mul_div(0, i64::MIN, 5), 0);
}

#[test]
fn durations() {
    assert_eq!(Duration::Seconds(-5).sign(), -1);
    assert_eq!(Duration::Seconds(0).sign(), 0);
    assert_eq!(Duration::Measures(7).sign(), 1);
    assert_eq!(Duration::Measures(i64::MIN).sign(), -1);
    assert_eq!(Duration::Seconds(3 * U).to_sec(BPM(0)), Some(3 * U));
    assert_eq!(Duration::Measures(U).to_sec(BPM(240 * U)), Some(U));
    assert_eq!(Duration::Measures(U).to_sec(BPM(0)), None);
}

#[test]
fn bga_layers_and_references() {
    let layers = [BGALayer::Layer1, BGALayer::Layer2, BGALayer::Layer3, BGALayer::PoorBGA];
    assert_eq!(layers.map(|l| l.index()), [0, 1, 2, 3]);
    assert_eq!(NLAYERS, 4);
    assert_eq!(BGARef::BlankBGA.as_image_ref(), None);
    assert_eq!(BGARef::ImageBGA(ImageRef(4)).as_image_ref(), Some(ImageRef(4)));
    assert_eq!(BGARef::SlicedImageBGA(ImageRef(5), slice()).as_image_ref(), Some(ImageRef(5)));
}
