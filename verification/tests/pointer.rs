use sonorous::obj::{
    Duration, Lane, Obj, ObjAxis, ObjData, ObjLoc, SoundRef, BPM, INFINITY, MAX_COORD,
};
use sonorous::pointer::{ObjClass, ObjFilter, Pointer};
use sonorous::timeline::Timeline;

const U: i64 = 1_000_000;

fn loc(vpos: i64, pos: i64, vtime: i64, time: i64) -> ObjLoc {
    ObjLoc { vpos: vpos, pos: pos, vtime: vtime, time: time }
}

fn obj(l: ObjLoc, data: ObjData) -> Obj {
    Obj { loc: l, data: data }
}

/// A chart with a change of the measure factor, a change of tempo, a stop and a reversal.
fn fixture() -> Timeline {
    Timeline {
        initbpm: BPM(120 * U),
        objs: vec![
            obj(loc(0, 0, 0, 0), ObjData::MeasureBar),
            obj(loc(U, U, 2 * U, 2 * U), ObjData::SetMeasureFactor(U / 2)),
            obj(loc(2 * U, 3 * U / 2, 3 * U, 3 * U), ObjData::SetMeasureFactor(U)),
            obj(loc(5 * U / 2, 2 * U, 4 * U, 4 * U), ObjData::SetBPM(BPM(240 * U))),
            obj(loc(3 * U, 5 * U / 2, 9 * U / 2, 9 * U / 2), ObjData::Visible(Lane(1), None)),
            obj(loc(4 * U, 7 * U / 2, 11 * U / 2, 11 * U / 2), ObjData::Stop(Duration::Seconds(U))),
            obj(loc(4 * U, 7 * U / 2, 11 * U / 2, 13 * U / 2), ObjData::StopEnd),
            obj(loc(5 * U, 9 * U / 2, 13 * U / 2, 15 * U / 2), ObjData::SetBPM(BPM(-120 * U))),
            obj(loc(6 * U, 11 * U / 2, INFINITY, INFINITY), ObjData::Visible(Lane(1), None)),
            obj(loc(7 * U, 13 * U / 2, INFINITY, INFINITY), ObjData::End),
        ],
    }
}

fn notes() -> Timeline {
    let at = |t: i64, data: ObjData| obj(loc(t / 2, t / 2, t, t), data);
    Timeline {
        initbpm: BPM(120 * U),
        objs: vec![
            at(U, ObjData::Visible(Lane(1), Some(SoundRef(1)))),
            at(2 * U, ObjData::Invisible(Lane(2), None)),
            at(3 * U, ObjData::LNStart(Lane(1), None)),
            at(4 * U, ObjData::BGM(SoundRef(2))),
            at(5 * U, ObjData::LNDone(Lane(1), None)),
            at(6 * U, ObjData::Bomb(Lane(2), None, sonorous::obj::Damage::InstantDeath)),
            at(8 * U, ObjData::End),
        ],
    }
}

#[test]
fn pointer_at_interpolates_between_objects() {
    let tl = fixture();
    assert!(tl.check());
    let p = tl.pointer(ObjAxis::ActualTime, 5 * U / 2);
    assert_eq!(p.index, 2);
    assert_eq!(p.loc, loc(3 * U / 2, 5 * U / 4, 5 * U / 2, 5 * U / 2));
    // an object at the very coordinate lies behind the pointer
    let p = Pointer::at(&tl, ObjAxis::VirtualPos, U);
    assert_eq!(p.index, 2);
    assert_eq!(p.loc, loc(U, U, 2 * U, 2 * U));
    let p = Pointer::at(&tl, ObjAxis::ActualPos, 3 * U);
    assert_eq!(p.index, 5);
    assert_eq!(p.loc, loc(7 * U / 2, 3 * U, 5 * U, 5 * U));
}

#[test]
fn virtual_axes_stand_still_during_a_stop() {
    let tl = fixture();
    let p = Pointer::at(&tl, ObjAxis::ActualTime, 6 * U);
    assert_eq!(p.index, 6);
    assert_eq!(p.loc, loc(4 * U, 7 * U / 2, 11 * U / 2, 6 * U));
    // on the virtual time axis both ends of the stop are passed at once
    let p = Pointer::at(&tl, ObjAxis::VirtualTime, 11 * U / 2);
    assert_eq!(p.index, 7);
    assert_eq!(p.loc, loc(4 * U, 7 * U / 2, 11 * U / 2, 13 * U / 2));
}

#[test]
fn pointer_before_the_first_object_runs_at_the_initial_bpm() {
    let tl = fixture();
    let p = Pointer::at(&tl, ObjAxis::VirtualPos, -U);
    assert_eq!(p.index, 0);
    assert_eq!(p.loc, loc(-U, -U, -2 * U, -2 * U));
    let p = Pointer::at(&tl, ObjAxis::ActualTime, -3 * U);
    assert_eq!(p.loc, loc(-3 * U / 2, -3 * U / 2, -3 * U, -3 * U));
    let mut still = fixture();
    still.initbpm = BPM(0);
    let p = Pointer::at(&still, ObjAxis::ActualTime, -3 * U);
    assert_eq!(p.index, 0);
    assert_eq!(p.loc, loc(0, 0, 0, 0));
}

#[test]
fn unreachable_objects_are_never_passed() {
    let tl = fixture();
    let p = Pointer::at(&tl, ObjAxis::ActualTime, 100 * U);
    assert_eq!(p.index, 8);
    assert_eq!(p.loc, tl.objs[7].loc);
    let p = Pointer::at(&tl, ObjAxis::VirtualTime, i64::MAX);
    assert_eq!(p.index, 8);
    // positions stay finite, so the end is reached along them
    let p = Pointer::at(&tl, ObjAxis::ActualPos, i64::MAX);
    assert_eq!(p.index, 10);
    assert_eq!(p.loc, tl.objs[9].loc);
    let p = Pointer::at(&tl, ObjAxis::VirtualPos, 13 * U / 2);
    assert_eq!(p.index, 9);
    assert_eq!(p.loc, loc(13 * U / 2, 6 * U, INFINITY, INFINITY));
}

#[test]
fn seek_to_the_end_terminates_and_clamps() {
    let tl = notes();
    let mut p = Pointer::at(&tl, ObjAxis::ActualTime, 0);
    assert_eq!(p.index, 0);
    p.seek(&tl, ObjAxis::ActualTime, i64::MAX);
    assert_eq!(p.index, 7);
    assert_eq!(p.loc, tl.objs[6].loc);
    assert!(p.loc.time != INFINITY && p.loc.vtime != INFINITY);
    p.seek(&tl, ObjAxis::VirtualPos, i64::MAX);
    assert_eq!(p.index, 7);
    assert_eq!(p, p.find_end(&tl));
    p.seek(&tl, ObjAxis::ActualTime, i64::MIN);
    assert_eq!(p.index, 0);
    assert_eq!(p.loc.time, -MAX_COORD);
    p.seek(&tl, ObjAxis::ActualTime, i64::MIN);
    assert_eq!(p.loc.time, -MAX_COORD);
    let wild = Pointer { index: 1000, loc: loc(i64::MIN, i64::MAX, i64::MIN, i64::MIN) };
    let q = wild.find(&tl, ObjAxis::ActualTime, -1);
    assert_eq!(q.index, 0);
    let q = wild.find(&tl, ObjAxis::ActualTime, 1);
    assert_eq!(q.index, 7);
}

#[test]
fn find_by_zero_is_idempotent() {
    for tl in [fixture(), notes()] {
        for axis in [ObjAxis::VirtualPos, ObjAxis::ActualPos, ObjAxis::VirtualTime, ObjAxis::ActualTime] {
            for pos in [-3 * U, 0, U / 3, U, 2 * U + 1, 4 * U, 11 * U / 2, 6 * U, 50 * U] {
                let p = Pointer::at(&tl, axis, pos);
                let once = p.find(&tl, axis, 0);
                let again = p.find(&tl, axis, 0);
                assert_eq!(once.loc, again.loc);
                assert_eq!(once, p);
                assert_eq!(once.find(&tl, axis, 0), once);
            }
        }
    }
}

#[test]
fn seek_forth_and_back() {
    let tl = notes();
    let mut p = Pointer::at(&tl, ObjAxis::ActualTime, 3 * U / 2);
    assert_eq!(p.index, 1);
    let q = p.find(&tl, ObjAxis::ActualTime, 2 * U);
    assert_eq!(p.index, 1);
    assert_eq!(q.index, 3);
    assert_eq!(q.loc, loc(7 * U / 4, 7 * U / 4, 7 * U / 2, 7 * U / 2));
    p.seek(&tl, ObjAxis::VirtualPos, 2 * U);
    assert_eq!(p.index, 5);
    assert_eq!(p.loc.time, 11 * U / 2);
    p.seek(&tl, ObjAxis::VirtualTime, -3 * U);
    assert_eq!(p.index, 2);
    assert_eq!(p.loc.time, 5 * U / 2);
    assert!(p.lt(&q) && p.le(&q) && !q.lt(&p) && q.le(&q));
}

#[test]
fn mut_until_yields_what_it_passes() {
    let tl = notes();
    let mut p = Pointer::at(&tl, ObjAxis::ActualTime, 3 * U / 2);
    let passed = p.mut_until(&tl, ObjAxis::ActualTime, 3 * U);
    let indices: Vec<usize> = passed.iter().map(|q| q.index).collect();
    assert_eq!(indices, vec![1, 2, 3]);
    assert_eq!(passed[1].loc, tl.objs[2].loc);
    assert_eq!(p.index, 4);
    assert_eq!(p.loc.time, 9 * U / 2);
    assert_eq!(passed[0].data(&tl), Some(ObjData::Invisible(Lane(2), None)));
    assert!(p.mut_until(&tl, ObjAxis::ActualTime, 0).is_empty());
    assert!(p.mut_until(&tl, ObjAxis::ActualTime, -2 * U).is_empty());
    assert_eq!(p.index, 2);
}

#[test]
fn upto_and_mut_upto() {
    let tl = notes();
    let a = Pointer::at(&tl, ObjAxis::ActualTime, U);
    let b = Pointer::at(&tl, ObjAxis::ActualTime, 4 * U);
    let between: Vec<usize> = a.upto(&tl, &b).iter().map(|q| q.index).collect();
    assert_eq!(between, vec![1, 2, 3]);
    assert!(b.upto(&tl, &a).is_empty());
    assert!(a.upto(&tl, &a).is_empty());
    let mut c = a;
    assert_eq!(c.mut_upto(&tl, &b).len(), 3);
    assert_eq!(c, b);
    assert!(c.mut_upto(&tl, &a).is_empty());
    assert_eq!(c, b);
    assert_eq!(b.find_end(&tl).data(&tl), None);
}

#[test]
fn find_of_type() {
    let tl = notes();
    let lane1 = |class| ObjFilter { class: class, lane: Some(Lane(1)) };
    let any = |class| ObjFilter { class: class, lane: None };
    let p = Pointer::at(&tl, ObjAxis::ActualTime, 5 * U / 2);
    assert_eq!(p.index, 2);
    assert_eq!(p.find_next_of_type(&tl, lane1(ObjClass::Soundable)).map(|q| q.index), Some(2));
    assert_eq!(p.find_next_of_type(&tl, lane1(ObjClass::LNDone)).map(|q| q.index), Some(4));
    assert_eq!(p.find_next_of_type(&tl, lane1(ObjClass::Bomb)), None);
    assert_eq!(p.find_next_of_type(&tl, any(ObjClass::Bomb)).map(|q| q.index), Some(5));
    assert_eq!(p.find_previous_of_type(&tl, any(ObjClass::Object)).map(|q| q.index), Some(1));
    assert_eq!(p.find_previous_of_type(&tl, any(ObjClass::Gradable)).map(|q| q.index), Some(0));
    assert_eq!(p.find_previous_of_type(&tl, lane1(ObjClass::LNDone)), None);
    let q = p.find_next_of_type(&tl, lane1(ObjClass::LNDone)).unwrap();
    assert_eq!(q.loc, tl.objs[4].loc);
    // the pointer at an object finds the object itself first
    assert_eq!(q.find_next_of_type(&tl, lane1(ObjClass::LNDone)), Some(q));
}

#[test]
fn find_closest_of_type_prefers_the_nearer_and_then_the_earlier() {
    let tl = notes();
    let gradable = ObjFilter { class: ObjClass::Gradable, lane: Some(Lane(1)) };
    let at = |t: i64| Pointer::at(&tl, ObjAxis::VirtualTime, t).find_closest_of_type(&tl, ObjAxis::VirtualTime, gradable).map(|q| q.index);
    assert_eq!(at(0), Some(0));
    assert_eq!(at(19 * U / 10), Some(0));
    assert_eq!(at(2 * U), Some(0));
    assert_eq!(at(21 * U / 10), Some(2));
    assert_eq!(at(4 * U), Some(2));
    assert_eq!(at(41 * U / 10), Some(4));
    assert_eq!(at(50 * U), Some(4));
    let bomb1 = ObjFilter { class: ObjClass::Bomb, lane: Some(Lane(1)) };
    assert_eq!(Pointer::at(&tl, ObjAxis::ActualTime, 0).find_closest_of_type(&tl, ObjAxis::ActualTime, bomb1), None);
}

#[test]
fn filters_match_by_class_and_lane() {
    let tl = notes();
    let matches = |class, lane: Option<usize>| -> Vec<bool> {
        let f = ObjFilter { class: class, lane: lane.map(Lane) };
        tl.objs.iter().map(|o| f.matches(o)).collect()
    };
    assert_eq!(matches(ObjClass::Object, None), [true, true, true, false, true, true, false]);
    assert_eq!(matches(ObjClass::Soundable, None), [true, true, true, false, true, false, false]);
    assert_eq!(matches(ObjClass::Gradable, None), [true, false, true, false, true, false, false]);
    assert_eq!(matches(ObjClass::LNDone, None), [false, false, false, false, true, false, false]);
    assert_eq!(matches(ObjClass::Bomb, None), [false, false, false, false, false, true, false]);
    assert_eq!(matches(ObjClass::Object, Some(2)), [false, true, false, false, false, true, false]);
    assert_eq!(matches(ObjClass::Object, Some(3)), [false; 7]);
}

#[test]
fn seek_to_the_time_of_the_end_arrives_at_the_end() {
    let tl = notes();
    let end = tl.objs[6].loc;
    for axis in [ObjAxis::VirtualPos, ObjAxis::ActualPos, ObjAxis::VirtualTime, ObjAxis::ActualTime] {
        let there = match axis {
            ObjAxis::VirtualPos => end.vpos,
            ObjAxis::ActualPos => end.pos,
            ObjAxis::VirtualTime => end.vtime,
            ObjAxis::ActualTime => end.time,
        };
        assert_eq!(Pointer::at(&tl, axis, there), Pointer { index: 7, loc: end });
        for from in [-3 * U, 0, U / 3, 2 * U, there - 1, there] {
            let p = Pointer::at(&tl, axis, from);
            let here = match axis {
                ObjAxis::VirtualPos => p.loc.vpos,
                ObjAxis::ActualPos => p.loc.pos,
                ObjAxis::VirtualTime => p.loc.vtime,
                ObjAxis::ActualTime => p.loc.time,
            };
            assert_eq!(p.find(&tl, axis, there - here), Pointer { index: 7, loc: end });
        }
    }
}
