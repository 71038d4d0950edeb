use sonorous::bms::{Bms, BmsMeta, PlayMode};
use sonorous::grade::{Grade, Tally, MAXGAUGE};
use sonorous::input::{Event, Input, KeyCode, KeyMap, VirtualInput};
use sonorous::keyspec::{KeyKind, KeySpec};
use sonorous::obj::{
    BGALayer, BGARef, Damage, ImageRef, Lane, Obj, ObjData, ObjLoc, SoundRef, BPM, INFINITY,
    NLANES,
};
use sonorous::player::{
    initial_bga_state, next_speed_mark, previous_speed_mark, Bga, Effect, Mode, Options, Player,
    SoundGroup, Verdict,
};
use sonorous::timeline::Timeline;

const SEC: i64 = 1_000_000;
const KEY_Z: u32 = 122;
const KEY_X: u32 = 120;
const KEY_F3: u32 = 284;
const KEY_F4: u32 = 285;

/// An object at the given virtual time in seconds, at 120 BPM without stops.
fn at(sec_millis: i64, data: ObjData) -> Obj {
    let time = sec_millis * 1000;
    Obj { loc: ObjLoc { vpos: time / 2, pos: time / 2, vtime: time, time: time }, data: data }
}

fn chart(objs: Vec<Obj>) -> Bms {
    Bms {
        bmspath: None,
        meta: BmsMeta {
            mode: PlayMode::Single,
            rank: 2,
            basepath: None,
            stagefile: None,
            sndpath: Vec::new(),
            imgpath: Vec::new(),
        },
        timeline: Timeline { initbpm: BPM(120 * SEC), objs: objs },
    }
}

fn keyspec(lanes: &[usize]) -> KeySpec {
    let mut kinds = vec![None; NLANES];
    for &lane in lanes {
        kinds[lane] = Some(KeyKind::WhiteKey);
    }
    KeySpec { split: lanes.len(), order: lanes.iter().map(|&l| Lane(l)).collect(), kinds: kinds }
}

fn keymap(lane: usize) -> KeyMap {
    let mut map = KeyMap::new();
    map.insert(Input::Key(KeyCode(KEY_Z)), VirtualInput::Lane(Lane(lane)));
    map.insert(Input::JoyButton(3), VirtualInput::Lane(Lane(lane)));
    map.insert(Input::JoyAxis(0), VirtualInput::Lane(Lane(lane)));
    map.insert(Input::Key(KeyCode(KEY_F3)), VirtualInput::SpeedDown);
    map.insert(Input::Key(KeyCode(KEY_F4)), VirtualInput::SpeedUp);
    map
}

/// A player whose chart begins two seconds after the first tick's origin: the chart has a
/// note in its first measure, so the play starts one measure before it.
fn player_of(objs: Vec<Obj>, lane: usize, mode: Mode) -> Player {
    let bms = chart(objs);
    assert!(bms.timeline.check());
    let infos = bms.timeline.analyze();
    let opts = Options { mode: mode, bga: Bga::NoBga, playspeed: SEC };
    Player::new(opts, bms, infos, keyspec(&[lane]), keymap(lane), 0, &Vec::new())
}

/// The timestamp in milliseconds at which the grading line is at the given chart time.
fn when(player: &Player, chart_millis: i64) -> u64 {
    (chart_millis - player.origin.loc.time / 1000) as u64
}

fn single_note() -> Vec<Obj> {
    vec![at(1000, ObjData::Visible(Lane(3), Some(SoundRef(7)))), at(4000, ObjData::End)]
}

fn down(key: u32) -> Event {
    Event::Key(KeyCode(key), true)
}

fn up(key: u32) -> Event {
    Event::Key(KeyCode(key), false)
}

#[test]
fn new_player_starts_at_the_origin() {
    let player = player_of(single_note(), 3, Mode::PlayMode);
    assert_eq!(player.infos.nnotes, 1);
    assert_eq!(player.infos.originoffset, -SEC);
    assert_eq!(player.origin.index, 0);
    assert_eq!(player.origin.loc, ObjLoc { vpos: -SEC, pos: -SEC, vtime: -2 * SEC, time: -2 * SEC });
    assert_eq!(player.cur, player.origin);
    assert_eq!(player.checked, player.origin);
    assert_eq!(player.gradefactor, SEC);
    assert_eq!(player.survival, 150);
    assert_eq!(player.tally.gauge, 256);
    assert_eq!(player.tally.score, 0);
    assert_eq!(player.duration, 6 * SEC);
    assert_eq!(player.nograding, vec![false, false]);
    assert_eq!(player.bga, initial_bga_state());
    assert_eq!(player.thru.len(), NLANES);
    assert_eq!(player.nominal_playspeed(), SEC);
}

#[test]
fn gradefactor_follows_the_rank() {
    for (rank, factor) in [(0, 1_500_000), (1, 1_250_000), (3, 750_000), (5, 250_000), (9, 250_000), (-1, 1_750_000)] {
        let mut bms = chart(single_note());
        bms.meta.rank = rank;
        let infos = bms.timeline.analyze();
        let opts = Options { mode: Mode::PlayMode, bga: Bga::NoBga, playspeed: SEC };
        let player = Player::new(opts, bms, infos, keyspec(&[3]), keymap(3), 0, &Vec::new());
        assert_eq!(player.gradefactor, factor);
    }
}

#[test]
fn exact_press_is_cool() {
    let mut player = player_of(single_note(), 3, Mode::PlayMode);
    let now = when(&player, 1000);
    let r = player.tick(now, &vec![down(KEY_Z)]);
    assert_eq!(player.cur.loc.vtime, SEC);
    assert_eq!(r.verdict, Verdict::Continue);
    assert_eq!(r.effects, vec![Effect::Sound(SoundRef(7), false)]);
    assert_eq!(player.tally.lastgrade, Some((Grade::COOL, now)));
    assert_eq!(player.tally.lastcombo, 1);
    assert_eq!(player.tally.bestcombo, 1);
    assert_eq!(player.tally.score, 300);
    assert_eq!(player.tally.cools, 1);
    assert_eq!(player.tally.gauge, 259);
    assert_eq!(player.nograding, vec![true, false]);
    assert!(player.key_pressed(Lane(3)));
}

#[test]
fn late_press_is_bad() {
    let mut player = player_of(single_note(), 3, Mode::PlayMode);
    let now = when(&player, 1100);
    let r = player.tick(now, &vec![down(KEY_Z)]);
    assert_eq!(player.cur.loc.vtime, 1_100_000);
    assert_eq!(r.verdict, Verdict::Continue);
    assert_eq!(player.tally.lastgrade, Some((Grade::BAD, now)));
    assert_eq!(player.tally.lastcombo, 0);
    assert_eq!(player.tally.bads, 1);
    assert_eq!(player.tally.gauge, 256 - 15);
    // the weight is (0.144 - 0.100) / 0.144 = 0.30555.., worth 91 points
    assert_eq!(player.tally.score, 91);
    assert_eq!(player.nograding, vec![true, false]);
}

#[test]
fn press_outside_the_grading_area_grades_nothing() {
    let mut player = player_of(single_note(), 3, Mode::PlayMode);
    let now = when(&player, 800);
    let r = player.tick(now, &vec![down(KEY_Z)]);
    // the key sound still plays
    assert_eq!(r.effects, vec![Effect::Sound(SoundRef(7), false)]);
    assert_eq!(player.tally, Tally::new());
    assert_eq!(player.nograding, vec![false, false]);
}

#[test]
fn escaped_note_is_missed_once() {
    let mut player = player_of(single_note(), 3, Mode::PlayMode);
    let now = when(&player, 1144);
    player.tick(now, &Vec::new());
    assert_eq!(player.tally.lastgrade, Some((Grade::MISS, now)));
    assert_eq!(player.tally.misses, 1);
    assert_eq!(player.tally.gauge, 256 - 30);
    assert_eq!(player.checked, player.cur);
    // neither a later tick nor a late press grades it again
    let later = when(&player, 1200);
    player.tick(later, &vec![down(KEY_Z)]);
    assert_eq!(player.tally.misses, 1);
    assert_eq!(player.tally.lastgrade, Some((Grade::MISS, now)));
}

#[test]
fn note_just_inside_the_area_is_not_swept() {
    let mut player = player_of(single_note(), 3, Mode::PlayMode);
    player.tick(when(&player, 1143), &Vec::new());
    assert_eq!(player.tally.misses, 0);
    assert_eq!(player.checked.index, 0);
    assert_eq!(player.checked.loc.vtime, SEC);
}

#[test]
fn zero_bpm_stops_at_once() {
    let objs = vec![
        at(500, ObjData::BGM(SoundRef(1))),
        at(1000, ObjData::SetBPM(BPM(0))),
        at(1000, ObjData::BGM(SoundRef(2))),
        at(2000, ObjData::Visible(Lane(3), None)),
        at(4000, ObjData::End),
    ];
    let mut player = player_of(objs, 3, Mode::PlayMode);
    let before = player.cur;
    let r = player.tick(when(&player, 900), &Vec::new());
    assert_eq!(r.verdict, Verdict::Continue);
    assert_eq!(r.effects, vec![Effect::Sound(SoundRef(1), true)]);
    let r = player.tick(when(&player, 3000), &vec![down(KEY_Z)]);
    assert_eq!(r.verdict, Verdict::Stop);
    assert!(!r.verdict.keep_going(true));
    // nothing after the change of tempo is activated
    assert!(r.effects.is_empty());
    assert_eq!(player.bpm, BPM(0));
    assert_ne!(player.cur, before);
    assert_eq!(player.cur.index, 1);
    assert_eq!(player.tally, Tally::new());
}

#[test]
fn lane_bound_to_two_keys_stays_pressed() {
    let mut player = player_of(single_note(), 3, Mode::PlayMode);
    player.tick(when(&player, 0), &vec![Event::JoyButton(3, true)]);
    assert_eq!(player.keymultiplicity[3], 1);
    player.tick(when(&player, 10), &vec![down(KEY_Z)]);
    assert_eq!(player.keymultiplicity[3], 2);
    player.tick(when(&player, 20), &vec![Event::JoyButton(3, false)]);
    assert_eq!(player.keymultiplicity[3], 1);
    assert!(player.key_pressed(Lane(3)));
    player.tick(when(&player, 30), &vec![up(KEY_Z)]);
    assert_eq!(player.keymultiplicity[3], 0);
    assert!(!player.key_pressed(Lane(3)));
}

#[test]
fn release_of_an_unheld_lane_leaves_it_at_zero() {
    let mut player = player_of(single_note(), 3, Mode::PlayMode);
    player.tick(when(&player, 0), &vec![up(KEY_Z), up(KEY_Z)]);
    assert_eq!(player.keymultiplicity[3], 0);
    assert!(!player.key_pressed(Lane(3)));
    player.tick(when(&player, 10), &vec![down(KEY_Z)]);
    assert_eq!(player.keymultiplicity[3], 1);
}

#[test]
fn second_key_on_a_held_lane_does_not_press_again() {
    let mut player = player_of(single_note(), 3, Mode::PlayMode);
    let r = player.tick(when(&player, 1000), &vec![Event::JoyButton(3, true), down(KEY_Z)]);
    // one sound, one grade
    assert_eq!(r.effects.len(), 1);
    assert_eq!(player.tally.cools, 1);
    assert_eq!(player.tally.score, 300);
}

fn long_note() -> Vec<Obj> {
    vec![
        at(500, ObjData::Visible(Lane(5), None)),
        at(2000, ObjData::LNStart(Lane(5), Some(SoundRef(3)))),
        at(3000, ObjData::LNDone(Lane(5), None)),
        at(6000, ObjData::End),
    ]
}

#[test]
fn long_note_released_in_time_is_clean() {
    let mut player = player_of(long_note(), 5, Mode::PlayMode);
    player.tick(when(&player, 2000), &vec![down(KEY_Z)]);
    assert_eq!(player.tally.misses, 1);
    assert_eq!(player.tally.cools, 1);
    assert_eq!(player.thru[5].map(|p| p.index), Some(1));
    assert_eq!(player.nograding, vec![false, true, false, false]);
    let before = player.tally;
    player.tick(when(&player, 3020), &vec![up(KEY_Z)]);
    assert_eq!(player.thru[5], None);
    assert_eq!(player.nograding, vec![false, true, true, false]);
    assert_eq!(player.tally, before);
    // the end of the long note is not missed later on
    player.tick(when(&player, 4000), &Vec::new());
    assert_eq!(player.tally, before);
}

#[test]
fn long_note_released_late_is_missed() {
    let mut player = player_of(long_note(), 5, Mode::PlayMode);
    player.tick(when(&player, 2000), &vec![down(KEY_Z)]);
    let now = when(&player, 3200);
    player.tick(now, &vec![up(KEY_Z)]);
    assert_eq!(player.thru[5], None);
    assert_eq!(player.tally.misses, 2);
    assert_eq!(player.tally.lastgrade, Some((Grade::MISS, now)));
    assert_eq!(player.tally.lastcombo, 0);
    assert_eq!(player.tally.bestcombo, 1);
}

#[test]
fn late_release_is_one_miss_of_the_standard_damage() {
    let mut player = player_of(long_note(), 5, Mode::PlayMode);
    player.tick(when(&player, 2000), &vec![down(KEY_Z)]);
    let before = player.tally;
    // the end of the long note has escaped: the sweep ends the long note, the key adds nothing
    let now = when(&player, 3200);
    player.tick(now, &vec![up(KEY_Z)]);
    assert_eq!(player.tally.misses, before.misses + 1);
    assert_eq!(player.tally.gauge, before.gauge - 30);
    assert_eq!(player.tally.lastgrade, Some((Grade::MISS, now)));
    assert_eq!(player.tally.score, before.score);
    assert_eq!(player.thru[5], None);
    assert_eq!(player.keymultiplicity[5], 0);
    // the end still within the grading area: the key ends the long note by itself
    let mut player = player_of(long_note(), 5, Mode::PlayMode);
    player.tick(when(&player, 2000), &vec![down(KEY_Z)]);
    player.tick(when(&player, 2800), &vec![up(KEY_Z)]);
    assert_eq!(player.tally.misses, before.misses + 1);
    assert_eq!(player.tally.gauge, before.gauge - 30);
    assert_eq!(player.nograding, vec![false, true, false, false]);
    player.tick(when(&player, 3200), &Vec::new());
    assert_eq!(player.tally.misses, before.misses + 1);
}

#[test]
fn idle_tick_keeps_the_grading_line() {
    let mut player = player_of(long_note(), 5, Mode::PlayMode);
    for millis in [0, 500, 1234, 2000, 2999, 3000, 5999, 6000, 7000] {
        let now = when(&player, millis);
        player.tick(now, &Vec::new());
        let line = player.cur;
        let tally = player.tally;
        player.tick(now, &Vec::new());
        assert_eq!(player.cur, line);
        player.tick(now, &Vec::new());
        assert_eq!(player.cur, line);
        assert_eq!(player.tally, tally);
    }
}

#[test]
fn press_is_graded_once_in_a_tick() {
    let mut player = player_of(single_note(), 3, Mode::PlayMode);
    let now = when(&player, 1010);
    // the second key of the lane goes down in the same tick, then both go up and down again
    let events = vec![down(KEY_Z), up(KEY_Z), down(KEY_Z), Event::JoyButton(3, true)];
    player.tick(now, &events);
    assert_eq!(player.nograding, vec![true, false]);
    assert_eq!(player.tally.cools, 1);
    assert_eq!(player.tally.count(Grade::COOL) + player.tally.count(Grade::GREAT), 1);
    assert_eq!(player.tally.misses + player.tally.bads + player.tally.goods, 0);
    assert_eq!(player.tally.lastgrade, Some((Grade::COOL, now)));
    assert_eq!(player.tally.score, (144 - 10) * 300 / 144);
    player.tick(now + 5, &vec![up(KEY_Z), down(KEY_Z)]);
    assert_eq!(player.tally.cools, 1);
    assert_eq!(player.tally.score, (144 - 10) * 300 / 144);
}

#[test]
fn long_note_released_early_is_missed() {
    let mut player = player_of(long_note(), 5, Mode::PlayMode);
    player.tick(when(&player, 2000), &vec![down(KEY_Z)]);
    let now = when(&player, 2500);
    player.tick(now, &vec![up(KEY_Z)]);
    assert_eq!(player.thru[5], None);
    assert_eq!(player.tally.misses, 2);
    assert_eq!(player.tally.lastgrade, Some((Grade::MISS, now)));
    // the end is swept without a second miss: the long note is over
    player.tick(when(&player, 4000), &Vec::new());
    assert_eq!(player.tally.misses, 2);
}

#[test]
fn bomb_hits_a_held_lane() {
    let objs = vec![
        at(500, ObjData::Visible(Lane(3), None)),
        at(1000, ObjData::Bomb(Lane(3), Some(SoundRef(9)), Damage::GaugeDamage(100_000))),
        at(2000, ObjData::Bomb(Lane(3), None, Damage::GaugeDamage(100_000))),
        at(4000, ObjData::End),
    ];
    let mut player = player_of(objs, 3, Mode::PlayMode);
    player.tick(when(&player, 0), &vec![down(KEY_Z)]);
    let now = when(&player, 1100);
    let r = player.tick(now, &Vec::new());
    assert_eq!(r.verdict, Verdict::Continue);
    assert_eq!(r.effects, vec![Effect::Sound(SoundRef(9), false)]);
    // one miss for the note that escaped, one for the bomb
    assert_eq!(player.tally.misses, 2);
    assert_eq!(player.tally.gauge, 256 - 30 - 51);
    // a lane that is let go of is safe
    player.tick(when(&player, 1200), &vec![up(KEY_Z)]);
    player.tick(when(&player, 2100), &Vec::new());
    assert_eq!(player.tally.misses, 2);
}

#[test]
fn instant_death_ends_the_play_at_the_end_of_the_chart() {
    let objs = vec![
        at(1000, ObjData::Bomb(Lane(3), None, Damage::InstantDeath)),
        at(1500, ObjData::Bomb(Lane(3), Some(SoundRef(2)), Damage::GaugeDamage(1))),
        at(4000, ObjData::End),
    ];
    let mut player = player_of(objs, 3, Mode::PlayMode);
    let r = player.tick(when(&player, 2000), &vec![down(KEY_Z)]);
    assert_eq!(r.verdict, Verdict::Stop);
    assert!(r.effects.is_empty());
    assert_eq!(player.tally.misses, 1);
    assert_eq!(player.tally.gauge, 0);
    assert_eq!(player.cur.index, 3);
    assert_eq!(player.cur.loc.time, 4 * SEC);
}

#[test]
fn quit_ends_the_tick() {
    let mut player = player_of(single_note(), 3, Mode::PlayMode);
    let before = player.cur;
    let r = player.tick(when(&player, 1000), &vec![Event::Quit, down(KEY_Z)]);
    assert_eq!(r.verdict, Verdict::Quit);
    assert!(!r.verdict.keep_going(true));
    assert_eq!(player.tally, Tally::new());
    assert_eq!(player.cur, before);
    let mut player = player_of(single_note(), 3, Mode::ExclusiveMode);
    let r = player.tick(when(&player, 100), &vec![Event::Key(KeyCode(27), true)]);
    assert_eq!(r.verdict, Verdict::Quit);
}

#[test]
fn unmapped_and_foreign_events_are_dropped() {
    let mut player = player_of(single_note(), 3, Mode::PlayMode);
    let r = player.tick(when(&player, 1000), &vec![down(KEY_X), Event::Other, Event::JoyButton(9, true)]);
    assert_eq!(r.verdict, Verdict::Continue);
    assert!(r.effects.is_empty());
    assert_eq!(player.tally, Tally::new());
    assert!(!player.key_pressed(Lane(3)));
}

#[test]
fn autoplay_plays_and_grades_by_itself() {
    let objs = vec![
        at(500, ObjData::Visible(Lane(3), Some(SoundRef(4)))),
        at(600, ObjData::Visible(Lane(3), Some(SoundRef(0)))),
        at(700, ObjData::LNStart(Lane(3), None)),
        at(800, ObjData::LNDone(Lane(3), Some(SoundRef(5)))),
        at(900, ObjData::BGM(SoundRef(6))),
        at(950, ObjData::BGM(SoundRef(0))),
        at(4000, ObjData::End),
    ];
    let mut player = player_of(objs, 3, Mode::AutoPlayMode);
    let r = player.tick(when(&player, 1000), &vec![down(KEY_Z)]);
    assert_eq!(r.verdict, Verdict::Continue);
    assert_eq!(r.effects, vec![Effect::Sound(SoundRef(4), false), Effect::Sound(SoundRef(6), true)]);
    assert_eq!(player.tally.cools, 3);
    assert_eq!(player.tally.lastcombo, 3);
    // 300 * (1 + 0/3), 300 * (1 + 1/3), 300 * (1 + 2/3)
    assert_eq!(player.tally.score, 300 + 400 + 500);
    assert!(!player.key_pressed(Lane(3)));
    let r = player.tick(when(&player, 5000), &Vec::new());
    assert_eq!(r.verdict, Verdict::ContinueWhilePlaying(SoundGroup::AllButBeep));
    assert!(r.verdict.keep_going(true));
    assert!(!r.verdict.keep_going(false));
}

#[test]
fn end_of_chart_waits_for_the_key_sounds() {
    let mut player = player_of(single_note(), 3, Mode::PlayMode);
    let r = player.tick(when(&player, 4000), &Vec::new());
    assert_eq!(r.verdict, Verdict::ContinueWhilePlaying(SoundGroup::KeySounds));
    assert_eq!(player.cur.index, 2);
}

#[test]
fn bga_layers_follow_the_chart() {
    let objs = vec![
        at(500, ObjData::SetBGA(BGALayer::Layer2, BGARef::ImageBGA(ImageRef(8)))),
        at(600, ObjData::Visible(Lane(3), None)),
        at(4000, ObjData::End),
    ];
    let mut player = player_of(objs, 3, Mode::PlayMode);
    player.tick(when(&player, 550), &Vec::new());
    assert_eq!(
        player.bga,
        vec![
            BGARef::BlankBGA,
            BGARef::ImageBGA(ImageRef(8)),
            BGARef::BlankBGA,
            BGARef::ImageBGA(ImageRef(0))
        ]
    );
}

#[test]
fn negative_bpm_reverses_until_before_the_origin() {
    let objs = vec![
        at(500, ObjData::Visible(Lane(3), None)),
        at(1000, ObjData::SetBPM(BPM(-120 * SEC))),
        Obj {
            loc: ObjLoc { vpos: SEC, pos: SEC, vtime: INFINITY, time: INFINITY },
            data: ObjData::Visible(Lane(3), None),
        },
        Obj {
            loc: ObjLoc { vpos: 2 * SEC, pos: 2 * SEC, vtime: INFINITY, time: INFINITY },
            data: ObjData::End,
        },
    ];
    let mut player = player_of(objs, 3, Mode::AutoPlayMode);
    let r = player.tick(when(&player, 1500), &Vec::new());
    assert_eq!(r.verdict, Verdict::Continue);
    assert_eq!(player.bpm, BPM(-120 * SEC));
    assert_eq!(player.reverse.map(|p| p.index), Some(1));
    // the objects that are never reached are not passed
    assert_eq!(player.cur.index, 2);
    assert_eq!(player.tally.cools, 1);
    // one second after the reversal the grading line is half a measure back
    let r = player.tick(when(&player, 2000), &Vec::new());
    assert_eq!(r.verdict, Verdict::Continue);
    assert_eq!(player.cur.index, 0);
    assert_eq!(player.cur.loc.pos, 0);
    // and three seconds later it is behind the origin
    let r = player.tick(when(&player, 5000), &Vec::new());
    assert_eq!(r.verdict, Verdict::Stop);
    assert!(player.cur.loc.vpos < player.infos.originoffset);
    assert_eq!(player.tally.cools, 1);
}

#[test]
fn speed_changes_step_through_the_marks_and_ease() {
    let mut player = player_of(single_note(), 3, Mode::PlayMode);
    let r = player.tick(when(&player, 0), &vec![down(KEY_F4)]);
    assert_eq!(r.effects, vec![Effect::Beep]);
    assert_eq!(player.targetspeed, Some(1_200_000));
    assert_eq!(player.nominal_playspeed(), 1_200_000);
    assert_eq!(player.playspeed, SEC);
    // the release of the key changes nothing
    let r = player.tick(when(&player, 10), &vec![up(KEY_F4)]);
    assert!(r.effects.is_empty());
    assert_eq!(player.playspeed, 1_020_000);
    player.tick(when(&player, 20), &Vec::new());
    assert_eq!(player.playspeed, 1_038_000);
    for i in 0..200 {
        player.tick(when(&player, 30 + i), &Vec::new());
    }
    assert_eq!(player.playspeed, 1_200_000);
    assert_eq!(player.targetspeed, None);
    let r = player.tick(when(&player, 300), &vec![down(KEY_F3), up(KEY_F3), down(KEY_F3)]);
    assert_eq!(r.effects, vec![Effect::Beep, Effect::Beep]);
    assert_eq!(player.targetspeed, Some(800_000));
}

#[test]
fn speed_marks_end_silently() {
    assert_eq!(next_speed_mark(100_000), None);
    assert_eq!(next_speed_mark(100_500), None);
    assert_eq!(next_speed_mark(101_001), Some(100_000));
    assert_eq!(next_speed_mark(1_000_000), Some(800_000));
    assert_eq!(next_speed_mark(i64::MAX), Some(99_000_000));
    assert_eq!(next_speed_mark(i64::MIN), None);
    assert_eq!(previous_speed_mark(99_000_000), None);
    assert_eq!(previous_speed_mark(98_999_000), None);
    assert_eq!(previous_speed_mark(98_998_999), Some(99_000_000));
    assert_eq!(previous_speed_mark(1_000_000), Some(1_200_000));
    assert_eq!(previous_speed_mark(i64::MIN), Some(100_000));
    assert_eq!(previous_speed_mark(i64::MAX), None);
}

#[test]
fn exclusive_mode_takes_no_lane_input() {
    let mut player = player_of(single_note(), 3, Mode::ExclusiveMode);
    let r = player.tick(when(&player, 0), &vec![down(KEY_Z), down(KEY_F4)]);
    assert!(r.effects.is_empty());
    assert!(!player.key_pressed(Lane(3)));
    assert_eq!(player.targetspeed, None);
}

#[test]
fn axis_reversal_lets_go_and_takes_hold() {
    let objs = vec![
        at(1000, ObjData::Visible(Lane(3), None)),
        at(1050, ObjData::Visible(Lane(3), None)),
        at(4000, ObjData::End),
    ];
    let mut player = player_of(objs, 3, Mode::PlayMode);
    player.tick(when(&player, 1000), &vec![Event::JoyAxis(0, 32767)]);
    assert_eq!(player.tally.cools, 1);
    assert!(player.key_pressed(Lane(3)));
    player.tick(when(&player, 1050), &vec![Event::JoyAxis(0, -32768)]);
    assert_eq!(player.tally.cools, 2);
    assert!(player.key_pressed(Lane(3)));
    player.tick(when(&player, 1060), &vec![Event::JoyAxis(0, 100)]);
    assert!(!player.key_pressed(Lane(3)));
}

#[test]
fn nearest_unresolved_note_is_graded() {
    // two notes 60 ms apart: the second press grades the second note
    let objs = vec![
        at(1000, ObjData::Visible(Lane(3), None)),
        at(1060, ObjData::Visible(Lane(3), None)),
        at(4000, ObjData::End),
    ];
    let mut player = player_of(objs, 3, Mode::PlayMode);
    player.tick(when(&player, 1000), &vec![down(KEY_Z), up(KEY_Z)]);
    assert_eq!(player.nograding, vec![true, false, false]);
    player.tick(when(&player, 1010), &vec![down(KEY_Z)]);
    assert_eq!(player.nograding, vec![true, true, false]);
    assert_eq!(player.tally.cools, 1);
    assert_eq!(player.tally.goods, 1);
}

#[test]
fn equidistant_notes_prefer_the_earlier() {
    let objs = vec![
        at(1000, ObjData::Visible(Lane(3), Some(SoundRef(1)))),
        at(1100, ObjData::Visible(Lane(3), Some(SoundRef(2)))),
        at(4000, ObjData::End),
    ];
    let mut player = player_of(objs, 3, Mode::PlayMode);
    let r = player.tick(when(&player, 1050), &vec![down(KEY_Z)]);
    assert_eq!(r.effects, vec![Effect::Sound(SoundRef(1), false)]);
    assert_eq!(player.nograding, vec![true, false, false]);
    assert_eq!(player.tally.goods, 1);
}

#[test]
fn update_grade_keeps_combo_and_gauge_within_bounds() {
    let mut player = player_of(single_note(), 3, Mode::PlayMode);
    for _ in 0..400 {
        player.update_grade_from_distance(0);
        assert!(player.tally.gauge <= MAXGAUGE);
        assert!(player.tally.bestcombo >= player.tally.lastcombo);
    }
    assert_eq!(player.tally.gauge, MAXGAUGE);
    assert_eq!(player.tally.lastcombo, 400);
    player.update_grade_from_distance(-60_000);
    assert_eq!(player.tally.lastgrade.map(|g| g.0), Some(Grade::GOOD));
    assert_eq!(player.tally.lastcombo, 400);
    player.update_grade_to_miss();
    assert_eq!(player.tally.lastcombo, 0);
    assert_eq!(player.tally.bestcombo, 400);
    assert_eq!(player.tally.gauge, MAXGAUGE - 30);
    assert!(player.update_grade_from_damage(Damage::GaugeDamage(2_000_000)));
    assert_eq!(player.tally.gauge, MAXGAUGE - 30 - 1024);
    assert!(!player.update_grade_from_damage(Damage::InstantDeath));
    assert_eq!(player.tally.gauge, MAXGAUGE - 30 - 1024);
    assert!(player.update_grade(Grade::GREAT, 500_000, None));
    assert_eq!(player.tally.gauge, MAXGAUGE - 30 - 1024 + 2);
}

#[test]
fn press_at_a_nearer_end_of_a_long_note_grades_nothing() {
    let objs = vec![
        at(1000, ObjData::LNStart(Lane(3), None)),
        at(2000, ObjData::LNDone(Lane(3), None)),
        at(2100, ObjData::Visible(Lane(3), Some(SoundRef(4)))),
        at(4000, ObjData::End),
    ];
    let mut player = player_of(objs, 3, Mode::PlayMode);
    // the start of the long note escapes, its end stays within the grading area
    let r = player.tick(when(&player, 2040), &vec![down(KEY_Z)]);
    assert_eq!(player.tally.misses, 1);
    assert_eq!(player.tally.score, 0);
    assert_eq!(player.nograding, vec![false, false, false, false]);
    assert_eq!(player.thru[3], None);
    assert!(r.effects.is_empty());
    // once the end is the farther of the two, the note is graded
    player.tick(when(&player, 2045), &vec![up(KEY_Z)]);
    let r = player.tick(when(&player, 2060), &vec![down(KEY_Z)]);
    assert_eq!(r.effects, vec![Effect::Sound(SoundRef(4), false)]);
    assert_eq!(player.nograding, vec![false, false, true, false]);
    assert_eq!(player.tally.greats, 1);
    assert_eq!(player.tally.score, (144 - 40) * 300 / 144);
}

#[test]
fn score_of_a_good_press_is_not_cut_twice() {
    let mut player = player_of(single_note(), 3, Mode::PlayMode);
    player.tick(when(&player, 1048), &vec![down(KEY_Z)]);
    assert_eq!(player.tally.lastgrade.map(|g| g.0), Some(Grade::GOOD));
    assert_eq!(player.tally.score, 200);
}
