use sonorous::bms::{Bms, BmsMeta, PlayMode};
use sonorous::grade::{bump_count, grade_of, score_at, score_for, weight_of, Grade, Tally, MAXGAUGE};
use sonorous::input::KeyMap;
use sonorous::keyspec::{key_spec_of_sides, KeyKind};
use sonorous::loading::{LoadingContext, LoadingJob, SceneCommand, TextualLoadingScene};
use sonorous::maybe_owned::{IntoMaybeOwnedVec, MaybeOwnedVec};
use sonorous::mixer::SoundChannels;
use sonorous::obj::{Damage, Obj, ObjData, ObjLoc, SoundRef, BPM};
use sonorous::player::{Bga, Mode, Options};
use sonorous::gfx::Color;
use sonorous::playing::{build_lane_styles, LaneStyle, PlayingScene, TooManyLanes};
use sonorous::selecting::{is_bms_file, Entry, PreloadingState, SelectingScene};
use sonorous::keyspec::path_has_extension;
use sonorous::text::same_text;
use sonorous::obj::Lane;
use sonorous::player::Player;
use sonorous::resource::{
    is_movie_path, Chunk, ImageResource, LoadedImageResource, LoadedSoundResource, Movie,
    MovieCommand, PreparedSurface, SoundResource,
};
use sonorous::text::{chars_of, digit10_char, digit36_char, eq_ignore_case, is_space_char, is_word, lower_char};
use sonorous::timeline::Timeline;

#[test]
fn grades_by_distance() {
    let cases = [
        (0, Grade::COOL),
        (14_399, Grade::COOL),
        (-14_399, Grade::COOL),
        (14_400, Grade::GREAT),
        (-47_999, Grade::GREAT),
        (48_000, Grade::GOOD),
        (83_999, Grade::GOOD),
        (-84_000, Grade::BAD),
        (143_999, Grade::BAD),
        (144_000, Grade::MISS),
        (-144_000, Grade::MISS),
        (i64::MAX, Grade::MISS),
        (i64::MIN, Grade::MISS),
    ];
    for (dist, grade) in cases {
        assert_eq!(grade_of(dist), grade);
    }
    assert_eq!(
        [Grade::MISS, Grade::BAD, Grade::GOOD, Grade::GREAT, Grade::COOL].map(|g| g.ordinal()),
        [0, 1, 2, 3, 4]
    );
}

#[test]
fn grading_is_monotone_in_distance() {
    let mut last = 4;
    for d in (0..200_000).step_by(100) {
        let here = grade_of(d).ordinal();
        assert!(here <= last);
        assert_eq!(grade_of(-d).ordinal(), here);
        last = here;
    }
    assert_eq!(last, 0);
}

#[test]
fn weights_and_scores() {
    assert_eq!(weight_of(0), 1_000_000);
    assert_eq!(weight_of(72_000), 500_000);
    assert_eq!(weight_of(-72_000), 500_000);
    assert_eq!(weight_of(100_000), 305_555);
    assert_eq!(weight_of(143_999), 6);
    assert_eq!(weight_of(144_000), 0);
    assert_eq!(weight_of(i64::MIN), 0);
    assert_eq!(score_for(1_000_000, 0, 10), 300);
    assert_eq!(score_for(1_000_000, 5, 10), 450);
    assert_eq!(score_for(1_000_000, 10, 10), 600);
    assert_eq!(score_for(500_000, 1, 3), 200);
    assert_eq!(score_for(305_555, 0, 1), 91);
    assert_eq!(score_for(0, 7, 3), 0);
    assert_eq!(score_for(1_000_000, 7, 0), 300);
    assert_eq!(score_for(1_000_000, usize::MAX, 1), 300 * (usize::MAX as u128 + 1));
    assert_eq!(bump_count(3), 4);
    assert_eq!(bump_count(usize::MAX), usize::MAX);
}

#[test]
fn tally_update_grade() {
    let mut t = Tally::new();
    assert_eq!(t.gauge, 256);
    assert!(t.update_grade(Grade::COOL, 1_000_000, None, 5, 2));
    assert_eq!((t.cools, t.lastcombo, t.bestcombo, t.score, t.gauge), (1, 1, 1, 300, 259));
    assert_eq!(t.lastgrade, Some((Grade::COOL, 5)));
    assert!(t.update_grade(Grade::GREAT, 800_000, None, 6, 2));
    assert_eq!((t.greats, t.lastcombo, t.bestcombo, t.score, t.gauge), (1, 2, 2, 300 + 360, 261));
    assert!(t.update_grade(Grade::GOOD, 500_000, None, 7, 2));
    assert_eq!((t.goods, t.lastcombo, t.score, t.gauge), (1, 2, 660 + 300, 261));
    assert!(t.update_grade(Grade::BAD, 100_000, Some(Damage::GaugeDamage(30_000)), 8, 2));
    assert_eq!((t.bads, t.lastcombo, t.bestcombo, t.score, t.gauge), (1, 0, 2, 960 + 60, 246));
    t.update_grade_to_miss(9, 2);
    assert_eq!((t.misses, t.score, t.gauge), (1, 1020, 216));
    assert_eq!(t.count(Grade::MISS), 1);
    assert_eq!(t.count(Grade::COOL), 1);
    assert!(!t.update_grade_from_damage(Damage::InstantDeath, 10, 2));
    assert_eq!((t.misses, t.gauge), (2, 0));
    assert!(t.update_grade_from_damage(Damage::GaugeDamage(1_000_000), 10, 2));
    assert_eq!(t.gauge, -512);
    assert!(!t.update_grade_from_damage(Damage::InstantDeath, 10, 2));
    assert_eq!(t.gauge, -512);
    assert!(t.update_grade_from_damage(Damage::GaugeDamage(u32::MAX), 10, 2));
    assert_eq!(t.gauge, -512 - 2_199_023);
}

#[test]
fn combo_bonus_and_gauge_cap() {
    let mut t = Tally::new();
    t.lastcombo = 49;
    t.update_grade(Grade::GREAT, 0, None, 0, 1);
    assert_eq!(t.gauge, 258);
    t.update_grade(Grade::GREAT, 0, None, 0, 1);
    assert_eq!(t.gauge, 261);
    t.lastcombo = 100;
    t.update_grade(Grade::COOL, 0, None, 0, 1);
    assert_eq!(t.gauge, 266);
    t.lastcombo = usize::MAX;
    t.score = u64::MAX - 1;
    t.cools = usize::MAX;
    t.update_grade(Grade::COOL, 1_000_000, None, 0, 1);
    assert_eq!(t.gauge, 271);
    assert_eq!(t.lastcombo, usize::MAX);
    assert_eq!(t.bestcombo, usize::MAX);
    assert_eq!(t.score, u64::MAX);
    assert_eq!(t.cools, usize::MAX);
    t.gauge = MAXGAUGE - 1;
    t.update_grade(Grade::COOL, 0, None, 0, 1);
    assert_eq!(t.gauge, MAXGAUGE);
    t.gauge = i64::MIN;
    t.update_grade_to_miss(0, 1);
    assert_eq!(t.gauge, i64::MIN);
    t.update_grade_from_distance(-20_000, 3, 1);
    assert_eq!(t.lastgrade, Some((Grade::GREAT, 3)));
}

#[test]
fn sound_channels_stay_paired() {
    let mut ch = SoundChannels::new(3);
    assert_eq!(ch.sndlastch, vec![None, None, None]);
    assert!(ch.lastchsnd.is_empty());
    ch.allocate_more_channels(2);
    assert_eq!(ch.lastchsnd, vec![None, None]);
    ch.allocate_more_channels(1);
    assert_eq!(ch.lastchsnd.len(), 2);
    assert_eq!(ch.last_channel(SoundRef(1)), None);
    assert_eq!(ch.last_channel(SoundRef(9)), None);
    ch.play_sound(SoundRef(1), 0);
    assert_eq!(ch.last_channel(SoundRef(1)), Some(0));
    assert_eq!(ch.lastchsnd, vec![Some(1), None]);
    // another sound takes the channel over
    ch.play_sound(SoundRef(2), 0);
    assert_eq!(ch.sndlastch, vec![None, None, Some(0)]);
    assert_eq!(ch.lastchsnd, vec![Some(2), None]);
    // a sound that moves leaves its channel
    ch.play_sound(SoundRef(2), 1);
    assert_eq!(ch.sndlastch, vec![None, None, Some(1)]);
    assert_eq!(ch.lastchsnd, vec![None, Some(2)]);
    ch.play_sound(SoundRef(2), 1);
    assert_eq!(ch.sndlastch, vec![None, None, Some(1)]);
    assert_eq!(ch.lastchsnd, vec![None, Some(2)]);
    ch.allocate_more_channels(4);
    assert_eq!(ch.lastchsnd, vec![None, Some(2), None, None]);
}

#[test]
fn maybe_owned_vec() {
    let data = [1, 2, 3];
    let owned = vec![4, 5].into_maybe_owned_vec();
    let slice = (&data[..]).into_maybe_owned_vec();
    assert!(owned.is_owned() && !owned.is_slice());
    assert!(slice.is_slice() && !slice.is_owned());
    assert_eq!(owned.len(), 2);
    assert_eq!(slice.len(), 3);
    assert_eq!(owned.as_slice(), [4, 5]);
    assert_eq!(slice.as_slice(), [1, 2, 3]);
    let copy = owned.duplicate();
    assert!(copy.is_owned());
    assert_eq!(copy.as_slice(), [4, 5]);
    assert!(slice.duplicate().is_slice());
    let empty: MaybeOwnedVec<u8> = Vec::new().into_maybe_owned_vec();
    assert_eq!(empty.len(), 0);
}

#[test]
fn resources() {
    let chunk = Chunk { id: 3, alen: 176_400 * 3 / 2 };
    assert_eq!(SoundResource::NoSound.chunk(), None);
    assert_eq!(SoundResource::Sound(chunk).chunk(), Some(chunk));
    assert_eq!(SoundResource::NoSound.duration(), 0);
    assert_eq!(SoundResource::Sound(chunk).duration(), 1_500_000);
    assert_eq!(SoundResource::Sound(Chunk { id: 0, alen: 1 }).duration(), 5);
    assert_eq!(SoundResource::Sound(Chunk { id: 0, alen: u32::MAX }).duration(), 24_347_887_159);
    assert_eq!(LoadedSoundResource::NoLoadedSound.wrap(), SoundResource::NoSound);
    assert_eq!(LoadedSoundResource::LoadedSound(chunk).wrap(), SoundResource::Sound(chunk));
    let image = ImageResource::Image(PreparedSurface(1));
    let movie = ImageResource::Movie(PreparedSurface(2), Movie(9));
    assert_eq!(ImageResource::NoImage.surface(), None);
    assert_eq!(image.surface(), Some(PreparedSurface(1)));
    assert_eq!(movie.surface(), Some(PreparedSurface(2)));
    assert!(image.stop_animating().is_empty() && image.start_animating().is_empty());
    assert!(ImageResource::NoImage.start_animating().is_empty());
    assert_eq!(movie.stop_animating(), vec![MovieCommand::Stop(Movie(9))]);
    assert_eq!(movie.start_animating(), vec![MovieCommand::Rewind(Movie(9)), MovieCommand::Play(Movie(9))]);
    assert_eq!(LoadedImageResource::NoLoadedImage.wrap(), ImageResource::NoImage);
    assert_eq!(LoadedImageResource::LoadedImage(PreparedSurface(1)).wrap(), image);
    assert_eq!(LoadedImageResource::LoadedMovie(PreparedSurface(2), Movie(9)).wrap(), movie);
    assert!(is_movie_path("a.mpg") && is_movie_path("b/C.MpG") && is_movie_path(".mpg"));
    assert!(!is_movie_path("mpg") && !is_movie_path("a.mpeg") && !is_movie_path("a.mpg ") && !is_movie_path(""));
}

fn bms() -> Bms {
    let at = |t: i64, data: ObjData| Obj { loc: ObjLoc { vpos: t, pos: t, vtime: t, time: t }, data: data };
    Bms {
        bmspath: None,
        meta: BmsMeta {
            mode: PlayMode::Single,
            rank: 2,
            basepath: Some("songs".to_string()),
            stagefile: Some("stage.png".to_string()),
            sndpath: vec![None, Some("a.wav".to_string()), None, Some("b.ogg".to_string())],
            imgpath: vec![Some("x.bmp".to_string()), None],
        },
        timeline: Timeline {
            initbpm: BPM(120_000_000),
            objs: vec![at(0, ObjData::BGM(SoundRef(3))), at(1_000_000, ObjData::End)],
        },
    }
}

fn context(bga: Bga) -> LoadingContext {
    let bms = bms();
    let infos = bms.timeline.analyze();
    let keyspec = key_spec_of_sides(PlayMode::Single, "11a", "").unwrap();
    let opts = Options { mode: Mode::PlayMode, bga: bga, playspeed: 1_000_000 };
    LoadingContext::new(bms, infos, keyspec, KeyMap::new(), opts)
}

#[test]
fn loading_jobs_in_order() {
    let ctx = context(Bga::BgaAndMovie);
    let jobs: Vec<LoadingJob> = ctx.jobs.iter().copied().collect();
    assert_eq!(
        jobs,
        vec![
            LoadingJob::LoadStageFile,
            LoadingJob::LoadSound(1),
            LoadingJob::LoadSound(3),
            LoadingJob::LoadImage(0)
        ]
    );
    assert_eq!(ctx.ntotaljobs, 4);
    assert_eq!(ctx.basedir, "songs");
    assert_eq!(ctx.sndres, vec![SoundResource::NoSound; 4]);
    assert_eq!(ctx.imgres, vec![ImageResource::NoImage; 2]);
    assert_eq!(ctx.lastpath, None);
    assert_eq!(ctx.processed_jobs_ratio(), 0);
    let ctx = context(Bga::NoBga);
    let jobs: Vec<LoadingJob> = ctx.jobs.iter().copied().collect();
    assert_eq!(jobs, vec![LoadingJob::LoadSound(1), LoadingJob::LoadSound(3)]);
    assert!(opts_of(&ctx).has_bga() == false && !opts_of(&ctx).has_movie());
    let scene = TextualLoadingScene::new(Some(PreparedSurface(0)), bms(), ctx.infos, key_spec_of_sides(PlayMode::Single, "11a", "").unwrap(), KeyMap::new(), Options { mode: Mode::ExclusiveMode, bga: Bga::BgaButNoMovie, playspeed: 1 });
    assert_eq!(scene.context.jobs.len(), 4);
    assert_eq!(scene.screen, Some(PreparedSurface(0)));
}

fn opts_of(ctx: &LoadingContext) -> Options {
    ctx.opts
}

#[test]
fn loading_processes_jobs_one_by_one() {
    let mut ctx = context(Bga::BgaButNoMovie);
    let chunk = Chunk { id: 1, alen: 176_400 };
    assert_eq!(ctx.process_jobs(), Some(LoadingJob::LoadStageFile));
    ctx.load_stagefile(Some(PreparedSurface(7)));
    assert_eq!(ctx.stagefile, Some(PreparedSurface(7)));
    ctx.load_stagefile(None);
    assert_eq!(ctx.stagefile, Some(PreparedSurface(7)));
    assert_eq!(ctx.processed_jobs_ratio(), 250_000);
    assert_eq!(ctx.process_jobs(), Some(LoadingJob::LoadSound(1)));
    ctx.load_sound(1, Some(LoadedSoundResource::LoadedSound(chunk)));
    assert_eq!(ctx.lastpath, Some("a.wav".to_string()));
    assert_eq!(ctx.sndres[1], SoundResource::Sound(chunk));
    assert_eq!(ctx.process_jobs(), Some(LoadingJob::LoadSound(3)));
    ctx.load_sound(3, None);
    assert_eq!(ctx.lastpath, Some("b.ogg".to_string()));
    assert_eq!(ctx.sndres[3], SoundResource::NoSound);
    assert_eq!(ctx.process_jobs(), Some(LoadingJob::LoadImage(0)));
    ctx.load_image(0, Some(LoadedImageResource::LoadedImage(PreparedSurface(8))));
    assert_eq!(ctx.lastpath, Some("x.bmp".to_string()));
    assert_eq!(ctx.imgres[0], ImageResource::Image(PreparedSurface(8)));
    assert_eq!(ctx.processed_jobs_ratio(), 1_000_000);
    assert_eq!(ctx.process_jobs(), None);
    assert_eq!(ctx.lastpath, None);
    assert_eq!(ctx.process_jobs(), None);
    let (player, imgres) = ctx.to_player(0);
    assert_eq!(imgres.len(), 2);
    // the background sound of number 3 has no resource: the chart ends with its last object
    assert_eq!(player.duration, 1_000_000);
    assert_eq!(player.now, 0);
}

#[test]
fn stagefile_is_kept_only_if_the_chart_names_one() {
    let mut ctx = context(Bga::BgaAndMovie);
    ctx.bms.meta.stagefile = None;
    ctx.load_stagefile(Some(PreparedSurface(7)));
    assert_eq!(ctx.stagefile, None);
}

#[test]
fn lane_styles() {
    let style = LaneStyle::from_kind(KeyKind::WhiteKey, 100, false);
    assert_eq!(
        style,
        LaneStyle { left: 100, spriteleft: 25, spritebombleft: 0, width: 25, basecolor: Color { r: 0x80, g: 0x80, b: 0x80 } }
    );
    let style = LaneStyle::from_kind(KeyKind::Scratch, 800, true);
    assert_eq!(
        style,
        LaneStyle { left: 760, spriteleft: 320, spritebombleft: 280, width: 40, basecolor: Color { r: 0xff, g: 0x80, b: 0x80 } }
    );
    let widths: Vec<usize> = KeyKind::all().iter().map(|&k| LaneStyle::from_kind(k, 40, true).width).collect();
    assert_eq!(widths, vec![25, 25, 25, 40, 40, 30, 30, 30, 30, 30]);
    let lefts: Vec<usize> = KeyKind::all().iter().map(|&k| LaneStyle::from_kind(k, 40, true).left).collect();
    assert_eq!(lefts, vec![15, 15, 15, 0, 0, 10, 10, 10, 10, 10]);
    assert_eq!(LaneStyle::from_kind(KeyKind::Button5, 7, false).spriteleft, 250);
    assert_eq!(LaneStyle::from_kind(KeyKind::FootPedal, 7, false).basecolor, Color { r: 0x80, g: 0xff, b: 0x80 });
}

#[test]
fn text_helpers() {
    assert!(is_space_char(' ') && is_space_char('\t') && is_space_char('\n') && is_space_char('\r'));
    assert!(is_space_char('\u{b}') && is_space_char('\u{c}'));
    for c in ['\u{85}', '\u{a0}', '\u{1680}', '\u{2000}', '\u{200a}', '\u{2028}', '\u{2029}', '\u{202f}', '\u{205f}', '\u{3000}'] {
        assert!(is_space_char(c));
    }
    for c in ['a', '\0', '\u{8}', '\u{e}', '\u{1f}', '\u{84}', '\u{86}', '\u{200b}', '\u{180e}', '\u{feff}', '\u{2060}', '\u{3001}'] {
        assert!(!is_space_char(c));
    }
    // the same characters as those of the standard library
    for code in 0u32..0x11_0000 {
        if let Some(c) = char::from_u32(code) {
            assert_eq!(is_space_char(c), c.is_whitespace(), "U+{:04X}", code);
        }
    }
    assert_eq!(lower_char('A'), 'a' as u32);
    assert_eq!(lower_char('Z'), 'z' as u32);
    assert_eq!(lower_char('a'), 'a' as u32);
    assert_eq!(lower_char('@'), '@' as u32);
    assert_eq!(lower_char('['), '[' as u32);
    assert_eq!(lower_char('É'), 'É' as u32);
    assert_eq!(digit36_char('0'), Some(0));
    assert_eq!(digit36_char('9'), Some(9));
    assert_eq!(digit36_char('a'), Some(10));
    assert_eq!(digit36_char('Z'), Some(35));
    assert_eq!(digit36_char('-'), None);
    assert_eq!(digit36_char('é'), None);
    assert_eq!(digit10_char('7'), Some(7));
    assert_eq!(digit10_char('a'), None);
    assert_eq!(digit10_char('/'), None);
    assert_eq!(digit10_char(':'), None);
    assert_eq!(chars_of("héllo"), vec!['h', 'é', 'l', 'l', 'o']);
    assert!(eq_ignore_case(&chars_of("Left Shift"), &chars_of("left shift")));
    assert!(!eq_ignore_case(&chars_of("left shift"), &chars_of("left  shift")));
    assert!(!eq_ignore_case(&chars_of("É"), &chars_of("é")));
    assert!(is_word(&chars_of("PMS"), "pms") && !is_word(&chars_of("pm"), "pms"));
}

#[test]
fn lanes_are_laid_out_from_both_edges() {
    let ks = key_spec_of_sides(PlayMode::Couple, "16s 11a 12b 13a 14b 15a", "21a 22b 23a 24b 25a 26s").unwrap();
    let (leftmost, rightmost, styles) = build_lane_styles(&ks).unwrap();
    assert_eq!(leftmost, 171);
    assert_eq!(rightmost, Some(629));
    let lefts: Vec<usize> = styles.iter().map(|s| s.1.left).collect();
    assert_eq!(lefts, vec![0, 41, 67, 93, 119, 145, 760, 734, 708, 682, 656, 630]);
    let lanes: Vec<usize> = styles.iter().map(|s| s.0 .0).collect();
    assert_eq!(lanes, vec![6, 1, 2, 3, 4, 5, 42, 41, 40, 39, 38, 37]);
    assert_eq!(styles[0].1, LaneStyle::from_kind(KeyKind::Scratch, 0, false));
    assert_eq!(styles[6].1, LaneStyle::from_kind(KeyKind::Scratch, 800, true));
    // without a split every lane lies on the left side
    let ks = key_spec_of_sides(PlayMode::Double, "16s 11a 12b", "21a 22b").unwrap();
    let (leftmost, rightmost, styles) = build_lane_styles(&ks).unwrap();
    assert_eq!((leftmost, rightmost), (165, None));
    assert_eq!(styles.iter().map(|s| s.1.left).collect::<Vec<_>>(), vec![10, 51, 77, 103, 129]);
}

#[test]
fn few_lanes_move_towards_the_center() {
    let ks = key_spec_of_sides(PlayMode::Couple, "11a", "21q").unwrap();
    let (leftmost, rightmost, styles) = build_lane_styles(&ks).unwrap();
    assert_eq!(leftmost, 165);
    assert_eq!(rightmost, Some(635));
    assert_eq!(styles[0].1.left, 69);
    assert_eq!(styles[1].1.left, 770 - 67);
    assert_eq!(styles[1].1.width, 30);
    let ks = key_spec_of_sides(PlayMode::Single, "11a 12a 13a 14a 15a 16a 17a", "").unwrap();
    let (leftmost, _, styles) = build_lane_styles(&ks).unwrap();
    assert_eq!(leftmost, 182);
    assert_eq!(styles[6].1.left, 156);
    let ks = key_spec_of_sides(PlayMode::Single, "11a 12a 13a 14a 15a 16a", "").unwrap();
    let (leftmost, _, styles) = build_lane_styles(&ks).unwrap();
    assert_eq!(leftmost, 165);
    assert_eq!(styles[0].1.left, 4);
    assert_eq!(styles[5].1.left, 134);
}

#[test]
fn too_many_lanes_do_not_fit() {
    let many = |n: usize, kind: char| -> String {
        (0..n).map(|i| format!("{}{}{} ", 1 + i / 36, char::from_digit((i % 36) as u32, 36).unwrap(), kind)).collect()
    };
    // 19 scratches take 779 pixels, 20 take 820
    let ks = key_spec_of_sides(PlayMode::Single, &many(19, 's'), "").unwrap();
    assert_eq!(build_lane_styles(&ks).map(|r| r.0), Ok(779));
    let ks = key_spec_of_sides(PlayMode::Single, &many(20, 's'), "").unwrap();
    assert_eq!(build_lane_styles(&ks).err(), Some(TooManyLanes));
    // the right side needs 40 pixels between each lane and the left side
    let left: String = many(18, 's');
    let right = "2za";
    let ks = key_spec_of_sides(PlayMode::Couple, &left, right).unwrap();
    assert_eq!(build_lane_styles(&ks).map(|r| (r.0, r.1)), Ok((738, Some(635))));
    let ks = key_spec_of_sides(PlayMode::Couple, &many(19, 's'), right).unwrap();
    assert_eq!(build_lane_styles(&ks).err(), Some(TooManyLanes));
    let ks = key_spec_of_sides(PlayMode::Couple, "10a", &many(36, 's')[4..]).unwrap();
    assert_eq!(build_lane_styles(&ks).err(), Some(TooManyLanes));
}

#[test]
fn play_result_asks_for_more_channels() {
    let mut ch = SoundChannels::new(2);
    ch.allocate_more_channels(1);
    assert_eq!(ch.play_result(SoundRef(1), None), 32);
    assert_eq!(ch.sndlastch, vec![None, None]);
    assert_eq!(ch.play_result(SoundRef(1), Some(0)), 0);
    assert_eq!(ch.sndlastch, vec![None, Some(0)]);
    assert_eq!(ch.lastchsnd, vec![Some(1)]);
}

#[test]
fn chart_files_by_extension() {
    for name in ["a.bms", "a.BME", "dir/a.bMl", "/x/y.pms", "a.b.pms"] {
        assert!(is_bms_file(name), "{}", name);
    }
    for name in ["a.bmx", "bms", ".bms", "a.bms/", "a.bms.txt", "", "a."] {
        assert!(!is_bms_file(name), "{}", name);
    }
    assert!(path_has_extension("a.", ""));
    assert!(path_has_extension("x.tar.GZ", "gz"));
    assert!(!path_has_extension("x.tar.gz", "tar"));
    assert!(same_text("abc", "abc") && !same_text("abc", "abC") && !same_text("abc", "ab"));
    assert!(same_text("", "") && same_text("é", "é"));
}

fn selection(n: usize) -> SelectingScene {
    SelectingScene {
        files: (0..n).map(|i| Entry { path: format!("song{}.bms", i), hash: None }).collect(),
        scrolloffset: 0,
        offset: 0,
        preloaded: PreloadingState::NothingToPreload,
    }
}

#[test]
fn selection_scrolls_with_the_offset() {
    let mut s = selection(40);
    assert_eq!(s.current(), Some(&"song0.bms".to_string()));
    assert!(s.is_current("song0.bms") && !s.is_current("song1.bms"));
    s.update_offset(14, 1000);
    assert_eq!((s.offset, s.scrolloffset), (14, 0));
    assert_eq!(s.preloaded, PreloadingState::PreloadAfter(1300));
    s.update_offset(15, 1000);
    assert_eq!((s.offset, s.scrolloffset), (15, 1));
    s.update_offset(39, 1000);
    assert_eq!((s.offset, s.scrolloffset), (39, 25));
    s.update_offset(30, 1000);
    assert_eq!((s.offset, s.scrolloffset), (30, 25));
    s.update_offset(24, u64::MAX);
    assert_eq!((s.offset, s.scrolloffset), (24, 24));
    assert_eq!(s.preloaded, PreloadingState::PreloadAfter(u64::MAX));
    assert!(s.is_current("song24.bms"));
    s.update_offset(40, 5);
    assert_eq!((s.offset, s.scrolloffset), (40, 26));
    assert_eq!(s.preloaded, PreloadingState::NothingToPreload);
    assert_eq!(s.current(), None);
    assert!(!s.is_current("song39.bms"));
    let mut empty = selection(0);
    empty.update_offset(0, 5);
    assert_eq!(empty.preloaded, PreloadingState::NothingToPreload);
    assert_eq!(empty.current(), None);
}

#[test]
fn textual_loading_scene_ticks_through_its_jobs() {
    let ctx = context(Bga::NoBga);
    let mut scene = TextualLoadingScene::new(None, bms(), ctx.infos, key_spec_of_sides(PlayMode::Single, "11a", "").unwrap(), KeyMap::new(), ctx.opts);
    assert_eq!(scene.tick(), (SceneCommand::Continue, Some(LoadingJob::LoadSound(1))));
    assert_eq!(scene.tick(), (SceneCommand::Continue, Some(LoadingJob::LoadSound(3))));
    assert_eq!(scene.tick(), (SceneCommand::Replace, None));
    assert_eq!(scene.tick(), (SceneCommand::Replace, None));
}

fn playing(mode: Mode, left: &str, right: &str) -> Result<PlayingScene, TooManyLanes> {
    let at = |t: i64, data: ObjData| Obj { loc: ObjLoc { vpos: t, pos: t, vtime: t, time: t }, data: data };
    let mut chart = bms();
    chart.timeline.objs = vec![
        at(1_000_000, ObjData::Visible(Lane(1), None)),
        at(2_000_000, ObjData::BGM(SoundRef(1))),
        at(3_000_000, ObjData::End),
    ];
    let infos = chart.timeline.analyze();
    let keyspec = key_spec_of_sides(PlayMode::Couple, left, right).unwrap();
    let opts = Options { mode: mode, bga: Bga::NoBga, playspeed: 1_000_000 };
    PlayingScene::new(Player::new(opts, chart, infos, keyspec, KeyMap::new(), 0, &Vec::new()))
}

#[test]
fn playing_scene_lays_the_screen_out() {
    let scene = playing(Mode::PlayMode, "16s 11a 12b 13a 14b 15a", "").ok().unwrap();
    assert_eq!((scene.leftmost, scene.rightmost), (171, None));
    assert_eq!(scene.lanestyles.len(), 6);
    assert_eq!((scene.bgax, scene.bgay), (171 + (800 - 171 - 256) / 2, 172));
    assert_eq!((scene.poorlimit, scene.gradelimit), (None, None));
    let scene = playing(Mode::PlayMode, "11a", "21a").ok().unwrap();
    assert_eq!((scene.leftmost, scene.rightmost), (165, Some(635)));
    assert_eq!(scene.bgax, 165 + (470 - 256) / 2);
    let many: String = (0..36).map(|i| format!("1{}s ", char::from_digit(i, 36).unwrap())).collect();
    assert_eq!(playing(Mode::PlayMode, &many, "").err(), Some(TooManyLanes));
}

#[test]
fn playing_scene_keeps_grades_on_display() {
    let mut scene = playing(Mode::PlayMode, "11a", "").ok().unwrap();
    scene.update_display();
    assert_eq!((scene.poorlimit, scene.gradelimit), (None, None));
    scene.player.now = 1000;
    scene.player.update_grade_to_miss();
    scene.update_display();
    assert_eq!((scene.poorlimit, scene.gradelimit), (Some(1600), Some(1700)));
    scene.player.now = 1650;
    scene.update_display();
    assert_eq!((scene.poorlimit, scene.gradelimit), (None, Some(1700)));
    scene.player.update_grade_from_distance(0);
    scene.update_display();
    assert_eq!((scene.poorlimit, scene.gradelimit), (None, Some(2350)));
    scene.player.now = 2350;
    scene.update_display();
    assert_eq!(scene.gradelimit, Some(2350));
    scene.player.now = 2351;
    scene.update_display();
    assert_eq!(scene.gradelimit, None);
    // an earlier limit that lies further ahead stays
    scene.poorlimit = Some(9000);
    scene.player.update_grade_to_miss();
    scene.update_display();
    assert_eq!((scene.poorlimit, scene.gradelimit), (Some(9000), Some(3051)));
    scene.player.now = u64::MAX;
    scene.player.update_grade_to_miss();
    scene.update_display();
    assert_eq!((scene.poorlimit, scene.gradelimit), (Some(u64::MAX), Some(u64::MAX)));
}

#[test]
fn result_screen_follows_a_finished_play_only() {
    let mut scene = playing(Mode::PlayMode, "11a", "").ok().unwrap();
    assert_eq!(scene.after_play(), SceneCommand::Pop);
    scene.player.tick(2_500, &Vec::new());
    assert_eq!(scene.player.cur.index, 1);
    assert_eq!(scene.after_play(), SceneCommand::Replace);
    scene.player.tick(9_000, &Vec::new());
    assert_eq!(scene.after_play(), SceneCommand::Replace);
    let mut auto = playing(Mode::AutoPlayMode, "11a", "").ok().unwrap();
    auto.player.tick(9_000, &Vec::new());
    assert_eq!(auto.after_play(), SceneCommand::Pop);
}

#[test]
fn score_by_distance_is_divided_once() {
    // 300 * (1 - d / 0.144) * (1 + combo / notes), rounded down once
    assert_eq!(score_at(0, 0, 1), 300);
    assert_eq!(score_at(48_000, 0, 1), 200);
    assert_eq!(score_at(-48_000, 0, 1), 200);
    assert_eq!(score_at(2_400, 0, 1), 295);
    assert_eq!(score_at(4_800, 0, 1), 290);
    assert_eq!(score_at(9_600, 0, 1), 280);
    assert_eq!(score_at(72_000, 0, 7), 150);
    assert_eq!(score_at(100_000, 0, 1), 91);
    assert_eq!(score_at(143_999, 0, 1), 0);
    assert_eq!(score_at(143_520, 0, 1), 1);
    assert_eq!(score_at(144_000, 5, 1), 0);
    assert_eq!(score_at(i64::MIN, 5, 1), 0);
    assert_eq!(score_at(48_000, 1, 2), 300);
    assert_eq!(score_at(48_000, 1, 3), 266);
    assert_eq!(score_at(0, 10, 10), 600);
    assert_eq!(score_at(48_000, 3, 0), 200);
    assert_eq!(score_at(0, usize::MAX, 1), 300 * (usize::MAX as u128 + 1));
    let mut t = Tally::new();
    t.update_grade_from_distance(48_000, 9, 1);
    assert_eq!(t.lastgrade, Some((Grade::GOOD, 9)));
    assert_eq!(t.score, 200);
    t.update_grade_from_distance(-2_400, 9, 1);
    assert_eq!(t.lastgrade, Some((Grade::COOL, 9)));
    assert_eq!(t.score, 200 + 295);
    // the weight of six decimal places loses a point where the distance does not
    assert_eq!(score_for(weight_of(48_000), 0, 1), 199);
}
