//! Loading: the jobs that bring the resources of a chart in, one at a time. The caller does
//! the loading itself and hands the outcome of each job back. The share of the processed jobs
//! is rounded up to six decimal places: the share that is left is rounded down.

use std::collections::VecDeque;
use vstd::prelude::*;
use crate::bms::Bms;
use crate::input::KeyMap;
use crate::keyspec::KeySpec;
use crate::obj::{UNIT, clamp_i64};
use crate::player::{Options, Player, filled};
use crate::resource::{ImageResource, LoadedImageResource, LoadedSoundResource, SoundResource};
use crate::resource::PreparedSurface;
use crate::timeline::TimelineInfo;

verus! {

/// Jobs to be executed.
#[derive(Clone, Copy, Debug, PartialEq, Eq)]
pub enum LoadingJob {
    LoadStageFile,
    LoadSound(usize),
    LoadImage(usize),
}

/// Scene-independent loading context.
pub struct LoadingContext {
    /// Game play options.
    pub opts: Options,
    /// Yet-to-be-loaded chart data.
    pub bms: Bms,
    /// The derived timeline information.
    pub infos: TimelineInfo,
    /// The key specification.
    pub keyspec: KeySpec,
    /// The input mapping.
    pub keymap: KeyMap,
    /// The most recently loaded file name from the resource loader.
    pub lastpath: Option<String>,
    /// A list of jobs to be executed.
    pub jobs: VecDeque<LoadingJob>,
    /// A number of total jobs queued.
    pub ntotaljobs: usize,
    /// The resource directory associated to the chart data.
    pub basedir: String,
    /// A loaded texture for the image of the loading screen.
    pub stagefile: Option<PreparedSurface>,
    /// A list of loaded sound resources. Initially populated with `SoundResource::NoSound`.
    pub sndres: Vec<SoundResource>,
    /// A list of loaded image resources. Initially populated with `ImageResource::NoImage`.
    pub imgres: Vec<ImageResource>,
}

/// The jobs for the first `upto` sounds: one for each sound that has a path.
pub open spec fn sound_jobs(paths: Seq<Option<String>>, upto: int) -> Seq<LoadingJob>
    decreases upto,
{
    if upto <= 0 {
        Seq::empty()
    } else if paths[upto - 1] is Some {
        sound_jobs(paths, upto - 1).push(LoadingJob::LoadSound((upto - 1) as usize))
    } else {
        sound_jobs(paths, upto - 1)
    }
}

/// The jobs for the first `upto` images: one for each image that has a path.
pub open spec fn image_jobs(paths: Seq<Option<String>>, upto: int) -> Seq<LoadingJob>
    decreases upto,
{
    if upto <= 0 {
        Seq::empty()
    } else if paths[upto - 1] is Some {
        image_jobs(paths, upto - 1).push(LoadingJob::LoadImage((upto - 1) as usize))
    } else {
        image_jobs(paths, upto - 1)
    }
}

/// The jobs of a chart, in order: with the BGA, the image of the loading screen comes first
/// and the images last; the sounds are always loaded.
pub open spec fn all_jobs(has_bga: bool, sndpath: Seq<Option<String>>, imgpath: Seq<Option<String>>) -> Seq<
    LoadingJob,
> {
    if has_bga {
        seq![LoadingJob::LoadStageFile] + sound_jobs(sndpath, sndpath.len() as int) + image_jobs(
            imgpath,
            imgpath.len() as int,
        )
    } else {
        sound_jobs(sndpath, sndpath.len() as int)
    }
}

impl LoadingContext {
    /// A loading context is well formed if it has a place for each sound and each image of
    /// the chart, and each job that is left names a sound or an image that has a path.
    pub open spec fn wf(&self) -> bool {
        &&& self.sndres@.len() == self.bms.meta.sndpath@.len()
        &&& self.imgres@.len() == self.bms.meta.imgpath@.len()
        &&& forall|k: int|
            0 <= k < self.jobs@.len() ==> match #[trigger] self.jobs@[k] {
                LoadingJob::LoadStageFile => true,
                LoadingJob::LoadSound(i) => i < self.bms.meta.sndpath@.len()
                    && self.bms.meta.sndpath@[i as int] is Some,
                LoadingJob::LoadImage(i) => i < self.bms.meta.imgpath@.len()
                    && self.bms.meta.imgpath@[i as int] is Some,
            }
    }

    /// Creates a loading context.
    pub fn new(bms: Bms, infos: TimelineInfo, keyspec: KeySpec, keymap: KeyMap, opts: Options) -> (ctx:
        LoadingContext)
        ensures
            ctx.wf(),
            ctx.opts == opts,
            ctx.bms == bms,
            ctx.infos == infos,
            ctx.keyspec == keyspec,
            ctx.keymap == keymap,
            ctx.lastpath is None,
            ctx.stagefile is None,
            ctx.jobs@ == all_jobs(!(opts.bga is NoBga), bms.meta.sndpath@, bms.meta.imgpath@),
            ctx.ntotaljobs == ctx.jobs@.len(),
            ctx.basedir@ == match bms.meta.basepath {
                Some(p) => p@,
                None => "."@,
            },
            ctx.sndres@ == Seq::new(bms.meta.sndpath@.len(), |i: int| SoundResource::NoSound),
            ctx.imgres@ == Seq::new(bms.meta.imgpath@.len(), |i: int| ImageResource::NoImage),
    {
        let basedir: String = match &bms.meta.basepath {
            Some(p) => p.clone(),
            None => ".".to_owned(),
        };
        let nsounds: usize = bms.meta.sndpath.len();
        let nimages: usize = bms.meta.imgpath.len();
        let sndres = filled(nsounds, SoundResource::NoSound);
        let imgres = filled(nimages, ImageResource::NoImage);
        let mut jobs: VecDeque<LoadingJob> = VecDeque::new();
        let ghost stage = if opts.bga is NoBga {
            Seq::<LoadingJob>::empty()
        } else {
            seq![LoadingJob::LoadStageFile]
        };
        if opts.has_bga() {  // should go first
            jobs.push_back(LoadingJob::LoadStageFile);
        }
        assert(jobs@ =~= stage);
        let mut i: usize = 0;
        while i < nsounds
            invariant
                nsounds == bms.meta.sndpath@.len(),
                0 <= i <= nsounds,
                jobs@ == stage + sound_jobs(bms.meta.sndpath@, i as int),
                forall|k: int|
                    0 <= k < jobs@.len() ==> match #[trigger] jobs@[k] {
                        LoadingJob::LoadStageFile => true,
                        LoadingJob::LoadSound(j) => j < bms.meta.sndpath@.len()
                            && bms.meta.sndpath@[j as int] is Some,
                        LoadingJob::LoadImage(j) => j < bms.meta.imgpath@.len()
                            && bms.meta.imgpath@[j as int] is Some,
                    },
            decreases nsounds - i,
        {
            if bms.meta.sndpath[i].is_some() {
                jobs.push_back(LoadingJob::LoadSound(i));
            }
            i += 1;
            assert(jobs@ =~= stage + sound_jobs(bms.meta.sndpath@, i as int));
        }
        if opts.has_bga() {
            let ghost sounds = jobs@;
            let mut k: usize = 0;
            while k < nimages
                invariant
                    nimages == bms.meta.imgpath@.len(),
                    0 <= k <= nimages,
                    jobs@ == sounds + image_jobs(bms.meta.imgpath@, k as int),
                    forall|m: int|
                        0 <= m < jobs@.len() ==> match #[trigger] jobs@[m] {
                            LoadingJob::LoadStageFile => true,
                            LoadingJob::LoadSound(j) => j < bms.meta.sndpath@.len()
                                && bms.meta.sndpath@[j as int] is Some,
                            LoadingJob::LoadImage(j) => j < bms.meta.imgpath@.len()
                                && bms.meta.imgpath@[j as int] is Some,
                        },
                decreases nimages - k,
            {
                if bms.meta.imgpath[k].is_some() {
                    jobs.push_back(LoadingJob::LoadImage(k));
                }
                k += 1;
                assert(jobs@ =~= sounds + image_jobs(bms.meta.imgpath@, k as int));
            }
        }
        let njobs: usize = jobs.len();
        LoadingContext {
            opts: opts,
            bms: bms,
            infos: infos,
            keyspec: keyspec,
            keymap: keymap,
            lastpath: None,
            jobs: jobs,
            ntotaljobs: njobs,
            basedir: basedir,
            stagefile: None,
            sndres: sndres,
            imgres: imgres,
        }
    }

    /// Takes note of the outcome of loading the image of the loading screen: the texture that
    /// was made of it, or none if the loading failed. A chart that names no such image keeps
    /// none.
    pub fn load_stagefile(&mut self, texture: Option<PreparedSurface>)
        ensures
            final(self).stagefile == if old(self).bms.meta.stagefile is Some && texture is Some {
                texture
            } else {
                old(self).stagefile
            },
            final(self).jobs == old(self).jobs,
            final(self).bms == old(self).bms,
            final(self).sndres == old(self).sndres,
            final(self).imgres == old(self).imgres,
            final(self).lastpath == old(self).lastpath,
            final(self).ntotaljobs == old(self).ntotaljobs,
    {
        if self.bms.meta.stagefile.is_none() {
            return ;
        }
        match texture {
            Some(tex) => {
                self.stagefile = Some(tex);
            },
            None => {},
        }
    }

    /// Takes note of the outcome of loading the sound of number `i`: the resource, or none
    /// if the loading failed, which leaves the sound without a resource. The path of the
    /// sound becomes the most recently loaded one.
    pub fn load_sound(&mut self, i: usize, loaded: Option<LoadedSoundResource>)
        requires
            old(self).wf(),
            i < old(self).bms.meta.sndpath@.len(),
            old(self).bms.meta.sndpath@[i as int] is Some,
        ensures
            final(self).wf(),
            final(self).lastpath matches Some(p) && p@ == old(self).bms.meta.sndpath@[i as int].unwrap()@,
            final(self).sndres@ == match loaded {
                Some(res) => old(self).sndres@.update(i as int, res.wrap_spec()),
                None => old(self).sndres@,
            },
            final(self).jobs == old(self).jobs,
            final(self).bms == old(self).bms,
            final(self).imgres == old(self).imgres,
            final(self).stagefile == old(self).stagefile,
            final(self).ntotaljobs == old(self).ntotaljobs,
    {
        let path: String = match &self.bms.meta.sndpath[i] {
            Some(p) => p.clone(),
            None => String::new(),
        };
        self.lastpath = Some(path);
        match loaded {
            Some(res) => {
                self.sndres.set(i, res.wrap());
            },
            None => {},
        }
    }

    /// Takes note of the outcome of loading the image or movie of number `i`: the resource,
    /// or none if the loading failed, which leaves the image without a resource. The path of
    /// the image becomes the most recently loaded one.
    pub fn load_image(&mut self, i: usize, loaded: Option<LoadedImageResource>)
        requires
            old(self).wf(),
            i < old(self).bms.meta.imgpath@.len(),
            old(self).bms.meta.imgpath@[i as int] is Some,
        ensures
            final(self).wf(),
            final(self).lastpath matches Some(p) && p@ == old(self).bms.meta.imgpath@[i as int].unwrap()@,
            final(self).imgres@ == match loaded {
                Some(res) => old(self).imgres@.update(i as int, res.wrap_spec()),
                None => old(self).imgres@,
            },
            final(self).jobs == old(self).jobs,
            final(self).bms == old(self).bms,
            final(self).sndres == old(self).sndres,
            final(self).stagefile == old(self).stagefile,
            final(self).ntotaljobs == old(self).ntotaljobs,
    {
        let path: String = match &self.bms.meta.imgpath[i] {
            Some(p) => p.clone(),
            None => String::new(),
        };
        self.lastpath = Some(path);
        match loaded {
            Some(res) => {
                self.imgres.set(i, res.wrap());
            },
            None => {},
        }
    }

    /// Processes pending jobs: takes the next job off the list for the caller to execute,
    /// who hands its outcome to `load_stagefile`, `load_sound` or `load_image`. Returns none,
    /// and forgets the most recently loaded path, once no job is left.
    pub fn process_jobs(&mut self) -> (job: Option<LoadingJob>)
        requires
            old(self).wf(),
        ensures
            final(self).wf(),
            match job {
                Some(j) => old(self).jobs@.len() > 0 && j == old(self).jobs@[0]
                    && final(self).jobs@ == old(self).jobs@.skip(1) && final(self).lastpath
                    == old(self).lastpath && match j {
                    LoadingJob::LoadStageFile => true,
                    LoadingJob::LoadSound(i) => i < final(self).bms.meta.sndpath@.len()
                        && final(self).bms.meta.sndpath@[i as int] is Some,
                    LoadingJob::LoadImage(i) => i < final(self).bms.meta.imgpath@.len()
                        && final(self).bms.meta.imgpath@[i as int] is Some,
                },
                None => old(self).jobs@.len() == 0 && final(self).jobs@ == old(self).jobs@
                    && final(self).lastpath is None,
            },
            final(self).bms == old(self).bms,
            final(self).sndres == old(self).sndres,
            final(self).imgres == old(self).imgres,
            final(self).stagefile == old(self).stagefile,
            final(self).ntotaljobs == old(self).ntotaljobs,
    {
        let ghost before = self.jobs@;
        match self.jobs.pop_front() {
            Some(job) => {
                assert(self.jobs@ =~= before.skip(1));
                assert(before[0] == job);
                assert forall|k: int| 0 <= k < self.jobs@.len() implies match #[trigger] self.jobs@[k] {
                    LoadingJob::LoadStageFile => true,
                    LoadingJob::LoadSound(i) => i < self.bms.meta.sndpath@.len()
                        && self.bms.meta.sndpath@[i as int] is Some,
                    LoadingJob::LoadImage(i) => i < self.bms.meta.imgpath@.len()
                        && self.bms.meta.imgpath@[i as int] is Some,
                } by {
                    assert(self.jobs@[k] == before[k + 1]);
                }
                Some(job)
            },
            None => {
                self.lastpath = None;
                None
            },
        }
    }

    /// Returns a ratio of processed jobs over all jobs, in millionths. Without any job all
    /// of them are processed.
    pub fn processed_jobs_ratio(&self) -> (ratio: i64)
        ensures
            ratio == if self.ntotaljobs == 0 {
                UNIT as int
            } else {
                clamp_i64(UNIT - self.jobs@.len() * UNIT / (self.ntotaljobs as int))
            },
    {
        if self.ntotaljobs == 0 {
            UNIT
        } else {
            let njobs: usize = self.jobs.len();
            assert(0 <= njobs * UNIT <= 0x1_0000_0000_0000_0000 * 1_000_000) by (nonlinear_arith)
                requires
                    0 <= njobs <= 0x1_0000_0000_0000_0000,
                    UNIT == 1_000_000,
            ;
            let left: i128 = (njobs as i128) * (UNIT as i128) / (self.ntotaljobs as i128);
            let ratio: i128 = UNIT as i128 - left;
            if ratio < i64::MIN as i128 {
                i64::MIN
            } else {
                ratio as i64
            }
        }
    }

    /// Returns completely loaded `Player` and `ImageResource`s. The player starts at the
    /// timestamp `now`, in milliseconds, as `Player::new` makes it, with the lengths of the
    /// sounds that are loaded.
    pub fn to_player(self, now: u64) -> (r: (Player, Vec<ImageResource>))
        requires
            self.jobs@.len() == 0,
            self.bms.timeline.wf(),
        ensures
            r.0.wf(),
            r.0.opts == self.opts,
            r.0.meta == self.bms.meta,
            r.0.timeline == self.bms.timeline,
            r.0.infos == self.infos,
            r.0.keyspec == self.keyspec,
            r.0.keymap == self.keymap,
            r.0.origintime == now,
            r.0.origin == crate::pointer::Pointer::at_spec(
                self.bms.timeline.objs@,
                self.bms.timeline.initbpm,
                crate::obj::ObjAxis::VirtualPos,
                self.infos.originoffset,
            ),
            r.0.duration == clamp_i64(
                crate::timeline::latest_end(
                    self.bms.timeline.objs@,
                    sound_lengths(self.sndres@),
                    self.bms.timeline.objs@.len() as int,
                ) - r.0.origin.loc.time,
            ),
            r.0.gradefactor == crate::player::gradefactor_spec(self.bms.meta.rank),
            r.0.cur == r.0.origin,
            r.0.checked == r.0.origin,
            r.0.tally == crate::grade::Tally::initial(),
            r.0.now == now,
            r.0.playspeed == self.opts.playspeed,
            r.0.bpm == self.bms.timeline.initbpm,
            r.1 == self.imgres,
    {
        let LoadingContext { opts, bms, infos, keyspec, keymap, sndres, imgres, .. } = self;
        let n: usize = sndres.len();
        let mut lengths: Vec<i64> = Vec::new();
        let mut i: usize = 0;
        while i < n
            invariant
                n == sndres@.len(),
                0 <= i <= n,
                lengths@.len() == i,
                forall|k: int| 0 <= k < i ==> lengths@[k] == sndres@[k].duration_spec(),
            decreases n - i,
        {
            lengths.push(sndres[i].duration());
            i += 1;
        }
        assert(lengths@ =~= sound_lengths(sndres@));
        (Player::new(opts, bms, infos, keyspec, keymap, now, &lengths), imgres)
    }
}

/// The length of each sound in seconds.
pub open spec fn sound_lengths(sndres: Seq<SoundResource>) -> Seq<i64> {
    Seq::new(sndres.len(), |i: int| sndres[i].duration_spec() as i64)
}

/// What a scene asks for at the end of a tick.
#[derive(Clone, Copy, Debug, PartialEq, Eq, Structural)]
pub enum SceneCommand {
    /// Continues displaying this scene.
    Continue,
    /// Ends this scene and goes back to the one before.
    Pop,
    /// Replaces the current scene with what the scene turns into.
    Replace,
    /// Ends the program.
    Exit,
}

/// Textual loading scene context.
pub struct TextualLoadingScene {
    /// Loading context.
    pub context: LoadingContext,
    /// Display screen, if there is one. This is not used by this scene but sent to the
    /// viewing scene.
    pub screen: Option<PreparedSurface>,
}

impl TextualLoadingScene {
    /// Takes the next job off the list for the caller to execute. Once no job is left the
    /// scene asks to be replaced.
    pub fn tick(&mut self) -> (r: (SceneCommand, Option<LoadingJob>))
        requires
            old(self).context.wf(),
        ensures
            final(self).context.wf(),
            r.1 == if old(self).context.jobs@.len() > 0 {
                Some(old(self).context.jobs@[0])
            } else {
                None
            },
            r.0 == if old(self).context.jobs@.len() > 0 {
                SceneCommand::Continue
            } else {
                SceneCommand::Replace
            },
            final(self).context.jobs@ == if old(self).context.jobs@.len() > 0 {
                old(self).context.jobs@.skip(1)
            } else {
                old(self).context.jobs@
            },
            final(self).screen == old(self).screen,
    {
        match self.context.process_jobs() {
            Some(job) => (SceneCommand::Continue, Some(job)),
            None => (SceneCommand::Replace, None),
        }
    }

    /// Creates a scene context required for rendering the textual loading screen.
    pub fn new(
        screen: Option<PreparedSurface>,
        bms: Bms,
        infos: TimelineInfo,
        keyspec: KeySpec,
        keymap: KeyMap,
        opts: Options,
    ) -> (scene: TextualLoadingScene)
        ensures
            scene.screen == screen,
            scene.context.wf(),
            scene.context.bms == bms,
            scene.context.jobs@ == all_jobs(
                !(opts.bga is NoBga),
                bms.meta.sndpath@,
                bms.meta.imgpath@,
            ),
    {
        TextualLoadingScene {
            context: LoadingContext::new(bms, infos, keyspec, keymap, opts),
            screen: screen,
        }
    }
}

} // verus!
