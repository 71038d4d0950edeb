//! Which sound plays on which channel of the mixer. The mixer itself is the caller's.

use vstd::prelude::*;
use crate::obj::SoundRef;

verus! {

/// The channels that the sounds were last played on.
pub struct SoundChannels {
    /// Last channels in which the corresponding sound was played.
    pub sndlastch: Vec<Option<usize>>,
    /// Indices to last sounds which the channel has played. For every `x`, if `sndlastch[x] ==
    /// Some(y)` then `lastchsnd[y] == Some(x)` and vice versa.
    pub lastchsnd: Vec<Option<usize>>,
}

/// True if each sound with a last channel is the last sound of that channel, and each
/// channel with a last sound is the last channel of that sound.
pub open spec fn paired(sndlastch: Seq<Option<usize>>, lastchsnd: Seq<Option<usize>>) -> bool {
    &&& forall|x: int|
        0 <= x < sndlastch.len() ==> match #[trigger] sndlastch[x] {
            Some(y) => y < lastchsnd.len() && lastchsnd[y as int] is Some && lastchsnd[y as int].unwrap() == x,
            None => true,
        }
    &&& forall|y: int|
        0 <= y < lastchsnd.len() ==> match #[trigger] lastchsnd[y] {
            Some(x) => x < sndlastch.len() && sndlastch[x as int] is Some && sndlastch[x as int].unwrap() == y,
            None => true,
        }
}

/// A list with the entry at `i`, if there is one, replaced.
pub open spec fn cleared(list: Seq<Option<usize>>, i: Option<usize>) -> Seq<Option<usize>> {
    match i {
        Some(k) => if k < list.len() {
            list.update(k as int, None)
        } else {
            list
        },
        None => list,
    }
}

impl SoundChannels {
    /// The bookkeeping is well formed if the two lists are paired.
    pub open spec fn wf(&self) -> bool {
        paired(self.sndlastch@, self.lastchsnd@)
    }

    /// Returns the bookkeeping for the given number of sounds, none of which has played, and
    /// no channel.
    pub fn new(nsounds: usize) -> (r: SoundChannels)
        ensures
            r.wf(),
            r.sndlastch@ == Seq::new(nsounds as nat, |i: int| None::<usize>),
            r.lastchsnd@ == Seq::<Option<usize>>::empty(),
    {
        let mut sndlastch: Vec<Option<usize>> = Vec::new();
        let mut i: usize = 0;
        while i < nsounds
            invariant
                0 <= i <= nsounds,
                sndlastch@ == Seq::new(i as nat, |k: int| None::<usize>),
            decreases nsounds - i,
        {
            sndlastch.push(None);
            i += 1;
            assert(sndlastch@ =~= Seq::new(i as nat, |k: int| None::<usize>));
        }
        SoundChannels { sndlastch: sndlastch, lastchsnd: Vec::new() }
    }

    /// Takes note that the mixer has `nchannels` channels now: the channels that are new have
    /// played no sound. Channels are never taken away.
    pub fn allocate_more_channels(&mut self, nchannels: usize)
        requires
            old(self).wf(),
        ensures
            final(self).wf(),
            final(self).sndlastch == old(self).sndlastch,
            final(self).lastchsnd@ == if old(self).lastchsnd@.len() < nchannels {
                old(self).lastchsnd@ + Seq::new(
                    (nchannels - old(self).lastchsnd@.len()) as nat,
                    |i: int| None::<usize>,
                )
            } else {
                old(self).lastchsnd@
            },
    {
        let ghost before = self.lastchsnd@;
        let start: usize = self.lastchsnd.len();
        let mut n: usize = start;
        while n < nchannels
            invariant
                start == before.len(),
                start <= n,
                n <= nchannels || n == start,
                self.sndlastch == old(self).sndlastch,
                self.lastchsnd@ == before + Seq::new((n - start) as nat, |i: int| None::<usize>),
                paired(self.sndlastch@, before),
            decreases nchannels - n,
        {
            self.lastchsnd.push(None);
            n += 1;
            assert(self.lastchsnd@ =~= before + Seq::new(
                (n - start) as nat,
                |i: int| None::<usize>,
            ));
        }
        assert(self.lastchsnd@ =~= before + Seq::new((n - start) as nat, |i: int| None::<usize>));
        if start >= nchannels {
            assert(self.lastchsnd@ =~= before);
        }
        assert forall|x: int| 0 <= x < self.sndlastch@.len() implies match #[trigger] self.sndlastch@[x] {
            Some(y) => y < self.lastchsnd@.len() && self.lastchsnd@[y as int] is Some && self.lastchsnd@[y as int].unwrap() == x,
            None => true,
        } by {
            match self.sndlastch@[x] {
                Some(y) => {
                    assert(self.lastchsnd@[y as int] == before[y as int]);
                },
                None => {},
            }
        }
        assert forall|y: int| 0 <= y < self.lastchsnd@.len() implies match #[trigger] self.lastchsnd@[y] {
            Some(x) => x < self.sndlastch@.len() && self.sndlastch@[x as int] is Some && self.sndlastch@[x as int].unwrap() == y,
            None => true,
        } by {
            if y < before.len() {
                assert(self.lastchsnd@[y] == before[y]);
            }
        }
    }

    /// Returns the channel that the sound was last played on, if it is still the last sound
    /// of that channel: the channel to play it on again.
    pub fn last_channel(&self, sref: SoundRef) -> (ch: Option<usize>)
        ensures
            ch == if sref.0 < self.sndlastch@.len() {
                self.sndlastch@[sref.0 as int]
            } else {
                None
            },
    {
        if (sref.0 as usize) < self.sndlastch.len() {
            self.sndlastch[sref.0 as usize]
        } else {
            None
        }
    }

    /// Takes note that the sound plays on the channel: it is the last sound of the channel,
    /// in place of the one before, and the channel is the last channel of the sound, in place
    /// of the one before.
    pub fn play_sound(&mut self, sref: SoundRef, ch: usize)
        requires
            old(self).wf(),
            sref.0 < old(self).sndlastch@.len(),
            ch < old(self).lastchsnd@.len(),
        ensures
            final(self).wf(),
            final(self).sndlastch@ == cleared(old(self).sndlastch@, old(self).lastchsnd@[ch as int]).update(
                sref.0 as int,
                Some(ch),
            ),
            final(self).lastchsnd@ == cleared(
                old(self).lastchsnd@,
                old(self).sndlastch@[sref.0 as int],
            ).update(ch as int, Some(sref.0 as usize)),
    {
        let x: usize = sref.0 as usize;
        let ghost s0 = self.sndlastch@;
        let ghost c0 = self.lastchsnd@;
        match self.lastchsnd[ch] {
            Some(idx) => {
                self.sndlastch.set(idx, None);
            },
            None => {},
        }
        let before: Option<usize> = self.sndlastch[x];
        match before {
            Some(was) => {
                self.lastchsnd.set(was, None);
            },
            None => {},
        }
        self.sndlastch.set(x, Some(ch));
        self.lastchsnd.set(ch, Some(x));
        proof {
            let s2 = self.sndlastch@;
            let c2 = self.lastchsnd@;
            assert(s0[x as int] is Some ==> c0[s0[x as int].unwrap() as int] == Some(x));
            assert(c0[ch as int] is Some ==> s0[c0[ch as int].unwrap() as int] == Some(ch));
            assert(s2 =~= cleared(s0, c0[ch as int]).update(x as int, Some(ch)));
            assert(c2 =~= cleared(c0, s0[x as int]).update(ch as int, Some(x)));
            assert forall|x2: int| 0 <= x2 < s2.len() implies match #[trigger] s2[x2] {
                Some(y) => y < c2.len() && c2[y as int] is Some && c2[y as int].unwrap() == x2,
                None => true,
            } by {
                if x2 != x {
                    match s2[x2] {
                        Some(y) => {
                            assert(s0[x2] == Some(y));
                            assert(c0[y as int] is Some && c0[y as int].unwrap() == x2);
                        },
                        None => {},
                    }
                }
            }
            assert forall|y2: int| 0 <= y2 < c2.len() implies match #[trigger] c2[y2] {
                Some(x3) => x3 < s2.len() && s2[x3 as int] is Some && s2[x3 as int].unwrap() == y2,
                None => true,
            } by {
                if y2 != ch {
                    match c2[y2] {
                        Some(x3) => {
                            assert(c0[y2] == Some(x3));
                            assert(s0[x3 as int] is Some && s0[x3 as int].unwrap() == y2);
                        },
                        None => {},
                    }
                }
            }
        }
    }

    /// Takes note of the outcome of asking the mixer to play the sound: the channel that it
    /// plays on, or none if no channel was free. Returns the number of channels to allocate
    /// before asking again, which is none once the sound plays.
    pub fn play_result(&mut self, sref: SoundRef, outcome: Option<usize>) -> (more: usize)
        requires
            old(self).wf(),
            sref.0 < old(self).sndlastch@.len(),
            outcome matches Some(ch) ==> ch < old(self).lastchsnd@.len(),
        ensures
            final(self).wf(),
            match outcome {
                Some(ch) => more == 0 && final(self).sndlastch@ == cleared(
                    old(self).sndlastch@,
                    old(self).lastchsnd@[ch as int],
                ).update(sref.0 as int, Some(ch)) && final(self).lastchsnd@ == cleared(
                    old(self).lastchsnd@,
                    old(self).sndlastch@[sref.0 as int],
                ).update(ch as int, Some(sref.0 as usize)),
                None => more == 32 && final(self).sndlastch == old(self).sndlastch
                    && final(self).lastchsnd == old(self).lastchsnd,
            },
    {
        match outcome {
            Some(ch) => {
                self.play_sound(sref, ch);
                0
            },
            None => 32,
        }
    }
}

} // verus!
