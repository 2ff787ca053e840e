use std::collections::VecDeque;

use vstd::prelude::*;

use crate::control::{state_name, ControlAction, PlayState};
use crate::engine_config::Playlist;

verus! {

/// When the player moves on from a wallpaper: when its video ends, or after the playlist's delay.
#[derive(Clone, Copy, Debug, PartialEq, Eq, Structural)]
pub enum WallpaperSwitchMode {
    Videosequence,
    Timer,
}

impl WallpaperSwitchMode {
    /// The switch mode of a playlist: video by video when it plays its videos in sequence.
    pub fn new(playlist: &Playlist) -> (r: WallpaperSwitchMode)
        ensures
            r == (if playlist.videosequence {
                WallpaperSwitchMode::Videosequence
            } else {
                WallpaperSwitchMode::Timer
            }),
    {
        if playlist.videosequence {
            WallpaperSwitchMode::Videosequence
        } else {
            WallpaperSwitchMode::Timer
        }
    }
}

/// How long a wallpaper is shown.
#[derive(Clone, Copy, Debug, PartialEq, Eq, Structural)]
pub enum ShowTime {
    /// As long as its video lasts (within the configured bounds).
    VideoLength,
    /// This many seconds.
    Seconds(u64),
}

/// How long a wallpaper is shown: a video wallpaper of a playlist that plays
/// videos in sequence lasts as long as its video; any other the playlist's
/// delay, given in minutes.
pub fn show_time(mode: WallpaperSwitchMode, is_video: bool, delay_minutes: u64) -> (r: ShowTime)
    requires
        !(mode == WallpaperSwitchMode::Videosequence && is_video) ==> delay_minutes * 60 <= u64::MAX,
    ensures
        r == (if mode == WallpaperSwitchMode::Videosequence && is_video {
            ShowTime::VideoLength
        } else {
            ShowTime::Seconds((delay_minutes * 60) as u64)
        }),
{
    match mode {
        WallpaperSwitchMode::Videosequence => {
            if is_video {
                ShowTime::VideoLength
            } else {
                ShowTime::Seconds(delay_minutes * 60)
            }
        },
        WallpaperSwitchMode::Timer => ShowTime::Seconds(delay_minutes * 60),
    }
}

/// Whether the stored play state holds the player on its wallpaper.
pub fn initially_stopped(play_state: &Option<String>) -> (r: bool)
    ensures
        r == (play_state matches Some(s) && s@ == state_name(PlayState::Stopped)),
{
    match play_state {
        Some(s) => PlayState::is_stopped(s.as_str()),
        None => false,
    }
}

/// Whether the profile now shows another wallpaper than before.
pub fn wallpaper_changed(previous_id: &str, current_id: &str) -> (r: bool)
    ensures
        r == (previous_id@ != current_id@),
{
    !crate::text::str_eq(previous_id, current_id)
}

/// `q` with its last element moved to the front, `n` times.
pub open spec fn rewound(q: Seq<String>, n: nat) -> Seq<String>
    decreases n,
{
    if n == 0 || q.len() == 0 {
        q
    } else {
        let r = rewound(q, (n - 1) as nat);
        seq![r.last()] + r.drop_last()
    }
}

/// The wallpapers still to play, in order; the one playing is at the back.
pub struct PlayQueue {
    pub queue: VecDeque<String>,
}

impl PlayQueue {
    /// A queue of the playlist's wallpapers, in order.
    pub fn new(wallpaper_ids: Vec<String>) -> (r: PlayQueue)
        ensures
            r.queue@ == wallpaper_ids@,
    {
        let mut queue: VecDeque<String> = VecDeque::new();
        let mut i: usize = 0;
        while i < wallpaper_ids.len()
            invariant
                i <= wallpaper_ids.len(),
                queue@ =~= wallpaper_ids@.subrange(0, i as int),
            decreases wallpaper_ids.len() - i,
        {
            queue.push_back(wallpaper_ids[i].clone());
            i = i + 1;
        }
        assert(wallpaper_ids@.subrange(0, wallpaper_ids.len() as int) =~= wallpaper_ids@);
        PlayQueue { queue }
    }

    /// Takes the next wallpaper from the front; `None` when no wallpaper is left.
    pub fn take_next(&mut self) -> (r: Option<String>)
        ensures
            old(self).queue@.len() == 0 ==> r is None && final(self).queue@ == old(self).queue@,
            old(self).queue@.len() > 0 ==> r == Some(old(self).queue@[0]) && final(self).queue@ == old(
                self,
            ).queue@.drop_first(),
    {
        let r = self.queue.pop_front();
        proof {
            if old(self).queue@.len() > 0 {
                assert(old(self).queue@.subrange(1, old(self).queue@.len() as int) =~= old(self).queue@.drop_first());
            }
        }
        r
    }

    /// Puts the wallpaper that starts playing at the back, so that it comes again.
    pub fn keep(&mut self, wallpaper_id: String)
        ensures
            final(self).queue@ == old(self).queue@.push(wallpaper_id),
    {
        self.queue.push_back(wallpaper_id);
    }

    /// Moves the last wallpaper to the front: the one playing comes next.
    pub fn rewind(&mut self)
        requires
            old(self).queue@.len() > 0,
        ensures
            final(self).queue@ == rewound(old(self).queue@, 1),
            final(self).queue@.to_multiset() == old(self).queue@.to_multiset(),
    {
        let ghost q = self.queue@;
        match self.queue.pop_back() {
            Some(last) => {
                self.queue.push_front(last);
                assert(self.queue@.len() == q.len());
                proof {
                    assert(q.subrange(0, q.len() as int - 1) =~= q.drop_last());
                    assert(rewound(q, 0) == q);
                    lemma_rewind_keeps_wallpapers(q);
                }
            },
            None => {},
        }
    }

    /// Rewinds the queue `n` times.
    pub fn rewind_times(&mut self, n: u8)
        requires
            old(self).queue@.len() > 0,
        ensures
            final(self).queue@ == rewound(old(self).queue@, n as nat),
            final(self).queue@.to_multiset() == old(self).queue@.to_multiset(),
    {
        let mut i: u8 = 0;
        while i < n
            invariant
                i <= n,
                self.queue@ == rewound(old(self).queue@, i as nat),
                self.queue@.to_multiset() == old(self).queue@.to_multiset(),
                self.queue@.len() == old(self).queue@.len(),
                old(self).queue@.len() > 0,
            decreases n - i,
        {
            self.rewind();
            proof {
                lemma_rewound_step(old(self).queue@, i as nat);
                lemma_rewound_len(old(self).queue@, (i + 1) as nat);
            }
            i = i + 1;
        }
    }
}

pub proof fn lemma_rewound_len(q: Seq<String>, n: nat)
    ensures
        rewound(q, n).len() == q.len(),
    decreases n,
{
    if n > 0 && q.len() > 0 {
        lemma_rewound_len(q, (n - 1) as nat);
    }
}

proof fn lemma_rewound_step(q: Seq<String>, n: nat)
    ensures
        rewound(rewound(q, n), 1) == rewound(q, n + 1),
{
    lemma_rewound_len(q, n);
    assert(rewound(rewound(q, n), 0) == rewound(q, n));
}

/// Moving the last wallpaper to the front keeps every wallpaper of the queue.
pub proof fn lemma_rewind_keeps_wallpapers(q: Seq<String>)
    ensures
        rewound(q, 1).to_multiset() == q.to_multiset(),
{
    assert(rewound(q, 0) == q);
    if q.len() > 0 {
        let front = seq![q.last()];
        let rest = q.drop_last();
        vstd::seq_lib::lemma_multiset_commutative(front, rest);
        vstd::seq_lib::lemma_multiset_commutative(rest, front);
        assert(rest + front =~= q);
        assert(front.to_multiset().add(rest.to_multiset()) =~= rest.to_multiset().add(front.to_multiset()));
    }
}

/// An entry of the play history to record for the wallpaper that was playing.
#[derive(Clone, Copy, Debug, PartialEq, Eq, Structural)]
pub enum HistoryRecord {
    /// It was switched away from before its time.
    Change,
    /// It played to its end.
    Complete,
}

/// Where the player is with the wallpaper that is playing.
#[derive(Clone, Copy, Debug, PartialEq, Eq, Structural)]
pub enum PlayPhase {
    /// It is held until a control message lets it go.
    Paused,
    /// The player moves to the next wallpaper of the queue.
    Done,
}

/// What the player does after a wait: what it records in the history for the
/// wallpaper that was playing, and where it goes next.
pub struct PlayStep {
    pub records: Vec<HistoryRecord>,
    pub phase: PlayPhase,
}

/// The step after a wallpaper's time ends or a message cuts it short, for a
/// player that was `stopped` before: its records, its next phase and how many
/// rewinds of the queue it makes.
pub open spec fn spec_after_wait(stopped: bool, message: Option<ControlAction>) -> (Seq<HistoryRecord>, PlayPhase, nat) {
    match message {
        Some(ControlAction::Next) => (seq![HistoryRecord::Change], PlayPhase::Done, 0),
        Some(ControlAction::Continue) => (Seq::empty(), PlayPhase::Done, 0),
        Some(ControlAction::Prev) => settle(stopped, seq![HistoryRecord::Change], 2),
        Some(ControlAction::Reload) => settle(stopped, Seq::empty(), 1),
        Some(ControlAction::Stop) => settle(true, Seq::empty(), 0),
        None => settle(stopped, Seq::empty(), 0),
    }
}

/// A stopped player holds the wallpaper; any other records it as played to its end.
pub open spec fn settle(stopped: bool, records: Seq<HistoryRecord>, rewinds: nat) -> (Seq<HistoryRecord>, PlayPhase, nat) {
    if stopped {
        (records, PlayPhase::Paused, rewinds)
    } else {
        (records.push(HistoryRecord::Complete), PlayPhase::Done, rewinds)
    }
}

/// The step of a paused player after a wait.
pub open spec fn spec_while_paused(message: Option<ControlAction>) -> (Seq<HistoryRecord>, PlayPhase, nat) {
    match message {
        Some(ControlAction::Next) => (seq![HistoryRecord::Change], PlayPhase::Done, 0),
        Some(ControlAction::Prev) => (seq![HistoryRecord::Change], PlayPhase::Done, 2),
        Some(ControlAction::Reload) => (Seq::empty(), PlayPhase::Paused, 1),
        Some(ControlAction::Stop) => (Seq::empty(), PlayPhase::Paused, 0),
        Some(ControlAction::Continue) => (seq![HistoryRecord::Complete], PlayPhase::Done, 0),
        None => (Seq::empty(), PlayPhase::Paused, 0),
    }
}

/// What a message does to a wallpaper that has started, whatever the stored play
/// state: `next` records one change and moves on; `continue` moves on and records
/// nothing; `prev` and `reload` turn the queue back two and one places; a change is
/// recorded exactly for `next` and `prev`; `stop`, or a held player, holds the
/// wallpaper; a wallpaper that is not held and not skipped is recorded as played
/// to its end.
pub proof fn lemma_after_wait_messages(stopped: bool, message: Option<ControlAction>)
    ensures
        message == Some(ControlAction::Next) ==> spec_after_wait(stopped, message).0 == seq![HistoryRecord::Change]
            && spec_after_wait(stopped, message).1 == PlayPhase::Done && spec_after_wait(stopped, message).2 == 0,
        message == Some(ControlAction::Continue) ==> spec_after_wait(stopped, message).0.len() == 0
            && spec_after_wait(stopped, message).1 == PlayPhase::Done && spec_after_wait(stopped, message).2 == 0,
        spec_after_wait(stopped, message).0.contains(HistoryRecord::Change) <==> (message == Some(ControlAction::Next)
            || message == Some(ControlAction::Prev)),
        spec_after_wait(stopped, message).1 == PlayPhase::Paused <==> (message == Some(ControlAction::Stop) || (stopped
            && message != Some(ControlAction::Next) && message != Some(ControlAction::Continue))),
        spec_after_wait(stopped, message).0.contains(HistoryRecord::Complete) <==> (spec_after_wait(stopped, message).1
            == PlayPhase::Done && message != Some(ControlAction::Next) && message != Some(ControlAction::Continue)),
        spec_after_wait(stopped, message).2 == (if message == Some(ControlAction::Prev) {
            2nat
        } else if message == Some(ControlAction::Reload) {
            1nat
        } else {
            0nat
        }),
        spec_after_wait(stopped, message).0.len() <= 2,
{
    let r = spec_after_wait(stopped, message);
    if message == Some(ControlAction::Next) || message == Some(ControlAction::Prev) {
        assert(r.0[0] == HistoryRecord::Change);
    }
    if r.1 == PlayPhase::Done && message != Some(ControlAction::Next) && message != Some(ControlAction::Continue) {
        assert(r.0[r.0.len() - 1] == HistoryRecord::Complete);
    }
}

/// What a message does to a held wallpaper: `next` and `prev` record one change
/// and move on (`prev` turning the queue back two places); `continue` records the
/// wallpaper as played to its end and moves on; anything else keeps holding it
/// (`reload` turning the queue back one place) and records nothing.
pub proof fn lemma_while_paused_messages(message: Option<ControlAction>)
    ensures
        (message == Some(ControlAction::Next) || message == Some(ControlAction::Prev)) ==> spec_while_paused(message).0
            == seq![HistoryRecord::Change] && spec_while_paused(message).1 == PlayPhase::Done,
        message == Some(ControlAction::Continue) ==> spec_while_paused(message).0 == seq![HistoryRecord::Complete]
            && spec_while_paused(message).1 == PlayPhase::Done,
        (message != Some(ControlAction::Next) && message != Some(ControlAction::Prev) && message != Some(
            ControlAction::Continue,
        )) ==> spec_while_paused(message).0.len() == 0 && spec_while_paused(message).1 == PlayPhase::Paused,
        spec_while_paused(message).2 == (if message == Some(ControlAction::Prev) {
            2nat
        } else if message == Some(ControlAction::Reload) {
            1nat
        } else {
            0nat
        }),
{
}

fn step_of(queue: &mut PlayQueue, records: Vec<HistoryRecord>, phase: PlayPhase, rewinds: u8) -> (r: PlayStep)
    requires
        old(queue).queue@.len() > 0,
    ensures
        r.records@ == records@,
        r.phase == phase,
        final(queue).queue@ == rewound(old(queue).queue@, rewinds as nat),
        final(queue).queue@.to_multiset() == old(queue).queue@.to_multiset(),
{
    queue.rewind_times(rewinds);
    PlayStep { records, phase }
}

impl PlayQueue {
    /// Plays out the wait for a wallpaper that has started (it is at the back of
    /// the queue): `message` is the control message that ended the wait, if any,
    /// and `stopped` tells whether the player was held before.
    pub fn after_wait(&mut self, stopped: bool, message: Option<ControlAction>) -> (r: PlayStep)
        requires
            old(self).queue@.len() > 0,
        ensures
            (r.records@, r.phase, spec_after_wait(stopped, message).2) == spec_after_wait(stopped, message),
            final(self).queue@ == rewound(old(self).queue@, spec_after_wait(stopped, message).2),
            final(self).queue@.to_multiset() == old(self).queue@.to_multiset(),
            message == Some(ControlAction::Next) ==> r.records@ == seq![HistoryRecord::Change] && r.phase
                == PlayPhase::Done && final(self).queue@ == old(self).queue@,
    {
        proof {
            lemma_after_wait_messages(stopped, message);
        }
        let mut records: Vec<HistoryRecord> = Vec::new();
        let (stop, rewinds): (bool, u8) = match message {
            Some(ControlAction::Next) => {
                records.push(HistoryRecord::Change);
                assert(records@ =~= seq![HistoryRecord::Change]);
                return step_of(self, records, PlayPhase::Done, 0);
            },
            Some(ControlAction::Continue) => {
                assert(records@ =~= Seq::<HistoryRecord>::empty());
                return step_of(self, records, PlayPhase::Done, 0);
            },
            Some(ControlAction::Prev) => {
                records.push(HistoryRecord::Change);
                (stopped, 2)
            },
            Some(ControlAction::Reload) => (stopped, 1),
            Some(ControlAction::Stop) => (true, 0),
            None => (stopped, 0),
        };
        if stop {
            step_of(self, records, PlayPhase::Paused, rewinds)
        } else {
            records.push(HistoryRecord::Complete);
            proof {
                if message == Some(ControlAction::Prev) {
                    assert(records@ =~= seq![HistoryRecord::Change].push(HistoryRecord::Complete));
                } else {
                    assert(records@ =~= Seq::<HistoryRecord>::empty().push(HistoryRecord::Complete));
                }
            }
            step_of(self, records, PlayPhase::Done, rewinds)
        }
    }

    /// The step of a paused player after the wait for a control message.
    pub fn while_paused(&mut self, message: Option<ControlAction>) -> (r: PlayStep)
        requires
            old(self).queue@.len() > 0,
        ensures
            (r.records@, r.phase, spec_while_paused(message).2) == spec_while_paused(message),
            final(self).queue@ == rewound(old(self).queue@, spec_while_paused(message).2),
            final(self).queue@.to_multiset() == old(self).queue@.to_multiset(),
    {
        let mut records: Vec<HistoryRecord> = Vec::new();
        match message {
            Some(ControlAction::Next) => {
                records.push(HistoryRecord::Change);
                assert(records@ =~= seq![HistoryRecord::Change]);
                step_of(self, records, PlayPhase::Done, 0)
            },
            Some(ControlAction::Prev) => {
                records.push(HistoryRecord::Change);
                assert(records@ =~= seq![HistoryRecord::Change]);
                step_of(self, records, PlayPhase::Done, 2)
            },
            Some(ControlAction::Reload) => {
                assert(records@ =~= Seq::<HistoryRecord>::empty());
                step_of(self, records, PlayPhase::Paused, 1)
            },
            Some(ControlAction::Stop) => {
                assert(records@ =~= Seq::<HistoryRecord>::empty());
                step_of(self, records, PlayPhase::Paused, 0)
            },
            Some(ControlAction::Continue) => {
                records.push(HistoryRecord::Complete);
                assert(records@ =~= seq![HistoryRecord::Complete]);
                step_of(self, records, PlayPhase::Done, 0)
            },
            None => {
                assert(records@ =~= Seq::<HistoryRecord>::empty());
                step_of(self, records, PlayPhase::Paused, 0)
            },
        }
    }
}

/// After a wallpaper `w` has started (it went to the back of the queue `q`),
/// reload plays it again next.
pub proof fn lemma_reload_replays(q: Seq<String>, w: String)
    ensures
        rewound(q.push(w), 1)[0] == w,
        rewound(q.push(w), 1) == seq![w] + q,
{
    assert(rewound(q.push(w), 0) == q.push(w));
    assert(q.push(w).drop_last() =~= q);
}

/// After a wallpaper `w` has started, "previous" plays the wallpaper before it
/// next, and `w` after that; with no other wallpaper, `w` again.
pub proof fn lemma_prev_goes_back(q: Seq<String>, w: String)
    ensures
        q.len() > 0 ==> rewound(q.push(w), 2) == seq![q.last(), w] + q.drop_last(),
        q.len() == 0 ==> rewound(q.push(w), 2) == seq![w],
{
    lemma_reload_replays(q, w);
    let r1 = seq![w] + q;
    assert(rewound(q.push(w), 2) == seq![r1.last()] + r1.drop_last());
    if q.len() > 0 {
        assert(r1.last() == q.last());
        assert(r1.drop_last() =~= seq![w] + q.drop_last());
        assert(seq![q.last()] + (seq![w] + q.drop_last()) =~= seq![q.last(), w] + q.drop_last());
    } else {
        assert(r1 =~= seq![w]);
        assert(r1.drop_last() =~= Seq::<String>::empty());
        assert(seq![w] + Seq::<String>::empty() =~= seq![w]);
    }
}

} // verus!
