//! The decisions of the playback controller: what the queue, the shown
//! playback state and the load bookkeeping become on each user action and
//! each engine event, and what the engine is asked to do.

use vstd::prelude::*;
use crate::domain::playback_state::RepeatMode;
use crate::domain::song::Song;
use crate::domain::song::ms_of_ns;
use crate::domain::sort::SortOption;
use crate::domain::sort::sort_songs;
use crate::domain::sort::sorted_by_option;
use crate::domain::sort::is_permutation;
use crate::engine::EngineEvent;
use crate::engine::EngineRequest;
use crate::last_played::LastPlayed;
use crate::playback::queue::Queue;

verus! {

fn string_eq(a: &String, b: &String) -> (r: bool)
    ensures
        r == (a@ == b@),
{
    a.eq(b)
}

fn opt_string_is(a: &Option<String>, b: &String) -> (r: bool)
    ensures
        r == (a matches Some(x) && x@ == b@),
{
    match a {
        Some(x) => string_eq(x, b),
        None => false,
    }
}

/// The outcome of a `Started` event.
#[derive(Debug, Clone, Copy, PartialEq, Eq)]
pub struct StartedDecision {
    pub accepted: bool,
    pub pending_seek_ms: Option<u64>,
}

/// Tells events about the load the controller asked for last from events
/// about loads it has since replaced.
#[derive(Debug)]
pub struct LoadEventTracker {
    pub requested_generation: u64,
    pub requested_path: Option<String>,
    pub engine_load_generation: Option<u64>,
    pub engine_load_path: Option<String>,
    pub pending_seek_ms: Option<u64>,
}

impl LoadEventTracker {
    /// Timeline events (`Started`, `Position`, `EndOfTrack`) belong to the
    /// last requested load: the engine has reported starting that load, for
    /// the requested path, after the last request.
    pub open spec fn spec_is_current(&self) -> bool {
        &&& self.requested_path is Some
        &&& self.engine_load_path is Some
        &&& self.requested_path->0@ == self.engine_load_path->0@
        &&& self.engine_load_generation == Some(self.requested_generation)
    }

    /// A failure report for `path` belongs to the last requested load.
    pub open spec fn spec_failure_is_current(&self, path: Seq<char>) -> bool {
        &&& self.requested_path matches Some(p) && p@ == path
        &&& self.engine_load_generation == Some(self.requested_generation)
    }

    pub fn new() -> (t: LoadEventTracker)
        ensures
            t.requested_generation == 0,
            t.requested_path is None,
            t.engine_load_generation is None,
            t.engine_load_path is None,
            t.pending_seek_ms is None,
    {
        LoadEventTracker {
            requested_generation: 0,
            requested_path: None,
            engine_load_generation: None,
            engine_load_path: None,
            pending_seek_ms: None,
        }
    }

    /// Records a new load request, which supersedes every earlier one.
    pub fn request_load(&mut self, path: String, pending_seek_ms: Option<u64>)
        ensures
            final(self).requested_generation == (if old(self).requested_generation == u64::MAX {
                0
            } else {
                (old(self).requested_generation + 1) as u64
            }),
            final(self).requested_path == Some(path),
            final(self).engine_load_generation is None,
            final(self).engine_load_path == old(self).engine_load_path,
            final(self).pending_seek_ms == pending_seek_ms,
    {
        self.requested_generation = self.requested_generation.wrapping_add(1);
        self.requested_path = Some(path);
        self.engine_load_generation = None;
        self.pending_seek_ms = pending_seek_ms;
    }

    /// Records that the engine began loading `path`; the load counts as the
    /// requested one only if the path is the requested path.
    pub fn engine_load_started(&mut self, path: &String)
        ensures
            final(self).engine_load_path == Some(*path),
            final(self).engine_load_generation == (if old(self).requested_path matches Some(p)
                && p@ == path@ {
                Some(old(self).requested_generation)
            } else {
                None
            }),
            final(self).requested_generation == old(self).requested_generation,
            final(self).requested_path == old(self).requested_path,
            final(self).pending_seek_ms == old(self).pending_seek_ms,
    {
        self.engine_load_path = Some(path.clone());
        self.engine_load_generation = if opt_string_is(&self.requested_path, path) {
            Some(self.requested_generation)
        } else {
            None
        };
    }

    /// Decides a `Started` event: accepted only if current, and then it hands
    /// out (once) the seek that was waiting for the start.
    pub fn started(&mut self, duration_ms: u64) -> (d: StartedDecision)
        ensures
            d.accepted == old(self).spec_is_current(),
            d.pending_seek_ms == (if d.accepted {
                old(self).pending_seek_ms
            } else {
                None
            }),
            final(self).pending_seek_ms == (if d.accepted {
                None
            } else {
                old(self).pending_seek_ms
            }),
            final(self).requested_generation == old(self).requested_generation,
            final(self).requested_path == old(self).requested_path,
            final(self).engine_load_generation == old(self).engine_load_generation,
            final(self).engine_load_path == old(self).engine_load_path,
    {
        if !self.timeline_event_is_current() {
            return StartedDecision { accepted: false, pending_seek_ms: None };
        }
        let pending = self.pending_seek_ms.take();
        StartedDecision { accepted: true, pending_seek_ms: pending }
    }

    pub fn timeline_event_is_current(&self) -> (r: bool)
        ensures
            r == self.spec_is_current(),
    {
        match (&self.requested_path, &self.engine_load_path, self.engine_load_generation) {
            (Some(requested), Some(engine), Some(generation)) => string_eq(requested, engine)
                && generation == self.requested_generation,
            _ => false,
        }
    }

    pub fn load_failed_is_current(&self, path: &String) -> (r: bool)
        ensures
            r == self.spec_failure_is_current(path@),
    {
        opt_string_is(&self.requested_path, path) && self.engine_load_generation == Some(
            self.requested_generation,
        )
    }
}

/// A request for a new load makes every timeline event stale until the engine
/// reports starting that load.
pub proof fn lemma_request_makes_events_stale(t: LoadEventTracker)
    requires
        t.engine_load_generation is None,
    ensures
        !t.spec_is_current(),
{
}

/// Once the engine reports starting the requested path, its timeline events
/// are current.
pub proof fn lemma_matching_start_makes_events_current(t: LoadEventTracker, path: String)
    requires
        t.requested_path matches Some(p) && p@ == path@,
        t.engine_load_path == Some(path),
        t.engine_load_generation == Some(t.requested_generation),
    ensures
        t.spec_is_current(),
{
}

/// What the player shows of the playback.
#[derive(Debug)]
pub struct PlaybackState {
    pub current_song: Option<Song>,
    pub is_playing: bool,
    pub current_position_ms: u64,
    pub duration_ms: u64,
    pub shuffle_enabled: bool,
    pub repeat_mode: RepeatMode,
}

impl Clone for PlaybackState {
    fn clone(&self) -> (r: Self)
        ensures
            r == *self,
    {
        PlaybackState {
            current_song: match &self.current_song {
                Some(s) => Some(s.clone()),
                None => None,
            },
            is_playing: self.is_playing,
            current_position_ms: self.current_position_ms,
            duration_ms: self.duration_ms,
            shuffle_enabled: self.shuffle_enabled,
            repeat_mode: self.repeat_mode,
        }
    }
}

impl PlaybackState {
    pub fn new() -> (s: PlaybackState)
        ensures
            s.current_song is None,
            !s.is_playing,
            s.current_position_ms == 0,
            s.duration_ms == 0,
            !s.shuffle_enabled,
            s.repeat_mode == RepeatMode::Off,
    {
        PlaybackState {
            current_song: None,
            is_playing: false,
            current_position_ms: 0,
            duration_ms: 0,
            shuffle_enabled: false,
            repeat_mode: RepeatMode::Off,
        }
    }
}

/// The queue and its current position, as shown by the queue screen.
#[derive(Debug)]
pub struct QueueSnapshot {
    pub songs: Vec<Song>,
    pub current: Option<usize>,
}

/// What the controller asks to be done outside: an engine request, or saving
/// the last-played record.
#[derive(Debug, PartialEq, Eq)]
pub enum ControllerAction {
    Engine(EngineRequest),
    SaveLastPlayed(LastPlayed),
}

/// The state behind the playback controller.
pub struct PlayerCore {
    pub queue: Queue,
    pub state: PlaybackState,
    pub tracker: LoadEventTracker,
}

/// The engine request carried by an action.
pub open spec fn engine(r: EngineRequest) -> ControllerAction {
    ControllerAction::Engine(r)
}

impl PlayerCore {
    pub open spec fn wf(&self) -> bool {
        self.queue.wf()
    }

    /// The queue's song at its position, if any.
    pub open spec fn spec_current(&self) -> Option<Song> {
        match self.queue.current {
            Some(i) => if i < self.queue.songs@.len() {
                Some(self.queue.songs@[i as int])
            } else {
                None
            },
            None => None,
        }
    }

    /// The state shown while `s` plays from its start (or is loaded paused at
    /// `pos` when `!playing`).
    pub open spec fn shows(&self, s: Song, playing: bool, pos: u64) -> bool {
        &&& self.state.current_song == Some(s)
        &&& self.state.is_playing == playing
        &&& self.state.current_position_ms == pos
        &&& self.state.duration_ms == ms_of_ns(s.duration_ns)
    }

    /// The state shown when nothing plays.
    pub open spec fn shows_stopped(&self) -> bool {
        &&& self.state.current_song is None
        &&& !self.state.is_playing
        &&& self.state.current_position_ms == 0
        &&& self.state.duration_ms == 0
    }

    pub fn new() -> (c: PlayerCore)
        ensures
            c.wf(),
            c.queue.songs@.len() == 0,
            c.queue.current is None,
            c.shows_stopped(),
            !c.tracker.spec_is_current(),
    {
        PlayerCore { queue: Queue::new(), state: PlaybackState::new(), tracker: LoadEventTracker::new() }
    }

    /// A copy of the queue and its position.
    pub fn queue_snapshot(&self) -> (q: QueueSnapshot)
        ensures
            q.songs@ == self.queue.songs@,
            q.current == self.queue.current,
    {
        QueueSnapshot { songs: self.queue.songs.clone(), current: self.queue.current }
    }

    /// Starts the song at the queue position: it becomes the shown song,
    /// playing from its start; it is recorded as last played and loaded with
    /// autoplay. Nothing happens when the position names no song.
    fn start_current(&mut self) -> (acts: Vec<ControllerAction>)
        requires
            old(self).wf(),
        ensures
            final(self).wf(),
            final(self).queue == old(self).queue,
            match old(self).spec_current() {
                None => {
                    &&& acts@.len() == 0
                    &&& final(self).state == old(self).state
                    &&& final(self).tracker == old(self).tracker
                },
                Some(s) => {
                    &&& final(self).shows(s, true, 0)
                    &&& final(self).state.shuffle_enabled == old(self).state.shuffle_enabled
                    &&& final(self).state.repeat_mode == old(self).state.repeat_mode
                    &&& final(self).tracker.requested_path == Some(s.path)
                    &&& final(self).tracker.engine_load_generation is None
                    &&& final(self).tracker.pending_seek_ms is None
                    &&& acts@ == seq![
                        ControllerAction::SaveLastPlayed(LastPlayed { path: s.path, position_ms: 0 }),
                        engine(EngineRequest::Load { path: s.path, autoplay: true }),
                    ]
                },
            },
    {
        let song = match self.queue.current_song() {
            Some(s) => s.clone(),
            None => return Vec::new(),
        };
        self.state.current_song = Some(song.clone());
        self.state.is_playing = true;
        self.state.current_position_ms = 0;
        self.state.duration_ms = song.duration_ms();
        let mut acts: Vec<ControllerAction> = Vec::new();
        acts.push(ControllerAction::SaveLastPlayed(LastPlayed { path: song.path.clone(), position_ms: 0 }));
        self.tracker.request_load(song.path.clone(), None);
        acts.push(ControllerAction::Engine(EngineRequest::Load { path: song.path, autoplay: true }));
        acts
    }

    /// Stops the engine and shows nothing playing.
    fn stop_internal(&mut self) -> (acts: Vec<ControllerAction>)
        ensures
            final(self).shows_stopped(),
            final(self).state.shuffle_enabled == old(self).state.shuffle_enabled,
            final(self).state.repeat_mode == old(self).state.repeat_mode,
            final(self).queue == old(self).queue,
            final(self).tracker == old(self).tracker,
            acts@ == seq![engine(EngineRequest::Stop)],
    {
        self.state.current_song = None;
        self.state.is_playing = false;
        self.state.current_position_ms = 0;
        self.state.duration_ms = 0;
        let mut acts: Vec<ControllerAction> = Vec::new();
        acts.push(ControllerAction::Engine(EngineRequest::Stop));
        acts
    }
}

/// The order `ordered` gives `songs` for a play request with the optional
/// sort `sort`.
pub open spec fn ordered_for_play(songs: Seq<Song>, ordered: Seq<Song>, sort: Option<SortOption>) -> bool {
    match sort {
        None => ordered == songs,
        Some(opt) => if opt == SortOption::Shuffle {
            is_permutation(songs, ordered)
        } else {
            sorted_by_option(songs, ordered, opt, false) || sorted_by_option(songs, ordered, opt, true)
        },
    }
}

/// `post` plays `s` from its start, after `pre`: the shown state, the load
/// bookkeeping and the actions are those of starting a song.
pub open spec fn began(pre: PlayerCore, post: PlayerCore, s: Song, acts: Seq<ControllerAction>) -> bool {
    &&& post.shows(s, true, 0)
    &&& post.state.shuffle_enabled == pre.state.shuffle_enabled
    &&& post.state.repeat_mode == pre.state.repeat_mode
    &&& post.tracker.requested_path == Some(s.path)
    &&& post.tracker.engine_load_generation is None
    &&& post.tracker.pending_seek_ms is None
    &&& acts == seq![
        ControllerAction::SaveLastPlayed(LastPlayed { path: s.path, position_ms: 0 }),
        engine(EngineRequest::Load { path: s.path, autoplay: true }),
    ]
}

/// `post` has stopped playback, after `pre`.
pub open spec fn stopped(pre: PlayerCore, post: PlayerCore, acts: Seq<ControllerAction>) -> bool {
    &&& post.shows_stopped()
    &&& post.state.shuffle_enabled == pre.state.shuffle_enabled
    &&& post.state.repeat_mode == pre.state.repeat_mode
    &&& post.tracker == pre.tracker
    &&& acts == seq![engine(EngineRequest::Stop)]
}

/// The queue moved to `target` (same songs and modes) and playback followed:
/// the song there starts, or, with no target, playback stops.
pub open spec fn moved_to(pre: PlayerCore, post: PlayerCore, target: Option<usize>, acts: Seq<ControllerAction>) -> bool {
    &&& post.queue.songs == pre.queue.songs
    &&& post.queue.shuffle == pre.queue.shuffle
    &&& post.queue.repeat == pre.queue.repeat
    &&& post.queue.current == target
    &&& match target {
        Some(t) => began(pre, post, pre.queue.songs@[t as int], acts),
        None => stopped(pre, post, acts),
    }
}

/// "Next": move as the next button does.
pub open spec fn next_step(pre: PlayerCore, post: PlayerCore, acts: Seq<ControllerAction>) -> bool {
    moved_to(pre, post, pre.queue.spec_next_manual_index(), acts)
}

/// Nothing changes and nothing is asked.
pub open spec fn unchanged(pre: PlayerCore, post: PlayerCore, acts: Seq<ControllerAction>) -> bool {
    post == pre && acts.len() == 0
}

/// Only the shown state changes, and nothing is asked.
pub open spec fn only_state(pre: PlayerCore, post: PlayerCore, acts: Seq<ControllerAction>) -> bool {
    post.queue == pre.queue && post.tracker == pre.tracker && acts.len() == 0
}

/// The effect of an engine event.
pub open spec fn event_step(pre: PlayerCore, evt: EngineEvent, post: PlayerCore, acts: Seq<ControllerAction>) -> bool {
    match evt {
        EngineEvent::Started { duration_ms } => if !pre.tracker.spec_is_current() {
            unchanged(pre, post, acts)
        } else {
            &&& post.queue == pre.queue
            &&& post.state.duration_ms == duration_ms
            &&& post.state.current_song == pre.state.current_song
            &&& post.state.is_playing == pre.state.is_playing
            &&& post.state.current_position_ms == 0
            &&& post.state.shuffle_enabled == pre.state.shuffle_enabled
            &&& post.state.repeat_mode == pre.state.repeat_mode
            &&& post.tracker.pending_seek_ms is None
            &&& post.tracker.requested_generation == pre.tracker.requested_generation
            &&& post.tracker.requested_path == pre.tracker.requested_path
            &&& post.tracker.engine_load_generation == pre.tracker.engine_load_generation
            &&& post.tracker.engine_load_path == pre.tracker.engine_load_path
            &&& acts == (match pre.tracker.pending_seek_ms {
                Some(p) => if duration_ms > 0 {
                    seq![engine(EngineRequest::Seek { position_ms: p, duration_ms: duration_ms })]
                } else {
                    Seq::<ControllerAction>::empty()
                },
                None => Seq::<ControllerAction>::empty(),
            })
        },
        EngineEvent::Position { current_ms, duration_ms } => if !pre.tracker.spec_is_current() {
            unchanged(pre, post, acts)
        } else {
            &&& only_state(pre, post, acts)
            &&& post.state.current_position_ms == current_ms
            &&& post.state.duration_ms == (if duration_ms != 0 {
                duration_ms
            } else {
                pre.state.duration_ms
            })
            &&& post.state.current_song == pre.state.current_song
            &&& post.state.is_playing == pre.state.is_playing
            &&& post.state.shuffle_enabled == pre.state.shuffle_enabled
            &&& post.state.repeat_mode == pre.state.repeat_mode
        },
        EngineEvent::Paused => {
            &&& only_state(pre, post, acts)
            &&& post.state.current_song == pre.state.current_song
            &&& !post.state.is_playing
            &&& post.state.current_position_ms == pre.state.current_position_ms
            &&& post.state.duration_ms == pre.state.duration_ms
            &&& post.state.shuffle_enabled == pre.state.shuffle_enabled
            &&& post.state.repeat_mode == pre.state.repeat_mode
        },
        EngineEvent::Resumed => {
            &&& only_state(pre, post, acts)
            &&& post.state.current_song == pre.state.current_song
            &&& post.state.is_playing
            &&& post.state.current_position_ms == pre.state.current_position_ms
            &&& post.state.duration_ms == pre.state.duration_ms
            &&& post.state.shuffle_enabled == pre.state.shuffle_enabled
            &&& post.state.repeat_mode == pre.state.repeat_mode
        },
        EngineEvent::EndOfTrack => if !pre.tracker.spec_is_current() {
            unchanged(pre, post, acts)
        } else {
            moved_to(pre, post, pre.queue.spec_next_index(), acts)
        },
        EngineEvent::LoadFailed { path, error } => if !pre.tracker.spec_failure_is_current(path@) {
            unchanged(pre, post, acts)
        } else {
            next_step(pre, post, acts)
        },
        EngineEvent::LoadStarted(path) => {
            &&& post.queue == pre.queue
            &&& post.state == pre.state
            &&& acts.len() == 0
            &&& post.tracker.engine_load_path == Some(path)
            &&& post.tracker.engine_load_generation == (if pre.tracker.requested_path matches Some(p)
                && p@ == path@ {
                Some(pre.tracker.requested_generation)
            } else {
                None
            })
            &&& post.tracker.requested_generation == pre.tracker.requested_generation
            &&& post.tracker.requested_path == pre.tracker.requested_path
            &&& post.tracker.pending_seek_ms == pre.tracker.pending_seek_ms
        },
    }
}

impl PlayerCore {
    /// Moves the queue to `target` (a position the queue gave) and follows it.
    fn move_to(&mut self, target: Option<usize>) -> (acts: Vec<ControllerAction>)
        requires
            old(self).wf(),
            old(self).queue.current == target,
            target matches Some(t) ==> t < old(self).queue.songs@.len(),
        ensures
            final(self).wf(),
            final(self).queue == old(self).queue,
            match target {
                Some(t) => began(*old(self), *final(self), old(self).queue.songs@[t as int], acts@),
                None => stopped(*old(self), *final(self), acts@),
            },
    {
        match target {
            Some(_) => self.start_current(),
            None => self.stop_internal(),
        }
    }

    /// Replaces the queue with `songs` (ordered by `sort` when given) and
    /// plays from `start_index`, clamped to the last song. An empty list
    /// changes nothing.
    pub fn play_songs(&mut self, songs: Vec<Song>, start_index: usize, sort: Option<SortOption>) -> (acts: Vec<ControllerAction>)
        requires
            old(self).wf(),
        ensures
            final(self).wf(),
            songs@.len() == 0 ==> unchanged(*old(self), *final(self), acts@),
            songs@.len() > 0 ==> {
                let n = songs@.len();
                let c = if start_index < n { start_index as int } else { n - 1 };
                &&& ordered_for_play(songs@, final(self).queue.songs@, sort)
                &&& final(self).queue.current == Some(c as usize)
                &&& final(self).queue.shuffle == old(self).queue.shuffle
                &&& final(self).queue.repeat == old(self).queue.repeat
                &&& began(*old(self), *final(self), final(self).queue.songs@[c], acts@)
            },
    {
        let ghost given = songs@;
        let mut songs = songs;
        if let Some(opt) = sort {
            sort_songs(&mut songs, opt);
        }
        assert(songs@.len() == given.len()) by {
            if let Some(opt) = sort {
                if opt == SortOption::Shuffle {
                    let p = choose|p: Seq<usize>| crate::domain::sort::permuted_by(given, songs@, p);
                } else if sorted_by_option(given, songs@, opt, false) {
                    let p = choose|p: Seq<usize>| crate::domain::sort::permuted_by(given, if opt.is_descending() { songs@.reverse() } else { songs@ }, p)
                        && crate::domain::sort::sorted_stably(crate::domain::sort::spec_sort_keys(given, opt, false), p);
                } else {
                    let p = choose|p: Seq<usize>| crate::domain::sort::permuted_by(given, if opt.is_descending() { songs@.reverse() } else { songs@ }, p)
                        && crate::domain::sort::sorted_stably(crate::domain::sort::spec_sort_keys(given, opt, true), p);
                }
            }
        }
        if songs.len() == 0 {
            return Vec::new();
        }
        self.queue.replace(songs, start_index);
        self.start_current()
    }

    /// Pauses when playing; resumes when a song is shown but paused.
    pub fn play_pause(&mut self) -> (acts: Vec<ControllerAction>)
        requires
            old(self).wf(),
        ensures
            final(self).wf(),
            final(self).queue == old(self).queue,
            final(self).tracker == old(self).tracker,
            final(self).state.current_song == old(self).state.current_song,
            final(self).state.current_position_ms == old(self).state.current_position_ms,
            final(self).state.duration_ms == old(self).state.duration_ms,
            final(self).state.shuffle_enabled == old(self).state.shuffle_enabled,
            final(self).state.repeat_mode == old(self).state.repeat_mode,
            old(self).state.is_playing ==> !final(self).state.is_playing && acts@ == seq![engine(EngineRequest::Pause)],
            !old(self).state.is_playing && old(self).state.current_song is Some ==> final(self).state.is_playing
                && acts@ == seq![engine(EngineRequest::Play)],
            !old(self).state.is_playing && old(self).state.current_song is None ==> !final(self).state.is_playing
                && acts@.len() == 0,
    {
        let mut acts: Vec<ControllerAction> = Vec::new();
        if self.state.is_playing {
            self.state.is_playing = false;
            acts.push(ControllerAction::Engine(EngineRequest::Pause));
        } else if self.state.current_song.is_some() {
            self.state.is_playing = true;
            acts.push(ControllerAction::Engine(EngineRequest::Play));
        }
        acts
    }

    /// The next button.
    pub fn next(&mut self) -> (acts: Vec<ControllerAction>)
        requires
            old(self).wf(),
        ensures
            final(self).wf(),
            next_step(*old(self), *final(self), acts@),
    {
        proof {
            crate::playback::queue::lemma_moves_stay_in_range(self.queue);
        }
        let target = self.queue.advance_manual();
        self.move_to(target)
    }

    /// The previous button: past the first three seconds it restarts the
    /// song; otherwise it moves back in the queue and plays from there.
    pub fn previous(&mut self) -> (acts: Vec<ControllerAction>)
        requires
            old(self).wf(),
        ensures
            final(self).wf(),
            old(self).state.current_position_ms > 3000 ==> unchanged(*old(self), *final(self), Seq::empty())
                && acts@ == seq![engine(EngineRequest::SeekToStart)],
            old(self).state.current_position_ms <= 3000 ==> {
                &&& final(self).queue.current == old(self).queue.spec_prev_index()
                &&& final(self).queue.songs == old(self).queue.songs
                &&& final(self).queue.shuffle == old(self).queue.shuffle
                &&& final(self).queue.repeat == old(self).queue.repeat
                &&& match final(self).spec_current() {
                    Some(s) => began(*old(self), *final(self), s, acts@),
                    None => acts@.len() == 0 && final(self).state == old(self).state
                        && final(self).tracker == old(self).tracker,
                }
            },
    {
        if self.state.current_position_ms > 3000 {
            let mut acts: Vec<ControllerAction> = Vec::new();
            acts.push(ControllerAction::Engine(EngineRequest::SeekToStart));
            return acts;
        }
        proof {
            crate::playback::queue::lemma_moves_stay_in_range(self.queue);
        }
        let _ = self.queue.rewind();
        self.start_current()
    }

    /// Plays the queue's song at `idx`, if there is one.
    pub fn jump_to(&mut self, idx: usize) -> (acts: Vec<ControllerAction>)
        requires
            old(self).wf(),
        ensures
            final(self).wf(),
            idx < old(self).queue.songs@.len() ==> moved_to(*old(self), *final(self), Some(idx), acts@),
            idx >= old(self).queue.songs@.len() ==> unchanged(*old(self), *final(self), acts@),
    {
        if self.queue.jump_to(idx) {
            self.move_to(Some(idx))
        } else {
            Vec::new()
        }
    }

    /// Removes every song with id `id` from the queue. If the current song
    /// was removed, the song now at the position plays, or playback stops
    /// when none is left.
    pub fn remove_from_queue(&mut self, id: i64) -> (acts: Vec<ControllerAction>)
        requires
            old(self).wf(),
        ensures
            final(self).wf(),
            final(self).queue.songs@ == crate::playback::queue::keep_other(old(self).queue.songs@, id),
            final(self).queue.current == old(self).queue.spec_current_after_remove(id),
            final(self).queue.shuffle == old(self).queue.shuffle,
            final(self).queue.repeat == old(self).queue.repeat,
            ({
                let was_current = old(self).spec_current() matches Some(s) && s.id == id;
                if was_current {
                    match final(self).spec_current() {
                        Some(s) => began(*old(self), *final(self), s, acts@),
                        None => stopped(*old(self), *final(self), acts@),
                    }
                } else {
                    final(self).state == old(self).state && final(self).tracker == old(self).tracker
                        && acts@.len() == 0
                }
            }),
    {
        let was_current = match self.queue.current_song() {
            Some(s) => s.id == id,
            None => false,
        };
        proof {
            crate::playback::queue::lemma_keep_count_len(self.queue.songs@, id);
            crate::playback::queue::lemma_keep_has_no_id(self.queue.songs@, id);
            if let Some(c) = self.queue.current {
                crate::playback::queue::lemma_keep_count_len(self.queue.songs@.take(c as int), id);
            }
        }
        let removed = self.queue.remove_song_id(id);
        proof {
            if was_current {
                // The current song had the id, so something was removed.
                let c = old(self).queue.current->0 as int;
                crate::playback::queue::lemma_count_prefix(old(self).queue.songs@, id, c + 1);
                crate::playback::queue::lemma_keep_step(old(self).queue.songs@, id, c);
            }
        }
        if removed > 0 && was_current {
            if self.queue.current_song().is_some() {
                self.start_current()
            } else {
                self.stop_internal()
            }
        } else {
            Vec::new()
        }
    }

    /// Before the file of song `id` is deleted: if it is the current song,
    /// the engine is asked to stop and playback shows paused.
    pub fn prepare_current_for_delete(&mut self, id: i64) -> (acts: Vec<ControllerAction>)
        requires
            old(self).wf(),
        ensures
            final(self).wf(),
            final(self).queue == old(self).queue,
            final(self).tracker == old(self).tracker,
            (old(self).spec_current() matches Some(s) && s.id == id) ==> {
                &&& acts@ == seq![engine(EngineRequest::Stop)]
                &&& !final(self).state.is_playing
                &&& final(self).state.current_song == old(self).state.current_song
                &&& final(self).state.current_position_ms == old(self).state.current_position_ms
                &&& final(self).state.duration_ms == old(self).state.duration_ms
                &&& final(self).state.shuffle_enabled == old(self).state.shuffle_enabled
                &&& final(self).state.repeat_mode == old(self).state.repeat_mode
            },
            !(old(self).spec_current() matches Some(s) && s.id == id) ==> unchanged(*old(self), *final(self), acts@),
    {
        let is_current = match self.queue.current_song() {
            Some(s) => s.id == id,
            None => false,
        };
        let mut acts: Vec<ControllerAction> = Vec::new();
        if is_current {
            acts.push(ControllerAction::Engine(EngineRequest::Stop));
            self.state.is_playing = false;
        }
        acts
    }

    pub fn set_shuffle(&mut self, on: bool)
        requires
            old(self).wf(),
        ensures
            final(self).wf(),
            final(self).state.shuffle_enabled == on,
            final(self).queue.shuffle == on,
            final(self).queue.songs == old(self).queue.songs,
            final(self).queue.current == old(self).queue.current,
            final(self).queue.repeat == old(self).queue.repeat,
            final(self).tracker == old(self).tracker,
            final(self).state.current_song == old(self).state.current_song,
            final(self).state.is_playing == old(self).state.is_playing,
            final(self).state.current_position_ms == old(self).state.current_position_ms,
            final(self).state.duration_ms == old(self).state.duration_ms,
            final(self).state.repeat_mode == old(self).state.repeat_mode,
    {
        self.state.shuffle_enabled = on;
        self.queue.shuffle = on;
    }

    pub fn set_repeat(&mut self, r: RepeatMode)
        requires
            old(self).wf(),
        ensures
            final(self).wf(),
            final(self).state.repeat_mode == r,
            final(self).queue.repeat == r,
            final(self).queue.songs == old(self).queue.songs,
            final(self).queue.current == old(self).queue.current,
            final(self).queue.shuffle == old(self).queue.shuffle,
            final(self).tracker == old(self).tracker,
            final(self).state.current_song == old(self).state.current_song,
            final(self).state.is_playing == old(self).state.is_playing,
            final(self).state.current_position_ms == old(self).state.current_position_ms,
            final(self).state.duration_ms == old(self).state.duration_ms,
            final(self).state.shuffle_enabled == old(self).state.shuffle_enabled,
    {
        self.state.repeat_mode = r;
        self.queue.repeat = r;
    }

    /// Moves the repeat mode one step along Off -> All -> One -> Off.
    pub fn cycle_repeat(&mut self)
        requires
            old(self).wf(),
        ensures
            final(self).wf(),
            final(self).state.repeat_mode == old(self).state.repeat_mode.spec_next(),
            final(self).queue.repeat == old(self).state.repeat_mode.spec_next(),
            final(self).queue.songs == old(self).queue.songs,
            final(self).queue.current == old(self).queue.current,
            final(self).queue.shuffle == old(self).queue.shuffle,
            final(self).tracker == old(self).tracker,
            final(self).state.current_song == old(self).state.current_song,
            final(self).state.is_playing == old(self).state.is_playing,
            final(self).state.current_position_ms == old(self).state.current_position_ms,
            final(self).state.duration_ms == old(self).state.duration_ms,
            final(self).state.shuffle_enabled == old(self).state.shuffle_enabled,
    {
        let cur = self.state.repeat_mode;
        self.set_repeat(cur.next());
    }

    /// Asks the engine to shut down.
    pub fn shutdown(&self) -> (acts: Vec<ControllerAction>)
        ensures
            acts@ == seq![engine(EngineRequest::Shutdown)],
    {
        let mut acts: Vec<ControllerAction> = Vec::new();
        acts.push(ControllerAction::Engine(EngineRequest::Shutdown));
        acts
    }

    /// Puts `song` alone in the queue and loads it paused, showing the
    /// position `resume_ms`; a non-zero position is sought once the engine
    /// reports the start.
    pub fn load_paused(&mut self, song: Song, resume_ms: u64) -> (acts: Vec<ControllerAction>)
        requires
            old(self).wf(),
        ensures
            final(self).wf(),
            final(self).queue.songs@ == seq![song],
            final(self).queue.current == Some(0usize),
            final(self).queue.shuffle == old(self).queue.shuffle,
            final(self).queue.repeat == old(self).queue.repeat,
            final(self).shows(song, false, resume_ms),
            final(self).state.shuffle_enabled == old(self).state.shuffle_enabled,
            final(self).state.repeat_mode == old(self).state.repeat_mode,
            final(self).tracker.requested_path == Some(song.path),
            final(self).tracker.engine_load_generation is None,
            final(self).tracker.pending_seek_ms == (if resume_ms > 0 { Some(resume_ms) } else { None }),
            acts@ == seq![engine(EngineRequest::Load { path: song.path, autoplay: false })],
    {
        let mut v: Vec<Song> = Vec::new();
        v.push(song.clone());
        self.queue.replace(v, 0);
        self.state.current_song = Some(song.clone());
        self.state.is_playing = false;
        self.state.current_position_ms = resume_ms;
        self.state.duration_ms = song.duration_ms();
        let pending = if resume_ms > 0 { Some(resume_ms) } else { None };
        self.tracker.request_load(song.path.clone(), pending);
        let mut acts: Vec<ControllerAction> = Vec::new();
        acts.push(ControllerAction::Engine(EngineRequest::Load { path: song.path, autoplay: false }));
        acts
    }

    /// Applies an engine event.
    pub fn handle_event(&mut self, evt: EngineEvent) -> (acts: Vec<ControllerAction>)
        requires
            old(self).wf(),
        ensures
            final(self).wf(),
            event_step(*old(self), evt, *final(self), acts@),
    {
        match evt {
            EngineEvent::Started { duration_ms } => {
                let d = self.tracker.started(duration_ms);
                let mut acts: Vec<ControllerAction> = Vec::new();
                if !d.accepted {
                    return acts;
                }
                self.state.duration_ms = duration_ms;
                self.state.current_position_ms = 0;
                if let Some(pending) = d.pending_seek_ms {
                    if duration_ms > 0 {
                        acts.push(ControllerAction::Engine(EngineRequest::Seek { position_ms: pending, duration_ms }));
                    }
                }
                acts
            },
            EngineEvent::Position { current_ms, duration_ms } => {
                if !self.tracker.timeline_event_is_current() {
                    return Vec::new();
                }
                self.state.current_position_ms = current_ms;
                if duration_ms != 0 {
                    self.state.duration_ms = duration_ms;
                }
                Vec::new()
            },
            EngineEvent::Paused => {
                self.state.is_playing = false;
                Vec::new()
            },
            EngineEvent::Resumed => {
                self.state.is_playing = true;
                Vec::new()
            },
            EngineEvent::EndOfTrack => {
                if !self.tracker.timeline_event_is_current() {
                    return Vec::new();
                }
                proof {
                    crate::playback::queue::lemma_moves_stay_in_range(self.queue);
                }
                let target = self.queue.advance();
                self.move_to(target)
            },
            EngineEvent::LoadFailed { path, error } => {
                if !self.tracker.load_failed_is_current(&path) {
                    return Vec::new();
                }
                self.next()
            },
            EngineEvent::LoadStarted(path) => {
                self.tracker.engine_load_started(&path);
                Vec::new()
            },
        }
    }
}

impl Default for PlaybackState {
    fn default() -> (s: PlaybackState)
        ensures
            s.current_song is None,
            !s.is_playing,
            s.current_position_ms == 0,
            s.duration_ms == 0,
            !s.shuffle_enabled,
            s.repeat_mode == RepeatMode::Off,
    {
        PlaybackState::new()
    }
}

} // verus!
