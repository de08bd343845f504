//! The engine's decisions: what each request, each finished track
//! preparation and each timer tick does to the engine's state, and which
//! effects on the decoder job and the output device follow. The caller
//! performs the effects in order and hands the outcomes back.

use vstd::prelude::*;
use crate::engine::EngineEvent;
use crate::engine::EngineRequest;

verus! {

/// What the engine keeps between requests: whether a decode job runs, the
/// duration of its track, and whether the output is paused.
#[derive(Debug, Clone, Copy, PartialEq, Eq, Structural)]
pub struct EngineState {
    pub has_job: bool,
    pub duration_ms: u64,
    pub paused: bool,
}

/// One thing the caller does for the engine.
#[derive(Debug)]
pub enum EngineEffect {
    /// Send this event to the controller.
    Emit(EngineEvent),
    /// Open and probe the file and build its decoder, then report the
    /// outcome through `on_prepared`.
    Prepare { path: String, autoplay: bool },
    /// Stop the running decode job and wait for it.
    StopJob,
    /// Empty the output buffer and reset its position.
    ClearOutput,
    /// Start decoding the prepared track.
    StartJob,
    PlayOutput,
    PauseOutput,
    /// Ask the running job to seek to this position (milliseconds).
    SeekJob(u64),
    /// Drop the samples already buffered for output.
    DrainBuffer,
    /// Count the output position from this position (milliseconds).
    SetAnchor(u64),
    /// Leave the engine loop.
    Exit,
}

/// The position a seek request asks for in a track of `dur` milliseconds:
/// the fraction `pos / of` of the track, clamped to the whole track; zero
/// when `of` is zero.
pub open spec fn seek_target(dur: u64, pos: u64, of: u64) -> u64 {
    if of == 0 {
        0
    } else {
        let p: int = if pos < of { pos as int } else { of as int };
        ((dur as int * p) / (of as int)) as u64
    }
}

/// The effects of a seek to `t` in state `s`.
pub open spec fn seek_effects(s: EngineState, t: u64) -> Seq<EngineEffect> {
    let base = seq![EngineEffect::SeekJob(t), EngineEffect::DrainBuffer, EngineEffect::SetAnchor(t)];
    if s.paused {
        base
    } else {
        base.push(EngineEffect::PlayOutput)
    }
}

/// The state and effects that follow request `req` in state `s`.
pub open spec fn request_outcome(s: EngineState, req: EngineRequest) -> (EngineState, Seq<EngineEffect>) {
    match req {
        EngineRequest::Shutdown => (s, seq![EngineEffect::Exit]),
        EngineRequest::Load { path, autoplay } => (
            s,
            seq![
                EngineEffect::Emit(EngineEvent::LoadStarted(path)),
                EngineEffect::Prepare { path: path, autoplay: autoplay },
            ],
        ),
        EngineRequest::Play => (
            EngineState { paused: false, ..s },
            seq![EngineEffect::PlayOutput, EngineEffect::Emit(EngineEvent::Resumed)],
        ),
        EngineRequest::Pause => (
            EngineState { paused: true, ..s },
            seq![EngineEffect::PauseOutput, EngineEffect::Emit(EngineEvent::Paused)],
        ),
        EngineRequest::Stop => (
            EngineState { has_job: false, duration_ms: 0, ..s },
            if s.has_job {
                seq![EngineEffect::StopJob, EngineEffect::ClearOutput]
            } else {
                seq![EngineEffect::ClearOutput]
            },
        ),
        EngineRequest::SeekToStart => (s, if s.has_job {
            seek_effects(s, 0)
        } else {
            Seq::empty()
        }),
        EngineRequest::Seek { position_ms, duration_ms } => (s, if s.has_job {
            seek_effects(s, seek_target(s.duration_ms, position_ms, duration_ms))
        } else {
            Seq::empty()
        }),
    }
}

/// The state and effects after the track `path` was prepared: `Ok` with the
/// track's duration, or `Err` with the reason it could not be opened.
pub open spec fn prepared_outcome(
    s: EngineState,
    path: String,
    autoplay: bool,
    prepared: Result<u64, String>,
) -> (EngineState, Seq<EngineEffect>) {
    match prepared {
        Ok(d) => {
            let start = if s.has_job {
                seq![EngineEffect::StopJob, EngineEffect::ClearOutput, EngineEffect::StartJob]
            } else {
                seq![EngineEffect::ClearOutput, EngineEffect::StartJob]
            };
            let output = if autoplay { EngineEffect::PlayOutput } else { EngineEffect::PauseOutput };
            (
                EngineState { has_job: true, duration_ms: d, paused: !autoplay },
                start.push(output).push(EngineEffect::Emit(EngineEvent::Started { duration_ms: d })),
            )
        },
        Err(e) => (s, seq![EngineEffect::Emit(EngineEvent::LoadFailed { path: path, error: e })]),
    }
}

/// The state and effects of a timer tick: with a job running, the position
/// is reported; once the job has decoded everything and the output buffer
/// is empty, the track has ended.
pub open spec fn tick_outcome(s: EngineState, played_ms: u64, job_finished: bool, buffered: usize) -> (
    EngineState,
    Seq<EngineEffect>,
) {
    if !s.has_job {
        (s, Seq::empty())
    } else {
        let pos = EngineEffect::Emit(EngineEvent::Position { current_ms: played_ms, duration_ms: s.duration_ms });
        if job_finished && buffered == 0 {
            (
                EngineState { has_job: false, duration_ms: 0, ..s },
                seq![pos, EngineEffect::StopJob, EngineEffect::Emit(EngineEvent::EndOfTrack)],
            )
        } else {
            (s, seq![pos])
        }
    }
}

fn seek_target_exec(dur: u64, pos: u64, of: u64) -> (r: u64)
    ensures
        r == seek_target(dur, pos, of),
        r <= dur,
{
    if of == 0 {
        0
    } else {
        let p: u64 = if pos < of { pos } else { of };
        assert((dur as int) * (p as int) <= 0xffff_ffff_ffff_ffff * 0xffff_ffff_ffff_ffff) by (nonlinear_arith)
            requires
                dur <= 0xffff_ffff_ffff_ffffu64,
                p <= 0xffff_ffff_ffff_ffffu64,
        ;
        let prod: u128 = (dur as u128) * (p as u128);
        proof {
            assert(dur as int * p as int <= dur as int * of as int) by (nonlinear_arith)
                requires
                    p <= of,
            ;
            assert((dur as int * p as int) / (of as int) <= dur as int) by (nonlinear_arith)
                requires
                    dur as int * p as int <= dur as int * of as int,
                    of > 0,
            ;
            assert(0 <= (dur as int * p as int) / (of as int)) by (nonlinear_arith)
                requires
                    of > 0,
            ;
        }
        let q: u128 = prod / (of as u128);
        q as u64
    }
}

fn push_seek(effects: &mut Vec<EngineEffect>, paused: bool, t: u64)
    requires
        old(effects)@.len() == 0,
    ensures
        final(effects)@ == seek_effects(EngineState { has_job: true, duration_ms: 0, paused }, t),
{
    effects.push(EngineEffect::SeekJob(t));
    effects.push(EngineEffect::DrainBuffer);
    effects.push(EngineEffect::SetAnchor(t));
    if !paused {
        effects.push(EngineEffect::PlayOutput);
    }
    assert(effects@ =~= seek_effects(EngineState { has_job: true, duration_ms: 0, paused }, t));
}

impl EngineState {
    /// No job, no duration, not paused.
    pub fn new() -> (s: EngineState)
        ensures
            s == (EngineState { has_job: false, duration_ms: 0, paused: false }),
    {
        EngineState { has_job: false, duration_ms: 0, paused: false }
    }

    /// Handles one request from the controller.
    pub fn on_request(&mut self, req: EngineRequest) -> (effects: Vec<EngineEffect>)
        ensures
            (*final(self), effects@) == request_outcome(*old(self), req),
    {
        let ghost req0 = req;
        let mut effects: Vec<EngineEffect> = Vec::new();
        match req {
            EngineRequest::Shutdown => {
                effects.push(EngineEffect::Exit);
            },
            EngineRequest::Load { path, autoplay } => {
                effects.push(EngineEffect::Emit(EngineEvent::LoadStarted(path.clone())));
                effects.push(EngineEffect::Prepare { path, autoplay });
            },
            EngineRequest::Play => {
                self.paused = false;
                effects.push(EngineEffect::PlayOutput);
                effects.push(EngineEffect::Emit(EngineEvent::Resumed));
            },
            EngineRequest::Pause => {
                self.paused = true;
                effects.push(EngineEffect::PauseOutput);
                effects.push(EngineEffect::Emit(EngineEvent::Paused));
            },
            EngineRequest::Stop => {
                if self.has_job {
                    effects.push(EngineEffect::StopJob);
                }
                effects.push(EngineEffect::ClearOutput);
                self.has_job = false;
                self.duration_ms = 0;
            },
            EngineRequest::SeekToStart => {
                if self.has_job {
                    push_seek(&mut effects, self.paused, 0);
                }
            },
            EngineRequest::Seek { position_ms, duration_ms } => {
                if self.has_job {
                    let t = seek_target_exec(self.duration_ms, position_ms, duration_ms);
                    push_seek(&mut effects, self.paused, t);
                }
            },
        }
        assert(effects@ =~= request_outcome(*old(self), req0).1);
        effects
    }

    /// Handles the outcome of preparing the track `path` that a `Load`
    /// asked for.
    pub fn on_prepared(&mut self, path: String, autoplay: bool, prepared: Result<u64, String>) -> (effects: Vec<
        EngineEffect,
    >)
        ensures
            (*final(self), effects@) == prepared_outcome(*old(self), path, autoplay, prepared),
    {
        let ghost path0 = path;
        let ghost prepared0 = prepared;
        let mut effects: Vec<EngineEffect> = Vec::new();
        match prepared {
            Ok(d) => {
                if self.has_job {
                    effects.push(EngineEffect::StopJob);
                }
                effects.push(EngineEffect::ClearOutput);
                effects.push(EngineEffect::StartJob);
                if autoplay {
                    effects.push(EngineEffect::PlayOutput);
                } else {
                    effects.push(EngineEffect::PauseOutput);
                }
                effects.push(EngineEffect::Emit(EngineEvent::Started { duration_ms: d }));
                self.has_job = true;
                self.duration_ms = d;
                self.paused = !autoplay;
            },
            Err(e) => {
                effects.push(EngineEffect::Emit(EngineEvent::LoadFailed { path, error: e }));
            },
        }
        assert(effects@ =~= prepared_outcome(*old(self), path0, autoplay, prepared0).1);
        effects
    }

    /// Handles a timer tick, given the output's played position, whether the
    /// job has decoded its whole track, and how many samples wait in the
    /// output buffer.
    pub fn on_tick(&mut self, played_ms: u64, job_finished: bool, buffered_samples: usize) -> (effects: Vec<
        EngineEffect,
    >)
        ensures
            (*final(self), effects@) == tick_outcome(*old(self), played_ms, job_finished, buffered_samples),
    {
        let mut effects: Vec<EngineEffect> = Vec::new();
        if self.has_job {
            effects.push(
                EngineEffect::Emit(EngineEvent::Position { current_ms: played_ms, duration_ms: self.duration_ms }),
            );
            if job_finished && buffered_samples == 0 {
                self.has_job = false;
                self.duration_ms = 0;
                effects.push(EngineEffect::StopJob);
                effects.push(EngineEffect::Emit(EngineEvent::EndOfTrack));
            }
        }
        assert(effects@ =~= tick_outcome(*old(self), played_ms, job_finished, buffered_samples).1);
        effects
    }
}

/// Once a track has ended, ticks report nothing until another track is
/// prepared.
pub proof fn lemma_end_of_track_is_reported_once(
    s: EngineState,
    played: u64,
    buffered: usize,
    later_played: u64,
    later_finished: bool,
    later_buffered: usize,
)
    requires
        s.has_job,
    ensures
        ({
            let (s1, e1) = tick_outcome(s, played, true, 0);
            &&& e1.last() == EngineEffect::Emit(EngineEvent::EndOfTrack)
            &&& tick_outcome(s1, later_played, later_finished, later_buffered).1.len() == 0
        }),
{
}

/// A seek never asks for a position past the end of the track, and the
/// output position is re-anchored at exactly the position the job seeks to.
pub proof fn lemma_seek_stays_in_track(s: EngineState, position_ms: u64, duration_ms: u64)
    requires
        s.has_job,
    ensures
        ({
            let t = seek_target(s.duration_ms, position_ms, duration_ms);
            let e = request_outcome(s, EngineRequest::Seek { position_ms, duration_ms }).1;
            &&& t <= s.duration_ms
            &&& e[0] == EngineEffect::SeekJob(t)
            &&& e[2] == EngineEffect::SetAnchor(t)
        }),
{
    let p: int = if position_ms < duration_ms { position_ms as int } else { duration_ms as int };
    if duration_ms > 0 {
        assert(s.duration_ms as int * p <= s.duration_ms as int * duration_ms as int) by (nonlinear_arith)
            requires
                p <= duration_ms,
                0 <= p,
        ;
        assert((s.duration_ms as int * p) / (duration_ms as int) <= s.duration_ms as int) by (nonlinear_arith)
            requires
                s.duration_ms as int * p <= s.duration_ms as int * duration_ms as int,
                duration_ms > 0,
        ;
        assert(0 <= (s.duration_ms as int * p) / (duration_ms as int)) by (nonlinear_arith)
            requires
                duration_ms > 0,
                0 <= p,
                0 <= s.duration_ms,
        ;
    }
}

/// A paused engine stays paused across a seek; a playing one keeps playing.
pub proof fn lemma_seek_keeps_pause_state(s: EngineState, req: EngineRequest)
    requires
        s.has_job,
        req is Seek || req is SeekToStart,
    ensures
        request_outcome(s, req).0 == s,
        s.paused <==> !request_outcome(s, req).1.contains(EngineEffect::PlayOutput),
{
    let e = request_outcome(s, req).1;
    if !s.paused {
        assert(e[3] == EngineEffect::PlayOutput);
    } else {
        assert(e.len() == 3);
        assert forall|i: int| 0 <= i < e.len() implies e[i] != EngineEffect::PlayOutput by {}
    }
}

} // verus!
