use winplayer::domain::song_id_from_path;
use winplayer::domain::RepeatMode;
use winplayer::domain::Song;
use winplayer::engine::EngineEvent;
use winplayer::engine::EngineRequest;
use winplayer::last_played::LastPlayed;
use winplayer::playback::controller::ControllerAction;
use winplayer::playback::controller::LoadEventTracker;
use winplayer::playback::PlayerCore;

#[test]
fn stale_started_event_for_previous_load_is_ignored() {
    let mut tracker = LoadEventTracker::new();
    let old = String::from("old.mp3");
    let new = String::from("new.mp3");

    tracker.request_load(old.clone(), None);
    tracker.engine_load_started(&old);
    tracker.request_load(new.clone(), None);

    assert!(!tracker.started(10_000).accepted);

    tracker.engine_load_started(&new);
    assert!(tracker.started(10_000).accepted);
}

#[test]
fn stale_started_event_does_not_consume_new_pending_seek() {
    let mut tracker = LoadEventTracker::new();
    let old = String::from("old.mp3");
    let new = String::from("new.mp3");

    tracker.request_load(old.clone(), None);
    tracker.engine_load_started(&old);
    tracker.request_load(new.clone(), Some(4_000));

    assert_eq!(tracker.started(10_000).pending_seek_ms, None);
    tracker.engine_load_started(&new);
    assert_eq!(tracker.started(10_000).pending_seek_ms, Some(4_000));
}

#[test]
fn stale_timeline_events_for_previous_load_are_ignored() {
    let mut tracker = LoadEventTracker::new();
    let old = String::from("old.mp3");
    let new = String::from("new.mp3");

    tracker.request_load(old.clone(), None);
    tracker.engine_load_started(&old);
    tracker.request_load(new.clone(), None);

    assert!(!tracker.timeline_event_is_current());
    tracker.engine_load_started(&new);
    assert!(tracker.timeline_event_is_current());
}

#[test]
fn stale_timeline_events_for_previous_same_path_load_are_ignored() {
    let mut tracker = LoadEventTracker::new();
    let path = String::from("same.mp3");

    tracker.request_load(path.clone(), None);
    tracker.engine_load_started(&path);
    tracker.request_load(path.clone(), None);

    assert!(!tracker.timeline_event_is_current());
    tracker.engine_load_started(&path);
    assert!(tracker.timeline_event_is_current());
}

fn song(p: &str, secs: u64) -> Song {
    Song {
        id: song_id_from_path(p),
        title: p.into(),
        artist: "a".into(),
        album: "al".into(),
        album_artist: "a".into(),
        duration_ns: secs as u128 * 1_000_000_000,
        year: None,
        genre: None,
        composer: None,
        track_no: None,
        path: p.to_string(),
        has_embedded_art: false,
    }
}

fn load(path: &str, autoplay: bool) -> ControllerAction {
    ControllerAction::Engine(EngineRequest::Load { path: path.to_string(), autoplay })
}

#[test]
fn play_songs_starts_the_chosen_song() {
    let mut c = PlayerCore::new();
    let acts = c.play_songs(vec![song("/a.mp3", 10), song("/b.mp3", 20)], 1, None);
    assert_eq!(
        acts,
        vec![
            ControllerAction::SaveLastPlayed(LastPlayed { path: "/b.mp3".to_string(), position_ms: 0 }),
            load("/b.mp3", true),
        ]
    );
    assert!(c.state.is_playing);
    assert_eq!(c.state.duration_ms, 20_000);
    assert_eq!(c.state.current_song.as_ref().unwrap().path, "/b.mp3");
    assert!(c.play_songs(Vec::new(), 0, None).is_empty());
    assert_eq!(c.queue.songs.len(), 2);
}

#[test]
fn end_of_track_advances_only_for_the_current_load() {
    let mut c = PlayerCore::new();
    c.play_songs(vec![song("/a.mp3", 10), song("/b.mp3", 20)], 0, None);
    // The engine has not reported the load yet: the event is stale.
    assert!(c.handle_event(EngineEvent::EndOfTrack).is_empty());
    assert_eq!(c.queue.current, Some(0));
    c.handle_event(EngineEvent::LoadStarted("/a.mp3".to_string()));
    let acts = c.handle_event(EngineEvent::EndOfTrack);
    assert_eq!(acts.last(), Some(&load("/b.mp3", true)));
    assert_eq!(c.queue.current, Some(1));
    c.handle_event(EngineEvent::LoadStarted("/b.mp3".to_string()));
    let acts = c.handle_event(EngineEvent::EndOfTrack);
    assert_eq!(acts, vec![ControllerAction::Engine(EngineRequest::Stop)]);
    assert!(c.state.current_song.is_none());
    assert!(!c.state.is_playing);
}

#[test]
fn paused_load_seeks_once_after_start() {
    let mut c = PlayerCore::new();
    let acts = c.load_paused(song("/a.mp3", 100), 4_000);
    assert_eq!(acts, vec![load("/a.mp3", false)]);
    assert!(!c.state.is_playing);
    assert_eq!(c.state.current_position_ms, 4_000);
    c.handle_event(EngineEvent::LoadStarted("/a.mp3".to_string()));
    let acts = c.handle_event(EngineEvent::Started { duration_ms: 100_000 });
    assert_eq!(acts, vec![ControllerAction::Engine(EngineRequest::Seek { position_ms: 4_000, duration_ms: 100_000 })]);
    assert_eq!(c.state.current_position_ms, 0);
    assert_eq!(c.state.duration_ms, 100_000);
    assert!(c.handle_event(EngineEvent::Started { duration_ms: 100_000 }).is_empty());
    assert!(!c.state.is_playing);
}

#[test]
fn previous_restarts_after_three_seconds() {
    let mut c = PlayerCore::new();
    c.play_songs(vec![song("/a.mp3", 10), song("/b.mp3", 20)], 1, None);
    c.handle_event(EngineEvent::LoadStarted("/b.mp3".to_string()));
    c.handle_event(EngineEvent::Position { current_ms: 5_000, duration_ms: 20_000 });
    assert_eq!(c.previous(), vec![ControllerAction::Engine(EngineRequest::SeekToStart)]);
    assert_eq!(c.queue.current, Some(1));
    c.handle_event(EngineEvent::Position { current_ms: 1_000, duration_ms: 0 });
    assert_eq!(c.state.duration_ms, 20_000);
    let acts = c.previous();
    assert_eq!(acts.last(), Some(&load("/a.mp3", true)));
    assert_eq!(c.queue.current, Some(0));
}

#[test]
fn play_pause_toggles_only_with_a_song() {
    let mut c = PlayerCore::new();
    assert!(c.play_pause().is_empty());
    c.play_songs(vec![song("/a.mp3", 10)], 0, None);
    assert_eq!(c.play_pause(), vec![ControllerAction::Engine(EngineRequest::Pause)]);
    assert!(!c.state.is_playing);
    assert_eq!(c.play_pause(), vec![ControllerAction::Engine(EngineRequest::Play)]);
    assert!(c.state.is_playing);
}

#[test]
fn removing_the_current_song_plays_the_next_or_stops() {
    let mut c = PlayerCore::new();
    let a = song("/a.mp3", 10);
    let b = song("/b.mp3", 10);
    c.play_songs(vec![a.clone(), b.clone()], 0, None);
    let acts = c.remove_from_queue(a.id);
    assert_eq!(acts.last(), Some(&load("/b.mp3", true)));
    let acts = c.remove_from_queue(b.id);
    assert_eq!(acts, vec![ControllerAction::Engine(EngineRequest::Stop)]);
    assert!(c.queue.songs.is_empty());
}

#[test]
fn failed_current_load_moves_on() {
    let mut c = PlayerCore::new();
    c.play_songs(vec![song("/a.mp3", 10), song("/b.mp3", 10)], 0, None);
    c.handle_event(EngineEvent::LoadStarted("/a.mp3".to_string()));
    let stale = c.handle_event(EngineEvent::LoadFailed { path: "/zzz.mp3".to_string(), error: "x".to_string() });
    assert!(stale.is_empty());
    let acts = c.handle_event(EngineEvent::LoadFailed { path: "/a.mp3".to_string(), error: "x".to_string() });
    assert_eq!(acts.last(), Some(&load("/b.mp3", true)));
}

#[test]
fn repeat_and_shuffle_settings_reach_the_queue() {
    let mut c = PlayerCore::new();
    c.cycle_repeat();
    assert_eq!(c.state.repeat_mode, RepeatMode::All);
    assert_eq!(c.queue.repeat, RepeatMode::All);
    c.set_shuffle(true);
    assert!(c.queue.shuffle && c.state.shuffle_enabled);
    c.set_repeat(RepeatMode::Off);
    assert_eq!(c.queue.repeat, RepeatMode::Off);
    assert_eq!(c.shutdown(), vec![ControllerAction::Engine(EngineRequest::Shutdown)]);
}

#[test]
fn prepare_for_delete_stops_only_the_current_song() {
    let mut c = PlayerCore::new();
    let a = song("/a.mp3", 10);
    c.play_songs(vec![a.clone(), song("/b.mp3", 10)], 0, None);
    assert!(c.prepare_current_for_delete(12345).is_empty());
    assert_eq!(c.prepare_current_for_delete(a.id), vec![ControllerAction::Engine(EngineRequest::Stop)]);
    assert!(!c.state.is_playing);
    assert_eq!(c.queue.songs.len(), 2);
}
