use winplayer::domain::song_id_from_path;
use winplayer::domain::RepeatMode;
use winplayer::domain::Song;
use winplayer::playback::Queue;

fn s(p: &str) -> Song {
    Song {
        id: song_id_from_path(p),
        title: p.into(),
        artist: "".into(),
        album: "".into(),
        album_artist: "".into(),
        duration_ns: 1_000_000_000,
        year: None,
        genre: None,
        composer: None,
        track_no: None,
        path: p.to_string(),
        has_embedded_art: false,
    }
}

#[test]
fn next_off_stops_at_end() {
    let mut q = Queue::new();
    q.replace(vec![s("/a"), s("/b")], 1);
    q.repeat = RepeatMode::Off;
    assert_eq!(q.next_index(), None);
}

#[test]
fn next_all_wraps() {
    let mut q = Queue::new();
    q.replace(vec![s("/a"), s("/b")], 1);
    q.repeat = RepeatMode::All;
    assert_eq!(q.next_index(), Some(0));
}

#[test]
fn next_one_stays() {
    let mut q = Queue::new();
    q.replace(vec![s("/a"), s("/b")], 1);
    q.repeat = RepeatMode::One;
    assert_eq!(q.next_index(), Some(1));
}

#[test]
fn manual_advance_ignores_repeat_one() {
    let mut q = Queue::new();
    q.replace(vec![s("/a"), s("/b")], 0);
    q.repeat = RepeatMode::One;
    assert_eq!(q.advance_manual(), Some(1));
}

#[test]
fn shuffle_advance_does_not_use_sequential_next() {
    let mut q = Queue::new();
    q.replace(vec![s("/a"), s("/b"), s("/c"), s("/d")], 0);
    q.shuffle = true;
    assert_ne!(q.advance_manual(), Some(1));
}

#[test]
fn prev_at_zero_off_stays() {
    let mut q = Queue::new();
    q.replace(vec![s("/a"), s("/b")], 0);
    q.repeat = RepeatMode::Off;
    assert_eq!(q.prev_index(), Some(0));
}

#[test]
fn prev_at_zero_all_wraps_to_last() {
    let mut q = Queue::new();
    q.replace(vec![s("/a"), s("/b"), s("/c")], 0);
    q.repeat = RepeatMode::All;
    assert_eq!(q.prev_index(), Some(2));
}

#[test]
fn remove_before_current_decrements_current() {
    let mut q = Queue::new();
    let a = s("/a");
    let b = s("/b");
    let c = s("/c");
    q.replace(vec![a.clone(), b.clone(), c.clone()], 2);
    q.remove_song_id(a.id);
    assert_eq!(q.current, Some(1));
    assert_eq!(q.current_song().unwrap().id, c.id);
}

#[test]
fn remove_current_keeps_index_stable() {
    let mut q = Queue::new();
    let a = s("/a");
    let b = s("/b");
    let c = s("/c");
    q.replace(vec![a.clone(), b.clone(), c.clone()], 1);
    q.remove_song_id(b.id);
    assert_eq!(q.current_song().unwrap().id, c.id);
}

#[test]
fn remove_last_clamps_to_end() {
    let mut q = Queue::new();
    let a = s("/a");
    let b = s("/b");
    q.replace(vec![a.clone(), b.clone()], 1);
    q.remove_song_id(b.id);
    assert_eq!(q.current_song().unwrap().id, a.id);
}

#[test]
fn remove_all_clears_current() {
    let mut q = Queue::new();
    let a = s("/a");
    q.replace(vec![a.clone()], 0);
    q.remove_song_id(a.id);
    assert_eq!(q.current, None);
}

#[test]
fn shuffle_previous_undoes_next() {
    for len in 2..12usize {
        let songs: Vec<Song> = (0..len).map(|i| s(&format!("/s{i}"))).collect();
        for start in 0..len {
            let mut q = Queue::new();
            q.replace(songs.clone(), start);
            q.shuffle = true;
            let n = q.advance_manual();
            assert!(n.is_some());
            assert_ne!(n, Some(start));
            assert_eq!(q.rewind(), Some(start));
        }
    }
}

#[test]
fn shuffle_walk_visits_every_song() {
    for len in 2..20usize {
        let songs: Vec<Song> = (0..len).map(|i| s(&format!("/s{i}"))).collect();
        let mut q = Queue::new();
        q.replace(songs, 0);
        q.shuffle = true;
        q.repeat = RepeatMode::All;
        let mut seen = vec![false; len];
        seen[0] = true;
        for _ in 1..len {
            let i = q.advance_manual().unwrap();
            seen[i] = true;
        }
        assert!(seen.iter().all(|x| *x));
    }
}

#[test]
fn replace_clamps_start_and_empty_clears() {
    let mut q = Queue::new();
    q.replace(vec![s("/a"), s("/b")], 9);
    assert_eq!(q.current, Some(1));
    q.replace(Vec::new(), 0);
    assert_eq!(q.current, None);
    assert!(q.current_song().is_none());
}

#[test]
fn jump_to_checks_bounds() {
    let mut q = Queue::new();
    q.replace(vec![s("/a"), s("/b")], 0);
    assert!(q.jump_to(1));
    assert_eq!(q.current, Some(1));
    assert!(!q.jump_to(2));
    assert_eq!(q.current, Some(1));
}

#[test]
fn remove_unknown_id_changes_nothing() {
    let mut q = Queue::new();
    q.replace(vec![s("/a"), s("/b")], 1);
    assert_eq!(q.remove_song_id(42), 0);
    assert_eq!(q.current, Some(1));
    assert_eq!(q.songs.len(), 2);
}

#[test]
fn shuffle_cycle_returns_to_the_start_after_every_song() {
    for len in 2..20usize {
        let songs: Vec<Song> = (0..len).map(|i| s(&format!("/s{i}"))).collect();
        for start in 0..len {
            let mut q = Queue::new();
            q.replace(songs.clone(), start);
            q.shuffle = true;
            q.repeat = RepeatMode::All;
            let mut seen = vec![false; len];
            for step in 1..=len {
                let i = q.advance().unwrap();
                assert!(!seen[i]);
                seen[i] = true;
                assert_eq!(i == start, step == len);
            }
        }
    }
}

#[test]
fn manual_next_at_the_end_wraps_with_repeat_one_like_repeat_all() {
    let mut q = Queue::new();
    q.replace(vec![s("/a"), s("/b"), s("/c")], 2);
    q.repeat = RepeatMode::One;
    let manual = q.next_manual_index();
    q.repeat = RepeatMode::All;
    assert_eq!(manual, q.next_index());
    assert_eq!(manual, Some(0));
}
