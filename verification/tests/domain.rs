use winplayer::data::scanner::is_audio_path;
use winplayer::data::tags::parent_folder_name;
use winplayer::data::tags::parse_track_prefix;
use winplayer::domain::song::normalize_path_key_on;
use winplayer::domain::song::song_id_from_path_on;
use winplayer::domain::sort::sort_songs;
use winplayer::domain::sort::sort_songs_on;
use winplayer::domain::sort::SortOption;
use winplayer::domain::RepeatMode;
use winplayer::domain::Screen;
use winplayer::domain::Song;
use winplayer::domain::song_id_from_path;
use winplayer::domain::normalize_path_key;

fn s(id: i64, title: &str, artist: &str, dur_secs: u64, track: Option<u32>, name: &str) -> Song {
    Song {
        id,
        title: title.into(),
        artist: artist.into(),
        album: String::new(),
        album_artist: String::new(),
        duration_ns: dur_secs as u128 * 1_000_000_000,
        year: None,
        genre: None,
        composer: None,
        track_no: track,
        path: name.to_string(),
        has_embedded_art: false,
    }
}

#[test]
fn extension_check_is_case_insensitive() {
    assert!(is_audio_path("a.MP3"));
    assert!(is_audio_path("a.flac"));
    assert!(is_audio_path("a.OPUS"));
    assert!(!is_audio_path("a.txt"));
    assert!(!is_audio_path("a"));
}

#[test]
fn track_prefix_simple() {
    assert_eq!(parse_track_prefix("01 - foo.mp3"), Some(1));
    assert_eq!(parse_track_prefix("12.bar.flac"), Some(12));
    assert_eq!(parse_track_prefix("foo.mp3"), None);
}

#[test]
fn parent_folder_name_falls_back_when_orphan() {
    assert_eq!(parent_folder_name("foo.mp3"), "Unknown Album");
}

#[test]
fn repeat_mode_cycles_off_all_one_off() {
    assert_eq!(RepeatMode::Off.next(), RepeatMode::All);
    assert_eq!(RepeatMode::All.next(), RepeatMode::One);
    assert_eq!(RepeatMode::One.next(), RepeatMode::Off);
}

#[test]
fn windows_paths_normalize_to_same_key() {
    let a = r"C:\Music\foo.mp3";
    let b = r"c:\music\foo.mp3";
    let c = "C:/Music/foo.mp3";
    assert_eq!(normalize_path_key_on(a, true), normalize_path_key_on(b, true));
    assert_eq!(normalize_path_key_on(a, true), normalize_path_key_on(c, true));
    assert_eq!(song_id_from_path_on(a, true), song_id_from_path_on(c, true));
}

#[test]
fn distinct_paths_get_distinct_ids() {
    let a = song_id_from_path("/x/a.mp3");
    let b = song_id_from_path("/x/b.mp3");
    assert_ne!(a, b);
}

#[test]
fn title_asc_is_case_insensitive() {
    let mut v = vec![s(1, "beta", "", 0, None, "1"), s(2, "Alpha", "", 0, None, "2")];
    sort_songs(&mut v, SortOption::TitleAsc);
    assert_eq!(v[0].id, 2);
}

#[test]
fn track_asc_pushes_missing_to_end() {
    let mut v = vec![
        s(1, "", "", 0, None, "1"),
        s(2, "", "", 0, Some(2), "2"),
        s(3, "", "", 0, Some(1), "3"),
    ];
    sort_songs(&mut v, SortOption::TrackNoAsc);
    assert_eq!(v.iter().map(|x| x.id).collect::<Vec<_>>(), vec![3, 2, 1]);
}

#[test]
fn shuffle_does_not_lose_songs() {
    let mut v: Vec<Song> = (0..50).map(|i| s(i, "", "", 0, None, "x")).collect();
    sort_songs(&mut v, SortOption::Shuffle);
    assert_eq!(v.len(), 50);
    let mut ids: Vec<i64> = v.iter().map(|x| x.id).collect();
    ids.sort();
    assert_eq!(ids, (0..50).collect::<Vec<i64>>());
}

#[test]
fn posix_paths_keep_case_and_separators_in_their_key() {
    assert_eq!(normalize_path_key_on("/Music/A.mp3", false), "/Music/A.mp3");
    assert_ne!(song_id_from_path_on("/Music/A.mp3", false), song_id_from_path_on("/music/a.mp3", false));
    let k = normalize_path_key("/x/y.mp3");
    assert_eq!(k, "/x/y.mp3");
}

#[test]
fn descending_sorts_reverse_ties_too() {
    let mut v = vec![
        s(1, "b", "", 0, None, "1"),
        s(2, "a", "", 0, None, "2"),
        s(3, "B", "", 0, None, "3"),
    ];
    sort_songs(&mut v, SortOption::TitleDesc);
    // Ascending stable order is 2, 1, 3 ("a", "b", "B" with b/B tied); the
    // descending order is its reverse.
    assert_eq!(v.iter().map(|x| x.id).collect::<Vec<_>>(), vec![3, 1, 2]);
}

#[test]
fn track_desc_puts_missing_last() {
    let mut v = vec![
        s(1, "", "", 0, None, "1"),
        s(2, "", "", 0, Some(2), "2"),
        s(3, "", "", 0, Some(1), "3"),
    ];
    sort_songs(&mut v, SortOption::TrackNoDesc);
    assert_eq!(v.iter().map(|x| x.id).collect::<Vec<_>>(), vec![2, 3, 1]);
}

#[test]
fn duration_and_filename_sorts() {
    let mut v = vec![s(1, "", "", 30, None, "/m/Zed.mp3"), s(2, "", "", 10, None, "/m/alpha.mp3")];
    sort_songs_on(&mut v, SortOption::DurationAsc, false, 0);
    assert_eq!(v[0].id, 2);
    sort_songs_on(&mut v, SortOption::FilenameDesc, false, 0);
    assert_eq!(v[0].id, 1);
    sort_songs_on(&mut v, SortOption::FilenameAsc, false, 0);
    assert_eq!(v[0].id, 2);
}

#[test]
fn sort_labels() {
    assert_eq!(SortOption::TitleAsc.label(), "Title \u{2191}");
    assert_eq!(SortOption::TrackNoDesc.label(), "Track # \u{2193}");
    assert_eq!(SortOption::Shuffle.label(), "Shuffle");
    assert_eq!(SortOption::ALL.len(), 13);
}

#[test]
fn chrome_hidden_on_full_screen_views() {
    assert!(Screen::AllSongs.shows_chrome());
    assert!(Screen::AlbumDetail("x".to_string()).shows_chrome());
    assert!(!Screen::NowPlaying.shows_chrome());
    assert!(!Screen::Settings.shows_chrome());
    assert!(!Screen::Equalizer.shows_chrome());
}

#[test]
fn track_prefix_edge_cases() {
    assert_eq!(parse_track_prefix("/music/07 intro.flac"), Some(7));
    assert_eq!(parse_track_prefix("99999999999 long.mp3"), None);
    assert_eq!(parse_track_prefix("4294967295.mp3"), Some(4294967295));
    assert_eq!(parse_track_prefix("4294967296.mp3"), None);
    assert_eq!(parse_track_prefix("/music/"), None);
}
