use winplayer::data::library::path_is_under_folder_on;
use winplayer::data::Library;
use winplayer::data::LibraryStatus;
use winplayer::domain::song_id_from_path;
use winplayer::domain::Song;
use winplayer::playback::deletion::deletion_target;
use winplayer::playback::deletion::{deletion_next, deletion_start, DeletionCall, DeletionEvent};
use winplayer::playback::DeletionResult;
use winplayer::path_order::path_key_on;
use winplayer::ui::screens::folders::FoldersState;

fn fake(path: &str) -> Song {
    Song {
        id: song_id_from_path(path),
        title: "t".into(),
        artist: "a".into(),
        album: "al".into(),
        album_artist: "a".into(),
        duration_ns: 1_000_000_000,
        year: None,
        genre: None,
        composer: None,
        track_no: None,
        path: path.to_string(),
        has_embedded_art: false,
    }
}

#[test]
fn version_bumps_on_remove() {
    let mut lib = Library::new();
    lib.replace_all(vec![fake("/a.mp3"), fake("/b.mp3")]);
    let v = lib.version();
    assert!(lib.remove_song(fake("/a.mp3").id));
    assert!(lib.version() > v);
}

#[test]
fn remove_unknown_id_returns_false() {
    let mut lib = Library::new();
    lib.replace_all(vec![fake("/a.mp3")]);
    assert!(!lib.remove_song(999_999));
}

#[test]
fn find_by_id_returns_clone() {
    let mut lib = Library::new();
    let s = fake("/a.mp3");
    lib.replace_all(vec![s.clone()]);
    assert_eq!(lib.find_by_id(s.id).unwrap().path, s.path);
}

#[test]
fn refresh_folder_removes_stale_tracks_under_nested_paths() {
    let stale_nested = fake("/tmp/t/music/disc1/old.mp3");
    let outside = fake("/tmp/t/outside.mp3");

    let mut lib = Library::new();
    lib.replace_all(vec![stale_nested, outside.clone()]);
    lib.refresh_folder("/tmp/t/music", Vec::new());

    let songs = lib.songs_snapshot();
    assert_eq!(songs, vec![outside]);
}

#[test]
fn scan_keeps_first_song_of_each_path() {
    let mut lib = Library::new();
    assert_eq!(lib.status(), LibraryStatus::Idle);
    let mut dup = fake("/m/a.mp3");
    dup.title = "second".into();
    lib.scan(vec![fake("/m/a.mp3"), fake("/m/b.mp3"), dup]);
    assert_eq!(lib.len(), 2);
    assert_eq!(lib.songs_snapshot()[0].title, "t");
    assert_eq!(lib.status(), LibraryStatus::Ready);
    assert_eq!(lib.version(), 1);
}

#[test]
fn refresh_adds_new_songs_once() {
    let mut lib = Library::new();
    lib.replace_all(vec![fake("/m/x/a.mp3"), fake("/m/b.mp3")]);
    lib.refresh_folder("/m/x/", vec![fake("/m/x/c.mp3"), fake("/m/b.mp3"), fake("/m/x/c.mp3")]);
    let paths: Vec<String> = lib.songs_snapshot().into_iter().map(|s| s.path).collect();
    assert_eq!(paths, vec!["/m/b.mp3".to_string(), "/m/x/c.mp3".to_string()]);
}

#[test]
fn folder_containment_needs_a_separator() {
    assert!(path_is_under_folder_on("/m/x/a.mp3", "/m/x", false));
    assert!(!path_is_under_folder_on("/m/xy/a.mp3", "/m/x", false));
    assert!(path_is_under_folder_on(r"C:\Music\A\b.mp3", "c:/music", true));
    assert!(!path_is_under_folder_on(r"C:\Music\A\b.mp3", "c:/music", false));
}

#[test]
fn missing_song_errors() {
    let lib = Library::new();
    assert!(deletion_target(&lib, 12345).is_err());
    assert_eq!(deletion_target(&lib, -7).unwrap_err(), "song -7 not found");
}

#[test]
fn deletion_target_names_file_and_folder() {
    let mut lib = Library::new();
    let s = fake("/m/x/a.mp3");
    lib.replace_all(vec![s.clone(), fake("orphan.mp3")]);
    let t = deletion_target(&lib, s.id).unwrap();
    assert_eq!(t.path, "/m/x/a.mp3");
    assert_eq!(t.folder, "/m/x");
    let o = deletion_target(&lib, fake("orphan.mp3").id).unwrap();
    assert_eq!(o.folder, "");
}

/// Runs a deletion of `id` against fake playback that answers `current`,
/// with a file deletion that gives `outcome`; returns the calls made.
fn run_deletion(id: i64, current: bool, outcome: Result<DeletionResult, String>) -> (Vec<DeletionCall>, Result<DeletionResult, String>) {
    let (mut run, mut call) = deletion_start(id);
    let mut calls = vec![call];
    let mut outcome = Some(outcome);
    let mut result = Err("not deleted".to_string());
    while call != DeletionCall::Finish {
        let event = match call {
            DeletionCall::AskCurrent(_) => DeletionEvent::IsCurrent(current),
            DeletionCall::DeleteFile(_) => {
                result = outcome.take().unwrap();
                DeletionEvent::Deleted(result.is_ok())
            }
            _ => DeletionEvent::Done,
        };
        call = deletion_next(&mut run, event);
        calls.push(call);
    }
    (calls, result)
}

#[test]
fn current_delete_failure_prepares_playback_but_keeps_queue() {
    let song = fake("/tmp/none/missing.mp3");
    let mut lib = Library::new();
    lib.replace_all(vec![song.clone()]);

    let (calls, result) = run_deletion(song.id, true, Err("remove_file: not found".to_string()));

    assert!(result.unwrap_err().contains("remove_file"));
    assert!(lib.find_by_id(song.id).is_some());
    assert_eq!(
        calls,
        vec![
            DeletionCall::AskCurrent(song.id),
            DeletionCall::PrepareCurrent(song.id),
            DeletionCall::DeleteFile(song.id),
            DeletionCall::Finish,
        ]
    );
}

#[test]
fn successful_delete_removes_from_queue_after_file_delete() {
    let song = fake("/tmp/x.mp3");
    let ok = DeletionResult { deleted_path: song.path.clone(), renumbered: 0 };

    let (calls, result) = run_deletion(song.id, false, Ok(ok));

    assert_eq!(result.unwrap().deleted_path, "/tmp/x.mp3");
    assert_eq!(
        calls,
        vec![
            DeletionCall::AskCurrent(song.id),
            DeletionCall::DeleteFile(song.id),
            DeletionCall::RemoveFromQueue(song.id),
            DeletionCall::Finish,
        ]
    );
}

#[test]
fn deletion_ignores_events_that_answer_nothing() {
    let (mut run, _) = deletion_start(7);
    assert_eq!(deletion_next(&mut run, DeletionEvent::Done), DeletionCall::AskCurrent(7));
    assert_eq!(deletion_next(&mut run, DeletionEvent::IsCurrent(false)), DeletionCall::DeleteFile(7));
    assert_eq!(deletion_next(&mut run, DeletionEvent::IsCurrent(true)), DeletionCall::DeleteFile(7));
}

#[test]
fn folders_are_listed_in_path_order() {
    let mut lib = Library::new();
    lib.replace_all(vec![fake("/m/AC DC/x.mp3"), fake("/m/AC/live/y.mp3"), fake("/m/AC/z.mp3")]);
    let mut state = FoldersState::default();
    state.refresh(&lib);
    let list: Vec<(String, usize)> = state.folder_list().clone();
    assert_eq!(
        list,
        vec![("/m/AC".to_string(), 1), ("/m/AC/live".to_string(), 1), ("/m/AC DC".to_string(), 1)]
    );
    assert!(path_key_on("/m/AC/live", false) < path_key_on("/m/AC DC", false));
}

#[test]
fn spellings_of_one_folder_make_one_folder() {
    let mut lib = Library::new();
    lib.replace_all(vec![fake("/m//a/x.mp3"), fake("/m/a/y.mp3"), fake("/m/a/./z.mp3")]);
    let mut state = FoldersState::default();
    state.refresh(&lib);
    let list: Vec<(String, usize)> = state.folder_list().clone();
    assert_eq!(list, vec![("/m//a".to_string(), 3)]);
    state.refresh_detail(&lib, "/m/a/");
    assert_eq!(state.detail_songs().len(), 3);
    assert_eq!(path_key_on("/m//a/", false), path_key_on("/m/a", false));
    assert_ne!(path_key_on("./m", false), path_key_on("m", false));
    assert_ne!(path_key_on("/m/../a", false), path_key_on("/a", false));
}
