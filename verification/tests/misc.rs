use winplayer::paths::{file_name_on, parent_on};
use winplayer::renumber_run::{renumber_next, renumber_start, RenameAction, RenameEvent, RenumberPhase};
use winplayer::engine::driver::EngineEffect;
use winplayer::engine::driver::EngineState;
use winplayer::engine::EngineEvent;
use winplayer::engine::EngineRequest;
use winplayer::data::tags::song_from_tags_on;
use winplayer::data::tags::synthetic_song_on;
use winplayer::data::tags::TagInfo;
use winplayer::data::Library;
use winplayer::domain::song_id_from_path;
use winplayer::domain::sort::SortOption;
use winplayer::domain::Song;
use winplayer::engine::decoder::interleave_with_channel_map;
use winplayer::engine::decoder::seek_request_value;
use winplayer::engine::decoder::NO_SEEK;
use winplayer::engine::output::played_duration_ms;
use winplayer::renumberer::count_prefixed_on;
use winplayer::renumberer::has_track_prefix_on;
use winplayer::renumberer::renumber_plan_on;
use winplayer::renumberer::sanitize;
use winplayer::renumberer::sort_paths;
use winplayer::renumberer::strip_existing_prefix_on;
use winplayer::ui::components::seek_slider::fmt_time_ms;
use winplayer::ui::components::song_row::RowAction;
use winplayer::ui::screens::all_songs::page_bounds;
use winplayer::ui::screens::all_songs::AllSongsState;
use winplayer::ui::screens::grouping::group_counts;
use winplayer::ui::toasts::ToastKind;
use winplayer::ui::toasts::Toasts;

fn song(path: &str, title: &str, artist: &str, album: &str) -> Song {
    Song {
        id: song_id_from_path(path),
        title: title.into(),
        artist: artist.into(),
        album: album.into(),
        album_artist: artist.into(),
        duration_ns: 1_000_000_000,
        year: None,
        genre: None,
        composer: None,
        track_no: None,
        path: path.to_string(),
        has_embedded_art: false,
    }
}

#[test]
fn child_clicks_take_precedence_over_row_activation() {
    let play = RowAction::from_hits(true, true, false);
    assert!(!play.clicked);
    assert!(play.play_clicked);
    assert!(!play.remove_clicked);

    let remove = RowAction::from_hits(true, false, true);
    assert!(!remove.clicked);
    assert!(!remove.play_clicked);
    assert!(remove.remove_clicked);
}

#[test]
fn plain_row_click_activates_the_row() {
    let a = RowAction::from_hits(true, false, false);
    assert!(a.clicked && !a.play_clicked && !a.remove_clicked);
    let none = RowAction::from_hits(false, false, false);
    assert!(!none.clicked && !none.play_clicked && !none.remove_clicked);
    let both = RowAction::from_hits(false, true, true);
    assert!(!both.clicked && !both.play_clicked && both.remove_clicked);
}

#[test]
fn mono_to_stereo_duplicates() {
    let planar = vec![vec![0.5_f32, 0.6, 0.7]];
    let out = interleave_with_channel_map(&planar, 2, 0.0f32);
    assert_eq!(out, vec![0.5, 0.5, 0.6, 0.6, 0.7, 0.7]);
}

#[test]
fn stereo_to_stereo_passthrough() {
    let planar = vec![vec![0.1_f32, 0.2], vec![0.3, 0.4]];
    let out = interleave_with_channel_map(&planar, 2, 0.0f32);
    assert_eq!(out, vec![0.1, 0.3, 0.2, 0.4]);
}

#[test]
fn extra_output_channels_repeat_the_last_source() {
    let planar = vec![vec![1i32, 2], vec![3, 4]];
    let out = interleave_with_channel_map(&planar, 3, 0);
    assert_eq!(out, vec![1, 3, 3, 2, 4, 4]);
}

#[test]
fn short_channels_are_padded_with_zero() {
    let planar = vec![vec![1i32, 2, 3], vec![4]];
    let out = interleave_with_channel_map(&planar, 2, 0);
    assert_eq!(out, vec![1, 4, 2, 0, 3, 0]);
}

#[test]
fn no_channels_give_no_samples() {
    let planar: Vec<Vec<i32>> = Vec::new();
    assert!(interleave_with_channel_map(&planar, 2, 0).is_empty());
    let one = vec![vec![1i32]];
    assert!(interleave_with_channel_map(&one, 0, 0).is_empty());
}

#[test]
fn time_labels() {
    assert_eq!(fmt_time_ms(0), "0:00");
    assert_eq!(fmt_time_ms(999), "0:00");
    assert_eq!(fmt_time_ms(61_000), "1:01");
    assert_eq!(fmt_time_ms(3_599_999), "59:59");
    assert_eq!(fmt_time_ms(3_600_000), "60:00");
}

#[test]
fn seek_mailbox_never_holds_the_empty_marker() {
    assert_eq!(seek_request_value(1234), 1234);
    assert_eq!(seek_request_value(0), 0);
    assert_eq!(seek_request_value(NO_SEEK), NO_SEEK - 1);
}

#[test]
fn played_position_adds_the_seek_anchor() {
    assert_eq!(played_duration_ms(88_200, 2, 44_100, 500), 1_500);
    assert_eq!(played_duration_ms(44_100, 0, 44_100, 0), 1_000);
    assert_eq!(played_duration_ms(10, 1, 0, 0), 10_000);
    assert_eq!(played_duration_ms(0, 2, 48_000, 7), 7);
}

#[test]
fn track_prefix_detection() {
    assert!(has_track_prefix_on("/m/01 - alpha.mp3", false));
    assert!(has_track_prefix_on("/m/7_beta.flac", false));
    assert!(has_track_prefix_on("/m/12.gamma.mp3", false));
    assert!(!has_track_prefix_on("/m/alpha.mp3", false));
    assert!(!has_track_prefix_on("/m/01a.mp3", false));
    assert!(!has_track_prefix_on("/m/123.mp3", false));
    assert!(!has_track_prefix_on("", false));
}

#[test]
fn prefix_stripping_and_sanitizing() {
    assert_eq!(strip_existing_prefix_on("/m/01 - alpha.mp3", false), "alpha");
    assert_eq!(strip_existing_prefix_on("/m/beta.mp3", false), "beta");
    assert_eq!(strip_existing_prefix_on("/m/03__-gamma delta.ogg", false), "gamma delta");
    assert_eq!(sanitize("a b-c.d"), "a_b_c_d");
    let long = "x".repeat(50);
    assert_eq!(sanitize(&long), "x".repeat(40));
}

#[test]
fn renumber_plan_names_files_in_order() {
    let files = vec![
        "/m/03 - gamma.mp3".to_string(),
        "/m/x y.flac".to_string(),
        "/m/song".to_string(),
    ];
    let plan = renumber_plan_on("/m", &files, 7, 99, false);
    assert_eq!(plan.len(), 3);
    assert_eq!(plan[0].source, "/m/03 - gamma.mp3");
    assert_eq!(plan[0].temp, "/m/.tmp_renumber_7_99_0_gamma.mp3");
    assert_eq!(plan[0].target_name, "01 - gamma.mp3");
    assert_eq!(plan[0].target, "/m/01 - gamma.mp3");
    assert_eq!(plan[1].temp, "/m/.tmp_renumber_7_99_1_x_y.flac");
    assert_eq!(plan[1].target, "/m/02 - x y.flac");
    assert_eq!(plan[2].temp, "/m/.tmp_renumber_7_99_2_song.");
    assert_eq!(plan[2].target, "/m/03 - song");
}

#[test]
fn renumber_plan_joins_onto_a_trailing_separator() {
    let files = vec!["/m/a.mp3".to_string()];
    let plan = renumber_plan_on("/m/", &files, 1, 2, false);
    assert_eq!(plan[0].target, "/m/01 - a.mp3");
    let win = vec!["C:\\m\\b.mp3".to_string()];
    let plan = renumber_plan_on("C:\\m", &win, 1, 2, true);
    assert_eq!(plan[0].target, "C:\\m\\01 - b.mp3");
}

#[test]
fn counting_and_sorting_paths() {
    let files = vec![
        "/m/01 - alpha.mp3".to_string(),
        "/m/beta.mp3".to_string(),
        "/m/02 - gamma.mp3".to_string(),
    ];
    assert_eq!(count_prefixed_on(&files, false), 2);
    let mut paths = vec!["/m/c.mp3".to_string(), "/m/a.mp3".to_string(), "/m/b.mp3".to_string()];
    sort_paths(&mut paths);
    assert_eq!(paths, vec!["/m/a.mp3", "/m/b.mp3", "/m/c.mp3"]);
}

#[test]
fn toasts_expire_and_dismiss() {
    let mut t = Toasts::new();
    assert!(!t.has_active());
    t.info("one".to_string());
    t.warn("two".to_string());
    t.error("three".to_string());
    assert_eq!(t.items().len(), 3);
    assert_eq!(t.items()[0].kind, ToastKind::Info);
    assert_eq!(t.items()[0].ttl_ms, 4000);
    assert_eq!(t.items()[1].ttl_ms, 6000);
    assert_eq!(t.items()[2].ttl_ms, 9000);
    assert_eq!(t.next_expiry_ms(&vec![1000, 1000, 1000]), Some(3000));
    t.prune_expired(&vec![4000, 100, 9000]);
    assert_eq!(t.items().len(), 1);
    assert_eq!(t.items()[0].message, "two");
    t.dismiss(vec![5, 0]);
    assert!(!t.has_active());
    assert_eq!(t.next_expiry_ms(&vec![]), None);
}

#[test]
fn grouping_counts_names_in_order() {
    let keys = vec!["b".to_string(), "a".to_string(), "b".to_string()];
    let g = group_counts(&keys);
    assert_eq!(g, vec![("a".to_string(), 1), ("b".to_string(), 2)]);
    assert!(group_counts(&Vec::new()).is_empty());
}

#[test]
fn pages_of_fifty() {
    assert_eq!(page_bounds(0, 0), (0, 0, 0));
    assert_eq!(page_bounds(120, 0), (3, 0, 50));
    assert_eq!(page_bounds(120, 2), (3, 100, 120));
}

#[test]
fn all_songs_view_searches_and_sorts() {
    let mut lib = Library::new();
    lib.replace_all(vec![
        song("/m/1.mp3", "Zebra", "Alpha", "X"),
        song("/m/2.mp3", "apple", "Beta", "Y"),
        song("/m/3.mp3", "Mango", "alphaville", "Z"),
    ]);
    let mut st = AllSongsState::default();
    st.compute_view(&lib);
    let titles: Vec<&str> = st.cached.iter().map(|s| s.title.as_str()).collect();
    assert_eq!(titles, vec!["apple", "Mango", "Zebra"]);

    st.query = "ALPHA".to_string();
    st.compute_view(&lib);
    let titles: Vec<&str> = st.cached.iter().map(|s| s.title.as_str()).collect();
    assert_eq!(titles, vec!["Mango", "Zebra"]);

    st.sort = SortOption::TitleDesc;
    st.compute_view(&lib);
    let titles: Vec<&str> = st.cached.iter().map(|s| s.title.as_str()).collect();
    assert_eq!(titles, vec!["Zebra", "Mango"]);
}

#[test]
fn song_from_tags_fills_gaps_from_the_path() {
    let tags = TagInfo {
        title: Some(String::new()),
        artist: None,
        album: Some("Album".to_string()),
        album_artist: None,
        year: Some(1999),
        genre: None,
        composer: Some("C".to_string()),
        track: None,
        picture_count: 1,
        duration_ns: 5,
    };
    let s = song_from_tags_on("/music/Folder/04 - Name.mp3", tags, false);
    assert_eq!(s.title, "04 - Name");
    assert_eq!(s.artist, "Unknown Artist");
    assert_eq!(s.album, "Album");
    assert_eq!(s.album_artist, "Unknown Artist");
    assert_eq!(s.year, Some(1999));
    assert_eq!(s.track_no, Some(4));
    assert_eq!(s.duration_ns, 5);
    assert!(s.has_embedded_art);
    assert_eq!(s.path, "/music/Folder/04 - Name.mp3");
}

#[test]
fn synthetic_song_uses_the_path() {
    let s = synthetic_song_on("/music/Folder/Name.flac", false);
    assert_eq!(s.title, "Name");
    assert_eq!(s.album, "Folder");
    assert_eq!(s.artist, "Unknown Artist");
    assert_eq!(s.duration_ns, 1_000_000_000);
    assert_eq!(s.track_no, None);
    assert!(!s.has_embedded_art);
}

#[test]
fn engine_load_prepares_then_starts_paused_or_playing() {
    let mut s = EngineState::new();
    let fx = s.on_request(EngineRequest::Load { path: "/a.mp3".to_string(), autoplay: false });
    assert_eq!(fx.len(), 2);
    assert!(matches!(&fx[0], EngineEffect::Emit(EngineEvent::LoadStarted(p)) if p == "/a.mp3"));
    assert!(matches!(&fx[1], EngineEffect::Prepare { path, autoplay: false } if path == "/a.mp3"));
    assert!(!s.has_job);
    let fx = s.on_prepared("/a.mp3".to_string(), false, Ok(90_000));
    assert!(matches!(fx[0], EngineEffect::ClearOutput));
    assert!(matches!(fx[1], EngineEffect::StartJob));
    assert!(matches!(fx[2], EngineEffect::PauseOutput));
    assert!(matches!(fx[3], EngineEffect::Emit(EngineEvent::Started { duration_ms: 90_000 })));
    assert_eq!(s, EngineState { has_job: true, duration_ms: 90_000, paused: true });

    let fx = s.on_request(EngineRequest::Seek { position_ms: 30_000, duration_ms: 60_000 });
    assert_eq!(fx.len(), 3);
    assert!(matches!(fx[0], EngineEffect::SeekJob(45_000)));
    assert!(matches!(fx[2], EngineEffect::SetAnchor(45_000)));

    let fx = s.on_prepared("/b.mp3".to_string(), true, Err("bad".to_string()));
    assert_eq!(fx.len(), 1);
    assert!(matches!(&fx[0], EngineEffect::Emit(EngineEvent::LoadFailed { path, error }) if path == "/b.mp3" && error == "bad"));
    assert!(s.has_job);
}

#[test]
fn engine_ticks_report_position_then_end_once() {
    let mut s = EngineState::new();
    assert!(s.on_tick(0, true, 0).is_empty());
    let _ = s.on_prepared("/a.mp3".to_string(), true, Ok(1_000));
    let fx = s.on_tick(500, false, 0);
    assert_eq!(fx.len(), 1);
    assert!(matches!(fx[0], EngineEffect::Emit(EngineEvent::Position { current_ms: 500, duration_ms: 1_000 })));
    assert_eq!(s.on_tick(900, true, 128).len(), 1);
    let fx = s.on_tick(1_000, true, 0);
    assert_eq!(fx.len(), 3);
    assert!(matches!(fx[1], EngineEffect::StopJob));
    assert!(matches!(fx[2], EngineEffect::Emit(EngineEvent::EndOfTrack)));
    assert!(s.on_tick(1_000, true, 0).is_empty());
    let fx = s.on_request(EngineRequest::SeekToStart);
    assert!(fx.is_empty());
    let fx = s.on_request(EngineRequest::Stop);
    assert_eq!(fx.len(), 1);
    assert!(matches!(fx[0], EngineEffect::ClearOutput));
    let fx = s.on_request(EngineRequest::Shutdown);
    assert!(matches!(fx[0], EngineEffect::Exit));
}

fn two_file_plan() -> Vec<winplayer::renumberer::RenumberStep> {
    let files = vec!["/m/b.mp3".to_string(), "/m/a.mp3".to_string()];
    renumber_plan_on("/m", &files, 1, 2, false)
}

fn is_move(a: &RenameAction, f: &str, t: &str) -> bool {
    matches!(a, RenameAction::Move { from, to } if from == f && to == t)
}

fn is_check(a: &RenameAction, p: &str) -> bool {
    matches!(a, RenameAction::CheckTarget { path } if path == p)
}

#[test]
fn renumber_run_two_passes_without_collisions() {
    let (mut run, a) = renumber_start(two_file_plan());
    assert!(is_move(&a, "/m/b.mp3", "/m/.tmp_renumber_1_2_0_b.mp3"));
    let a = renumber_next(&mut run, RenameEvent::Done);
    assert!(is_move(&a, "/m/a.mp3", "/m/.tmp_renumber_1_2_1_a.mp3"));
    let a = renumber_next(&mut run, RenameEvent::Done);
    assert!(is_check(&a, "/m/01 - b.mp3"));
    let a = renumber_next(&mut run, RenameEvent::Done);
    assert!(is_move(&a, "/m/.tmp_renumber_1_2_0_b.mp3", "/m/01 - b.mp3"));
    let a = renumber_next(&mut run, RenameEvent::Done);
    assert!(is_check(&a, "/m/02 - a.mp3"));
    let a = renumber_next(&mut run, RenameEvent::Done);
    assert!(is_move(&a, "/m/.tmp_renumber_1_2_1_a.mp3", "/m/02 - a.mp3"));
    let a = renumber_next(&mut run, RenameEvent::Done);
    assert!(matches!(a, RenameAction::Finish { renamed: 2 }));
    assert_eq!(run.phase, RenumberPhase::Finished);
}

#[test]
fn renumber_run_puts_back_a_file_whose_target_is_taken() {
    let (mut run, _) = renumber_start(two_file_plan());
    renumber_next(&mut run, RenameEvent::Done);
    renumber_next(&mut run, RenameEvent::Done);
    let a = renumber_next(&mut run, RenameEvent::TargetExists);
    assert!(is_move(&a, "/m/.tmp_renumber_1_2_0_b.mp3", "/m/b.mp3"));
    let a = renumber_next(&mut run, RenameEvent::Done);
    assert!(is_check(&a, "/m/02 - a.mp3"));
    renumber_next(&mut run, RenameEvent::Done);
    let a = renumber_next(&mut run, RenameEvent::Done);
    assert!(matches!(a, RenameAction::Finish { renamed: 1 }));
}

#[test]
fn renumber_run_undoes_a_failed_first_pass() {
    let (mut run, _) = renumber_start(two_file_plan());
    renumber_next(&mut run, RenameEvent::Done);
    let a = renumber_next(&mut run, RenameEvent::Failed);
    assert!(is_move(&a, "/m/.tmp_renumber_1_2_0_b.mp3", "/m/b.mp3"));
    let a = renumber_next(&mut run, RenameEvent::Done);
    assert!(matches!(a, RenameAction::Abort));
    assert_eq!(run.phase, RenumberPhase::Aborted);
}

#[test]
fn renumber_run_undoes_every_move_last_first() {
    let (mut run, _) = renumber_start(two_file_plan());
    renumber_next(&mut run, RenameEvent::Done);
    renumber_next(&mut run, RenameEvent::Done);
    renumber_next(&mut run, RenameEvent::Done);
    renumber_next(&mut run, RenameEvent::Done);
    renumber_next(&mut run, RenameEvent::Done);
    let a = renumber_next(&mut run, RenameEvent::Failed);
    assert!(is_move(&a, "/m/01 - b.mp3", "/m/.tmp_renumber_1_2_0_b.mp3"));
    let a = renumber_next(&mut run, RenameEvent::Done);
    assert!(is_move(&a, "/m/.tmp_renumber_1_2_1_a.mp3", "/m/a.mp3"));
    let a = renumber_next(&mut run, RenameEvent::Done);
    assert!(is_move(&a, "/m/.tmp_renumber_1_2_0_b.mp3", "/m/b.mp3"));
    let a = renumber_next(&mut run, RenameEvent::Done);
    assert!(matches!(a, RenameAction::Abort));
    assert!(run.all_back);
}

#[test]
fn renumber_run_rollback_of_a_shift_overwrites_nothing() {
    let files = vec!["/m/00 - a.mp3".to_string(), "/m/01 - x.mp3".to_string(), "/m/02 - x.mp3".to_string()];
    let (mut run, a) = renumber_start(renumber_plan_on("/m", &files, 1, 2, false));
    let t0 = "/m/.tmp_renumber_1_2_0_a.mp3";
    let t1 = "/m/.tmp_renumber_1_2_1_x.mp3";
    let t2 = "/m/.tmp_renumber_1_2_2_x.mp3";
    assert!(is_move(&a, "/m/00 - a.mp3", t0));
    let a = renumber_next(&mut run, RenameEvent::Done);
    assert!(is_move(&a, "/m/01 - x.mp3", t1));
    let a = renumber_next(&mut run, RenameEvent::Done);
    assert!(is_move(&a, "/m/02 - x.mp3", t2));
    let a = renumber_next(&mut run, RenameEvent::Done);
    assert!(is_check(&a, "/m/01 - a.mp3"));
    let a = renumber_next(&mut run, RenameEvent::Done);
    assert!(is_move(&a, t0, "/m/01 - a.mp3"));
    let a = renumber_next(&mut run, RenameEvent::Done);
    assert!(is_check(&a, "/m/02 - x.mp3"));
    let a = renumber_next(&mut run, RenameEvent::Done);
    assert!(is_move(&a, t1, "/m/02 - x.mp3"));
    let a = renumber_next(&mut run, RenameEvent::Done);
    assert!(is_check(&a, "/m/03 - x.mp3"));
    let a = renumber_next(&mut run, RenameEvent::Done);
    assert!(is_move(&a, t2, "/m/03 - x.mp3"));
    // The last move fails: the placed files go back to their temporary
    // names before any file goes back to its own name.
    let a = renumber_next(&mut run, RenameEvent::Failed);
    assert!(is_move(&a, "/m/02 - x.mp3", t1));
    let a = renumber_next(&mut run, RenameEvent::Done);
    assert!(is_move(&a, "/m/01 - a.mp3", t0));
    let a = renumber_next(&mut run, RenameEvent::Done);
    assert!(is_move(&a, t2, "/m/02 - x.mp3"));
    let a = renumber_next(&mut run, RenameEvent::Done);
    assert!(is_move(&a, t1, "/m/01 - x.mp3"));
    let a = renumber_next(&mut run, RenameEvent::Done);
    assert!(is_move(&a, t0, "/m/00 - a.mp3"));
    let a = renumber_next(&mut run, RenameEvent::Done);
    assert!(matches!(a, RenameAction::Abort));
    assert!(run.all_back);
}

#[test]
fn renumber_run_never_moves_onto_a_file_of_the_plan() {
    let files = vec!["/m/02 - b.mp3".to_string(), "/m/b.mp3".to_string()];
    let (mut run, _) = renumber_start(renumber_plan_on("/m", &files, 1, 2, false));
    renumber_next(&mut run, RenameEvent::Done);
    let a = renumber_next(&mut run, RenameEvent::Done);
    assert!(is_check(&a, "/m/01 - b.mp3"));
    let a = renumber_next(&mut run, RenameEvent::TargetExists);
    assert!(is_move(&a, "/m/.tmp_renumber_1_2_0_b.mp3", "/m/02 - b.mp3"));
    let a = renumber_next(&mut run, RenameEvent::Done);
    assert!(is_check(&a, "/m/02 - b.mp3"));
    // The first file is back at that name: the second is not moved onto it,
    // whatever the check answered.
    let a = renumber_next(&mut run, RenameEvent::Done);
    assert!(is_move(&a, "/m/.tmp_renumber_1_2_1_b.mp3", "/m/b.mp3"));
    let a = renumber_next(&mut run, RenameEvent::Done);
    assert!(matches!(a, RenameAction::Finish { renamed: 0 }));
}

#[test]
fn renumber_run_of_nothing_finishes_at_once() {
    let (_, a) = renumber_start(Vec::new());
    assert!(matches!(a, RenameAction::Finish { renamed: 0 }));
}

#[test]
fn trailing_dot_segments_are_ignored() {
    assert_eq!(file_name_on("x.mp3/.", false), Some("x.mp3".to_string()));
    assert_eq!(parent_on("a/b/.", false), Some("a".to_string()));
    assert_eq!(file_name_on(".", false), None);
    assert_eq!(file_name_on("/.", false), None);
    assert_eq!(parent_on("/.", false), None);
    assert_eq!(file_name_on("a/..", false), None);
}
