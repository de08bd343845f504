pub mod playback_state;
pub mod screen;
pub mod song;

pub use playback_state::RepeatMode;
pub use screen::Screen;
pub use song::normalize_path_key;
pub use song::song_id_from_path;
pub use song::Song;
pub mod sort;
pub use sort::sort_songs;
pub use sort::SortOption;
