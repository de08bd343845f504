pub mod seek_slider;
pub mod song_row;
