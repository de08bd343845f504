pub mod grouping;
pub mod facets;
pub mod albums;
pub mod artists;
pub mod folders;
pub mod queue;
pub mod all_songs;
