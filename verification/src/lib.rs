pub mod domain;
pub mod text;
pub mod paths;
pub mod path_order;
pub mod playback;
pub mod engine;
pub mod last_played;
pub mod data;
pub mod renumberer;
pub mod renumber_run;
pub mod ui;
pub mod settings;
