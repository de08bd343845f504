use vstd::prelude::*;

verus! {

/// The screens of the player.
#[derive(Debug, Clone, PartialEq, Eq, Hash)]
pub enum Screen {
    AllSongs,
    AlbumsList,
    AlbumDetail(String),
    ArtistsList,
    ArtistDetail(String),
    Folders,
    Queue,
    NowPlaying,
    Equalizer,
    Settings,
}

impl Screen {
    /// Whether the top bar and mini player are drawn around this screen.
    pub open spec fn spec_shows_chrome(&self) -> bool {
        !(self is NowPlaying || self is Settings || self is Equalizer)
    }

    pub fn shows_chrome(&self) -> (r: bool)
        ensures
            r == self.spec_shows_chrome(),
    {
        match self {
            Screen::NowPlaying | Screen::Settings | Screen::Equalizer => false,
            _ => true,
        }
    }
}

} // verus!
