//! The artists list and the songs of one entry, cached per library version.

use vstd::prelude::*;
use crate::data::library::Library;
use crate::domain::song::Song;
use crate::domain::sort::SortOption;
use crate::domain::sort::sort_songs;
use crate::domain::sort::sorted_by_option;
use crate::paths::platform_uses_backslash;
use crate::ui::screens::facets::Facet;
use crate::ui::screens::facets::facet_values;
use crate::ui::screens::facets::with_facet;
use crate::ui::screens::facets::filter_facet;
use crate::ui::screens::facets::collect_facet_values;
use crate::ui::screens::grouping::group_counts;
use crate::ui::screens::grouping::is_grouping;

verus! {

/// The artists with their song counts, and the songs of the entry last opened.
pub struct ArtistsCache {
    version: Option<u64>,
    entries: Vec<(String, usize)>,
    detail_version: Option<u64>,
    detail_name: Option<String>,
    detail_songs: Vec<Song>,
}

impl Default for ArtistsCache {
    fn default() -> (c: Self)
        ensures
            c.spec_version() is None,
            c.spec_detail_version() is None,
    {
        ArtistsCache { version: None, entries: Vec::new(), detail_version: None, detail_name: None, detail_songs: Vec::new() }
    }
}

impl ArtistsCache {
    pub closed spec fn spec_version(&self) -> Option<u64> {
        self.version
    }

    pub closed spec fn spec_entries(&self) -> Seq<(String, usize)> {
        self.entries@
    }

    pub closed spec fn spec_detail_version(&self) -> Option<u64> {
        self.detail_version
    }

    pub closed spec fn spec_detail_name(&self) -> Option<String> {
        self.detail_name
    }

    pub closed spec fn spec_detail_songs(&self) -> Seq<Song> {
        self.detail_songs@
    }

    /// The song list was built for `name` at library version `v`.
    pub open spec fn detail_is_fresh(&self, v: u64, name: Seq<char>) -> bool {
        &&& self.spec_detail_version() == Some(v)
        &&& self.spec_detail_name() matches Some(n)
        &&& n@ == name
    }

    /// Rebuilds the list when the library version changed since the last
    /// build: each distinct artist once, in name order, with its song count.
    pub fn refresh(&mut self, library: &Library)
        ensures
            old(self).spec_version() == Some(library.spec_version()) ==> final(self).spec_entries() == old(self).spec_entries(),
            old(self).spec_version() != Some(library.spec_version()) ==> is_grouping(
                facet_values(library.spec_songs(), Facet::Artist, false),
                final(self).spec_entries(),
            ),
            final(self).spec_version() == Some(library.spec_version()),
            final(self).spec_detail_version() == old(self).spec_detail_version(),
            final(self).spec_detail_name() == old(self).spec_detail_name(),
            final(self).spec_detail_songs() == old(self).spec_detail_songs(),
    {
        let v = library.version();
        if self.version == Some(v) {
            return;
        }
        let songs = library.songs_snapshot();
        let names = collect_facet_values(&songs, Facet::Artist, false);
        self.entries = group_counts(&names);
        self.version = Some(v);
    }

    /// The list built by the last `refresh`.
    pub fn entries(&self) -> (r: &Vec<(String, usize)>)
        ensures
            r@ == self.spec_entries(),
    {
        &self.entries
    }

    /// Rebuilds the song list of `name` when the library version or the
    /// entry changed: the songs with that artist, in the AlbumAsc order.
    pub fn refresh_detail(&mut self, library: &Library, name: &str)
        ensures
            final(self).spec_detail_version() == Some(library.spec_version()),
            final(self).detail_is_fresh(library.spec_version(), name@),
            final(self).spec_version() == old(self).spec_version(),
            final(self).spec_entries() == old(self).spec_entries(),
            old(self).detail_is_fresh(library.spec_version(), name@) ==> final(self).spec_detail_songs() == old(self).spec_detail_songs(),
            !old(self).detail_is_fresh(library.spec_version(), name@) ==> {
                let sel = with_facet(library.spec_songs(), Facet::Artist, name@, false);
                sorted_by_option(sel, final(self).spec_detail_songs(), SortOption::AlbumAsc, false)
                    || sorted_by_option(sel, final(self).spec_detail_songs(), SortOption::AlbumAsc, true)
            },
    {
        let v = library.version();
        let same_name = match &self.detail_name {
            Some(n) => n.eq(&name.to_owned()),
            None => false,
        };
        if self.detail_version == Some(v) && same_name {
            return;
        }
        let snapshot = library.songs_snapshot();
        let mut songs = filter_facet(&snapshot, Facet::Artist, name, false);
        sort_songs(&mut songs, SortOption::AlbumAsc);
        self.detail_songs = songs;
        self.detail_name = Some(name.to_owned());
        self.detail_version = Some(v);
    }

    /// The songs built by the last `refresh_detail`.
    pub fn detail_songs(&self) -> (r: &Vec<Song>)
        ensures
            r@ == self.spec_detail_songs(),
    {
        &self.detail_songs
    }
}

} // verus!
