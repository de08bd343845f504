//! The folder list and the songs of one folder, cached per library version.

use vstd::prelude::*;
use crate::data::library::Library;
use crate::domain::song::Song;
use crate::domain::sort::SortOption;
use crate::domain::sort::sort_songs;
use crate::domain::sort::sorted_by_option;
use crate::text::lex_lt;
use crate::paths::platform_uses_backslash;
use crate::paths::spec_parent;
use crate::paths::parent_on;
use crate::path_order::path_key;
use crate::path_order::path_key_on;
use crate::path_order::path_lt;
use crate::path_order::lemma_path_key_order;
use crate::ui::screens::facets::Facet;
use crate::ui::screens::facets::facet_values;
use crate::ui::screens::facets::collect_facet_values;
use crate::ui::screens::grouping::group_counts;
use crate::ui::screens::grouping::is_grouping;
use crate::ui::screens::grouping::count_occ;
use crate::ui::screens::grouping::names_of;
use crate::ui::screens::grouping::lemma_count_pos_has_index;

verus! {

/// Song `s` lies directly in a folder whose path key is `fk`.
pub open spec fn in_folder(s: Song, fk: Seq<char>, w: bool) -> bool {
    spec_parent(s.path@, w) matches Some(p) && path_key(p, w) == fk
}

/// The songs of `s` lying directly in a folder whose path key is `fk`, in
/// order.
pub open spec fn with_folder(s: Seq<Song>, fk: Seq<char>, w: bool) -> Seq<Song>
    decreases s.len(),
{
    if s.len() == 0 {
        s
    } else {
        let r = with_folder(s.drop_last(), fk, w);
        if in_folder(s.last(), fk, w) {
            r.push(s.last())
        } else {
            r
        }
    }
}

/// `detail` is the songs of `songs` directly in `folder` taken as a path
/// (any spelling with the same components, with `\\` separators when `w`),
/// in track-number order.
pub open spec fn folder_detail_order(songs: Seq<Song>, folder: Seq<char>, detail: Seq<Song>, w: bool) -> bool {
    let sel = with_folder(songs, path_key(folder, w), w);
    sorted_by_option(sel, detail, SortOption::TrackNoAsc, false) || sorted_by_option(sel, detail, SortOption::TrackNoAsc, true)
}

/// The path keys of `pars`.
pub open spec fn keys_of_paths(pars: Seq<Seq<char>>, w: bool) -> Seq<Seq<char>> {
    pars.map_values(|p: Seq<char>| path_key(p, w))
}

/// `pars[k]` is the first of `pars` with its path key.
pub open spec fn first_spelling(pars: Seq<Seq<char>>, k: int, w: bool) -> bool {
    &&& 0 <= k < pars.len()
    &&& forall|m: int| 0 <= m < k ==> path_key(#[trigger] pars[m], w) != path_key(pars[k], w)
}

/// `name` is `pars[k]`, the first spelling of its folder in `pars`.
pub open spec fn spelled_first_at(pars: Seq<Seq<char>>, k: int, name: Seq<char>, w: bool) -> bool {
    first_spelling(pars, k, w) && pars[k] == name
}

/// Entry `i` of `list` is the folder whose path key is `key`.
pub open spec fn entry_has_key(list: Seq<(String, usize)>, i: int, key: Seq<char>, w: bool) -> bool {
    0 <= i < list.len() && path_key(list[i].0@, w) == key
}

/// Some entry of `pars` is `name`, as the first spelling of its folder.
pub open spec fn has_first_spelling(pars: Seq<Seq<char>>, name: Seq<char>, w: bool) -> bool {
    exists|k: int| #[trigger] spelled_first_at(pars, k, name, w)
}

/// Some entry of `list` is the folder whose path key is `key`.
pub open spec fn has_entry(list: Seq<(String, usize)>, key: Seq<char>, w: bool) -> bool {
    exists|i: int| #[trigger] entry_has_key(list, i, key, w)
}

/// `list` holds each folder of `pars` once, folders being equal when their
/// paths have the same components (equal `path_key`, by
/// `lemma_path_key_order`), in path order (`path_lt`), each under the first of its
/// spellings in `pars` and with the number of entries of `pars` that are
/// that folder.
pub open spec fn is_folder_grouping(pars: Seq<Seq<char>>, list: Seq<(String, usize)>, w: bool) -> bool {
    let keys = keys_of_paths(pars, w);
    &&& forall|i: int, j: int|
        0 <= i < j < list.len() ==> path_lt((#[trigger] list[i]).0@, (#[trigger] list[j]).0@, w)
    &&& forall|i: int|
        0 <= i < list.len() ==> (#[trigger] list[i]).1 == count_occ(keys, path_key(list[i].0@, w)) && list[i].1 > 0
    &&& forall|i: int| 0 <= i < list.len() ==> #[trigger] has_first_spelling(pars, list[i].0@, w)
    &&& forall|k: int| 0 <= k < pars.len() ==> #[trigger] has_entry(list, keys[k], w)
}

/// The songs of `songs` directly in the folder whose path key is `fk`.
fn filter_folder(songs: &Vec<Song>, fk: &String, w: bool) -> (r: Vec<Song>)
    ensures
        r@ == with_folder(songs@, fk@, w),
{
    let mut out: Vec<Song> = Vec::new();
    let mut i: usize = 0;
    while i < songs.len()
        invariant
            i <= songs@.len(),
            out@ == with_folder(songs@.take(i as int), fk@, w),
        decreases songs@.len() - i,
    {
        assert(songs@.take(i + 1).drop_last() =~= songs@.take(i as int));
        assert(songs@.take(i + 1).last() == songs@[i as int]);
        let keep = match parent_on(songs[i].path.as_str(), w) {
            Some(p) => {
                let k = path_key_on(p.as_str(), w);
                k.eq(fk)
            },
            None => false,
        };
        if keep {
            out.push(songs[i].clone());
        }
        i = i + 1;
    }
    assert(songs@.take(songs@.len() as int) =~= songs@);
    out
}

/// Groups the folders `parents` (see `is_folder_grouping`).
fn group_folders(parents: &Vec<String>, w: bool) -> (r: Vec<(String, usize)>)
    ensures
        is_folder_grouping(names_of(parents@), r@, w),
{
    let ghost pars = names_of(parents@);
    let mut keys: Vec<String> = Vec::new();
    let mut i: usize = 0;
    while i < parents.len()
        invariant
            pars == names_of(parents@),
            i <= parents@.len(),
            keys@.len() == i,
            forall|k: int| 0 <= k < i ==> (#[trigger] keys@[k])@ == path_key(pars[k], w),
        decreases parents@.len() - i,
    {
        let k = path_key_on(parents[i].as_str(), w);
        keys.push(k);
        i = i + 1;
    }
    let ghost ks = keys_of_paths(pars, w);
    assert(names_of(keys@) =~= ks);
    let groups = group_counts(&keys);
    let mut list: Vec<(String, usize)> = Vec::new();
    let mut g: usize = 0;
    while g < groups.len()
        invariant
            pars == names_of(parents@),
            ks == keys_of_paths(pars, w),
            names_of(keys@) == ks,
            keys@.len() == parents@.len(),
            is_grouping(ks, groups@),
            g <= groups@.len(),
            list@.len() == g,
            forall|a: int| 0 <= a < g ==> (#[trigger] list@[a]).1 == groups@[a].1 && path_key(list@[a].0@, w)
                == groups@[a].0@ && has_first_spelling(pars, list@[a].0@, w),
        decreases groups@.len() - g,
    {
        let ghost gk = groups@[g as int].0@;
        proof {
            assert(groups@[g as int].1 == count_occ(ks, gk) && groups@[g as int].1 > 0);
            lemma_count_pos_has_index(ks, gk);
        }
        let mut j: usize = 0;
        while j < keys.len() && !keys[j].eq(&groups[g].0)
            invariant
                j <= keys@.len(),
                g < groups@.len(),
                names_of(keys@) == ks,
                gk == groups@[g as int].0@,
                exists|k: int| 0 <= k < ks.len() && ks[k] == gk,
                forall|m: int| 0 <= m < j ==> ks[m] != gk,
            decreases keys@.len() - j,
        {
            assert(ks[j as int] == keys@[j as int]@);
            j = j + 1;
        }
        proof {
            if j >= keys@.len() {
                let k = choose|k: int| 0 <= k < ks.len() && ks[k] == gk;
                assert(ks[k] != gk);
            }
            assert(ks[j as int] == keys@[j as int]@);
            assert(ks[j as int] == gk);
            assert(pars[j as int] == parents@[j as int]@);
            assert forall|m: int| 0 <= m < j implies path_key(#[trigger] pars[m], w) != path_key(pars[j as int], w) by {
                assert(ks[m] == path_key(pars[m], w));
            }
            assert(first_spelling(pars, j as int, w));
        }
        let ghost jj = j as int;
        let name = parents[j].clone();
        list.push((name, groups[g].1));
        proof {
            assert(list@[g as int].0@ == pars[jj]);
            assert(spelled_first_at(pars, jj, list@[g as int].0@, w));
        }
        g = g + 1;
    }
    proof {
        assert forall|i: int, j: int| 0 <= i < j < list@.len() implies path_lt(
            (#[trigger] list@[i]).0@,
            (#[trigger] list@[j]).0@,
            w,
        ) by {
            assert(lex_lt(groups@[i].0@, groups@[j].0@));
            lemma_path_key_order(list@[i].0@, list@[j].0@, w);
        }
        assert forall|k: int| 0 <= k < pars.len() implies #[trigger] has_entry(list@, ks[k], w) by {
            let i = choose|i: int| 0 <= i < groups@.len() && #[trigger] groups@[i].0@ == #[trigger] ks[k];
            assert(entry_has_key(list@, i, ks[k], w));
        }
        assert forall|i: int| 0 <= i < list@.len() implies (#[trigger] list@[i]).1 == count_occ(
            ks,
            path_key(list@[i].0@, w),
        ) && list@[i].1 > 0 by {
            assert(groups@[i].1 == count_occ(ks, groups@[i].0@) && groups@[i].1 > 0);
        }
        assert forall|i: int| 0 <= i < list@.len() implies #[trigger] has_first_spelling(pars, list@[i].0@, w) by {
            assert(list@[i].1 == groups@[i].1);
        }
        assert(is_folder_grouping(pars, list@, w));
    }
    list
}

/// The folders holding songs, with their song counts, the folder opened, and
/// the songs of the folder last opened.
pub struct FoldersState {
    selected: Option<String>,
    version: Option<u64>,
    folder_list: Vec<(String, usize)>,
    detail_version: Option<u64>,
    detail_folder: Option<String>,
    detail_songs: Vec<Song>,
}

impl Default for FoldersState {
    fn default() -> (c: Self)
        ensures
            c.spec_selected() is None,
            c.spec_version() is None,
            c.spec_detail_version() is None,
    {
        FoldersState {
            selected: None,
            version: None,
            folder_list: Vec::new(),
            detail_version: None,
            detail_folder: None,
            detail_songs: Vec::new(),
        }
    }
}

impl FoldersState {
    pub closed spec fn spec_selected(&self) -> Option<String> {
        self.selected
    }

    pub closed spec fn spec_version(&self) -> Option<u64> {
        self.version
    }

    /// The folder opened, if any.
    pub fn selected(&self) -> (r: &Option<String>)
        ensures
            *r == self.spec_selected(),
    {
        &self.selected
    }

    /// Opens `folder`, or goes back to the list with `None`.
    pub fn select(&mut self, folder: Option<String>)
        ensures
            final(self).spec_selected() == folder,
            final(self).spec_version() == old(self).spec_version(),
            final(self).spec_folder_list() == old(self).spec_folder_list(),
            final(self).spec_detail_version() == old(self).spec_detail_version(),
            final(self).spec_detail_folder() == old(self).spec_detail_folder(),
            final(self).spec_detail_songs() == old(self).spec_detail_songs(),
    {
        self.selected = folder;
    }

    pub closed spec fn spec_folder_list(&self) -> Seq<(String, usize)> {
        self.folder_list@
    }

    pub closed spec fn spec_detail_version(&self) -> Option<u64> {
        self.detail_version
    }

    pub closed spec fn spec_detail_folder(&self) -> Option<String> {
        self.detail_folder
    }

    pub closed spec fn spec_detail_songs(&self) -> Seq<Song> {
        self.detail_songs@
    }

    /// The song list was built for `folder` at library version `v`.
    pub open spec fn detail_is_fresh(&self, v: u64, folder: Seq<char>) -> bool {
        &&& self.spec_detail_version() == Some(v)
        &&& self.spec_detail_folder() matches Some(f)
        &&& f@ == folder
    }

    /// Rebuilds the folder list when the library version changed: each
    /// folder holding a song once (spellings of one path count as one
    /// folder), in path order, with its song count.
    pub fn refresh(&mut self, library: &Library)
        ensures
            old(self).spec_version() == Some(library.spec_version()) ==> final(self).spec_folder_list() == old(self).spec_folder_list(),
            old(self).spec_version() != Some(library.spec_version()) ==> (is_folder_grouping(
                facet_values(library.spec_songs(), Facet::Folder, false),
                final(self).spec_folder_list(),
                false,
            ) || is_folder_grouping(facet_values(library.spec_songs(), Facet::Folder, true), final(self).spec_folder_list(), true)),
            final(self).spec_version() == Some(library.spec_version()),
            final(self).spec_selected() == old(self).spec_selected(),
            final(self).spec_detail_version() == old(self).spec_detail_version(),
            final(self).spec_detail_folder() == old(self).spec_detail_folder(),
            final(self).spec_detail_songs() == old(self).spec_detail_songs(),
    {
        let v = library.version();
        if self.version == Some(v) {
            return;
        }
        let songs = library.songs_snapshot();
        let w = platform_uses_backslash();
        let names = collect_facet_values(&songs, Facet::Folder, w);
        self.folder_list = group_folders(&names, w);
        self.version = Some(v);
    }

    /// The list built by the last `refresh`.
    pub fn folder_list(&self) -> (r: &Vec<(String, usize)>)
        ensures
            r@ == self.spec_folder_list(),
    {
        &self.folder_list
    }

    /// Rebuilds the song list of `folder` when the library version or the
    /// folder changed: the songs directly in it (in any spelling of its
    /// path), in track-number order.
    pub fn refresh_detail(&mut self, library: &Library, folder: &str)
        ensures
            final(self).detail_is_fresh(library.spec_version(), folder@),
            final(self).spec_selected() == old(self).spec_selected(),
            final(self).spec_version() == old(self).spec_version(),
            final(self).spec_folder_list() == old(self).spec_folder_list(),
            old(self).detail_is_fresh(library.spec_version(), folder@) ==> final(self).spec_detail_songs()
                == old(self).spec_detail_songs(),
            !old(self).detail_is_fresh(library.spec_version(), folder@) ==> (folder_detail_order(
                library.spec_songs(),
                folder@,
                final(self).spec_detail_songs(),
                false,
            ) || folder_detail_order(library.spec_songs(), folder@, final(self).spec_detail_songs(), true)),
    {
        let v = library.version();
        let same = match &self.detail_folder {
            Some(f) => f.eq(&folder.to_owned()),
            None => false,
        };
        if self.detail_version == Some(v) && same {
            return;
        }
        let w = platform_uses_backslash();
        let snapshot = library.songs_snapshot();
        let fk = path_key_on(folder, w);
        let mut songs = filter_folder(&snapshot, &fk, w);
        let ghost sel = songs@;
        sort_songs(&mut songs, SortOption::TrackNoAsc);
        assert(sel == with_folder(library.spec_songs(), path_key(folder@, w), w));
        self.detail_songs = songs;
        self.detail_folder = Some(folder.to_owned());
        self.detail_version = Some(v);
    }

    /// The songs built by the last `refresh_detail`.
    pub fn detail_songs(&self) -> (r: &Vec<Song>)
        ensures
            r@ == self.spec_detail_songs(),
    {
        &self.detail_songs
    }
}

} // verus!
