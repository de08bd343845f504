//! Selecting the songs of one album, artist or folder, and listing the
//! distinct albums, artists or folders.

use vstd::prelude::*;
use crate::domain::song::Song;
use crate::paths::spec_parent;
use crate::paths::parent_on;
use crate::ui::screens::grouping::names_of;

verus! {

/// The field a list screen groups songs by.
#[derive(Debug, Clone, Copy, PartialEq, Eq, Structural)]
pub enum Facet {
    Album,
    Artist,
    Folder,
}

/// The facet value of a song: its album, its artist, or the parent of its
/// path (`None` when the path has no parent).
pub open spec fn facet_value(f: Facet, s: Song, w: bool) -> Option<Seq<char>> {
    match f {
        Facet::Album => Some(s.album@),
        Facet::Artist => Some(s.artist@),
        Facet::Folder => spec_parent(s.path@, w),
    }
}

/// The songs of `s` whose facet value is `name`, in order.
pub open spec fn with_facet(s: Seq<Song>, f: Facet, name: Seq<char>, w: bool) -> Seq<Song>
    decreases s.len(),
{
    if s.len() == 0 {
        s
    } else {
        let r = with_facet(s.drop_last(), f, name, w);
        if facet_value(f, s.last(), w) == Some(name) {
            r.push(s.last())
        } else {
            r
        }
    }
}

/// The facet values of the songs of `s` that have one, in order.
pub open spec fn facet_values(s: Seq<Song>, f: Facet, w: bool) -> Seq<Seq<char>>
    decreases s.len(),
{
    if s.len() == 0 {
        Seq::<Seq<char>>::empty()
    } else {
        let r = facet_values(s.drop_last(), f, w);
        match facet_value(f, s.last(), w) {
            Some(v) => r.push(v),
            None => r,
        }
    }
}

fn facet_value_of(f: Facet, s: &Song, w: bool) -> (r: Option<String>)
    ensures
        match r {
            Some(v) => facet_value(f, *s, w) == Some(v@),
            None => facet_value(f, *s, w) is None,
        },
{
    match f {
        Facet::Album => Some(s.album.clone()),
        Facet::Artist => Some(s.artist.clone()),
        Facet::Folder => parent_on(s.path.as_str(), w),
    }
}

/// The songs whose facet value is `name`.
pub fn filter_facet(songs: &Vec<Song>, f: Facet, name: &str, w: bool) -> (r: Vec<Song>)
    ensures
        r@ == with_facet(songs@, f, name@, w),
{
    let mut out: Vec<Song> = Vec::new();
    let mut i: usize = 0;
    while i < songs.len()
        invariant
            i <= songs@.len(),
            out@ == with_facet(songs@.take(i as int), f, name@, w),
        decreases songs@.len() - i,
    {
        assert(songs@.take(i + 1).drop_last() =~= songs@.take(i as int));
        assert(songs@.take(i + 1).last() == songs@[i as int]);
        let v = facet_value_of(f, &songs[i], w);
        let keep = match &v {
            Some(x) => x.eq(&name.to_owned()),
            None => false,
        };
        proof {
            match v {
                Some(x) => assert(keep == (x@ == name@)),
                None => {},
            }
        }
        if keep {
            out.push(songs[i].clone());
        }
        i = i + 1;
    }
    assert(songs@.take(songs@.len() as int) =~= songs@);
    out
}

/// The facet values of the songs that have one.
pub fn collect_facet_values(songs: &Vec<Song>, f: Facet, w: bool) -> (r: Vec<String>)
    ensures
        names_of(r@) == facet_values(songs@, f, w),
{
    let mut out: Vec<String> = Vec::new();
    let mut i: usize = 0;
    while i < songs.len()
        invariant
            i <= songs@.len(),
            names_of(out@) == facet_values(songs@.take(i as int), f, w),
        decreases songs@.len() - i,
    {
        assert(songs@.take(i + 1).drop_last() =~= songs@.take(i as int));
        assert(songs@.take(i + 1).last() == songs@[i as int]);
        let ghost before = out@;
        match facet_value_of(f, &songs[i], w) {
            Some(v) => {
                out.push(v);
                assert(names_of(out@) =~= names_of(before).push(out@.last()@));
            },
            None => {},
        }
        i = i + 1;
    }
    assert(songs@.take(songs@.len() as int) =~= songs@);
    out
}

} // verus!
