//! The progress protocol of one album load: the eligible files of a
//! directory, the metadata event first, one ready event per generated
//! thumbnail, and one finishing event last.
use vstd::prelude::*;
use crate::classify::{is_image, kind_of};
use crate::error::GenerationError;

verus! {

/// One entry of a directory listing.
pub struct ListedEntry {
    pub path: String,
    /// The entry is a regular file.
    pub is_file: bool,
}

/// The entry is a regular file of a kind that an album shows.
pub open spec fn eligible(e: ListedEntry) -> bool {
    e.is_file && kind_of(e.path@) is Some
}

/// The paths of the eligible entries, in listing order.
pub open spec fn eligible_paths(entries: Seq<ListedEntry>) -> Seq<Seq<char>>
    decreases entries.len(),
{
    if entries.len() == 0 {
        Seq::empty()
    } else if eligible(entries.last()) {
        eligible_paths(entries.drop_last()).push(entries.last().path@)
    } else {
        eligible_paths(entries.drop_last())
    }
}

/// The text of each path.
pub open spec fn paths_view(v: Seq<String>) -> Seq<Seq<char>> {
    v.map_values(|s: String| s@)
}

/// The paths of the eligible entries of a listing; an unreadable directory
/// (`None`) counts as empty.
pub fn scan(listing: Option<Vec<ListedEntry>>) -> (r: Vec<String>)
    ensures
        listing matches Some(v) ==> paths_view(r@) == eligible_paths(v@),
        listing is None ==> r@.len() == 0,
{
    let mut out: Vec<String> = Vec::new();
    match listing {
        None => out,
        Some(entries) => {
            let mut i: usize = 0;
            while i < entries.len()
                invariant
                    i <= entries@.len(),
                    paths_view(out@) == eligible_paths(entries@.subrange(0, i as int)),
                decreases entries@.len() - i,
            {
                assert(entries@.subrange(0, i + 1).drop_last() =~= entries@.subrange(0, i as int));
                let e = &entries[i];
                if e.is_file && is_image(e.path.as_str()) {
                    out.push(String::from_str(e.path.as_str()));
                    assert(paths_view(out@) =~= eligible_paths(entries@.subrange(0, i + 1)));
                }
                i = i + 1;
            }
            assert(entries@.subrange(0, i as int) =~= entries@);
            out
        },
    }
}

/// An event of the load protocol.
pub enum LoadEvent {
    /// The number of eligible files; always the first event.
    AlbumMetadataReady { image_count: usize },
    /// The thumbnail of `original` is at `thumb`.
    ThumbnailReady { original: String, thumb: String },
    /// Every file has been handled; always the last event.
    GenerationFinished,
}

/// The state of one album load after its metadata event.
pub struct AlbumLoad {
    /// The eligible files, in listing order.
    pub paths: Vec<String>,
    /// Which files have had their outcome reported.
    pub reported: Vec<bool>,
    /// Number of ready events handed out.
    pub ready: usize,
    /// The finishing event has been handed out.
    pub finished: bool,
}

impl AlbumLoad {
    /// The bookkeeping is consistent: one flag per file, and no more ready
    /// events than files.
    pub open spec fn wf(&self) -> bool {
        &&& self.reported@.len() == self.paths@.len()
        &&& self.ready <= self.paths@.len()
        &&& self.ready <= count_true(self.reported@)
    }

    /// Starts a load from a directory listing (`None` where the directory
    /// could not be read) and hands out the metadata event.
    pub fn start(listing: Option<Vec<ListedEntry>>) -> (r: (AlbumLoad, LoadEvent))
        ensures
            r.0.wf(),
            listing matches Some(v) ==> paths_view(r.0.paths@) == eligible_paths(v@),
            listing is None ==> r.0.paths@.len() == 0,
            forall|i: int| 0 <= i < r.0.reported@.len() ==> !r.0.reported@[i],
            r.0.ready == 0,
            !r.0.finished,
            r.1 == (LoadEvent::AlbumMetadataReady { image_count: r.0.paths@.len() as usize }),
    {
        let paths = scan(listing);
        let mut reported: Vec<bool> = Vec::new();
        let mut i: usize = 0;
        while i < paths.len()
            invariant
                i <= paths@.len(),
                reported@.len() == i,
                forall|j: int| 0 <= j < i ==> !reported@[j],
            decreases paths@.len() - i,
        {
            reported.push(false);
            i = i + 1;
        }
        proof {
            lemma_count_none(reported@);
        }
        let n = paths.len();
        (AlbumLoad { paths, reported, ready: 0, finished: false }, LoadEvent::AlbumMetadataReady { image_count: n })
    }

    /// Records the outcome of generating the file at `index`. A success
    /// gives its ready event; a failure gives none. Nothing changes where
    /// the load has finished, the index is out of range or the file was
    /// reported already.
    pub fn report(&mut self, index: usize, outcome: Result<String, GenerationError>) -> (r: Option<LoadEvent>)
        requires
            old(self).wf(),
        ensures
            final(self).wf(),
            final(self).paths@ == old(self).paths@,
            final(self).finished == old(self).finished,
            ({
                let accepted = !old(self).finished && index < old(self).paths@.len()
                    && !old(self).reported@[index as int];
                &&& !accepted ==> r is None && *final(self) == *old(self)
                &&& accepted ==> final(self).reported@ == old(self).reported@.update(index as int, true)
                &&& accepted && outcome is Err ==> r is None && final(self).ready == old(self).ready
                &&& accepted && outcome is Ok ==> final(self).ready == old(self).ready + 1
                    && (r matches Some(LoadEvent::ThumbnailReady { original, thumb })
                        && original@ == old(self).paths@[index as int]@
                        && thumb == outcome->Ok_0)
            }),
    {
        if self.finished || index >= self.paths.len() || self.reported[index] {
            return None;
        }
        proof {
            lemma_count_update(self.reported@, index as int);
        }
        self.reported.set(index, true);
        match outcome {
            Ok(thumb) => {
                self.ready = self.ready + 1;
                let original = String::from_str(self.paths[index].as_str());
                Some(LoadEvent::ThumbnailReady { original, thumb })
            },
            Err(_) => None,
        }
    }

    /// Hands out the finishing event, once: later calls give nothing.
    pub fn finish(&mut self) -> (r: Option<LoadEvent>)
        requires
            old(self).wf(),
        ensures
            final(self).wf(),
            final(self).finished,
            final(self).paths@ == old(self).paths@,
            final(self).reported@ == old(self).reported@,
            final(self).ready == old(self).ready,
            !old(self).finished ==> r == Some(LoadEvent::GenerationFinished),
            old(self).finished ==> r is None,
    {
        if self.finished {
            None
        } else {
            self.finished = true;
            Some(LoadEvent::GenerationFinished)
        }
    }
}

/// Number of set flags.
pub open spec fn count_true(s: Seq<bool>) -> nat
    decreases s.len(),
{
    if s.len() == 0 {
        0
    } else {
        count_true(s.drop_last()) + if s.last() { 1nat } else { 0nat }
    }
}

proof fn lemma_count_none(s: Seq<bool>)
    requires
        forall|j: int| 0 <= j < s.len() ==> !s[j],
    ensures
        count_true(s) == 0,
    decreases s.len(),
{
    if s.len() > 0 {
        lemma_count_none(s.drop_last());
    }
}

proof fn lemma_count_update(s: Seq<bool>, i: int)
    requires
        0 <= i < s.len(),
        !s[i],
    ensures
        count_true(s.update(i, true)) == count_true(s) + 1,
        count_true(s) < s.len(),
    decreases s.len(),
{
    let t = s.update(i, true);
    if i == s.len() - 1 {
        assert(t.drop_last() =~= s.drop_last());
        lemma_count_bound(s.drop_last());
    } else {
        assert(t.drop_last() =~= s.drop_last().update(i, true));
        lemma_count_update(s.drop_last(), i);
    }
}

proof fn lemma_count_bound(s: Seq<bool>)
    ensures
        count_true(s) <= s.len(),
    decreases s.len(),
{
    if s.len() > 0 {
        lemma_count_bound(s.drop_last());
    }
}

} // verus!
