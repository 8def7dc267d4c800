//! Cache layout: the two tier directories, the cache path of an original,
//! and what has to be generated for it.
use vstd::prelude::*;
use crate::classify::{classify, kind_of, ImageKind};
use crate::fingerprint::{fingerprint, fingerprint_of, is_hex_digit, lemma_hex_digits};
use crate::text::{lemma_replace_absent, lemma_replace_concat, occurs_at, replace_all, replace_text};

verus! {

/// Directory segment of the thumbnail tier.
pub open spec fn thumbnails_segment() -> Seq<char> {
    seq!['t', 'h', 'u', 'm', 'b', 'n', 'a', 'i', 'l', 's']
}

/// Directory segment of the preview tier. It is named `rawpreview`, not
/// `previews`, because only RAW originals have previews; existing caches
/// keep their layout.
pub open spec fn previews_segment() -> Seq<char> {
    seq!['r', 'a', 'w', 'p', 'r', 'e', 'v', 'i', 'e', 'w']
}

/// `name` placed under `dir`, with one separator between them.
pub open spec fn join(dir: Seq<char>, name: Seq<char>) -> Seq<char> {
    if dir.len() == 0 || dir.last() == '/' {
        dir + name
    } else {
        dir + seq!['/'] + name
    }
}

/// The file name of a cache entry for the original at `path`.
pub open spec fn cache_file_name(path: Seq<char>) -> Seq<char> {
    fingerprint_of(path) + seq!['.', 'j', 'p', 'g']
}

/// `name` placed under `dir`, with one separator between them.
pub fn join_path(dir: &str, name: &str) -> (r: String)
    ensures
        r@ == join(dir@, name@),
{
    let mut out = String::from_str(dir);
    let n = dir.unicode_len();
    if n > 0 && dir.get_char(n - 1) != '/' {
        out.append("/");
        proof {
            reveal_strlit("/");
        }
    }
    out.append(name);
    proof {
        if n > 0 && dir@.last() != '/' {
            assert(out@ =~= dir@ + seq!['/'] + name@);
        }
    }
    out
}

/// The two tier directories under one cache root.
pub struct CacheDirs {
    pub thumbnail_dir: String,
    pub preview_dir: String,
}

impl CacheDirs {
    /// The tier directories under `cache_root`.
    pub fn under(cache_root: &str) -> (r: CacheDirs)
        ensures
            r.thumbnail_dir@ == join(cache_root@, thumbnails_segment()),
            r.preview_dir@ == join(cache_root@, previews_segment()),
    {
        proof {
            reveal_strlit("thumbnails");
            reveal_strlit("rawpreview");
        }
        let thumbnail_dir = join_path(cache_root, "thumbnails");
        let preview_dir = join_path(cache_root, "rawpreview");
        assert("thumbnails"@ =~= thumbnails_segment());
        assert("rawpreview"@ =~= previews_segment());
        CacheDirs { thumbnail_dir, preview_dir }
    }
}

/// The file name of the cache entry for the original at `path`.
pub fn cache_name(path: &str) -> (r: String)
    ensures
        r@ == cache_file_name(path@),
{
    let mut name = fingerprint(path);
    name.append(".jpg");
    proof {
        reveal_strlit(".jpg");
        assert(".jpg"@ =~= seq!['.', 'j', 'p', 'g']);
    }
    name
}

/// The preview-tier path that belongs to a thumbnail-tier path.
pub open spec fn preview_path_of(thumbnail_path: Seq<char>) -> Seq<char> {
    replace_all(thumbnail_path, thumbnails_segment(), previews_segment())
}

/// The thumbnail-tier path that belongs to a preview-tier path.
pub open spec fn thumbnail_path_of(preview_path: Seq<char>) -> Seq<char> {
    replace_all(preview_path, previews_segment(), thumbnails_segment())
}

/// The preview-tier path that belongs to `thumbnail_path`: every
/// `thumbnails` segment replaced by `rawpreview`.
pub fn get_preview_path_by_thumbnail(thumbnail_path: &str) -> (r: String)
    ensures
        r@ == preview_path_of(thumbnail_path@),
{
    proof {
        reveal_strlit("thumbnails");
        reveal_strlit("rawpreview");
        assert("thumbnails"@ =~= thumbnails_segment());
        assert("rawpreview"@ =~= previews_segment());
    }
    replace_text(thumbnail_path, "thumbnails", "rawpreview")
}

/// The thumbnail-tier path that belongs to `preview_path`.
pub fn get_thumbnail_path_by_preview(preview_path: &str) -> (r: String)
    ensures
        r@ == thumbnail_path_of(preview_path@),
{
    proof {
        reveal_strlit("thumbnails");
        reveal_strlit("rawpreview");
        assert("thumbnails"@ =~= thumbnails_segment());
        assert("rawpreview"@ =~= previews_segment());
    }
    replace_text(preview_path, "rawpreview", "thumbnails")
}

/// What has to be produced for one original on a cache miss.
pub enum Generation {
    /// Decode the raster original and write its thumbnail to `target`.
    Decode { target: String },
    /// Extract the embedded previews of a RAW original: the smallest goes
    /// to `thumbnail_target`, the largest to `preview_target`.
    ExtractRaw { thumbnail_target: String, preview_target: String },
}

/// The cache path of one original and the work that fills it.
pub struct ThumbnailPlan {
    /// Where the thumbnail of the original lives; its existence is the
    /// cache hit.
    pub thumbnail_path: String,
    pub generation: Generation,
}

/// The generation that fills the cache for `original` under `dirs`.
pub open spec fn generation_matches(dirs: CacheDirs, original: Seq<char>, g: Generation) -> bool {
    let name = cache_file_name(original);
    match g {
        Generation::Decode { target } => kind_of(original) != Some(ImageKind::Raw)
            && target@ == join(dirs.thumbnail_dir@, name),
        Generation::ExtractRaw { thumbnail_target, preview_target } =>
            kind_of(original) == Some(ImageKind::Raw)
            && preview_target@ == join(dirs.preview_dir@, name)
            && thumbnail_target@ == thumbnail_path_of(preview_target@),
    }
}

/// The plan for `original` under `dirs`.
pub open spec fn plan_matches(dirs: CacheDirs, original: Seq<char>, p: ThumbnailPlan) -> bool {
    &&& p.thumbnail_path@ == join(dirs.thumbnail_dir@, cache_file_name(original))
    &&& generation_matches(dirs, original, p.generation)
}

/// Plans the cache entry of `original`: RAW originals are extracted, every
/// other file is decoded as a raster image.
pub fn plan_thumbnail(dirs: &CacheDirs, original: &str) -> (r: ThumbnailPlan)
    ensures
        plan_matches(*dirs, original@, r),
{
    let name = cache_name(original);
    let thumbnail_path = join_path(dirs.thumbnail_dir.as_str(), name.as_str());
    let generation = match classify(original) {
        Some(ImageKind::Raw) => {
            let preview_target = join_path(dirs.preview_dir.as_str(), name.as_str());
            let thumbnail_target = get_thumbnail_path_by_preview(preview_target.as_str());
            Generation::ExtractRaw { thumbnail_target, preview_target }
        },
        _ => Generation::Decode { target: join_path(dirs.thumbnail_dir.as_str(), name.as_str()) },
    };
    ThumbnailPlan { thumbnail_path, generation }
}

impl ThumbnailPlan {
    /// The work to do given whether the thumbnail already exists: none on a
    /// hit, the planned generation on a miss.
    pub fn into_work(self, cached: bool) -> (r: Option<Generation>)
        ensures
            cached ==> r is None,
            !cached ==> r == Some(self.generation),
    {
        if cached {
            None
        } else {
            Some(self.generation)
        }
    }
}

/// The cache paths a generation writes.
pub open spec fn targets(g: Generation) -> Seq<Seq<char>> {
    match g {
        Generation::Decode { target } => seq![target@],
        Generation::ExtractRaw { thumbnail_target, preview_target } => seq![thumbnail_target@, preview_target@],
    }
}

/// A second request for the same original finds the same cache path and
/// plans the same writes, so once that path exists nothing is decoded or
/// extracted again (see `ThumbnailPlan::into_work`).
pub proof fn generation_is_idempotent(dirs: CacheDirs, original: Seq<char>, first: ThumbnailPlan, second: ThumbnailPlan)
    requires
        plan_matches(dirs, original, first),
        plan_matches(dirs, original, second),
    ensures
        first.thumbnail_path@ == second.thumbnail_path@,
        targets(first.generation) == targets(second.generation),
{
}

/// With the cache emptied, every eligible original is generated again:
/// its thumbnail path is missing, so the work is its planned generation,
/// an extraction for a RAW original and, for a raster one, a decode that
/// writes exactly that thumbnail path.
pub proof fn empty_cache_regenerates(dirs: CacheDirs, original: Seq<char>, p: ThumbnailPlan)
    requires
        plan_matches(dirs, original, p),
        kind_of(original) is Some,
    ensures
        kind_of(original) == Some(ImageKind::Raw) ==> p.generation is ExtractRaw,
        kind_of(original) == Some(ImageKind::Standard) ==> (p.generation matches Generation::Decode { target }
            && target@ == p.thumbnail_path@),
{
}

proof fn lemma_segment_chars()
    ensures
        thumbnails_segment().len() == 10,
        thumbnails_segment()[0] == 't',
        thumbnails_segment().last() == 's',
        previews_segment().last() == 'w',
        forall|k: int| 0 <= k < 10 ==> #[trigger] thumbnails_segment()[k] != '/',
        forall|k: int| 1 <= k < 10 ==> #[trigger] thumbnails_segment()[k] != 't',
{
    let t = thumbnails_segment();
    assert(t[0] == 't' && t[1] == 'h' && t[2] == 'u' && t[3] == 'm' && t[4] == 'b');
    assert(t[5] == 'n' && t[6] == 'a' && t[7] == 'i' && t[8] == 'l' && t[9] == 's');
}

/// No character of the file name of a cache entry is a `t`.
proof fn lemma_cache_name_chars(original: Seq<char>)
    ensures
        forall|i: int| 0 <= i < cache_file_name(original).len() ==> #[trigger] cache_file_name(original)[i] != 't',
{
    let f = fingerprint_of(original);
    let n = cache_file_name(original);
    crate::fingerprint::lemma_hex_digits(crate::fingerprint::md5_of(vstd::utf8::encode_utf8(original)));
    assert forall|i: int| 0 <= i < n.len() implies #[trigger] n[i] != 't' by {
        if i < f.len() {
            assert(n[i] == f[i]);
            assert(is_hex_digit(f[i]));
        }
    }
}

/// For the cache tiers under a root that does not itself hold the
/// `thumbnails` segment, the preview path derived from a RAW original's
/// thumbnail path is exactly the preview-tier path that its extraction
/// writes.
pub proof fn preview_path_of_raw_thumbnail(root: Seq<char>, dirs: CacheDirs, original: Seq<char>, p: ThumbnailPlan)
    requires
        dirs.thumbnail_dir@ == join(root, thumbnails_segment()),
        dirs.preview_dir@ == join(root, previews_segment()),
        forall|i: int| !occurs_at(root, thumbnails_segment(), i),
        plan_matches(dirs, original, p),
        kind_of(original) == Some(ImageKind::Raw),
    ensures
        p.generation matches Generation::ExtractRaw { preview_target, .. }
            && preview_path_of(p.thumbnail_path@) == preview_target@,
{
    let th = thumbnails_segment();
    let rp = previews_segment();
    let name = cache_file_name(original);
    lemma_segment_chars();
    lemma_cache_name_chars(original);
    let a = if root.len() == 0 || root.last() == '/' { root } else { root + seq!['/'] };
    let b = seq!['/'] + name;
    assert(join(root, th) =~= a + th);
    assert(join(root, rp) =~= a + rp);
    assert((a + th).last() == 's');
    assert((a + rp).last() == 'w');
    assert(p.thumbnail_path@ =~= a + (th + b));
    // No occurrence in `a`.
    assert forall|i: int| !occurs_at(a, th, i) by {
        if occurs_at(a, th, i) && a != root {
            if i + 10 <= root.len() {
                assert(root.subrange(i, i + 10) =~= a.subrange(i, i + 10));
                assert(occurs_at(root, th, i));
            } else {
                let k = root.len() - i;
                assert(a.subrange(i, i + 10)[k] == a[root.len() as int]);
            }
        }
    }
    lemma_replace_absent(a, th, rp);
    // No occurrence straddles `a` and what follows it.
    assert forall|i: int| 0 <= i < a.len() && i + th.len() > a.len() implies !occurs_at(a + (th + b), th, i) by {
        if occurs_at(a + (th + b), th, i) {
            let k = a.len() - i;
            assert((a + (th + b)).subrange(i, i + 10)[k] == (a + (th + b))[a.len() as int]);
        }
    }
    lemma_replace_concat(a, th + b, th, rp);
    // `th + b` holds the segment once, at its start.
    assert((th + b).subrange(0, 10) =~= th);
    assert((th + b).subrange(10, (th + b).len() as int) =~= b);
    assert forall|i: int| !occurs_at(b, th, i) by {
        if occurs_at(b, th, i) {
            assert(b.subrange(i, i + 10)[0] == b[i]);
            if i > 0 {
                assert(b[i] == name[i - 1]);
            }
        }
    }
    lemma_replace_absent(b, th, rp);
    assert(replace_all(th + b, th, rp) == rp + b);
    assert(a + (rp + b) =~= join(join(root, rp), name));
}

} // verus!
