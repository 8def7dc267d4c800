//! Classification of image paths by file extension.
use vstd::prelude::*;

verus! {

/// How a file is turned into derivatives.
#[derive(Clone, Copy, Debug, PartialEq, Eq, Structural)]
pub enum ImageKind {
    /// A raster image that is decoded and scaled down.
    Standard,
    /// A RAW container whose embedded previews are extracted.
    Raw,
}

/// Index of the last occurrence of `c` in `s`, if any.
pub open spec fn last_index_of(s: Seq<char>, c: char) -> Option<int>
    decreases s.len(),
{
    if s.len() == 0 {
        None
    } else if s.last() == c {
        Some(s.len() - 1)
    } else {
        last_index_of(s.drop_last(), c)
    }
}

/// `path` without its trailing separators and trailing `.` components,
/// which do not name a file.
pub open spec fn trim_end(path: Seq<char>) -> Seq<char>
    decreases path.len(),
{
    if path.len() > 0 && path.last() == '/' {
        trim_end(path.drop_last())
    } else if path.len() >= 2 && path.last() == '.' && path[path.len() - 2] == '/' {
        trim_end(path.drop_last())
    } else {
        path
    }
}

/// The final path component: everything after the last `/` once trailing
/// separators and `.` components are dropped.
pub open spec fn file_name(path: Seq<char>) -> Seq<char> {
    let t = trim_end(path);
    match last_index_of(t, '/') {
        Some(i) => t.subrange(i + 1, t.len() as int),
        None => t,
    }
}

/// The text after the last `.` of the file name, where that dot is not the
/// name's first character.
pub open spec fn extension(path: Seq<char>) -> Option<Seq<char>> {
    let name = file_name(path);
    match last_index_of(name, '.') {
        Some(i) => if i > 0 {
            Some(name.subrange(i + 1, name.len() as int))
        } else {
            None
        },
        None => None,
    }
}

/// ASCII upper-case letters folded to lower case, as code points.
pub open spec fn fold(c: char) -> u32 {
    if 65 <= c as u32 <= 90 {
        (c as u32 + 32) as u32
    } else {
        c as u32
    }
}

/// `s` equals the lower-case word `w`, ignoring ASCII case.
pub open spec fn same_word(s: Seq<char>, w: Seq<char>) -> bool {
    s.len() == w.len() && forall|i: int| 0 <= i < s.len() ==> fold(#[trigger] s[i]) == w[i] as u32
}

pub open spec fn is_raster_extension(e: Seq<char>) -> bool {
    same_word(e, seq!['j', 'p', 'g']) || same_word(e, seq!['j', 'p', 'e', 'g'])
        || same_word(e, seq!['p', 'n', 'g']) || same_word(e, seq!['g', 'i', 'f'])
        || same_word(e, seq!['b', 'm', 'p']) || same_word(e, seq!['w', 'e', 'b', 'p'])
}

pub open spec fn is_raw_extension(e: Seq<char>) -> bool {
    same_word(e, seq!['c', 'r', '2']) || same_word(e, seq!['n', 'e', 'f'])
        || same_word(e, seq!['a', 'r', 'w'])
}

/// How a raster image is encoded.
#[derive(Clone, Copy, Debug, PartialEq, Eq, Structural)]
pub enum RasterFormat {
    Jpeg,
    Png,
    Gif,
    Bmp,
    WebP,
}

/// The encoding named by the extension of a raster image.
pub open spec fn raster_format_of(path: Seq<char>) -> Option<RasterFormat> {
    match extension(path) {
        Some(e) => if same_word(e, seq!['j', 'p', 'g']) || same_word(e, seq!['j', 'p', 'e', 'g']) {
            Some(RasterFormat::Jpeg)
        } else if same_word(e, seq!['p', 'n', 'g']) {
            Some(RasterFormat::Png)
        } else if same_word(e, seq!['g', 'i', 'f']) {
            Some(RasterFormat::Gif)
        } else if same_word(e, seq!['b', 'm', 'p']) {
            Some(RasterFormat::Bmp)
        } else if same_word(e, seq!['w', 'e', 'b', 'p']) {
            Some(RasterFormat::WebP)
        } else {
            None
        },
        None => None,
    }
}

/// The kind of the file at `path`, or `None` where its extension is not one
/// that an album shows.
pub open spec fn kind_of(path: Seq<char>) -> Option<ImageKind> {
    match extension(path) {
        Some(e) => if is_raw_extension(e) {
            Some(ImageKind::Raw)
        } else if is_raster_extension(e) {
            Some(ImageKind::Standard)
        } else {
            None
        },
        None => None,
    }
}

/// Index of the last `c` among the first `end` characters of `s`.
fn find_last(s: &str, end: usize, c: char) -> (r: Option<usize>)
    requires
        end <= s@.len(),
    ensures
        r == (match last_index_of(s@.subrange(0, end as int), c) {
            Some(i) => Some(i as usize),
            None => None::<usize>,
        }),
        r matches Some(i) ==> i < end,
{
    let mut k: usize = end;
    while k > 0
        invariant
            k <= end <= s@.len(),
            last_index_of(s@.subrange(0, end as int), c) == last_index_of(s@.subrange(0, k as int), c),
        decreases k,
    {
        let ghost pre = s@.subrange(0, k as int);
        assert(pre.drop_last() =~= s@.subrange(0, k - 1));
        if s.get_char(k - 1) == c {
            return Some(k - 1);
        }
        k = k - 1;
    }
    None
}

/// The characters `s@[from..to]` equal `w` ignoring ASCII case.
fn word_at(s: &str, from: usize, to: usize, w: &Vec<char>) -> (r: bool)
    requires
        from <= to <= s@.len(),
    ensures
        r == same_word(s@.subrange(from as int, to as int), w@),
{
    let ghost e = s@.subrange(from as int, to as int);
    if to - from != w.len() {
        return false;
    }
    let mut j: usize = 0;
    while j < w.len()
        invariant
            from <= to <= s@.len(),
            to - from == w@.len(),
            e == s@.subrange(from as int, to as int),
            j <= w@.len(),
            forall|i: int| 0 <= i < j ==> fold(#[trigger] e[i]) == w@[i] as u32,
        decreases w@.len() - j,
    {
        let c = s.get_char(from + j) as u32;
        let f: u32 = if 65 <= c && c <= 90 { c + 32 } else { c };
        if f != w[j] as u32 {
            assert(fold(e[j as int]) != w@[j as int] as u32);
            return false;
        }
        j = j + 1;
    }
    true
}

/// Length of the prefix of `s` that `trim_end` keeps.
fn trimmed_len(s: &str) -> (r: usize)
    ensures
        r <= s@.len(),
        s@.subrange(0, r as int) == trim_end(s@),
{
    let mut end = s.unicode_len();
    assert(s@.subrange(0, end as int) =~= s@);
    while end > 0 && (s.get_char(end - 1) == '/' || (end >= 2 && s.get_char(end - 1) == '.' && s.get_char(end - 2) == '/'))
        invariant
            end <= s@.len(),
            trim_end(s@.subrange(0, end as int)) == trim_end(s@),
        decreases end,
    {
        assert(s@.subrange(0, end as int).drop_last() =~= s@.subrange(0, end - 1));
        end = end - 1;
    }
    end
}

/// Character range of the extension of `path`.
fn extension_range(path: &str) -> (r: Option<(usize, usize)>)
    ensures
        match extension(path@) {
            Some(e) => r matches Some((a, b)) && a <= b <= path@.len() && path@.subrange(a as int, b as int) == e,
            None => r is None,
        },
{
    let n = trimmed_len(path);
    let ghost t = trim_end(path@);
    proof {
        lemma_last_bound(t, '/');
    }
    let slash = find_last(path, n, '/');
    let start: usize = match slash {
        Some(i) => i + 1,
        None => 0,
    };
    let ghost name = file_name(path@);
    assert(name =~= path@.subrange(start as int, n as int));
    // The last dot of the kept prefix lies in the file name exactly when
    // it comes after the last separator.
    let dot_in_name: Option<usize> = match find_last(path, n, '.') {
        Some(d) => if d >= start { Some(d) } else { None },
        None => None,
    };
    proof {
        lemma_last_in_suffix(t, start as int, '.');
        lemma_last_bound(t, '.');
        lemma_last_bound(name, '.');
        assert(t.subrange(start as int, t.len() as int) =~= name);
        match dot_in_name {
            Some(d) => assert(last_index_of(name, '.') == Some(d - start)),
            None => assert(last_index_of(name, '.') is None),
        }
    }
    match dot_in_name {
        Some(d) => {
            if d == start {
                return None;
            }
            assert(name.subrange(d - start + 1, name.len() as int) =~= path@.subrange(d + 1, n as int));
            Some((d + 1, n))
        },
        None => None,
    }
}

/// The kind of the file at `path`, judged by its extension.
pub fn classify(path: &str) -> (r: Option<ImageKind>)
    ensures
        r == kind_of(path@),
{
    match extension_range(path) {
        None => None,
        Some((a, b)) => {
            if word_at(path, a, b, &vec!['c', 'r', '2']) || word_at(path, a, b, &vec!['n', 'e', 'f'])
                || word_at(path, a, b, &vec!['a', 'r', 'w']) {
                Some(ImageKind::Raw)
            } else if word_at(path, a, b, &vec!['j', 'p', 'g']) || word_at(path, a, b, &vec!['j', 'p', 'e', 'g'])
                || word_at(path, a, b, &vec!['p', 'n', 'g']) || word_at(path, a, b, &vec!['g', 'i', 'f'])
                || word_at(path, a, b, &vec!['b', 'm', 'p']) || word_at(path, a, b, &vec!['w', 'e', 'b', 'p']) {
                Some(ImageKind::Standard)
            } else {
                None
            }
        },
    }
}

/// The encoding of the raster image at `path`, judged by its extension.
pub fn raster_format(path: &str) -> (r: Option<RasterFormat>)
    ensures
        r == raster_format_of(path@),
{
    match extension_range(path) {
        None => None,
        Some((a, b)) => {
            if word_at(path, a, b, &vec!['j', 'p', 'g']) || word_at(path, a, b, &vec!['j', 'p', 'e', 'g']) {
                Some(RasterFormat::Jpeg)
            } else if word_at(path, a, b, &vec!['p', 'n', 'g']) {
                Some(RasterFormat::Png)
            } else if word_at(path, a, b, &vec!['g', 'i', 'f']) {
                Some(RasterFormat::Gif)
            } else if word_at(path, a, b, &vec!['b', 'm', 'p']) {
                Some(RasterFormat::Bmp)
            } else if word_at(path, a, b, &vec!['w', 'e', 'b', 'p']) {
                Some(RasterFormat::WebP)
            } else {
                None
            }
        },
    }
}

/// The last `c` of `s` lies at or after `start` exactly when `s[start..]`
/// holds a `c`, and then at the same place.
proof fn lemma_last_in_suffix(s: Seq<char>, start: int, c: char)
    requires
        0 <= start <= s.len(),
    ensures
        match last_index_of(s.subrange(start, s.len() as int), c) {
            Some(j) => last_index_of(s, c) == Some(j + start),
            None => last_index_of(s, c) matches None || last_index_of(s, c).unwrap() < start,
        },
    decreases s.len(),
{
    let t = s.subrange(start, s.len() as int);
    if s.len() == start {
        assert(t.len() == 0);
        lemma_last_bound(s, c);
    } else {
        assert(t.drop_last() =~= s.drop_last().subrange(start, s.len() - 1));
        if s.last() != c {
            lemma_last_in_suffix(s.drop_last(), start, c);
        }
    }
}

proof fn lemma_last_bound(s: Seq<char>, c: char)
    ensures
        last_index_of(s, c) matches Some(i) ==> 0 <= i < s.len(),
    decreases s.len(),
{
    if s.len() > 0 && s.last() != c {
        lemma_last_bound(s.drop_last(), c);
    }
}

/// Whether the file at `path` is one that an album shows.
pub fn is_image(path: &str) -> (r: bool)
    ensures
        r == (kind_of(path@) is Some),
{
    classify(path).is_some()
}

} // verus!
