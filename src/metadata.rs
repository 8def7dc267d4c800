//! Flat tag-to-value metadata of a single file.
use vstd::prelude::*;
use crate::classify::{classify, kind_of, ImageKind};

verus! {

#[verifier::external_type_specification]
#[verifier::external_body]
pub struct ExExifError(rexif::ExifError);

/// The EXIF entries of an encoded image as (tag name, readable value)
/// pairs in the order the file holds them, or `None` where the EXIF block
/// cannot be parsed.
pub uninterp spec fn exif_of(data: Seq<u8>) -> Option<Seq<(Seq<char>, Seq<char>)>>;

/// The text of each pair.
pub open spec fn pairs_view(v: Seq<(String, String)>) -> Seq<(Seq<char>, Seq<char>)> {
    v.map_values(|p: (String, String)| (p.0@, p.1@))
}

/// Relies on rexif::parse_buffer_quiet: each entry becomes the name of its tag
/// and its `value_more_readable` text; the outcome depends on the bytes
/// alone.
#[verifier::external_body]
fn parse_exif(data: &[u8]) -> (r: Result<Vec<(String, String)>, rexif::ExifError>)
    ensures
        r is Ok <==> exif_of(data@) is Some,
        r matches Ok(v) ==> pairs_view(v@) == exif_of(data@).unwrap(),
{
    rexif::parse_buffer_quiet(data).0.map(
        |d| d.entries.iter().map(|e| (format!("{:?}", e.tag), e.value_more_readable.to_string())).collect(),
    )
}

/// Relies on the `Display` text of rexif::ExifError.
#[verifier::external_body]
fn exif_error_text(e: &rexif::ExifError) -> String {
    e.to_string()
}

/// Tag names mapped to values; where a tag comes twice, the later value
/// stands.
pub open spec fn flatten(pairs: Seq<(Seq<char>, Seq<char>)>) -> Map<Seq<char>, Seq<char>>
    decreases pairs.len(),
{
    if pairs.len() == 0 {
        Map::empty()
    } else {
        flatten(pairs.drop_last()).insert(pairs.last().0, pairs.last().1)
    }
}

/// Metadata of one file: the entries as read, looked up with the later of
/// two equal tags winning.
pub struct MetadataMap {
    pub entries: Vec<(String, String)>,
}

impl View for MetadataMap {
    type V = Map<Seq<char>, Seq<char>>;

    open spec fn view(&self) -> Map<Seq<char>, Seq<char>> {
        flatten(pairs_view(self.entries@))
    }
}

/// Decides `a@ == b@`.
fn same_text(a: &str, b: &str) -> (r: bool)
    ensures
        r == (a@ == b@),
{
    let n = a.unicode_len();
    if n != b.unicode_len() {
        return false;
    }
    let mut i: usize = 0;
    while i < n
        invariant
            n == a@.len(),
            n == b@.len(),
            i <= n,
            forall|j: int| 0 <= j < i ==> a@[j] == b@[j],
        decreases n - i,
    {
        if a.get_char(i) != b.get_char(i) {
            return false;
        }
        i = i + 1;
    }
    assert(a@ =~= b@);
    true
}

proof fn lemma_flatten_prefix(p: Seq<(Seq<char>, Seq<char>)>, i: int, k: Seq<char>)
    requires
        0 <= i <= p.len(),
        forall|j: int| i <= j < p.len() ==> (#[trigger] p[j]).0 != k,
    ensures
        flatten(p).contains_key(k) == flatten(p.subrange(0, i)).contains_key(k),
        flatten(p)[k] == flatten(p.subrange(0, i))[k],
    decreases p.len() - i,
{
    if i < p.len() {
        assert(p.drop_last().subrange(0, i) =~= p.subrange(0, i));
        lemma_flatten_prefix(p.drop_last(), i, k);
    } else {
        assert(p.subrange(0, i) =~= p);
    }
}

impl MetadataMap {
    /// The metadata formed by `pairs`.
    pub fn from_pairs(pairs: Vec<(String, String)>) -> (r: MetadataMap)
        ensures
            r@ == flatten(pairs_view(pairs@)),
    {
        MetadataMap { entries: pairs }
    }

    /// An empty mapping.
    pub fn new() -> (r: MetadataMap)
        ensures
            r@ == Map::<Seq<char>, Seq<char>>::empty(),
    {
        MetadataMap { entries: Vec::new() }
    }

    /// The value of `tag`, if it is present.
    pub fn get(&self, tag: &str) -> (r: Option<&str>)
        ensures
            r is Some <==> self@.contains_key(tag@),
            r matches Some(v) ==> v@ == self@[tag@],
    {
        let ghost p = pairs_view(self.entries@);
        let mut i: usize = self.entries.len();
        while i > 0
            invariant
                i <= self.entries@.len(),
                p == pairs_view(self.entries@),
                forall|j: int| i <= j < p.len() ==> (#[trigger] p[j]).0 != tag@,
            decreases i,
        {
            let e = &self.entries[i - 1];
            if same_text(e.0.as_str(), tag) {
                proof {
                    lemma_flatten_prefix(p, i as int, tag@);
                    assert(p.subrange(0, i as int).drop_last() =~= p.subrange(0, i - 1));
                }
                return Some(e.1.as_str());
            }
            i = i - 1;
        }
        proof {
            lemma_flatten_prefix(p, 0, tag@);
            assert(p.subrange(0, 0) =~= Seq::<(Seq<char>, Seq<char>)>::empty());
        }
        None
    }

    /// The entries as read, in file order.
    pub fn entries(&self) -> (r: &Vec<(String, String)>)
        ensures
            flatten(pairs_view(r@)) == self@,
    {
        &self.entries
    }
}

/// The header fields of a RAW container.
pub struct RawHeader {
    pub make: String,
    pub model: String,
    pub width: u32,
    pub height: u32,
}

/// Decimal digits of `n`, most significant first, without leading zeros.
pub open spec fn decimal(n: nat) -> Seq<char>
    decreases n,
{
    if n < 10 {
        seq![digit_char(n)]
    } else {
        decimal(n / 10) + seq![digit_char(n % 10)]
    }
}

pub open spec fn digit_char(d: nat) -> char {
    seq!['0', '1', '2', '3', '4', '5', '6', '7', '8', '9'][d as int]
}

/// The decimal text of `n`.
pub fn decimal_text(n: u32) -> (r: String)
    ensures
        r@ == decimal(n as nat),
    decreases n,
{
    let digits = "0123456789";
    proof {
        reveal_strlit("0123456789");
    }
    let d = (n % 10) as usize;
    let last = digits.substring_char(d, d + 1);
    assert(last@ =~= seq![digit_char((n % 10) as nat)]);
    if n < 10 {
        String::from_str(last)
    } else {
        let mut out = decimal_text(n / 10);
        out.append(last);
        out
    }
}

/// The names under which the header fields of a RAW container are listed.
pub open spec fn make_tag() -> Seq<char> {
    seq!['M', 'a', 'k', 'e']
}

pub open spec fn model_tag() -> Seq<char> {
    seq!['M', 'o', 'd', 'e', 'l']
}

pub open spec fn width_tag() -> Seq<char> {
    seq!['W', 'i', 'd', 't', 'h']
}

pub open spec fn height_tag() -> Seq<char> {
    seq!['H', 'e', 'i', 'g', 'h', 't']
}

/// The metadata listed for a RAW header: make, model, width and height.
pub open spec fn header_pairs(h: RawHeader) -> Seq<(Seq<char>, Seq<char>)> {
    seq![
        (make_tag(), h.make@),
        (model_tag(), h.model@),
        (width_tag(), decimal(h.width as nat)),
        (height_tag(), decimal(h.height as nat)),
    ]
}

/// The metadata of a RAW container, from its header fields.
pub fn raw_metadata(header: RawHeader) -> (r: MetadataMap)
    ensures
        r@ == flatten(header_pairs(header)),
        r@.contains_key(make_tag()) && r@[make_tag()] == header.make@,
        r@.contains_key(model_tag()) && r@[model_tag()] == header.model@,
        r@.contains_key(width_tag()) && r@[width_tag()] == decimal(header.width as nat),
        r@.contains_key(height_tag()) && r@[height_tag()] == decimal(header.height as nat),
{
    proof {
        reveal_strlit("Make");
        reveal_strlit("Model");
        reveal_strlit("Width");
        reveal_strlit("Height");
        assert("Make"@ =~= make_tag());
        assert("Model"@ =~= model_tag());
        assert("Width"@ =~= width_tag());
        assert("Height"@ =~= height_tag());
    }
    let ghost h = header_pairs(header);
    let width = decimal_text(header.width);
    let height = decimal_text(header.height);
    let mut entries: Vec<(String, String)> = Vec::new();
    entries.push((String::from_str("Make"), header.make));
    entries.push((String::from_str("Model"), header.model));
    entries.push((String::from_str("Width"), width));
    entries.push((String::from_str("Height"), height));
    assert(pairs_view(entries@) =~= h);
    proof {
        assert(h.drop_last().drop_last().drop_last().drop_last() =~= Seq::<(Seq<char>, Seq<char>)>::empty());
        assert(h.drop_last().drop_last().drop_last().last() == (make_tag(), header.make@));
        assert(h.drop_last().drop_last().last() == (model_tag(), header.model@));
        assert(h.drop_last().last() == (width_tag(), decimal(header.width as nat)));
        assert(h.last() == (height_tag(), decimal(header.height as nat)));
        assert(make_tag() != model_tag() && make_tag() != width_tag() && make_tag() != height_tag());
        assert(model_tag() != width_tag() && model_tag() != height_tag() && width_tag() != height_tag());
        reveal_with_fuel(flatten, 5);
    }
    MetadataMap { entries }
}

/// Why the metadata of a file could not be read.
pub enum MetadataError {
    /// The EXIF block could not be parsed.
    Parse { message: String },
}

/// The metadata of the file at `path`: for a raster image, the flattened
/// EXIF entries of its contents `contents`; for a RAW container, the fields
/// of its header as read by the caller (`None` where it could not be read).
pub fn image_metadata(path: &str, contents: &[u8], raw_header: Option<RawHeader>) -> (r: Result<MetadataMap, MetadataError>)
    ensures
        kind_of(path@) == Some(ImageKind::Raw) ==> match raw_header {
            Some(h) => r matches Ok(m) && m@ == flatten(header_pairs(h)),
            None => r is Err,
        },
        kind_of(path@) != Some(ImageKind::Raw) ==> (r is Ok <==> exif_of(contents@) is Some),
        kind_of(path@) != Some(ImageKind::Raw) ==> (r matches Ok(m) ==> m@ == flatten(exif_of(contents@).unwrap())),
{
    match classify(path) {
        Some(ImageKind::Raw) => match raw_header {
            Some(h) => Ok(raw_metadata(h)),
            None => Err(MetadataError::Parse { message: String::from_str("unreadable RAW header") }),
        },
        _ => match parse_exif(contents) {
            Ok(pairs) => Ok(MetadataMap::from_pairs(pairs)),
            Err(e) => Err(MetadataError::Parse { message: exif_error_text(&e) }),
        },
    }
}

} // verus!
