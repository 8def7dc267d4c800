//! Selection of the embedded previews of a RAW container for the two cache
//! tiers.
use vstd::prelude::*;

use crate::error::GenerationError;

verus! {

/// A pre-rendered image stored inside a RAW container.
pub struct EmbeddedPreview {
    pub width: u32,
    pub height: u32,
    /// The encoded image, as stored in the container.
    pub data: Vec<u8>,
}

/// Pixel area of a preview.
pub open spec fn area(p: EmbeddedPreview) -> int {
    p.width as int * p.height as int
}

/// `i` is the first preview of least area.
pub open spec fn is_first_smallest(s: Seq<EmbeddedPreview>, i: int) -> bool {
    &&& 0 <= i < s.len()
    &&& forall|j: int| 0 <= j < s.len() ==> area(s[i]) <= area(#[trigger] s[j])
    &&& forall|j: int| 0 <= j < i ==> area(#[trigger] s[j]) > area(s[i])
}

/// `i` is the first preview of greatest area.
pub open spec fn is_first_largest(s: Seq<EmbeddedPreview>, i: int) -> bool {
    &&& 0 <= i < s.len()
    &&& forall|j: int| 0 <= j < s.len() ==> area(s[i]) >= area(#[trigger] s[j])
    &&& forall|j: int| 0 <= j < i ==> area(#[trigger] s[j]) < area(s[i])
}

fn area_of(p: &EmbeddedPreview) -> (r: u64)
    ensures
        r as int == area(*p),
{
    proof {
        vstd::arithmetic::mul::lemma_mul_upper_bound(p.width as int, 0xffff_ffff, p.height as int, 0xffff_ffff);
    }
    (p.width as u64) * (p.height as u64)
}

/// Indices of the first smallest and the first largest preview, or `None`
/// where there is none.
pub fn select_previews(previews: &Vec<EmbeddedPreview>) -> (r: Option<(usize, usize)>)
    ensures
        previews@.len() == 0 <==> r is None,
        r matches Some((small, large)) ==> is_first_smallest(previews@, small as int)
            && is_first_largest(previews@, large as int),
{
    if previews.len() == 0 {
        return None;
    }
    let mut small: usize = 0;
    let mut large: usize = 0;
    let mut small_area = area_of(&previews[0]);
    let mut large_area = small_area;
    let mut i: usize = 1;
    while i < previews.len()
        invariant
            1 <= i <= previews@.len(),
            small < i,
            large < i,
            small_area as int == area(previews@[small as int]),
            large_area as int == area(previews@[large as int]),
            forall|j: int| 0 <= j < i ==> area(previews@[small as int]) <= area(#[trigger] previews@[j]),
            forall|j: int| 0 <= j < small ==> area(#[trigger] previews@[j]) > area(previews@[small as int]),
            forall|j: int| 0 <= j < i ==> area(previews@[large as int]) >= area(#[trigger] previews@[j]),
            forall|j: int| 0 <= j < large ==> area(#[trigger] previews@[j]) < area(previews@[large as int]),
        decreases previews@.len() - i,
    {
        let a = area_of(&previews[i]);
        if a < small_area {
            small = i;
            small_area = a;
        }
        if a > large_area {
            large = i;
            large_area = a;
        }
        i = i + 1;
    }
    Some((small, large))
}

/// The payloads that go to the two tiers.
pub struct TierPayloads {
    /// The smallest preview, for the thumbnail tier.
    pub thumbnail: Vec<u8>,
    /// The largest preview, for the preview tier.
    pub preview: Vec<u8>,
}

/// Splits the previews of one container between the tiers: the first
/// smallest goes to the thumbnail tier and the first largest to the preview
/// tier. `None` where the container holds no preview.
pub fn split_previews(previews: &Vec<EmbeddedPreview>) -> (r: Option<TierPayloads>)
    ensures
        previews@.len() == 0 <==> r is None,
        r matches Some(t) ==> exists|s: int, l: int|
            is_first_smallest(previews@, s) && is_first_largest(previews@, l)
            && t.thumbnail@ == previews@[s].data@ && t.preview@ == previews@[l].data@,
{
    match select_previews(previews) {
        None => None,
        Some((s, l)) => {
            let thumbnail = previews[s].data.clone();
            let preview = previews[l].data.clone();
            assert(is_first_smallest(previews@, s as int) && is_first_largest(previews@, l as int)
                && thumbnail@ == previews@[s as int].data@ && preview@ == previews@[l as int].data@);
            Some(TierPayloads { thumbnail, preview })
        },
    }
}

/// Of two previews of different areas, the smaller goes to the thumbnail
/// tier and the larger to the preview tier, whatever their order in the
/// container; a single preview goes to both.
pub proof fn tiers_of_two_previews(s: Seq<EmbeddedPreview>, a: int, b: int)
    requires
        1 <= s.len() <= 2,
        0 <= a < s.len(),
        0 <= b < s.len(),
        s.len() == 2 ==> a != b && area(s[a]) < area(s[b]),
        s.len() == 1 ==> a == 0 && b == 0,
    ensures
        forall|i: int| is_first_smallest(s, i) <==> i == a,
        forall|i: int| is_first_largest(s, i) <==> i == b,
{
    assert forall|i: int| is_first_smallest(s, i) <==> i == a by {
        if i == a {
            assert forall|j: int| 0 <= j < s.len() implies area(s[i]) <= area(#[trigger] s[j]) by {
                if s.len() == 2 && j != a {
                    assert(j == b);
                }
            }
        }
        if is_first_smallest(s, i) && i != a {
            assert(area(s[i]) <= area(s[a]));
        }
    }
    assert forall|i: int| is_first_largest(s, i) <==> i == b by {
        if i == b {
            assert forall|j: int| 0 <= j < s.len() implies area(s[i]) >= area(#[trigger] s[j]) by {
                if s.len() == 2 && j != b {
                    assert(j == a);
                }
            }
        }
        if is_first_largest(s, i) && i != b {
            assert(area(s[i]) >= area(s[b]));
        }
    }
}

} // verus!

verus! {

/// The payloads for the two tiers of the RAW original at `original`, or an
/// extraction error naming it where the container holds no preview.
pub fn tier_payloads(original: &str, previews: &Vec<EmbeddedPreview>) -> (r: Result<TierPayloads, GenerationError>)
    ensures
        previews@.len() == 0 <==> (r matches Err(GenerationError::Extraction { path }) && path@ == original@),
        previews@.len() > 0 ==> r is Ok,
        r matches Ok(t) ==> exists|s: int, l: int|
            is_first_smallest(previews@, s) && is_first_largest(previews@, l)
            && t.thumbnail@ == previews@[s].data@ && t.preview@ == previews@[l].data@,
{
    match split_previews(previews) {
        Some(t) => Ok(t),
        None => Err(GenerationError::Extraction { path: String::from_str(original) }),
    }
}

} // verus!
