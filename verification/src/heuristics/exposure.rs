//! Exposure detection via histogram analysis.
//!
//! Clipping thresholds:
//!   Under-exposed : more than 5 % of pixels below 30  (shadow clipping)
//!   Over-exposed  : more than 5 % of pixels above 225 (highlight clipping)
//! Shadow clipping is checked first.  The fraction test `k / n > 1/20` is
//! decided exactly as `20 · k > n`.
use vstd::multiset::Multiset;
use vstd::prelude::*;

verus! {

/// Pixels darker than this are clipped shadows.
pub const SHADOW_CLIP: u8 = 30;

/// Pixels brighter than this are clipped highlights.
pub const HIGHLIGHT_CLIP: u8 = 225;

/// More than one pixel in this many clipped counts as badly exposed (5 %).
pub const CLIP_DENOMINATOR: u64 = 20;

/// Exposure assessment of an image.
#[derive(PartialEq, Eq, Structural, Clone, Copy, Debug)]
pub enum Exposure {
    Normal,
    Underexposed,
    Overexposed,
}

impl Exposure {
    /// The text naming the assessment.
    pub open spec fn label_view(self) -> Seq<char> {
        match self {
            Exposure::Normal => "normal"@,
            Exposure::Underexposed => "underexposed"@,
            Exposure::Overexposed => "overexposed"@,
        }
    }

    /// Returns "normal", "underexposed" or "overexposed".
    pub fn label(&self) -> (r: &'static str)
        ensures
            r@ == self.label_view(),
    {
        match self {
            Exposure::Normal => "normal",
            Exposure::Underexposed => "underexposed",
            Exposure::Overexposed => "overexposed",
        }
    }
}

/// Number of pixels of `s` below `SHADOW_CLIP`.
pub open spec fn count_dark(s: Seq<u8>) -> int
    decreases s.len(),
{
    if s.len() == 0 {
        0
    } else {
        count_dark(s.drop_last()) + if s.last() < SHADOW_CLIP {
            1int
        } else {
            0int
        }
    }
}

/// Number of pixels of `s` above `HIGHLIGHT_CLIP`.
pub open spec fn count_bright(s: Seq<u8>) -> int
    decreases s.len(),
{
    if s.len() == 0 {
        0
    } else {
        count_bright(s.drop_last()) + if s.last() > HIGHLIGHT_CLIP {
            1int
        } else {
            0int
        }
    }
}

/// The exposure of a grayscale image given by its pixels.
pub open spec fn exposure_class(s: Seq<u8>) -> Exposure {
    if s.len() == 0 {
        Exposure::Normal
    } else if CLIP_DENOMINATOR * count_dark(s) > s.len() {
        Exposure::Underexposed
    } else if CLIP_DENOMINATOR * count_bright(s) > s.len() {
        Exposure::Overexposed
    } else {
        Exposure::Normal
    }
}

/// Classifies the exposure of a grayscale image.
pub fn classify_exposure(gray_u8: &[u8]) -> (r: Exposure)
    ensures
        r == exposure_class(gray_u8@),
{
    let n: usize = gray_u8.len();
    if n == 0 {
        return Exposure::Normal;
    }
    let mut dark: usize = 0;
    let mut bright: usize = 0;
    let mut i: usize = 0;
    while i < n
        invariant
            n == gray_u8@.len(),
            i <= n,
            dark == count_dark(gray_u8@.take(i as int)),
            bright == count_bright(gray_u8@.take(i as int)),
            dark <= i,
            bright <= i,
        decreases n - i,
    {
        proof {
            assert(gray_u8@.take(i + 1).drop_last() =~= gray_u8@.take(i as int));
        }
        let p: u8 = gray_u8[i];
        if p < SHADOW_CLIP {
            dark = dark + 1;
        }
        if p > HIGHLIGHT_CLIP {
            bright = bright + 1;
        }
        i = i + 1;
    }
    proof {
        assert(gray_u8@.take(n as int) =~= gray_u8@);
    }
    if (CLIP_DENOMINATOR as u128) * (dark as u128) > n as u128 {
        Exposure::Underexposed
    } else if (CLIP_DENOMINATOR as u128) * (bright as u128) > n as u128 {
        Exposure::Overexposed
    } else {
        Exposure::Normal
    }
}

/// Returns one of: "underexposed", "overexposed", "normal".
pub fn detect_exposure(gray_u8: &[u8]) -> (r: &'static str)
    ensures
        r@ == exposure_class(gray_u8@).label_view(),
        r@ == "normal"@ || r@ == "underexposed"@ || r@ == "overexposed"@,
{
    classify_exposure(gray_u8).label()
}

proof fn lemma_counts_uniform(s: Seq<u8>, v: u8)
    requires
        forall|i: int| 0 <= i < s.len() ==> #[trigger] s[i] == v,
    ensures
        count_dark(s) == if v < SHADOW_CLIP {
            s.len() as int
        } else {
            0
        },
        count_bright(s) == if v > HIGHLIGHT_CLIP {
            s.len() as int
        } else {
            0
        },
    decreases s.len(),
{
    if s.len() > 0 {
        lemma_counts_uniform(s.drop_last(), v);
    }
}

/// A non-empty uniform image of value `v` is underexposed when `v` is below
/// `SHADOW_CLIP`, overexposed when `v` is above `HIGHLIGHT_CLIP`, and
/// normal otherwise.
pub proof fn lemma_uniform_image_exposure(s: Seq<u8>, v: u8)
    requires
        s.len() > 0,
        forall|i: int| 0 <= i < s.len() ==> #[trigger] s[i] == v,
    ensures
        exposure_class(s) == if v < SHADOW_CLIP {
            Exposure::Underexposed
        } else if v > HIGHLIGHT_CLIP {
            Exposure::Overexposed
        } else {
            Exposure::Normal
        },
{
    lemma_counts_uniform(s, v);
}

/// Total multiplicity in `m` of the pixel values `lo ..< hi`.
pub open spec fn count_in_range(m: Multiset<u8>, lo: int, hi: int) -> int
    decreases hi - lo,
{
    if hi <= lo {
        0
    } else {
        count_in_range(m, lo, hi - 1) + m.count((hi - 1) as u8)
    }
}

proof fn lemma_count_in_range_empty(lo: int, hi: int)
    ensures
        count_in_range(Multiset::<u8>::empty(), lo, hi) == 0,
    decreases hi - lo,
{
    if hi > lo {
        lemma_count_in_range_empty(lo, hi - 1);
    }
}

proof fn lemma_count_in_range_insert(m: Multiset<u8>, x: u8, lo: int, hi: int)
    requires
        0 <= lo,
        hi <= 256,
    ensures
        count_in_range(m.insert(x), lo, hi) == count_in_range(m, lo, hi) + if lo <= x < hi {
            1int
        } else {
            0int
        },
    decreases hi - lo,
{
    if hi > lo {
        lemma_count_in_range_insert(m, x, lo, hi - 1);
        let v = (hi - 1) as u8;
        assert(v as int == hi - 1);
        if v == x {
            assert(m.insert(x).count(v) == m.count(v) + 1);
        } else {
            assert(m.insert(x).count(v) == m.count(v));
        }
    }
}

/// The clipped-pixel counts depend only on the multiset of pixel values.
proof fn lemma_counts_by_multiset(s: Seq<u8>)
    ensures
        count_dark(s) == count_in_range(s.to_multiset(), 0, SHADOW_CLIP as int),
        count_bright(s) == count_in_range(s.to_multiset(), HIGHLIGHT_CLIP + 1, 256),
    decreases s.len(),
{
    broadcast use vstd::seq_lib::group_to_multiset_ensures;

    if s.len() == 0 {
        assert(s.to_multiset() =~= Multiset::<u8>::empty());
        lemma_count_in_range_empty(0, SHADOW_CLIP as int);
        lemma_count_in_range_empty(HIGHLIGHT_CLIP + 1, 256);
    } else {
        let prev = s.drop_last();
        lemma_counts_by_multiset(prev);
        assert(prev.push(s.last()) =~= s);
        assert(s.to_multiset() =~= prev.to_multiset().insert(s.last()));
        lemma_count_in_range_insert(prev.to_multiset(), s.last(), 0, SHADOW_CLIP as int);
        lemma_count_in_range_insert(prev.to_multiset(), s.last(), HIGHLIGHT_CLIP + 1, 256);
    }
}

/// The exposure of an image does not depend on the order of its pixels:
/// two pixel sequences that are permutations of each other (equal as
/// multisets) have the same exposure.
pub proof fn lemma_exposure_permutation_invariant(s: Seq<u8>, t: Seq<u8>)
    requires
        s.to_multiset() == t.to_multiset(),
    ensures
        exposure_class(s) == exposure_class(t),
{
    broadcast use vstd::seq_lib::group_to_multiset_ensures;

    lemma_counts_by_multiset(s);
    lemma_counts_by_multiset(t);
    assert(s.len() == s.to_multiset().len());
    assert(t.len() == t.to_multiset().len());
}

proof fn lemma_darker_has_more_dark(s: Seq<u8>, t: Seq<u8>)
    requires
        s.len() == t.len(),
        forall|i: int| 0 <= i < s.len() ==> #[trigger] t[i] <= s[i],
    ensures
        count_dark(t) >= count_dark(s),
    decreases s.len(),
{
    if s.len() > 0 {
        let (s0, t0) = (s.drop_last(), t.drop_last());
        assert forall|i: int| 0 <= i < s0.len() implies #[trigger] t0[i] <= s0[i] by {
            assert(t[i] <= s[i]);
        }
        lemma_darker_has_more_dark(s0, t0);
        assert(t.last() <= s.last());
    }
}

/// Darkening an image pixel by pixel never stops it from being
/// underexposed.
pub proof fn lemma_darkening_keeps_underexposed(s: Seq<u8>, t: Seq<u8>)
    requires
        s.len() == t.len(),
        forall|i: int| 0 <= i < s.len() ==> #[trigger] t[i] <= s[i],
        exposure_class(s) == Exposure::Underexposed,
    ensures
        exposure_class(t) == Exposure::Underexposed,
{
    lemma_darker_has_more_dark(s, t);
}

} // verus!
