//! Exposure, blur and noise heuristics on 8-bit grayscale images, and the
//! warnings they give rise to.
use vstd::prelude::*;

pub mod blur;
pub mod exposure;
pub mod grid;
pub mod noise;
pub mod transpose;

use crate::heuristics::blur::{
    grid_readable,
    is_blurry,
    laplacian_response,
    lemma_uniform_image_is_blurry,
    BLUR_THRESHOLD,
};
use crate::heuristics::exposure::{
    classify_exposure,
    exposure_class,
    lemma_uniform_image_exposure,
    Exposure,
    HIGHLIGHT_CLIP,
    SHADOW_CLIP,
};
use crate::heuristics::noise::{
    classify_noise,
    lemma_uniform_image_noise_is_low,
    noise_class,
    NoiseLevel,
};
use crate::moments::variance_below;

verus! {

/// Outcome of the three heuristics on one image.
pub struct HeuristicsResult {
    pub is_blurry: bool,
    pub exposure: &'static str,
    pub noise_level: &'static str,
    pub warnings: Vec<String>,
}

/// The human-readable warnings, in order: blur, then bad exposure, then
/// high noise.
pub open spec fn expected_warnings(blurry: bool, exposure: Exposure, noise: NoiseLevel) -> Seq<
    Seq<char>,
> {
    (if blurry {
        seq!["Image appears blurry"@]
    } else {
        Seq::empty()
    }) + (if exposure != Exposure::Normal {
        seq!["Image is "@ + exposure.label_view()]
    } else {
        Seq::empty()
    }) + (if noise == NoiseLevel::High {
        seq!["High noise level detected"@]
    } else {
        Seq::empty()
    })
}

/// The texts of a list of strings.
pub open spec fn texts(v: Seq<String>) -> Seq<Seq<char>> {
    v.map_values(|s: String| s@)
}

/// Each warning is present exactly when its own verdict calls for it,
/// whatever the other verdicts are.
proof fn lemma_warning_membership(blurry: bool, exposure: Exposure, noise: NoiseLevel)
    ensures
        expected_warnings(blurry, exposure, noise).contains("Image appears blurry"@) <==> blurry,
        expected_warnings(blurry, exposure, noise).contains("Image is underexposed"@) <==> exposure
            == Exposure::Underexposed,
        expected_warnings(blurry, exposure, noise).contains("Image is overexposed"@) <==> exposure
            == Exposure::Overexposed,
        expected_warnings(blurry, exposure, noise).contains("High noise level detected"@) <==> noise
            == NoiseLevel::High,
        expected_warnings(blurry, exposure, noise).len() <= 3,
{
    reveal_strlit("Image appears blurry");
    reveal_strlit("Image is underexposed");
    reveal_strlit("Image is overexposed");
    reveal_strlit("High noise level detected");
    reveal_strlit("Image is ");
    reveal_strlit("underexposed");
    reveal_strlit("overexposed");
    assert("Image is "@ + "underexposed"@ =~= "Image is underexposed"@);
    assert("Image is "@ + "overexposed"@ =~= "Image is overexposed"@);
    let b = "Image appears blurry"@;
    let u = "Image is underexposed"@;
    let o = "Image is overexposed"@;
    let n = "High noise level detected"@;
    assert(b != u && b != o && b != n) by {
        assert(b[6] != u[6]);
        assert(b[6] != o[6]);
        assert(b[0] != n[0]);
    }
    assert(u != o && u != n && o != n) by {
        assert(u[9] != o[9]);
        assert(u[0] != n[0]);
        assert(o[0] != n[0]);
    }
    let e = expected_warnings(blurry, exposure, noise);
    let eb: Seq<Seq<char>> = if blurry {
        seq![b]
    } else {
        Seq::empty()
    };
    let ex: Seq<Seq<char>> = if exposure != Exposure::Normal {
        seq!["Image is "@ + exposure.label_view()]
    } else {
        Seq::empty()
    };
    let en: Seq<Seq<char>> = if noise == NoiseLevel::High {
        seq![n]
    } else {
        Seq::empty()
    };
    assert(e =~= eb + ex + en);
    assert forall|x: Seq<char>| e.contains(x) <==> (eb.contains(x) || ex.contains(x) || en.contains(
        x,
    )) by {
        if e.contains(x) {
            let k = choose|k: int| 0 <= k < e.len() && e[k] == x;
            if k < eb.len() {
                assert(eb[k] == x);
            } else if k < eb.len() + ex.len() {
                assert(ex[k - eb.len()] == x);
            } else {
                assert(en[k - eb.len() - ex.len()] == x);
            }
        }
        if eb.contains(x) {
            let k = choose|k: int| 0 <= k < eb.len() && eb[k] == x;
            assert(e[k] == x);
        }
        if ex.contains(x) {
            let k = choose|k: int| 0 <= k < ex.len() && ex[k] == x;
            assert(e[eb.len() + k] == x);
        }
        if en.contains(x) {
            let k = choose|k: int| 0 <= k < en.len() && en[k] == x;
            assert(e[eb.len() + ex.len() + k] == x);
        }
    }
    if blurry {
        assert(eb[0] == b);
    }
    if noise == NoiseLevel::High {
        assert(en[0] == n);
    }
    if exposure == Exposure::Underexposed {
        assert(ex[0] == u);
    }
    if exposure == Exposure::Overexposed {
        assert(ex[0] == o);
    }
}

/// Runs the blur, exposure and noise heuristics on a `width`×`height`
/// grayscale image and collects the warnings.
pub fn run(pixels: &[u8], width: usize, height: usize) -> (r: HeuristicsResult)
    requires
        width * height <= usize::MAX,
        grid_readable(pixels@.len() as int, width as int, height as int),
    ensures
        r.is_blurry == variance_below(
            laplacian_response(pixels@, width as int, height as int),
            BLUR_THRESHOLD as int,
        ),
        r.exposure@ == exposure_class(pixels@).label_view(),
        r.noise_level@ == noise_class(pixels@, width as int, height as int).label_view(),
        texts(r.warnings@) == expected_warnings(
            r.is_blurry,
            exposure_class(pixels@),
            noise_class(pixels@, width as int, height as int),
        ),
        r.warnings@.len() == 0 <==> (!r.is_blurry && exposure_class(pixels@) == Exposure::Normal
            && noise_class(pixels@, width as int, height as int) != NoiseLevel::High),
        texts(r.warnings@).contains("Image appears blurry"@) <==> r.is_blurry,
        texts(r.warnings@).contains("Image is underexposed"@) <==> exposure_class(pixels@)
            == Exposure::Underexposed,
        texts(r.warnings@).contains("Image is overexposed"@) <==> exposure_class(pixels@)
            == Exposure::Overexposed,
        texts(r.warnings@).contains("High noise level detected"@) <==> noise_class(
            pixels@,
            width as int,
            height as int,
        ) == NoiseLevel::High,
        r.warnings@.len() <= 3,
{
    let blurry = is_blurry(pixels, width, height);
    let exposure = classify_exposure(pixels);
    let noise = classify_noise(pixels, width, height);

    let mut warnings: Vec<String> = Vec::new();
    if blurry {
        warnings.push(String::from_str("Image appears blurry"));
    }
    if exposure != Exposure::Normal {
        warnings.push(String::from_str("Image is ").concat(exposure.label()));
    }
    if noise == NoiseLevel::High {
        warnings.push(String::from_str("High noise level detected"));
    }
    proof {
        let e = expected_warnings(blurry, exposure, noise);
        assert(texts(warnings@) =~= e);
        lemma_warning_membership(blurry, exposure, noise);
    }
    HeuristicsResult {
        is_blurry: blurry,
        exposure: exposure.label(),
        noise_level: noise.label(),
        warnings,
    }
}

/// A non-empty uniform image of value `v` is warned about as blurry, and
/// additionally as underexposed when `v` is below `SHADOW_CLIP` or as
/// overexposed when `v` is above `HIGHLIGHT_CLIP`; never as noisy.
pub proof fn lemma_uniform_image_warnings(p: Seq<u8>, w: int, h: int, v: u8)
    requires
        p.len() > 0,
        w >= 0,
        h >= 0,
        grid_readable(p.len() as int, w, h),
        forall|i: int| 0 <= i < p.len() ==> #[trigger] p[i] == v,
    ensures
        expected_warnings(
            variance_below(laplacian_response(p, w, h), BLUR_THRESHOLD as int),
            exposure_class(p),
            noise_class(p, w, h),
        ) == if v < SHADOW_CLIP {
            seq!["Image appears blurry"@, "Image is underexposed"@]
        } else if v > HIGHLIGHT_CLIP {
            seq!["Image appears blurry"@, "Image is overexposed"@]
        } else {
            seq!["Image appears blurry"@]
        },
{
    lemma_uniform_image_is_blurry(p, w, h);
    lemma_uniform_image_exposure(p, v);
    lemma_uniform_image_noise_is_low(p, w, h);
    reveal_strlit("Image is ");
    reveal_strlit("underexposed");
    reveal_strlit("overexposed");
    reveal_strlit("Image is underexposed");
    reveal_strlit("Image is overexposed");
    assert("Image is "@ + "underexposed"@ =~= "Image is underexposed"@);
    assert("Image is "@ + "overexposed"@ =~= "Image is overexposed"@);
    let e = expected_warnings(
        variance_below(laplacian_response(p, w, h), BLUR_THRESHOLD as int),
        exposure_class(p),
        noise_class(p, w, h),
    );
    if v < SHADOW_CLIP {
        assert(e =~= seq!["Image appears blurry"@, "Image is underexposed"@]);
    } else if v > HIGHLIGHT_CLIP {
        assert(e =~= seq!["Image appears blurry"@, "Image is overexposed"@]);
    } else {
        assert(e =~= seq!["Image appears blurry"@]);
    }
}

} // verus!
