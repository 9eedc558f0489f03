//! Pass/fail decision of validating an analysed image against options.
use vstd::prelude::*;

verus! {

/// Outcome of a validation: whether it passed, and why not.
pub struct ValidationOutcome {
    pub passed: bool,
    pub failures: Vec<String>,
}

/// An unset rejection option counts as `false`.
pub open spec fn option_set(o: Option<bool>) -> bool {
    match o {
        Some(b) => b,
        None => false,
    }
}

/// The failures, in order: the score failure when there is one, then blur
/// when blurry images are rejected and the image is blurry, then exposure
/// when bad exposures are rejected and the exposure is not "normal".
pub open spec fn expected_failures(
    score_failure: Option<Seq<char>>,
    reject_blurry: Option<bool>,
    is_blurry: bool,
    reject_bad_exposure: Option<bool>,
    exposure: Seq<char>,
) -> Seq<Seq<char>> {
    (match score_failure {
        Some(m) => seq![m],
        None => Seq::empty(),
    }) + (if option_set(reject_blurry) && is_blurry {
        seq!["Image is blurry"@]
    } else {
        Seq::empty()
    }) + (if option_set(reject_bad_exposure) && exposure != "normal"@ {
        seq!["Bad exposure: "@ + exposure]
    } else {
        Seq::empty()
    })
}

/// Collects the failures of a validation and decides whether it passed.
/// `score_failure` is the message for a score above the threshold, if the
/// score is above it.
pub fn validation_outcome(
    score_failure: Option<String>,
    reject_blurry: Option<bool>,
    is_blurry: bool,
    reject_bad_exposure: Option<bool>,
    exposure: &String,
) -> (r: ValidationOutcome)
    ensures
        r.failures@.map_values(|s: String| s@) == expected_failures(
            match score_failure {
                Some(s) => Some(s@),
                None => None,
            },
            reject_blurry,
            is_blurry,
            reject_bad_exposure,
            exposure@,
        ),
        r.passed <==> r.failures@.len() == 0,
        r.passed <==> (score_failure is None && !(option_set(reject_blurry) && is_blurry) && !(
        option_set(reject_bad_exposure) && exposure@ != "normal"@)),
{
    let mut failures: Vec<String> = Vec::new();
    match score_failure {
        Some(m) => failures.push(m),
        None => {},
    }
    let reject_blurry_set: bool = match reject_blurry {
        Some(b) => b,
        None => false,
    };
    if reject_blurry_set && is_blurry {
        failures.push(String::from_str("Image is blurry"));
    }
    let reject_exposure_set: bool = match reject_bad_exposure {
        Some(b) => b,
        None => false,
    };
    let normal = String::from_str("normal");
    if reject_exposure_set && *exposure != normal {
        failures.push(String::from_str("Bad exposure: ").concat(exposure.as_str()));
    }
    let passed = failures.len() == 0;
    ValidationOutcome { passed, failures }
}

} // verus!
