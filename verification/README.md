# native_iqa

No-reference image quality assessment: BRISQUE scoring plus blur, exposure
and noise heuristics, exposed to Node.js through N-API.

Layout:

- `src/` — the verified library (Verus). It holds everything that can be
  stated over integers: the exposure histogram test, the Laplacian blur test
  and the flat-region noise test on 8-bit grayscale pixels (their variance
  thresholds are decided exactly from integer moments), the warnings they
  produce, the reflect-101 and clamp border rules of the BRISQUE filters,
  the decode-and-minimum-size gate around the `image` crate, the error
  messages, and the pass/fail decision of validation.
- `app/` — ordinary Rust: the N-API tasks and exports, the parallel batch,
  resizing and grayscale conversion, and the BRISQUE feature extraction and
  scoring, all of which compute in floating point.
- `tests/` — tests of the library on concrete images.
