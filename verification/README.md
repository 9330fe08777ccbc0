# rate_distortion

Rate-distortion building blocks with verified discrete logic.

- `src/` (verified with Verus): the order of `f64` values on their bit
  patterns (`float_order`), the exact Hamming distance (`distortion`), scalar
  quantizers whose cell decision and reconstruction are proved against their
  contracts (`quantizer`), and the counting and level-selection step of the
  Lloyd-Max iteration (`lloyd_max`).
- `app/`: the floating-point side: Blahut-Arimoto, the rate-distortion bounds,
  squared and absolute error, uniform quantizer construction and the
  Lloyd-Max iteration, each calling the verified crate for its decisions.
