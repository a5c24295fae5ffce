# rust_fractal

Verified iteration bookkeeping for a Mandelbrot renderer that uses
perturbation theory and a series approximation.

- `src/iteration.rs`: the storage interval of the series coefficients (which
  loop steps store a row, which row serves an iteration, aligning iterations
  to stored ones) and the back-off rules of the validity check.
- `src/series.rs`: the decisions of the validity check: the scans of the
  probes, the rounds of the probe check and the bounds recorded at its end.
- `src/grid.rs`: the probe grid: minima, maxima, and the cells between
  neighbouring probes.
- `src/reference.rs`: the iteration counts of the reference orbit.
- `app/`: the floating-point and arbitrary-precision arithmetic (reference
  orbit, coefficient recurrence, probe stepping), which calls the library for
  every decision.
