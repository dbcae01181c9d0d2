# rigflow_client

The decision-making core of the rigflow SDR client user interface, written in
Verus and proved against its contracts.

- `src/` — the verified library: radio and amateur band plans with lane
  stacking of overlapping allocations, frequency limits, the problem list and
  status light, panel section layout, Space-bar keying and the exit sequence,
  bookmark identifiers, contact-form validation, calendar conversion for file
  timestamps, the waterfall palette, client statistics and the text formatters
  the UI shows. Each public function states its result exactly (where a clock reading
  decides, as in the statistics logger, it states what holds for every reading); the laws that
  relate several functions are public proof functions named `law_*`.
- `tests/` — executable tests of the library on concrete values.
- `app/` — ordinary Rust around the library: the floating-point view
  arithmetic of the spectrum display, clock reads, logging, and the serde copy
  of the license class used by settings files.
