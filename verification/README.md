# band_ensemble

A self-organising band ensemble whose agents negotiate tempo, conserve
energy and track the collective musical phase.

- `src/` — the verified library (Verus): instrument roles and their spectral
  templates (`role`), phase classification and the bounded variance history
  (`phase`), median selection for the Hodge decomposition (`hodge`), and the
  ensemble's agent bookkeeping — ids, positions, tick count (`roster`).
- `app/` — the floating-point side (tempos, energies, variance, the Hodge
  components), built on the library's types.
- `tests/` — tests of the library.
