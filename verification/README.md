# reco_core

The core of a pipeline that stitches the pictures of two cameras into one view,
follows what happens in it, and draws overlays on the result. The library is
written in Verus: every function states what it does, and the statements are
proved.

- `src/` is the library. Real numbers travel through it as bit patterns
  (`scalar`). It orders, clamps and routes them; arithmetic on them is asked for
  through traits such as `SceneMath` or `LayerMath`, and contracts say which
  results go where. Work on the graphics device is planned (`pipeline`,
  `renderer`, `band_gather`, `nv12_readback`, `overlay`), not carried out.
- `app/` carries it out: floating point, matrices, fonts, threads and the
  device.
- `tests/` runs the library on values.
