# triforce

An MVDR beamformer for the three-microphone arrays of Apple Silicon laptops,
packaged as an LV2 plugin.

- `src/` is the verified library. It holds the sample bookkeeping of the
  beamformer: `buffer` resizes block buffers and copies ranges of samples,
  `window` keeps the window of analytic samples over which the covariance
  matrix is estimated (each estimate window straddles a block boundary: the
  last two thirds of one block, then the first third of the next), applies
  the caller's decision to renew the estimate to it, and states the laws of
  that windowing. Everything there is generic over the sample type.
- `app/` is the plugin itself: the LV2 interface, the Hilbert IIR filter
  that makes the signals analytic, the steering vector, the covariance and
  MVDR weights (nalgebra), and the output stage. All of that is `f32`
  arithmetic and stays outside the verified library.
- `tests/` runs the library on concrete blocks.
