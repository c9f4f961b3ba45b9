# evp_mark

A machine-readable mark on synthetic audio, and the detector for it.

`src/` is the verified library: the carrying band, the derivation of the ±1 pattern from a
key (BLAKE3 over a length-framed domain string and the key, then a ChaCha8 keystream), the
key-independent decoys, the frame count of the short-time transform, the refusals, and the
streaming marker's delay line, which returns exactly what it was given, one window late. Its
contracts are proved by Verus.

`app/` holds what works on the samples themselves, which are floating-point numbers: the
transform, the perturbation of each frame, the detector's statistic, and the `detect-mark`
command that reads a WAV file.
