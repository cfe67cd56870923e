# organum

The verified core of the Organum UTAU resampler engine, written in Verus.

`src/` holds the logic whose behaviour is stated in `requires`/`ensures`
contracts and proved:

- `header`, `payload`, `bytes`: the byte layout of feature cache files and
  their payload, with encode/decode round-trip laws.
- `cache_file`, `cache_key`, `compress`: what a cache file must contain to be
  trusted, the bytes written and the checks on the bytes read back (zstd and
  the cache-key hash are called through small trusted wrappers).
- `memory_cache`, `lookup`: the byte-bounded LRU feature cache and the order
  in which memory, cache file and analysis are tried.
- `utau`, `flags`, `text`, `cli`: note names, pitch-bend strings, resampler
  flags and logging options.
- `timing`, `device`, `route`, `config`: voiced/unvoiced smoothing, GPU/CPU
  routing and the engine settings.
- `world`, `grid`, `matrix`: the integer parts of the WORLD vocoder (noise
  generator, bit reversal, band count) and the feature matrices.

`app/` is the ordinary Rust around it: YAML configuration, logging, files on
disk, the process-wide memory cache, and the floating-point conversions
(feature quantization, flag values, note lengths) that the core does not hold.

`tests/` runs the library on concrete values.
