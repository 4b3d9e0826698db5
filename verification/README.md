# audio_bench

A command line tool that rates the quality of a recorded audio signal against
a reference with ViSQOL (MOS-LQO, NSIM per band), locating every occurrence
of the reference in the recording first.

The signal processing works on floating-point samples; it lives in `app/`,
together with file and process I/O. The library in `src/` holds, with Verus
contracts and proofs, the rest:

- `mode`: speech (16 kHz) and audio (48 kHz) modes, model choice, and the
  ViSQOL command line;
- `visqol_csv` and `text`: the layout of ViSQOL's results file, read with the
  semantics of `str::lines`, `str::split` and `str::trim`;
- `decompress`: zstd decompression of the bundled resources, the size check,
  and whether a resource must be extracted again;
- `alignment`, `peaks`, `segments`, `silence`: search windows, the choice of
  well separated occurrences, segment bounds and the trailing-silence scan;
- `patches`, `waveform`: the patch grid, patch copies and reference patch
  positions, and the pixel columns of the waveform drawing;
- `report`: the configuration recorded in a report.
