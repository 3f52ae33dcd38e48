# payload_dumper

The verified core of an Android OTA `payload.bin` dumper, written in Verus.

`src/` is the library, every function of it verified:

- `header` — the 24-byte payload header (`CrAU`, version, manifest and
  signature lengths) and the offsets it implies.
- `zip` — locating `payload.bin` inside an OTA ZIP archive (classic and
  ZIP64 end records, central directory, local header) as a step machine fed
  with the bytes it asks for.
- `manifest` — the update manifest as the dumper reads it and the summary of
  it handed to the user interface.
- `extract` — the extraction of a partition: for each install operation,
  where its blob is, how it is decoded (bzip2, xz, zstd), how many bytes it
  must write, the progress report and the hash check, as a step machine.
- `remote` — the state of a payload read over HTTP range requests.
- `dumper` — what a dumper has read of a payload, kept once read.
- `session` — partition lookup, block size and per-task error messages.
- `bytes`, `digest`, `constants`, `payload` — helpers and shared types.

`app/` holds the JNI entry points, file and HTTP I/O, protobuf decoding and
encoding, the tokio runtime and the progress percentage; it runs the
library's step machines and performs the reads, writes and waits they ask
for.
