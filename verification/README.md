# uka_core

Read-only analysis of Android images and Linux kernels, verified with Verus.

The library recognizes boot, vendor_boot and init_boot images, OTA ZIP and
payload.bin containers, ELF, DTB, BTF and Android sparse headers and XBL config
blobs; it takes the kernel payload out of an image, decodes gzip payloads,
reads the release, build ID, compiler and architecture of a kernel, and looks
for an embedded kallsyms layout. Every parser states in its contract exactly
which inputs it accepts, what it returns for them, and which error it gives
for each input it refuses.

## Layout

- `src/` — the verified library, one module per format or stage:
  `bytes`, `magic` and `text` hold the byte-level building blocks;
  `boot`, `vendor_boot`, `init_boot`, `android_images` the Android images;
  `containers`, `ota_zip`, `payload` the containers; `elf`, `dtb`, `btf`,
  `sparse`, `xbl_config` the headers; `kernel`, `metadata`, `kallsyms` the
  kernel payload; `report` and `analysis` put the stages together; `offsets`
  validates externally supplied offset documents.
- `src/outside_calls.rs` — the trusted items: calls into `std::str`, `flate2`
  and `zip`, each with the contract that the rest of the library relies on.
- `tests/` — tests on concrete inputs, including one per stated law.
- `app/` — the `uka-cli` command line front end: file I/O and JSON output, with
  serializable copies of the library's result types.
