# tinyimg

An image compressor: decode an image, run preprocessing steps (resize, metadata
stripping), encode it as JPEG, PNG, WebP, AVIF or GIF. The library under `src/` is
verified with Verus; `app/` is a small command-line front end with the GPU (wgpu)
accelerators.

Layout of `src/`:

- `engine::params` — image formats: recognition from extensions and file headers,
  encoder settings.
- `engine::raw_image` — pixel buffers and their conversion to RGB / RGBA.
- `engine::codec` — decoders and encoders over the `image`, `mozjpeg-rs`, `webp` and
  `image-webp` crates, each outside call behind a small trusted function.
- `engine::preprocess` — metadata stripping and the aspect-preserving resize
  (target size computed exactly in integers, pixels by `fast_image_resize`).
- `engine::pipeline`, `engine::registry` — the decode/preprocess/encode pipeline and
  the per-format codec table.
- `gpu` — the CPU half of the GPU JPEG encoder: bit writer with byte stuffing,
  canonical Huffman tables, entropy coding of baseline and progressive scans, JFIF
  markers, quantisation tables, block padding and the DCT work plan.
- `config`, `worker`, `batch` — presets and settings, task ids, and the per-file
  decisions of a batch run.
- `image_list` — the list of images the interface shows: adding files with fresh ids,
  removing one, starting a batch (pending to processing) and recording each outcome
  (completed or failed) with the done count.

The laws of the library are the public `law_*` proof functions.
