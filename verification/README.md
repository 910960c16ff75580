# blender_rs

A library for working with Blender from Rust: finding installed Blenders and the
versions they report, reading the release pages of download.blender.org, tracking
release archives from download to unpacked install, caching fetched pages, reading
scene information from blend files and following Blender's render output.

The logic is written in Verus and proved against its contracts.

## Layout

- `src/` — the verified library.
  - `version.rs` — release numbers and their order.
  - `text.rs` — the string and character operations the parsers are built from.
  - `blender.rs` — an installed Blender, reading `blender -v`, script checksums.
  - `config.rs` — the set of installed Blenders, one per version.
  - `models.rs` — render modes, formats, devices and scene information.
  - `process.rs` — classifying the lines Blender prints while it renders.
  - `args.rs` — the command line a render is started with.
  - `packages.rs` — the stages of a release: link, downloaded archive, unpacked bundle.
  - `category.rs` — one release category page and the packages it offers.
  - `portal.rs` — the release index, ordering categories, picking one for a version.
  - `page_cache.rs` — fetched pages and the files that hold them; expiration rules.
  - `utils.rs` — archive extension and architecture names per platform, config paths.
  - `keyed.rs` — facts about sequences filed by a key.
  - `search.rs`, `address.rs`, `error.rs` — the calls into `regex`, `url` and std
    formatting, with the contracts the library relies on.
- `app/` — file, process and network I/O, serialization, reading blend files through the
  `blend` crate, and the parts that work
  with floating point.
- `tests/` — tests of the library.
