# no_os

A small hobby operating system booted through UEFI, with its logic verified
in Verus.

- `src/` is the verified library:
  - `boot_info`: the framebuffer geometry and boot record passed to the kernel,
    the framebuffer description derived from a graphics mode, pixel offsets.
  - `psf`: PSF1 font headers and glyph-table sizes.
  - `renderer`: the kernel's text renderer (pixels, clearing, glyphs, strings,
    line feeds, colour) over a word-addressed copy of framebuffer memory, and
    checks that tell a caller whether an operation stays in bounds.
  - `elf_load`: the kernel load plan (first loadable segment, page count,
    entry point) computed from an ELF image parsed with `goblin`.
  - `blt`: the bootstrap loader's off-screen pixel buffer.
- `app/` holds what runs around it: the host runner that builds disk images
  and starts QEMU, the UEFI loaders (file system, graphics output, memory
  services), and the kernel entry points that copy the drawn screen to the
  real framebuffer.
- `tests/` exercise the library.
