# amdgpu_linux

Bindings for the Linux AMD GPU interfaces (the DRM files of the amdgpu
driver and the KFD compute device), written in Verus.

- `src/` is the verified library:
  - `sdma`: the SDMA packets of several GPU generations (`v2_4` to
    `v5_2`, the RDNA 2 set with its cache-policy fields), their field
    layouts and their encoding into and decoding from dword buffers, with
    the proof that decoding an encoded packet gives it back for every
    packet whose layout is well formed (fields inside their dwords, not
    overlapping); that premise is checked for each packet by
    `tests/sdma_layouts.rs`, not proved;
  - `sdma_bindgen`: the generator that reads an SDMA packet C header and
    writes packet descriptions, specified end to end over the header's
    UTF-8 bytes (Unicode white space and letter case);
  - `capabilities`: the capability sets of a thread, the `capset`
    requests that raise, lower and clear them, and the tokens that stand
    for capabilities being held (they cannot leave the thread, and are
    issued only from recorded capability sets that hold them; the sets
    are what `app/` read with `capget`);
  - `drm`, `kfd`: device flags, error numbers, versions, names, mmap offsets
    and the other decisions of the DRM and KFD interfaces (the error
    numbers are Linux's generic ones, which x86, arm and riscv use);
  - `text`: byte-string operations shared by the above.
- `app/` holds what talks to the kernel: the ioctls, the capability system
  calls, opening files, and the generator's command line.
- `tests/` runs the library on concrete values.
