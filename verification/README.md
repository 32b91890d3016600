# windows_memory_monitor

A Windows 11 memory monitor (physical, compressed, committed, page-file,
process and GPU memory), refreshed every second in a Slint window.

- `src/` is the verified library: gigabyte texts (`format`), sample windows
  of the charts (`history`), per-adapter video memory from its segments
  (`segments`), the compressed-memory counter reader (`reader`), page-file
  totals (`pagefile`), the memory cards (`snapshot`) and the GPU cards (`gpu`).
- `app/` is the Windows program: the system calls (Win32, PDH, DXCore,
  D3DKMT), the floating-point percentages and the window.
- `tests/` exercise the library, including its texts against Rust's own
  float formatting.
