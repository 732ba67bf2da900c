# stolas

The software of STOLAS, a small radio telescope for the 21 cm hydrogen line,
as a library verified with Verus and a command-line program around it.

- `src/` is the library: the recording file formats (`file`, `file_v1`,
  `frame`, `codec`), the sampling schedule and gain selection (`processing`),
  the antenna task's decisions (`antenna`), the network protocol (`network`),
  the gpsd client's decisions (`gps`), the `timedatectl` parser (`time`),
  coordinates (`geo`), configuration (`config`, `api`), and the developer
  tooling's rules (`deploy`, `webui`, `watch`). Every function there carries a
  contract that Verus checks.
- `app/` is the program: file and network I/O, the FFT and other
  floating-point work, plotting, and the command line.
- `tests/` runs the library on concrete inputs.

Note that a frame chunk as the writer writes it declares a body length of
four bytes per bin, twenty bytes short of the encoded frame, so the reader
does not read it back (`file::lemma_frame_chunk_body_too_short`).
