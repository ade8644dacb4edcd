# flexencoder

An encoder for the FLEX paging protocol at 1600 bps, verified with Verus.

- `src/` is the library. Each codeword type states the exact 32-bit word it
  sends; the BCH(31,21) check bits, the parity bit and the 4-bit checksum are
  proved to make every word a valid FLEX codeword. Frames keep their
  codeword count below 88, their bytes are the synchronisation header, the
  frame information word and eleven interleaved blocks. The schedule module
  builds single frames, a full hour of frames, or one step of continuous
  operation, with contracts that say which messages each frame carries and
  which error a refused input gets.
- `app/` is the command-line program: argument handling, JSON input, the
  clock, file output and the UDP loop of the continuous mode.
- `tests/` runs the library on concrete values.
