# icmc

A verified library for the ICMC processor: its instruction set, the
processor that executes machine words, the front end of its assembler
(tokens, lexer and statement parser) and the logic behind the simulator's
views. Every function in `src/` carries a contract proved by Verus.

Layout:

- `src/isa.rs`: instructions, their masks, decoding and bit fields; laws on
  the masks and on names.
- `src/processor.rs`, `src/execution.rs`: the processor state, the
  instruction cycle stated over a mathematical model of the processor, and
  laws on the stack and on reads after writes.
- `src/ram.rs`, `src/video.rs`, `src/peripherals.rs`, `src/layout.rs`,
  `src/errors.rs`: memory, video, the memory map and errors.
- `src/token.rs`, `src/lexer.rs`, `src/parser.rs`, `src/assembler.rs`,
  `src/number.rs`, `src/text.rs`: the assembler front end and the text
  utilities it rests on.
- `src/display.rs`, `src/memory_view.rs`, `src/screen.rs`,
  `src/simulator.rs`: what the simulator shows and the decisions of its
  processor threads.
- `app/main.rs`: logging, threads and channels around the library.
- `tests/`: tests of the library.
