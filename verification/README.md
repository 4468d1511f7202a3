# hack_vm_translator

Translates programs of the Hack virtual machine (nand2tetris) into Hack assembly,
with the translation logic verified by Verus.

- `src/text.rs`: Unicode whitespace, trimming, decimal printing and `u16` parsing,
  each against a specification of the standard behaviour it follows.
- `src/cleaner.rs`: removal of comments, blank lines and surrounding whitespace;
  proves every instruction clean and cleaning idempotent.
- `src/parser.rs`: the commands, their names, and the parser from lines to
  commands; proves name round trips and that a command's source reads back.
- `src/code_writer.rs`: the assembly text of each command; proves that each
  command's code opens with its own source and that comparison labels are distinct.
- `src/lib.rs`: `translate` (clean, parse, emit) and `initialize` (bootstrap code).
- `app/main.rs`: the command-line program: argument handling and file I/O.
