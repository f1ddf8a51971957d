# serial_term

A serial terminal for Windows Terminal and other terminals, whose logic is a
library verified with Verus.

- `src/` is the verified library. `session/` holds the interactive session:
  every key, command, serial event and timer tick is a method that takes the
  session from one state to the next and queues the work the caller performs
  (`Effect`). The other modules hold what the session is built on: splitting
  the byte stream into lines (`logline`), decoding and encoding (`decoder`, `codec`),
  ANSI colours (`ansi`), folding and highlighting (`wrap`), command completion
  (`complete`), escapes and hex input (`escape`), log replay records
  (`replay`), serial devices and chips (`port`), themes and configuration.
  Laws that relate several operations are public proof functions named
  `law_*`.
- `app/` is the program around it: the command line, the configuration file,
  the serial port threads, the terminal UI and the event loop that performs
  the session's effects.
- `tests/` exercise the library on concrete values.
