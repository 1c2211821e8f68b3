# swaypplet

The decisions of a desktop shell for sway, as a library verified with Verus:
fingerprint and face authentication, the greeter, the bar with its tray, the
audio controls, the clipboard history, the picker, and the glass demo.

- `src/` is the library. Where a decision waits on the outside world, a step
  takes what happened and says what to do next. Laws that relate several
  functions are the public proof functions named `law_*`.
- `tests/` runs the library on concrete values.
- `app/` is the machinery around it: D-Bus, sockets, files, processes, and the
  floating-point curves and shapes. It performs what the library asks for.
