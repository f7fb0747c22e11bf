# minios

The verified core of MiniOS, a small teaching operating system, written in
Verus. Every function under `src/` carries a `requires`/`ensures` contract
that Verus proves.

## Layout

- `src/` — the library:
  - shell side: `parser` (word splitting), `input` (line buffer), `history`,
    `shell` (key handling and line submission), `commands` (command
    registry, completion, suggestions), `alias`, `env_cmds`, `table`
    (the bounded name/value slots both use), `pipe`, `text`, `textlines`,
    `numparse`, `cmdargs`, `journey`, `quiz`, `errors`, `manual`;
  - system calls: `syscall` (decoding a call into a request, the
    `meminfo` formatter);
  - tracing: `ids`, `span`, `ringbuffer`, `context`, `engine`, `null`,
    `export` (JSON);
  - `utf8text`: the one call into `core::str::from_utf8`, trusted with a
    stated contract.
- `tests/` — unit tests run against the compiled library.
- `app/` — the console and boot tool around the library: printing, keyboard
  and serial input, the global tracer and the kernel services the commands
  query.

Laws that span several functions are stated as public `law_*` proof
functions next to the code they describe.
