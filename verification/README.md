# kine-rs

A robotic-arm kinematics and motion simulator whose discrete logic is
verified with Verus.

## Layout

- `src/` — the verified library (`kine_rs`):
  - `text` — the character-level text functions the command language and the
    URDF reader rely on (Unicode trimming and splitting, prefix/suffix tests,
    `usize` and floating-point literal grammars), each specified exactly.
  - `ui::chat_command` — the operator console: the command language
    (`parse_chat_command` recognises every command the console accepts, with
    its operands kept as literal text) and the console state (message log,
    command history and its navigation), with laws on history navigation.
  - `urdf` — reading URDF robot descriptions: the XML document is parsed by
    `roxmltree`; the library assembles the joints, walks the kinematic chain
    from the root link, picks link colors, and reports every malformed
    description as an error.
  - `trajectory` — the xorshift64* generator, search-tree path
    reconstruction, randomized path shortcutting (specified exactly in terms
    of the generator's draws and the edge checks' answers), and the frame
    search used when replaying recordings.
  - `kinematics`, `workcell` — joint types and actuated-joint bookkeeping,
    the collision report, solver and tool selectors.
- `tests/` — tests of the library, run against the compiled crate.
- `app/` — the console program: the floating-point robot model (forward
  kinematics, Jacobians, IK solvers, dynamics, collision geometry, trajectory
  polynomials, RRT planners, workcell) around the library, reading commands
  from standard input.
