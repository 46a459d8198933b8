# slide-builder

The verified core of slide-builder, a terminal tool that writes PowerPoint
decks with an AI agent and a library of design packages.

- `src/` is a Verus library: paths and application directories, design
  packages and their import workflow, skills, the agent's system prompt,
  the render cache (keys, manifests, cleanup), offline capture HTML, the SVG
  artwork dialect, capture retries and blank-frame detection, template
  archive checks, the contact sheet, Herdr status reporting, session
  commands, the interactive session's decisions, onboarding pickers and
  account messages, and the export command. Every function carries a contract that Verus proves;
  calls into `sha2`, `serde_json`, `uuid`, `directories`, `quick-xml`,
  `roxmltree` (through `usvg`), `svgtypes`, `zip` and `image` go through small trusted
  wrappers whose contracts say what those crates return.
- `tests/` exercises the library on concrete values.
- `app/` is the command-line binary and the file-system, process and
  floating-point glue around the library.
