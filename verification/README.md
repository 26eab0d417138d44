# fx-line

Inline natural-language commands for zsh in CMUX, and a push-to-talk voice
agent for CMUX, with their logic verified by Verus.

- `src/` is the verified library: reading `fx` replies (`output`, `json`),
  the prompts (`fx`, `line`, `agent::planner`), the spoken intents
  (`agent::intent`), the CMUX actions, their checks and command lines
  (`cmux`), the agent's requests and worker (`agent`, `platform::daemon`),
  the hotkey and capture handshake (`platform::hotkey`, `platform::capture`,
  `indicator`), the install with Wispr Flow's settings (`platform::service`,
  `platform::wispr`), the directory context (`project`), the model runner's
  choices (`model`) and the command lines (`cli`).
- `tests/` runs the library on concrete values.
- `app/` is the program around it: `fx-line` and `fx-agent` (by the name it
  is called with), which run `fx`, `cmux`, `ps` and `launchctl`, read and
  write the files, and draw the macOS windows.
