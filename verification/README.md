# llmchat

A chat client for language models behind an OpenAI-compatible endpoint: one-shot prompts, an
interactive session with commands, streamed replies shown as Markdown, and benchmarks.

- `src/` is the library, verified with Verus. It decides and computes everything: commands,
  configuration, requests, the reading of a streamed reply, the Markdown display, the use of the
  context window, models, benchmark summaries and reports. Its functions go from plain values to
  plain values; what is to be printed or done comes back as data.
- `app/` is the program around it: the command line, files, the network, the terminal and the
  arithmetic in floating point.
- `tests/` runs the library.

Numbers in floating point pass through the library by their IEEE 754 bits (`output::Single`,
`output::Double`). The library orders them and decides by them, and the program computes with
them and writes them out.

Functions of other crates are called behind small wrappers whose contracts say what is taken
from them: `serde_json` (parsing), `sha2` and `hex` (fingerprints), `colored` (colours),
`syntect` (code blocks) and `comfy_table` (the table of results).
