# FastAF Flow

A local dictation desk: record speech, transcribe it with a local MLX speech
model, clean it up with S1-mini, and optionally paste the result into the app
you were using.

## Layout

- `src/` is the verified library (Verus). It holds the rules of the desk with
  their contracts and laws:
  - `catalog` — models, quantization labels, memory estimates, the memory
    budget and recommendation, model directory inspection, the merged catalog,
    and the cache locations that are searched;
  - `table` — the id-ordered table of scanned models;
  - `paths` — Unix path texts: joining, components, path order and equality;
  - `settings` — defaults, repair of stored choices, extra model folders;
  - `session` — model selection, rewriting decisions, the record control, the
    shortcut, job status and timeouts, the transcript's edits, and how worker
    reports, recordings, timeouts and finished texts change the desk;
  - `runtime` — request routing, what reaches an online worker, reply
    handling (parsing reply lines), and where the interpreter and installer are looked for;
  - `cli`, `audio`, `desktop`, `system` — argument parsing, recording limits,
    the menu-bar icon and menu, and when pasting is allowed;
  - `json` — what a JSON text holds at a pointer, as `serde_json` reads it;
  - `text`, `rules`, `order` — the text operations and orders the rest uses.
- `tests/` runs the library on concrete values.
- `app/` is the program around it: files and folders, the worker process, the
  window, the microphone, the clipboard and the macOS integration.
