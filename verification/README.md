# hyperspace

The workspace model of the OS/3 Hyperspace desktop shell, written in Verus:
dimensions (canvases) holding smart objects, the in-memory object store, the
command palette's fuzzy matcher and ranking, the stub agent runtime and the
shell session that applies canvas events, spawns and deletes objects and keeps
the status line.

Layout:

- `src/` — the verified library. Each public function states its result over
  spec functions and views (`Seq<char>` for text, `Seq`/`Map` for collections);
  the laws that span functions are public proof functions (`lemma_*`).
- `tests/` — executable tests of the library.
- `app/` — the egui desktop program around the library: window and panels,
  float geometry of the canvas (projection, zoom, snapping, fit-to-content,
  drawing), reading and writing `workspace.json` with serde.

Positions, sizes and the viewport are carried in the library as the bit
patterns of their `f32` values; all float arithmetic on them lives in `app/`.
