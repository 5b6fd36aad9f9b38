# jellypilot_iced

The decisions behind the Jellypilot desktop client's iced interface, as a
Verus-verified library, with a thin iced adapter crate beside it.

- `src/`: the verified library. Keyboard shortcut capture and matching,
  the subscription plan, the image-demand inventory behind artwork loading,
  the embedded player's activation guard, page keys, router follow-ups,
  and the text the pages show (sizes, bit rates, captions, labels and
  statistics rows). Each public function states its result in its contract;
  the `lemma_*` proof functions state the laws that hold across calls.
- `app/`: iced adapters, type-checked against the library: input-event
  conversion, the image observer widget with its floating-point clip
  geometry, and the dismissible dialog panel.
- `tests/`: executable tests of the library.
