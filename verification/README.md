# crypto_broker

The verified core of a single-page crypto portfolio tracker (Dioxus, web).

- `src/catalog.rs` — periods (7D/30D/90D/ALL), chains and quote-source kinds,
  their labels, and finding a chain or kind back from its label.
- `src/quotes.rs` — per-chain quote sources: the defaults, lookup and edits,
  building the HTTP/WebSocket request for a symbol, planning a refresh.
- `src/json.rs` — reading a price at a dotted path of a JSON reply
  (parsed by `serde_json`).
- `src/history.rs` — which price a period's profit and loss is measured from,
  the starting history of a new asset, and its names.
- `src/text.rs` — character-level helpers: template substitution, splitting,
  blank test, decimal numerals.
- `src/display.rs` — style choices for figures.
- `app/` — the page, IndexedDB storage, network I/O and the floating-point
  figures, calling the library for every decision.
