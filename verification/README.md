# uf_notifications

The rules of in-app notifications, verified with Verus: which action links may reach a
client, page-size and count limits, search normalization, `table:id` session user ids,
relative-time labels, notification ids and record keys, the DTO of a stored row, the
queries behind lists, pages and counts, pages from fetched rows, mark-all tallies, and
the row, DTO and live-push event of a new notification.

- `src/`: the verified library. Calls into `chrono` (the clock)
  and `uuid` (new ids, formatting and parsing) stand behind small trusted wrappers whose
  contracts are written from those crates' sources.
- `tests/`: scenario tests of the library.
- `app/`: the server side around it: the Valence store, Higgs request context and
  session, Photon live push and the Leptos server functions, with wire copies of the
  library's types that carry the serde derives.
