# lnkr

A link shortener with verified rules. A submitted URL is kept under a short key: a custom key, three
memorable words, or the first five characters of the URL-safe base64 text of its SHA-512 digest. A
visit to a key redirects to its URL and counts the visit. The administrator sees which links are the
most recent and which the most visited.

## Layout

- `src/` is the library, verified with Verus.
  - `stage` says what a request does with each answer it gets; `session` drives a request and says
    what it waits for.
  - `links`, `metadata`, `store`, `pages`, `http`, `error`: keys and URLs, what is stored beside a
    link, what the answers of the stores mean, and what is sent back.
  - `ranking` sorts and lists the links; `table` and `text` hold texts by name and rewrite texts.
  - `outside` holds what is taken on trust from other crates and from std, one function each.
  - `laws` states and proves what holds of whole requests and of several requests in a row.
- `app/` is the Fastly Compute service around the library: it opens stores, reads the form, writes
  metadata as JSON and sends responses.
- `tests/` runs the library, with stores in memory.
