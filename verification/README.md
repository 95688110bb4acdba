# pncp_minerador

Finds public-procurement notices ("editais") on the PNCP search API that
match the user's keywords, screens the documents attached to each one, and
writes an HTML dashboard of the notices that survive.

The library (`src/`, verified with Verus):

- `text` — string operations specified over character sequences: trimming,
  replacing, decimal numbers, joining, byte order, `str::lines`.
- `pattern` — keyword filters: the regular expressions built from wanted
  and unwanted terms, matched with the `regex` crate.
- `search` — first stage: search URLs, reading and screening search hits,
  queue entries, and the paging loop (`SearchRun`).
- `attachments` — reading a downloaded attachment: ZIP archives (through the
  `zip` crate), PDF parts and the text of Word documents.
- `triage` — second stage: which attachments to fetch (`DocumentFetch`), the
  attachment text, and the verdict on each notice.
- `report` — third stage: the HTML dashboard.
- `history` — the list of approved notices handed to the front end.

The program (`app/`) does the network and file work, the PDF text
extraction, and the JSON reading and writing, and asks the library for
every decision.
