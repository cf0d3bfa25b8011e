# coverart

Cover art lookup for a music player, verified with Verus.

- `src/` is the library. `coverart` collects what several providers offer for an
  artist, a song, an album or a URL, grades the images and puts the best one first.
  `fanarttv` and `theaudiodb` are providers; `musicbrainz` finds the identifiers
  that they need. `naming` compares artist names, `json` reads documents, `text`
  and `ranking` hold what the others share.
- A search that needs the attribute cache, the web or another helper of the player
  hands out a `Request` and is resumed with a `Reply` (`protocol`). Its contract says
  which step follows on which reply.
- `world` describes a cache and services as a mathematical object. The modules
  `fanarttv_laws`, `musicbrainz_laws` and `theaudiodb_laws` prove what whole searches
  come to in it: what is found, what is asked, and what is remembered for the next
  time.
- `tests/` runs the library against caches and services in memory.
- `app/` wires the library to a player: it carries out the requests, holds the
  settings of the running program, and serialises results. The player brings the
  attribute cache, the HTTP client, the rate limiter and the grader along as a
  `Platform`.

Outside crates do the transliteration (`deunicode`), the similarity of names
(`strsim`), percent-encoding (`urlencoding`), JSON parsing (`serde_json`) and the
cache of failed identifiers (`moka`). Each call stands behind a small function whose
contract says what is taken for granted of it.
