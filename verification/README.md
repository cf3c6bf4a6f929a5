# hoarder

The verified core of a media organizer that files media under a
hierarchical tag system. The library is written in Verus: each public
function states its behaviour in `requires`/`ensures` and Verus proves it.

Layout of `src/`:

- `domain/` — entities (tags and their alias sets, tag types, sources,
  external services, media ids) and the values shared by repositories.
- `query.rs` — tokenizing of free-text search queries.
- `application/graphql/` — pagination plans, cursors, and the API shapes
  of tags, tag types, sources and external services.
- `application/thumbnails.rs`, `thumbnails.rs`, `thumbnails/parser.rs` —
  thumbnail URLs, the answers of the thumbnail endpoint, WebP sizes.
- `infrastructure/` — settings, and the pure parts of the PostgreSQL
  repositories: assembling tag hierarchies from relation rows, merging
  updates, converting rows, search patterns.
- `storage/` — decisions of the filesystem object storage.
- `text.rs`, `json.rs`, `json_text.rs`, `uuid_text.rs`, `base64_text.rs` —
  text helpers and the contracts of the outside crates used.

`app/` holds the process edge that the library leaves out (reading the
settings from the environment). `tests/` exercises the library.
