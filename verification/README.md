# nodebook

A personal knowledge bot: a Telegram front end with a diary, an English tutor,
a media downloader, a web player and analytics over an Obsidian-style vault.
This crate holds the bot's logic as a library verified with Verus, and a thin
program around it.

## Layout

- `src/` — the verified library. Every function carries a `requires`/`ensures`
  contract over spec functions and views, and Verus proves it.
  - `text` string toolkit; `auth` web-app login check; `media`, `fetch`, `plan`,
    `library` the media downloader (link detection, page and `yt-dlp` reports,
    artist lists, search scoring, quality menus, download plans, the library);
  - `web` the web player (content types, byte ranges, playlists, download
    tasks, uploads); `vault` note parsing;
  - `bot` chat state, commands, callbacks, keyboards and replies; `diary` the
    evening review; `life` memento mori figures; `tutor` the English tutor;
  - `common`, `config`, `analytics`, `classifier`, `ai`, `charts` shared types,
    defaults, streaks, classification, AI prompts and endpoints, calendar layout.
- `app/` — ordinary Rust around the library: start-up, the single-instance
  lock, the `yt-dlp` audio search,
  configuration files, JSON reading, file storage, the charts, and the
  arithmetic on fractions (statistics, trends, SM-2 review, percentages),
  which Verus does not verify.
- `tests/` — tests of the library's public functions.

## Trusted code

Calls into outside crates (`regex`, `chrono`, `ring`, `serde_json`,
`urlencoding`, `uuid`, `rand`) and a few `std` functions sit behind small
wrappers marked `#[verifier::external_body]`. Each states what its crate's
source shows; where the result takes pages to describe (what a regular
expression matches, how chrono counts days), it is given a name, an
uninterpreted spec function, and the library's contracts speak of that name.

## Design notes

- Download tasks and tag counts live in vectors, searched by their id or tag
  text, rather than in hash maps keyed by strings: Verus can reason about a
  vector's contents, but not about a map keyed by `String`. The vector also
  fixes the orders that matter: finished tasks are evicted oldest first, and
  tags with equal counts keep the order in which they were first seen.
- Random choices (quiz cards, shuffles, ids) are stated by what holds of
  every outcome.
