# kodik_parser

A library that finds the HLS manifest link of an episode on the Kodik video
player, with its logic proved in Verus.

The player page and the scripts it loads are read as text: the video
parameters (`vInfo.*` assignments), the `urlParams` declaration, the chapter
marks of the skip button, the serial script's base64-hidden endpoint and the
Caesar shift that hides manifest links.  Dub and episode option tags are read
from their attributes.  Search results are grouped by the title they release.

Layout:

- `src/text.rs`, `src/numbers.rs`: character-level text operations (`trim`,
  `lines`, `split`, `split_once`, ...) and decimal integers, each stated over
  `Seq<char>`.
- `src/js.rs`: values in the page's JavaScript.
- `src/chapters.rs`: chapter marks, their time codes, the stable sort by
  start and the guessed kinds.
- `src/manifests.rs`: the scripts, option tags, manifest sources and the
  recovery of a hidden link.
- `src/flow.rs`: the decisions between the requests that get a manifest link,
  as a state machine whose steps the caller performs.
- `src/search.rs`: grouping of search results.
- `src/html.rs`, `src/external.rs`: elements as plain values, and the
  trusted calls into `base64`, `regex`, `url`, `scraper` and `std`.
- `app/`: the HTTP client that runs the state machine, serde forms of the
  library's values, and the command-line program.
