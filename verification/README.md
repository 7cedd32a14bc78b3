# invidious

A verified library for video searches on Invidious servers and with yt-dlp, and for telling
whether a desktop shell will show lyrics for what they find.

The library in `src/` does no input or output. It tells which requests to send and what to
make of the answers:

- `instance`: the search on Invidious servers. All servers are asked at once and the first
  that gives something wins; further pages, suggestions and trending music.
- `ytdlp`: the search with the yt-dlp program.
- `lyrics`: the lookup of lyrics, first on LRCLIB and then on NetEase, step by step.
- `annotate`: the marks on search results, and how many lookups may run at once.
- `title`: the artist and the title that a video's title tells.
- `video`, `json`, `text`, `request`, `error`: what the others are made of.

`app/` sends the requests, runs the program and starts the threads.

Documents are read with `serde_json`, and the remark at the end of a title is found with
`regex`; the contracts that are trusted of them stand beside the calls in `json` and `title`.
Of the standard library, `String::push`, `str::to_lowercase` and `String::from_utf8_lossy` are
trusted in `text`.
