# tahti_radio

The Tahti Radio Discord bot plays a 24/7 stream into a voice channel named
**Tahti Radio** and lets listeners queue tracks with `/play`.

- `src/` is the verified library (Verus): the bounded audio hand-off buffer
  (`audio_stream`), the request queue and playlist fallback (`broadcast`),
  the parsing of yt-dlp output (`text`, `track`, `source`, `ytdlp`), the
  decoder arguments (`decode`), the playlist (`playlist`) and the decisions
  behind the slash commands and the radio channel (`sinks::discord`).
- `app/` is the runtime around it: shared stream handles with a mutex and
  condition variable, the yt-dlp and ffmpeg processes, tokio tasks, and the
  serenity/songbird handlers.
- `tests/` runs the library on concrete inputs.
