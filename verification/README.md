# cantus

Cantus is a now-playing bar for Wayland desktops: a timeline of the Spotify
play queue with album art, ratings and playlist buttons, a weather and
calendar pill, and a system status pill.

`src/` is the verified core, checked with Verus:

- `layout`, `packing`, `texture`, `atlas`, `shader`, `pass`: the GPU data
  contract — WGSL storage layouts, packed words, texture writes, the texture
  atlas, pass options and stage signatures.
- `playback`, `player`, `playlists`, `art`, `cache`, `sync`, `auth`: the
  Spotify side — queue reconciliation, track actions, playlist membership
  and ratings, artwork and image-cache state, polling, and the OAuth/PKCE
  flow.
- `weather`, `calendar`, `labels`, `text`: weather codes, the month grid,
  track labels and the text helpers they use.
- `interaction`, `scene`, `glyphs`, `status`, `audio`, `config`: pointer
  interaction, pill drawing order and surface choices, glyph-atlas packing,
  power buttons, the default audio sink and the configuration enums.

`app/` is the program around it: configuration loading, the Spotify,
ReccoBeats and Open-Meteo clients, the PipeWire volume monitor, the shader
manifest lookups, and a text report of what plays.
