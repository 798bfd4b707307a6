# bridgetest

The verified core of a proxy that lets a Luanti client play on a Minecraft
server. The library in `src/` holds the proxy's own logic, each function
with a contract proved by Verus; `app/` is the thin command-line layer that
reads settings and files.

Modules:

- `entities` – client-side entity id allocation (free ranges, defragmentation)
  and the server/client id map, with laws on the id partition.
- `light` – decoding Minecraft section light layers and caching light per
  section for later single-block updates.
- `world` – dimension heights, coordinate mirroring, day time, map nodes.
- `textures`, `media` – texture names, block face textures, variant
  selection, media announcements.
- `nodedef` – node and item definitions sent to the client.
- `player`, `chat` – HUD bars, status-effect icons, key input, user names,
  subtitles.
- `inventory`, `containers` – inventory slot mapping, click plans, container
  properties, stonecutter and loom options, and form submissions.
- `entity_model`, `particles` – entity appearance and particle spawners.
- `text`, `settings` – small verified string helpers and argument checks.

`tests/` exercises the library on concrete values.

The network side of the proxy (the Luanti and Minecraft protocol
libraries and the async runtime it runs on) is not part of this crate, so
the program in `app/` does not connect anywhere: it loads the settings,
prints the player name it would log in with, and counts the media files it
would announce to a client.
