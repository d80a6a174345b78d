# tf2monitor

The logic of TF2Monitor, a companion program for Team Fortress 2 players,
written as a Verus library with its behaviour proved:

- `steamid`: SteamID64, SteamID32 and `STEAM_0` forms and their conversions.
- `sourcebans`: the SourceBans sites searched, their search addresses, and the
  reading of their ban pages (the HTML parser is `scraper`).
- `reputation`: a player's reputation, the cache of reputations, the seven-day
  refetch rule, one pass of the reputation loop over a lobby, and the rows
  stored for bans and ban sources.
- `scoreboard`, `scoreboard_layout`: the scoreboard order and the layout of
  the scoreboard columns and lines.
- `player_database`, `player_details`, `feed`, `colors`, `friendships`: what the
  windows show.
- `app_settings`, `records`, `http_cache`, `appbus`, `text`: settings, stored
  rows, cache file names, console commands, and the string functions the
  rest is written with.

`app/` is a small command line program around the library: it reads
`settings.json`, keeps the SQLite store, fetches the SourceBans pages and
runs the reputation loop for the SteamIDs given on the command line.
