# wallpaperengine_player

A player for [linux-wallpaperengine](https://github.com/Almamu/linux-wallpaperengine):
it plays the playlists of Wallpaper Engine, follows a profile, sorts the wallpapers
of a folder (`check`), picks a lock-screen wallpaper (`wallock`), and takes orders
(`next`, `prev`, `reload`, `stop`, `continue`) from `control` through a System V
message queue.

## Layout

- `src/` is the library, verified with Verus:
  - `json.rs`: the JSON documents the player reads (Wallpaper Engine's `config.json`, `project.json`);
  - `engine_config.rs`: playlists, profiles and folders of that configuration;
  - `check.rs`: the answers and decisions of `check`, and how it rewrites the folders;
  - `play.rs`: the play queue and what the player does after each wait;
  - `control.rs`: control actions, play states, and the messages of the queue;
  - `command.rs`: the command lines of `linux-wallpaperengine`;
  - `settings.rs`: the edits of the player's own `config.toml`;
  - `history.rs`: the CSV export of the play statistics;
  - `project.rs`, `util.rs`, `text.rs`, `error.rs`, `app_config.rs`: the rest.
- `app/` is the program: command line, files, processes, the message queue, SQLite, file watching.
- `tests/` exercises the library.
