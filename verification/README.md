# bot-azalea

A headless Minecraft player that answers tool calls. `src/` is the library: what each tool makes of
its arguments, what it decides, and what it answers; the link's frames and messages; the feeds and the
screens a client keeps. Every function in it is verified with Verus against its contract, but for a
few that only call something outside: `str::to_lowercase` and `String::push` (`words`), the regular
expressions of `regex` (`pattern`), and the reader of `serde_json` (`link::frame`). Their contracts are
believed, and each says what of.

`app/` is the process around it: sockets, tasks, the game client, and floating point. It reads the
client into the library's plain values, asks the library what to do or say, and does it.

`tests/` runs the library.

| | |
| --- | --- |
| `words`, `json`, `table`, `order`, `place`, `pattern` | what the rest is written in |
| `link`, `calls`, `bot`, `feeds`, `config`, `health` | the link and what goes over it |
| `game`, `hud`, `menus`, `editors`, `dialog`, `commands`, `text`, `style`, `tag`, `worldedit` | what a client keeps of the game |
| `tools` | the tools |
