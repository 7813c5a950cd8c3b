# steam_suite

A Steam companion: idling and card farming through a bundled helper program, a
SteamGifts entry bot, won-gift tracking, inventories, key redemption, profile statistics,
achievements and save slots, with several Steam accounts side by side.

## Layout

- `src/` — the library, verified with Verus. It holds the rules of the application:
  the settings and the per-account profiles, the accounts file of the Steam client, the
  request rate limiter, the SteamGifts page readers and the bot's state machine, the
  known-wins set, the idling process table, the trading card cache, inventory pages,
  profile statistics, the scheduler chain, the helper and CLI arguments, and the checks of
  every answer the application receives. Each public function states what it returns in
  its contract; the laws that relate several functions are public proof functions
  (`law_*`).
- `app/` — the program around the library: files, processes, HTTP requests, timers and
  the command interface. It performs the I/O the library asks for and hands the results
  back.
- `tests/` — tests of the library on concrete values.

Calls into outside crates (`scraper`, `regex`, `reqwest`'s status reasons and a few
`std` functions) stand behind small trusted wrappers in `src/`, each with a contract that
names or states what the call returns.
