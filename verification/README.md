# sol_shell

The policy of the SOL desktop shell — top bar, dock, launcher, overview,
notification center, quick settings, system overlays, consent prompts and the
status providers behind them — written in Verus and proved against its
contracts.

Layout:

- `src/` — the verified library. Each module owns one piece of shell
  behaviour and states it over plain mathematical models (`Seq`, `Map`,
  `Multiset`, spec functions); laws that relate several operations are public
  proof functions beside the code they speak of.
- `tests/` — ordinary Rust tests that run the library on concrete values.
- `app/` — a small headless status agent around the library: it reads the
  system bus (NetworkManager, UPower, BlueZ), `pactl` and the clock, hands
  plain values to the library, and prints what the bar and dock would show.
