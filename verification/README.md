# hitthebid

The verified core of an order-flow trading system for Nasdaq-100 index futures,
written in Verus. The functions under `src/` carry contracts that Verus proves, except
the few trusted wrappers in `src/clock.rs` and beside the date and timestamp parsing in
`src/pipeline/trades.rs`, whose contracts about `chrono`, `chrono-tz`, `uuid` and the
system clock are taken on trust.

## Units

Prices and distances are integers in hundredths of an index point (`2150025` is
21500.25), dollar amounts are cents, ratios and averages are kept exact (per mille, basis points,
or as fractions), days are UTC day numbers, trading hours and the daily summary's date
are New York time, and timestamps are milliseconds since the
Unix epoch.

## Layout

- `src/execution/`: orders and bracket orders with trailing stops, positions and daily
  P&L, the execution engine's admission of signals and its loss limits, and reconnection
  backoff.
- `src/pipeline/`: bars, volume profiles, daily levels (POC, value area, prior day and
  overnight levels), LVN extraction (impulse windows and whole sessions), the level
  index, the LVN retest signal generator and its backtest, the trading state machine,
  the live trader's per-bar decisions, the live session's bookkeeping, the
  three-element backtester (aggression, key levels, market state) and the smart LVN
  strategy.
- `src/processing.rs`: the order-flow processing of the chart server: bubbles,
  cumulative delta, the volume profile and absorption zones.
- `src/clock.rs`: the system clock, and the calls into `chrono`, `chrono-tz` and `uuid`.
- `app/`: a command-line front end that reads bars and LVNs from JSON files.
- `tests/`: scenarios run against the compiled library.
