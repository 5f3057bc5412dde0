# market_engine

A verified core for a market-data alert engine, written in Verus.

Prices are integer ticks (`types::PRICE_SCALE` ticks per unit) and ratios
are thousandths, so every computation is exact and proved free of overflow.

- `src/` — the library, every function verified against its contract:
  coin and candle types; manual price alerts (shared price levels with
  subscriber counts, crossing detection that fires each level once); ATR
  indicator rules and the evaluators with per-candle duplicate suppression;
  subscription-message conversion; REST seeding requests and retry
  schedules; WebSocket message types; and a small HTTP request/response
  model (request-line and header parsing, response formatting).
- `tests/` — scenario tests and checks of the laws on concrete values.
- `app/` — the program around the library: the HTTP server loop, Redis
  publish/subscribe, REST seeding with waits, JSON (de)serialization and the
  conversion of decimal prices to ticks.
