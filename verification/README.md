# kraken_bot

A Telegram-controlled trading bot for the Kraken exchange, split in two:

- `src/` — the library, verified with Verus: reading balances, ticker prices
  and OHLC candles out of the exchange's messages; the rolling window of
  closing prices; the bot's book (positions, prices, multipliers, per-symbol
  configuration); the signal and trade decisions; waiting for balances and
  order answers; and the chat commands and notification levels.
- `app/` — the program around it: the Kraken websocket and REST calls, the
  Telegram bot, timers and threads, and the floating-point arithmetic on
  prices (returns, order sizes, rounding, report formatting).

Amounts and prices are a type parameter of the library; the program uses
`f64`. Multipliers are kept in half steps (2 is 1.0).
