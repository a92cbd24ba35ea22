# tux

The core of a small paper-trading service, written in Rust and verified with
Verus: exact decimal money arithmetic, an order state machine, risk limits, a
paper matching engine and portfolio accounting.

    market -> strategy intent -> risk -> order management -> paper matching -> portfolio

## Layout

- `src/` is the verified library. Every public function states in its contract
  what it returns and changes. Properties that span several functions stand
  beside them as proof functions whose names begin with `law_`.
  - `decimal` numbers and tick rounding, on top of `rust_decimal`
  - `ids`, `error`, `domain` identifiers, errors, and what is traded
  - `market`, `events` quotes and the event bus
  - `oms`, `sim`, `risk`, `portfolio` orders, matching, limits and books
  - `strategy`, `runtime`, `pipeline` strategies and the loop that runs them
  - `exchange` venue endpoints, rate limits and reconciliation
  - `control`, `live_feed`, `store` what requests, feeds and rows mean
  - `table`, `window`, `text`, `views` shared building blocks
- `app/` is the program around it: SQLite, the HTTP API, the price feed and the
  clockwork.
- `tests/` runs the library.

## Numbers out of range

Decimal numbers are finite. A function whose name begins with `try_` says with
`None` that a number on the way is out of range. The function of the same name
without the prefix asks for numbers that stay in range.

## What is trusted

Calls into `rust_decimal`, `uuid`, `chrono` and `tokio` stand behind small
wrappers. The comment above each says what is taken for granted about the call.
