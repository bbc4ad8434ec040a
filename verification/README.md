# binance_bot

A Binance USDⓈ-M futures trading bot whose decisions are verified with
Verus.

- `src/` is the verified library:
  - `decimal`, `text`, `codec`: exact decimals (backed by `rust_decimal`),
    text operations, JSON string literals, hexadecimal and Base64.
  - `utils`: endpoints, the exchange's symbol rules and order sizing
    (`calc_quantity`).
  - `ed25519`, `ws_api`: keys, signatures and the WebSocket API requests.
  - `bot`, `market`, `trading`: the order book, the position count, the
    quote balances, the price gaps and their median, and when and how to
    buy and sell; `trading` also holds the laws that tie these together.
  - `rest_api`, `chat_api`, `logger`: kline queries, the chat-model signal,
    and where the logs go.
- `tests/` exercises the library on concrete values.
- `app/` is the process around it: the connections, timers, JSON shapes
  and logging setup.
