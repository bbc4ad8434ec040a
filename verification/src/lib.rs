//! A Binance USDⓈ-M futures trading bot: request framing, order sizing,
//! the order book-keeping that drives buying and selling, and the kline
//! analysis that asks a chat model for a signal.
pub mod decimal;
pub mod text;
pub mod utils;
pub mod codec;
pub mod ed25519;
pub mod ws_api;
pub mod bot;
pub mod market;
pub mod trading;
pub mod rest_api;
pub mod chat_api;
pub mod logger;
