//! What the concrete providers decide without doing I/O: their ids and
//! capabilities, model names, and endpoint URLs.

pub mod azure_openai;
pub mod candle;
pub mod fastembed;
pub mod mistralrs;
