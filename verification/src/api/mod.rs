pub mod ibkr_client;
pub mod json;

pub use ibkr_client::{ChainReply, HttpRequest, IbkrClient, IbkrError};
pub use json::{Json, Number};
