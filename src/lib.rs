pub mod app;
pub mod builder;
pub mod digest;
pub mod epoch;
pub mod le;
pub mod note;
pub mod pending_block;
pub mod request_ext;
pub mod state;
pub mod sum;
pub mod transaction;
pub mod tree;
pub mod validator;
pub mod verify;
pub mod wallet;
pub mod wire;
