//! Building, signing and gossiping fungible-token exchange intents.
//!
//! An intent is a signed statement of willingness to trade. This library
//! builds one from order parameters, signs it, gives it the byte form in
//! which it is stored and sent, and decides what a client says to a node of
//! the gossip network. Reading and writing files and sockets is left to the
//! caller.
//!
//! The modules, leaves first:
//!
//! * [`error`]: the failures a caller can observe;
//! * [`codec`]: the canonical byte layout of primitive fields;
//! * [`encoder`]: canonical encodings of whole values, and their laws;
//! * [`signing`]: key pairs and the signing envelope;
//! * [`intent`]: offers and the intents that carry them;
//! * [`keystore`]: which key pair signs for which address;
//! * [`builder`]: from order parameters to a signed intent;
//! * [`gossip`]: the messages sent to a node and the states of a connection.

pub mod builder;
pub mod codec;
pub mod encoder;
pub mod error;
pub mod gossip;
pub mod intent;
pub mod keystore;
pub mod signing;
