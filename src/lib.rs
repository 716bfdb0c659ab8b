//! Ladder market-making engine: trading state, spacing model, quantity
//! distribution, ladder reconciliation and exchange request framing.
pub mod decode;
pub mod distribute;
pub mod events;
pub mod fixed;
pub mod gateway;
pub mod increment;
pub mod jsontext;
pub mod ladder;
pub mod number;
pub mod order;
pub mod reconciler;
pub mod setup;
pub mod state;
pub mod text;
pub mod wire;
