//! An on-ledger request/response oracle protocol.
//!
//! A caller submits a natural-language request, an off-ledger compute
//! provider answers it, and the answer comes back through an
//! authority-signed callback that can itself invoke a third, caller-chosen
//! program. This crate holds the protocol's verified core: the account
//! model, the lifecycle of contexts and interactions, and the callback
//! dispatcher with its security checks. The host runtime (account
//! persistence, transaction atomicity, signature enforcement, and the
//! cross-program invocation itself) stays outside.

pub mod accounts;
pub mod codec;
pub mod error;
pub mod laws;
pub mod ops;
pub mod state;

pub use accounts::{
    AccountMeta, Address, ContextAccount, Counter, Identity, Interaction, InteractionSlot,
};
pub use error::OracleError;
pub use ops::{
    callback_from_llm, callback_from_oracle, create_llm_context, initialize, interact_with_llm,
    CallbackDispatch, CallbackFromLlm, CallbackFromOracle, CreateLlmContext, Initialize,
    InteractWithLlm, Instruction,
};
pub use state::Ledger;
