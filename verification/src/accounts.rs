use vstd::prelude::*;

verus! {

/// Storage charged for the zero-payload Identity account.
pub const IDENTITY_SPACE: u64 = 8;

/// Storage charged for the singleton Counter account.
pub const COUNTER_SPACE: u64 = 8 + 32;

/// Fixed overhead of a ContextAccount, beyond its text bytes.
pub const CONTEXT_BASE_SPACE: u64 = 8 + 8;

/// Fixed overhead of an Interaction record, beyond its text bytes and its
/// account-meta list.
pub const INTERACTION_BASE_SPACE: u64 = 120;

/// Serialized footprint of one stored `AccountMeta`: 8 bytes of overhead plus
/// 32 bytes of address and one byte for each of the two flags.
pub const ACCOUNT_META_SPACE: u64 = 8 + 32 + 1 + 1;

/// An account address on the host ledger.
///
/// The protocol's own accounts live at addresses derived deterministically
/// from a fixed label plus seed data, so they are modeled as composite keys:
/// the label picks the variant and the seed data is the payload. Everything
/// else (wallets, target programs, arbitrary accounts in a callback's
/// account list) is an `External` key the protocol never derives.
#[derive(Clone, Copy, Debug, PartialEq, Eq, Structural)]
pub enum Address {
    /// An address outside the protocol's derivation scheme: a wallet, a
    /// target program, or any account a caller names in an account list.
    External(u64),
    /// The protocol's signing identity, derived from the label `"identity"`.
    Identity,
    /// The singleton counter, derived from the label `"counter"`.
    Counter,
    /// A context record, derived from the label `"context"` plus the counter
    /// value at the time it was created.
    Context(u32),
}

/// The `{address, is_signer, is_writable}` triple a callback entry point
/// expects for one of its accounts.
#[derive(Clone, Copy, Debug, PartialEq, Eq, Structural)]
pub struct AccountMeta {
    pub pubkey: Address,
    pub is_signer: bool,
    pub is_writable: bool,
}

impl AccountMeta {
    /// Storage charged per stored meta when sizing an Interaction record.
    pub fn size() -> (n: usize)
        ensures
            n == ACCOUNT_META_SPACE,
    {
        8 + 32 + 1 + 1
    }
}

/// The protocol-controlled signing identity: a zero-payload account whose
/// whole purpose is to exist at its derived address.
#[derive(Clone, Copy, Debug, PartialEq, Eq, Structural)]
pub struct Identity {}

/// The singleton counter indexing created contexts.
#[derive(Clone, Copy, Debug, PartialEq, Eq, Structural)]
pub struct Counter {
    pub count: u32,
}

/// One immutable piece of context text, addressed by the counter value at
/// its creation.
#[derive(Clone, Debug)]
pub struct ContextAccount {
    pub text: String,
}

impl ContextAccount {
    /// The derivation label of context addresses.
    pub fn seed() -> (s: &'static str)
        ensures
            s@ == "context"@,
    {
        "context"
    }
}

/// One in-flight request awaiting its callback.
#[derive(Clone, Debug)]
pub struct Interaction {
    /// Address of the context this request refers to.
    pub context: Address,
    /// The original requester, who paid the storage deposit.
    pub user: Address,
    /// The request payload.
    pub text: String,
    /// The program the dispatcher must invoke with the response.
    pub callback_program_id: Address,
    /// 8-byte selector of the target program's entry point.
    pub callback_discriminator: [u8; 8],
    /// The accounts, in order and with their access modes, that the callback
    /// entry point expects. Supplied by the requester at creation time.
    pub callback_account_metas: Vec<AccountMeta>,
}

impl Interaction {
    /// The derivation label of interaction addresses.
    pub fn seed() -> (s: &'static str)
        ensures
            s@ == "interaction"@,
    {
        "interaction"
    }
}

/// Mathematical model of an `Interaction` record.
pub struct InteractionV {
    pub context: Address,
    pub user: Address,
    pub text: Seq<char>,
    pub callback_program_id: Address,
    pub callback_discriminator: Seq<u8>,
    pub callback_account_metas: Seq<AccountMeta>,
}

impl View for Interaction {
    type V = InteractionV;

    open spec fn view(&self) -> InteractionV {
        InteractionV {
            context: self.context,
            user: self.user,
            text: self.text@,
            callback_program_id: self.callback_program_id,
            callback_discriminator: self.callback_discriminator@,
            callback_account_metas: self.callback_account_metas@,
        }
    }
}

/// An Interaction record together with the storage deposit its creation
/// locked up, which its consumption refunds to the requester.
#[derive(Clone, Debug)]
pub struct InteractionSlot {
    pub interaction: Interaction,
    pub deposit: u64,
}

/// Mathematical model of an occupied interaction address.
pub struct SlotV {
    pub interaction: InteractionV,
    pub deposit: u64,
}

impl View for InteractionSlot {
    type V = SlotV;

    open spec fn view(&self) -> SlotV {
        SlotV { interaction: self.interaction@, deposit: self.deposit }
    }
}

} // verus!
