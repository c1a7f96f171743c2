use vstd::prelude::*;

use vstd::utf8::encode_utf8;

use crate::accounts::{
    AccountMeta, Address, ContextAccount, Counter, Identity, Interaction, InteractionSlot,
    InteractionV, SlotV, ACCOUNT_META_SPACE, CONTEXT_BASE_SPACE, COUNTER_SPACE, IDENTITY_SPACE,
    INTERACTION_BASE_SPACE,
};
use crate::codec::{build_payload, callback_payload, serializable};
use crate::error::OracleError;
use crate::state::{
    context_exists, has_slot, lemma_slot_index_unique, slot_index, slot_matches, Ledger, LedgerV,
};

verus! {

/// The accounts `initialize` touches: the funder paying for the two
/// protocol accounts it creates.
#[derive(Clone, Copy, Debug)]
pub struct Initialize {
    /// The funder's address.
    pub payer: Address,
    /// What the funder can spend on storage deposits.
    pub payer_lamports: u64,
}

/// The accounts `create_llm_context` touches.
#[derive(Clone, Copy, Debug)]
pub struct CreateLlmContext {
    /// The funder's address.
    pub payer: Address,
    /// What the funder can spend on storage deposits.
    pub payer_lamports: u64,
}

/// The accounts `interact_with_llm` touches.
#[derive(Clone, Copy, Debug)]
pub struct InteractWithLlm {
    /// The requester, who signs, pays the deposit, and will receive it back
    /// when the interaction is consumed.
    pub payer: Address,
    /// What the requester can spend on the storage deposit.
    pub payer_lamports: u64,
    /// Address of the context the request refers to.
    pub context_account: Address,
}

/// The accounts `callback_from_llm` touches. The interaction to close is
/// identified by the two seeds its address derives from: the requester and
/// the context address.
#[derive(Debug)]
pub struct CallbackFromLlm {
    /// The responder paying the transaction.
    pub payer: Address,
    /// The original requester: first seed of the interaction's address.
    pub user: Address,
    /// The context address: second seed of the interaction's address.
    pub context_account: Address,
    /// The target program account handed to the runtime for the call.
    pub program: Address,
    /// The open-ended trailing account list supplied by the responder,
    /// meant to match the stored callback account metas.
    pub remaining_accounts: Vec<AccountMeta>,
}

/// The accounts `callback_from_oracle` touches: only the Identity account,
/// whose signature alone decides the call.
#[derive(Clone, Copy, Debug)]
pub struct CallbackFromOracle {
    /// Whether the Identity account signed the enclosing transaction.
    pub identity_is_signer: bool,
}

/// A fully built cross-program call, ready for the host runtime to invoke
/// and to sign as Identity with the derivation proof.
#[derive(Debug)]
pub struct Instruction {
    /// The program to invoke.
    pub program_id: Address,
    /// The accounts the invoked entry point receives: Identity first, as
    /// signer, then the stored callback account metas in order.
    pub accounts: Vec<AccountMeta>,
    /// The payload: selector, then serialized response.
    pub data: Vec<u8>,
}

/// Everything a successful `callback_from_llm` hands the host runtime: the
/// call to dispatch, the accounts to make available to it, and the storage
/// deposit refund owed to the original requester.
#[derive(Debug)]
pub struct CallbackDispatch {
    pub instruction: Instruction,
    /// The accounts made available to the invoked program: the trailing
    /// accounts, then Identity, then the target program account.
    pub account_context: Vec<Address>,
    /// Who receives the reclaimed storage deposit: the original requester.
    pub refund_to: Address,
    /// The reclaimed deposit.
    pub refund_amount: u64,
}

/// Storage charged for a context record holding `text`.
pub open spec fn context_space(text: Seq<char>) -> int {
    CONTEXT_BASE_SPACE + encode_utf8(text).len()
}

/// Storage charged for an interaction record holding `text` and `n_metas`
/// account metas.
pub open spec fn interaction_space(text: Seq<char>, n_metas: int) -> int {
    INTERACTION_BASE_SPACE + encode_utf8(text).len() + n_metas * ACCOUNT_META_SPACE
}

/// The effective account-meta list of a request: empty when omitted.
pub open spec fn spec_metas(metas: Option<Vec<AccountMeta>>) -> Seq<AccountMeta> {
    match metas {
        Some(v) => v@,
        None => Seq::empty(),
    }
}

/// What `initialize` returns on a given state: it fails if either derived
/// address is already occupied (initialization is deliberately not
/// idempotent), or if the funder cannot cover both deposits.
pub open spec fn initialize_outcome(l: LedgerV, ctx: Initialize) -> Result<(), OracleError> {
    if l.identity_exists || l.counter is Some {
        Err(OracleError::AddressInUse)
    } else if ctx.payer_lamports < IDENTITY_SPACE + COUNTER_SPACE {
        Err(OracleError::InsufficientFunds)
    } else {
        Ok(())
    }
}

/// The state a successful `initialize` leaves: Identity exists and the
/// counter starts at zero.
pub open spec fn initialize_post(l: LedgerV) -> LedgerV {
    LedgerV { identity_exists: true, counter: Some(0u32), ..l }
}

/// Creates the Identity and Counter accounts at their derived addresses,
/// paid for by the funder. Fails if either address is already in use:
/// calling twice errors rather than silently succeeding.
pub fn initialize(ledger: &mut Ledger, ctx: Initialize) -> (r: Result<(), OracleError>)
    requires
        old(ledger).wf(),
    ensures
        final(ledger).wf(),
        r == initialize_outcome(old(ledger)@, ctx),
        r is Ok ==> final(ledger)@ == initialize_post(old(ledger)@),
        r is Err ==> final(ledger)@ == old(ledger)@,
{
    if ledger.identity.is_some() || ledger.counter.is_some() {
        return Err(OracleError::AddressInUse);
    }
    if ctx.payer_lamports < IDENTITY_SPACE + COUNTER_SPACE {
        return Err(OracleError::InsufficientFunds);
    }
    ledger.identity = Some(Identity {});
    ledger.counter = Some(Counter { count: 0 });
    proof {
        assert(ledger@ =~= initialize_post(old(ledger)@));
    }
    Ok(())
}

/// What `create_llm_context` returns on a given state: it fails if the
/// protocol is not initialized (the Counter account is missing) or if the
/// funder cannot cover the record's deposit. The derived address itself can
/// never collide: the counter only ever grows.
pub open spec fn create_outcome(l: LedgerV, ctx: CreateLlmContext, text: Seq<char>) -> Result<
    (),
    OracleError,
> {
    if l.counter is None {
        Err(OracleError::AccountNotFound)
    } else if (ctx.payer_lamports as int) < context_space(text) {
        Err(OracleError::InsufficientFunds)
    } else {
        Ok(())
    }
}

/// The state a successful `create_llm_context` leaves: the text appended at
/// the address indexed by the old counter value, and the counter advanced by
/// exactly one.
pub open spec fn create_post(l: LedgerV, text: Seq<char>) -> LedgerV {
    LedgerV {
        counter: Some((l.counter->Some_0 + 1) as u32),
        contexts: l.contexts.push(text),
        ..l
    }
}

/// Allocates a new immutable context record at the address derived from the
/// current counter value, then increments the counter by one, so creation
/// and indexing agree.
pub fn create_llm_context(ledger: &mut Ledger, ctx: CreateLlmContext, text: String) -> (r: Result<
    (),
    OracleError,
>)
    requires
        old(ledger).wf(),
        old(ledger)@.contexts.len() < u32::MAX,
        encode_utf8(text@).len() <= usize::MAX,
    ensures
        final(ledger).wf(),
        r == create_outcome(old(ledger)@, ctx, text@),
        r is Ok ==> final(ledger)@ == create_post(old(ledger)@, text@),
        r is Err ==> final(ledger)@ == old(ledger)@,
{
    let count = match &ledger.counter {
        None => {
            return Err(OracleError::AccountNotFound);
        },
        Some(c) => c.count,
    };
    let text_len: usize = text.as_str().len();
    if ctx.payer_lamports < CONTEXT_BASE_SPACE {
        return Err(OracleError::InsufficientFunds);
    }
    if ctx.payer_lamports - CONTEXT_BASE_SPACE < text_len as u64 {
        return Err(OracleError::InsufficientFunds);
    }
    ledger.contexts.push(ContextAccount { text });
    ledger.counter = Some(Counter { count: count + 1 });
    proof {
        assert(ledger@.contexts =~= create_post(old(ledger)@, text@).contexts);
        assert(ledger@ =~= create_post(old(ledger)@, text@));
        assert forall|i: int| 0 <= i < ledger@.interactions.len() implies ledger@.slot_wf(i) by {
            assert(old(ledger)@.slot_wf(i));
        }
    }
    Ok(())
}

/// What `interact_with_llm` returns on a given state: the referenced context
/// must exist; the interaction address derived from the requester and that
/// context must be free (a second live request for the same pair collides
/// rather than overwriting); and the requester must cover the record's
/// deposit, sized to exactly fit the text and the meta list.
pub open spec fn interact_outcome(
    l: LedgerV,
    ctx: InteractWithLlm,
    text: Seq<char>,
    metas: Seq<AccountMeta>,
) -> Result<(), OracleError> {
    if !context_exists(l, ctx.context_account) {
        Err(OracleError::AccountNotFound)
    } else if has_slot(l.interactions, ctx.payer, ctx.context_account) {
        Err(OracleError::AddressInUse)
    } else if (ctx.payer_lamports as int) < interaction_space(text, metas.len() as int) {
        Err(OracleError::InsufficientFunds)
    } else {
        Ok(())
    }
}

/// The record a successful `interact_with_llm` stores, along with the
/// deposit its creation locks up.
pub open spec fn interact_slot(
    ctx: InteractWithLlm,
    text: Seq<char>,
    callback_program_id: Address,
    callback_discriminator: Seq<u8>,
    metas: Seq<AccountMeta>,
) -> SlotV {
    SlotV {
        interaction: InteractionV {
            context: ctx.context_account,
            user: ctx.payer,
            text: text,
            callback_program_id: callback_program_id,
            callback_discriminator: callback_discriminator,
            callback_account_metas: metas,
        },
        deposit: interaction_space(text, metas.len() as int) as u64,
    }
}

/// The state a successful `interact_with_llm` leaves: the new record at the
/// address derived from the requester and the context, everything else
/// untouched.
pub open spec fn interact_post(
    l: LedgerV,
    ctx: InteractWithLlm,
    text: Seq<char>,
    callback_program_id: Address,
    callback_discriminator: Seq<u8>,
    metas: Seq<AccountMeta>,
) -> LedgerV {
    LedgerV {
        interactions: l.interactions.push(
            interact_slot(ctx, text, callback_program_id, callback_discriminator, metas),
        ),
        ..l
    }
}

/// Creates an in-flight request record referencing an existing context,
/// populated exactly as given; the account-meta list defaults to empty when
/// omitted. No validation is performed on the callback target or selector —
/// authorization is deferred entirely to dispatch time.
pub fn interact_with_llm(
    ledger: &mut Ledger,
    ctx: InteractWithLlm,
    text: String,
    callback_program_id: Address,
    callback_discriminator: [u8; 8],
    account_metas: Option<Vec<AccountMeta>>,
) -> (r: Result<(), OracleError>)
    requires
        old(ledger).wf(),
        encode_utf8(text@).len() <= usize::MAX,
    ensures
        final(ledger).wf(),
        r == interact_outcome(old(ledger)@, ctx, text@, spec_metas(account_metas)),
        r is Ok ==> final(ledger)@ == interact_post(
            old(ledger)@,
            ctx,
            text@,
            callback_program_id,
            callback_discriminator@,
            spec_metas(account_metas),
        ),
        r is Err ==> final(ledger)@ == old(ledger)@,
{
    let seq_no = match ctx.context_account {
        Address::Context(k) => k,
        _ => {
            return Err(OracleError::AccountNotFound);
        },
    };
    if !((seq_no as usize) < ledger.contexts.len()) {
        return Err(OracleError::AccountNotFound);
    }
    let n = ledger.interactions.len();
    let mut i: usize = 0;
    while i < n
        invariant
            old(ledger).wf(),
            ledger == old(ledger),
            ctx.context_account == Address::Context(seq_no),
            (seq_no as int) < old(ledger)@.contexts.len(),
            0 <= i <= n,
            n == old(ledger)@.interactions.len(),
            forall|j: int|
                0 <= j < i ==> !slot_matches(
                    #[trigger] old(ledger)@.interactions[j],
                    ctx.payer,
                    ctx.context_account,
                ),
        decreases n - i,
    {
        let slot = &ledger.interactions[i];
        if slot.interaction.user == ctx.payer && slot.interaction.context == ctx.context_account {
            proof {
                assert(slot_matches(
                    old(ledger)@.interactions[i as int],
                    ctx.payer,
                    ctx.context_account,
                ));
            }
            return Err(OracleError::AddressInUse);
        }
        i += 1;
    }
    proof {
        assert(!has_slot(old(ledger)@.interactions, ctx.payer, ctx.context_account));
        assert(context_exists(old(ledger)@, ctx.context_account));
    }
    let text_len: usize = text.as_str().len();
    let n_metas: usize = match &account_metas {
        Some(v) => v.len(),
        None => 0,
    };
    proof {
        assert((n_metas as int) * (ACCOUNT_META_SPACE as int) >= 0) by (nonlinear_arith)
            requires
                n_metas as int >= 0,
        ;
    }
    if ctx.payer_lamports < INTERACTION_BASE_SPACE {
        return Err(OracleError::InsufficientFunds);
    }
    let after_base = ctx.payer_lamports - INTERACTION_BASE_SPACE;
    if after_base < text_len as u64 {
        return Err(OracleError::InsufficientFunds);
    }
    let after_text = after_base - text_len as u64;
    if after_text / ACCOUNT_META_SPACE < n_metas as u64 {
        proof {
            assert((after_text as int) < (n_metas as int) * (ACCOUNT_META_SPACE as int))
                by (nonlinear_arith)
                requires
                    (after_text as int) / (ACCOUNT_META_SPACE as int) < n_metas as int,
                    after_text as int >= 0,
            ;
        }
        return Err(OracleError::InsufficientFunds);
    }
    proof {
        assert((n_metas as int) * (ACCOUNT_META_SPACE as int) <= after_text as int)
            by (nonlinear_arith)
            requires
                n_metas as int <= (after_text as int) / (ACCOUNT_META_SPACE as int),
                after_text as int >= 0,
        ;
    }
    let deposit: u64 = INTERACTION_BASE_SPACE + text_len as u64 + (n_metas as u64)
        * ACCOUNT_META_SPACE;
    let metas_vec: Vec<AccountMeta> = match account_metas {
        Some(v) => v,
        None => Vec::new(),
    };
    ledger.interactions.push(
        InteractionSlot {
            interaction: Interaction {
                context: ctx.context_account,
                user: ctx.payer,
                text,
                callback_program_id,
                callback_discriminator,
                callback_account_metas: metas_vec,
            },
            deposit,
        },
    );
    proof {
        let post = interact_post(
            old(ledger)@,
            ctx,
            text@,
            callback_program_id,
            callback_discriminator@,
            spec_metas(account_metas),
        );
        assert(ledger@.interactions =~= post.interactions);
        assert(ledger@ =~= post);
        assert forall|p: int| 0 <= p < ledger@.interactions.len() implies ledger@.slot_wf(p) by {
            if p < old(ledger)@.interactions.len() {
                assert(old(ledger)@.slot_wf(p));
            }
        }
    }
    Ok(())
}

/// Whether the trailing-accounts list smuggles in the original requester's
/// address — in any position, with any role flags.
pub open spec fn forbidden_account_present(remaining: Seq<AccountMeta>, user: Address) -> bool {
    exists|i: int| 0 <= i < remaining.len() && (#[trigger] remaining[i]).pubkey == user
}

/// The meta under which Identity authorizes the outbound call: signer, not
/// writable — it owns no mutable state.
pub open spec fn identity_meta() -> AccountMeta {
    AccountMeta { pubkey: Address::Identity, is_signer: true, is_writable: false }
}

/// The outbound account list: Identity first, then the stored callback
/// account metas with address and role flags exactly as stored.
pub open spec fn dispatch_accounts(metas: Seq<AccountMeta>) -> Seq<AccountMeta> {
    seq![identity_meta()] + metas
}

/// What `callback_from_llm` returns on a given state: the interaction must
/// exist at the address derived from the requester and the context; the
/// response must be serializable; and the trailing accounts must not contain
/// the requester's address, whatever its position or flags.
pub open spec fn callback_outcome(
    l: LedgerV,
    user: Address,
    context: Address,
    remaining: Seq<AccountMeta>,
    response: Seq<char>,
) -> Result<(), OracleError> {
    if !has_slot(l.interactions, user, context) {
        Err(OracleError::AccountNotFound)
    } else if !serializable(response) {
        Err(OracleError::SerializationFailed)
    } else if forbidden_account_present(remaining, user) {
        Err(OracleError::InvalidAccount)
    } else {
        Ok(())
    }
}

/// The state a successful `callback_from_llm` leaves: the consumed
/// interaction's address unoccupied, everything else untouched.
pub open spec fn callback_post(l: LedgerV, user: Address, context: Address) -> LedgerV {
    LedgerV { interactions: l.interactions.remove(slot_index(l.interactions, user, context)), ..l }
}

/// Consumes an interaction and dispatches its callback: builds the payload
/// (selector, then the serialized response), puts Identity first in the
/// outbound account list as the signing authority, rejects any trailing
/// account equal to the original requester, and on success destroys the
/// record and owes its deposit back to the requester. Any failure leaves the
/// ledger untouched, so the request stays intact for a retry.
pub fn callback_from_llm(ledger: &mut Ledger, ctx: CallbackFromLlm, response: String) -> (r:
    Result<CallbackDispatch, OracleError>)
    requires
        old(ledger).wf(),
    ensures
        final(ledger).wf(),
        r is Ok <==> callback_outcome(
            old(ledger)@,
            ctx.user,
            ctx.context_account,
            ctx.remaining_accounts@,
            response@,
        ) is Ok,
        r matches Err(e) ==> Err::<(), OracleError>(e) == callback_outcome(
            old(ledger)@,
            ctx.user,
            ctx.context_account,
            ctx.remaining_accounts@,
            response@,
        ) && final(ledger)@ == old(ledger)@,
        r matches Ok(out) ==> {
            let l0 = old(ledger)@;
            let idx = slot_index(l0.interactions, ctx.user, ctx.context_account);
            let stored = l0.interactions[idx].interaction;
            &&& final(ledger)@ == callback_post(l0, ctx.user, ctx.context_account)
            &&& out.instruction.program_id == stored.callback_program_id
            &&& out.instruction.accounts@ == dispatch_accounts(stored.callback_account_metas)
            &&& out.instruction.data@ == callback_payload(
                stored.callback_discriminator,
                response@,
            )
            &&& out.account_context@ == ctx.remaining_accounts@.map_values(
                |m: AccountMeta| m.pubkey,
            ).push(Address::Identity).push(ctx.program)
            &&& out.refund_to == stored.user
            &&& out.refund_amount == l0.interactions[idx].deposit
        },
{
    let n = ledger.interactions.len();
    let mut i: usize = 0;
    let mut idx_opt: Option<usize> = None;
    while i < n
        invariant
            old(ledger).wf(),
            ledger == old(ledger),
            0 <= i <= n,
            n == old(ledger)@.interactions.len(),
            match idx_opt {
                Some(k) => (k as int) < i && slot_matches(
                    old(ledger)@.interactions[k as int],
                    ctx.user,
                    ctx.context_account,
                ),
                None => forall|j: int|
                    0 <= j < i ==> !slot_matches(
                        #[trigger] old(ledger)@.interactions[j],
                        ctx.user,
                        ctx.context_account,
                    ),
            },
        decreases n - i,
    {
        if idx_opt.is_none() {
            let slot = &ledger.interactions[i];
            if slot.interaction.user == ctx.user && slot.interaction.context
                == ctx.context_account {
                idx_opt = Some(i);
            }
        }
        i += 1;
    }
    let idx = match idx_opt {
        None => {
            proof {
                assert(!has_slot(old(ledger)@.interactions, ctx.user, ctx.context_account));
            }
            return Err(OracleError::AccountNotFound);
        },
        Some(k) => k,
    };
    proof {
        lemma_slot_index_unique(
            old(ledger)@.interactions,
            ctx.user,
            ctx.context_account,
            idx as int,
        );
    }
    let data = match build_payload(
        &ledger.interactions[idx].interaction.callback_discriminator,
        &response,
    ) {
        None => {
            return Err(OracleError::SerializationFailed);
        },
        Some(d) => d,
    };
    let m = ctx.remaining_accounts.len();
    let mut j: usize = 0;
    while j < m
        invariant
            0 <= j <= m,
            m == ctx.remaining_accounts@.len(),
            ledger == old(ledger),
            old(ledger).wf(),
            has_slot(old(ledger)@.interactions, ctx.user, ctx.context_account),
            serializable(response@),
            forall|k: int|
                0 <= k < j ==> (#[trigger] ctx.remaining_accounts@[k]).pubkey != ctx.user,
        decreases m - j,
    {
        if ctx.remaining_accounts[j].pubkey == ctx.user {
            return Err(OracleError::InvalidAccount);
        }
        j += 1;
    }
    proof {
        assert(!forbidden_account_present(ctx.remaining_accounts@, ctx.user));
    }
    let slot = ledger.interactions.remove(idx);
    let mut accounts: Vec<AccountMeta> = Vec::new();
    accounts.push(AccountMeta { pubkey: Address::Identity, is_signer: true, is_writable: false });
    let nm = slot.interaction.callback_account_metas.len();
    let mut k: usize = 0;
    while k < nm
        invariant
            0 <= k <= nm,
            nm == slot.interaction.callback_account_metas@.len(),
            accounts@ == seq![identity_meta()] + slot.interaction.callback_account_metas@.subrange(
                0,
                k as int,
            ),
        decreases nm - k,
    {
        accounts.push(slot.interaction.callback_account_metas[k]);
        proof {
            assert(accounts@ =~= seq![identity_meta()]
                + slot.interaction.callback_account_metas@.subrange(0, k + 1 as int));
        }
        k += 1;
    }
    proof {
        assert(accounts@ =~= dispatch_accounts(slot.interaction.callback_account_metas@));
    }
    let mut account_context: Vec<Address> = Vec::new();
    let mut t: usize = 0;
    while t < m
        invariant
            0 <= t <= m,
            m == ctx.remaining_accounts@.len(),
            account_context@ == ctx.remaining_accounts@.subrange(0, t as int).map_values(
                |mm: AccountMeta| mm.pubkey,
            ),
        decreases m - t,
    {
        account_context.push(ctx.remaining_accounts[t].pubkey);
        proof {
            assert(account_context@ =~= ctx.remaining_accounts@.subrange(
                0,
                t + 1 as int,
            ).map_values(|mm: AccountMeta| mm.pubkey));
        }
        t += 1;
    }
    proof {
        assert(ctx.remaining_accounts@.subrange(0, m as int) =~= ctx.remaining_accounts@);
    }
    account_context.push(Address::Identity);
    account_context.push(ctx.program);
    let out = CallbackDispatch {
        instruction: Instruction {
            program_id: slot.interaction.callback_program_id,
            accounts,
            data,
        },
        account_context,
        refund_to: slot.interaction.user,
        refund_amount: slot.deposit,
    };
    proof {
        let l0 = old(ledger)@;
        assert(ledger@.interactions =~= l0.interactions.remove(idx as int));
        assert(ledger@ =~= callback_post(l0, ctx.user, ctx.context_account));
        assert(out.account_context@ =~= ctx.remaining_accounts@.map_values(
            |mm: AccountMeta| mm.pubkey,
        ).push(Address::Identity).push(ctx.program));
        assert forall|p: int| 0 <= p < ledger@.interactions.len() implies ledger@.slot_wf(p) by {
            if p < idx as int {
                assert(old(ledger)@.slot_wf(p));
            } else {
                assert(old(ledger)@.slot_wf(p + 1));
            }
        }
        assert forall|p: int, q: int|
            0 <= p < q < ledger@.interactions.len() implies !slot_matches(
            ledger@.interactions[q],
            ledger@.interactions[p].interaction.user,
            ledger@.interactions[p].interaction.context,
        ) by {
            let p0 = if p < idx as int {
                p
            } else {
                p + 1
            };
            let q0 = if q < idx as int {
                q
            } else {
                q + 1
            };
            assert(ledger@.interactions[p] == old(ledger)@.interactions[p0]);
            assert(ledger@.interactions[q] == old(ledger)@.interactions[q0]);
        }
    }
    Ok(out)
}

/// What `callback_from_oracle` returns on a given state: it fails if the
/// Identity account does not exist, or — the sole check this path makes — if
/// Identity did not sign.
pub open spec fn oracle_outcome(l: LedgerV, ctx: CallbackFromOracle) -> Result<(), OracleError> {
    if !l.identity_exists {
        Err(OracleError::AccountNotFound)
    } else if !ctx.identity_is_signer {
        Err(OracleError::InvalidAccount)
    } else {
        Ok(())
    }
}

/// The direct reporting path: a trusted external responder calls back into
/// this program, guarded solely by the Identity signature. On success the
/// response is handed back as the log line to emit. Nothing is mutated —
/// the ledger is not even taken mutably.
pub fn callback_from_oracle(ledger: &Ledger, ctx: CallbackFromOracle, response: String) -> (r:
    Result<String, OracleError>)
    ensures
        r is Ok <==> oracle_outcome(ledger@, ctx) is Ok,
        r matches Err(e) ==> Err::<(), OracleError>(e) == oracle_outcome(ledger@, ctx),
        r matches Ok(log) ==> log@ == response@,
{
    if ledger.identity.is_none() {
        return Err(OracleError::AccountNotFound);
    }
    if !ctx.identity_is_signer {
        return Err(OracleError::InvalidAccount);
    }
    Ok(response)
}

} // verus!
