use vstd::prelude::*;

use crate::accounts::{AccountMeta, Address};
use crate::error::OracleError;
use crate::ops::{
    callback_outcome, callback_post, create_outcome, create_post, interact_outcome, interact_post,
    CreateLlmContext, InteractWithLlm,
};
use crate::state::{
    context_address, context_exists, has_slot, slot_index, slot_matches, LedgerV,
};

verus! {

/// Law: context addressing is injective. Distinct counter values derive
/// distinct context addresses, and in any well-formed state the counter
/// equals the number of contexts ever created — creations are append-only
/// and each advances the counter by exactly one — so after N successful
/// creations the counter reads N.
pub proof fn lemma_context_addresses_injective(l: LedgerV)
    requires
        l.wf(),
    ensures
        forall|i: u32, j: u32| i != j ==> context_address(i) != context_address(j),
        l.counter matches Some(c) ==> c as int == l.contexts.len(),
{
}

/// Law: each successful creation stores its context at the address indexed
/// by the counter value it read, and advances the counter by exactly one, so
/// every context corresponds to a distinct counter value.
pub proof fn lemma_create_advances_counter(l: LedgerV, ctx: CreateLlmContext, text: Seq<char>)
    requires
        l.wf(),
        create_outcome(l, ctx, text) is Ok,
    ensures
        create_post(l, text).counter == Some((l.counter->Some_0 + 1) as u32),
        create_post(l, text).contexts.len() == l.contexts.len() + 1,
        create_post(l, text).contexts[l.counter->Some_0 as int] == text,
        context_exists(create_post(l, text), context_address(l.counter->Some_0)),
{
}

/// Law: a second `interact_with_llm` by the same requester against the same
/// context, while the first request is still live, collides at the derived
/// interaction address and fails — it can never silently overwrite,
/// whatever its text, payload or funding.
pub proof fn lemma_interact_never_overwrites(
    l: LedgerV,
    ctx1: InteractWithLlm,
    text1: Seq<char>,
    callback_program_id: Address,
    callback_discriminator: Seq<u8>,
    metas1: Seq<AccountMeta>,
    ctx2: InteractWithLlm,
    text2: Seq<char>,
    metas2: Seq<AccountMeta>,
)
    requires
        l.wf(),
        interact_outcome(l, ctx1, text1, metas1) is Ok,
        ctx2.payer == ctx1.payer,
        ctx2.context_account == ctx1.context_account,
    ensures
        interact_outcome(
            interact_post(l, ctx1, text1, callback_program_id, callback_discriminator, metas1),
            ctx2,
            text2,
            metas2,
        ) == Err::<(), OracleError>(OracleError::AddressInUse),
{
    let l2 = interact_post(l, ctx1, text1, callback_program_id, callback_discriminator, metas1);
    assert(context_exists(l2, ctx2.context_account));
    let w = l.interactions.len() as int;
    assert(slot_matches(l2.interactions[w], ctx2.payer, ctx2.context_account));
    assert(has_slot(l2.interactions, ctx2.payer, ctx2.context_account));
}

/// Law: a successful callback leaves the consumed interaction's address
/// unoccupied — its storage reclaimed for the requester — and touches
/// nothing else: contexts, counter, Identity, and every other live
/// interaction survive unchanged.
pub proof fn lemma_callback_reclaims_address(
    l: LedgerV,
    user: Address,
    context: Address,
    remaining: Seq<AccountMeta>,
    response: Seq<char>,
)
    requires
        l.wf(),
        callback_outcome(l, user, context, remaining, response) is Ok,
    ensures
        !has_slot(callback_post(l, user, context).interactions, user, context),
        callback_post(l, user, context).contexts == l.contexts,
        callback_post(l, user, context).counter == l.counter,
        callback_post(l, user, context).identity_exists == l.identity_exists,
        callback_post(l, user, context).interactions.len() == l.interactions.len() - 1,
        forall|u: Address, c: Address|
            !(u == user && c == context) ==> (has_slot(
                #[trigger] callback_post(l, user, context).interactions,
                u,
                c,
            ) <==> has_slot(l.interactions, u, c)),
{
    let idx = slot_index(l.interactions, user, context);
    assert(0 <= idx < l.interactions.len() && slot_matches(l.interactions[idx], user, context));
    let post = callback_post(l, user, context).interactions;
    assert forall|p: int| 0 <= p < post.len() implies !slot_matches(post[p], user, context) by {
        let p0 = if p < idx {
            p
        } else {
            p + 1
        };
        assert(post[p] == l.interactions[p0]);
        if slot_matches(l.interactions[p0], user, context) {
            if p0 < idx {
                assert(!slot_matches(
                    l.interactions[idx],
                    l.interactions[p0].interaction.user,
                    l.interactions[p0].interaction.context,
                ));
            } else {
                assert(!slot_matches(
                    l.interactions[p0],
                    l.interactions[idx].interaction.user,
                    l.interactions[idx].interaction.context,
                ));
            }
        }
    }
    assert forall|u: Address, c: Address| !(u == user && c == context) implies (has_slot(
        #[trigger] callback_post(l, user, context).interactions,
        u,
        c,
    ) <==> has_slot(l.interactions, u, c)) by {
        if has_slot(post, u, c) {
            let p = choose|p: int| 0 <= p < post.len() && slot_matches(#[trigger] post[p], u, c);
            let p0 = if p < idx {
                p
            } else {
                p + 1
            };
            assert(post[p] == l.interactions[p0]);
            assert(slot_matches(l.interactions[p0], u, c));
            assert(has_slot(l.interactions, u, c));
        }
        if has_slot(l.interactions, u, c) {
            let q = choose|q: int|
                0 <= q < l.interactions.len() && slot_matches(
                    #[trigger] l.interactions[q],
                    u,
                    c,
                );
            assert(q != idx);
            let q1 = if q < idx {
                q
            } else {
                q - 1
            };
            assert(post[q1] == l.interactions[q]);
            assert(slot_matches(post[q1], u, c));
            assert(has_slot(post, u, c));
        }
    }
}

} // verus!
