use vstd::prelude::*;

use crate::accounts::{Address, ContextAccount, Counter, Identity, InteractionSlot, SlotV};

verus! {

/// The protocol's persisted state: the slice of the host ledger this program
/// owns. Account addresses are deterministic composite keys (see `Address`),
/// so each kind of account is held in the collection its seed data indexes:
/// the context created at counter value `i` sits at `contexts[i]`, and an
/// interaction's address is the pair (requester, context address) carried in
/// the record itself.
#[derive(Clone, Debug)]
pub struct Ledger {
    /// The Identity account, once `initialize` has created it.
    pub identity: Option<Identity>,
    /// The Counter account, once `initialize` has created it.
    pub counter: Option<Counter>,
    /// Context records, indexed by the counter value at their creation.
    pub contexts: Vec<ContextAccount>,
    /// Live interaction records, each at the address derived from its
    /// requester and its context.
    pub interactions: Vec<InteractionSlot>,
}

/// Mathematical model of the ledger.
#[verifier::ext_equal]
pub struct LedgerV {
    pub identity_exists: bool,
    pub counter: Option<u32>,
    pub contexts: Seq<Seq<char>>,
    pub interactions: Seq<SlotV>,
}

impl View for Ledger {
    type V = LedgerV;

    open spec fn view(&self) -> LedgerV {
        LedgerV {
            identity_exists: self.identity is Some,
            counter: match self.counter {
                Some(c) => Some(c.count),
                None => None,
            },
            contexts: self.contexts@.map_values(|c: ContextAccount| c.text@),
            interactions: self.interactions@.map_values(|s: InteractionSlot| s@),
        }
    }
}

/// The address of the context record created at counter value `seq_no`.
pub open spec fn context_address(seq_no: u32) -> Address {
    Address::Context(seq_no)
}

/// Whether `context` is the address of a context record that exists in `l`.
pub open spec fn context_exists(l: LedgerV, context: Address) -> bool {
    context matches Address::Context(k) && (k as int) < l.contexts.len()
}

/// Whether the slot `s` occupies the interaction address derived from
/// `user` and `context`.
pub open spec fn slot_matches(s: SlotV, user: Address, context: Address) -> bool {
    s.interaction.user == user && s.interaction.context == context
}

/// Whether the interaction address derived from `user` and `context` is
/// occupied in `slots`.
pub open spec fn has_slot(slots: Seq<SlotV>, user: Address, context: Address) -> bool {
    exists|i: int| 0 <= i < slots.len() && slot_matches(#[trigger] slots[i], user, context)
}

/// The index of the slot at the interaction address derived from `user` and
/// `context`. Meaningful only when `has_slot` holds; well-formedness makes
/// that index unique.
pub open spec fn slot_index(slots: Seq<SlotV>, user: Address, context: Address) -> int {
    choose|i: int| 0 <= i < slots.len() && slot_matches(#[trigger] slots[i], user, context)
}

impl LedgerV {
    /// Well-formedness of one interaction slot against the number of
    /// existing contexts: the record points at a context that exists, and
    /// its selector is the 8-byte view of the stored array.
    pub open spec fn slot_wf(self, i: int) -> bool {
        &&& context_exists(self, self.interactions[i].interaction.context)
        &&& self.interactions[i].interaction.callback_discriminator.len() == 8
    }

    /// The ledger's invariant.
    ///
    /// - Identity and Counter are created together, exactly once.
    /// - Before initialization nothing else exists.
    /// - The counter equals the number of contexts ever created: contexts
    ///   are append-only and each creation increments it by exactly one.
    /// - Every interaction refers to an existing context.
    /// - Interaction addresses are unoccupied or occupied once: no two live
    ///   records share a (requester, context) derivation.
    pub open spec fn wf(self) -> bool {
        &&& self.identity_exists <==> self.counter is Some
        &&& self.counter is None ==> self.contexts.len() == 0 && self.interactions.len() == 0
        &&& self.counter matches Some(c) ==> c as int == self.contexts.len()
        &&& forall|i: int| 0 <= i < self.interactions.len() ==> self.slot_wf(i)
        &&& forall|i: int, j: int|
            #![trigger self.interactions[i], self.interactions[j]]
            0 <= i < j < self.interactions.len() ==> !slot_matches(
                self.interactions[j],
                self.interactions[i].interaction.user,
                self.interactions[i].interaction.context,
            )
    }
}

impl Ledger {
    /// A fresh, uninitialized ledger slice: no protocol account exists yet.
    pub fn new() -> (l: Ledger)
        ensures
            l@.wf(),
            !l@.identity_exists,
            l@.counter is None,
            l@.contexts.len() == 0,
            l@.interactions.len() == 0,
    {
        let l = Ledger { identity: None, counter: None, contexts: Vec::new(), interactions: Vec::new() };
        proof {
            assert(l@.contexts =~= Seq::<Seq<char>>::empty());
            assert(l@.interactions =~= Seq::<SlotV>::empty());
        }
        l
    }

    /// The ledger's invariant, on the executable type.
    pub open spec fn wf(self) -> bool {
        self@.wf()
    }
}

/// If the interaction address derived from `user` and `context` is occupied,
/// well-formedness makes the occupying slot unique, so `slot_index` picks
/// the one index that matches.
pub proof fn lemma_slot_index_unique(slots: Seq<SlotV>, user: Address, context: Address, i: int)
    requires
        0 <= i < slots.len(),
        slot_matches(slots[i], user, context),
        forall|a: int, b: int|
            #![trigger slots[a], slots[b]]
            0 <= a < b < slots.len() ==> !slot_matches(
                slots[b],
                slots[a].interaction.user,
                slots[a].interaction.context,
            ),
    ensures
        has_slot(slots, user, context),
        slot_index(slots, user, context) == i,
{
    assert(has_slot(slots, user, context));
    let j = slot_index(slots, user, context);
    assert(0 <= j < slots.len() && slot_matches(slots[j], user, context));
    if i < j {
        assert(!slot_matches(slots[j], slots[i].interaction.user, slots[i].interaction.context));
    } else if j < i {
        assert(!slot_matches(slots[i], slots[j].interaction.user, slots[j].interaction.context));
    }
}

} // verus!
