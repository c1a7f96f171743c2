use solana_gpt_oracle::accounts::AccountMeta;
use solana_gpt_oracle::accounts::Address;
use solana_gpt_oracle::error::OracleError;
use solana_gpt_oracle::ops::{
    callback_from_llm, callback_from_oracle, create_llm_context, initialize, interact_with_llm,
    CallbackFromLlm, CallbackFromOracle, CreateLlmContext, Initialize, InteractWithLlm,
};
use solana_gpt_oracle::state::Ledger;

const FUNDER: Address = Address::External(1);
const REQUESTER: Address = Address::External(2);
const PROGRAM_X: Address = Address::External(77);

fn funded_init(l: &mut Ledger) {
    let r = initialize(l, Initialize { payer: FUNDER, payer_lamports: 1_000_000 });
    assert!(r.is_ok());
}

fn create(l: &mut Ledger, text: &str) {
    let r = create_llm_context(
        l,
        CreateLlmContext { payer: FUNDER, payer_lamports: 1_000_000 },
        String::from(text),
    );
    assert!(r.is_ok());
}

fn interact(l: &mut Ledger, payer: Address, context: Address, metas: Option<Vec<AccountMeta>>) {
    let r = interact_with_llm(
        l,
        InteractWithLlm { payer, payer_lamports: 1_000_000, context_account: context },
        String::from("what is hello?"),
        PROGRAM_X,
        [1, 0, 0, 0, 0, 0, 0, 0],
        metas,
    );
    assert!(r.is_ok());
}

#[test]
fn initialize_creates_identity_and_counter() {
    let mut l = Ledger::new();
    assert!(l.identity.is_none());
    assert!(l.counter.is_none());
    funded_init(&mut l);
    assert!(l.identity.is_some());
    assert_eq!(l.counter.as_ref().unwrap().count, 0);
    assert_eq!(l.contexts.len(), 0);
    assert_eq!(l.interactions.len(), 0);
}

#[test]
fn initialize_twice_fails() {
    let mut l = Ledger::new();
    funded_init(&mut l);
    let r = initialize(&mut l, Initialize { payer: FUNDER, payer_lamports: 1_000_000 });
    assert_eq!(r, Err(OracleError::AddressInUse));
    // the first initialization survives untouched
    assert!(l.identity.is_some());
    assert_eq!(l.counter.as_ref().unwrap().count, 0);
}

#[test]
fn initialize_funding_boundary() {
    // Identity takes 8, Counter takes 8 + 32: one lamport short fails.
    let mut l = Ledger::new();
    let r = initialize(&mut l, Initialize { payer: FUNDER, payer_lamports: 47 });
    assert_eq!(r, Err(OracleError::InsufficientFunds));
    assert!(l.identity.is_none());
    let r = initialize(&mut l, Initialize { payer: FUNDER, payer_lamports: 48 });
    assert_eq!(r, Ok(()));
}

#[test]
fn create_contexts_count_and_addresses() {
    let mut l = Ledger::new();
    funded_init(&mut l);
    create(&mut l, "hello");
    create(&mut l, "bonjour");
    create(&mut l, "hallo");
    // counter after three successful creations reads three
    assert_eq!(l.counter.as_ref().unwrap().count, 3);
    // each context sits at the address derived from the counter value it was
    // created under, so the addresses are pairwise distinct
    assert_eq!(l.contexts.len(), 3);
    assert_eq!(l.contexts[0].text, "hello");
    assert_eq!(l.contexts[1].text, "bonjour");
    assert_eq!(l.contexts[2].text, "hallo");
    assert_ne!(Address::Context(0), Address::Context(1));
    assert_ne!(Address::Context(1), Address::Context(2));
    assert_ne!(Address::Context(0), Address::Context(2));
}

#[test]
fn create_requires_initialization() {
    let mut l = Ledger::new();
    let r = create_llm_context(
        &mut l,
        CreateLlmContext { payer: FUNDER, payer_lamports: 1_000_000 },
        String::from("hello"),
    );
    assert_eq!(r, Err(OracleError::AccountNotFound));
    assert_eq!(l.contexts.len(), 0);
}

#[test]
fn create_funding_boundary() {
    // space = 8 + text bytes + 8 = 21 for "hello"
    let mut l = Ledger::new();
    funded_init(&mut l);
    let r = create_llm_context(
        &mut l,
        CreateLlmContext { payer: FUNDER, payer_lamports: 20 },
        String::from("hello"),
    );
    assert_eq!(r, Err(OracleError::InsufficientFunds));
    assert_eq!(l.contexts.len(), 0);
    assert_eq!(l.counter.as_ref().unwrap().count, 0);
    let r = create_llm_context(
        &mut l,
        CreateLlmContext { payer: FUNDER, payer_lamports: 21 },
        String::from("hello"),
    );
    assert_eq!(r, Ok(()));
    assert_eq!(l.counter.as_ref().unwrap().count, 1);
}

#[test]
fn create_empty_text() {
    let mut l = Ledger::new();
    funded_init(&mut l);
    let r = create_llm_context(
        &mut l,
        CreateLlmContext { payer: FUNDER, payer_lamports: 16 },
        String::new(),
    );
    assert_eq!(r, Ok(()));
    assert_eq!(l.contexts[0].text, "");
}

#[test]
fn interact_populates_record() {
    let mut l = Ledger::new();
    funded_init(&mut l);
    create(&mut l, "hello");
    let metas = vec![AccountMeta {
        pubkey: Address::External(9),
        is_signer: false,
        is_writable: true,
    }];
    interact(&mut l, REQUESTER, Address::Context(0), Some(metas.clone()));
    assert_eq!(l.interactions.len(), 1);
    let rec = &l.interactions[0].interaction;
    assert_eq!(rec.context, Address::Context(0));
    assert_eq!(rec.user, REQUESTER);
    assert_eq!(rec.text, "what is hello?");
    assert_eq!(rec.callback_program_id, PROGRAM_X);
    assert_eq!(rec.callback_discriminator, [1, 0, 0, 0, 0, 0, 0, 0]);
    assert_eq!(rec.callback_account_metas, metas);
    // deposit sized to exactly fit: 120 + 14 text bytes + 1 meta * 42
    assert_eq!(l.interactions[0].deposit, 120 + 14 + 42);
}

#[test]
fn interact_same_pair_collides() {
    let mut l = Ledger::new();
    funded_init(&mut l);
    create(&mut l, "hello");
    interact(&mut l, REQUESTER, Address::Context(0), None);
    // a second live request for the same requester and context collides
    let r = interact_with_llm(
        &mut l,
        InteractWithLlm {
            payer: REQUESTER,
            payer_lamports: 1_000_000,
            context_account: Address::Context(0),
        },
        String::from("again?"),
        PROGRAM_X,
        [2, 0, 0, 0, 0, 0, 0, 0],
        None,
    );
    assert_eq!(r, Err(OracleError::AddressInUse));
    // no silent overwrite: the first record is intact
    assert_eq!(l.interactions.len(), 1);
    assert_eq!(l.interactions[0].interaction.text, "what is hello?");
    // a different requester against the same context is fine
    interact(&mut l, Address::External(3), Address::Context(0), None);
    assert_eq!(l.interactions.len(), 2);
}

#[test]
fn interact_requires_existing_context() {
    let mut l = Ledger::new();
    funded_init(&mut l);
    create(&mut l, "hello");
    let r = interact_with_llm(
        &mut l,
        InteractWithLlm {
            payer: REQUESTER,
            payer_lamports: 1_000_000,
            context_account: Address::Context(5),
        },
        String::from("hi"),
        PROGRAM_X,
        [0; 8],
        None,
    );
    assert_eq!(r, Err(OracleError::AccountNotFound));
    let r = interact_with_llm(
        &mut l,
        InteractWithLlm {
            payer: REQUESTER,
            payer_lamports: 1_000_000,
            context_account: Address::External(5),
        },
        String::from("hi"),
        PROGRAM_X,
        [0; 8],
        None,
    );
    assert_eq!(r, Err(OracleError::AccountNotFound));
}

#[test]
fn interact_funding_boundary() {
    // space = 120 + 14 text bytes + 2 metas * 42 = 218
    let mut l = Ledger::new();
    funded_init(&mut l);
    create(&mut l, "hello");
    let metas = vec![
        AccountMeta { pubkey: Address::External(8), is_signer: false, is_writable: false },
        AccountMeta { pubkey: Address::External(9), is_signer: false, is_writable: true },
    ];
    let r = interact_with_llm(
        &mut l,
        InteractWithLlm {
            payer: REQUESTER,
            payer_lamports: 217,
            context_account: Address::Context(0),
        },
        String::from("what is hello?"),
        PROGRAM_X,
        [1, 0, 0, 0, 0, 0, 0, 0],
        Some(metas.clone()),
    );
    assert_eq!(r, Err(OracleError::InsufficientFunds));
    assert_eq!(l.interactions.len(), 0);
    let r = interact_with_llm(
        &mut l,
        InteractWithLlm {
            payer: REQUESTER,
            payer_lamports: 218,
            context_account: Address::Context(0),
        },
        String::from("what is hello?"),
        PROGRAM_X,
        [1, 0, 0, 0, 0, 0, 0, 0],
        Some(metas),
    );
    assert_eq!(r, Ok(()));
    assert_eq!(l.interactions[0].deposit, 218);
}

#[test]
fn callback_full_scenario() {
    // initialize -> create "hello" at seq 0 -> interact -> callback
    let mut l = Ledger::new();
    funded_init(&mut l);
    create(&mut l, "hello");
    assert_eq!(l.counter.as_ref().unwrap().count, 1);
    interact(&mut l, REQUESTER, Address::Context(0), None);
    let r = callback_from_llm(
        &mut l,
        CallbackFromLlm {
            payer: Address::External(50),
            user: REQUESTER,
            context_account: Address::Context(0),
            program: PROGRAM_X,
            remaining_accounts: vec![],
        },
        String::from("it's a greeting"),
    );
    let out = r.unwrap();
    // the call goes to the stored callback program
    assert_eq!(out.instruction.program_id, PROGRAM_X);
    // Identity leads the outbound account list, as signer, not writable
    assert_eq!(
        out.instruction.accounts,
        vec![AccountMeta { pubkey: Address::Identity, is_signer: true, is_writable: false }]
    );
    // payload: the stored 8-byte selector, then the canonical serialization
    // of the response (little-endian length prefix, then UTF-8 bytes)
    let mut expected = vec![1u8, 0, 0, 0, 0, 0, 0, 0];
    expected.extend_from_slice(&[15, 0, 0, 0]);
    expected.extend_from_slice("it's a greeting".as_bytes());
    assert_eq!(out.instruction.data, expected);
    // the runtime receives the trailing accounts, Identity, and the program
    assert_eq!(out.account_context, vec![Address::Identity, PROGRAM_X]);
    // the record is destroyed and the deposit owed back to the requester
    assert_eq!(l.interactions.len(), 0);
    assert_eq!(out.refund_to, REQUESTER);
    assert_eq!(out.refund_amount, 120 + 14);
    // the context itself survives
    assert_eq!(l.contexts.len(), 1);
    assert_eq!(l.counter.as_ref().unwrap().count, 1);
}

#[test]
fn callback_preserves_meta_order_and_flags() {
    let mut l = Ledger::new();
    funded_init(&mut l);
    create(&mut l, "hello");
    let m1 = AccountMeta { pubkey: Address::External(8), is_signer: true, is_writable: false };
    let m2 = AccountMeta { pubkey: Address::External(9), is_signer: false, is_writable: true };
    interact(&mut l, REQUESTER, Address::Context(0), Some(vec![m1, m2]));
    let trailing = vec![
        AccountMeta { pubkey: Address::External(8), is_signer: true, is_writable: false },
        AccountMeta { pubkey: Address::External(9), is_signer: false, is_writable: true },
    ];
    let out = callback_from_llm(
        &mut l,
        CallbackFromLlm {
            payer: Address::External(50),
            user: REQUESTER,
            context_account: Address::Context(0),
            program: PROGRAM_X,
            remaining_accounts: trailing,
        },
        String::from("ok"),
    )
    .unwrap();
    let identity = AccountMeta { pubkey: Address::Identity, is_signer: true, is_writable: false };
    assert_eq!(out.instruction.accounts, vec![identity, m1, m2]);
    assert_eq!(
        out.account_context,
        vec![Address::External(8), Address::External(9), Address::Identity, PROGRAM_X]
    );
}

#[test]
fn callback_rejects_requester_in_trailing_accounts() {
    let mut l = Ledger::new();
    funded_init(&mut l);
    create(&mut l, "hello");
    interact(&mut l, REQUESTER, Address::Context(0), None);
    // the requester's address is rejected in any position, under any flags
    let cases: Vec<Vec<AccountMeta>> = vec![
        vec![AccountMeta { pubkey: REQUESTER, is_signer: false, is_writable: false }],
        vec![AccountMeta { pubkey: REQUESTER, is_signer: true, is_writable: true }],
        vec![
            AccountMeta { pubkey: Address::External(9), is_signer: false, is_writable: false },
            AccountMeta { pubkey: REQUESTER, is_signer: false, is_writable: true },
        ],
    ];
    for trailing in cases {
        let r = callback_from_llm(
            &mut l,
            CallbackFromLlm {
                payer: Address::External(50),
                user: REQUESTER,
                context_account: Address::Context(0),
                program: PROGRAM_X,
                remaining_accounts: trailing,
            },
            String::from("it's a greeting"),
        );
        assert!(matches!(r, Err(OracleError::InvalidAccount)));
        // the rejection leaves the interaction intact for a retry
        assert_eq!(l.interactions.len(), 1);
        assert_eq!(l.interactions[0].interaction.user, REQUESTER);
    }
}

#[test]
fn callback_unknown_interaction_fails() {
    let mut l = Ledger::new();
    funded_init(&mut l);
    create(&mut l, "hello");
    let r = callback_from_llm(
        &mut l,
        CallbackFromLlm {
            payer: Address::External(50),
            user: REQUESTER,
            context_account: Address::Context(0),
            program: PROGRAM_X,
            remaining_accounts: vec![],
        },
        String::from("nothing pending"),
    );
    assert!(matches!(r, Err(OracleError::AccountNotFound)));
}

#[test]
fn callback_consumes_only_its_own_interaction() {
    let mut l = Ledger::new();
    funded_init(&mut l);
    create(&mut l, "hello");
    create(&mut l, "bonjour");
    interact(&mut l, REQUESTER, Address::Context(0), None);
    interact(&mut l, REQUESTER, Address::Context(1), None);
    interact(&mut l, Address::External(3), Address::Context(0), None);
    let out = callback_from_llm(
        &mut l,
        CallbackFromLlm {
            payer: Address::External(50),
            user: REQUESTER,
            context_account: Address::Context(0),
            program: PROGRAM_X,
            remaining_accounts: vec![],
        },
        String::from("answer"),
    )
    .unwrap();
    assert_eq!(out.refund_to, REQUESTER);
    assert_eq!(l.interactions.len(), 2);
    for slot in &l.interactions {
        let same_pair = slot.interaction.user == REQUESTER
            && slot.interaction.context == Address::Context(0);
        assert!(!same_pair);
    }
}

#[test]
fn oracle_callback_requires_identity_signature() {
    let mut l = Ledger::new();
    funded_init(&mut l);
    create(&mut l, "hello");
    let r = callback_from_oracle(
        &l,
        CallbackFromOracle { identity_is_signer: false },
        String::from("report"),
    );
    assert_eq!(r, Err(OracleError::InvalidAccount));
    // nothing was mutated: the operation cannot even write the ledger
    assert_eq!(l.counter.as_ref().unwrap().count, 1);
    assert_eq!(l.contexts.len(), 1);
    assert_eq!(l.interactions.len(), 0);
    let r = callback_from_oracle(
        &l,
        CallbackFromOracle { identity_is_signer: true },
        String::from("report"),
    );
    assert_eq!(r, Ok(String::from("report")));
}

#[test]
fn oracle_callback_requires_initialization() {
    let l = Ledger::new();
    let r = callback_from_oracle(
        &l,
        CallbackFromOracle { identity_is_signer: true },
        String::from("report"),
    );
    assert_eq!(r, Err(OracleError::AccountNotFound));
}
