use solana_gpt_oracle::accounts::{AccountMeta, ContextAccount, Interaction};
use solana_gpt_oracle::codec::build_payload;

#[test]
fn payload_is_selector_then_serialized_response() {
    let disc = [7u8, 6, 5, 4, 3, 2, 1, 0];
    let data = build_payload(&disc, &String::from("ab")).unwrap();
    // length-prefixed, so never the raw response bytes alone
    assert_eq!(data, vec![7u8, 6, 5, 4, 3, 2, 1, 0, 2, 0, 0, 0, 97, 98]);
}

#[test]
fn payload_empty_response() {
    let disc = [0u8; 8];
    let data = build_payload(&disc, &String::new()).unwrap();
    assert_eq!(data, vec![0u8, 0, 0, 0, 0, 0, 0, 0, 0, 0, 0, 0]);
}

#[test]
fn payload_multibyte_response_counts_bytes() {
    // "héllo" is five characters but six UTF-8 bytes
    let disc = [9u8; 8];
    let data = build_payload(&disc, &String::from("h\u{e9}llo")).unwrap();
    assert_eq!(&data[..8], &[9u8; 8]);
    assert_eq!(&data[8..12], &[6, 0, 0, 0]);
    assert_eq!(&data[12..], "h\u{e9}llo".as_bytes());
}

#[test]
fn payload_matches_host_serializer() {
    // the serialized tail must agree byte-for-byte with the serializer the
    // host ecosystem uses for instruction data
    let response = String::from("it's a greeting");
    let disc = [1u8, 0, 0, 0, 0, 0, 0, 0];
    let data = build_payload(&disc, &response).unwrap();
    let mut reference: Vec<u8> = Vec::new();
    anchor_lang::AnchorSerialize::serialize(&response, &mut reference).unwrap();
    assert_eq!(&data[..8], &disc);
    assert_eq!(&data[8..], &reference[..]);
}

#[test]
fn account_meta_size_is_fixed() {
    assert_eq!(AccountMeta::size(), 42);
}

#[test]
fn derivation_labels() {
    assert_eq!(ContextAccount::seed(), "context");
    assert_eq!(Interaction::seed(), "interaction");
}
