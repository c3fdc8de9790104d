use wallet_checker::config::{ensure_trailing_slash, Config};
use wallet_checker::error::Error;
use wallet_checker::network_config::{url_for_network, UrlType};
use wallet_checker::runner::{
    mutate_input, LedgerPayload, Runner, StorageEntry, TargetAddress,
};
use wallet_checker::storage_helper::{
    decode_admin_value, possible_keys, AddressType, KeyShape, KeyVariant, StorageValue,
};

fn contract_runner(key: &str) -> Runner {
    Runner::new(
        String::from("https://horizon.stellar.org/"),
        TargetAddress::Contract(String::from("CCJZ5DGASBWQXR5MPFCJXMBI333XE5U3FSJTNQU7RIKE3P5GN2K2WYYA")),
        key,
    )
}

fn variant(shape: KeyShape, text: &str) -> KeyVariant {
    KeyVariant { shape, text: text.as_bytes().to_vec() }
}

#[test]
fn case_transforms_of_the_input_key() {
    let transforms = mutate_input("aDmIn");
    assert_eq!(transforms.len(), 3);
    assert_eq!(transforms[0], b"admin".to_vec());
    assert_eq!(transforms[1], b"ADMIN".to_vec());
    assert_eq!(transforms[2], b"Admin".to_vec());
}

#[test]
fn case_transforms_leave_other_bytes_alone() {
    let transforms = mutate_input("x-9\u{e9}");
    assert_eq!(transforms[0], "x-9\u{e9}".as_bytes().to_vec());
    assert_eq!(transforms[1], "X-9\u{e9}".as_bytes().to_vec());
    assert_eq!(transforms[2], "X-9\u{e9}".as_bytes().to_vec());
}

#[test]
fn alphabetic_key_yields_nine_variants() {
    let r = contract_runner("admin");
    assert_eq!(r.keys.len(), 9);
}

#[test]
fn single_letter_key_yields_six_variants() {
    // "a": uppercase and capitalized coincide
    let r = contract_runner("a");
    assert_eq!(r.keys.len(), 6);
}

#[test]
fn non_alphabetic_key_yields_three_variants() {
    let r = contract_runner("_7");
    assert_eq!(r.keys.len(), 3);
}

#[test]
fn empty_key_yields_three_variants() {
    let r = contract_runner("");
    assert_eq!(r.keys.len(), 3);
}

#[test]
fn variant_generation_is_idempotent() {
    let a = contract_runner("Admin").keys;
    let b = contract_runner("Admin").keys;
    assert_eq!(a, b);
    for v in &b.variants {
        assert!(a.contains(v));
    }
}

#[test]
fn variant_set_is_independent_of_input_order() {
    let a = possible_keys(vec![b"admin".to_vec(), b"ADMIN".to_vec()]);
    let b = possible_keys(vec![b"ADMIN".to_vec(), b"admin".to_vec()]);
    assert_eq!(a.len(), b.len());
    for v in &a.variants {
        assert!(b.contains(v));
    }
    for v in &b.variants {
        assert!(a.contains(v));
    }
}

#[test]
fn duplicate_key_texts_collapse() {
    let set = possible_keys(vec![b"admin".to_vec(), b"admin".to_vec()]);
    assert_eq!(set.len(), 3);
}

#[test]
fn variants_cover_all_case_transforms_and_shapes() {
    let r = contract_runner("aDmIn");
    for shape in [KeyShape::EnumVariant, KeyShape::Symbol, KeyShape::Text] {
        for text in ["admin", "ADMIN", "Admin"] {
            assert!(r.keys.contains(&variant(shape, text)));
        }
    }
    assert!(!r.keys.contains(&variant(KeyShape::Symbol, "aDmIn")));
}

#[test]
fn account_target_is_its_own_admin() {
    let r = Runner::new(
        String::from("https://horizon.stellar.org/"),
        TargetAddress::Account(String::from("GA1")),
        "admin",
    );
    assert_eq!(r.account_target(), Some(AddressType::EOA(String::from("GA1"))));
    assert_eq!(contract_runner("admin").account_target(), None);
}

#[test]
fn instance_scan_takes_first_match() {
    let r = contract_runner("admin");
    let entries = vec![
        StorageEntry { key: None, val: StorageValue::Other },
        StorageEntry {
            key: Some(variant(KeyShape::Symbol, "ADMIN")),
            val: StorageValue::Account(String::from("GA1")),
        },
        StorageEntry {
            key: Some(variant(KeyShape::Symbol, "admin")),
            val: StorageValue::Account(String::from("GA2")),
        },
    ];
    assert_eq!(
        r.find_instance_admin(&entries),
        Some(StorageValue::Account(String::from("GA1")))
    );
}

#[test]
fn instance_scan_misses_unrelated_keys() {
    let r = contract_runner("admin");
    let entries = vec![
        StorageEntry { key: Some(variant(KeyShape::Symbol, "owner")), val: StorageValue::Other },
        StorageEntry { key: Some(variant(KeyShape::Symbol, "aDmIn")), val: StorageValue::Other },
        StorageEntry { key: None, val: StorageValue::Contract },
    ];
    assert_eq!(r.find_instance_admin(&entries), None);
}

#[test]
fn zero_persistent_matches_is_admin_not_found() {
    let r = contract_runner("admin");
    assert_eq!(r.persistent_storage_lookup(&vec![]), Err(Error::AdminNotFound));
}

#[test]
fn one_persistent_match_succeeds() {
    let r = contract_runner("admin");
    let entries = vec![LedgerPayload::ContractData(StorageValue::Account(String::from("GA1")))];
    assert_eq!(
        r.persistent_storage_lookup(&entries),
        Ok(StorageValue::Account(String::from("GA1")))
    );
}

#[test]
fn one_persistent_match_that_is_not_contract_data_fails() {
    let r = contract_runner("admin");
    let entries = vec![LedgerPayload::Other];
    assert_eq!(r.persistent_storage_lookup(&entries), Err(Error::AdminNotFound));
}

#[test]
fn two_persistent_matches_are_ambiguous() {
    let r = contract_runner("admin");
    let entries = vec![
        LedgerPayload::ContractData(StorageValue::Account(String::from("GA1"))),
        LedgerPayload::ContractData(StorageValue::Account(String::from("GA1"))),
    ];
    assert_eq!(r.persistent_storage_lookup(&entries), Err(Error::MultipleAdminsFound));
}

#[test]
fn persistent_queries_cover_every_variant() {
    let r = contract_runner("admin");
    let queries = r.persistent_storage_keys();
    assert_eq!(queries.len(), 9);
    for (q, v) in queries.iter().zip(r.keys.variants.iter()) {
        assert_eq!(&q.key, v);
        assert_eq!(
            q.contract,
            String::from("CCJZ5DGASBWQXR5MPFCJXMBI333XE5U3FSJTNQU7RIKE3P5GN2K2WYYA")
        );
    }
}

#[test]
fn decoding_reads_only_addresses() {
    assert_eq!(
        decode_admin_value(&StorageValue::Account(String::from("GA1"))),
        Ok(AddressType::EOA(String::from("GA1")))
    );
    assert_eq!(decode_admin_value(&StorageValue::Contract), Ok(AddressType::Contract));
    assert_eq!(decode_admin_value(&StorageValue::Other), Err(Error::WrongStorageType));
}

#[test]
fn well_known_rpc_endpoints() {
    assert_eq!(
        url_for_network("mainnet", UrlType::Rpc),
        Ok(String::from("https://mainnet.sorobanrpc.com"))
    );
    assert_eq!(
        url_for_network("standalone", UrlType::Rpc),
        Ok(String::from("http://localhost:8000/soroban/rpc"))
    );
    assert_eq!(url_for_network("devnet", UrlType::Rpc), Err(Error::InvalidNetwork));
}

#[test]
fn well_known_horizon_endpoints() {
    assert_eq!(
        url_for_network("testnet", UrlType::Horizon),
        Ok(String::from("https://horizon-testnet.stellar.org/"))
    );
    assert_eq!(
        url_for_network("local", UrlType::Horizon),
        Err(Error::HorizonUrlNotAvailable)
    );
    assert_eq!(url_for_network("devnet", UrlType::Horizon), Err(Error::InvalidNetwork));
}

#[test]
fn urls_are_normalized_with_a_trailing_slash() {
    assert_eq!(ensure_trailing_slash(String::from("https://a.example")), "https://a.example/");
    assert_eq!(ensure_trailing_slash(String::from("https://a.example/")), "https://a.example/");
    assert_eq!(ensure_trailing_slash(String::new()), "/");
}

#[test]
fn explicit_url_overrides_win() {
    let config = Config {
        contract_id: Some(String::from("C1")),
        admin: None,
        rpc_url: Some(String::from("https://rpc.example")),
        network: None,
        key: String::from("admin"),
        horizon: None,
    };
    let network: Result<String, Error> = Err(Error::MissingNetwork);
    assert_eq!(
        config.get_url(&network, UrlType::Rpc),
        Ok(String::from("https://rpc.example/"))
    );
    // without a horizon override the failed network resolution is handed through
    assert_eq!(config.get_url(&network, UrlType::Horizon), Err(Error::MissingNetwork));
}

#[test]
fn network_resolution_feeds_get_url() {
    let config = Config {
        contract_id: Some(String::from("C1")),
        admin: None,
        rpc_url: None,
        network: Some(String::from("mainnet")),
        key: String::from("admin"),
        horizon: None,
    };
    let network: Result<String, Error> = Ok(String::from("mainnet"));
    assert_eq!(
        config.get_url(&network, UrlType::Rpc),
        Ok(String::from("https://mainnet.sorobanrpc.com/"))
    );
    assert_eq!(
        config.get_url(&network, UrlType::Horizon),
        Ok(String::from("https://horizon.stellar.org/"))
    );
}
