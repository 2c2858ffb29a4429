use cargo_contract::config::{ChainKind, Ecdsachain, Polkadot, Substrate, lookup_chain_config};

#[test]
fn registered_names_dispatch_to_their_configuration() {
    assert_eq!(lookup_chain_config("Polkadot").unwrap(), ChainKind::Polkadot);
    assert_eq!(lookup_chain_config("Substrate").unwrap(), ChainKind::Substrate);
    assert_eq!(lookup_chain_config("Ecdsachain").unwrap(), ChainKind::Ecdsachain);
}

#[test]
fn marker_names_match_the_registry() {
    assert_eq!(Polkadot::chain_name(), "Polkadot");
    assert_eq!(Substrate::chain_name(), "Substrate");
    assert_eq!(Ecdsachain::chain_name(), "Ecdsachain");
}

#[test]
fn unknown_name_lists_every_registered_configuration() {
    let err = lookup_chain_config("Polkadotx").unwrap_err();
    assert_eq!(
        err.message().as_str(),
        "Chain configuration not found, Allowed configurations: Polkadot, Substrate, Ecdsachain"
    );
}

#[test]
fn matching_is_case_sensitive_and_exact() {
    assert!(lookup_chain_config("polkadot").is_err());
    assert!(lookup_chain_config("Substrate ").is_err());
    assert!(lookup_chain_config("").is_err());
}
