use cargo_contract::config::{SignerEcdsa, SignerSR25519};

const ALICE: &str = "//Alice";

#[test]
fn sr25519_account_id_is_the_known_development_key() {
    let signer = SignerSR25519::from_str(ALICE).unwrap();
    let account = signer.account_id();
    assert_eq!(
        hex::encode(&account),
        "d43593c715fdd31c61141abd04a99fd6822c8558854ccde39a5684e7a56da27d"
    );
}

#[test]
fn sr25519_derivations_are_deterministic() {
    let signer = SignerSR25519::from_str(ALICE).unwrap();
    assert_eq!(signer.account_id(), signer.account_id());
    assert_eq!(signer.address(), signer.address());
    assert_eq!(signer.account_id(), signer.address());
    assert_eq!(signer.sign(b"payload").len(), 64);
}

#[test]
fn ecdsa_derivations_are_deterministic() {
    let signer = SignerEcdsa::from_str(ALICE).unwrap();
    let account = signer.account_id();
    assert_eq!(account.len(), 20);
    assert_eq!(account, signer.account_id());
    assert_eq!(signer.address(), account);
    let first = signer.sign(b"payload");
    assert_eq!(first.len(), 65);
    // The scheme signs deterministically.
    assert_eq!(first, signer.sign(b"payload"));
}

#[test]
fn the_two_schemes_derive_different_accounts() {
    let sr = SignerSR25519::from_str(ALICE).unwrap();
    let ec = SignerEcdsa::from_str(ALICE).unwrap();
    assert_ne!(sr.account_id(), ec.account_id());
}

#[test]
fn sr25519_signature_verifies_under_the_derived_key() {
    let signer = SignerSR25519::from_str(ALICE).unwrap();
    let payload = b"an exact payload; nothing hashed or padded";
    let sig_bytes: [u8; 64] = signer.sign(payload).try_into().unwrap();
    let key_bytes: [u8; 32] = signer.account_id().try_into().unwrap();
    let sig = subxt_signer::sr25519::Signature(sig_bytes);
    let key = subxt_signer::sr25519::PublicKey(key_bytes);
    assert!(subxt_signer::sr25519::verify(&sig, payload, &key));
}

#[test]
fn an_invalid_credential_string_is_rejected() {
    let sr_first = match SignerSR25519::from_str("certainly not a valid recovery phrase") {
        Err(e) => e,
        Ok(_) => panic!("an invalid credential string parsed"),
    };
    let sr_second = match SignerSR25519::from_str("certainly not a valid recovery phrase") {
        Err(e) => e,
        Ok(_) => panic!("an invalid credential string parsed"),
    };
    // Parsing is a function of the string alone, message included.
    assert_eq!(sr_first.message(), sr_second.message());
    assert!(SignerEcdsa::from_str("certainly not a valid recovery phrase").is_err());
}
