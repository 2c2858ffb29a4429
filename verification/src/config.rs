//! Registry of the supported chain configurations and the runtime dispatch
//! from a chain name to the matching compile-time configuration marker.
//!
//! Each configuration is an uninstantiated marker type: a compile-time tag
//! that the surrounding tool pairs with the network client's concrete types.
//! The registry itself is a closed list; a name that matches none of its
//! entries yields an error that enumerates every registered name.
use core::str::FromStr;
use vstd::prelude::*;

use crate::text::str_eq;

verus! {

#[verifier::external_type_specification]
#[verifier::external_body]
pub struct ExSr25519Keypair(subxt_signer::sr25519::Keypair);

#[verifier::external_type_specification]
#[verifier::external_body]
pub struct ExEcdsaKeypair(subxt_signer::ecdsa::Keypair);

/// A generic error carrying a human-readable message.
#[derive(Debug)]
pub struct GenericError {
    message: String,
}

impl GenericError {
    /// Wraps a message into an error.
    pub fn from_message(message: String) -> (r: GenericError)
        ensures
            r.spec_message() == message@,
    {
        GenericError { message }
    }

    /// The error's message.
    pub fn message(&self) -> (r: &String)
        ensures
            r@ == self.spec_message(),
    {
        &self.message
    }

    /// The message the error carries.
    pub closed spec fn spec_message(&self) -> Seq<char> {
        self.message@
    }
}

/// The error kinds this core reports.
#[derive(Debug)]
pub enum ErrorVariant {
    /// A failure described only by a message, such as an unknown chain name.
    Generic(GenericError),
}

impl ErrorVariant {
    /// The message carried by the error.
    pub fn message(&self) -> (r: &String)
        ensures
            r@ == self.spec_message(),
    {
        match self {
            ErrorVariant::Generic(e) => e.message(),
        }
    }

    pub open spec fn spec_message(&self) -> Seq<char> {
        match self {
            ErrorVariant::Generic(e) => e.spec_message(),
        }
    }
}

/// A runtime configuration marker for an Ethereum-flavoured chain: ECDSA
/// signatures over the Substrate account and header types.
#[derive(Debug, Clone, PartialEq, Eq)]
pub enum Ecdsachain {
    /// The configuration tag; the type carries no runtime data.
    Marker,
}

/// A runtime configuration marker for the Substrate based chain.
/// This thing is not meant to be instantiated; it is just a collection of
/// types.
#[derive(Debug, Clone, PartialEq, Eq)]
pub enum Substrate {
    /// The configuration tag; the type carries no runtime data.
    Marker,
}

/// A runtime configuration marker for the Polkadot based chain.
/// This thing is not meant to be instantiated; it is just a collection of
/// types.
#[derive(Debug, Clone, PartialEq, Eq)]
pub enum Polkadot {
    /// The configuration tag; the type carries no runtime data.
    Marker,
}

/// A runtime configuration marker for a development chain with 20-byte,
/// Ethereum-derived account identifiers.
#[derive(Debug)]
pub enum PolkamaskConfig {
    /// The configuration tag; the type carries no runtime data.
    Marker,
}

impl Ecdsachain {
    /// The name under which this configuration is registered.
    pub fn chain_name() -> (r: &'static str)
        ensures
            r@ == "Ecdsachain"@,
    {
        "Ecdsachain"
    }
}

impl Substrate {
    /// The name under which this configuration is registered.
    pub fn chain_name() -> (r: &'static str)
        ensures
            r@ == "Substrate"@,
    {
        "Substrate"
    }
}

impl Polkadot {
    /// The name under which this configuration is registered.
    pub fn chain_name() -> (r: &'static str)
        ensures
            r@ == "Polkadot"@,
    {
        "Polkadot"
    }
}

/// The 32-byte Schnorr public key that the sr25519 scheme derives from a
/// credential string.
pub uninterp spec fn sr25519_public_of(suri: Seq<char>) -> Seq<u8>;

/// What parsing a credential string under the sr25519 scheme yields: the
/// parser's message when the string is rejected, nothing when it is a valid
/// secret URI of the scheme. Parsing is a function of the string alone.
pub uninterp spec fn sr25519_parse_error(suri: Seq<char>) -> Option<Seq<char>>;

/// Whether `sig` is an sr25519 signature of `payload` that verifies under
/// the public key `public`.
pub uninterp spec fn sr25519_verifies(
    public: Seq<u8>,
    payload: Seq<u8>,
    sig: Seq<u8>,
) -> bool;

/// The 65-byte uncompressed public key that the ECDSA scheme derives from a
/// credential string.
pub uninterp spec fn ecdsa_uncompressed_public_of(suri: Seq<char>) -> Seq<u8>;

/// What parsing a credential string under the ECDSA scheme yields: the
/// parser's message when the string is rejected, nothing when it is a valid
/// secret URI of the scheme. Parsing is a function of the string alone.
pub uninterp spec fn ecdsa_parse_error(suri: Seq<char>) -> Option<Seq<char>>;

/// The 65-byte recoverable ECDSA signature the scheme produces for a
/// credential and a payload. The scheme signs deterministically (an RFC 6979
/// nonce over a BLAKE2b digest of the payload), so the result is a function
/// of the two alone.
pub uninterp spec fn ecdsa_sig_of(suri: Seq<char>, payload: Seq<u8>) -> Seq<u8>;

/// The 32-byte Keccak-256 digest of a byte string.
pub uninterp spec fn keccak_256_of(data: Seq<u8>) -> Seq<u8>;

/// Relies on `sp_crypto_hashing::keccak_256`: a 32-byte digest that is a
/// function of the input bytes alone.
#[verifier::external_body]
fn keccak_256(data: &Vec<u8>) -> (r: Vec<u8>)
    ensures
        r@ == keccak_256_of(data@),
        r@.len() == 32,
{
    sp_crypto_hashing::keccak_256(data.as_slice()).to_vec()
}

/// Copies the bytes of `v` from position `from` up to `to`.
fn copy_range(v: &Vec<u8>, from: usize, to: usize) -> (r: Vec<u8>)
    requires
        from <= to <= v@.len(),
    ensures
        r@ == v@.subrange(from as int, to as int),
{
    let mut r: Vec<u8> = Vec::new();
    let mut i: usize = from;
    proof {
        assert(v@.subrange(from as int, from as int) =~= Seq::<u8>::empty());
    }
    while i < to
        invariant
            from <= i <= to <= v@.len(),
            r@ == v@.subrange(from as int, i as int),
        decreases to - i,
    {
        r.push(v[i]);
        proof {
            assert(v@.subrange(from as int, i + 1) =~= v@.subrange(from as int, i as int).push(
                v@[i as int],
            ));
        }
        i += 1;
    }
    r
}

/// Struct representing the implementation of the sr25519 signer: it owns the
/// parsed keypair of the Schnorr-style scheme with 32-byte account
/// identifiers.
pub struct SignerSR25519 {
    keypair: subxt_signer::sr25519::Keypair,
    suri: String,
}

/// Relies on `subxt_signer::SecretUri::from_str` and
/// `subxt_signer::sr25519::Keypair::from_uri`, the two steps of parsing a
/// secret URI into a keypair: both are functions of the credential string
/// alone, a valid secret URI of the scheme yields a keypair, and any other
/// string is rejected with the parser's message.
#[verifier::external_body]
fn sr25519_parse(input: &str) -> (r: Result<SignerSR25519, String>)
    ensures
        r is Ok <==> sr25519_parse_error(input@) is None,
        r matches Ok(s) ==> s.suri@ == input@,
        r matches Err(m) ==> Some(m@) == sr25519_parse_error(input@),
{
    let uri = match subxt_signer::SecretUri::from_str(input) {
        Ok(u) => u,
        Err(e) => {
            return Err(e.to_string());
        },
    };
    match subxt_signer::sr25519::Keypair::from_uri(&uri) {
        Ok(keypair) => Ok(SignerSR25519 { keypair, suri: input.to_owned() }),
        Err(e) => Err(e.to_string()),
    }
}

/// Relies on `subxt_signer::sr25519::Keypair::public_key`: the 32-byte
/// public key, a function of the credential the keypair was parsed from.
#[verifier::external_body]
fn sr25519_public_key(s: &SignerSR25519) -> (r: Vec<u8>)
    ensures
        r@ == sr25519_public_of(s.suri@),
        r@.len() == 32,
{
    s.keypair.public_key().0.to_vec()
}

/// Relies on `subxt_signer::sr25519::Keypair::sign`: a 64-byte Schnorr
/// signature over exactly the supplied payload, which the scheme's own
/// `verify` accepts under the keypair's public key. The scheme draws a
/// random nonce, so the signature itself is not a function of its inputs
/// and gets no name.
#[verifier::external_body]
fn sr25519_sign(s: &SignerSR25519, payload: &[u8]) -> (r: Vec<u8>)
    ensures
        r@.len() == 64,
        sr25519_verifies(sr25519_public_of(s.suri@), payload@, r@),
{
    s.keypair.sign(payload).0.to_vec()
}

impl SignerSR25519 {
    /// The credential string this signer was parsed from.
    pub closed spec fn spec_suri(&self) -> Seq<char> {
        self.suri@
    }

    /// Attempts to parse the signer SURI string: a valid secret URI of the
    /// scheme yields the signer, any other string the parser's message.
    pub fn from_str(input: &str) -> (r: Result<SignerSR25519, ErrorVariant>)
        ensures
            r is Ok <==> sr25519_parse_error(input@) is None,
            r matches Ok(s) ==> s.spec_suri() == input@,
            r matches Err(e) ==> Some(e.spec_message()) == sr25519_parse_error(input@),
    {
        match sr25519_parse(input) {
            Ok(s) => Ok(s),
            Err(m) => Err(ErrorVariant::Generic(GenericError::from_message(m))),
        }
    }

    /// The account identifier: the scheme's public key bytes. Pure and
    /// deterministic: a function of the parsed credential alone.
    pub fn account_id(&self) -> (r: Vec<u8>)
        ensures
            r@ == sr25519_public_of(self.spec_suri()),
            r@.len() == 32,
    {
        sr25519_public_key(self)
    }

    /// The address under which the account is reached: it carries the
    /// account identifier itself. Pure and deterministic.
    pub fn address(&self) -> (r: Vec<u8>)
        ensures
            r@ == sr25519_public_of(self.spec_suri()),
            r@.len() == 32,
    {
        sr25519_public_key(self)
    }

    /// Signs exactly the supplied payload; nothing is hashed or padded here.
    /// The signature verifies under this signer's public key.
    pub fn sign(&self, signer_payload: &[u8]) -> (r: Vec<u8>)
        ensures
            r@.len() == 64,
            sr25519_verifies(sr25519_public_of(self.spec_suri()), signer_payload@, r@),
    {
        sr25519_sign(self, signer_payload)
    }
}

/// The 20-byte Ethereum-style account identifier the ECDSA scheme derives
/// from a credential: the last twenty bytes of the Keccak-256 digest of the
/// uncompressed public key without its leading format byte.
pub open spec fn ecdsa_account_of(suri: Seq<char>) -> Seq<u8> {
    keccak_256_of(ecdsa_uncompressed_public_of(suri).subrange(1, 65)).subrange(12, 32)
}

/// Struct representing the implementation of the ecdsa signer: it owns the
/// parsed keypair of the elliptic-curve scheme.
pub struct SignerEcdsa {
    keypair: subxt_signer::ecdsa::Keypair,
    suri: String,
}

/// Relies on `subxt_signer::SecretUri::from_str` and
/// `subxt_signer::ecdsa::Keypair::from_uri`, the two steps of parsing a
/// secret URI into a keypair: both are functions of the credential string
/// alone, a valid secret URI of the scheme yields a keypair, and any other
/// string is rejected with the parser's message.
#[verifier::external_body]
fn ecdsa_parse(input: &str) -> (r: Result<SignerEcdsa, String>)
    ensures
        r is Ok <==> ecdsa_parse_error(input@) is None,
        r matches Ok(s) ==> s.suri@ == input@,
        r matches Err(m) ==> Some(m@) == ecdsa_parse_error(input@),
{
    let uri = match subxt_signer::SecretUri::from_str(input) {
        Ok(u) => u,
        Err(e) => {
            return Err(e.to_string());
        },
    };
    match subxt_signer::ecdsa::Keypair::from_uri(&uri) {
        Ok(keypair) => Ok(SignerEcdsa { keypair, suri: input.to_owned() }),
        Err(e) => Err(e.to_string()),
    }
}

/// Relies on `subxt_signer::eth::Keypair::from` and its `public_key`: the
/// 65-byte uncompressed form of the keypair's public key, a function of the
/// credential the keypair was parsed from.
#[verifier::external_body]
fn ecdsa_uncompressed_public_key(s: &SignerEcdsa) -> (r: Vec<u8>)
    ensures
        r@ == ecdsa_uncompressed_public_of(s.suri@),
        r@.len() == 65,
{
    subxt_signer::eth::Keypair::from(s.keypair.clone()).public_key().0.to_vec()
}

/// Relies on `subxt_signer::ecdsa::Keypair::sign`: a 65-byte recoverable
/// signature over exactly the supplied payload (the scheme hashes it with
/// BLAKE2b internally and signs with an RFC 6979 nonce, so the result is a
/// function of the credential and the payload alone).
#[verifier::external_body]
fn ecdsa_sign(s: &SignerEcdsa, payload: &[u8]) -> (r: Vec<u8>)
    ensures
        r@.len() == 65,
        r@ == ecdsa_sig_of(s.suri@, payload@),
{
    s.keypair.sign(payload).0.to_vec()
}

impl SignerEcdsa {
    /// The credential string this signer was parsed from.
    pub closed spec fn spec_suri(&self) -> Seq<char> {
        self.suri@
    }

    /// Attempts to parse the signer SURI string: a valid secret URI of the
    /// scheme yields the signer, any other string the parser's message.
    pub fn from_str(input: &str) -> (r: Result<SignerEcdsa, ErrorVariant>)
        ensures
            r is Ok <==> ecdsa_parse_error(input@) is None,
            r matches Ok(s) ==> s.spec_suri() == input@,
            r matches Err(e) ==> Some(e.spec_message()) == ecdsa_parse_error(input@),
    {
        match ecdsa_parse(input) {
            Ok(s) => Ok(s),
            Err(m) => Err(ErrorVariant::Generic(GenericError::from_message(m))),
        }
    }

    /// The 20-byte externally-derived account identifier of the scheme: the
    /// last twenty bytes of the Keccak-256 digest of the uncompressed public
    /// key, without its leading format byte. Pure and deterministic: a
    /// function of the parsed credential alone.
    pub fn account_id(&self) -> (r: Vec<u8>)
        ensures
            r@ == ecdsa_account_of(self.spec_suri()),
            r@.len() == 20,
    {
        let uncompressed = ecdsa_uncompressed_public_key(self);
        let body = copy_range(&uncompressed, 1, 65);
        let digest = keccak_256(&body);
        copy_range(&digest, 12, 32)
    }

    /// The address under which the account is reached: it carries the
    /// account identifier itself. Pure and deterministic.
    pub fn address(&self) -> (r: Vec<u8>)
        ensures
            r@ == ecdsa_account_of(self.spec_suri()),
            r@.len() == 20,
    {
        self.account_id()
    }

    /// Signs exactly the supplied payload; nothing is hashed or padded by
    /// this layer.
    pub fn sign(&self, signer_payload: &[u8]) -> (r: Vec<u8>)
        ensures
            r@.len() == 65,
    {
        ecdsa_sign(self, signer_payload)
    }
}

/// Configuration for signer: binds each chain configuration marker to the
/// one signature scheme it is compatible with. The binding is a compile-time
/// constraint, not a runtime check.
pub trait SignerConfig {
    type Signer;
}

impl SignerConfig for Ecdsachain {
    type Signer = SignerEcdsa;
}

impl SignerConfig for Substrate {
    type Signer = SignerEcdsa;
}

impl SignerConfig for Polkadot {
    type Signer = SignerEcdsa;
}

/// The registered configurations, as runtime selectors: one variant per
/// configuration marker, in registry order.
#[derive(Debug, Clone, Copy, PartialEq, Eq, Structural)]
pub enum ChainKind {
    Polkadot,
    Substrate,
    Ecdsachain,
}

/// The names of the registered configurations, in registry order.
pub open spec fn registered_chain_names() -> Seq<Seq<char>> {
    seq!["Polkadot"@, "Substrate"@, "Ecdsachain"@]
}

/// The registered configuration selected by `name`, if any.
pub open spec fn chain_for_name(name: Seq<char>) -> Option<ChainKind> {
    if name == "Polkadot"@ {
        Some(ChainKind::Polkadot)
    } else if name == "Substrate"@ {
        Some(ChainKind::Substrate)
    } else if name == "Ecdsachain"@ {
        Some(ChainKind::Ecdsachain)
    } else {
        None
    }
}

/// The message reported for a name that matches no registered configuration:
/// it lists every registered name, comma separated, in registry order.
pub open spec fn config_not_found_message() -> Seq<char> {
    "Chain configuration not found, Allowed configurations: "@ + "Polkadot"@ + ", "@ + "Substrate"@
        + ", "@ + "Ecdsachain"@
}

/// The given pieces of text joined with a comma and a space, in order.
pub open spec fn enumerate_names(names: Seq<Seq<char>>) -> Seq<char>
    decreases names.len(),
{
    if names.len() == 0 {
        Seq::<char>::empty()
    } else if names.len() == 1 {
        names[0]
    } else {
        enumerate_names(names.drop_last()) + ", "@ + names.last()
    }
}

/// The configuration-not-found message is the fixed header followed by an
/// enumeration of every registered chain name, each exactly once, in
/// registry order, with no namespace prefix in front of any of them.
pub proof fn lemma_error_lists_registered_names()
    ensures
        config_not_found_message() == "Chain configuration not found, Allowed configurations: "@
            + enumerate_names(registered_chain_names()),
{
    let names = registered_chain_names();
    assert(names.len() == 3);
    assert(names.drop_last() =~= seq!["Polkadot"@, "Substrate"@]);
    assert(names.drop_last().drop_last() =~= seq!["Polkadot"@]);
    assert(enumerate_names(seq!["Polkadot"@]) == "Polkadot"@);
    assert(enumerate_names(seq!["Polkadot"@, "Substrate"@]) == "Polkadot"@ + ", "@ + "Substrate"@);
    assert(enumerate_names(names) == "Polkadot"@ + ", "@ + "Substrate"@ + ", "@ + "Ecdsachain"@);
    assert(config_not_found_message() =~= "Chain configuration not found, Allowed configurations: "@
        + enumerate_names(names));
}

/// Selects the registered configuration whose name is exactly `name`
/// (case-sensitive, no normalization). An unregistered name yields an error
/// whose message enumerates all registered names.
pub fn lookup_chain_config(name: &str) -> (r: Result<ChainKind, ErrorVariant>)
    ensures
        r is Ok ==> chain_for_name(name@) == Some(r->Ok_0),
        chain_for_name(name@) matches Some(kind) ==> r == Ok::<ChainKind, ErrorVariant>(kind),
        r is Err <==> !registered_chain_names().contains(name@),
        r matches Err(e) ==> e.spec_message() == config_not_found_message(),
{
    proof {
        assert(registered_chain_names().contains(name@) <==> (name@ == "Polkadot"@ || name@
            == "Substrate"@ || name@ == "Ecdsachain"@)) by {
            if name@ == "Polkadot"@ {
                assert(registered_chain_names()[0] == name@);
            }
            if name@ == "Substrate"@ {
                assert(registered_chain_names()[1] == name@);
            }
            if name@ == "Ecdsachain"@ {
                assert(registered_chain_names()[2] == name@);
            }
        }
    }
    if str_eq(name, Polkadot::chain_name()) {
        Ok(ChainKind::Polkadot)
    } else if str_eq(name, Substrate::chain_name()) {
        Ok(ChainKind::Substrate)
    } else if str_eq(name, Ecdsachain::chain_name()) {
        Ok(ChainKind::Ecdsachain)
    } else {
        let mut message = String::new();
        message.append("Chain configuration not found, Allowed configurations: ");
        message.append(Polkadot::chain_name());
        message.append(", ");
        message.append(Substrate::chain_name());
        message.append(", ");
        message.append(Ecdsachain::chain_name());
        proof {
            assert(message@ =~= config_not_found_message());
        }
        Err(ErrorVariant::Generic(GenericError::from_message(message)))
    }
}

} // verus!
