//! Issuing a new session permission.
//!
//! A permission is known by its permission control identifier and comes with
//! a fresh secp256k1 key pair. Both keys are stored as hexadecimal text; the
//! issuer answers with the identifier and the public key.

use vstd::prelude::*;
use vstd::std_specs::cmp::PartialEqSpecImpl;
use vstd::string::{StringSliceAdditionalSpecFns, is_ascii_spec_bytes};

verus! {

/// The kind of a session key.
#[derive(Clone, Copy, Debug, PartialEq, Eq, Structural)]
pub enum KeyType {
    Secp256k1,
}

/// A public key and its kind.
#[derive(Clone, Debug)]
pub struct KeyItem {
    pub key_type: KeyType,
    pub public_key: String,
}

/// The answer to the request for a new permission.
#[derive(Clone, Debug)]
pub struct NewPermissionResponse {
    pci: String,
    key: KeyItem,
}

impl PartialEq for KeyItem {
    fn eq(&self, other: &KeyItem) -> (same: bool) {
        self.key_type == other.key_type && self.public_key == other.public_key
    }
}

impl Eq for KeyItem {

}

impl PartialEqSpecImpl for KeyItem {
    open spec fn obeys_eq_spec() -> bool {
        true
    }

    open spec fn eq_spec(&self, other: &KeyItem) -> bool {
        self.key_type == other.key_type && self.public_key@ == other.public_key@
    }
}

impl PartialEq for NewPermissionResponse {
    fn eq(&self, other: &NewPermissionResponse) -> (same: bool) {
        self.pci == other.pci && self.key == other.key
    }
}

impl Eq for NewPermissionResponse {

}

impl PartialEqSpecImpl for NewPermissionResponse {
    open spec fn obeys_eq_spec() -> bool {
        true
    }

    open spec fn eq_spec(&self, other: &NewPermissionResponse) -> bool {
        self.pci_text() == other.pci_text() && self.key_item().key_type
            == other.key_item().key_type && self.key_item().public_key@
            == other.key_item().public_key@
    }
}

/// A new permission: what is stored for it and what is answered.
#[derive(Debug)]
pub struct NewPermission {
    /// The public key in uncompressed form, as hexadecimal text.
    pub verification_key: String,
    /// The private key, as hexadecimal text.
    pub signing_key: String,
    pub response: NewPermissionResponse,
}

/// The lower-case hexadecimal digit for a value below sixteen.
pub open spec fn hex_digit(nibble: int) -> char {
    "0123456789abcdef"@[nibble]
}

/// The hexadecimal text of a byte string: two lower-case digits for each
/// byte, the high half first.
pub open spec fn hex_encoding(data: Seq<u8>) -> Seq<char> {
    Seq::new(
        2 * data.len(),
        |i: int|
            if i % 2 == 0 {
                hex_digit(data[i / 2] as int / 16)
            } else {
                hex_digit(data[i / 2] as int % 16)
            },
    )
}

/// The bytes of a text of ASCII characters.
pub open spec fn ascii_bytes(text: Seq<char>) -> Seq<u8> {
    Seq::new(text.len(), |i: int| text[i] as u8)
}

/// The public key as the answer shows it: `0x`, then the hexadecimal text of
/// the stored verification key, which is hexadecimal text itself.
pub open spec fn shown_public_key(verification_key: Seq<char>) -> Seq<char> {
    "0x"@ + hex_encoding(ascii_bytes(verification_key))
}

/// Trusted: calls `hex::encode`, which writes each byte as two lower-case
/// hexadecimal digits, the high half first.
#[verifier::external_body]
fn hex_encode(data: &[u8]) -> (text: String)
    ensures
        text@ == hex_encoding(data@),
{
    hex::encode(data)
}

/// Trusted: calls `uuid::Uuid::new_v4` and writes the identifier out with
/// `to_string`, which gives the hyphenated form: 32 hexadecimal digits in
/// five groups, 36 characters in all. Which identifier comes out is random.
/// The call fails only where the operating system gives no random bytes.
#[verifier::external_body]
fn random_pci() -> (pci: String)
    ensures
        pci@.len() == 36,
{
    uuid::Uuid::new_v4().to_string()
}

/// The verifying key that belongs to a secp256k1 signing key, as an
/// uncompressed point, where the bytes are a signing key: a number that is
/// not zero and below the order of the curve. It is what
/// `SigningKey::from_slice`, `VerifyingKey::from` and
/// `to_encoded_point(false)` of `k256` give in turn.
pub uninterp spec fn verifying_key_of(signing_key: Seq<u8>) -> Option<Seq<u8>>;

/// Trusted: draws a secp256k1 signing key with `SigningKey::random` from the
/// operating system's generator and gives its bytes with `to_bytes`. Which
/// key comes out is random; every one is 32 bytes long and is a signing key,
/// so that it has a verifying key. The call fails only where the operating
/// system gives no random bytes.
#[verifier::external_body]
fn random_signing_key() -> (key: Vec<u8>)
    ensures
        key@.len() == 32,
        verifying_key_of(key@) is Some,
{
    ethers::core::k256::ecdsa::SigningKey::random(&mut rand_core::OsRng).to_bytes().to_vec()
}

/// Trusted: reads a signing key with `SigningKey::from_slice`, takes its
/// `VerifyingKey` and writes it with `to_encoded_point(false)`. The contract
/// names the outcome, [`verifying_key_of`], and adds what holds of every
/// uncompressed point: 65 bytes, of which the first is 4.
#[verifier::external_body]
fn derive_verifying_key(signing_key: &[u8]) -> (key: Option<Vec<u8>>)
    ensures
        key is Some <==> verifying_key_of(signing_key@) is Some,
        key matches Some(k) ==> verifying_key_of(signing_key@) == Some(k@) && k@.len() == 65
            && k@[0] == 4,
{
    match ethers::core::k256::ecdsa::SigningKey::from_slice(signing_key) {
        Ok(key) => Some(
            ethers::core::k256::ecdsa::VerifyingKey::from(&key).to_encoded_point(
                false,
            ).as_bytes().to_vec(),
        ),
        Err(_) => None,
    }
}

/// Hexadecimal text is made of ASCII characters.
pub proof fn lemma_hex_is_ascii(data: Seq<u8>)
    ensures
        hex_encoding(data).len() == 2 * data.len(),
        vstd::utf8::is_ascii_chars(hex_encoding(data)),
{
    reveal_strlit("0123456789abcdef");
    let text = hex_encoding(data);
    assert forall|i: int| 0 <= i < text.len() implies '\0' <= #[trigger] text[i] <= '\u{7f}' by {
        let byte = data[i / 2] as int;
        assert(0 <= byte / 16 < 16 && 0 <= byte % 16 < 16);
    }
}

impl NewPermissionResponse {
    /// The permission control identifier.
    pub closed spec fn pci_text(&self) -> Seq<char> {
        self.pci@
    }

    /// The key shown.
    pub closed spec fn key_item(&self) -> KeyItem {
        self.key
    }

    pub fn new(pci: String, key: KeyItem) -> (response: Self)
        ensures
            response.pci_text() == pci@,
            response.key_item() == key,
    {
        NewPermissionResponse { pci, key }
    }

    pub fn pci(&self) -> (pci: &String)
        ensures
            pci@ == self.pci_text(),
    {
        &self.pci
    }

    pub fn key(&self) -> (key: &KeyItem)
        ensures
            *key == self.key_item(),
    {
        &self.key
    }
}

/// Whether `permission` is the permission with this identifier and these
/// keys.
pub open spec fn is_issued(
    permission: NewPermission,
    pci: Seq<char>,
    signing_key: Seq<u8>,
    verifying_key: Seq<u8>,
) -> bool {
    &&& permission.signing_key@ == hex_encoding(signing_key)
    &&& permission.verification_key@ == hex_encoding(verifying_key)
    &&& permission.response.pci_text() == pci
    &&& permission.response.key_item().key_type == KeyType::Secp256k1
    &&& permission.response.key_item().public_key@ == shown_public_key(
        hex_encoding(verifying_key),
    )
}

/// The permission for an identifier and a key pair that are at hand.
pub fn issue(pci: String, signing_key: &[u8], verifying_key: &[u8]) -> (permission: NewPermission)
    ensures
        is_issued(permission, pci@, signing_key@, verifying_key@),
{
    let private_key_hex = hex_encode(signing_key);
    let public_key_hex = hex_encode(verifying_key);
    let public_key_text = public_key_hex.as_str();
    let shown = hex_encode(public_key_text.as_bytes());
    proof {
        lemma_hex_is_ascii(verifying_key@);
        is_ascii_spec_bytes(public_key_text);
        assert(public_key_text.spec_bytes() =~= ascii_bytes(public_key_hex@));
    }
    let key = KeyItem {
        key_type: KeyType::Secp256k1,
        public_key: String::from_str("0x").concat(shown.as_str()),
    };
    NewPermission {
        verification_key: public_key_hex,
        signing_key: private_key_hex,
        response: NewPermissionResponse::new(pci, key),
    }
}

/// The permission for an identifier and a signing key that are at hand, with
/// the verifying key that belongs to the signing key; none where the bytes
/// are no signing key.
pub fn issue_for(pci: String, signing_key: &[u8]) -> (permission: Option<NewPermission>)
    ensures
        permission is Some <==> verifying_key_of(signing_key@) is Some,
        permission matches Some(p) ==> is_issued(
            p,
            pci@,
            signing_key@,
            verifying_key_of(signing_key@).unwrap(),
        ),
{
    match derive_verifying_key(signing_key) {
        Some(verifying_key) => Some(issue(pci, signing_key, verifying_key.as_slice())),
        None => None,
    }
}

/// The first two digits of hexadecimal text are those of the first byte.
pub proof fn lemma_hex_of_first_byte(data: Seq<u8>)
    requires
        data.len() > 0,
    ensures
        hex_encoding(data)[0] == hex_digit(data[0] as int / 16),
        hex_encoding(data)[1] == hex_digit(data[0] as int % 16),
{
}

/// Issues a new permission: a fresh identifier and a fresh signing key, and
/// from them what [`issue`] makes with the verifying key that belongs to the
/// signing key. Which identifier and which key come out is left to chance.
/// Every outcome is a permission with an identifier of 36 characters, a
/// signing key of 32 bytes and its verifying key of 65 bytes, both stored as
/// hexadecimal text, the verifying key under the mark `04` of an uncompressed
/// point.
pub fn handler() -> (permission: NewPermission)
    ensures
        exists|signing_key: Seq<u8>|
            signing_key.len() == 32 && verifying_key_of(signing_key) is Some && #[trigger] is_issued(
                permission,
                permission.response.pci_text(),
                signing_key,
                verifying_key_of(signing_key).unwrap(),
            ),
        permission.response.pci_text().len() == 36,
        permission.signing_key@.len() == 64,
        permission.verification_key@.len() == 130,
        permission.verification_key@[0] == '0' && permission.verification_key@[1] == '4',
        permission.response.key_item().key_type == KeyType::Secp256k1,
        permission.response.key_item().public_key@ == shown_public_key(
            permission.verification_key@,
        ),
        permission.response.key_item().public_key@.len() == 262,
{
    let pci = random_pci();
    let signing_key = random_signing_key();
    let verifying_key = derive_verifying_key(signing_key.as_slice()).unwrap();
    let permission = issue(pci, signing_key.as_slice(), verifying_key.as_slice());
    proof {
        assert(is_issued(
            permission,
            permission.response.pci_text(),
            signing_key@,
            verifying_key_of(signing_key@).unwrap(),
        ));
        lemma_hex_of_first_byte(verifying_key@);
        reveal_strlit("0123456789abcdef");
        reveal_strlit("0x");
        assert(hex_digit(0) == '0' && hex_digit(4) == '4');
        assert(permission.verification_key@.len() == 130);
        assert(ascii_bytes(permission.verification_key@).len() == 130);
        assert(hex_encoding(ascii_bytes(permission.verification_key@)).len() == 260);
    }
    permission
}

/// Whether a request for a new permission is taken up.
#[derive(Clone, Copy, Debug, PartialEq, Eq, Structural)]
pub enum Admission {
    Admitted,
    /// No store for permissions is configured.
    StoreMissing,
    /// The address is not in CAIP-10 form.
    AddressMalformed,
}

/// Decides whether a request for a new permission is taken up, from whether
/// a store is configured and whether the address is well formed. A missing
/// store is found before a malformed address.
pub fn admission_of(store_configured: bool, address_well_formed: bool) -> (admission: Admission)
    ensures
        !store_configured ==> admission == Admission::StoreMissing,
        store_configured && !address_well_formed ==> admission == Admission::AddressMalformed,
        store_configured && address_well_formed ==> admission == Admission::Admitted,
{
    if !store_configured {
        Admission::StoreMissing
    } else if !address_well_formed {
        Admission::AddressMalformed
    } else {
        Admission::Admitted
    }
}

} // verus!
