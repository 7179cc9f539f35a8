//! The checks of the ingest server: a submitted report is accepted only when
//! its public key decodes, belongs to the network the server serves, and has
//! signed the report; gRPC calls must present the configured bearer token; and
//! mapper reports are accepted only on their port.

use vstd::prelude::*;
use helium_crypto::{PublicKey, Verify};
use vstd::slice::slice_subrange;

verus! {

#[verifier::external_type_specification]
#[verifier::external_body]
pub struct ExPublicKey(helium_crypto::PublicKey);

#[verifier::external_type_specification]
#[verifier::external_body]
pub struct ExCryptoError(helium_crypto::Error);

/// The network a key belongs to.
#[derive(Clone, Copy, Debug, PartialEq, Eq, Structural)]
pub enum Network {
    MainNet,
    TestNet,
}

/// The network that the tag byte of a binary key names: its high nibble is 0
/// for the main network and 1 for the test network; other values name none.
pub open spec fn network_tag(tag: u8) -> Option<Network> {
    if tag < 16 {
        Some(Network::MainNet)
    } else if tag < 32 {
        Some(Network::TestNet)
    } else {
        None
    }
}

/// A public key decoded from its binary form, kept together with that form.
pub struct PubKey {
    key: PublicKey,
    bytes: Vec<u8>,
    network: Network,
}

impl PubKey {
    /// The binary form the key was decoded from.
    pub closed spec fn key_bytes(&self) -> Seq<u8> {
        self.bytes@
    }

    /// The network of the key.
    pub closed spec fn key_network(&self) -> Network {
        self.network
    }

    /// The network of the key.
    pub fn network(&self) -> (n: Network)
        ensures
            n == self.key_network(),
    {
        self.network
    }
}

/// Whether `helium_crypto` decodes `bytes` as a public key.
pub uninterp spec fn public_key_accepts(bytes: Seq<u8>) -> bool;

/// Whether `signature` is a valid signature of `msg` by the key whose binary
/// form is `key`.
pub uninterp spec fn signature_accepts(key: Seq<u8>, msg: Seq<u8>, signature: Seq<u8>) -> bool;

/// The key type that the tag byte of a binary key names in its low nibble:
/// 3 is secp256k1 and 4 is RSA.
pub open spec fn key_type_tag(tag: u8) -> u8 {
    tag % 16
}

/// Whether `k256` accepts `bytes` as a SEC1-encoded secp256k1 public key: a
/// well-formed encoding of a point on the curve other than the identity.
pub uninterp spec fn sec1_key_accepts(bytes: Seq<u8>) -> bool;

/// Checks a SEC1 encoding with `k256::PublicKey::from_sec1_bytes`; whether it
/// succeeds is named by `sec1_key_accepts`.
#[verifier::external_body]
fn sec1_key_valid(bytes: &[u8]) -> (ok: bool)
    ensures
        ok == sec1_key_accepts(bytes@),
{
    k256::PublicKey::from_sec1_bytes(bytes).is_ok()
}

/// Whether an RSA key in binary form announces a modulus longer than the key
/// material that follows: after the tag, a big-endian 16-bit buffer length and
/// a 16-bit modulus length, and at least that many buffer bytes.
pub open spec fn rsa_modulus_overruns(bytes: Seq<u8>) -> bool {
    &&& bytes.len() >= 5
    &&& bytes.len() >= 5 + (bytes[1] as int * 256 + bytes[2] as int)
    &&& bytes[3] as int * 256 + bytes[4] as int > bytes[1] as int * 256 + bytes[2] as int
}

/// The key forms that are not handed to the decoder of `helium_crypto`,
/// because it panics on some of them: every secp256k1 key whose encoding `k256`
/// does not accept (the decoder unwraps the point of a well-formed encoding
/// that is not a valid key, and refuses a malformed encoding), and every RSA
/// key whose modulus length overruns its buffer (the decoder splits the buffer
/// there).
pub open spec fn withheld_key_form(bytes: Seq<u8>) -> bool {
    &&& bytes.len() > 0
    &&& network_tag(bytes[0]) is Some
    &&& {
        ||| key_type_tag(bytes[0]) == 3 && !sec1_key_accepts(bytes.skip(1))
        ||| key_type_tag(bytes[0]) == 4 && rsa_modulus_overruns(bytes)
    }
}

/// Whether a binary public key is accepted: `helium_crypto` decodes it, and it
/// is none of the withheld forms. Among keys the decoder does not panic on,
/// this is exactly what the decoder accepts.
pub open spec fn key_accepted(bytes: Seq<u8>) -> bool {
    public_key_accepts(bytes) && !withheld_key_form(bytes)
}

/// Decodes a binary public key with `helium_crypto::PublicKey::try_from`.
/// Whether it succeeds is named by `public_key_accepts`; as the crate's source
/// shows, empty input is refused and the key's network is the one that its
/// first byte names. The decoded key is kept with the bytes it came from. The
/// withheld forms, which include those the decoder panics on, are left out.
#[verifier::external_body]
fn decode_public_key(bytes: &[u8]) -> (key: Result<PubKey, helium_crypto::Error>)
    requires
        !withheld_key_form(bytes@),
    ensures
        key.is_ok() == public_key_accepts(bytes@),
        bytes@.len() == 0 ==> key.is_err(),
        key matches Ok(k) ==> {
            &&& k.key_bytes() == bytes@
            &&& bytes@.len() > 0
            &&& network_tag(bytes@[0]) == Some(k.key_network())
        },
{
    match PublicKey::try_from(bytes) {
        Ok(key) => {
            let network = match key.network {
                helium_crypto::Network::MainNet => Network::MainNet,
                helium_crypto::Network::TestNet => Network::TestNet,
            };
            Ok(PubKey { key, bytes: bytes.to_vec(), network })
        },
        Err(err) => Err(err),
    }
}

/// Checks a signature with `helium_crypto`'s `Verify::verify` on the decoded
/// key. A `PubKey` is only made by `decode_public_key`, so its key is the one
/// decoded from its bytes, and the result is named by `signature_accepts` over
/// those bytes.
#[verifier::external_body]
fn key_verifies(key: &PubKey, msg: &[u8], signature: &[u8]) -> (valid: bool)
    ensures
        valid == signature_accepts(key.key_bytes(), msg@, signature@),
{
    key.key.verify(msg, signature).is_ok()
}

/// Why a report was refused.
#[derive(Clone, Copy, Debug, PartialEq, Eq, Structural)]
pub enum VerifyError {
    /// The public key does not decode.
    InvalidPublicKey,
    /// The public key belongs to another network.
    InvalidNetwork,
    /// The signature does not verify.
    InvalidSignature,
}

impl VerifyError {
    /// The message the refusal is reported with.
    pub fn message(&self) -> (m: &'static str)
        ensures
            m@ == match self {
                VerifyError::InvalidPublicKey => "invalid public key"@,
                VerifyError::InvalidNetwork => "invalid network"@,
                VerifyError::InvalidSignature => "invalid signature"@,
            },
    {
        match self {
            VerifyError::InvalidPublicKey => "invalid public key",
            VerifyError::InvalidNetwork => "invalid network",
            VerifyError::InvalidSignature => "invalid signature",
        }
    }
}

/// The verdict on a report whose public key is `key`, whose signed content is
/// `msg` and whose signature is `signature`, on a server for `required`: the
/// first check that fails, in the order key, network, signature.
pub open spec fn report_verdict(required: Network, key: Seq<u8>, msg: Seq<u8>, signature: Seq<u8>) -> Result<(), VerifyError> {
    if !key_accepted(key) {
        Err(VerifyError::InvalidPublicKey)
    } else if network_tag(key[0]) != Some(required) {
        Err(VerifyError::InvalidNetwork)
    } else if !signature_accepts(key, msg, signature) {
        Err(VerifyError::InvalidSignature)
    } else {
        Ok(())
    }
}

/// Whether `data` is a withheld key form, kept from the decoder of
/// `helium_crypto`.
pub fn key_form_withheld(data: &[u8]) -> (withheld: bool)
    ensures
        withheld == withheld_key_form(data@),
{
    if data.len() == 0 || data[0] >= 32 {
        return false;
    }
    let tag = data[0] % 16;
    if tag == 3 {
        let rest = slice_subrange(data, 1, data.len());
        assert(rest@ =~= data@.skip(1));
        !sec1_key_valid(rest)
    } else if tag == 4 {
        if data.len() < 5 {
            return false;
        }
        let buf_len = data[1] as usize * 256 + data[2] as usize;
        let modulus_len = data[3] as usize * 256 + data[4] as usize;
        data.len() - 5 >= buf_len && modulus_len > buf_len
    } else {
        false
    }
}

/// Verifies the reports submitted to a server for one network.
#[derive(Clone, Copy, Debug)]
pub struct ReportVerifier {
    pub required_network: Network,
}

impl ReportVerifier {
    /// Decodes the public key of a report. A key of a withheld form (those the
    /// decoder of `helium_crypto` would panic on among them) is refused like any
    /// other key that does not decode.
    pub fn decode_pub_key(&self, data: &[u8]) -> (key: Result<PubKey, VerifyError>)
        ensures
            key.is_ok() == key_accepted(data@),
            key matches Err(e) ==> e == VerifyError::InvalidPublicKey,
            key matches Ok(k) ==> k.key_bytes() == data@ && data@.len() > 0 && network_tag(data@[0]) == Some(k.key_network()),
    {
        if key_form_withheld(data) {
            return Err(VerifyError::InvalidPublicKey);
        }
        match decode_public_key(data) {
            Ok(key) => Ok(key),
            Err(_) => Err(VerifyError::InvalidPublicKey),
        }
    }

    /// Accepts a key of the network this server serves, and refuses any other.
    pub fn verify_network(&self, public_key: PubKey) -> (key: Result<PubKey, VerifyError>)
        ensures
            public_key.key_network() == self.required_network ==> key == Ok::<PubKey, VerifyError>(public_key),
            public_key.key_network() != self.required_network ==> key == Err::<PubKey, VerifyError>(VerifyError::InvalidNetwork),
    {
        if public_key.network() == self.required_network {
            Ok(public_key)
        } else {
            Err(VerifyError::InvalidNetwork)
        }
    }

    /// Accepts a report whose signature over `msg` verifies with the key.
    pub fn verify_signature(&self, pub_key: &PubKey, msg: &[u8], signature: &[u8]) -> (r: Result<(), VerifyError>)
        ensures
            r.is_ok() == signature_accepts(pub_key.key_bytes(), msg@, signature@),
            r matches Err(e) ==> e == VerifyError::InvalidSignature,
    {
        if key_verifies(pub_key, msg, signature) {
            Ok(())
        } else {
            Err(VerifyError::InvalidSignature)
        }
    }

    /// Verifies a report: its public key (in binary form), the content it
    /// signed and its signature.
    pub fn verify(&self, pub_key: &[u8], msg: &[u8], signature: &[u8]) -> (r: Result<(), VerifyError>)
        ensures
            r == report_verdict(self.required_network, pub_key@, msg@, signature@),
    {
        let key = match self.decode_pub_key(pub_key) {
            Ok(key) => key,
            Err(e) => return Err(e),
        };
        let key = match self.verify_network(key) {
            Ok(key) => key,
            Err(e) => return Err(e),
        };
        match self.verify_signature(&key, msg, signature) {
            Ok(()) => Ok(()),
            Err(e) => Err(e),
        }
    }
}

/// The port that mapper reports are sent on.
pub const MAPPER_PORT: u8 = 3;

/// Why a mapper report was refused.
#[derive(Clone, Copy, Debug, PartialEq, Eq, Structural)]
pub enum MapperRejection {
    /// The report came on another port.
    NotAcceptable,
}

impl MapperRejection {
    /// The HTTP status the refusal is answered with.
    pub fn status_code(&self) -> (code: u16)
        ensures
            code == 406,
    {
        406
    }
}

/// Accepts a mapper report sent on the mapper port and refuses any other.
pub fn check_mapper_report(port: u8) -> (r: Result<(), MapperRejection>)
    ensures
        r.is_ok() <==> port == MAPPER_PORT,
        r matches Err(e) ==> e == MapperRejection::NotAcceptable,
{
    if port != MAPPER_PORT {
        return Err(MapperRejection::NotAcceptable);
    }
    Ok(())
}

/// Whether a character may stand in a metadata value parsed from text: every
/// byte of its UTF-8 encoding must be at least 32 and not 127, or be a tab.
/// Characters beyond ASCII encode to bytes of 128 and more, so they may.
pub open spec fn header_char(c: char) -> bool {
    c == '\t' || (' ' <= c && c != '\u{7f}')
}

/// Whether a character may stand in a metadata value parsed from text.
pub fn header_char_ok(c: char) -> (ok: bool)
    ensures
        ok == header_char(c),
{
    c == '\t' || (' ' <= c && c != '\u{7f}')
}

/// The bytes of `Bearer ` followed by the UTF-8 bytes of the token.
pub open spec fn bearer_value(token: Seq<char>) -> Seq<u8> {
    seq![66u8, 101u8, 97u8, 114u8, 101u8, 114u8, 32u8] + vstd::utf8::encode_utf8(token)
}

/// Why the server could not start.
#[derive(Clone, Copy, Debug, PartialEq, Eq, Structural)]
pub enum TokenError {
    /// The settings hold no API token.
    Missing,
}

impl TokenError {
    /// The message the error is reported with.
    pub fn message(&self) -> (m: &'static str)
        ensures
            m@ == "expected api token in settings"@,
    {
        "expected api token in settings"
    }
}

/// The authorization value that gRPC calls must present: `Bearer ` followed by
/// the token from the settings. A token must be made of characters that can
/// stand in a metadata value.
pub fn api_token(token: Option<&str>) -> (value: Result<Vec<u8>, TokenError>)
    requires
        token matches Some(t) ==> forall|i: int| 0 <= i < t@.len() ==> header_char(#[trigger] t@[i]),
    ensures
        match token {
            None => value == Err::<Vec<u8>, TokenError>(TokenError::Missing),
            Some(t) => value matches Ok(v) && v@ == bearer_value(t@),
        },
{
    match token {
        None => Err(TokenError::Missing),
        Some(t) => {
            let mut value: Vec<u8> = vec![66u8, 101u8, 97u8, 114u8, 101u8, 114u8, 32u8];
            let bytes = t.as_bytes();
            let mut i: usize = 0;
            while i < bytes.len()
                invariant
                    i <= bytes@.len(),
                    bytes@ == vstd::utf8::encode_utf8(t@),
                    value@ == seq![66u8, 101u8, 97u8, 114u8, 101u8, 114u8, 32u8] + bytes@.take(i as int),
                decreases bytes@.len() - i,
            {
                value.push(bytes[i]);
                assert(bytes@.take(i + 1) =~= bytes@.take(i as int).push(bytes@[i as int]));
                i = i + 1;
            }
            assert(bytes@.take(bytes@.len() as int) =~= bytes@);
            Ok(value)
        },
    }
}

/// Whether a call is authorized: it must present exactly the expected value.
pub fn is_authorized(expected: &[u8], presented: Option<&[u8]>) -> (ok: bool)
    ensures
        ok == (presented matches Some(p) && p@ == expected@),
{
    match presented {
        None => false,
        Some(p) => {
            if p.len() != expected.len() {
                return false;
            }
            let mut i: usize = 0;
            while i < p.len()
                invariant
                    presented == Some(p),
                    p@.len() == expected@.len(),
                    i <= p@.len(),
                    forall|j: int| 0 <= j < i ==> p@[j] == expected@[j],
                decreases p@.len() - i,
            {
                if p[i] != expected[i] {
                    assert(p@[i as int] != expected@[i as int]);
                    return false;
                }
                i = i + 1;
            }
            assert(p@ =~= expected@);
            true
        },
    }
}

/// Only secp256k1 and RSA encodings are ever withheld: a key of any other type
/// (ecc_compact, ed25519) is accepted exactly when `helium_crypto` decodes it,
/// and a secp256k1 key is withheld exactly when `k256` refuses its encoding.
pub proof fn lemma_withheld_only_secp256k1_and_rsa(bytes: Seq<u8>)
    requires
        bytes.len() > 0,
    ensures
        key_type_tag(bytes[0]) != 3 && key_type_tag(bytes[0]) != 4 ==> {
            &&& !withheld_key_form(bytes)
            &&& key_accepted(bytes) == public_key_accepts(bytes)
        },
        network_tag(bytes[0]) is Some && key_type_tag(bytes[0]) == 3 ==> (withheld_key_form(bytes) <==> !sec1_key_accepts(bytes.skip(1))),
        network_tag(bytes[0]) is Some && key_type_tag(bytes[0]) == 4 ==> (withheld_key_form(bytes) <==> rsa_modulus_overruns(bytes)),
        network_tag(bytes[0]) is None ==> !withheld_key_form(bytes),
{
}

/// A report whose key `helium_crypto` decodes, is not of a withheld form,
/// belongs to the served network and has signed the content is accepted; in
/// particular any decodable ecc_compact or ed25519 key (key types 0 and 1) of
/// the served network with a valid signature.
pub proof fn lemma_valid_report_accepted(required: Network, key: Seq<u8>, msg: Seq<u8>, signature: Seq<u8>)
    requires
        key.len() > 0,
        public_key_accepts(key),
        key_type_tag(key[0]) == 0 || key_type_tag(key[0]) == 1 || !withheld_key_form(key),
        network_tag(key[0]) == Some(required),
        signature_accepts(key, msg, signature),
    ensures
        report_verdict(required, key, msg, signature) == Ok::<(), VerifyError>(()),
{
}

/// The authorization value is `Bearer ` followed by every UTF-8 byte of the
/// token, whatever its length: seven bytes more than the token's encoding, the
/// first seven spelling `Bearer `, the rest the token's bytes unchanged.
pub proof fn lemma_bearer_value_layout(token: Seq<char>)
    ensures
        bearer_value(token).len() == 7 + vstd::utf8::encode_utf8(token).len(),
        bearer_value(token).take(7) == seq![66u8, 101u8, 97u8, 114u8, 101u8, 114u8, 32u8],
        bearer_value(token).skip(7) == vstd::utf8::encode_utf8(token),
        forall|i: int| 0 <= i < vstd::utf8::encode_utf8(token).len()
            ==> #[trigger] bearer_value(token)[7 + i] == vstd::utf8::encode_utf8(token)[i],
{
    assert(bearer_value(token).take(7) =~= seq![66u8, 101u8, 97u8, 114u8, 101u8, 114u8, 32u8]);
    assert(bearer_value(token).skip(7) =~= vstd::utf8::encode_utf8(token));
}

/// A call presenting `Bearer ` followed by the token's bytes is admitted, and a
/// call presenting anything else, or nothing, is refused.
pub proof fn lemma_configured_token_admitted(token: Seq<char>, presented: Option<Seq<u8>>)
    ensures
        presented == Some(seq![66u8, 101u8, 97u8, 114u8, 101u8, 114u8, 32u8] + vstd::utf8::encode_utf8(token))
            <==> (presented matches Some(p) && p == bearer_value(token)),
{
}

/// The checks of a report come in a fixed order, and a report is accepted only
/// when all of them pass: a key that is not accepted is refused as such
/// whatever the network and signature; an accepted key of another network is
/// refused for its network whatever the signature; and a report of the served
/// network is refused for its signature exactly when the signature does not
/// verify.
pub proof fn lemma_verdict_order(required: Network, key: Seq<u8>, msg: Seq<u8>, signature: Seq<u8>)
    ensures
        !key_accepted(key) ==> report_verdict(required, key, msg, signature) == Err::<(), VerifyError>(VerifyError::InvalidPublicKey),
        key_accepted(key) && network_tag(key[0]) != Some(required)
            ==> report_verdict(required, key, msg, signature) == Err::<(), VerifyError>(VerifyError::InvalidNetwork),
        key_accepted(key) && network_tag(key[0]) == Some(required)
            ==> (report_verdict(required, key, msg, signature) is Ok <==> signature_accepts(key, msg, signature)),
        report_verdict(required, key, msg, signature) is Ok
            ==> key_accepted(key) && network_tag(key[0]) == Some(required) && signature_accepts(key, msg, signature),
{
}

} // verus!
