use helium_crypto::{KeyTag, KeyType, Keypair, Network as CryptoNetwork, Sign};
use oracles::ingest::{
    api_token, check_mapper_report, is_authorized, key_form_withheld, MapperRejection, Network,
    ReportVerifier,
    TokenError, VerifyError,
};

fn keypair(network: CryptoNetwork) -> Keypair {
    Keypair::generate_from_entropy(
        KeyTag { network, key_type: KeyType::Ed25519 },
        &[7u8; 32],
    )
    .expect("keypair")
}

#[test]
fn mapper_report_port() {
    assert_eq!(check_mapper_report(3), Ok(()));
    assert_eq!(check_mapper_report(2), Err(MapperRejection::NotAcceptable));
    assert_eq!(check_mapper_report(255), Err(MapperRejection::NotAcceptable));
    assert_eq!(MapperRejection::NotAcceptable.status_code(), 406);
}

#[test]
fn signed_report_is_accepted() {
    let pair = keypair(CryptoNetwork::MainNet);
    let key = pair.public_key().to_vec();
    let msg = b"speedtest report";
    let signature = pair.sign(msg).expect("sign");
    let verifier = ReportVerifier { required_network: Network::MainNet };
    assert_eq!(verifier.verify(&key, msg, &signature), Ok(()));
}

#[test]
fn report_with_bad_signature_is_refused() {
    let pair = keypair(CryptoNetwork::MainNet);
    let key = pair.public_key().to_vec();
    let signature = pair.sign(b"speedtest report").expect("sign");
    let verifier = ReportVerifier { required_network: Network::MainNet };
    let err = verifier.verify(&key, b"another report", &signature).unwrap_err();
    assert_eq!(err, VerifyError::InvalidSignature);
    assert_eq!(err.message(), "invalid signature");
}

#[test]
fn report_from_other_network_is_refused() {
    let pair = keypair(CryptoNetwork::TestNet);
    let key = pair.public_key().to_vec();
    let msg = b"heartbeat";
    let signature = pair.sign(msg).expect("sign");
    let verifier = ReportVerifier { required_network: Network::MainNet };
    let err = verifier.verify(&key, msg, &signature).unwrap_err();
    assert_eq!(err, VerifyError::InvalidNetwork);
    assert_eq!(err.message(), "invalid network");
    let testnet = ReportVerifier { required_network: Network::TestNet };
    assert_eq!(testnet.verify(&key, msg, &signature), Ok(()));
    let decoded = testnet.decode_pub_key(&key).expect("decodes");
    assert_eq!(decoded.network(), Network::TestNet);
}

#[test]
fn undecodable_key_is_refused() {
    let verifier = ReportVerifier { required_network: Network::MainNet };
    let err = verifier.verify(&[], b"msg", b"sig").unwrap_err();
    assert_eq!(err, VerifyError::InvalidPublicKey);
    assert_eq!(err.message(), "invalid public key");
    assert_eq!(verifier.verify(&[0x01, 1, 2, 3], b"msg", b"sig"), Err(VerifyError::InvalidPublicKey));
}

#[test]
fn api_token_is_bearer() {
    assert_eq!(api_token(Some("secret")), Ok(b"Bearer secret".to_vec()));
    assert_eq!(api_token(Some("été")), Ok("Bearer été".as_bytes().to_vec()));
    assert_eq!(api_token(Some("a\tb")), Ok(b"Bearer a\tb".to_vec()));
    let err = api_token(None).unwrap_err();
    assert_eq!(err, TokenError::Missing);
    assert_eq!(err.message(), "expected api token in settings");
}

#[test]
fn authorization_needs_exact_token() {
    let expected = api_token(Some("secret")).unwrap();
    assert!(is_authorized(&expected, Some(b"Bearer secret")));
    assert!(!is_authorized(&expected, Some(b"Bearer secreT")));
    assert!(!is_authorized(&expected, Some(b"Bearer secret2")));
    assert!(!is_authorized(&expected, None));
}

#[test]
fn header_characters() {
    assert!(oracles::ingest::header_char_ok('a'));
    assert!(oracles::ingest::header_char_ok(' '));
    assert!(oracles::ingest::header_char_ok('\t'));
    assert!(!oracles::ingest::header_char_ok('\n'));
    assert!(oracles::ingest::header_char_ok('é'));
    assert!(oracles::ingest::header_char_ok('~'));
    assert!(!oracles::ingest::header_char_ok('\u{7f}'));
}

#[test]
fn keys_that_would_crash_the_decoder_are_refused() {
    let verifier = ReportVerifier { required_network: Network::MainNet };
    // A secp256k1 key holding the identity point.
    assert!(key_form_withheld(&[0x03, 0x00]));
    assert_eq!(verifier.verify(&[0x03, 0x00], b"msg", b"sig"), Err(VerifyError::InvalidPublicKey));
    // A secp256k1 key whose compressed point is not on the curve.
    let mut off_curve = vec![0x03, 0x02];
    off_curve.extend_from_slice(&[0xFF; 32]);
    assert!(key_form_withheld(&off_curve));
    assert!(verifier.decode_pub_key(&off_curve).is_err());
    // An RSA key whose modulus length overruns its buffer.
    let rsa = [0x04, 0x00, 0x01, 0x00, 0x02, 0x09];
    assert!(key_form_withheld(&rsa));
    assert_eq!(verifier.verify(&rsa, b"msg", b"sig"), Err(VerifyError::InvalidPublicKey));
    // A truncated secp256k1 encoding is withheld and refused as well.
    assert!(key_form_withheld(&[0x03]));
    assert_eq!(verifier.verify(&[0x03], b"msg", b"sig"), Err(VerifyError::InvalidPublicKey));
    // A well-formed key is not affected.
    let pair = keypair(CryptoNetwork::MainNet);
    assert!(!key_form_withheld(&pair.public_key().to_vec()));
}
