use rsa_keypair::error::{JoseError, KeyFormatError, RsaParameter};
use rsa_keypair::jwk::{Jwk, JwkValue};
use rsa_keypair::pkcs1::{
    parameter_from_jwk, private_jwk, private_numbers_from_jwk, public_jwk, to_pkcs1,
    RsaPrivateNumbers, RsaPublicNumbers,
};
use rsa_keypair::pkcs8::to_pkcs8;
use rsa_keypair::rsa::RsaKeyPair;

fn text(s: &str) -> JwkValue {
    JwkValue::Text(s.to_string())
}

fn small_numbers() -> RsaPrivateNumbers {
    RsaPrivateNumbers {
        n: vec![0x00, 0xc3],
        e: vec![1, 0, 1],
        d: vec![5],
        p: vec![7],
        q: vec![0x0b],
        dp: vec![1],
        dq: vec![2],
        qi: vec![3],
    }
}

fn small_jwk() -> Jwk {
    let mut jwk = Jwk::new("RSA");
    jwk.set_parameter("n", text("AMM"));
    jwk.set_parameter("e", text("AQAB"));
    jwk.set_parameter("d", text("BQ"));
    jwk.set_parameter("p", text("Bw"));
    jwk.set_parameter("q", text("Cw"));
    jwk.set_parameter("dp", text("AQ"));
    jwk.set_parameter("dq", text("Ag"));
    jwk.set_parameter("qi", text("Aw"));
    jwk
}

fn cause(error: JoseError) -> KeyFormatError {
    error.cause().clone()
}

#[test]
fn a_new_jwk_has_its_key_type_and_nothing_else() {
    let jwk = Jwk::new("RSA");
    assert_eq!(jwk.key_type(), "RSA");
    assert_eq!(jwk.algorithm(), None);
    assert_eq!(jwk.parameter("n"), None);
    assert_eq!(jwk.parameter("kty"), None);
}

#[test]
fn parameters_are_set_and_replaced() {
    let mut jwk = Jwk::new("oct");
    jwk.set_parameter("k", text("one"));
    jwk.set_parameter("use", JwkValue::Other);
    assert_eq!(jwk.parameter("k"), Some(&text("one")));
    assert_eq!(jwk.parameter("use"), Some(&JwkValue::Other));
    jwk.set_parameter("k", text("two"));
    assert_eq!(jwk.parameter("k"), Some(&text("two")));
    assert_eq!(jwk.parameter("use"), Some(&JwkValue::Other));
    jwk.set_parameter("use", text("sig"));
    assert_eq!(jwk.parameter("use"), Some(&text("sig")));
    assert_eq!(jwk.parameter("K"), None);
    assert_eq!(jwk.key_type(), "oct");
}

#[test]
fn the_algorithm_is_set() {
    let mut jwk = Jwk::new("RSA");
    jwk.set_parameter("n", text("AQ"));
    jwk.set_algorithm("RS256");
    assert_eq!(jwk.algorithm(), Some("RS256"));
    jwk.set_algorithm("PS512");
    assert_eq!(jwk.algorithm(), Some("PS512"));
    assert_eq!(jwk.parameter("n"), Some(&text("AQ")));
    assert_eq!(jwk.key_type(), "RSA");
}

#[test]
fn parameter_names_are_the_ones_of_a_jwk() {
    let all = [
        (RsaParameter::N, "n"),
        (RsaParameter::E, "e"),
        (RsaParameter::D, "d"),
        (RsaParameter::P, "p"),
        (RsaParameter::Q, "q"),
        (RsaParameter::Dp, "dp"),
        (RsaParameter::Dq, "dq"),
        (RsaParameter::Qi, "qi"),
    ];
    for (p, name) in all {
        assert_eq!(p.name(), name);
    }
}

#[test]
fn the_private_key_structure_lists_the_nine_integers() {
    let expected = vec![
        0x30, 0x1e, 0x02, 0x01, 0x00, 0x02, 0x02, 0x00, 0xc3, 0x02, 0x03, 0x01, 0x00, 0x01, 0x02,
        0x01, 0x05, 0x02, 0x01, 0x07, 0x02, 0x01, 0x0b, 0x02, 0x01, 0x01, 0x02, 0x01, 0x02, 0x02,
        0x01, 0x03,
    ];
    assert_eq!(to_pkcs1(&small_numbers()), expected);
}

#[test]
fn every_integer_of_the_structure_is_sign_padded() {
    let all_high = RsaPrivateNumbers {
        n: vec![0x80],
        e: vec![0x81],
        d: vec![0x82],
        p: vec![0x83],
        q: vec![0x84],
        dp: vec![0x85],
        dq: vec![0x86],
        qi: vec![0x87],
    };
    let der = to_pkcs1(&all_high);
    let mut expected = vec![0x30, 0x23, 0x02, 0x01, 0x00];
    for byte in 0x80..=0x87u8 {
        expected.extend_from_slice(&[0x02, 0x02, 0x00, byte]);
    }
    assert_eq!(der, expected);
}

#[test]
fn the_numbers_of_a_jwk_are_decoded_from_base64url() {
    let numbers = private_numbers_from_jwk(&small_jwk()).unwrap();
    assert_eq!(numbers, small_numbers());
    assert_eq!(parameter_from_jwk(&small_jwk(), RsaParameter::E).unwrap(), vec![1, 0, 1]);
    let mut url = Jwk::new("RSA");
    url.set_parameter("n", text("-_8"));
    assert_eq!(parameter_from_jwk(&url, RsaParameter::N).unwrap(), vec![0xfb, 0xff]);
    url.set_parameter("n", text(""));
    assert_eq!(parameter_from_jwk(&url, RsaParameter::N).unwrap(), Vec::<u8>::new());
}

#[test]
fn a_jwk_becomes_the_envelope_of_its_numbers() {
    let expected = to_pkcs8(&to_pkcs1(&small_numbers()), false);
    assert_eq!(RsaKeyPair::jwk_to_pkcs8(&small_jwk()).unwrap(), expected);
}

#[test]
fn a_jwk_of_another_key_type_is_refused() {
    let mut jwk = Jwk::new("EC");
    jwk.set_parameter("n", text("AMM"));
    let error = private_numbers_from_jwk(&jwk).unwrap_err();
    assert!(matches!(cause(error.clone()), KeyFormatError::InvalidKeyType(kty) if kty == "EC"));
    assert_eq!(error.cause().message(), "A parameter kty must be RSA: EC");
    assert_eq!(error.message(), "Invalid key format: A parameter kty must be RSA: EC");
    let from = RsaKeyPair::from_jwk(&jwk).unwrap_err();
    assert_eq!(from.cause().message(), "A parameter kty must be RSA: EC");
}

#[test]
fn a_jwk_without_qi_is_refused() {
    let mut jwk = Jwk::new("RSA");
    jwk.set_parameter("n", text("AMM"));
    jwk.set_parameter("e", text("AQAB"));
    jwk.set_parameter("d", text("BQ"));
    jwk.set_parameter("p", text("Bw"));
    jwk.set_parameter("q", text("Cw"));
    jwk.set_parameter("dp", text("AQ"));
    jwk.set_parameter("dq", text("Ag"));
    let error = RsaKeyPair::from_jwk(&jwk).unwrap_err();
    assert!(matches!(cause(error.clone()), KeyFormatError::MissingParameter(RsaParameter::Qi)));
    assert_eq!(error.cause().message(), "A parameter qi is required.");
    assert_eq!(error.message(), "Invalid key format: A parameter qi is required.");
}

#[test]
fn each_missing_parameter_is_named() {
    let all = [
        (RsaParameter::N, "n"),
        (RsaParameter::E, "e"),
        (RsaParameter::D, "d"),
        (RsaParameter::P, "p"),
        (RsaParameter::Q, "q"),
        (RsaParameter::Dp, "dp"),
        (RsaParameter::Dq, "dq"),
        (RsaParameter::Qi, "qi"),
    ];
    for (missing, missing_name) in all {
        let full = small_jwk();
        let mut jwk = Jwk::new("RSA");
        for (_, name) in all {
            if name != missing_name {
                jwk.set_parameter(name, full.parameter(name).unwrap().clone());
            }
        }
        let error = private_numbers_from_jwk(&jwk).unwrap_err();
        assert!(matches!(cause(error.clone()), KeyFormatError::MissingParameter(p) if p == missing));
        assert_eq!(
            error.cause().message(),
            format!("A parameter {} is required.", missing_name)
        );
    }
}

#[test]
fn the_first_fault_is_the_one_reported() {
    let mut jwk = Jwk::new("RSA");
    jwk.set_parameter("qi", JwkValue::Other);
    jwk.set_parameter("e", JwkValue::Other);
    let error = private_numbers_from_jwk(&jwk).unwrap_err();
    assert!(matches!(cause(error), KeyFormatError::MissingParameter(RsaParameter::N)));
    jwk.set_parameter("n", text("AMM"));
    let error = private_numbers_from_jwk(&jwk).unwrap_err();
    assert!(matches!(cause(error), KeyFormatError::ParameterNotString(RsaParameter::E)));
}

#[test]
fn a_parameter_that_is_not_a_string_is_refused() {
    let mut jwk = small_jwk();
    jwk.set_parameter("d", JwkValue::Other);
    let error = RsaKeyPair::from_jwk(&jwk).unwrap_err();
    assert!(matches!(cause(error.clone()), KeyFormatError::ParameterNotString(RsaParameter::D)));
    assert_eq!(error.cause().message(), "A parameter d must be a string.");
}

#[test]
fn a_parameter_that_is_not_base64url_is_refused() {
    for bad in ["A", "AQAB=", "AQ+B", "AQ/B", "A Q", "AR"] {
        let mut jwk = small_jwk();
        jwk.set_parameter("p", text(bad));
        let error = private_numbers_from_jwk(&jwk).unwrap_err();
        assert!(
            matches!(cause(error.clone()), KeyFormatError::InvalidBase64(RsaParameter::P, _)),
            "{}",
            bad
        );
        assert!(!error.cause().message().is_empty());
    }
}

#[test]
fn the_public_jwk_has_n_and_e() {
    let numbers = RsaPublicNumbers { n: vec![0xc3], e: vec![1, 0, 1] };
    let jwk = public_jwk(None, &numbers).unwrap();
    assert_eq!(jwk.key_type(), "RSA");
    assert_eq!(jwk.algorithm(), None);
    assert_eq!(jwk.parameter("n"), Some(&text("ww")));
    assert_eq!(jwk.parameter("e"), Some(&text("AQAB")));
    assert_eq!(jwk.parameter("d"), None);
    assert_eq!(jwk.parameter("qi"), None);
    let labelled = public_jwk(Some("RS256"), &numbers).unwrap();
    assert_eq!(labelled.algorithm(), Some("RS256"));
}

#[test]
fn the_private_jwk_has_all_eight_numbers() {
    let jwk = private_jwk(Some("PS256"), &small_numbers()).unwrap();
    assert_eq!(jwk.key_type(), "RSA");
    assert_eq!(jwk.algorithm(), Some("PS256"));
    assert_eq!(jwk.parameter("n"), Some(&text("AMM")));
    assert_eq!(jwk.parameter("e"), Some(&text("AQAB")));
    assert_eq!(jwk.parameter("d"), Some(&text("BQ")));
    assert_eq!(jwk.parameter("p"), Some(&text("Bw")));
    assert_eq!(jwk.parameter("q"), Some(&text("Cw")));
    assert_eq!(jwk.parameter("dp"), Some(&text("AQ")));
    assert_eq!(jwk.parameter("dq"), Some(&text("Ag")));
    assert_eq!(jwk.parameter("qi"), Some(&text("Aw")));
}

#[test]
fn base64url_uses_dash_and_underscore_without_padding() {
    let numbers = RsaPublicNumbers { n: vec![0xfb, 0xff], e: vec![] };
    let jwk = public_jwk(None, &numbers).unwrap();
    assert_eq!(jwk.parameter("n"), Some(&text("-_8")));
    assert_eq!(jwk.parameter("e"), Some(&text("")));
}

#[test]
fn the_numbers_written_to_a_jwk_are_read_back() {
    let jwk = private_jwk(None, &small_numbers()).unwrap();
    assert_eq!(private_numbers_from_jwk(&jwk).unwrap(), small_numbers());
}

#[test]
fn error_messages_name_the_cause() {
    assert_eq!(KeyFormatError::InvalidPemFormat.message(), "Invalid PEM format.");
    assert_eq!(KeyFormatError::InvalidPemContents.message(), "Invalid PEM contents");
    assert_eq!(
        KeyFormatError::InappropriateAlgorithm("X".to_string()).message(),
        "Inappropriate algorithm: X"
    );
    assert_eq!(
        KeyFormatError::ParameterNotString(RsaParameter::Dp).message(),
        "A parameter dp must be a string."
    );
    assert_eq!(
        KeyFormatError::InvalidBase64(RsaParameter::N, "bad".to_string()).message(),
        "bad"
    );
    assert_eq!(
        KeyFormatError::MissingComponent(RsaParameter::P).message(),
        "The key has no p."
    );
    assert_eq!(KeyFormatError::TooLarge.message(), "A value is too large.");
    assert_eq!(KeyFormatError::Crypto("refused".to_string()).message(), "refused");
    let error = JoseError::InvalidKeyFormat(KeyFormatError::TooLarge);
    assert_eq!(error.message(), "Invalid key format: A value is too large.");
    assert!(matches!(error.cause(), KeyFormatError::TooLarge));
}
