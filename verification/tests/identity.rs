use openc3_cosmos_app::context::Folder;
use openc3_cosmos_app::error::ErrorChain;
use openc3_cosmos_app::identity::{
    bridge_dir, current_path, decode_key, hex, identity_path, load_or_create_secret,
    new_identity, public_key_hex, Identity,
};
use openc3_cosmos_app::plan::{Reply, Step};

fn key() -> [u8; 32] {
    let mut key = [0u8; 32];
    for (i, byte) in key.iter_mut().enumerate() {
        *byte = (i * 37 % 256) as u8;
    }
    key
}

fn decoded(text: &str) -> Result<[u8; 32], String> {
    decode_key(text).map_err(|error| error.in_full())
}

#[test]
fn files_live_in_the_bridge_folder() {
    assert_eq!(bridge_dir().folder, Folder::Root);
    assert_eq!(bridge_dir().parts, vec!["bridge"]);
    assert_eq!(identity_path().parts, vec!["bridge", "identity.key"]);
    assert_eq!(current_path().parts, vec!["bridge", "current.json"]);
}

#[test]
fn hexadecimal_is_in_lower_case() {
    assert_eq!(hex(&[0, 1, 0x0a, 0x9f, 0xff, 0xa0]), "00010a9fffa0");
    assert_eq!(hex(&[]), "");
    let all: Vec<u8> = (0..=255).collect();
    let written: String = all.iter().map(|byte| format!("{byte:02x}")).collect();
    assert_eq!(hex(&all), written);
}

#[test]
fn written_key_comes_back() {
    assert_eq!(decoded(&hex(&key())), Ok(key()));
    assert_eq!(decoded(&format!("  {}\n", hex(&key()))), Ok(key()));
    assert_eq!(decoded(&hex(&key()).to_uppercase()), Ok(key()));
}

#[test]
fn pairs_are_two_digits() {
    let rest = "00".repeat(31);
    for first in 0u8..128 {
        for second in 0u8..128 {
            let pair = format!("{}{}", first as char, second as char);
            let text = format!("{pair}{rest}");
            if text.trim().len() != 64 {
                continue;
            }
            if first.is_ascii_hexdigit() && second.is_ascii_hexdigit() {
                let value = u8::from_str_radix(&pair, 16).unwrap();
                assert_eq!(decoded(&text).unwrap()[0], value);
            } else {
                assert_eq!(
                    decoded(&text),
                    Err("invalid hex in key: invalid digit found in string".to_string())
                );
            }
        }
    }
}

#[test]
fn key_has_its_length() {
    assert_eq!(decoded(""), Err("expected 64 hex chars, got 0".to_string()));
    assert_eq!(decoded(&"a".repeat(63)), Err("expected 64 hex chars, got 63".to_string()));
    assert_eq!(decoded(&"é".repeat(33)), Err("expected 64 hex chars, got 66".to_string()));
}

#[test]
fn only_hexadecimal_is_a_key() {
    for text in [
        "+1".repeat(32),
        format!("+f{}", "00".repeat(31)),
        format!("aé{}", "0".repeat(61)),
        format!("é{}", "0".repeat(62)),
        format!("{}€0", "0".repeat(60)),
        "é".repeat(32),
        format!("{} 0", "0".repeat(62)),
        format!("{}g", "0".repeat(63)),
    ] {
        assert_eq!(text.len(), 64);
        assert_eq!(
            decoded(&text),
            Err("invalid hex in key: invalid digit found in string".to_string()),
            "{text}"
        );
    }
}

#[test]
fn public_key_is_that_of_iroh() {
    let secret = iroh::SecretKey::from_bytes(&key());
    let public: String =
        secret.public().as_bytes().iter().map(|byte| format!("{byte:02x}")).collect();
    assert_eq!(public_key_hex(&key()), public);
    assert_ne!(public_key_hex(&key()), hex(&key()));
}

#[test]
fn stored_identity_is_used() {
    match load_or_create_secret(Ok(Some(hex(&key()))), true) {
        Identity::Known(secret) => assert_eq!(secret, key()),
        other => panic!("{other:?}"),
    }
    let failed = load_or_create_secret(Ok(Some("short".to_string())), true).settle(None);
    assert_eq!(failed.unwrap_err().in_full(), "expected 64 hex chars, got 5");
    let error = ErrorChain::new("denied".to_string());
    let failed = load_or_create_secret(Err(error), true).settle(None);
    assert_eq!(failed.unwrap_err().in_full(), "reading bridge identity: denied");
}

#[test]
fn new_identity_is_saved() {
    match new_identity(key(), true) {
        Identity::New { secret, save } => {
            assert_eq!(secret, key());
            assert_eq!(save.steps.len(), 3);
            assert!(matches!(&save.steps[0].step, Step::CreateFolder(folder)
                if folder.parts == vec!["bridge"]));
            match &save.steps[1].step {
                Step::WriteText { file, text } => {
                    assert_eq!(file.parts, vec!["bridge", "identity.key"]);
                    assert_eq!(decoded(text), Ok(key()));
                }
                other => panic!("{other:?}"),
            }
            assert!(matches!(&save.steps[2].step, Step::Restrict(_)));
            let failed = save
                .resume(Reply::Failed(ErrorChain::new("there".to_string())))
                .resume(Reply::Failed(ErrorChain::new("full".to_string())));
            assert_eq!(failed.failure.unwrap().in_full(), "writing bridge identity: full");
        }
        other => panic!("{other:?}"),
    }
    match new_identity(key(), false) {
        Identity::New { save, .. } => assert_eq!(save.steps.len(), 2),
        other => panic!("{other:?}"),
    }
}

#[test]
fn generated_identities_differ() {
    let secret = |identity| match identity {
        Identity::New { secret, .. } => secret,
        other => panic!("{other:?}"),
    };
    let one = secret(load_or_create_secret(Ok(None), true));
    let other = secret(load_or_create_secret(Ok(None), true));
    assert_ne!(one, other);
}

#[test]
fn unsaved_identity_is_an_error() {
    let error = ErrorChain::new("full".to_string());
    assert_eq!(new_identity(key(), true).settle(Some(error)).unwrap_err().in_full(), "full");
    assert_eq!(new_identity(key(), true).settle(None).unwrap(), key());
}
