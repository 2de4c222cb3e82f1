use std::cell::Cell;

use machine_uid::cache::IdentityCache;
use machine_uid::machine_id::{MachineId, ResolveError};
use machine_uid::unix;
use machine_uid::windows::{self, RegistryLookup, REGISTRY_KEY_PATH, REGISTRY_VALUE_NAME};

const SAMPLE_LINE: &str = "4c4c4544003957108052b4c04f384e32\n";
const SAMPLE_TEXT: &str = "4c4c4544-0039-5710-8052-b4c04f384e32";
const SAMPLE_VALUE: u128 = 0x4c4c4544003957108052b4c04f384e32;

fn is_canonical(s: &str) -> bool {
    let b = s.as_bytes();
    b.len() == 36
        && b.iter().enumerate().all(|(i, c)| match i {
            8 | 13 | 18 | 23 => *c == b'-',
            _ => c.is_ascii_digit() || (b'a'..=b'f').contains(c),
        })
}

fn version_nibble(id: MachineId) -> u128 {
    (id.as_u128() >> 76) & 0xf
}

fn variant_bits(id: MachineId) -> u128 {
    (id.as_u128() >> 62) & 0x3
}

#[test]
fn test_idempotent() {
    let mut cache = IdentityCache::new();
    let fst = MachineId::get(&mut cache, || unix::get_machine_id(Some(SAMPLE_LINE)));
    let snd = MachineId::get(&mut cache, || unix::get_machine_id(Some(SAMPLE_LINE)));

    assert_eq!(fst, snd);
}

#[test]
fn test_can_print() {
    let mut cache = IdentityCache::new();
    let mid = MachineId::get(&mut cache, || unix::get_machine_id(None));

    println!("{}", mid.to_string());
}

#[test]
fn test_get_machine_id_impl() {
    let lookup = RegistryLookup::Value(String::from(SAMPLE_TEXT));
    let first = match windows::get_machine_id_impl(lookup.clone()) {
        Ok(id) => id,
        Err(err) => panic!("test_get_machine_id_impl: First Get Failed: {:?}", err),
    };
    let second = match windows::get_machine_id_impl(lookup) {
        Ok(id) => id,
        Err(err) => panic!("test_get_machine_id_impl: Second Get Failed: {:?}", err),
    };
    println!("test_get_machine_id_impl: [1]{{{:?}}}, [2]{{{:?}}}", first, second);
    assert_eq!(first, second);
}

#[test]
fn test_get_machine_id_impl_fail_path() {
    let path = r#"SOFTWARE\\Microsoft\\Junk"#;
    match windows::get_machine_id_impl(RegistryLookup::KeyUnavailable) {
        Ok(id) => panic!(
            "test_get_machine_id_impl: Should have failed on path[{}]: Got::{:?}",
            path, id
        ),
        Err(err) => {
            println!("test_get_machine_id_impl: First Get [{}] Failed: {:?}", path, err);
            assert_eq!(err, ResolveError::Io);
        }
    }
}

#[test]
fn test_get_machine_id_impl_fail_key() {
    let key = "BahhHumbug";
    match windows::get_machine_id_impl(RegistryLookup::ValueUnavailable { last_error: 2 }) {
        Ok(id) => panic!(
            "test_get_machine_id_impl: Should have failed on key[{}]: Got::{:?}",
            key, id
        ),
        Err(err) => {
            println!("test_get_machine_id_impl: Second Get[{}] Failed: {:?}", key, err);
            assert_eq!(err, ResolveError::Platform { code: 2 });
        }
    }
}

#[test]
fn test_get_machine_id() {
    let lookup = RegistryLookup::Value(String::from(SAMPLE_TEXT));
    if let Some(id) = windows::get_machine_id(lookup) {
        println!("test_get_machine_id: {{{:?}}}", id);
    } else {
        panic!("get_machine_id Failed");
    }
}

#[test]
fn registry_location() {
    assert_eq!(REGISTRY_KEY_PATH, "SOFTWARE\\Microsoft\\Cryptography");
    assert_eq!(REGISTRY_VALUE_NAME, "MachineGuid");
    assert_eq!(unix::MACHINE_ID_PATH, "/etc/machine-id");
}

#[test]
fn queries_in_sequence_agree() {
    let mut cache = IdentityCache::new();
    let a = MachineId::get(&mut cache, || None);
    let b = MachineId::get(&mut cache, || None);
    let c = MachineId::get(&mut cache, || unix::get_machine_id(Some(SAMPLE_LINE)));
    assert_eq!(a, b);
    assert_eq!(a, c);
    assert_eq!(cache.cached(), Some(a));
}

#[test]
fn rendering_is_canonical() {
    let parsed = unix::get_machine_id(Some(SAMPLE_LINE)).unwrap();
    assert!(is_canonical(&parsed.to_string()));
    for _ in 0..8 {
        assert!(is_canonical(&MachineId::generate().to_string()));
    }
    let upper = windows::get_machine_id(RegistryLookup::Value(String::from(
        "FFFFFFFF-FFFF-FFFF-FFFF-FFFFFFFFFFFF",
    )))
    .unwrap();
    assert_eq!(upper.to_string(), "ffffffff-ffff-ffff-ffff-ffffffffffff");
    assert!(is_canonical(&upper.to_string()));
}

#[test]
fn simple_text_round_trips() {
    let id = unix::get_machine_id(Some(SAMPLE_LINE)).unwrap();
    assert_eq!(id.as_u128(), SAMPLE_VALUE);
    assert_eq!(id.to_string(), SAMPLE_TEXT);

    let upper = unix::get_machine_id(Some("0123456789ABCDEF0123456789ABCDEF")).unwrap();
    assert_eq!(upper.as_u128(), 0x0123456789abcdef0123456789abcdef);
    assert_eq!(upper.to_string(), "01234567-89ab-cdef-0123-456789abcdef");

    let nil = unix::get_machine_id(Some("00000000000000000000000000000000\n")).unwrap();
    assert_eq!(nil.as_u128(), 0);
    assert_eq!(nil.to_string(), "00000000-0000-0000-0000-000000000000");
}

#[test]
fn fallback_on_missing_source() {
    assert_eq!(unix::get_machine_id_impl(None), Err(ResolveError::Io));
    assert_eq!(unix::get_machine_id(None), None);
    let mut cache = IdentityCache::new();
    let id = MachineId::get(&mut cache, || unix::get_machine_id(None));
    assert_ne!(id.as_u128(), 0);
    assert_eq!(version_nibble(id), 4);
    assert_eq!(variant_bits(id), 2);
    assert!(is_canonical(&id.to_string()));
}

#[test]
fn fallback_on_malformed_source() {
    let short = "4c4c4544003957108052b4c04f384e3\n";
    assert_eq!(unix::get_machine_id_impl(Some(short)), Err(ResolveError::Parse));
    let non_hex = "4c4c4544003957108052b4c04f384e3g\n";
    assert_eq!(unix::get_machine_id_impl(Some(non_hex)), Err(ResolveError::Parse));
    assert_eq!(unix::get_machine_id_impl(Some("")), Err(ResolveError::Parse));
    let hyphenated_line = "4c4c4544-0039-5710-8052-b4c04f384e32\n";
    assert_eq!(unix::get_machine_id_impl(Some(hyphenated_line)), Err(ResolveError::Parse));
    let wide = "éééééééééééééééééééééééééééééééééééééééé";
    assert_eq!(unix::get_machine_id_impl(Some(wide)), Err(ResolveError::Parse));
    assert_eq!(unix::get_machine_id(Some(non_hex)), None);

    let mut cache = IdentityCache::new();
    let id = MachineId::get(&mut cache, || unix::get_machine_id(Some(short)));
    assert_ne!(id.as_u128(), 0);
    assert_eq!(version_nibble(id), 4);
    assert!(is_canonical(&id.to_string()));
}

#[test]
fn only_the_first_32_characters_count() {
    let exact = unix::get_machine_id(Some("4c4c4544003957108052b4c04f384e32")).unwrap();
    let longer = unix::get_machine_id(Some("4c4c4544003957108052b4c04f384e32 trailing text\n"))
        .unwrap();
    assert_eq!(exact.as_u128(), SAMPLE_VALUE);
    assert_eq!(longer, exact);
}

#[test]
fn stable_source_yields_stable_value() {
    let first = unix::get_machine_id(Some(SAMPLE_LINE));
    let second = unix::get_machine_id(Some(SAMPLE_LINE));
    assert!(first.is_some());
    assert_eq!(first, second);

    let mut run_one = IdentityCache::new();
    let mut run_two = IdentityCache::new();
    let a = MachineId::get(&mut run_one, || unix::get_machine_id(Some(SAMPLE_LINE)));
    let b = MachineId::get(&mut run_two, || unix::get_machine_id(Some(SAMPLE_LINE)));
    assert_eq!(a, b);
    assert_eq!(a.as_u128(), SAMPLE_VALUE);
}

#[test]
fn resolution_runs_once_for_many_callers() {
    let calls = Cell::new(0u32);
    let mut cache = IdentityCache::new();
    let mut seen = Vec::new();
    for _ in 0..16 {
        let id = MachineId::get(&mut cache, || {
            calls.set(calls.get() + 1);
            unix::get_machine_id(Some(SAMPLE_LINE))
        });
        seen.push(id);
    }
    assert_eq!(calls.get(), 1);
    assert!(seen.iter().all(|id| *id == seen[0]));
    assert_eq!(seen[0].as_u128(), SAMPLE_VALUE);
}

#[test]
fn filled_cache_keeps_its_identifier() {
    let mut cache = IdentityCache::new();
    assert_eq!(cache.cached(), None);
    let found = unix::get_machine_id(Some(SAMPLE_LINE));
    let first = cache.settle(found);
    assert_eq!(first.as_u128(), SAMPLE_VALUE);
    let other = unix::get_machine_id(Some("ffffffffffffffffffffffffffffffff"));
    assert_eq!(cache.settle(other), first);
    assert_eq!(cache.settle(None), first);
    assert_eq!(cache.cached(), Some(first));
}

#[test]
fn random_fallbacks_differ() {
    let a = MachineId::generate();
    let b = MachineId::generate();
    assert_ne!(a, b);
    assert_eq!(version_nibble(a), 4);
    assert_eq!(variant_bits(b), 2);
}

#[test]
fn registry_errors() {
    assert_eq!(windows::get_machine_id_impl(RegistryLookup::KeyUnavailable), Err(ResolveError::Io));
    assert_eq!(
        windows::get_machine_id_impl(RegistryLookup::ValueUnavailable { last_error: 0 }),
        Err(ResolveError::Io)
    );
    assert_eq!(
        windows::get_machine_id_impl(RegistryLookup::ValueUnavailable { last_error: 1018 }),
        Err(ResolveError::Platform { code: 1018 })
    );
    assert_eq!(
        windows::get_machine_id_impl(RegistryLookup::Value(String::from("not an identifier"))),
        Err(ResolveError::Parse)
    );
    assert_eq!(windows::get_machine_id(RegistryLookup::KeyUnavailable), None);
}

#[test]
fn registry_value_forms() {
    let forms = [
        SAMPLE_TEXT,
        "4C4C4544-0039-5710-8052-B4C04F384E32",
        "{4c4c4544-0039-5710-8052-b4c04f384e32}",
        "urn:uuid:4c4c4544-0039-5710-8052-b4c04f384e32",
        "URN:UUID:4c4c4544-0039-5710-8052-b4c04f384e32",
        "4c4c4544003957108052b4c04f384e32",
    ];
    for form in forms {
        let id = windows::get_machine_id(RegistryLookup::Value(String::from(form))).unwrap();
        assert_eq!(id.as_u128(), SAMPLE_VALUE);
        assert_eq!(id.to_string(), SAMPLE_TEXT);
    }
    let bad = [
        "4c4c4544_0039-5710-8052-b4c04f384e32",
        "(4c4c4544-0039-5710-8052-b4c04f384e32)",
        "urn:uuix:4c4c4544-0039-5710-8052-b4c04f384e32",
        "4c4c4544-0039-5710-8052-b4c04f384e3",
        "4c4c45440-039-5710-8052-b4c04f384e32",
    ];
    for form in bad {
        assert_eq!(
            windows::get_machine_id_impl(RegistryLookup::Value(String::from(form))),
            Err(ResolveError::Parse)
        );
    }
}
