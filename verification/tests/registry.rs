use arch_demo::error::SetupError;
use arch_demo::naming::{create_unique_key_name, unique_key_name};
use arch_demo::pubkey::Pubkey;
use arch_demo::registry::{KeyPair, KeyRecord, KeyRegistry};

fn keypair(seed: u8) -> KeyPair {
    let mut public_key = [0u8; 33];
    public_key[0] = 2 + seed % 2;
    for (i, b) in public_key.iter_mut().enumerate().skip(1) {
        *b = seed.wrapping_add(i as u8);
    }
    KeyPair { secret_key: [seed; 32], public_key }
}

fn record(name: &str, seed: u8) -> KeyRecord {
    KeyRecord { name: name.to_string(), keypair: keypair(seed) }
}

fn registry(names: &[&str]) -> KeyRegistry {
    let mut registry = KeyRegistry::new();
    for (i, name) in names.iter().enumerate() {
        assert!(registry.insert(record(name, i as u8 + 1)));
    }
    registry
}

#[test]
fn identifier_is_the_public_key_without_its_first_byte() {
    let pair = keypair(9);
    let mut expected = [0u8; 32];
    expected.copy_from_slice(&pair.public_key[1..33]);
    assert_eq!(pair.identifier(), Pubkey(expected));
    assert_eq!(pair.identifier(), Pubkey::from_slice(&pair.public_key[1..33]));
}

#[test]
fn zeroed_key_pair_is_all_zeros() {
    let pair = KeyPair::zeroed();
    assert_eq!(pair.secret_key, [0u8; 32]);
    assert_eq!(pair.public_key, [0u8; 33]);
}

#[test]
fn empty_registry_knows_nothing() {
    let registry = KeyRegistry::new();
    assert_eq!(registry.len(), 0);
    assert!(registry.get(0).is_none());
    assert!(!registry.contains_name("graffiti"));
    assert!(!registry.contains_pubkey(&keypair(1).identifier()));
    assert_eq!(registry.pubkey_for("graffiti"), Err(SetupError::NotFound));
    assert_eq!(registry.keypair_for("graffiti"), Err(SetupError::NotFound));
    assert_eq!(registry.name_for(&keypair(1).identifier()), Err(SetupError::NotFound));
    assert_eq!(
        registry.name_for_hex(&keypair(1).identifier().to_hex()),
        Err(SetupError::NotFound)
    );
}

#[test]
fn stored_records_are_found_by_name() {
    let registry = registry(&["graffiti", "graffiti_wall_state"]);
    assert_eq!(registry.len(), 2);
    assert!(registry.contains_name("graffiti"));
    assert!(registry.contains_name("graffiti_wall_state"));
    assert!(!registry.contains_name("graffiti_1"));
    assert!(!registry.contains_name("Graffiti"));
    assert!(!registry.contains_name(""));
    assert_eq!(registry.pubkey_for("graffiti"), Ok(keypair(1).identifier()));
    assert_eq!(registry.pubkey_for("graffiti_wall_state"), Ok(keypair(2).identifier()));
    assert_eq!(registry.keypair_for("graffiti"), Ok(keypair(1)));
    assert_eq!(registry.keypair_for("graffiti_wall_state"), Ok(keypair(2)));
    assert_eq!(registry.get(1), Some(&record("graffiti_wall_state", 2)));
    assert_eq!(registry.get(2), None);
}

#[test]
fn names_never_created_are_not_found() {
    let registry = registry(&["graffiti", "graffiti_1"]);
    for name in ["graffiti_2", "graffit", "graffiti_", "", "wall"] {
        assert_eq!(registry.pubkey_for(name), Err(SetupError::NotFound));
        assert_eq!(registry.keypair_for(name), Err(SetupError::NotFound));
    }
}

#[test]
fn stored_records_are_found_by_identifier() {
    let registry = registry(&["a", "b", "c"]);
    assert!(registry.contains_pubkey(&keypair(2).identifier()));
    assert_eq!(registry.name_for(&keypair(1).identifier()), Ok("a".to_string()));
    assert_eq!(registry.name_for(&keypair(3).identifier()), Ok("c".to_string()));
    assert_eq!(
        registry.name_for_hex(&keypair(2).identifier().to_hex()),
        Ok("b".to_string())
    );
}

#[test]
fn identifiers_of_no_stored_key_are_not_found() {
    let registry = registry(&["a", "b", "c"]);
    let stranger = keypair(200).identifier();
    assert!(!registry.contains_pubkey(&stranger));
    assert_eq!(registry.name_for(&stranger), Err(SetupError::NotFound));
    assert_eq!(registry.name_for(&Pubkey::system_program()), Err(SetupError::NotFound));
    assert_eq!(registry.name_for_hex(&stranger.to_hex()), Err(SetupError::NotFound));
    assert_eq!(registry.name_for_hex(""), Err(SetupError::NotFound));
    assert_eq!(registry.name_for_hex("zz"), Err(SetupError::NotFound));
    let upper = keypair(2).identifier().to_hex().to_uppercase();
    assert_ne!(upper, keypair(2).identifier().to_hex());
    assert_eq!(registry.name_for_hex(&upper), Err(SetupError::NotFound));
}

#[test]
fn the_first_record_of_an_identifier_gives_the_name() {
    let mut registry = KeyRegistry::new();
    assert!(registry.insert(record("first", 5)));
    assert!(registry.insert(record("second", 5)));
    assert_eq!(registry.name_for(&keypair(5).identifier()), Ok("first".to_string()));
    assert_eq!(
        registry.name_for_hex(&keypair(5).identifier().to_hex()),
        Ok("first".to_string())
    );
}

#[test]
fn a_name_is_stored_once() {
    let mut registry = registry(&["graffiti"]);
    assert!(!registry.insert(record("graffiti", 50)));
    assert_eq!(registry.len(), 1);
    assert_eq!(registry.keypair_for("graffiti"), Ok(keypair(1)));
    assert!(registry.insert(record("graffiti_1", 50)));
    assert_eq!(registry.len(), 2);
    assert_eq!(registry.keypair_for("graffiti_1"), Ok(keypair(50)));
    assert_eq!(registry.keypair_for("graffiti"), Ok(keypair(1)));
}

#[test]
fn a_copy_holds_the_same_records() {
    let registry = registry(&["a", "b"]);
    let copy = registry.clone();
    assert_eq!(copy.len(), 2);
    assert_eq!(copy.get(0), registry.get(0));
    assert_eq!(copy.get(1), registry.get(1));
}

#[test]
fn first_name_is_the_base() {
    assert_eq!(create_unique_key_name(&KeyRegistry::new()), "graffiti");
    assert_eq!(create_unique_key_name(&registry(&["graffiti_1", "other"])), "graffiti");
}

#[test]
fn next_name_after_graffiti_and_graffiti_1_is_graffiti_2() {
    let registry = registry(&["graffiti", "graffiti_1"]);
    assert_eq!(create_unique_key_name(&registry), "graffiti_2");
}

#[test]
fn names_are_tried_in_order() {
    assert_eq!(create_unique_key_name(&registry(&["graffiti"])), "graffiti_1");
    assert_eq!(
        create_unique_key_name(&registry(&["graffiti", "graffiti_2", "graffiti_3"])),
        "graffiti_1"
    );
    assert_eq!(
        create_unique_key_name(&registry(&["graffiti_2", "graffiti", "graffiti_1"])),
        "graffiti_3"
    );
    assert_eq!(
        create_unique_key_name(&registry(&["graffiti", "graffiti_01", "graffiti_wall_state"])),
        "graffiti_1"
    );
}

#[test]
fn numbers_are_written_in_decimal() {
    let mut registry = KeyRegistry::new();
    assert!(registry.insert(record("graffiti", 0)));
    for i in 1..=120u32 {
        assert!(registry.insert(record(&format!("graffiti_{}", i), (i % 250) as u8)));
    }
    assert_eq!(create_unique_key_name(&registry), "graffiti_121");
    let name = create_unique_key_name(&registry);
    assert!(!registry.contains_name(&name));
}

#[test]
fn any_base_may_be_used() {
    assert_eq!(unique_key_name(&registry(&["wall", "wall_1"]), "wall"), "wall_2");
    assert_eq!(unique_key_name(&registry(&["wall", "wall_1"]), "door"), "door");
    assert_eq!(unique_key_name(&registry(&["", "_1"]), ""), "_2");
}
