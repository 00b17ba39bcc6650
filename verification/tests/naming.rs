use douglas::naming::{
    derive_system_name, hash_text, normalize, salted, system_name_with, MAX_SYSTEM_NAME_LENGTH,
};

#[test]
fn test_should_stay_within_the_max_system_name_length() {
    let name = "a".repeat(200);

    assert!(derive_system_name(&name).len() <= MAX_SYSTEM_NAME_LENGTH);
}

#[test]
fn test_should_be_deterministic_for_the_same_input() {
    assert_eq!(derive_system_name("traefik"), derive_system_name("traefik"));
}

#[test]
fn test_should_differ_for_different_inputs() {
    assert_ne!(derive_system_name("traefik"), derive_system_name("openbao"));
}

#[test]
fn test_should_be_prefixed_with_doug() {
    assert!(derive_system_name("traefik").starts_with("doug-"));
}

#[test]
fn test_should_lowercase_and_normalize_invalid_characters() {
    let name = derive_system_name("Traefik Web!");

    assert!(name
        .chars()
        .all(|ch| matches!(ch, 'a'..='z' | '0'..='9' | '-' | '_')));
}

#[test]
fn test_should_produce_different_names_for_a_short_prefix_collision() {
    let long_a = format!("{}-a", "x".repeat(30));
    let long_b = format!("{}-b", "x".repeat(30));

    assert_ne!(derive_system_name(&long_a), derive_system_name(&long_b));
}

#[test]
fn test_attempt_zero_should_return_the_original_name() {
    assert_eq!(salted("traefik", 0), "traefik");
}

#[test]
fn test_later_attempts_should_differ_from_the_original_and_each_other() {
    let first = salted("traefik", 1);
    let second = salted("traefik", 2);

    assert_ne!(first, "traefik");
    assert_ne!(second, "traefik");
    assert_ne!(first, second);
}

#[test]
fn test_normalize_keeps_letters_and_digits_and_lowers_capitals() {
    assert_eq!(normalize("Traefik-2"), "traefik-2");
}

#[test]
fn test_a_system_name_is_the_prefix_the_start_of_the_name_and_its_hash() {
    assert_eq!(derive_system_name("traefik"), "doug-traefik-858bd5f5");
    assert_eq!(derive_system_name("Traefik Web!"), "doug-traefik-web--40646bad");
}

#[test]
fn test_salted_names_carry_the_attempt() {
    assert_eq!(salted("traefik", 12), "traefik#12");
}

#[test]
fn test_a_system_name_holds_the_first_bytes_of_the_digest() {
    assert_eq!(hash_text(&vec![0x00, 0x0f, 0xa0, 0xff, 0x11]), "000fa0ff");
    assert_eq!(derive_system_name("abc"), "doug-abc-ba7816bf");
}

#[test]
fn test_only_the_start_of_a_name_goes_into_its_system_name() {
    assert_eq!(system_name_with("My App", "0123abcd"), "doug-my-app-0123abcd");
    assert_eq!(
        system_name_with(&"x".repeat(40), "0123abcd"),
        format!("doug-{}-0123abcd", "x".repeat(18))
    );
    assert_eq!(system_name_with("", "0123abcd"), "doug--0123abcd");
}

#[test]
fn test_a_system_name_has_a_fixed_length() {
    let long = derive_system_name(&"a".repeat(200));

    assert_eq!(long.len(), 32);
    assert!(long.starts_with(&format!("doug-{}-", "a".repeat(18))));
    assert_eq!(derive_system_name("").len(), 14);
    assert_eq!(derive_system_name("traefik").len(), 21);
    assert_eq!(derive_system_name("Über Größe").chars().count(), 24);
}

#[test]
fn test_names_that_differ_only_behind_their_starts_differ_by_their_hashes() {
    let a = derive_system_name("eighteen-letters-x-a");
    let b = derive_system_name("eighteen-letters-x-b");

    assert_eq!(a[..24], b[..24]);
    assert_ne!(a, b);
}
