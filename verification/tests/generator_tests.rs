use barepass::generator::{
    append_sampled, rejection_sample_index, CharacterSet, PasswordGenerator, DEFAULT_PASSWORD_LENGTH,
    MAX_PASSWORD_LENGTH, MIN_PASSWORD_LENGTH,
};

#[test]
fn generated_password_uses_the_requested_length_and_enabled_alphabet() {
    let mut generator = PasswordGenerator::new();

    generator.regenerate().unwrap();

    let alphabet = generator.alphabet();

    assert_eq!(generator.password().len(), DEFAULT_PASSWORD_LENGTH);
    assert!(
        generator
            .password()
            .bytes()
            .all(|byte| alphabet.contains(&byte))
    );
}

#[test]
fn generator_refuses_to_disable_the_last_character_set() {
    let mut generator = PasswordGenerator::new();

    generator.toggle(CharacterSet::Lowercase).unwrap();
    generator.toggle(CharacterSet::Uppercase).unwrap();
    generator.toggle(CharacterSet::Digits).unwrap();

    assert!(generator.symbols_enabled());
    assert!(generator.toggle(CharacterSet::Symbols).is_err());
    assert!(generator.symbols_enabled());
}

#[test]
fn rejection_sampling_is_uniform_for_representative_alphabet_sizes() {
    for alphabet_len in [10, 26, 62, 87] {
        let mut counts = vec![0_usize; alphabet_len];

        for value in 0_u16..=255 {
            if let Some(index) = rejection_sample_index(value as u8, alphabet_len) {
                counts[index] += 1;
            }
        }

        assert!(
            counts.windows(2).all(|pair| pair[0] == pair[1]),
            "alphabet length {alphabet_len} produced uneven buckets: {counts:?}"
        );
    }
}

#[test]
fn default_alphabet_has_all_four_sets() {
    let generator = PasswordGenerator::new();
    assert_eq!(generator.alphabet_len(), 87);
    assert_eq!(generator.alphabet().len(), generator.alphabet_len());
    assert_eq!(generator.enabled_set_count(), 4);
    assert_eq!(generator.length(), DEFAULT_PASSWORD_LENGTH);
    assert!(generator.password().is_empty());
}

#[test]
fn only_digits_gives_ten_symbols_in_order() {
    let mut generator = PasswordGenerator::new();
    generator.toggle(CharacterSet::Lowercase).unwrap();
    generator.toggle(CharacterSet::Uppercase).unwrap();
    generator.toggle(CharacterSet::Symbols).unwrap();
    assert_eq!(generator.alphabet(), b"0123456789".to_vec());
    generator.regenerate().unwrap();
    assert!(generator.password().bytes().all(|b| b.is_ascii_digit()));
}

#[test]
fn length_stays_within_bounds() {
    let mut generator = PasswordGenerator::new();
    while generator.increase_length() {}
    assert_eq!(generator.length(), MAX_PASSWORD_LENGTH);
    while generator.decrease_length() {}
    assert_eq!(generator.length(), MIN_PASSWORD_LENGTH);
    generator.regenerate().unwrap();
    assert_eq!(generator.password().len(), MIN_PASSWORD_LENGTH);
}

#[test]
fn rejection_sampling_rejects_the_top_of_the_byte_range() {
    assert_eq!(rejection_sample_index(0, 10), Some(0));
    assert_eq!(rejection_sample_index(249, 10), Some(9));
    assert_eq!(rejection_sample_index(250, 10), None);
    assert_eq!(rejection_sample_index(255, 1), Some(0));
    assert_eq!(rejection_sample_index(7, 0), None);
}

#[test]
fn clearing_the_password_empties_it() {
    let mut generator = PasswordGenerator::new();
    generator.regenerate().unwrap();
    generator.clear_password();
    assert!(generator.password().is_empty());
}

#[test]
fn set_getters_follow_toggles() {
    let mut generator = PasswordGenerator::new();
    assert!(generator.lowercase_enabled() && generator.uppercase_enabled() && generator.digits_enabled());
    generator.toggle(CharacterSet::Uppercase).unwrap();
    assert!(!generator.uppercase_enabled());
    assert_eq!(generator.alphabet_len(), 61);
    generator.toggle(CharacterSet::Uppercase).unwrap();
    assert!(generator.uppercase_enabled());
}

#[test]
fn append_sampled_maps_accepted_bytes_in_order_and_skips_rejected_ones() {
    // Three characters: bytes from 255 on are rejected, the rest select byte % 3.
    let alphabet: Vec<u8> = b"xyz".to_vec();
    let mut random = [0_u8; 64];
    random[0] = 4; // y
    random[1] = 255; // rejected
    random[2] = 2; // z
    random[3] = 9; // x
    let mut password = String::from("ab");
    append_sampled(&mut password, &alphabet, &random, 6);
    assert_eq!(password, "abyzxx");

    let mut all = String::new();
    append_sampled(&mut all, &alphabet, &random, 200);
    assert_eq!(all.len(), 63);
    assert!(all.starts_with("yzxxxx"));

    let mut full = String::from("abc");
    append_sampled(&mut full, &alphabet, &random, 3);
    assert_eq!(full, "abc");
}

#[test]
fn generated_characters_are_not_all_the_same() {
    let mut generator = PasswordGenerator::new();
    while generator.length() < MAX_PASSWORD_LENGTH {
        generator.increase_length();
    }
    generator.regenerate().unwrap();
    let first = generator.password().chars().next().unwrap();
    assert!(generator.password().chars().any(|c| c != first));
}
