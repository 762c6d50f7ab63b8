use margins_grip::artifacts::{is_tag_char, ArtifactKind};
use margins_grip::text::text_eq;
use margins_grip::{generate_permutation_table, permutation_table_to_u32, validate_tag, NoiseLayer};

#[test]
fn permutation_table_holds_every_byte_once() {
    for seed in [0u32, 1, 42, 0xBEEF, u32::MAX] {
        let table = generate_permutation_table(seed);
        let mut seen = [false; 256];
        for &v in table.iter() {
            assert!(!seen[v as usize]);
            seen[v as usize] = true;
        }
        assert!(seen.iter().all(|s| *s));
    }
}

#[test]
fn permutation_table_is_shuffled_and_seeded() {
    let identity: Vec<u8> = (0..=255u8).collect();
    let a = generate_permutation_table(42);
    let b = generate_permutation_table(42);
    let c = generate_permutation_table(43);
    assert_eq!(a, b);
    assert_ne!(a.to_vec(), identity);
    assert_ne!(a, c);
}

#[test]
fn widened_table_keeps_values() {
    let table = generate_permutation_table(7);
    let wide = permutation_table_to_u32(&table);
    for i in 0..256 {
        assert_eq!(wide[i], table[i] as u32);
    }
}

#[test]
fn tags_are_checked() {
    assert!(validate_tag("v1").is_ok());
    assert!(validate_tag("seed-42_final").is_ok());
    let empty = validate_tag("").unwrap_err();
    assert_eq!(empty.tag, "");
    assert_eq!(empty.reason, "tag must not be empty");
    let bad = validate_tag("../etc").unwrap_err();
    assert_eq!(bad.tag, "../etc");
    assert_eq!(bad.reason, "only alphanumeric, hyphens, underscores");
    assert!(validate_tag("a b").is_err());
    assert!(validate_tag("é").is_err());
    assert!(is_tag_char('Z'));
    assert!(!is_tag_char('.'));
}

#[test]
fn artifact_kinds_name_their_directories() {
    assert_eq!(ArtifactKind::Layers.dir_name(), "layers");
    assert_eq!(ArtifactKind::Levels.dir_name(), "levels");
    assert_eq!(ArtifactKind::Levels.display_name(), "levels");
}

#[test]
fn layer_names_round_trip() {
    let all = NoiseLayer::all();
    assert_eq!(all.len(), 18);
    assert!(!all.contains(&NoiseLayer::WindSpeed));
    assert!(!all.contains(&NoiseLayer::Volcanism));
    for layer in all.iter() {
        assert_eq!(NoiseLayer::from_name(layer.name()), Some(*layer));
    }
    assert_eq!(NoiseLayer::Heightmap.name(), "Heightmap");
    assert_eq!(NoiseLayer::from_name("heightmap"), None);
    assert_eq!(NoiseLayer::from_name("wind_speed"), None);
    assert_eq!(NoiseLayer::Volcanism.name(), "volcanism");
}

#[test]
fn texts_compare_by_characters() {
    assert!(text_eq("abc", "abc"));
    assert!(!text_eq("abc", "abd"));
    assert!(!text_eq("ab", "abc"));
    assert!(text_eq("", ""));
}
