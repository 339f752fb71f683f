use little_oil::error::ErrorKind;
use little_oil::modline::{AffixType, ItemMod};
use little_oil::number::Decimal;

fn run_item_mod(s: &str) -> Result<ItemMod, ErrorKind> {
    let mut parts = s.trim().lines();
    let x = parts.next().unwrap().trim();
    let y = parts.next().unwrap().trim();
    ItemMod::from_strs(x, y)
}

#[test]
fn mod_test_rare() {
    let modline = r#"
        { Prefix Modifier "Phantasm's" (Tier: 3) — Defences, Evasion }
        73(68-79)% increased Evasion Rating"#;

    let mods = run_item_mod(modline).unwrap();
    assert_eq!(mods.affix_type, AffixType::Prefix);
    assert_eq!(mods.value, Some(73.into()));
    assert_eq!(mods.roll_range, Some(68.into()..79.into()));

    let ant = mods.affix_name_tier.unwrap();
    assert_eq!(ant.name, "Phantasm's");
    assert_eq!(ant.tier, 3);

    assert_eq!(mods.tags, &["Defences", "Evasion"]);
}

#[test]
fn mod_test_unique() {
    let modline = r#"
        { Unique Modifier — Elemental, Fire, Resistance }
        +49(40-50)% to Fire Resistance"#;

    let mods = run_item_mod(modline).unwrap();
    assert_eq!(mods.affix_type, AffixType::Unique);
    assert_eq!(mods.value, Some(49.into()));
    assert_eq!(mods.roll_range, Some(40.into()..50.into()));
    assert!(mods.affix_name_tier.is_none());

    assert_eq!(mods.tags, &["Elemental", "Fire", "Resistance"]);
}

#[test]
fn mod_test_unique_no_roll() {
    let modline = r#"
        { Unique Modifier — Mana }
        60% increased Mana Regeneration Rate"#;

    let mods = run_item_mod(modline).unwrap();
    assert_eq!(mods.affix_type, AffixType::Unique);
    assert_eq!(mods.value, Some(60.into()));
    assert!(mods.roll_range.is_none());
    assert!(mods.affix_name_tier.is_none());
    assert_eq!(mods.tags, &["Mana"]);
}

#[test]
fn item_mods() {
    let texts = [
        r#"
            { Prefix Modifier "Phantasm's" (Tier: 3) — Defences, Evasion }
            79(68-79)% increased Evasion Rating
        "#,
        r#"
            { Unique Modifier — Elemental, Fire, Resistance }
            +49(40-50)% to Fire Resistance
        "#,
        r#"
            { Unique Modifier — Mana }
            60% increased Mana Regeneration Rate
        "#,
        r#"
            { Unique Modifier }
            17(14-20)% increased Quantity of Items found
        "#,
        r#"
            { Unique Modifier — Speed }
            10% increased Movement Speed
        "#,
        r#"
            { Suffix Modifier "of the Thunderhead" (Tier: 5) — Elemental, Lightning, Resistance }
            +29(24-29)% to Lightning Resistance (fractured)
        "#,
    ];
    let values = [79, 49, 60, 17, 10, 29];
    let tag_counts = [2, 3, 1, 0, 1, 3];
    for i in 0..texts.len() {
        let decoded = run_item_mod(texts[i]).unwrap();
        assert_eq!(decoded.value, Some(Decimal::from(values[i])));
        assert_eq!(decoded.tags.len(), tag_counts[i]);
        assert_eq!(decoded.mod_qualifiers, "");
    }
}

#[test]
fn thunderhead_suffix() {
    let decoded = ItemMod::from_strs(
        "{ Suffix Modifier \"of the Thunderhead\" (Tier: 5) — Elemental, Lightning, Resistance }",
        "+29(24-29)% to Lightning Resistance (fractured)",
    )
    .unwrap();
    assert_eq!(decoded.affix_type, AffixType::Suffix);
    let ant = decoded.affix_name_tier.unwrap();
    assert_eq!(ant.name, "of the Thunderhead");
    assert_eq!(ant.tier, 5);
    assert_eq!(decoded.value, Some(Decimal { mantissa: 29, scale: 0 }));
    assert_eq!(
        decoded.roll_range,
        Some(Decimal { mantissa: 24, scale: 0 }..Decimal { mantissa: 29, scale: 0 })
    );
    assert_eq!(decoded.tags, &["Elemental", "Lightning", "Resistance"]);
}

#[test]
fn implicit_modifier() {
    let decoded =
        ItemMod::from_strs("{ Implicit Modifier — Life }", "+32(25-40) to maximum Life").unwrap();
    assert_eq!(decoded.affix_type, AffixType::Implicit);
    assert!(decoded.affix_name_tier.is_none());
    assert_eq!(decoded.value, Some(32.into()));
    assert_eq!(decoded.roll_range, Some(25.into()..40.into()));
}

#[test]
fn unknown_affix_type_is_an_error() {
    let r = ItemMod::from_strs("{ Enchant Modifier — Life }", "+32 to maximum Life");
    assert_eq!(r.err(), Some(ErrorKind::UnknownAffixType));
    let r = ItemMod::from_strs("{ prefix Modifier }", "1");
    assert_eq!(r.err(), Some(ErrorKind::UnknownAffixType));
}

#[test]
fn malformed_headers_are_structural() {
    for top in [
        "",
        "Prefix Modifier }",
        "{ Prefix Modifier",
        "{ Prefix }",
        "{ Prefix Modifier — Life",
        "{ Prefix Modifier — }",
        "{  Modifier }",
        "{ Prefix Modifier \"\" (Tier: 1) }",
        "{ Prefix Modifier \"Open (Tier: 1) }",
        "{ Prefix Modifier (Tier: 1 }",
        "{ Prefix Modifier } trailing",
        "{ Prefix modifier }",
    ] {
        let r = ItemMod::from_strs(top, "10% more");
        assert_eq!(r.err(), Some(ErrorKind::StructuralMismatch), "{top}");
    }
}

#[test]
fn malformed_tier_is_an_error() {
    for tier in ["", "x", "3a", "+3", "-3", " 3", "2147483648", "99999999999999999999"] {
        let top = format!("{{ Prefix Modifier \"Hale\" (Tier: {tier}) — Life }}");
        let r = ItemMod::from_strs(&top, "+10 to maximum Life");
        assert_eq!(r.err(), Some(ErrorKind::MalformedNumber), "{tier}");
    }
    let top = "{ Prefix Modifier \"Hale\" (Tier: 2147483647) — Life }";
    let ant = ItemMod::from_strs(top, "").unwrap().affix_name_tier.unwrap();
    assert_eq!(ant.tier, 2147483647);
    let top = "{ Prefix Modifier \"Hale\" (Tier: 007) }";
    let ant = ItemMod::from_strs(top, "").unwrap().affix_name_tier.unwrap();
    assert_eq!(ant.tier, 7);
}

#[test]
fn name_without_tier_leaves_both_out() {
    let decoded = ItemMod::from_strs("{ Prefix Modifier \"Hale\" — Life }", "+10 to Life").unwrap();
    assert!(decoded.affix_name_tier.is_none());
    assert_eq!(decoded.tags, &["Life"]);
    let decoded = ItemMod::from_strs("{ Prefix Modifier (Tier: 4) — Life }", "+10 to Life").unwrap();
    assert!(decoded.affix_name_tier.is_none());
    assert_eq!(decoded.tags, &["Life"]);
}

#[test]
fn effect_without_number() {
    let decoded = ItemMod::from_strs("{ Unique Modifier }", "Cannot be Frozen").unwrap();
    assert_eq!(decoded.value, None);
    assert!(decoded.roll_range.is_none());
    assert!(decoded.tags.is_empty());
    let decoded = ItemMod::from_strs("{ Unique Modifier }", "").unwrap();
    assert_eq!(decoded.value, None);
}

#[test]
fn value_keeps_its_digits() {
    let decoded = ItemMod::from_strs("{ Unique Modifier }", "1.50(1.20-1.80)% of Life").unwrap();
    assert_eq!(decoded.value, Some(Decimal { mantissa: 150, scale: 2 }));
    assert_eq!(
        decoded.roll_range,
        Some(Decimal { mantissa: 120, scale: 2 }..Decimal { mantissa: 180, scale: 2 })
    );
    let decoded = ItemMod::from_strs("{ Unique Modifier }", "73% more").unwrap();
    assert_eq!(decoded.value, Some(Decimal { mantissa: 73, scale: 0 }));
    assert_ne!(decoded.value, Some(Decimal { mantissa: 730, scale: 1 }));
    let decoded = ItemMod::from_strs("{ Unique Modifier }", "Adds 0.5. more").unwrap();
    assert_eq!(decoded.value, Some(Decimal { mantissa: 5, scale: 1 }));
    let decoded = ItemMod::from_strs("{ Unique Modifier }", "Adds 12. more").unwrap();
    assert_eq!(decoded.value, Some(Decimal { mantissa: 12, scale: 0 }));
    let decoded = ItemMod::from_strs("{ Unique Modifier }", "0007").unwrap();
    assert_eq!(decoded.value, Some(Decimal { mantissa: 7, scale: 0 }));
}

#[test]
fn roll_range_only_behind_the_value() {
    let decoded = ItemMod::from_strs("{ Unique Modifier }", "Adds (10-20) Fire Damage").unwrap();
    assert_eq!(decoded.value, Some(10.into()));
    assert!(decoded.roll_range.is_none());
    let decoded = ItemMod::from_strs("{ Unique Modifier }", "15 (10-20) more").unwrap();
    assert_eq!(decoded.value, Some(15.into()));
    assert!(decoded.roll_range.is_none());
    for bottom in ["15(10-20", "15(10 20)", "15(-20)", "15(10-)", "15(10-x)", "15(1.-2)"] {
        let decoded = ItemMod::from_strs("{ Unique Modifier }", bottom).unwrap();
        assert_eq!(decoded.value, Some(15.into()), "{bottom}");
        assert!(decoded.roll_range.is_none(), "{bottom}");
    }
}

#[test]
fn longest_exact_numbers() {
    // 2^96 - 1 still fits; 2^96 does not.
    let decoded =
        ItemMod::from_strs("{ Unique Modifier }", "79228162514264337593543950335 x").unwrap();
    assert_eq!(
        decoded.value,
        Some(Decimal { mantissa: 79228162514264337593543950335, scale: 0 })
    );
    let r = ItemMod::from_strs("{ Unique Modifier }", "79228162514264337593543950336 x");
    assert_eq!(r.err(), Some(ErrorKind::MalformedNumber));
    let r = ItemMod::from_strs("{ Unique Modifier }", "1(1-79228162514264337593543950336)");
    assert_eq!(r.err(), Some(ErrorKind::MalformedNumber));
    let r = ItemMod::from_strs("{ Unique Modifier }", "1(79228162514264337593543950336-2)");
    assert_eq!(r.err(), Some(ErrorKind::MalformedNumber));
    // Zeros in front do not count.
    let decoded =
        ItemMod::from_strs("{ Unique Modifier }", "000000000000000000000000000000000012.50").unwrap();
    assert_eq!(decoded.value, Some(Decimal { mantissa: 1250, scale: 2 }));
    let decoded =
        ItemMod::from_strs("{ Unique Modifier }", "7.9228162514264337593543950335").unwrap();
    assert_eq!(
        decoded.value,
        Some(Decimal { mantissa: 79228162514264337593543950335, scale: 28 })
    );
    let decoded =
        ItemMod::from_strs("{ Unique Modifier }", "1.0000000000000000000000000000").unwrap();
    assert_eq!(
        decoded.value,
        Some(Decimal { mantissa: 10000000000000000000000000000, scale: 28 })
    );
    // 28 digits behind the point are kept.
    let decoded =
        ItemMod::from_strs("{ Unique Modifier }", "0.0000000000000000000000000001").unwrap();
    assert_eq!(decoded.value, Some(Decimal { mantissa: 1, scale: 28 }));
}

#[test]
fn digits_past_the_28th_are_rounded_away() {
    let decoded =
        ItemMod::from_strs("{ Unique Modifier }", "0.00000000000000000000000000015").unwrap();
    assert_eq!(decoded.value, Some(Decimal { mantissa: 2, scale: 28 }));
    let decoded =
        ItemMod::from_strs("{ Unique Modifier }", "0.12345678901234567890123456784").unwrap();
    assert_eq!(
        decoded.value,
        Some(Decimal { mantissa: 1234567890123456789012345678, scale: 28 })
    );
}

#[test]
fn tags_split_on_comma_space_only() {
    let decoded = ItemMod::from_strs("{ Unique Modifier — A,B,  C , D }", "").unwrap();
    assert_eq!(decoded.tags, &["A,B", " C ", "D"]);
    let decoded = ItemMod::from_strs("{ Unique Modifier —  }", "").unwrap();
    assert_eq!(decoded.tags, &[""]);
    let decoded = ItemMod::from_strs("{ Unique Modifier — A }, B }", "").unwrap();
    assert_eq!(decoded.tags, &["A }", "B"]);
}

#[test]
fn error_order() {
    // The affix type is looked at before the tier, the tier before the value.
    let r = ItemMod::from_strs("{ Bogus Modifier \"N\" (Tier: x) }", "79228162514264337593543950336");
    assert_eq!(r.err(), Some(ErrorKind::UnknownAffixType));
    let r = ItemMod::from_strs("{ Bogus", "79228162514264337593543950336");
    assert_eq!(r.err(), Some(ErrorKind::StructuralMismatch));
}
