use little_oil::error::{ErrorKind, ItemParseSections, ParseError};
use little_oil::item::{Item, ItemName};
use little_oil::modline::AffixType;
use little_oil::number::Decimal;

const AMULET: &str = r#"
Item Class: Amulets
Rarity: Rare
Dread Collar
Onyx Amulet
--------
Requirements:
Level: 52
--------
Item Level: 78
--------
{ Implicit Modifier — Attribute }
+14(10-16) to all Attributes
--------
{ Prefix Modifier "Hale" (Tier: 8) — Life }
+13(10-19) to maximum Life
{ Suffix Modifier "of the Thunderhead" (Tier: 5) — Elemental, Lightning, Resistance }
+29(24-29)% to Lightning Resistance
{ Suffix Modifier "of the Lynx" (Tier: 7) — Attribute }
+18(18-22) to Dexterity
{ Suffix Modifier "of Talent" (Tier: 4) — Caster, Speed }
12(9-12)% increased Cast Speed
"#;

const UNIQUE: &str = r#"
Item Class: Belts
Rarity: Unique
Perandus Blazon
Cloth Belt
--------
Requirements:
Level: 16
--------
Item Level: 71
--------
{ Implicit Modifier }
18(15-25)% increased Stun and Block Recovery
--------
{ Unique Modifier — Attribute }
+27(20-30) to all Attributes
{ Unique Modifier }
7(6-8)% increased Quantity of Items found
{ Unique Modifier — Elemental, Fire, Resistance }
+20% to Fire Resistance
{ Unique Modifier — Flask }
20% increased Flask Effect Duration
{ Unique Modifier — Damage, Physical }
-2 Physical Damage taken from Attack Hits
--------
Some of the flavour text
goes here.
"#;

const MAGIC_HELM: &str = r#"
Item Class: Helmets
Rarity: Magic
Sanguine Hubris Circlet of the Lightning
--------
Energy Shield: 90 (augmented)
--------
Requirements:
Level: 69
Int: 154
--------
Sockets: B-B
--------
Item Level: 84
--------
{ Prefix Modifier "Sanguine" (Tier: 5) — Life }
+55(50-59) to maximum Life
{ Suffix Modifier "of the Lightning" (Tier: 4) — Elemental, Lightning, Resistance }
+30(24-29)% to Lightning Resistance
"#;

#[test]
fn all_item_mod_integration_tests() {
    let item_texts = [(1, 3, AMULET), (0, 0, UNIQUE), (1, 1, MAGIC_HELM)];

    for (num_pre, num_suf, text) in item_texts {
        let text = text.trim();

        let t = Item::from_str(text).unwrap();
        let (np, ns) = t.num_mods();
        assert_eq!(num_pre, np);
        assert_eq!(num_suf, ns);
    }
}

#[test]
fn rare_amulet_fields() {
    let item = Item::from_str(AMULET).unwrap();
    assert_eq!(item.base_name, "Onyx Amulet");
    assert!(matches!(&item.item_name, ItemName::Rare(n) if n == "Dread Collar\nOnyx Amulet"));
    assert_eq!(item.ilvl, 78);
    assert_eq!(item.sockets, "");
    assert_eq!(item.stats.len(), 1);
    assert_eq!(item.stats[0].stat_name, "Level");
    assert_eq!(item.stats[0].stat_value, Decimal::from(52));
    assert_eq!(item.mods.len(), 5);
    let kinds: Vec<AffixType> = item.mods.iter().map(|m| m.affix_type).collect();
    assert_eq!(
        kinds,
        vec![
            AffixType::Implicit,
            AffixType::Prefix,
            AffixType::Suffix,
            AffixType::Suffix,
            AffixType::Suffix
        ]
    );
    let values: Vec<Option<Decimal>> = item.mods.iter().map(|m| m.value).collect();
    assert_eq!(
        values,
        vec![Some(14.into()), Some(13.into()), Some(29.into()), Some(18.into()), Some(12.into())]
    );
    assert_eq!(item.item_name.to_string(), "R: Dread Collar\nOnyx Amulet");
}

#[test]
fn unique_belt_fields() {
    let item = Item::from_str(UNIQUE).unwrap();
    assert_eq!(item.base_name, "Cloth Belt");
    assert!(matches!(&item.item_name, ItemName::Unique(n) if n == "Perandus Blazon\nCloth Belt"));
    assert_eq!(item.ilvl, 71);
    assert_eq!(item.mods.len(), 6);
    assert_eq!(item.mods[5].value, Some(2.into()));
    assert_eq!(item.mods[3].roll_range, None);
}

#[test]
fn magic_helm_fields() {
    let item = Item::from_str(MAGIC_HELM).unwrap();
    assert_eq!(item.base_name, "Hubris Circlet");
    match &item.item_name {
        ItemName::Magic { prefix, suffix } => {
            assert_eq!(prefix, "Sanguine");
            assert_eq!(suffix, "of the Lightning");
        }
        other => panic!("{other:?}"),
    }
    assert_eq!(item.item_name.to_string(), "M(p+s): Sanguine : of the Lightning");
    assert_eq!(item.ilvl, 84);
    assert_eq!(item.sockets, "B-B");
    let stats: Vec<(&str, Decimal)> =
        item.stats.iter().map(|s| (s.stat_name.as_str(), s.stat_value)).collect();
    assert_eq!(
        stats,
        vec![("Energy Shield", 90.into()), ("Level", 69.into()), ("Int", 154.into())]
    );
}

#[test]
fn mods_come_in_source_order() {
    let mut text = String::from("Item Class: Rings\nRarity: Rare\nX\nRing\n--------\nItem Level: 1\n--------\n");
    for i in 0..7 {
        text.push_str(&format!("{{ Prefix Modifier \"P{i}\" (Tier: {i}) }}\n{i}(0-9) more\n"));
    }
    let item = Item::from_str(&text).unwrap();
    assert_eq!(item.mods.len(), 7);
    for i in 0..7 {
        assert_eq!(item.mods[i].value, Some(Decimal::from(i as i32)));
        assert_eq!(item.mods[i].affix_name_tier.as_ref().unwrap().tier, i as i32);
    }
    assert_eq!(item.num_mods(), (7, 0));
}

#[test]
fn inner_rule_stays_in_stats() {
    let text = "Item Class: Body Armours\nRarity: Normal\nPlate Vest\n--------\nArmour: 45\n--------\nRequirements:\nStr: 12\n--------\nSockets: R-R \n--------\nItem Level: 3\n--------\n{ Implicit Modifier }\n3% reduced Movement Speed";
    let item = Item::from_str(text).unwrap();
    assert_eq!(item.stats.len(), 2);
    assert_eq!(item.stats[0].stat_name, "Armour");
    assert_eq!(item.stats[0].stat_value, Decimal::from(45));
    assert_eq!(item.stats[1].stat_name, "Str");
    assert_eq!(item.sockets, "R-R");
    assert_eq!(item.ilvl, 3);
    assert_eq!(item.mods.len(), 1);
    assert!(matches!(item.item_name, ItemName::Normal));
    assert_eq!(item.base_name, "Plate Vest");
    assert_eq!(item.item_name.to_string(), "N");
}

#[test]
fn item_without_mods() {
    let text = "Item Class: Body Armours\nRarity: Normal\nPlate Vest\n--------\nArmour: 45\n--------\nItem Level: 3";
    let item = Item::from_str(text).unwrap();
    assert!(item.mods.is_empty());
    assert_eq!(item.ilvl, 3);
    assert_eq!(item.num_mods(), (0, 0));
    // The rule that closes the name opens the stats, which may hold nothing.
    let text = "Item Class: Body Armours\nRarity: Normal\nPlate Vest\n--------";
    let item = Item::from_str(text).unwrap();
    assert!(item.stats.is_empty());
    assert_eq!(item.ilvl, 1);
    // A rule at the very end of the stats announces modifiers that are not there.
    let text = "Item Class: Body Armours\nRarity: Normal\nPlate Vest\n--------\nArmour: 45\n--------";
    let e = Item::from_str(text).unwrap_err();
    assert_eq!(
        e,
        ParseError {
            kind: ErrorKind::EmptyOrMissingSection,
            section: ItemParseSections::ItemMods,
            line: 6
        }
    );
}

#[test]
fn missing_effect_line_is_an_error() {
    let text = "Item Class: Rings\nRarity: Rare\nX\nRing\n--------\nItem Level: 1\n--------\n{ Prefix Modifier \"A\" (Tier: 1) }\n+1 to Life\n{ Suffix Modifier \"of B\" (Tier: 1) }";
    let e = Item::from_str(text).unwrap_err();
    assert_eq!(
        e,
        ParseError {
            kind: ErrorKind::TruncatedModBlock,
            section: ItemParseSections::ItemMods,
            line: 9
        }
    );
}

#[test]
fn unknown_affix_fails_the_item() {
    let text = "Item Class: Rings\nRarity: Rare\nX\nRing\n--------\nItem Level: 1\n--------\n{ Prefix Modifier \"A\" (Tier: 1) }\n+1 to Life\n{ Crafted Modifier }\n+2 to Life";
    let e = Item::from_str(text).unwrap_err();
    assert_eq!(
        e,
        ParseError {
            kind: ErrorKind::UnknownAffixType,
            section: ItemParseSections::ItemMods,
            line: 9
        }
    );
}

#[test]
fn section_errors() {
    let cases: [(&str, ErrorKind, ItemParseSections, usize); 9] = [
        ("", ErrorKind::EmptyOrMissingSection, ItemParseSections::ItemClass, 1),
        ("   \n  ", ErrorKind::EmptyOrMissingSection, ItemParseSections::ItemClass, 1),
        ("Rarity: Rare", ErrorKind::StructuralMismatch, ItemParseSections::ItemClass, 0),
        ("Item Class:", ErrorKind::StructuralMismatch, ItemParseSections::ItemClass, 0),
        ("Item Class: Rings", ErrorKind::EmptyOrMissingSection, ItemParseSections::ItemRarity, 1),
        ("Item Class: Rings\nItem Class: Rings", ErrorKind::StructuralMismatch, ItemParseSections::ItemRarity, 1),
        ("Item Class: Rings\nRarity: Rare\nX\nRing", ErrorKind::EmptyOrMissingSection, ItemParseSections::ItemName, 4),
        ("Item Class: Rings\nRarity: Rare\nX\n--------\nItem Level: 256", ErrorKind::MalformedNumber, ItemParseSections::ItemStats, 4),
        ("Item Class: Rings\nRarity: Rare\nX\n--------\nA: 1\nB: 79228162514264337593543950336\nItem Level: x", ErrorKind::MalformedNumber, ItemParseSections::ItemStats, 5),
    ];
    for (text, kind, section, line) in cases {
        assert_eq!(Item::from_str(text).unwrap_err(), ParseError { kind, section, line }, "{text:?}");
    }
}

#[test]
fn names_by_rarity() {
    let body = "\n--------\nItem Level: 1";
    let item = Item::from_str(&format!("Item Class: Gems\nRarity: Gem\nFireball{body}")).unwrap();
    assert!(matches!(&item.item_name, ItemName::Other(n) if n == "Fireball"));
    assert_eq!(item.base_name, "Fireball");
    assert_eq!(item.item_name.to_string(), "?: Fireball");
    let item = Item::from_str(&format!("Item Class: Rings\nRarity: Magic\nIron Ring of Life{body}")).unwrap();
    match &item.item_name {
        ItemName::Magic { prefix, suffix } => {
            assert_eq!(prefix, "");
            assert_eq!(suffix, "");
        }
        other => panic!("{other:?}"),
    }
    assert_eq!(item.base_name, "Iron Ring of Life");
    let item = Item::from_str(&format!("Item Class: Rings\nRarity: Unique\nKaom's Sign\nCoral Ring{body}")).unwrap();
    assert_eq!(item.item_name.to_string(), "U: Kaom's Sign\nCoral Ring");
    assert_eq!(item.base_name, "Coral Ring");
    let item = Item::from_str("Item Class: Rings\nRarity: Rare\n--------").unwrap();
    assert!(matches!(&item.item_name, ItemName::Rare(n) if n.is_empty()));
    assert_eq!(item.base_name, "");
}

#[test]
fn magic_names_with_one_affix() {
    let head = "Item Class: Rings\nRarity: Magic\n";
    let text = format!("{head}Iron Ring of the Lynx\n--------\nItem Level: 4\n--------\n{{ Suffix Modifier \"of the Lynx\" (Tier: 7) — Attribute }}\n+18(18-22) to Dexterity");
    let item = Item::from_str(&text).unwrap();
    assert_eq!(item.base_name, "Iron Ring");
    assert_eq!(item.item_name.to_string(), "M(s): of the Lynx");
    let text = format!("{head}Hale Iron Ring\n--------\nItem Level: 4\n--------\n{{ Prefix Modifier \"Hale\" (Tier: 8) — Life }}\n+13(10-19) to maximum Life");
    let item = Item::from_str(&text).unwrap();
    assert_eq!(item.base_name, "Iron Ring");
    assert_eq!(item.item_name.to_string(), "M(p): Hale");
    // A name that the block does not begin with is no prefix of it.
    let text = format!("{head}Iron Ring\n--------\nItem Level: 4\n--------\n{{ Prefix Modifier \"Hale\" (Tier: 8) — Life }}\n+13(10-19) to maximum Life");
    let item = Item::from_str(&text).unwrap();
    assert_eq!(item.base_name, "Iron Ring");
    assert_eq!(item.item_name.to_string(), "M(s): ");
}

#[test]
fn lines_are_trimmed_and_windows_line_ends_accepted() {
    let text = "\r\n  Item Class: Rings\r\n\tRarity: Rare \r\n X \r\nRing\r\n--------\r\nItem Level: 77\r\n--------  \r\n  { Prefix Modifier \"A\" (Tier: 1) }\r\n +1 to Life\r\n\r\n";
    let item = Item::from_str(text).unwrap();
    assert_eq!(item.ilvl, 77);
    assert_eq!(item.base_name, "Ring");
    assert_eq!(item.mods.len(), 1);
    assert!(matches!(&item.item_name, ItemName::Rare(n) if n == "X\nRing"));
}

#[test]
fn default_level_and_sockets() {
    let item = Item::from_str("Item Class: Rings\nRarity: Rare\nX\nRing\n--------\nQuality: +20% (augmented)").unwrap();
    assert_eq!(item.ilvl, 1);
    assert_eq!(item.sockets, "");
    assert_eq!(item.stats.len(), 1);
    assert_eq!(item.stats[0].stat_name, "Quality");
    assert_eq!(item.stats[0].stat_value, Decimal::from(20));
}
