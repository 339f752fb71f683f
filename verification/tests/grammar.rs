use little_oil::error::ErrorKind;
use little_oil::modline::{parse_header, AffixType, ItemMod};
use little_oil::number::Decimal;
use regex::Regex;

const HEADER: &str = r#"\{ (?P<affix_type>\w+) Modifier (?:"(?P<name>.+)" \(Tier: (?P<tier>\d+)\) )?(?:— (?P<affixes>.*) )?\}"#;
const EFFECT: &str = r#"(?P<before>[^\d]*)(?P<value>\d+(?:\.\d+)?)?(?:\((?P<bot_roll>\d+(?:\.\d+)?)-(?P<top_roll>\d+(?:\.\d+)?)\))?(?P<end>.*)"#;

fn decimal(text: &str) -> Decimal {
    let d: rust_decimal::Decimal = text.parse().unwrap();
    Decimal { mantissa: d.mantissa(), scale: d.scale() }
}

fn headers() -> Vec<String> {
    let mut out = Vec::new();
    for affix in ["Prefix", "Suffix", "Implicit", "Unique"] {
        for group in ["", "\"Phantasm's\" (Tier: 3) ", "\"of the Thunderhead\" (Tier: 12) "] {
            for tags in ["", "— Mana ", "— Elemental, Fire, Resistance ", "— A,B ,C ", "—  "] {
                out.push(format!("{{ {affix} Modifier {group}{tags}}}"));
            }
        }
    }
    out
}

#[test]
fn headers_agree_with_the_pattern() {
    let pattern = Regex::new(HEADER).unwrap();
    for top in headers() {
        let caps = pattern.captures(&top).unwrap();
        let decoded = ItemMod::from_strs(&top, "").unwrap();
        let word = caps.name("affix_type").unwrap().as_str();
        let affix = match word {
            "Prefix" => AffixType::Prefix,
            "Suffix" => AffixType::Suffix,
            "Implicit" => AffixType::Implicit,
            _ => AffixType::Unique,
        };
        assert_eq!(decoded.affix_type, affix, "{top}");
        match (caps.name("name"), caps.name("tier")) {
            (Some(name), Some(tier)) => {
                let ant = decoded.affix_name_tier.unwrap();
                assert_eq!(ant.name, name.as_str(), "{top}");
                assert_eq!(ant.tier, tier.as_str().parse::<i32>().unwrap(), "{top}");
            }
            _ => assert!(decoded.affix_name_tier.is_none(), "{top}"),
        }
        let tags: Vec<&str> =
            caps.name("affixes").map(|x| x.as_str().split(", ").collect()).unwrap_or_default();
        assert_eq!(decoded.tags, tags, "{top}");
    }
}

#[test]
fn malformed_headers_agree_with_the_pattern() {
    let pattern = Regex::new(HEADER).unwrap();
    for top in [
        "",
        "{}",
        "{ }",
        "{ Prefix }",
        "{ Prefix Modifier",
        "Prefix Modifier }",
        "{ Prefix  Modifier }",
        "{ Prefix Modifier  }",
        "{ Prefix Modifier —}",
        "{ Prefix Modifier — }",
        "{ Prefix Modifier \"\" (Tier: 1) }",
        "{ Prefix Modifier \"A\" (Tier: 1)}",
        "{ Prefix Modifier \"A\"(Tier: 1) }",
        "{ Prefix Modifier \"A\" (Tier: x) }",
        "{ Prefix Modifier — A",
    ] {
        assert!(pattern.captures(top).is_none(), "{top}");
        let r = ItemMod::from_strs(top, "");
        assert!(r.is_err(), "{top}");
        if top != "{ Prefix Modifier \"A\" (Tier: x) }" {
            assert_eq!(r.err(), Some(ErrorKind::StructuralMismatch), "{top}");
            assert!(parse_header(top).is_none(), "{top}");
        }
    }
}

#[test]
fn the_whole_line_is_the_header() {
    // The pattern finds a header anywhere in a line; the decoder wants the line to be
    // one, from its brace to its brace.
    let pattern = Regex::new(HEADER).unwrap();
    for top in ["{ Prefix Modifier — A } ", " { Prefix Modifier — A }", "x{ Unique Modifier }y"] {
        assert!(pattern.is_match(top), "{top}");
        assert_eq!(
            ItemMod::from_strs(top, "").err(),
            Some(ErrorKind::StructuralMismatch),
            "{top}"
        );
        assert!(ItemMod::from_strs(top.trim_matches(|c| c != '{' && c != '}'), "").is_ok());
    }
}

#[test]
fn effects_agree_with_the_pattern() {
    let pattern = Regex::new(EFFECT).unwrap();
    let mut lines: Vec<String> = vec![
        "73(68-79)% increased Evasion Rating".into(),
        "+49(40-50)% to Fire Resistance".into(),
        "60% increased Mana Regeneration Rate".into(),
        "+29(24-29)% to Lightning Resistance (fractured)".into(),
        "Adds 12(10-14) to 24(20-28) Fire Damage".into(),
        "Cannot be Frozen".into(),
        "".into(),
        "(1-2)".into(),
        "1.5(1.25-2.75) per second".into(),
        "1.(1-2)".into(),
        "1.5.7(1-2)".into(),
        "3(1-2".into(),
        "3(1-2.)".into(),
        "3(1.-2)".into(),
        "3(-2)".into(),
        "3()".into(),
        "3((1-2))".into(),
        "3 (1-2)".into(),
        "a.5(1-2)".into(),
        "..7".into(),
        "10(5-15)(20-30)".into(),
    ];
    for a in ["", "x", "7", "7.5", "."] {
        for b in ["", "(", "(1", "(1-", "(1-2", "(1-2)", "(1.0-2.00)"] {
            for c in ["", "%", "9", ")"] {
                lines.push(format!("{a}{b}{c}"));
            }
        }
    }
    for bottom in lines {
        let caps = pattern.captures(&bottom).unwrap();
        let decoded = ItemMod::from_strs("{ Unique Modifier }", &bottom).unwrap();
        assert_eq!(decoded.value, caps.name("value").map(|m| decimal(m.as_str())), "{bottom}");
        let range = match (caps.name("bot_roll"), caps.name("top_roll")) {
            (Some(bot), Some(top)) => Some(decimal(bot.as_str())..decimal(top.as_str())),
            _ => None,
        };
        assert_eq!(decoded.roll_range, range, "{bottom}");
    }
}
