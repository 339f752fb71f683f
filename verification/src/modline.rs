//! The decoder of one modifier: a header line in braces and the effect line below it.
//!
//! A header reads
//! `{ <AffixType> Modifier ["<Name>" ][(Tier: <N>) ][— <tag>, <tag>, ... ]}`.
//! An effect line is free text; its first number is the value, and a `(low-high)` that
//! follows the value at once is the roll range.

use core::ops::Range;
use vstd::prelude::*;
use vstd::string::*;

use crate::error::ErrorKind;
use crate::number::{
    bounded_number, decimal_text, is_digit, is_digit_char, is_number_token, number_end,
    parse_bounded, read_decimal, reading_of, scan_number, Decimal,
};
use crate::text::{
    chars_of, find, first_occurrence, has_at, join_with, lemma_first_occurrence, occurs_at,
    same_text, slices_of, split, split_on, texts_of,
};

verus! {

/// The kind of a modifier.
#[non_exhaustive]
#[derive(Clone, Copy, Debug, PartialEq, Eq, Structural)]
pub enum AffixType {
    Prefix,
    Suffix,
    Implicit,
    Unique,
}

/// The name of an affix and its tier.
#[derive(Debug, PartialEq, Eq)]
pub struct AffixNameTier {
    pub name: String,
    pub tier: i32,
}

/// One modifier of an item.
#[derive(Debug)]
pub struct ItemMod {
    /// Prefix, suffix, implicit or unique.
    pub affix_type: AffixType,
    /// The affix's name and tier, where the header gives both.
    pub affix_name_tier: Option<AffixNameTier>,
    /// The first number of the effect line.
    pub value: Option<Decimal>,
    /// The bounds between which the value was rolled.
    pub roll_range: Option<Range<Decimal>>,
    /// The tags of the header, in their order.
    pub tags: Vec<String>,
    /// Notes behind the effect, such as "(fractured)"; nothing is taken out yet.
    pub mod_qualifiers: String,
}

/// What a modifier holds, as plain values.
pub struct ModView {
    pub affix_type: AffixType,
    pub name_tier: Option<(Seq<char>, int)>,
    pub value: Option<Decimal>,
    pub roll_range: Option<(Decimal, Decimal)>,
    pub tags: Seq<Seq<char>>,
    pub qualifiers: Seq<char>,
}

impl View for ItemMod {
    type V = ModView;

    open spec fn view(&self) -> ModView {
        ModView {
            affix_type: self.affix_type,
            name_tier: match self.affix_name_tier {
                Some(nt) => Some((nt.name@, nt.tier as int)),
                None => None,
            },
            value: self.value,
            roll_range: match self.roll_range {
                Some(r) => Some((r.start, r.end)),
                None => None,
            },
            tags: texts_of(self.tags@),
            qualifiers: self.mod_qualifiers@,
        }
    }
}

/// The pieces of a header line, as they stand in it.
pub struct HeaderParts {
    /// The word before `Modifier`.
    pub word: Seq<char>,
    /// The text between the quotes.
    pub name: Option<Seq<char>>,
    /// The text between `(Tier: ` and `)`.
    pub tier: Option<Seq<char>>,
    /// The text between the dash and the closing brace.
    pub tags: Option<Seq<char>>,
}

/// The pieces of a header line, cut out of it.
pub struct Header {
    pub word: String,
    pub name: Option<String>,
    pub tier: Option<String>,
    pub tags: Option<String>,
}

/// The text of a string that may be missing.
pub open spec fn opt_text(s: Option<String>) -> Option<Seq<char>> {
    match s {
        Some(t) => Some(t@),
        None => None,
    }
}

impl View for Header {
    type V = HeaderParts;

    open spec fn view(&self) -> HeaderParts {
        HeaderParts {
            word: self.word@,
            name: opt_text(self.name),
            tier: opt_text(self.tier),
            tags: opt_text(self.tags),
        }
    }
}

/// A step through a header: nothing where the line is malformed there, else what the step
/// took, if the optional piece is there, and where the next step begins.
pub type Cut = Option<(Option<Seq<char>>, int)>;

/// The quoted name at `p`, if a quote opens there: not empty, closed by the next quote, a
/// space behind it.
pub open spec fn name_step(line: Seq<char>, p: int) -> Cut {
    if !occurs_at(line, p, "\""@) {
        Some((None, p))
    } else {
        match first_occurrence(line, "\""@, p + 1) {
            Some(q) => if q > p + 1 && occurs_at(line, q + 1, " "@) {
                Some((Some(line.subrange(p + 1, q)), q + 2))
            } else {
                None
            },
            None => None,
        }
    }
}

/// The tier at `p`, if `(Tier: ` stands there: closed by the next `)`, a space behind it.
pub open spec fn tier_step(line: Seq<char>, p: int) -> Cut {
    let open = "(Tier: "@;
    if !occurs_at(line, p, open) {
        Some((None, p))
    } else {
        match first_occurrence(line, ")"@, p + open.len()) {
            Some(r) => if occurs_at(line, r + 1, " "@) {
                Some((Some(line.subrange(p + open.len(), r)), r + 2))
            } else {
                None
            },
            None => None,
        }
    }
}

/// The end of a header from `p` on: the closing brace alone, or a dash, the tags and
/// ` }`. Nothing where it is neither.
pub open spec fn tags_step(line: Seq<char>, p: int) -> Option<Option<Seq<char>>> {
    let dash = "— "@;
    let close = " }"@;
    if occurs_at(line, p, dash) {
        if p + dash.len() + close.len() <= line.len() && occurs_at(
            line,
            line.len() - close.len(),
            close,
        ) {
            Some(Some(line.subrange(p + dash.len(), line.len() - close.len())))
        } else {
            None
        }
    } else if occurs_at(line, p, "}"@) && p + 1 == line.len() {
        Some(None)
    } else {
        None
    }
}

/// The pieces of a header line; nothing where the line is no header.
pub open spec fn header_parts(line: Seq<char>) -> Option<HeaderParts> {
    let open = "{ "@;
    let modifier = " Modifier "@;
    if !occurs_at(line, 0, open) {
        None
    } else {
        match first_occurrence(line, " "@, open.len() as int) {
            Some(w) => if w > open.len() && occurs_at(line, w, modifier) {
                match name_step(line, w + modifier.len()) {
                    Some((name, p)) => match tier_step(line, p) {
                        Some((tier, q)) => match tags_step(line, q) {
                            Some(tags) => Some(
                                HeaderParts {
                                    word: line.subrange(open.len() as int, w),
                                    name,
                                    tier,
                                    tags,
                                },
                            ),
                            None => None,
                        },
                        None => None,
                    },
                    None => None,
                }
            } else {
                None
            },
            None => None,
        }
    }
}

/// The affix type that a word names.
pub open spec fn affix_of(word: Seq<char>) -> Option<AffixType> {
    if word == "Prefix"@ {
        Some(AffixType::Prefix)
    } else if word == "Suffix"@ {
        Some(AffixType::Suffix)
    } else if word == "Unique"@ {
        Some(AffixType::Unique)
    } else if word == "Implicit"@ {
        Some(AffixType::Implicit)
    } else {
        None
    }
}

/// The word that names an affix type.
pub open spec fn affix_word(affix: AffixType) -> Seq<char> {
    match affix {
        AffixType::Prefix => "Prefix"@,
        AffixType::Suffix => "Suffix"@,
        AffixType::Implicit => "Implicit"@,
        AffixType::Unique => "Unique"@,
    }
}

/// The name and tier group of a header, as it is written.
pub open spec fn group_text(name_tier: Option<(Seq<char>, nat)>) -> Seq<char> {
    match name_tier {
        Some((name, tier)) => "\""@ + name + "\" "@ + "(Tier: "@ + decimal_text(tier) + ") "@,
        None => Seq::empty(),
    }
}

/// The tag clause of a header, as it is written; nothing where there are no tags.
pub open spec fn clause_text(tags: Seq<Seq<char>>) -> Seq<char> {
    if tags.len() > 0 {
        "— "@ + join_with(tags, ", "@) + " "@
    } else {
        Seq::empty()
    }
}

/// A header line, as it is written.
pub open spec fn header_text(
    affix: AffixType,
    name_tier: Option<(Seq<char>, nat)>,
    tags: Seq<Seq<char>>,
) -> Seq<char> {
    "{ "@ + affix_word(affix) + " Modifier "@ + group_text(name_tier) + clause_text(tags) + "}"@
}

/// What a header can say and be read back: a name that is not empty and holds no quote, a
/// tier up to `tier_limit()`, tags in which `, ` does not stand.
pub open spec fn writable(name_tier: Option<(Seq<char>, nat)>, tags: Seq<Seq<char>>) -> bool {
    &&& match name_tier {
        Some((name, tier)) => {
            &&& name.len() > 0
            &&& forall|i: int| 0 <= i < name.len() ==> #[trigger] name[i] != '"'
            &&& tier <= tier_limit()
        },
        None => true,
    }
    &&& forall|k: int| 0 <= k < tags.len() ==> first_occurrence(#[trigger] tags[k], ", "@, 0) is None
}

/// The largest tier.
pub open spec fn tier_limit() -> int {
    0x7fff_ffff
}

/// The tags that the text of a tag clause lists: its pieces between `, `.
pub open spec fn tags_of(clause: Option<Seq<char>>) -> Seq<Seq<char>> {
    match clause {
        Some(text) => split_on(text, ", "@),
        None => Seq::empty(),
    }
}

/// The first index from `i` on that holds a digit, or the length.
pub open spec fn first_digit(s: Seq<char>, i: int) -> int
    decreases s.len() - i,
{
    if 0 <= i < s.len() && !is_digit(s[i]) {
        first_digit(s, i + 1)
    } else {
        i
    }
}

/// Where the value of an effect line stands: its first number.
pub open spec fn value_span(line: Seq<char>) -> Option<(int, int)> {
    let a = first_digit(line, 0);
    if a < line.len() {
        Some((a, number_end(line, a)))
    } else {
        None
    }
}

/// Where the two bounds of the roll range stand: in a `(low-high)` that follows the value
/// at once, both bounds numbers.
pub open spec fn roll_spans(line: Seq<char>) -> Option<((int, int), (int, int))> {
    match value_span(line) {
        Some((a, e)) => {
            let e1 = number_end(line, e + 1);
            let e2 = number_end(line, e1 + 1);
            if e + 1 < line.len() && line[e] == '(' && is_digit(line[e + 1]) && e1 + 1
                < line.len() && line[e1] == '-' && is_digit(line[e1 + 1]) && e2 < line.len()
                && line[e2] == ')' {
                Some(((e + 1, e1), (e1 + 1, e2)))
            } else {
                None
            }
        },
        None => None,
    }
}

/// What the value of an effect line is read as: nothing where the line has no number,
/// else the reading, which is nothing where the number is malformed.
pub open spec fn value_reading(line: Seq<char>) -> Option<Option<Decimal>> {
    match value_span(line) {
        Some((a, e)) => Some(reading_of(line.subrange(a, e))),
        None => None,
    }
}

/// What the bounds of the roll range are read as, where the line has a roll range.
pub open spec fn roll_reading(line: Seq<char>) -> Option<(Option<Decimal>, Option<Decimal>)> {
    match roll_spans(line) {
        Some(((a1, e1), (a2, e2))) => Some(
            (reading_of(line.subrange(a1, e1)), reading_of(line.subrange(a2, e2))),
        ),
        None => None,
    }
}

/// The tier that a header gives, if it gives one: nothing in it where the text is no
/// number up to `tier_limit()`.
pub open spec fn tier_reading(h: HeaderParts) -> Option<Option<int>> {
    match h.tier {
        Some(t) => Some(bounded_number(t, tier_limit())),
        None => None,
    }
}

/// The modifier that the pieces of a header and the readings of an effect line make.
///
/// The failures come in this order: an unknown affix type, a malformed tier, a malformed
/// value, a malformed bound. A name without a tier, or a tier without a name, leaves the
/// modifier without both.
pub open spec fn assemble(
    h: HeaderParts,
    value: Option<Option<Decimal>>,
    roll: Option<(Option<Decimal>, Option<Decimal>)>,
) -> Result<ModView, ErrorKind> {
    if affix_of(h.word) is None {
        Err(ErrorKind::UnknownAffixType)
    } else if tier_reading(h) == Some(None::<int>) {
        Err(ErrorKind::MalformedNumber)
    } else if value == Some(None::<Decimal>) {
        Err(ErrorKind::MalformedNumber)
    } else if (match roll {
        Some((low, high)) => low is None || high is None,
        None => false,
    }) {
        Err(ErrorKind::MalformedNumber)
    } else {
        Ok(
            ModView {
                affix_type: affix_of(h.word)->0,
                name_tier: match (h.name, tier_reading(h)) {
                    (Some(n), Some(Some(t))) => Some((n, t)),
                    _ => None,
                },
                value: match value {
                    Some(v) => v,
                    None => None,
                },
                roll_range: match roll {
                    Some((Some(low), Some(high))) => Some((low, high)),
                    _ => None,
                },
                tags: tags_of(h.tags),
                qualifiers: Seq::empty(),
            },
        )
    }
}

/// The modifier that a header line and an effect line decode to.
pub open spec fn decode_mod(top: Seq<char>, bottom: Seq<char>) -> Result<ModView, ErrorKind> {
    match header_parts(top) {
        Some(h) => assemble(h, value_reading(bottom), roll_reading(bottom)),
        None => Err(ErrorKind::StructuralMismatch),
    }
}

fn take_text(line: &str, from: usize, to: usize) -> (r: String)
    requires
        from <= to <= line@.len(),
    ensures
        r@ == line@.subrange(from as int, to as int),
{
    line.substring_char(from, to).to_owned()
}

/// Cuts a header line into its pieces.
pub fn parse_header(line: &str) -> (r: Option<Header>)
    ensures
        match r {
            Some(h) => header_parts(line@) == Some(h@),
            None => header_parts(line@) is None,
        },
{
    let chars = chars_of(line);
    let open = chars_of("{ ");
    let space = chars_of(" ");
    let modifier = chars_of(" Modifier ");
    let quote = chars_of("\"");
    let tier_open = chars_of("(Tier: ");
    let tier_close = chars_of(")");
    let dash = chars_of("— ");
    let close = chars_of(" }");
    let brace = chars_of("}");
    proof {
        reveal_strlit("{ ");
        reveal_strlit(" ");
        reveal_strlit(" Modifier ");
        reveal_strlit("\"");
        reveal_strlit("(Tier: ");
        reveal_strlit(")");
        reveal_strlit("— ");
        reveal_strlit(" }");
        reveal_strlit("}");
    }
    if !has_at(&chars, 0, &open) {
        return None;
    }
    let w = match find(&chars, &space, open.len()) {
        Some(w) => w,
        None => {
            return None;
        },
    };
    proof {
        lemma_first_occurrence(chars@, space@, open.len() as int);
    }
    if w <= open.len() || !has_at(&chars, w, &modifier) {
        return None;
    }
    assert(occurs_at(chars@, w as int, modifier@));
    assert(w + modifier.len() <= chars.len());
    let word = take_text(line, open.len(), w);
    let mut p: usize = w + modifier.len();
    // The quoted name.
    let mut name: Option<String> = None;
    if has_at(&chars, p, &quote) {
        proof {
            lemma_first_occurrence(chars@, quote@, p + 1);
        }
        match find(&chars, &quote, p + 1) {
            Some(q) => {
                if q > p + 1 && has_at(&chars, q + 1, &space) {
                    name = Some(take_text(line, p + 1, q));
                    p = q + 2;
                } else {
                    return None;
                }
            },
            None => {
                return None;
            },
        }
    }
    assert(name_step(line@, w + modifier.len()) == Some((opt_text(name), p as int)));
    // The tier.
    let ghost before_tier = p;
    let mut tier: Option<String> = None;
    if has_at(&chars, p, &tier_open) {
        proof {
            lemma_first_occurrence(chars@, tier_close@, p + tier_open.len());
        }
        match find(&chars, &tier_close, p + tier_open.len()) {
            Some(r) => {
                if has_at(&chars, r + 1, &space) {
                    tier = Some(take_text(line, p + tier_open.len(), r));
                    p = r + 2;
                } else {
                    return None;
                }
            },
            None => {
                return None;
            },
        }
    }
    assert(tier_step(line@, before_tier as int) == Some((opt_text(tier), p as int)));
    // The tags and the closing brace.
    let mut tags: Option<String> = None;
    if has_at(&chars, p, &dash) {
        if chars.len() - p >= dash.len() + close.len() && has_at(
            &chars,
            chars.len() - close.len(),
            &close,
        ) {
            tags = Some(take_text(line, p + dash.len(), chars.len() - close.len()));
        } else {
            return None;
        }
    } else if !(has_at(&chars, p, &brace) && p + 1 == chars.len()) {
        return None;
    }
    assert(tags_step(line@, p as int) == Some(opt_text(tags)));
    Some(Header { word, name, tier, tags })
}

/// The affix type that a word names.
pub fn affix_type_of(word: &str) -> (r: Option<AffixType>)
    ensures
        r == affix_of(word@),
{
    if same_text(word, "Prefix") {
        Some(AffixType::Prefix)
    } else if same_text(word, "Suffix") {
        Some(AffixType::Suffix)
    } else if same_text(word, "Unique") {
        Some(AffixType::Unique)
    } else if same_text(word, "Implicit") {
        Some(AffixType::Implicit)
    } else {
        None
    }
}

/// The tags that the text of a tag clause lists.
pub fn list_tags(clause: &Option<String>) -> (tags: Vec<String>)
    ensures
        texts_of(tags@) == tags_of(opt_text(*clause)),
{
    let mut tags: Vec<String> = Vec::new();
    match clause {
        Some(text) => {
            let parts = split(text.as_str(), ", ");
            let mut i: usize = 0;
            while i < parts.len()
                invariant
                    i <= parts.len(),
                    texts_of(tags@) == slices_of(parts@).take(i as int),
                decreases parts.len() - i,
            {
                let ghost before = texts_of(tags@);
                let tag = parts[i].to_owned();
                tags.push(tag);
                proof {
                    assert(texts_of(tags@) == before.push(tag@));
                    assert(slices_of(parts@).take(i + 1) == slices_of(parts@).take(
                        i as int,
                    ).push(parts@[i as int]@));
                }
                i += 1;
            }
            proof {
                assert(slices_of(parts@).take(i as int) == slices_of(parts@));
            }
        },
        None => {
            assert(texts_of(tags@) == Seq::<Seq<char>>::empty());
        },
    }
    tags
}

/// Where the value and the roll range of an effect line stand.
pub fn scan_effect(chars: &Vec<char>) -> (r: (
    Option<(usize, usize)>,
    Option<((usize, usize), (usize, usize))>,
))
    ensures
        match r.0 {
            Some((a, e)) => value_span(chars@) == Some((a as int, e as int)) && a < e
                <= chars.len() && is_number_token(chars@.subrange(a as int, e as int)),
            None => value_span(chars@) is None,
        },
        match r.1 {
            Some(((a1, e1), (a2, e2))) => roll_spans(chars@) == Some(
                ((a1 as int, e1 as int), (a2 as int, e2 as int)),
            ) && a1 < e1 <= chars.len() && a2 < e2 <= chars.len() && is_number_token(
                chars@.subrange(a1 as int, e1 as int),
            ) && is_number_token(chars@.subrange(a2 as int, e2 as int)),
            None => roll_spans(chars@) is None,
        },
{
    let mut a: usize = 0;
    while a < chars.len() && !is_digit_char(chars[a])
        invariant
            a <= chars.len(),
            first_digit(chars@, 0) == first_digit(chars@, a as int),
        decreases chars.len() - a,
    {
        a += 1;
    }
    if a >= chars.len() {
        return (None, None);
    }
    let e = scan_number(chars, a);
    if !(e < chars.len() && e + 1 < chars.len() && chars[e] == '(' && is_digit_char(chars[e + 1])) {
        return (Some((a, e)), None);
    }
    let e1 = scan_number(chars, e + 1);
    if !(e1 < chars.len() && e1 + 1 < chars.len() && chars[e1] == '-' && is_digit_char(chars[e1 + 1])) {
        return (Some((a, e)), None);
    }
    let e2 = scan_number(chars, e1 + 1);
    if !(e2 < chars.len() && chars[e2] == ')') {
        return (Some((a, e)), None);
    }
    (Some((a, e)), Some(((e + 1, e1), (e1 + 1, e2))))
}

impl ItemMod {
    /// Makes a modifier of the pieces of its header and of what the numbers of its effect
    /// line were read as.
    pub fn from_parts(
        header: Header,
        value: Option<Option<Decimal>>,
        roll: Option<(Option<Decimal>, Option<Decimal>)>,
    ) -> (r: Result<ItemMod, ErrorKind>)
        ensures
            match r {
                Ok(m) => assemble(header@, value, roll) == Ok::<ModView, ErrorKind>(m@),
                Err(k) => assemble(header@, value, roll) == Err::<ModView, ErrorKind>(k),
            },
    {
        let affix_type = match affix_type_of(header.word.as_str()) {
            Some(at) => at,
            None => {
                return Err(ErrorKind::UnknownAffixType);
            },
        };
        let tier: Option<i32> = match &header.tier {
            Some(text) => match parse_bounded(text.as_str(), 0x7fff_ffff) {
                Some(t) => Some(t as i32),
                None => {
                    return Err(ErrorKind::MalformedNumber);
                },
            },
            None => None,
        };
        let value: Option<Decimal> = match value {
            Some(Some(v)) => Some(v),
            Some(None) => {
                return Err(ErrorKind::MalformedNumber);
            },
            None => None,
        };
        let roll_range: Option<Range<Decimal>> = match roll {
            Some((Some(low), Some(high))) => Some(low..high),
            Some(_) => {
                return Err(ErrorKind::MalformedNumber);
            },
            None => None,
        };
        let tags = list_tags(&header.tags);
        let affix_name_tier = match (header.name, tier) {
            (Some(name), Some(tier)) => Some(AffixNameTier { name, tier }),
            _ => None,
        };
        Ok(
            ItemMod {
                affix_type,
                affix_name_tier,
                value,
                roll_range,
                tags,
                mod_qualifiers: String::new(),
            },
        )
    }

    /// Decodes a modifier from its two lines, both trimmed: the header and the effect.
    pub fn from_strs(top_line: &str, bottom_line: &str) -> (r: Result<ItemMod, ErrorKind>)
        ensures
            match r {
                Ok(m) => decode_mod(top_line@, bottom_line@) == Ok::<ModView, ErrorKind>(m@),
                Err(k) => decode_mod(top_line@, bottom_line@) == Err::<ModView, ErrorKind>(k),
            },
    {
        let header = match parse_header(top_line) {
            Some(h) => h,
            None => {
                return Err(ErrorKind::StructuralMismatch);
            },
        };
        let chars = chars_of(bottom_line);
        let (value_at, roll_at) = scan_effect(&chars);
        let value = match value_at {
            Some((a, e)) => Some(read_decimal(bottom_line.substring_char(a, e))),
            None => None,
        };
        let roll = match roll_at {
            Some(((a1, e1), (a2, e2))) => Some(
                (
                    read_decimal(bottom_line.substring_char(a1, e1)),
                    read_decimal(bottom_line.substring_char(a2, e2)),
                ),
            ),
            None => None,
        };
        ItemMod::from_parts(header, value, roll)
    }
}

} // verus!
