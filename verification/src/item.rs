//! The decoder of a whole item text.
//!
//! The lines of an item text pass through five sections in a fixed order: the item
//! class, the rarity, the name, the stats and the modifiers. A line of eight hyphens
//! closes the name. It closes the stats only where a modifier header follows it, or
//! nothing at all; elsewhere it is one of the rules that a stat block holds within.

use vstd::prelude::*;
use vstd::string::*;

use crate::error::{ErrorKind, ItemParseSections, ParseError};
use crate::modline::{
    decode_mod, opt_text, scan_effect, value_reading, AffixType, ItemMod, ModView,
};
use crate::number::{bounded_number, parse_bounded, read_decimal, Decimal};
use crate::text::{
    chars_of, find, first_occurrence, has_at, join_with, lemma_first_occurrence, lines,
    lines_of, occurs_at, same_text, slices_of, trim, trimmed,
};

verus! {

/// One property line of an item, such as `Armour: 45`.
#[derive(Debug)]
pub struct StatLine {
    pub stat_name: String,
    pub stat_value: Decimal,
}

/// The name of an item, by its rarity.
#[derive(Debug)]
pub enum ItemName {
    /// Gems, flasks, currency and whatever else has none of the four rarities.
    Other(String),
    Normal,
    Magic { prefix: String, suffix: String },
    Rare(String),
    Unique(String),
}

/// A decoded item.
#[derive(Debug)]
pub struct Item {
    /// The base type, such as "Leather Belt".
    pub base_name: String,
    pub item_name: ItemName,
    /// The property lines, in their order.
    pub stats: Vec<StatLine>,
    /// The item level; 1 where the text gives none.
    pub ilvl: u8,
    /// The socket text as it stands; empty where the text gives none.
    pub sockets: String,
    /// The modifiers, in their order.
    pub mods: Vec<ItemMod>,
}

/// What a property line holds, as plain values.
pub struct StatView {
    pub name: Seq<char>,
    pub value: Decimal,
}

/// What an item's name holds, as plain values.
pub enum NameView {
    Other(Seq<char>),
    Normal,
    Magic { prefix: Seq<char>, suffix: Seq<char> },
    Rare(Seq<char>),
    Unique(Seq<char>),
}

/// What an item holds, as plain values.
pub struct ItemView {
    pub base_name: Seq<char>,
    pub item_name: NameView,
    pub stats: Seq<StatView>,
    pub ilvl: int,
    pub sockets: Seq<char>,
    pub mods: Seq<ModView>,
}

impl View for StatLine {
    type V = StatView;

    open spec fn view(&self) -> StatView {
        StatView { name: self.stat_name@, value: self.stat_value }
    }
}

impl View for ItemName {
    type V = NameView;

    open spec fn view(&self) -> NameView {
        match self {
            ItemName::Other(name) => NameView::Other(name@),
            ItemName::Normal => NameView::Normal,
            ItemName::Magic { prefix, suffix } => NameView::Magic {
                prefix: prefix@,
                suffix: suffix@,
            },
            ItemName::Rare(name) => NameView::Rare(name@),
            ItemName::Unique(name) => NameView::Unique(name@),
        }
    }
}

/// The views of a vector of property lines.
pub open spec fn stat_views(v: Seq<StatLine>) -> Seq<StatView> {
    v.map_values(|s: StatLine| s@)
}

/// The views of a vector of modifiers.
pub open spec fn mod_views(v: Seq<ItemMod>) -> Seq<ModView> {
    v.map_values(|m: ItemMod| m@)
}

impl View for Item {
    type V = ItemView;

    open spec fn view(&self) -> ItemView {
        ItemView {
            base_name: self.base_name@,
            item_name: self.item_name@,
            stats: stat_views(self.stats@),
            ilvl: self.ilvl as int,
            sockets: self.sockets@,
            mods: mod_views(self.mods@),
        }
    }
}

/// The item level of an item whose text gives none.
pub open spec fn default_level() -> int {
    1
}

/// The largest item level.
pub open spec fn level_limit() -> int {
    255
}

/// The key and the value of a `Key: Value` line: what stands before its first colon, not
/// empty, and what stands behind it, not empty.
pub open spec fn key_value(line: Seq<char>) -> Option<(Seq<char>, Seq<char>)> {
    match first_occurrence(line, ":"@, 0) {
        Some(i) => if 0 < i && i + 1 < line.len() {
            Some((line.subrange(0, i), line.subrange(i + 1, line.len() as int)))
        } else {
            None
        },
        None => None,
    }
}

/// The value of a `Key: Value` line whose key is `key`.
pub open spec fn value_under(line: Seq<char>, key: Seq<char>) -> Option<Seq<char>> {
    match key_value(line) {
        Some((k, v)) => if k == key {
            Some(v)
        } else {
            None
        },
        None => None,
    }
}

/// Whether a line is the rule of eight hyphens.
pub open spec fn is_separator(line: Seq<char>) -> bool {
    line == "--------"@
}

/// Whether a line begins a modifier: its first character is `{`.
pub open spec fn is_header(line: Seq<char>) -> bool {
    line.len() > 0 && line[0] == '{'
}

/// The first line from `i` on that is not empty, or the count of lines.
pub open spec fn first_filled(lines: Seq<Seq<char>>, i: int) -> int
    decreases lines.len() - i,
{
    if 0 <= i < lines.len() && lines[i].len() == 0 {
        first_filled(lines, i + 1)
    } else {
        i
    }
}

/// The first rule from `i` on, or the count of lines.
pub open spec fn next_separator(lines: Seq<Seq<char>>, i: int) -> int
    decreases lines.len() - i,
{
    if 0 <= i < lines.len() && !is_separator(lines[i]) {
        next_separator(lines, i + 1)
    } else {
        i
    }
}

/// Whether line `j` closes the stats: a rule with a modifier header behind it, or with
/// nothing behind it.
pub open spec fn closes_stats(lines: Seq<Seq<char>>, j: int) -> bool {
    &&& 0 <= j < lines.len()
    &&& is_separator(lines[j])
    &&& (j + 1 == lines.len() || is_header(lines[j + 1]))
}

/// The first line from `i` on that closes the stats, or the count of lines.
pub open spec fn stats_end(lines: Seq<Seq<char>>, i: int) -> int
    decreases lines.len() - i,
{
    if 0 <= i < lines.len() && !closes_stats(lines, i) {
        stats_end(lines, i + 1)
    } else {
        i
    }
}

/// What a line of the stats holds.
pub enum EntryView {
    /// `Item Level: <n>`.
    Level(int),
    /// `Sockets: <text>`.
    Sockets(Seq<char>),
    /// Another `Key: Value` line with a number in its value.
    Stat(StatView),
    /// Anything else: a rule, a heading, a line without a number.
    Nothing,
}

/// What a line of the stats holds, or why it is malformed.
pub open spec fn stat_entry(line: Seq<char>) -> Result<EntryView, ErrorKind> {
    match key_value(line) {
        Some((k, v)) => if k == "Item Level"@ {
            match bounded_number(trim(v), level_limit()) {
                Some(n) => Ok(EntryView::Level(n)),
                None => Err(ErrorKind::MalformedNumber),
            }
        } else if k == "Sockets"@ {
            Ok(EntryView::Sockets(trim(v)))
        } else {
            match value_reading(v) {
                Some(Some(d)) => Ok(EntryView::Stat(StatView { name: k, value: d })),
                Some(None) => Err(ErrorKind::MalformedNumber),
                None => Ok(EntryView::Nothing),
            }
        },
        None => Ok(EntryView::Nothing),
    }
}

/// The first malformed line among the lines of the stats: its failure and its index.
pub open spec fn stats_failure(lines: Seq<Seq<char>>) -> Option<(ErrorKind, int)>
    decreases lines.len(),
{
    if lines.len() == 0 {
        None
    } else {
        match stats_failure(lines.drop_last()) {
            Some(e) => Some(e),
            None => match stat_entry(lines.last()) {
                Err(k) => Some((k, lines.len() - 1)),
                Ok(_) => None,
            },
        }
    }
}

/// The property lines among the lines of the stats, in their order.
pub open spec fn stats_of(lines: Seq<Seq<char>>) -> Seq<StatView>
    decreases lines.len(),
{
    if lines.len() == 0 {
        Seq::empty()
    } else {
        match stat_entry(lines.last()) {
            Ok(EntryView::Stat(s)) => stats_of(lines.drop_last()).push(s),
            _ => stats_of(lines.drop_last()),
        }
    }
}

/// The item level that the lines of the stats give: that of the last line that gives one.
pub open spec fn level_of(lines: Seq<Seq<char>>) -> int
    decreases lines.len(),
{
    if lines.len() == 0 {
        default_level()
    } else {
        match stat_entry(lines.last()) {
            Ok(EntryView::Level(n)) => n,
            _ => level_of(lines.drop_last()),
        }
    }
}

/// The sockets that the lines of the stats give: those of the last line that gives any.
pub open spec fn sockets_of(lines: Seq<Seq<char>>) -> Seq<char>
    decreases lines.len(),
{
    if lines.len() == 0 {
        Seq::empty()
    } else {
        match stat_entry(lines.last()) {
            Ok(EntryView::Sockets(s)) => s,
            _ => sockets_of(lines.drop_last()),
        }
    }
}

/// The modifiers that the lines from `i` on decode to, or the first failure with the
/// index of the header it belongs to.
///
/// A header takes the line behind it as its effect line, whatever that line holds. Between
/// modifiers, lines that are no header are passed over.
pub open spec fn mods_from(lines: Seq<Seq<char>>, i: int) -> Result<Seq<ModView>, (ErrorKind, int)>
    decreases lines.len() - i,
{
    if i < 0 || i >= lines.len() {
        Ok(Seq::empty())
    } else if !is_header(lines[i]) {
        mods_from(lines, i + 1)
    } else if i + 1 >= lines.len() {
        Err((ErrorKind::TruncatedModBlock, i))
    } else {
        match decode_mod(lines[i], lines[i + 1]) {
            Ok(m) => match mods_from(lines, i + 2) {
                Ok(rest) => Ok(seq![m] + rest),
                Err(e) => Err(e),
            },
            Err(k) => Err((k, i)),
        }
    }
}

/// The name of the first modifier of kind `kind` that has one.
pub open spec fn first_named(mods: Seq<ModView>, kind: AffixType) -> Option<Seq<char>>
    decreases mods.len(),
{
    if mods.len() == 0 {
        None
    } else {
        match mods[0].name_tier {
            Some((name, _)) if mods[0].affix_type == kind => Some(name),
            _ => first_named(mods.drop_first(), kind),
        }
    }
}

/// The prefix of a magic item's name: the name of its first named prefix modifier, where
/// the name block begins with it and a space; else empty.
pub open spec fn magic_prefix(block: Seq<char>, mods: Seq<ModView>) -> Seq<char> {
    match first_named(mods, AffixType::Prefix) {
        Some(p) => if occurs_at(block, 0, p + " "@) {
            p
        } else {
            Seq::empty()
        },
        None => Seq::empty(),
    }
}

/// A magic item's name block behind its prefix.
pub open spec fn behind_prefix(block: Seq<char>, mods: Seq<ModView>) -> Seq<char> {
    let p = magic_prefix(block, mods);
    if p.len() > 0 {
        block.subrange(p.len() as int + 1, block.len() as int)
    } else {
        block
    }
}

/// The suffix of a magic item's name: the name of its first named suffix modifier, where
/// what stands behind the prefix ends with a space and it; else empty.
pub open spec fn magic_suffix(block: Seq<char>, mods: Seq<ModView>) -> Seq<char> {
    let rest = behind_prefix(block, mods);
    match first_named(mods, AffixType::Suffix) {
        Some(s) => if occurs_at(rest, rest.len() as int - s.len() - 1, " "@ + s) {
            s
        } else {
            Seq::empty()
        },
        None => Seq::empty(),
    }
}

/// The base type of a magic item: its name block without the prefix and the suffix, and
/// without the spaces that part them from it.
pub open spec fn magic_base(block: Seq<char>, mods: Seq<ModView>) -> Seq<char> {
    let rest = behind_prefix(block, mods);
    let s = magic_suffix(block, mods);
    if s.len() > 0 {
        rest.subrange(0, rest.len() as int - s.len() - 1)
    } else {
        rest
    }
}

/// The last line of a name block, where the base type stands; empty where there is none.
pub open spec fn last_line(name_lines: Seq<Seq<char>>) -> Seq<char> {
    if name_lines.len() > 0 {
        name_lines.last()
    } else {
        Seq::empty()
    }
}

/// The name of an item, from its rarity, the lines of its name block and its modifiers.
pub open spec fn resolve_name(
    rarity: Seq<char>,
    name_lines: Seq<Seq<char>>,
    mods: Seq<ModView>,
) -> NameView {
    let block = join_with(name_lines, "\n"@);
    if rarity == "Normal"@ {
        NameView::Normal
    } else if rarity == "Magic"@ {
        NameView::Magic { prefix: magic_prefix(block, mods), suffix: magic_suffix(block, mods) }
    } else if rarity == "Rare"@ {
        NameView::Rare(block)
    } else if rarity == "Unique"@ {
        NameView::Unique(block)
    } else {
        NameView::Other(block)
    }
}

/// The base type of an item: the name block of a normal item, the middle of a magic
/// item's name, the last line of the name block of any other.
pub open spec fn resolve_base(
    rarity: Seq<char>,
    name_lines: Seq<Seq<char>>,
    mods: Seq<ModView>,
) -> Seq<char> {
    let block = join_with(name_lines, "\n"@);
    if rarity == "Normal"@ {
        block
    } else if rarity == "Magic"@ {
        magic_base(block, mods)
    } else {
        last_line(name_lines)
    }
}

/// A failure of kind `kind` at line `line` of section `section`.
pub open spec fn failure(kind: ErrorKind, section: ItemParseSections, line: int) -> ParseError {
    ParseError { kind, section, line: line as usize }
}

/// The item that the lines of a text decode to.
pub open spec fn decode_lines(lines: Seq<Seq<char>>) -> Result<ItemView, ParseError> {
    let c = first_filled(lines, 0);
    let n = next_separator(lines, c + 2);
    let b = stats_end(lines, n + 1);
    let stat_lines = lines.subrange(n + 1, b);
    if c >= lines.len() {
        Err(failure(ErrorKind::EmptyOrMissingSection, ItemParseSections::ItemClass, c))
    } else if value_under(lines[c], "Item Class"@) is None {
        Err(failure(ErrorKind::StructuralMismatch, ItemParseSections::ItemClass, c))
    } else if c + 1 >= lines.len() {
        Err(failure(ErrorKind::EmptyOrMissingSection, ItemParseSections::ItemRarity, c + 1))
    } else if value_under(lines[c + 1], "Rarity"@) is None {
        Err(failure(ErrorKind::StructuralMismatch, ItemParseSections::ItemRarity, c + 1))
    } else if n >= lines.len() {
        Err(failure(ErrorKind::EmptyOrMissingSection, ItemParseSections::ItemName, n))
    } else if let Some((kind, at)) = stats_failure(stat_lines) {
        Err(failure(kind, ItemParseSections::ItemStats, n + 1 + at))
    } else if b + 1 == lines.len() {
        Err(failure(ErrorKind::EmptyOrMissingSection, ItemParseSections::ItemMods, b + 1))
    } else {
        match mods_from(lines, b + 1) {
            Ok(mods) => {
                let rarity = trim(value_under(lines[c + 1], "Rarity"@)->0);
                let name_lines = lines.subrange(c + 2, n);
                Ok(
                    ItemView {
                        base_name: resolve_base(rarity, name_lines, mods),
                        item_name: resolve_name(rarity, name_lines, mods),
                        stats: stats_of(stat_lines),
                        ilvl: level_of(stat_lines),
                        sockets: sockets_of(stat_lines),
                        mods,
                    },
                )
            },
            Err((kind, line)) => Err(failure(kind, ItemParseSections::ItemMods, line)),
        }
    }
}

/// The item that a text decodes to.
pub open spec fn decode_item(text: Seq<char>) -> Result<ItemView, ParseError> {
    decode_lines(lines_of(text))
}

/// What a line of the stats holds.
pub enum Entry {
    Level(u8),
    Sockets(String),
    Stat(StatLine),
    Nothing,
}

impl View for Entry {
    type V = EntryView;

    open spec fn view(&self) -> EntryView {
        match self {
            Entry::Level(n) => EntryView::Level(*n as int),
            Entry::Sockets(s) => EntryView::Sockets(s@),
            Entry::Stat(s) => EntryView::Stat(s@),
            Entry::Nothing => EntryView::Nothing,
        }
    }
}

/// The modifiers `front`, then what `rest` holds; the failure of `rest` where it is one.
pub open spec fn with_front(
    front: Seq<ModView>,
    rest: Result<Seq<ModView>, (ErrorKind, int)>,
) -> Result<Seq<ModView>, (ErrorKind, int)> {
    match rest {
        Ok(mods) => Ok(front + mods),
        Err(e) => Err(e),
    }
}

/// How many of the modifiers are of kind `kind`.
pub open spec fn count_kind(mods: Seq<ModView>, kind: AffixType) -> nat
    decreases mods.len(),
{
    if mods.len() == 0 {
        0
    } else {
        count_kind(mods.drop_last(), kind) + if mods.last().affix_type == kind {
            1nat
        } else {
            0nat
        }
    }
}

/// The text that shows a name: a letter for the rarity, then the name.
pub open spec fn name_text(name: NameView) -> Seq<char> {
    match name {
        NameView::Other(text) => "?: "@ + text,
        NameView::Normal => "N"@,
        NameView::Magic { prefix, suffix } => if prefix.len() == 0 {
            "M(s): "@ + suffix
        } else if suffix.len() == 0 {
            "M(p): "@ + prefix
        } else {
            "M(p+s): "@ + prefix + " : "@ + suffix
        },
        NameView::Rare(text) => "R: "@ + text,
        NameView::Unique(text) => "U: "@ + text,
    }
}

/// A failure among the first lines of the stats is the failure of them all.
pub proof fn lemma_stats_failure_stays(lines: Seq<Seq<char>>, k: int)
    requires
        0 <= k <= lines.len(),
        stats_failure(lines.take(k)) is Some,
    ensures
        stats_failure(lines) == stats_failure(lines.take(k)),
    decreases lines.len() - k,
{
    if k < lines.len() {
        assert(lines.take(k + 1).drop_last() == lines.take(k));
        lemma_stats_failure_stays(lines, k + 1);
    } else {
        assert(lines.take(k) == lines);
    }
}

/// The key and the value of a `Key: Value` line.
pub fn key_value_of<'a>(line: &'a str) -> (r: Option<(&'a str, &'a str)>)
    ensures
        match r {
            Some((k, v)) => key_value(line@) == Some((k@, v@)),
            None => key_value(line@) is None,
        },
{
    let chars = chars_of(line);
    let colon = chars_of(":");
    proof {
        reveal_strlit(":");
        lemma_first_occurrence(chars@, colon@, 0);
    }
    match find(&chars, &colon, 0) {
        Some(i) => {
            let end = chars.len();
            if 0 < i && i + 1 < end {
                Some((line.substring_char(0, i), line.substring_char(i + 1, end)))
            } else {
                None
            }
        },
        None => None,
    }
}

/// The value of a `Key: Value` line whose key is `key`.
pub fn value_under_of<'a>(line: &'a str, key: &str) -> (r: Option<&'a str>)
    ensures
        match r {
            Some(v) => value_under(line@, key@) == Some(v@),
            None => value_under(line@, key@) is None,
        },
{
    match key_value_of(line) {
        Some((k, v)) => {
            if same_text(k, key) {
                Some(v)
            } else {
                None
            }
        },
        None => None,
    }
}

/// Whether a line begins a modifier.
pub fn is_header_line(line: &str) -> (r: bool)
    ensures
        r == is_header(line@),
{
    !line.is_empty() && line.get_char(0) == '{'
}

/// What a line of the stats holds, or why it is malformed.
pub fn stat_entry_of(line: &str) -> (r: Result<Entry, ErrorKind>)
    ensures
        match r {
            Ok(e) => stat_entry(line@) == Ok::<EntryView, ErrorKind>(e@),
            Err(k) => stat_entry(line@) == Err::<EntryView, ErrorKind>(k),
        },
{
    match key_value_of(line) {
        Some((k, v)) => {
            if same_text(k, "Item Level") {
                match parse_bounded(trimmed(v), 255) {
                    Some(n) => Ok(Entry::Level(n as u8)),
                    None => Err(ErrorKind::MalformedNumber),
                }
            } else if same_text(k, "Sockets") {
                Ok(Entry::Sockets(trimmed(v).to_owned()))
            } else {
                let chars = chars_of(v);
                match scan_effect(&chars).0 {
                    Some((a, e)) => match read_decimal(v.substring_char(a, e)) {
                        Some(d) => Ok(
                            Entry::Stat(StatLine { stat_name: k.to_owned(), stat_value: d }),
                        ),
                        None => Err(ErrorKind::MalformedNumber),
                    },
                    None => Ok(Entry::Nothing),
                }
            }
        },
        None => Ok(Entry::Nothing),
    }
}

/// The modifiers that the lines from `start` on decode to, or the first failure with the
/// index of the header it belongs to.
pub fn read_mods(lines: &Vec<&str>, start: usize) -> (r: Result<Vec<ItemMod>, (ErrorKind, usize)>)
    ensures
        match r {
            Ok(mods) => mods_from(slices_of(lines@), start as int) == Ok::<
                Seq<ModView>,
                (ErrorKind, int),
            >(mod_views(mods@)),
            Err((k, at)) => mods_from(slices_of(lines@), start as int) == Err::<
                Seq<ModView>,
                (ErrorKind, int),
            >((k, at as int)),
        },
{
    let ghost all = slices_of(lines@);
    let mut out: Vec<ItemMod> = Vec::new();
    let mut i: usize = start;
    proof {
        match mods_from(all, i as int) {
            Ok(rest) => {
                assert(mod_views(out@) + rest =~= rest);
            },
            Err(_) => {},
        }
    }
    while i < lines.len()
        invariant
            all == slices_of(lines@),
            mods_from(all, start as int) == with_front(mod_views(out@), mods_from(all, i as int)),
        decreases lines.len() - i,
    {
        assert(all[i as int] == lines@[i as int]@);
        if !is_header_line(lines[i]) {
            i += 1;
        } else if i + 1 >= lines.len() {
            return Err((ErrorKind::TruncatedModBlock, i));
        } else {
            assert(all[i + 1] == lines@[i + 1]@);
            match ItemMod::from_strs(lines[i], lines[i + 1]) {
                Ok(m) => {
                    let ghost before = mod_views(out@);
                    let ghost view = m@;
                    out.push(m);
                    proof {
                        assert(mod_views(out@) =~= before.push(view));
                        match mods_from(all, i + 2) {
                            Ok(rest) => {
                                assert(before + (seq![view] + rest) =~= before.push(view) + rest);
                            },
                            Err(_) => {},
                        }
                    }
                    i += 2;
                },
                Err(k) => {
                    return Err((k, i));
                },
            }
        }
    }
    proof {
        assert(mod_views(out@) + Seq::<ModView>::empty() =~= mod_views(out@));
    }
    Ok(out)
}

/// The name of the first modifier of kind `kind` that has one.
pub fn first_named_of(mods: &Vec<ItemMod>, kind: AffixType) -> (r: Option<String>)
    ensures
        opt_text(r) == first_named(mod_views(mods@), kind),
{
    let ghost all = mod_views(mods@);
    let mut i: usize = 0;
    proof {
        assert(all.subrange(0, all.len() as int) == all);
    }
    while i < mods.len()
        invariant
            i <= mods.len(),
            all == mod_views(mods@),
            first_named(all, kind) == first_named(all.subrange(i as int, all.len() as int), kind),
        decreases mods.len() - i,
    {
        let ghost rest = all.subrange(i as int, all.len() as int);
        proof {
            assert(rest[0] == mods@[i as int]@);
            assert(rest.drop_first() == all.subrange(i + 1, all.len() as int));
        }
        if mods[i].affix_type == kind {
            match &mods[i].affix_name_tier {
                Some(nt) => {
                    return Some(nt.name.clone());
                },
                None => {},
            }
        }
        i += 1;
    }
    None
}

/// The lines from `from` to `to`, joined by line feeds.
pub fn join_lines(lines: &Vec<&str>, from: usize, to: usize) -> (block: String)
    requires
        from <= to <= lines.len(),
    ensures
        block@ == join_with(slices_of(lines@).subrange(from as int, to as int), "\n"@),
{
    let ghost all = slices_of(lines@);
    let mut block = String::new();
    let mut i: usize = from;
    while i < to
        invariant
            from <= i <= to <= lines.len(),
            all == slices_of(lines@),
            block@ == join_with(all.subrange(from as int, i as int), "\n"@),
        decreases to - i,
    {
        let ghost before = all.subrange(from as int, i as int);
        let ghost joined = block@;
        if i > from {
            block.append("\n");
        }
        block.append(lines[i]);
        proof {
            let now = all.subrange(from as int, i + 1);
            assert(now.drop_last() == before);
            assert(now.last() == lines@[i as int]@);
            if i == from {
                assert(joined + lines@[i as int]@ =~= lines@[i as int]@);
            }
        }
        i += 1;
    }
    block
}

/// The prefix, the suffix and the base type of a magic item's name.
pub fn split_magic(block: &str, mods: &Vec<ItemMod>) -> (r: (String, String, String))
    ensures
        r.0@ == magic_prefix(block@, mod_views(mods@)),
        r.1@ == magic_suffix(block@, mod_views(mods@)),
        r.2@ == magic_base(block@, mod_views(mods@)),
{
    let chars = chars_of(block);
    let end = chars.len();
    proof {
        reveal_strlit(" ");
    }
    let mut prefix = String::new();
    let mut start: usize = 0;
    match first_named_of(mods, AffixType::Prefix) {
        Some(p) => {
            let lead = p.clone().concat(" ");
            let pat = chars_of(lead.as_str());
            if has_at(&chars, 0, &pat) {
                if pat.len() > 1 {
                    start = pat.len();
                }
                prefix = p;
            }
        },
        None => {},
    }
    let ghost rest = chars@.subrange(start as int, end as int);
    assert(rest == behind_prefix(block@, mod_views(mods@)));
    let mut suffix = String::new();
    let mut stop: usize = end;
    match first_named_of(mods, AffixType::Suffix) {
        Some(s) => {
            let tail = String::from_str(" ").concat(s.as_str());
            let pat = chars_of(tail.as_str());
            proof {
                if end - start >= pat.len() {
                    assert(rest.subrange(rest.len() - pat.len(), rest.len() as int)
                        == chars@.subrange(end - pat.len(), end as int));
                }
            }
            if end - start >= pat.len() && has_at(&chars, end - pat.len(), &pat) {
                if pat.len() > 1 {
                    stop = end - pat.len();
                }
                suffix = s;
            }
        },
        None => {},
    }
    proof {
        assert(rest.subrange(0, stop - start) == chars@.subrange(start as int, stop as int));
        assert(rest.subrange(0, rest.len() as int) == rest);
    }
    let base = block.substring_char(start, stop).to_owned();
    (prefix, suffix, base)
}

/// The name and the base type of an item, from its rarity, the lines `from` to `to` of
/// its name block and its modifiers.
pub fn resolve(rarity: &str, lines: &Vec<&str>, from: usize, to: usize, mods: &Vec<ItemMod>) -> (r:
    (ItemName, String))
    requires
        from <= to <= lines.len(),
    ensures
        r.0@ == resolve_name(
            rarity@,
            slices_of(lines@).subrange(from as int, to as int),
            mod_views(mods@),
        ),
        r.1@ == resolve_base(
            rarity@,
            slices_of(lines@).subrange(from as int, to as int),
            mod_views(mods@),
        ),
{
    let block = join_lines(lines, from, to);
    if same_text(rarity, "Normal") {
        (ItemName::Normal, block)
    } else if same_text(rarity, "Magic") {
        let (prefix, suffix, base) = split_magic(block.as_str(), mods);
        (ItemName::Magic { prefix, suffix }, base)
    } else {
        let base = if to > from {
            assert(slices_of(lines@).subrange(from as int, to as int).last() == lines@[to - 1]@);
            lines[to - 1].to_owned()
        } else {
            String::new()
        };
        if same_text(rarity, "Rare") {
            (ItemName::Rare(block), base)
        } else if same_text(rarity, "Unique") {
            (ItemName::Unique(block), base)
        } else {
            (ItemName::Other(block), base)
        }
    }
}

impl ItemName {
    /// A letter for the rarity, then the name.
    pub fn to_string(&self) -> (r: String)
        ensures
            r@ == name_text(self@),
    {
        match self {
            ItemName::Other(name) => String::from_str("?: ").concat(name.as_str()),
            ItemName::Normal => String::from_str("N"),
            ItemName::Magic { prefix, suffix } => {
                if prefix.as_str().is_empty() {
                    String::from_str("M(s): ").concat(suffix.as_str())
                } else if suffix.as_str().is_empty() {
                    String::from_str("M(p): ").concat(prefix.as_str())
                } else {
                    String::from_str("M(p+s): ").concat(prefix.as_str()).concat(" : ").concat(
                        suffix.as_str(),
                    )
                }
            },
            ItemName::Rare(name) => String::from_str("R: ").concat(name.as_str()),
            ItemName::Unique(name) => String::from_str("U: ").concat(name.as_str()),
        }
    }
}

impl Item {
    /// Decodes an item from its text.
    #[verifier::loop_isolation(false)]
    pub fn from_str(source: &str) -> (r: Result<Item, ParseError>)
        ensures
            match r {
                Ok(item) => decode_item(source@) == Ok::<ItemView, ParseError>(item@),
                Err(e) => decode_item(source@) == Err::<ItemView, ParseError>(e),
            },
    {
        let lines = lines(source);
        let ghost all = slices_of(lines@);
        let count = lines.len();
        // The item class: the first line that is not empty.
        let mut c: usize = 0;
        while c < count && lines[c].is_empty()
            invariant
                c <= count == lines.len(),
                all == slices_of(lines@),
                first_filled(all, 0) == first_filled(all, c as int),
            decreases count - c,
        {
            assert(all[c as int] == lines@[c as int]@);
            c += 1;
        }
        if c >= count {
            return Err(
                ParseError {
                    kind: ErrorKind::EmptyOrMissingSection,
                    section: ItemParseSections::ItemClass,
                    line: c,
                },
            );
        }
        assert(all[c as int] == lines@[c as int]@);
        if value_under_of(lines[c], "Item Class").is_none() {
            return Err(
                ParseError {
                    kind: ErrorKind::StructuralMismatch,
                    section: ItemParseSections::ItemClass,
                    line: c,
                },
            );
        }
        // The rarity.
        if c + 1 >= count {
            return Err(
                ParseError {
                    kind: ErrorKind::EmptyOrMissingSection,
                    section: ItemParseSections::ItemRarity,
                    line: c + 1,
                },
            );
        }
        assert(all[c + 1] == lines@[c + 1]@);
        let rarity = match value_under_of(lines[c + 1], "Rarity") {
            Some(v) => trimmed(v),
            None => {
                return Err(
                    ParseError {
                        kind: ErrorKind::StructuralMismatch,
                        section: ItemParseSections::ItemRarity,
                        line: c + 1,
                    },
                );
            },
        };
        // The name: up to the first rule.
        let mut n: usize = c + 2;
        while n < count && !same_text(lines[n], "--------")
            invariant
                c + 2 <= n <= count == lines.len(),
                all == slices_of(lines@),
                next_separator(all, c + 2) == next_separator(all, n as int),
            decreases count - n,
        {
            assert(all[n as int] == lines@[n as int]@);
            n += 1;
        }
        if n >= count {
            return Err(
                ParseError {
                    kind: ErrorKind::EmptyOrMissingSection,
                    section: ItemParseSections::ItemName,
                    line: n,
                },
            );
        }
        assert(all[n as int] == lines@[n as int]@);
        // The stats: up to the rule that closes them.
        let mut stats: Vec<StatLine> = Vec::new();
        let mut ilvl: u8 = 1;
        let mut sockets = String::new();
        let mut b: usize = n + 1;
        proof {
            assert(stat_views(stats@) =~= stats_of(all.subrange(n + 1, b as int)));
        }
        let mut open = true;
        while open && b < count
            invariant
                n + 1 <= b <= count == lines.len(),
                all == slices_of(lines@),
                stats_end(all, n + 1) == stats_end(all, b as int),
                !open ==> closes_stats(all, b as int),
                stats_failure(all.subrange(n + 1, b as int)) is None,
                stat_views(stats@) == stats_of(all.subrange(n + 1, b as int)),
                ilvl == level_of(all.subrange(n + 1, b as int)),
                sockets@ == sockets_of(all.subrange(n + 1, b as int)),
            decreases count - b + if open { 1int } else { 0int },
        {
            assert(all[b as int] == lines@[b as int]@);
            if b + 1 < count {
                assert(all[b + 1] == lines@[b + 1]@);
            }
            if same_text(lines[b], "--------") && (b + 1 == count || is_header_line(lines[b + 1])) {
                open = false;
            } else {
                let ghost before = all.subrange(n + 1, b as int);
                let ghost now = all.subrange(n + 1, b + 1);
                proof {
                    assert(now.drop_last() == before);
                    assert(now.last() == lines@[b as int]@);
                }
                match stat_entry_of(lines[b]) {
                    Ok(Entry::Level(level)) => {
                        ilvl = level;
                    },
                    Ok(Entry::Sockets(text)) => {
                        sockets = text;
                    },
                    Ok(Entry::Stat(stat)) => {
                        let ghost views = stat_views(stats@);
                        let ghost view = stat@;
                        stats.push(stat);
                        assert(stat_views(stats@) =~= views.push(view));
                    },
                    Ok(Entry::Nothing) => {},
                    Err(kind) => {
                        proof {
                            let whole = all.subrange(n + 1, stats_end(all, n + 1));
                            lemma_stats_end_bounds(all, b + 1);
                            assert(whole.take(b - n) == now);
                            lemma_stats_failure_stays(whole, b - n);
                        }
                        return Err(
                            ParseError { kind, section: ItemParseSections::ItemStats, line: b },
                        );
                    },
                }
                b += 1;
            }
        }
        proof {
            lemma_stats_end_bounds(all, b as int);
        }
        if b < count && b + 1 == count {
            return Err(
                ParseError {
                    kind: ErrorKind::EmptyOrMissingSection,
                    section: ItemParseSections::ItemMods,
                    line: b + 1,
                },
            );
        }
        // The modifiers.
        let mods = if b < count {
            match read_mods(&lines, b + 1) {
                Ok(mods) => mods,
                Err((kind, line)) => {
                    return Err(ParseError { kind, section: ItemParseSections::ItemMods, line });
                },
            }
        } else {
            let none: Vec<ItemMod> = Vec::new();
            assert(mod_views(none@) =~= Seq::<ModView>::empty());
            none
        };
        let (item_name, base_name) = resolve(rarity, &lines, c + 2, n, &mods);
        Ok(Item { base_name, item_name, stats, ilvl, sockets, mods })
    }

    /// How many of the modifiers are prefixes, and how many are suffixes.
    pub fn num_mods(&self) -> (r: (usize, usize))
        ensures
            r.0 == count_kind(self@.mods, AffixType::Prefix),
            r.1 == count_kind(self@.mods, AffixType::Suffix),
    {
        let ghost all = mod_views(self.mods@);
        let mut prefixes: usize = 0;
        let mut suffixes: usize = 0;
        let mut i: usize = 0;
        while i < self.mods.len()
            invariant
                i <= self.mods.len(),
                all == mod_views(self.mods@),
                prefixes == count_kind(all.take(i as int), AffixType::Prefix),
                suffixes == count_kind(all.take(i as int), AffixType::Suffix),
                prefixes <= i,
                suffixes <= i,
            decreases self.mods.len() - i,
        {
            proof {
                assert(all.take(i + 1).drop_last() == all.take(i as int));
                assert(all.take(i + 1).last() == self.mods@[i as int]@);
            }
            match self.mods[i].affix_type {
                AffixType::Prefix => {
                    prefixes += 1;
                },
                AffixType::Suffix => {
                    suffixes += 1;
                },
                AffixType::Implicit => {},
                AffixType::Unique => {},
            }
            i += 1;
        }
        proof {
            assert(all.take(i as int) == all);
        }
        (prefixes, suffixes)
    }
}

/// `stats_end` finds a line that closes the stats, or the count of lines, and none before
/// it closes them.
pub proof fn lemma_stats_end_bounds(lines: Seq<Seq<char>>, i: int)
    requires
        0 <= i <= lines.len(),
    ensures
        i <= stats_end(lines, i) <= lines.len(),
        stats_end(lines, i) < lines.len() ==> closes_stats(lines, stats_end(lines, i)),
        forall|j: int| i <= j < stats_end(lines, i) ==> !closes_stats(lines, j),
    decreases lines.len() - i,
{
    if i < lines.len() && !closes_stats(lines, i) {
        lemma_stats_end_bounds(lines, i + 1);
    }
}

} // verus!
