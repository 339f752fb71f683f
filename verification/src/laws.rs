//! What holds of the decoders, whatever the text.

use vstd::prelude::*;

use crate::error::{ErrorKind, ItemParseSections};
use crate::item::{
    closes_stats, decode_lines, first_filled, is_header, is_separator, lemma_stats_end_bounds,
    mods_from, next_separator, stats_end, with_front,
};
use crate::modline::{
    affix_of, affix_word, clause_text, decode_mod, group_text, header_parts, header_text,
    name_step, roll_spans, tags_of, tags_step, tier_limit, tier_step, value_span, writable,
    AffixType, HeaderParts, ModView,
};
use crate::number::{
    all_digits, bounded_number, decimal_text, digits_end, digits_value, exact_decimal,
    fits_exactly, is_digit, is_number_token, lemma_decimal_text_reads_back,
    lemma_digits_end_bounds, mantissa_limit, token_digits, token_scale,
};
use crate::text::{
    first_occurrence, join_with, lemma_first_occurrence_by_first_char, lemma_occurs_first_char,
    lemma_occurs_in_concat, lemma_occurs_one, lemma_split_of_join, occurs_at,
};

verus! {

/// Whether the `count` pairs of lines from `start` on are modifiers: each first line a
/// header, and each pair decodes.
pub open spec fn pairs_decode(lines: Seq<Seq<char>>, start: int, count: int) -> bool {
    &&& 0 <= start
    &&& 0 <= count
    &&& start + 2 * count <= lines.len()
    &&& forall|k: int|
        0 <= k < count ==> is_header(#[trigger] lines[start + 2 * k]) && decode_mod(
            lines[start + 2 * k],
            lines[start + 2 * k + 1],
        ) is Ok
}

/// The modifiers that `count` pairs of lines from `start` on decode to, in their order.
pub open spec fn pair_mods(lines: Seq<Seq<char>>, start: int, count: int) -> Seq<ModView> {
    Seq::new(
        count as nat,
        |k: int| decode_mod(lines[start + 2 * k], lines[start + 2 * k + 1])->Ok_0,
    )
}

/// Pairs that decode come first in what the lines decode to, in their order; what follows
/// them is decoded as if it stood alone.
pub proof fn lemma_pairs_come_first(lines: Seq<Seq<char>>, start: int, count: int)
    requires
        pairs_decode(lines, start, count),
    ensures
        mods_from(lines, start) == with_front(
            pair_mods(lines, start, count),
            mods_from(lines, start + 2 * count),
        ),
    decreases count,
{
    if count == 0 {
        match mods_from(lines, start) {
            Ok(rest) => {
                assert(pair_mods(lines, start, 0) + rest =~= rest);
            },
            Err(_) => {},
        }
    } else {
        assert(is_header(lines[start + 2 * 0]));
        assert forall|k: int| 0 <= k < count - 1 implies is_header(
            #[trigger] lines[start + 2 + 2 * k],
        ) && decode_mod(lines[start + 2 + 2 * k], lines[start + 2 + 2 * k + 1]) is Ok by {
            assert(is_header(lines[start + 2 * (k + 1)]));
        }
        lemma_pairs_come_first(lines, start + 2, count - 1);
        let first = decode_mod(lines[start], lines[start + 1])->Ok_0;
        match mods_from(lines, start + 2 * count) {
            Ok(rest) => {
                assert(seq![first] + (pair_mods(lines, start + 2, count - 1) + rest)
                    =~= pair_mods(lines, start, count) + rest);
            },
            Err(_) => {},
        }
    }
}

/// A modifier block of `count` header and effect pairs decodes to `count` modifiers, in
/// the order of the text.
pub proof fn lemma_mods_in_source_order(lines: Seq<Seq<char>>, start: int, count: int)
    requires
        pairs_decode(lines, start, count),
        start + 2 * count == lines.len(),
    ensures
        mods_from(lines, start) == Ok::<Seq<ModView>, (ErrorKind, int)>(
            pair_mods(lines, start, count),
        ),
        pair_mods(lines, start, count).len() == count,
{
    lemma_pairs_come_first(lines, start, count);
    assert(pair_mods(lines, start, count) + Seq::<ModView>::empty() =~= pair_mods(
        lines,
        start,
        count,
    ));
}

/// A modifier block that ends on a header, with no effect line behind it, does not
/// decode: the failure names the header.
pub proof fn lemma_missing_effect_line_fails(lines: Seq<Seq<char>>, start: int, count: int)
    requires
        pairs_decode(lines, start, count),
        start + 2 * count + 1 == lines.len(),
        is_header(lines[lines.len() - 1]),
    ensures
        mods_from(lines, start) == Err::<Seq<ModView>, (ErrorKind, int)>(
            (ErrorKind::TruncatedModBlock, lines.len() - 1),
        ),
{
    lemma_pairs_come_first(lines, start, count);
}

/// A header that names none of the four affix types decodes to no modifier, whatever its
/// effect line holds.
pub proof fn lemma_unknown_affix_is_rejected(top: Seq<char>, bottom: Seq<char>)
    requires
        header_parts(top) is Some,
        affix_of(header_parts(top)->0.word) is None,
    ensures
        decode_mod(top, bottom) == Err::<ModView, ErrorKind>(ErrorKind::UnknownAffixType),
{
}

/// A modifier block does not decode past a pair that fails: the block fails as the pair
/// does, and no modifier behind it is looked at.
pub proof fn lemma_failing_pair_fails_block(lines: Seq<Seq<char>>, start: int, count: int)
    requires
        pairs_decode(lines, start, count),
        start + 2 * count + 1 < lines.len(),
        is_header(lines[start + 2 * count]),
        decode_mod(lines[start + 2 * count], lines[start + 2 * count + 1]) is Err,
    ensures
        mods_from(lines, start) == Err::<Seq<ModView>, (ErrorKind, int)>(
            (
                decode_mod(lines[start + 2 * count], lines[start + 2 * count + 1])->Err_0,
                start + 2 * count,
            ),
        ),
{
    lemma_pairs_come_first(lines, start, count);
}

/// Where the stats of an item begin: behind the rule that closes the name.
pub open spec fn stats_start(lines: Seq<Seq<char>>) -> int {
    next_separator(lines, first_filled(lines, 0) + 2) + 1
}

/// Where the modifiers of an item begin: behind the rule that closes the stats.
pub open spec fn mods_start(lines: Seq<Seq<char>>) -> int {
    stats_end(lines, stats_start(lines)) + 1
}

/// An item is decoded only where its modifier block is: its modifiers are those of the
/// block, all of them and in their order. A block that fails leaves no item.
pub proof fn lemma_item_holds_its_block(lines: Seq<Seq<char>>)
    ensures
        match decode_lines(lines) {
            Ok(item) => mods_from(lines, mods_start(lines)) == Ok::<
                Seq<ModView>,
                (ErrorKind, int),
            >(item.mods),
            Err(_) => true,
        },
        mods_from(lines, mods_start(lines)) is Err ==> decode_lines(lines) is Err,
{
}

/// An item whose modifier block is `count` header and effect pairs has `count` modifiers,
/// those of the pairs in the order of the text, unless a section before the block fails.
pub proof fn lemma_item_mods_in_source_order(lines: Seq<Seq<char>>, count: int)
    requires
        count >= 1,
        pairs_decode(lines, mods_start(lines), count),
        mods_start(lines) + 2 * count == lines.len(),
    ensures
        match decode_lines(lines) {
            Ok(item) => item.mods == pair_mods(lines, mods_start(lines), count) && item.mods.len()
                == count,
            Err(e) => e.section != ItemParseSections::ItemMods,
        },
{
    lemma_mods_in_source_order(lines, mods_start(lines), count);
}

/// An item whose modifier block ends on a header, with no effect line behind it, does not
/// decode.
pub proof fn lemma_item_with_missing_effect_line_fails(lines: Seq<Seq<char>>, count: int)
    requires
        pairs_decode(lines, mods_start(lines), count),
        mods_start(lines) + 2 * count + 1 == lines.len(),
        is_header(lines[lines.len() - 1]),
    ensures
        decode_lines(lines) is Err,
{
    lemma_missing_effect_line_fails(lines, mods_start(lines), count);
}

/// An item with a modifier whose header names none of the four affix types does not
/// decode: the modifier is not left out.
pub proof fn lemma_item_with_unknown_affix_fails(lines: Seq<Seq<char>>, count: int)
    requires
        pairs_decode(lines, mods_start(lines), count),
        mods_start(lines) + 2 * count + 1 < lines.len(),
        is_header(lines[mods_start(lines) + 2 * count]),
        header_parts(lines[mods_start(lines) + 2 * count]) is Some,
        affix_of(header_parts(lines[mods_start(lines) + 2 * count])->0.word) is None,
    ensures
        decode_lines(lines) is Err,
{
    let at = mods_start(lines) + 2 * count;
    lemma_unknown_affix_is_rejected(lines[at], lines[at + 1]);
    lemma_failing_pair_fails_block(lines, mods_start(lines), count);
}

/// A rule within the stats that neither a modifier header nor the end of the text follows
/// does not close the stats.
pub proof fn lemma_inner_rule_stays_in_stats(lines: Seq<Seq<char>>, from: int, j: int)
    requires
        0 <= from <= j,
        j + 1 < lines.len(),
        is_separator(lines[j]),
        !is_header(lines[j + 1]),
    ensures
        stats_end(lines, from) != j,
        !closes_stats(lines, j),
{
    lemma_stats_end_bounds(lines, from);
}

/// The modifiers of an item do not begin behind a rule of the stats that neither a
/// modifier header nor the end of the text follows: the stats go on past it.
pub proof fn lemma_item_stats_pass_inner_rule(lines: Seq<Seq<char>>, j: int)
    requires
        stats_start(lines) <= j,
        j + 1 < lines.len(),
        is_separator(lines[j]),
        !is_header(lines[j + 1]),
    ensures
        mods_start(lines) != j + 1,
{
    lemma_first_filled_bounds(lines, 0);
    lemma_next_separator_bounds(lines, first_filled(lines, 0) + 2);
    lemma_inner_rule_stays_in_stats(lines, stats_start(lines), j);
}

/// The first line that is not empty lies at or behind where the search begins.
pub proof fn lemma_first_filled_bounds(lines: Seq<Seq<char>>, i: int)
    requires
        0 <= i,
    ensures
        i <= first_filled(lines, i),
    decreases lines.len() - i,
{
    if i < lines.len() && lines[i].len() == 0 {
        lemma_first_filled_bounds(lines, i + 1);
    }
}

/// The first rule lies at or behind where the search begins.
pub proof fn lemma_next_separator_bounds(lines: Seq<Seq<char>>, i: int)
    requires
        0 <= i,
    ensures
        i <= next_separator(lines, i),
    decreases lines.len() - i,
{
    if i < lines.len() && !is_separator(lines[i]) {
        lemma_next_separator_bounds(lines, i + 1);
    }
}

/// The stats end at the first rule that a modifier header follows, where no rule before
/// it is the last line.
pub proof fn lemma_stats_end_at_first_header_rule(lines: Seq<Seq<char>>, from: int, j: int)
    requires
        0 <= from <= j,
        j + 1 < lines.len(),
        is_separator(lines[j]),
        is_header(lines[j + 1]),
        forall|i: int| from <= i < j && is_separator(lines[i]) ==> !is_header(#[trigger] lines[i + 1]),
    ensures
        stats_end(lines, from) == j,
    decreases j - from,
{
    if from < j {
        assert(!closes_stats(lines, from)) by {
            if is_separator(lines[from]) {
                assert(!is_header(lines[from + 1]));
            }
        }
        lemma_stats_end_at_first_header_rule(lines, from + 1, j);
    }
}

/// A value and the bounds of a roll range keep the digits that the text gives them: where
/// a number fits a decimal digit for digit, the decimal's mantissa is the integer that
/// the digits spell, the point left out, and its scale is the count of digits behind the
/// point.
pub proof fn lemma_numbers_keep_their_digits(top: Seq<char>, bottom: Seq<char>)
    requires
        decode_mod(top, bottom) is Ok,
    ensures
        match value_span(bottom) {
            Some((a, e)) => fits_exactly(bottom.subrange(a, e)) ==> decode_mod(
                top,
                bottom,
            )->Ok_0.value == Some(exact_decimal(bottom.subrange(a, e))),
            None => decode_mod(top, bottom)->Ok_0.value is None,
        },
        match roll_spans(bottom) {
            Some(((a1, e1), (a2, e2))) => fits_exactly(bottom.subrange(a1, e1)) && fits_exactly(
                bottom.subrange(a2, e2),
            ) ==> decode_mod(top, bottom)->Ok_0.roll_range == Some(
                (exact_decimal(bottom.subrange(a1, e1)), exact_decimal(bottom.subrange(a2, e2))),
            ),
            None => decode_mod(top, bottom)->Ok_0.roll_range is None,
        },
{
}

/// The word of an affix type is not empty, holds no space, and names the type.
pub proof fn lemma_affix_word(affix: AffixType)
    ensures
        affix_word(affix).len() > 0,
        forall|i: int| 0 <= i < affix_word(affix).len() ==> #[trigger] affix_word(affix)[i] != ' ',
        affix_of(affix_word(affix)) == Some(affix),
{
    reveal_strlit("Prefix");
    reveal_strlit("Suffix");
    reveal_strlit("Implicit");
    reveal_strlit("Unique");
    assert("Prefix"@[0] == 'P' && "Suffix"@[0] == 'S' && "Unique"@[0] == 'U' && "Implicit"@[0]
        == 'I');
    let w = affix_word(affix);
    assert forall|i: int| 0 <= i < w.len() implies #[trigger] w[i] != ' ' by {
        if i == 0 {
        } else if i == 1 {
        } else if i == 2 {
        } else if i == 3 {
        } else if i == 4 {
        } else if i == 5 {
        } else if i == 6 {
        } else {
            assert(i == 7);
        }
    }
}

/// A line that begins as a header does is read up to its word.
pub proof fn lemma_head_is_read(word: Seq<char>, rest: Seq<char>)
    requires
        word.len() > 0,
        forall|i: int| 0 <= i < word.len() ==> #[trigger] word[i] != ' ',
    ensures
        ({
            let line = "{ "@ + word + " Modifier "@ + rest;
            &&& occurs_at(line, 0, "{ "@)
            &&& first_occurrence(line, " "@, "{ "@.len() as int) == Some(2 + word.len() as int)
            &&& occurs_at(line, 2 + word.len() as int, " Modifier "@)
            &&& line.subrange(2, 2 + word.len() as int) == word
        }),
{
    reveal_strlit("{ ");
    reveal_strlit(" ");
    reveal_strlit(" Modifier ");
    let open = "{ "@;
    let line = open + word + " Modifier "@ + rest;
    let w = 2 + word.len() as int;
    assert(line.subrange(0, 2) =~= open);
    lemma_occurs_in_concat(open + word, " Modifier "@, rest);
    assert(line[w] == " Modifier "@[0]);
    lemma_occurs_one(line, w, " "@);
    assert forall|j: int| 2 <= j < w implies #[trigger] line[j] != " "@[0] by {
        assert(line[j] == word[j - 2]);
    }
    lemma_first_occurrence_by_first_char(line, " "@, 2, w);
    assert(line.subrange(2, w) =~= word);
}

/// A quoted name is read where it stands.
pub proof fn lemma_name_is_read(pre: Seq<char>, name: Seq<char>, rest: Seq<char>)
    requires
        name.len() > 0,
        forall|i: int| 0 <= i < name.len() ==> #[trigger] name[i] != '"',
    ensures
        name_step(pre + "\""@ + name + "\" "@ + rest, pre.len() as int) == Some(
            (Some(name), pre.len() as int + name.len() + 3),
        ),
{
    reveal_strlit("\"");
    reveal_strlit("\" ");
    reveal_strlit(" ");
    let quote = "\""@;
    let line = pre + quote + name + "\" "@ + rest;
    let p = pre.len() as int;
    let q = p + 1 + name.len();
    assert(line[p] == quote[0]);
    lemma_occurs_one(line, p, quote);
    assert(line[q] == "\" "@[0]);
    lemma_occurs_one(line, q, quote);
    assert forall|j: int| p + 1 <= j < q implies #[trigger] line[j] != quote[0] by {
        assert(line[j] == name[j - p - 1]);
    }
    lemma_first_occurrence_by_first_char(line, quote, p + 1, q);
    assert(line[q + 1] == "\" "@[1]);
    lemma_occurs_one(line, q + 1, " "@);
    assert(line.subrange(p + 1, q) =~= name);
}

/// Where no quote stands, no name is read.
pub proof fn lemma_no_name_is_read(pre: Seq<char>, rest: Seq<char>)
    requires
        rest.len() > 0,
        rest[0] != '"',
    ensures
        name_step(pre + rest, pre.len() as int) == Some((None::<Seq<char>>, pre.len() as int)),
{
    reveal_strlit("\"");
    let line = pre + rest;
    if occurs_at(line, pre.len() as int, "\""@) {
        lemma_occurs_first_char(line, pre.len() as int, "\""@);
        assert(line[pre.len() as int] == rest[0]);
    }
}

/// A tier is read where it stands.
pub proof fn lemma_tier_is_read(pre: Seq<char>, digits: Seq<char>, rest: Seq<char>)
    requires
        all_digits(digits),
    ensures
        tier_step(pre + "(Tier: "@ + digits + ") "@ + rest, pre.len() as int) == Some(
            (Some(digits), pre.len() as int + digits.len() + 9),
        ),
{
    reveal_strlit("(Tier: ");
    reveal_strlit(") ");
    reveal_strlit(")");
    reveal_strlit(" ");
    let open = "(Tier: "@;
    let line = pre + open + digits + ") "@ + rest;
    let p = pre.len() as int;
    let r = p + 7 + digits.len();
    assert(line =~= pre + open + (digits + ") "@ + rest));
    lemma_occurs_in_concat(pre, open, digits + ") "@ + rest);
    assert(line[r] == ") "@[0]);
    lemma_occurs_one(line, r, ")"@);
    assert forall|j: int| p + 7 <= j < r implies #[trigger] line[j] != ")"@[0] by {
        assert(line[j] == digits[j - p - 7]);
        assert(is_digit(digits[j - p - 7]));
    }
    lemma_first_occurrence_by_first_char(line, ")"@, p + 7, r);
    assert(line[r + 1] == ") "@[1]);
    lemma_occurs_one(line, r + 1, " "@);
    assert(line.subrange(p + 7, r) =~= digits);
}

/// Where no tier stands, none is read.
pub proof fn lemma_no_tier_is_read(pre: Seq<char>, rest: Seq<char>)
    requires
        rest.len() > 0,
        rest[0] != '(',
    ensures
        tier_step(pre + rest, pre.len() as int) == Some((None::<Seq<char>>, pre.len() as int)),
{
    reveal_strlit("(Tier: ");
    let line = pre + rest;
    if occurs_at(line, pre.len() as int, "(Tier: "@) {
        lemma_occurs_first_char(line, pre.len() as int, "(Tier: "@);
        assert(line[pre.len() as int] == rest[0]);
    }
}

/// A tag clause is read up to the closing brace.
pub proof fn lemma_clause_is_read(pre: Seq<char>, text: Seq<char>)
    ensures
        tags_step(pre + ("— "@ + text + " "@) + "}"@, pre.len() as int) == Some(Some(text)),
{
    reveal_strlit("— ");
    reveal_strlit(" ");
    reveal_strlit(" }");
    reveal_strlit("}");
    let dash = "— "@;
    let line = pre + (dash + text + " "@) + "}"@;
    let p = pre.len() as int;
    assert(line =~= pre + dash + (text + " "@ + "}"@));
    lemma_occurs_in_concat(pre, dash, text + " "@ + "}"@);
    assert(line.subrange(line.len() - 2, line.len() as int) =~= " }"@);
    assert(line.subrange(p + 2, line.len() - 2) =~= text);
}

/// Where the closing brace stands alone, no tag clause is read.
pub proof fn lemma_no_clause_is_read(pre: Seq<char>)
    ensures
        tags_step(pre + "}"@, pre.len() as int) == Some(None::<Seq<char>>),
{
    reveal_strlit("— ");
    reveal_strlit("}");
    let line = pre + "}"@;
    let p = pre.len() as int;
    if occurs_at(line, p, "— "@) {
        lemma_occurs_first_char(line, p, "— "@);
    }
    assert(line[p] == "}"@[0]);
    lemma_occurs_one(line, p, "}"@);
}

/// The pieces that a written header is read back as: the word of its affix type, its
/// name and its tier in digits where it has them, the tags joined where it has any.
pub open spec fn written_parts(
    affix: AffixType,
    name_tier: Option<(Seq<char>, nat)>,
    tags: Seq<Seq<char>>,
) -> HeaderParts {
    HeaderParts {
        word: affix_word(affix),
        name: match name_tier {
            Some((name, _)) => Some(name),
            None => None,
        },
        tier: match name_tier {
            Some((_, tier)) => Some(decimal_text(tier)),
            None => None,
        },
        tags: if tags.len() > 0 {
            Some(join_with(tags, ", "@))
        } else {
            None
        },
    }
}

/// A written header is cut into the pieces it was written from.
pub proof fn lemma_written_header_is_cut(
    affix: AffixType,
    name_tier: Option<(Seq<char>, nat)>,
    tags: Seq<Seq<char>>,
)
    requires
        writable(name_tier, tags),
    ensures
        header_parts(header_text(affix, name_tier, tags)) == Some(
            written_parts(affix, name_tier, tags),
        ),
{
    reveal_strlit("— ");
    reveal_strlit("}");
    reveal_strlit("\"");
    reveal_strlit("(Tier: ");
    reveal_strlit("{ ");
    reveal_strlit(" Modifier ");
    reveal_strlit("\" ");
    reveal_strlit(") ");
    let word = affix_word(affix);
    let group = group_text(name_tier);
    let clause = clause_text(tags);
    let close = "}"@;
    let line = header_text(affix, name_tier, tags);
    let head = "{ "@ + word + " Modifier "@;
    lemma_affix_word(affix);
    assert(line =~= "{ "@ + word + " Modifier "@ + (group + clause + close));
    lemma_head_is_read(word, group + clause + close);
    let p = head.len() as int;
    assert(p == 2 + word.len() + 10);
    // What stands behind the name and tier group begins with a dash or with the brace.
    let tail = clause + close;
    assert(tail.len() > 0 && tail[0] != '"' && tail[0] != '(') by {
        if tags.len() > 0 {
            assert(tail[0] == "— "@[0]);
        } else {
            assert(tail =~= close);
        }
    }
    let q = (p + group.len()) as int;
    match name_tier {
        Some((name, tier)) => {
            let digits = decimal_text(tier);
            lemma_decimal_text_reads_back(tier);
            let behind_name = "(Tier: "@ + digits + ") "@ + tail;
            assert(line =~= head + "\""@ + name + "\" "@ + behind_name);
            lemma_name_is_read(head, name, behind_name);
            let named = head + "\""@ + name + "\" "@;
            assert(line =~= named + "(Tier: "@ + digits + ") "@ + tail);
            lemma_tier_is_read(named, digits, tail);
            assert(named.len() == p + name.len() + 3);
            assert(q == named.len() + digits.len() + 9);
        },
        None => {
            assert(group =~= Seq::<char>::empty());
            assert(line =~= head + tail);
            lemma_no_name_is_read(head, tail);
            lemma_no_tier_is_read(head, tail);
        },
    }
    let before = head + group;
    assert(before.len() == q);
    if tags.len() > 0 {
        let text = join_with(tags, ", "@);
        assert(line =~= before + ("— "@ + text + " "@) + close);
        lemma_clause_is_read(before, text);
    } else {
        assert(line =~= before + close);
        lemma_no_clause_is_read(before);
    }
}

/// A written header is read back as it was written: the same affix type, the same name
/// and tier, the same tags in the same order. Where the two lines do not decode, a number
/// of the effect line is at fault.
pub proof fn lemma_header_round_trip(
    affix: AffixType,
    name_tier: Option<(Seq<char>, nat)>,
    tags: Seq<Seq<char>>,
    bottom: Seq<char>,
)
    requires
        writable(name_tier, tags),
    ensures
        match decode_mod(header_text(affix, name_tier, tags), bottom) {
            Ok(m) => {
                &&& m.affix_type == affix
                &&& m.name_tier == match name_tier {
                    Some((name, tier)) => Some((name, tier as int)),
                    None => None,
                }
                &&& m.tags == tags
            },
            Err(kind) => kind == ErrorKind::MalformedNumber,
        },
{
    lemma_written_header_is_cut(affix, name_tier, tags);
    lemma_affix_word(affix);
    match name_tier {
        Some((name, tier)) => {
            lemma_decimal_text_reads_back(tier);
            assert(bounded_number(decimal_text(tier), tier_limit()) == Some(tier as int));
        },
        None => {},
    }
    if tags.len() > 0 {
        lemma_split_of_join(tags);
    } else {
        assert(tags =~= Seq::<Seq<char>>::empty());
    }
    let h = written_parts(affix, name_tier, tags);
    assert(tags_of(h.tags) == tags);
}

/// Ten to the power `n`.
pub open spec fn power_of_ten(n: nat) -> nat
    decreases n,
{
    if n == 0 {
        1
    } else {
        10 * power_of_ten((n - 1) as nat)
    }
}

/// Digits spell a number below ten to the power of their count.
pub proof fn lemma_digits_value_is_bounded(s: Seq<char>)
    requires
        all_digits(s),
    ensures
        0 <= digits_value(s) < power_of_ten(s.len()),
    decreases s.len(),
{
    if s.len() > 0 {
        lemma_digits_value_is_bounded(s.drop_last());
        assert(is_digit(s[s.len() - 1]));
    }
}

/// A larger power of ten is no smaller.
pub proof fn lemma_power_of_ten_grows(n: nat, m: nat)
    requires
        n <= m,
    ensures
        power_of_ten(n) <= power_of_ten(m),
    decreases m,
{
    if n < m {
        lemma_power_of_ten_grows(n, (m - 1) as nat);
    }
}

/// Ten to the power 28 is below the limit of a mantissa.
pub proof fn lemma_ten_to_the_28()
    ensures
        power_of_ten(28) < mantissa_limit(),
{
    assert(power_of_ten(7) == 10_000_000) by {
        reveal_with_fuel(power_of_ten, 8);
    }
    assert(power_of_ten(14) == 100_000_000_000_000) by {
        lemma_power_of_ten_adds(7, 7);
    }
    assert(power_of_ten(28) == 10_000_000_000_000_000_000_000_000_000) by {
        lemma_power_of_ten_adds(14, 14);
    }
}

/// The powers of ten multiply as their exponents add.
pub proof fn lemma_power_of_ten_adds(n: nat, m: nat)
    ensures
        power_of_ten(n + m) == power_of_ten(n) * power_of_ten(m),
    decreases m,
{
    if m == 0 {
        assert(power_of_ten(n) * 1 == power_of_ten(n));
    } else {
        lemma_power_of_ten_adds(n, (m - 1) as nat);
        assert(power_of_ten(n + m) == 10 * power_of_ten((n + m - 1) as nat));
        assert(10 * (power_of_ten(n) * power_of_ten((m - 1) as nat)) == power_of_ten(n) * (10
            * power_of_ten((m - 1) as nat))) by (nonlinear_arith);
    }
}

/// The digits of a number token are digits, and no more than its characters.
pub proof fn lemma_token_digits(token: Seq<char>)
    requires
        is_number_token(token),
    ensures
        all_digits(token_digits(token)),
        token_digits(token).len() <= token.len(),
        0 <= token_scale(token) < token.len(),
{
    let p = digits_end(token, 0);
    let digits = token_digits(token);
    lemma_digits_end_bounds(token, 0);
    if p < token.len() {
        lemma_digits_end_bounds(token, p + 1);
        assert forall|i: int| 0 <= i < digits.len() implies is_digit(#[trigger] digits[i]) by {
            if i < p {
                assert(digits[i] == token[i]);
            } else {
                assert(digits[i] == token[i + 1]);
            }
        }
    }
}

/// A number of 28 characters at most is kept digit for digit.
pub proof fn lemma_short_numbers_fit(token: Seq<char>)
    requires
        is_number_token(token),
        token.len() <= 28,
    ensures
        fits_exactly(token),
{
    let digits = token_digits(token);
    lemma_token_digits(token);
    lemma_digits_value_is_bounded(digits);
    lemma_power_of_ten_grows(digits.len(), 28);
    lemma_ten_to_the_28();
}

} // verus!
