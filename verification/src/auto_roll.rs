//! Rolling an item until it shows one of the modifiers that are looked for.
//!
//! The caller applies the currency and copies the item's text; this module reads the text
//! and says what to do next.

use vstd::prelude::*;
use vstd::string::*;

use crate::text::{
    contains, ends_with, holds, lines_as_they_stand, occurs_at, raw_lines, slices_of, starts_with,
};

verus! {

/// A modifier to look for: a part of its text in lower case, and whether it is a prefix.
#[derive(Debug, Clone)]
pub struct AutoRollMod {
    pub name: String,
    pub is_prefix: bool,
}

/// What to roll for: the base name of the item, the modifiers of which one is enough,
/// and whether to go on with an augmentation and a regal once one is there.
#[derive(Debug, Clone)]
pub struct AutoRollConfig {
    pub item_name: String,
    pub mods: Vec<AutoRollMod>,
    pub auto_aug_regal: bool,
}

/// What a roll left on the item.
#[derive(Clone, Copy, Debug, PartialEq, Eq, Structural)]
pub struct RollResult {
    pub has_prefix: bool,
    pub has_suffix: bool,
    pub has_mod: bool,
}

/// What was done to the item last.
#[derive(Clone, Copy, Debug, PartialEq, Eq, Structural)]
pub enum RollStep {
    /// An alteration was applied.
    Altered,
    /// An augmentation and a regal were applied.
    Regaled,
}

/// What to do next.
#[derive(Clone, Copy, Debug, PartialEq, Eq, Structural)]
pub enum RollAction {
    /// Apply an augmentation and a regal, and read the item again.
    AugmentAndRegal,
    /// Stop, with what the last roll left on the item.
    Done(RollResult),
}

/// Whether one of the modifiers looked for is a prefix.
pub open spec fn wants_prefix(mods: Seq<AutoRollMod>) -> bool {
    exists|i: int| 0 <= i < mods.len() && (#[trigger] mods[i]).is_prefix
}

/// Whether one of the modifiers looked for is a suffix.
pub open spec fn wants_suffix(mods: Seq<AutoRollMod>) -> bool {
    exists|i: int| 0 <= i < mods.len() && !(#[trigger] mods[i]).is_prefix
}

/// Whether the text of one of the modifiers looked for stands in `lowered`.
pub open spec fn shows_mod(mods: Seq<AutoRollMod>, lowered: Seq<char>) -> bool {
    exists|i: int| 0 <= i < mods.len() && holds(lowered, (#[trigger] mods[i]).name@)
}

/// The first line from `from` on in which `name` stands.
pub open spec fn line_with(lines: Seq<Seq<char>>, name: Seq<char>, from: int) -> Option<int>
    decreases lines.len() - from,
{
    if from < 0 || from >= lines.len() {
        None
    } else if holds(lines[from], name) {
        Some(from)
    } else {
        line_with(lines, name, from + 1)
    }
}

/// What a roll left on an item, read off its text and off the same text in lower case.
///
/// The first line in which the item's base name stands is its name line: a magic item has
/// a prefix where the line does not begin with the base name and a suffix where it does
/// not end with it. One of the modifiers looked for is there where its text stands in the
/// lowered text. Nothing where no line holds the base name.
pub open spec fn roll_of(
    item_text: Seq<char>,
    lowered: Seq<char>,
    item_name: Seq<char>,
    mods: Seq<AutoRollMod>,
) -> Option<RollResult> {
    let lines = raw_lines(item_text);
    match line_with(lines, item_name, 0) {
        Some(i) => Some(
            RollResult {
                has_prefix: !occurs_at(lines[i], 0, item_name),
                has_suffix: !occurs_at(lines[i], lines[i].len() - item_name.len(), item_name),
                has_mod: shows_mod(mods, lowered),
            },
        ),
        None => None,
    }
}

/// What to do after step `step`, given what the roll left on the item.
pub open spec fn next_action(step: RollStep, auto_aug_regal: bool, result: RollResult) -> RollAction {
    match step {
        RollStep::Altered => if result.has_mod && auto_aug_regal {
            RollAction::AugmentAndRegal
        } else {
            RollAction::Done(result)
        },
        RollStep::Regaled => RollAction::Done(result),
    }
}

/// What `str::to_lowercase` makes of a text.
pub uninterp spec fn lowercase_of(text: Seq<char>) -> Seq<char>;

/// The text in lower case, by `str::to_lowercase`.
///
/// Trusted: the result depends on the text alone. Which characters change, and into what,
/// is Unicode's rule and is not stated here.
#[verifier::external_body]
fn to_lowercase(text: &str) -> (r: String)
    ensures
        r@ == lowercase_of(text@),
{
    text.to_lowercase()
}

impl AutoRollConfig {
    /// Whether one of the modifiers looked for is a prefix.
    pub fn needs_prefix(&self) -> (r: bool)
        ensures
            r == wants_prefix(self.mods@),
    {
        let mut i: usize = 0;
        while i < self.mods.len()
            invariant
                i <= self.mods.len(),
                forall|j: int| 0 <= j < i ==> !(#[trigger] self.mods@[j]).is_prefix,
            decreases self.mods.len() - i,
        {
            if self.mods[i].is_prefix {
                return true;
            }
            i += 1;
        }
        false
    }

    /// Whether one of the modifiers looked for is a suffix.
    pub fn needs_suffix(&self) -> (r: bool)
        ensures
            r == wants_suffix(self.mods@),
    {
        let mut i: usize = 0;
        while i < self.mods.len()
            invariant
                i <= self.mods.len(),
                forall|j: int| 0 <= j < i ==> (#[trigger] self.mods@[j]).is_prefix,
            decreases self.mods.len() - i,
        {
            if !self.mods[i].is_prefix {
                return true;
            }
            i += 1;
        }
        false
    }

    /// Whether the text of one of the modifiers looked for stands in `lowered`.
    pub fn has_mod_in(&self, lowered: &str) -> (r: bool)
        ensures
            r == shows_mod(self.mods@, lowered@),
    {
        let mut i: usize = 0;
        while i < self.mods.len()
            invariant
                i <= self.mods.len(),
                forall|j: int|
                    0 <= j < i ==> !holds(lowered@, (#[trigger] self.mods@[j]).name@),
            decreases self.mods.len() - i,
        {
            if contains(lowered, self.mods[i].name.as_str()) {
                return true;
            }
            i += 1;
        }
        false
    }
}

/// What a roll left on an item, read off its text and off the same text in lower case.
pub fn read_roll(item_text: &str, lowered: &str, config: &AutoRollConfig) -> (r: Option<
    RollResult,
>)
    ensures
        r == roll_of(item_text@, lowered@, config.item_name@, config.mods@),
{
    let lines = lines_as_they_stand(item_text);
    let name = config.item_name.as_str();
    let ghost all = slices_of(lines@);
    let mut i: usize = 0;
    while i < lines.len()
        invariant
            i <= lines.len(),
            all == slices_of(lines@),
            all == raw_lines(item_text@),
            name@ == config.item_name@,
            line_with(all, name@, 0) == line_with(all, name@, i as int),
        decreases lines.len() - i,
    {
        assert(all[i as int] == lines@[i as int]@);
        if contains(lines[i], name) {
            return Some(
                RollResult {
                    has_prefix: !starts_with(lines[i], name),
                    has_suffix: !ends_with(lines[i], name),
                    has_mod: config.has_mod_in(lowered),
                },
            );
        }
        i += 1;
    }
    None
}

/// What a roll left on an item, read off its text.
pub fn check_roll(item_text: &str, config: &AutoRollConfig) -> (r: Option<RollResult>)
    ensures
        r == roll_of(item_text@, lowercase_of(item_text@), config.item_name@, config.mods@),
{
    let lowered = to_lowercase(item_text);
    read_roll(item_text, lowered.as_str(), config)
}

/// What to do after step `step`, given what the roll left on the item.
pub fn decide(step: RollStep, auto_aug_regal: bool, result: RollResult) -> (r: RollAction)
    ensures
        r == next_action(step, auto_aug_regal, result),
{
    match step {
        RollStep::Altered => {
            if result.has_mod && auto_aug_regal {
                RollAction::AugmentAndRegal
            } else {
                RollAction::Done(result)
            }
        },
        RollStep::Regaled => RollAction::Done(result),
    }
}

/// What to do after step `step`, given the text of the item as it is now. Nothing where
/// no line of the text holds the item's base name.
pub fn auto_roll(config: &AutoRollConfig, step: RollStep, item_text: &str) -> (r: Option<
    RollAction,
>)
    ensures
        r == match roll_of(
            item_text@,
            lowercase_of(item_text@),
            config.item_name@,
            config.mods@,
        ) {
            Some(result) => Some(next_action(step, config.auto_aug_regal, result)),
            None => None,
        },
{
    match check_roll(item_text, config) {
        Some(result) => Some(decide(step, config.auto_aug_regal, result)),
        None => None,
    }
}

} // verus!
