//! The chaos recipe: one item for each equipment slot, picked out of a stash tab.
//!
//! Fetching the tab and clicking are left to the caller. This module sorts the items of
//! a tab into categories, counts them, fills the slots of a set, and says where in the
//! tab's grid each picked item is to be clicked.

use vstd::prelude::*;
use vstd::string::*;

use crate::number::{decimal_text, number_text};
use crate::quad::{known_height, left_edge, row_line, row_line_of, CELLS};
use crate::text::{contains, holds, same_text};

verus! {

/// Which stash tab to take the recipe from, and as whom.
#[derive(Debug, Clone)]
pub struct ChaosRecipe {
    pub session_id: String,
    pub account_name: String,
    pub league: String,
    pub tab_name: String,
    pub tab_index: Option<usize>,
}

/// A stash tab as the listing names it: its name `n` and its index `i`.
#[derive(Debug, Clone)]
pub struct StashTab {
    pub n: String,
    pub i: usize,
    pub id: String,
}

/// A property of a stash item; only its name is looked at.
#[derive(Debug, Clone)]
pub struct Property {
    pub name: Option<String>,
}

/// An item in a stash tab: where it lies in the grid, how large it is, what it is.
#[derive(Debug, Clone)]
pub struct StashItem {
    pub x: usize,
    pub y: usize,
    pub identified: bool,
    pub base_type: String,
    pub ilvl: usize,
    pub name: String,
    pub type_line: String,
    pub w: usize,
    pub h: usize,
    pub properties: Option<Vec<Property>>,
    /// Whether a set has taken the item already.
    pub used: bool,
}

/// The equipment slot that an item goes to.
#[derive(Debug, Clone, Copy, PartialEq, Eq, Structural)]
pub enum ItemType {
    Weapon,
    Ring,
    Amulet,
    Belt,
    Gloves,
    Boots,
    Helmet,
    Body,
    Unknown,
}

/// How many items of each category a tab holds.
#[derive(Debug, Clone, Copy, PartialEq, Eq, Structural)]
pub struct ItemCount {
    pub weapon: usize,
    pub ring: usize,
    pub amulet: usize,
    pub belt: usize,
    pub gloves: usize,
    pub boots: usize,
    pub helmet: usize,
    pub body: usize,
    pub other: usize,
}

/// The base types that make an item a pair of boots, a helmet, a pair of gloves or a body
/// armour.
#[derive(Debug, Clone)]
pub struct BaseTypes {
    pub boots: Vec<String>,
    pub helmets: Vec<String>,
    pub gloves: Vec<String>,
    pub body: Vec<String>,
}

/// Whether `base` is one of `items`.
pub open spec fn listed(items: Seq<String>, base: Seq<char>) -> bool {
    exists|i: int| 0 <= i < items.len() && (#[trigger] items[i])@ == base
}

/// Whether a property says how fast its item attacks.
pub open spec fn is_attack_speed(p: Property) -> bool {
    match p.name {
        Some(name) => name@ == "Attacks per Second"@,
        None => false,
    }
}

/// Whether an item is a weapon: one of its properties says how fast it attacks.
pub open spec fn weapon(item: StashItem) -> bool {
    match item.properties {
        Some(props) => exists|i: int| 0 <= i < props@.len() && is_attack_speed(#[trigger] props@[i]),
        None => false,
    }
}

/// The category of an item. The tests come in this order: weapon, boots, helmet, gloves,
/// body armour by the lists of base types; then ring, belt and amulet by the name of the
/// base type.
pub open spec fn category(item: StashItem, dicts: BaseTypes) -> ItemType {
    let base = item.base_type@;
    if weapon(item) {
        ItemType::Weapon
    } else if listed(dicts.boots@, base) {
        ItemType::Boots
    } else if listed(dicts.helmets@, base) {
        ItemType::Helmet
    } else if listed(dicts.gloves@, base) {
        ItemType::Gloves
    } else if listed(dicts.body@, base) {
        ItemType::Body
    } else if holds(base, "Ring"@) {
        ItemType::Ring
    } else if holds(base, "Belt"@) || base == "Rustic Sash"@ {
        ItemType::Belt
    } else if holds(base, "Amulet"@) {
        ItemType::Amulet
    } else {
        ItemType::Unknown
    }
}

/// How many of the items are of category `ty`.
pub open spec fn count_of(items: Seq<StashItem>, dicts: BaseTypes, ty: ItemType) -> nat
    decreases items.len(),
{
    if items.len() == 0 {
        0
    } else {
        count_of(items.drop_last(), dicts, ty) + if category(items.last(), dicts) == ty {
            1nat
        } else {
            0nat
        }
    }
}

/// No more items are of a category than there are items.
pub proof fn lemma_count_of_bound(items: Seq<StashItem>, dicts: BaseTypes, ty: ItemType)
    ensures
        count_of(items, dicts, ty) <= items.len(),
    decreases items.len(),
{
    if items.len() > 0 {
        lemma_count_of_bound(items.drop_last(), dicts, ty);
    }
}

/// Whether `base` is one of `items`.
pub fn check_help(items: &Vec<String>, base: &str) -> (r: bool)
    ensures
        r == listed(items@, base@),
{
    let mut i: usize = 0;
    while i < items.len()
        invariant
            i <= items.len(),
            forall|j: int| 0 <= j < i ==> (#[trigger] items@[j])@ != base@,
        decreases items.len() - i,
    {
        if same_text(items[i].as_str(), base) {
            return true;
        }
        i += 1;
    }
    false
}

/// Whether one of the properties says how fast its item attacks.
pub fn any_attack_speed(props: &Vec<Property>) -> (r: bool)
    ensures
        r == exists|i: int| 0 <= i < props@.len() && is_attack_speed(#[trigger] props@[i]),
{
    let mut i: usize = 0;
    while i < props.len()
        invariant
            i <= props.len(),
            forall|j: int| 0 <= j < i ==> !is_attack_speed(#[trigger] props@[j]),
        decreases props.len() - i,
    {
        let hasaps = match &props[i].name {
            Some(name) => same_text(name.as_str(), "Attacks per Second"),
            None => false,
        };
        if hasaps {
            assert(is_attack_speed(props@[i as int]));
            return true;
        }
        i += 1;
    }
    false
}

impl StashItem {
    /// Whether the item is a weapon.
    pub fn is_weapon(&self) -> (r: bool)
        ensures
            r == weapon(*self),
    {
        match &self.properties {
            Some(props) => any_attack_speed(props),
            None => false,
        }
    }

    /// The category of the item.
    pub fn get_category(&self, dicts: &BaseTypes) -> (r: ItemType)
        ensures
            r == category(*self, *dicts),
    {
        let base = self.base_type.as_str();
        if self.is_weapon() {
            return ItemType::Weapon;
        }
        if check_help(&dicts.boots, base) {
            return ItemType::Boots;
        }
        if check_help(&dicts.helmets, base) {
            return ItemType::Helmet;
        }
        if check_help(&dicts.gloves, base) {
            return ItemType::Gloves;
        }
        if check_help(&dicts.body, base) {
            return ItemType::Body;
        }
        if contains(base, "Ring") {
            return ItemType::Ring;
        }
        if contains(base, "Belt") || same_text(base, "Rustic Sash") {
            return ItemType::Belt;
        }
        if contains(base, "Amulet") {
            return ItemType::Amulet;
        }
        ItemType::Unknown
    }
}

/// The items of one set, each by its index in the tab: two weapons, two rings, and one
/// item for each other slot.
#[derive(Debug, Clone, Copy, PartialEq, Eq, Structural)]
pub struct ItemList {
    pub weapon1: Option<usize>,
    pub weapon2: Option<usize>,
    pub ring1: Option<usize>,
    pub ring2: Option<usize>,
    pub amulet: Option<usize>,
    pub belt: Option<usize>,
    pub gloves: Option<usize>,
    pub boots: Option<usize>,
    pub helmet: Option<usize>,
    pub body: Option<usize>,
}

/// The set with no item in it.
pub open spec fn empty_list() -> ItemList {
    ItemList {
        weapon1: None,
        weapon2: None,
        ring1: None,
        ring2: None,
        amulet: None,
        belt: None,
        gloves: None,
        boots: None,
        helmet: None,
        body: None,
    }
}

impl Default for ItemList {
    fn default() -> (r: ItemList)
        ensures
            r == empty_list(),
    {
        ItemList {
            weapon1: None,
            weapon2: None,
            ring1: None,
            ring2: None,
            amulet: None,
            belt: None,
            gloves: None,
            boots: None,
            helmet: None,
            body: None,
        }
    }
}

/// The slots of a set in the order in which they are taken out of the tab.
pub open spec fn slots(list: ItemList) -> Seq<Option<usize>> {
    seq![
        list.body,
        list.helmet,
        list.boots,
        list.gloves,
        list.belt,
        list.weapon1,
        list.weapon2,
        list.ring1,
        list.ring2,
        list.amulet,
    ]
}

/// Whether every item of the set is one of the first `n` of the tab.
pub open spec fn within(list: ItemList, n: int) -> bool {
    forall|s: int| 0 <= s < 10 ==> match #[trigger] slots(list)[s] {
        Some(i) => i < n,
        None => true,
    }
}

/// The set with item `i`, of category `ty`, put into the first slot that is free for it;
/// nothing where none is. A second weapon is taken only beside a first that is at most
/// three cells high.
pub open spec fn place(list: ItemList, items: Seq<StashItem>, i: usize, ty: ItemType) -> Option<
    ItemList,
> {
    match ty {
        ItemType::Weapon => match list.weapon1 {
            None => Some(ItemList { weapon1: Some(i), ..list }),
            Some(first) => if list.weapon2 is None && items[first as int].h <= 3 {
                Some(ItemList { weapon2: Some(i), ..list })
            } else {
                None
            },
        },
        ItemType::Ring => if list.ring1 is None {
            Some(ItemList { ring1: Some(i), ..list })
        } else if list.ring2 is None {
            Some(ItemList { ring2: Some(i), ..list })
        } else {
            None
        },
        ItemType::Amulet => if list.amulet is None {
            Some(ItemList { amulet: Some(i), ..list })
        } else {
            None
        },
        ItemType::Belt => if list.belt is None {
            Some(ItemList { belt: Some(i), ..list })
        } else {
            None
        },
        ItemType::Gloves => if list.gloves is None {
            Some(ItemList { gloves: Some(i), ..list })
        } else {
            None
        },
        ItemType::Boots => if list.boots is None {
            Some(ItemList { boots: Some(i), ..list })
        } else {
            None
        },
        ItemType::Helmet => if list.helmet is None {
            Some(ItemList { helmet: Some(i), ..list })
        } else {
            None
        },
        ItemType::Body => if list.body is None {
            Some(ItemList { body: Some(i), ..list })
        } else {
            None
        },
        ItemType::Unknown => None,
    }
}

/// A set while it is filled: the set, and which items of the tab are used.
pub struct Filling {
    pub list: ItemList,
    pub used: Seq<bool>,
}

/// Which items are used.
pub open spec fn used_flags(items: Seq<StashItem>) -> Seq<bool> {
    items.map_values(|item: StashItem| item.used)
}

/// The set after the first `k` items were looked at, in their order: an item of a known
/// category that is not used yet goes into the first slot free for it and is used from
/// then on.
pub open spec fn fill(items: Seq<StashItem>, dicts: BaseTypes, k: int) -> Filling
    decreases k,
{
    if k <= 0 {
        Filling { list: empty_list(), used: used_flags(items) }
    } else {
        let prev = fill(items, dicts, k - 1);
        let ty = category(items[k - 1], dicts);
        if prev.used[k - 1] {
            prev
        } else {
            match place(prev.list, items, (k - 1) as usize, ty) {
                Some(list) => Filling { list, used: prev.used.update(k - 1, true) },
                None => prev,
            }
        }
    }
}

/// Whether `now` is `then` but for whether it is used.
pub open spec fn same_item(now: StashItem, then: StashItem) -> bool {
    now == StashItem { used: now.used, ..then }
}

/// The items with the marks of use `used`.
pub open spec fn marked(items: Seq<StashItem>, used: Seq<bool>) -> Seq<StashItem> {
    Seq::new(items.len(), |j: int| StashItem { used: used[j], ..items[j] })
}

/// While a set is filled, it holds only items that were looked at, and the marks of the
/// items behind them are as they were.
pub proof fn lemma_fill_bounds(items: Seq<StashItem>, dicts: BaseTypes, k: int)
    requires
        0 <= k <= items.len(),
        items.len() <= usize::MAX,
    ensures
        fill(items, dicts, k).used.len() == items.len(),
        within(fill(items, dicts, k).list, k),
        forall|j: int| k <= j < items.len() ==> fill(items, dicts, k).used[j] == items[j].used,
    decreases k,
{
    if k > 0 {
        lemma_fill_bounds(items, dicts, k - 1);
        let prev = fill(items, dicts, k - 1);
        let now = fill(items, dicts, k);
        assert forall|s: int| 0 <= s < 10 implies match #[trigger] slots(now.list)[s] {
            Some(i) => i < k,
            None => true,
        } by {
            assert(match slots(prev.list)[s] {
                Some(i) => i < k - 1,
                None => true,
            });
        }
    } else {
        assert forall|s: int| 0 <= s < 10 implies slots(empty_list())[s] is None by {}
    }
}

/// A stash tab as it was fetched.
#[derive(Debug, Clone)]
pub struct StashAPIResult {
    pub num_tabs: usize,
    pub quad_layout: bool,
    pub items: Vec<StashItem>,
    pub tabs: Vec<StashTab>,
}

impl StashAPIResult {
    /// Fills one set from the items that are not used yet, and marks those it takes as
    /// used.
    pub fn create_item_list(&mut self, dicts: &BaseTypes) -> (il: ItemList)
        ensures
            il == fill(old(self).items@, *dicts, old(self).items@.len() as int).list,
            final(self).items@ == marked(
                old(self).items@,
                fill(old(self).items@, *dicts, old(self).items@.len() as int).used,
            ),
            within(il, old(self).items@.len() as int),
            final(self).num_tabs == old(self).num_tabs,
            final(self).quad_layout == old(self).quad_layout,
            final(self).tabs == old(self).tabs,
    {
        let ghost then = self.items@;
        let count = self.items.len();
        let mut il = ItemList::default();
        let mut i: usize = 0;
        proof {
            lemma_fill_bounds(then, *dicts, 0);
            assert(self.items@ =~= marked(then, fill(then, *dicts, 0).used));
        }
        while i < self.items.len()
            invariant
                i <= self.items.len(),
                then.len() == self.items.len(),
                then == old(self).items@,
                il == fill(then, *dicts, i as int).list,
                within(il, i as int),
                self.items@ == marked(then, fill(then, *dicts, i as int).used),
                self.num_tabs == old(self).num_tabs,
                self.quad_layout == old(self).quad_layout,
                self.tabs == old(self).tabs,
            decreases self.items.len() - i,
        {
            let ghost prev = fill(then, *dicts, i as int);
            proof {
                lemma_fill_bounds(then, *dicts, i as int);
                lemma_fill_bounds(then, *dicts, i + 1);
                assert(same_item(self.items@[i as int], then[i as int]));
                assert(category(self.items@[i as int], *dicts) == category(then[i as int], *dicts));
            }
            let ty = self.items[i].get_category(dicts);
            if !self.items[i].used {
                let slot = take_slot(&il, &self.items, i, ty);
                proof {
                    match il.weapon1 {
                        Some(first) => {
                            assert(slots(il)[5] == il.weapon1);
                            assert(same_item(self.items@[first as int], then[first as int]));
                        },
                        None => {},
                    }
                }
                match slot {
                    Some(list) => {
                        il = list;
                        self.items[i].used = true;
                        proof {
                            assert(self.items@ =~= marked(
                                then,
                                fill(then, *dicts, i + 1).used,
                            ));
                        }
                    },
                    None => {},
                }
            }
            i += 1;
        }
        il
    }

    /// How many items of each category the tab holds.
    pub fn tally(&self, dicts: &BaseTypes) -> (ic: ItemCount)
        ensures
            ic.weapon == count_of(self.items@, *dicts, ItemType::Weapon),
            ic.ring == count_of(self.items@, *dicts, ItemType::Ring),
            ic.amulet == count_of(self.items@, *dicts, ItemType::Amulet),
            ic.belt == count_of(self.items@, *dicts, ItemType::Belt),
            ic.gloves == count_of(self.items@, *dicts, ItemType::Gloves),
            ic.boots == count_of(self.items@, *dicts, ItemType::Boots),
            ic.helmet == count_of(self.items@, *dicts, ItemType::Helmet),
            ic.body == count_of(self.items@, *dicts, ItemType::Body),
            ic.other == count_of(self.items@, *dicts, ItemType::Unknown),
    {
        let mut ic = ItemCount {
            weapon: 0,
            ring: 0,
            amulet: 0,
            belt: 0,
            gloves: 0,
            boots: 0,
            helmet: 0,
            body: 0,
            other: 0,
        };
        let mut i: usize = 0;
        while i < self.items.len()
            invariant
                i <= self.items.len(),
                ic.weapon == count_of(self.items@.take(i as int), *dicts, ItemType::Weapon),
                ic.ring == count_of(self.items@.take(i as int), *dicts, ItemType::Ring),
                ic.amulet == count_of(self.items@.take(i as int), *dicts, ItemType::Amulet),
                ic.belt == count_of(self.items@.take(i as int), *dicts, ItemType::Belt),
                ic.gloves == count_of(self.items@.take(i as int), *dicts, ItemType::Gloves),
                ic.boots == count_of(self.items@.take(i as int), *dicts, ItemType::Boots),
                ic.helmet == count_of(self.items@.take(i as int), *dicts, ItemType::Helmet),
                ic.body == count_of(self.items@.take(i as int), *dicts, ItemType::Body),
                ic.other == count_of(self.items@.take(i as int), *dicts, ItemType::Unknown),
            decreases self.items.len() - i,
        {
            let ghost seen = self.items@.take(i as int);
            proof {
                assert(self.items@.take(i + 1).drop_last() == seen);
                assert(self.items@.take(i + 1).last() == self.items@[i as int]);
                lemma_count_of_bound(seen, *dicts, ItemType::Weapon);
                lemma_count_of_bound(seen, *dicts, ItemType::Ring);
                lemma_count_of_bound(seen, *dicts, ItemType::Amulet);
                lemma_count_of_bound(seen, *dicts, ItemType::Belt);
                lemma_count_of_bound(seen, *dicts, ItemType::Gloves);
                lemma_count_of_bound(seen, *dicts, ItemType::Boots);
                lemma_count_of_bound(seen, *dicts, ItemType::Helmet);
                lemma_count_of_bound(seen, *dicts, ItemType::Body);
                lemma_count_of_bound(seen, *dicts, ItemType::Unknown);
            }
            match self.items[i].get_category(dicts) {
                ItemType::Weapon => {
                    ic.weapon += 1;
                },
                ItemType::Ring => {
                    ic.ring += 1;
                },
                ItemType::Amulet => {
                    ic.amulet += 1;
                },
                ItemType::Belt => {
                    ic.belt += 1;
                },
                ItemType::Gloves => {
                    ic.gloves += 1;
                },
                ItemType::Boots => {
                    ic.boots += 1;
                },
                ItemType::Helmet => {
                    ic.helmet += 1;
                },
                ItemType::Body => {
                    ic.body += 1;
                },
                ItemType::Unknown => {
                    ic.other += 1;
                },
            }
            i += 1;
        }
        proof {
            assert(self.items@.take(i as int) == self.items@);
        }
        ic
    }
}

/// The set with item `i`, of category `ty`, put into the first slot that is free for it.
pub fn take_slot(list: &ItemList, items: &Vec<StashItem>, i: usize, ty: ItemType) -> (r: Option<
    ItemList,
>)
    requires
        within(*list, items@.len() as int),
    ensures
        r == place(*list, items@, i, ty),
{
    let il = *list;
    proof {
        assert(slots(il)[5] == il.weapon1);
    }
    match ty {
        ItemType::Weapon => match il.weapon1 {
            None => Some(ItemList { weapon1: Some(i), ..il }),
            Some(first) => if il.weapon2.is_none() && items[first].h <= 3 {
                Some(ItemList { weapon2: Some(i), ..il })
            } else {
                None
            },
        },
        ItemType::Ring => if il.ring1.is_none() {
            Some(ItemList { ring1: Some(i), ..il })
        } else if il.ring2.is_none() {
            Some(ItemList { ring2: Some(i), ..il })
        } else {
            None
        },
        ItemType::Amulet => if il.amulet.is_none() {
            Some(ItemList { amulet: Some(i), ..il })
        } else {
            None
        },
        ItemType::Belt => if il.belt.is_none() {
            Some(ItemList { belt: Some(i), ..il })
        } else {
            None
        },
        ItemType::Gloves => if il.gloves.is_none() {
            Some(ItemList { gloves: Some(i), ..il })
        } else {
            None
        },
        ItemType::Boots => if il.boots.is_none() {
            Some(ItemList { boots: Some(i), ..il })
        } else {
            None
        },
        ItemType::Helmet => if il.helmet.is_none() {
            Some(ItemList { helmet: Some(i), ..il })
        } else {
            None
        },
        ItemType::Body => if il.body.is_none() {
            Some(ItemList { body: Some(i), ..il })
        } else {
            None
        },
        ItemType::Unknown => None,
    }
}

/// The screen columns from one cell of the grid to the next, when items are pulled out.
pub open spec fn pull_pitch(height: u32) -> int {
    if height == 1080 {
        27
    } else {
        35
    }
}

/// Whether an item lies in the grid, so that there is a point to click it at.
pub open spec fn clickable(item: StashItem, height: u32) -> bool {
    &&& item.y < CELLS
    &&& item.x * pull_pitch(height) + left_edge(height) + 10 <= usize::MAX
}

/// Whether an item lies in the grid.
pub fn is_clickable(item: &StashItem, height: u32) -> (r: bool)
    requires
        known_height(height),
    ensures
        r == clickable(*item, height),
{
    if item.y >= CELLS {
        return false;
    }
    if height == 1080 {
        item.x <= (usize::MAX - 31) / 27
    } else {
        item.x <= (usize::MAX - 39) / 35
    }
}

/// Whether every item lies in the grid.
pub fn all_clickable(items: &Vec<StashItem>, height: u32) -> (r: bool)
    requires
        known_height(height),
    ensures
        r == forall|j: int| 0 <= j < items@.len() ==> clickable(#[trigger] items@[j], height),
{
    let mut i: usize = 0;
    while i < items.len()
        invariant
            i <= items.len(),
            known_height(height),
            forall|j: int| 0 <= j < i ==> clickable(#[trigger] items@[j], height),
        decreases items.len() - i,
    {
        if !is_clickable(&items[i], height) {
            return false;
        }
        i += 1;
    }
    true
}

/// An item to pull out of the tab: its index, and the screen point to click it at.
#[derive(Debug, Clone, Copy, PartialEq, Eq, Structural)]
pub struct Pick {
    pub item: usize,
    pub x: usize,
    pub y: usize,
}

/// The item of a slot with the point to click it at: ten pixels right of the left edge
/// of its cell, ten pixels above the line of its row.
pub open spec fn pick_of(slot: Option<usize>, items: Seq<StashItem>, height: u32) -> Option<Pick> {
    match slot {
        Some(i) => Some(
            Pick {
                item: i,
                x: (items[i as int].x * pull_pitch(height) + left_edge(height) + 10) as usize,
                y: (row_line(height, items[i as int].y as int) - 10) as usize,
            },
        ),
        None => None,
    }
}

/// The items of a set with their points, slot by slot in the order of `slots`.
pub open spec fn picks(list: ItemList, items: Seq<StashItem>, height: u32) -> Seq<Option<Pick>> {
    slots(list).map_values(|slot: Option<usize>| pick_of(slot, items, height))
}

impl ItemList {
    /// Where to click to pull each item of the set out of the tab, slot by slot: body,
    /// helmet, boots, gloves, belt, the two weapons, the two rings, amulet.
    pub fn take(&self, items: &Vec<StashItem>, height: u32) -> (r: Vec<Option<Pick>>)
        requires
            known_height(height),
            within(*self, items@.len() as int),
            forall|j: int| 0 <= j < items@.len() ==> clickable(#[trigger] items@[j], height),
        ensures
            r@ == picks(*self, items@, height),
    {
        let order: [Option<usize>; 10] = [
            self.body,
            self.helmet,
            self.boots,
            self.gloves,
            self.belt,
            self.weapon1,
            self.weapon2,
            self.ring1,
            self.ring2,
            self.amulet,
        ];
        assert(order@ =~= slots(*self));
        let mut r: Vec<Option<Pick>> = Vec::new();
        let mut s: usize = 0;
        while s < 10
            invariant
                s <= 10,
                known_height(height),
                order@ == slots(*self),
                within(*self, items@.len() as int),
                forall|j: int| 0 <= j < items@.len() ==> clickable(#[trigger] items@[j], height),
                r@ == picks(*self, items@, height).take(s as int),
            decreases 10 - s,
        {
            assert(slots(*self)[s as int] == order@[s as int]);
            let pick = match order[s] {
                Some(i) => {
                    assert(clickable(items@[i as int], height));
                    let column = if height == 1080 {
                        items[i].x * 27 + 21
                    } else {
                        items[i].x * 35 + 29
                    };
                    let line = row_line_of(height, items[i].y);
                    Some(Pick { item: i, x: column + 10, y: line - 10 })
                },
                None => None,
            };
            r.push(pick);
            proof {
                let all = picks(*self, items@, height);
                assert(all.take(s + 1) =~= all.take(s as int).push(all[s as int]));
            }
            s += 1;
        }
        proof {
            let all = picks(*self, items@, height);
            assert(all.take(10) =~= all);
        }
        r
    }
}

/// The items after `rounds` sets were taken one after another.
pub open spec fn after_rounds(items: Seq<StashItem>, dicts: BaseTypes, rounds: int) -> Seq<
    StashItem,
>
    decreases rounds,
{
    if rounds <= 0 {
        items
    } else {
        let prev = after_rounds(items, dicts, rounds - 1);
        marked(prev, fill(prev, dicts, prev.len() as int).used)
    }
}

/// The picks of set number `round`, counted from zero.
pub open spec fn round_picks(items: Seq<StashItem>, dicts: BaseTypes, height: u32, round: int) -> Seq<
    Option<Pick>,
> {
    let then = after_rounds(items, dicts, round);
    picks(fill(then, dicts, then.len() as int).list, then, height)
}

/// Takes `amt` sets out of the tab, one after another, and says for each where to click.
/// The items that a set takes are marked as used and left to no later set.
pub fn do_recipe(stash: &mut StashAPIResult, dicts: &BaseTypes, height: u32, amt: usize) -> (rounds:
    Vec<Vec<Option<Pick>>>)
    requires
        known_height(height),
        forall|j: int|
            0 <= j < old(stash).items@.len() ==> clickable(
                #[trigger] old(stash).items@[j],
                height,
            ),
    ensures
        rounds@.len() == amt,
        forall|r: int|
            0 <= r < amt ==> (#[trigger] rounds@[r])@ == round_picks(
                old(stash).items@,
                *dicts,
                height,
                r,
            ),
        final(stash).items@ == after_rounds(old(stash).items@, *dicts, amt as int),
        final(stash).num_tabs == old(stash).num_tabs,
        final(stash).quad_layout == old(stash).quad_layout,
        final(stash).tabs == old(stash).tabs,
{
    let ghost start = stash.items@;
    let mut rounds: Vec<Vec<Option<Pick>>> = Vec::new();
    let mut i: usize = 0;
    while i < amt
        invariant
            i <= amt,
            known_height(height),
            start == old(stash).items@,
            rounds@.len() == i,
            forall|r: int|
                0 <= r < i ==> (#[trigger] rounds@[r])@ == round_picks(start, *dicts, height, r),
            stash.items@ == after_rounds(start, *dicts, i as int),
            stash.items@.len() == start.len(),
            forall|j: int|
                0 <= j < stash.items@.len() ==> clickable(#[trigger] stash.items@[j], height),
            stash.num_tabs == old(stash).num_tabs,
            stash.quad_layout == old(stash).quad_layout,
            stash.tabs == old(stash).tabs,
        decreases amt - i,
    {
        let ghost then = stash.items@;
        let picked = ItemList::take(&stash.create_item_list(dicts), &stash.items, height);
        proof {
            let list = fill(then, *dicts, then.len() as int).list;
            assert(picks(list, stash.items@, height) =~= picks(list, then, height)) by {
                assert forall|s: int| 0 <= s < 10 implies pick_of(
                    #[trigger] slots(list)[s],
                    stash.items@,
                    height,
                ) == pick_of(slots(list)[s], then, height) by {}
            }
        }
        rounds.push(picked);
        i += 1;
    }
    rounds
}

impl ChaosRecipe {
    /// The address that lists the items of the tab; tab 0 where no index is set.
    pub fn get_url(&self) -> (url: String)
        ensures
            url@ == "https://www.pathofexile.com/character-window/get-stash-items?accountName="@
                + self.account_name@ + "&realm=pc&league="@ + self.league@ + "&tabs=1&tabIndex="@
                + decimal_text(
                match self.tab_index {
                    Some(i) => i as nat,
                    None => 0,
                },
            ),
    {
        let index = match self.tab_index {
            Some(i) => i,
            None => 0,
        };
        let mut url = String::from_str(
            "https://www.pathofexile.com/character-window/get-stash-items?accountName=",
        );
        url.append(self.account_name.as_str());
        url.append("&realm=pc&league=");
        url.append(self.league.as_str());
        url.append("&tabs=1&tabIndex=");
        url.append(number_text(index).as_str());
        url
    }

    /// The index of the tab to go on with, where the listing shows that the index set is
    /// not that of the tab meant: the index of the first listed tab that has the name set
    /// and another index than the one set.
    pub fn closest_tab(&self, tabs: &Vec<StashTab>) -> (r: Option<usize>)
        ensures
            r == tab_to_follow(*self, tabs@, 0),
    {
        let mut j: usize = 0;
        while j < tabs.len()
            invariant
                j <= tabs.len(),
                tab_to_follow(*self, tabs@, 0) == tab_to_follow(*self, tabs@, j as int),
            decreases tabs.len() - j,
        {
            let is_set = match self.tab_index {
                Some(i) => i == tabs[j].i,
                None => false,
            };
            if !is_set && same_text(tabs[j].n.as_str(), self.tab_name.as_str()) {
                return Some(tabs[j].i);
            }
            j += 1;
        }
        None
    }
}

/// The index of the first tab from `from` on that has the name set and another index than
/// the one set.
pub open spec fn tab_to_follow(config: ChaosRecipe, tabs: Seq<StashTab>, from: int) -> Option<usize>
    decreases tabs.len() - from,
{
    if from < 0 || from >= tabs.len() {
        None
    } else if config.tab_index != Some(tabs[from].i) && tabs[from].n@ == config.tab_name@ {
        Some(tabs[from].i)
    } else {
        tab_to_follow(config, tabs, from + 1)
    }
}

} // verus!
