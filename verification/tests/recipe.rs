use little_oil::chaos_recipe::{
    check_help, do_recipe, BaseTypes, ChaosRecipe, ItemCount, ItemList, ItemType, Pick, Property,
    StashAPIResult, StashItem, StashTab,
};

fn dicts() -> BaseTypes {
    BaseTypes {
        boots: vec!["Iron Greaves".into(), "Two-Toned Boots".into()],
        helmets: vec!["Iron Hat".into()],
        gloves: vec!["Iron Gauntlets".into()],
        body: vec!["Plate Vest".into()],
    }
}

fn item(base: &str, x: usize, y: usize, h: usize) -> StashItem {
    StashItem {
        x,
        y,
        identified: false,
        base_type: base.into(),
        ilvl: 70,
        name: String::new(),
        type_line: base.into(),
        w: 1,
        h,
        properties: None,
        used: false,
    }
}

fn weapon(base: &str, x: usize, y: usize, h: usize) -> StashItem {
    let mut it = item(base, x, y, h);
    it.properties = Some(vec![
        Property { name: None },
        Property { name: Some("Physical Damage".into()) },
        Property { name: Some("Attacks per Second".into()) },
    ]);
    it
}

fn stash(items: Vec<StashItem>) -> StashAPIResult {
    StashAPIResult { num_tabs: 1, quad_layout: true, items, tabs: vec![] }
}

#[test]
fn categories() {
    let d = dicts();
    assert_eq!(weapon("Iron Ring", 0, 0, 3).get_category(&d), ItemType::Weapon);
    assert_eq!(item("Iron Greaves", 0, 0, 2).get_category(&d), ItemType::Boots);
    assert_eq!(item("Iron Hat", 0, 0, 2).get_category(&d), ItemType::Helmet);
    assert_eq!(item("Iron Gauntlets", 0, 0, 2).get_category(&d), ItemType::Gloves);
    assert_eq!(item("Plate Vest", 0, 0, 3).get_category(&d), ItemType::Body);
    assert_eq!(item("Two-Stone Ring", 0, 0, 1).get_category(&d), ItemType::Ring);
    assert_eq!(item("Leather Belt", 0, 0, 1).get_category(&d), ItemType::Belt);
    assert_eq!(item("Rustic Sash", 0, 0, 1).get_category(&d), ItemType::Belt);
    assert_eq!(item("Rustic Sashes", 0, 0, 1).get_category(&d), ItemType::Unknown);
    assert_eq!(item("Onyx Amulet", 0, 0, 1).get_category(&d), ItemType::Amulet);
    assert_eq!(item("Ring Belt Amulet", 0, 0, 1).get_category(&d), ItemType::Ring);
    assert_eq!(item("ring", 0, 0, 1).get_category(&d), ItemType::Unknown);
    assert_eq!(item("Iron Hat ", 0, 0, 1).get_category(&d), ItemType::Unknown);
    let mut no_speed = item("Rusted Sword", 0, 0, 3);
    no_speed.properties = Some(vec![Property { name: Some("attacks per second".into()) }]);
    assert!(!no_speed.is_weapon());
    no_speed.properties = Some(vec![]);
    assert!(!no_speed.is_weapon());
    assert!(check_help(&d.boots, "Two-Toned Boots"));
    assert!(!check_help(&d.boots, "Two-Toned"));
    assert!(!check_help(&vec![], ""));
}

#[test]
fn tally_counts_each_category() {
    let d = dicts();
    let s = stash(vec![
        weapon("Rusted Sword", 0, 0, 3),
        weapon("Long Bow", 1, 0, 4),
        item("Iron Ring", 2, 0, 1),
        item("Gold Ring", 3, 0, 1),
        item("Coral Ring", 4, 0, 1),
        item("Onyx Amulet", 5, 0, 1),
        item("Leather Belt", 6, 0, 1),
        item("Iron Gauntlets", 7, 0, 2),
        item("Iron Greaves", 8, 0, 2),
        item("Iron Hat", 9, 0, 2),
        item("Plate Vest", 10, 0, 3),
        item("Scroll of Wisdom", 11, 0, 1),
        item("Orb of Chance", 12, 0, 1),
    ]);
    assert_eq!(
        s.tally(&d),
        ItemCount {
            weapon: 2,
            ring: 3,
            amulet: 1,
            belt: 1,
            gloves: 1,
            boots: 1,
            helmet: 1,
            body: 1,
            other: 2
        }
    );
    assert_eq!(
        stash(vec![]).tally(&d),
        ItemCount {
            weapon: 0,
            ring: 0,
            amulet: 0,
            belt: 0,
            gloves: 0,
            boots: 0,
            helmet: 0,
            body: 0,
            other: 0
        }
    );
}

#[test]
fn a_set_takes_the_first_free_items() {
    let d = dicts();
    let mut s = stash(vec![
        item("Iron Ring", 0, 0, 1),
        item("Scroll of Wisdom", 1, 0, 1),
        weapon("Rusted Sword", 2, 0, 3),
        item("Gold Ring", 3, 0, 1),
        item("Coral Ring", 4, 0, 1),
        weapon("Long Bow", 5, 0, 4),
        weapon("Driftwood Wand", 6, 0, 3),
        item("Plate Vest", 7, 0, 3),
        item("Plate Vest", 8, 0, 3),
    ]);
    s.items[3].used = true;
    let il = s.create_item_list(&d);
    assert_eq!(il.ring1, Some(0));
    assert_eq!(il.ring2, Some(4));
    assert_eq!(il.weapon1, Some(2));
    assert_eq!(il.weapon2, Some(5));
    assert_eq!(il.body, Some(7));
    assert_eq!(il.amulet, None);
    assert_eq!(il.belt, None);
    let used: Vec<bool> = s.items.iter().map(|i| i.used).collect();
    assert_eq!(used, vec![true, false, true, true, true, true, false, true, false]);
    // The next set takes what is left.
    let il = s.create_item_list(&d);
    assert_eq!(il.weapon1, Some(6));
    assert_eq!(il.weapon2, None);
    assert_eq!(il.body, Some(8));
    assert_eq!(il.ring1, None);
    let il = s.create_item_list(&d);
    assert_eq!(il, ItemList::default());
}

#[test]
fn no_second_weapon_beside_a_tall_one() {
    let d = dicts();
    let mut s = stash(vec![weapon("Long Bow", 0, 0, 4), weapon("Rusted Sword", 1, 0, 3)]);
    let il = s.create_item_list(&d);
    assert_eq!(il.weapon1, Some(0));
    assert_eq!(il.weapon2, None);
    assert!(s.items[0].used);
    assert!(!s.items[1].used);
}

#[test]
fn picks_give_the_points_to_click() {
    let d = dicts();
    let mut s = stash(vec![
        item("Plate Vest", 0, 0, 3),
        item("Onyx Amulet", 23, 23, 1),
        item("Iron Ring", 3, 5, 1),
    ]);
    let il = s.create_item_list(&d);
    let at_1080 = il.take(&s.items, 1080);
    assert_eq!(at_1080.len(), 10);
    assert_eq!(at_1080[0], Some(Pick { item: 0, x: 31, y: 150 }));
    assert_eq!(at_1080[7], Some(Pick { item: 2, x: 3 * 27 + 21 + 10, y: 291 - 10 }));
    assert_eq!(at_1080[9], Some(Pick { item: 1, x: 23 * 27 + 21 + 10, y: 765 - 10 }));
    for s in [1, 2, 3, 4, 5, 6, 8] {
        assert_eq!(at_1080[s], None);
    }
    let at_1440 = il.take(&s.items, 1440);
    assert_eq!(at_1440[0], Some(Pick { item: 0, x: 39, y: 250 }));
    assert_eq!(at_1440[7], Some(Pick { item: 2, x: 3 * 35 + 29 + 10, y: 436 - 10 }));
    assert_eq!(at_1440[9], Some(Pick { item: 1, x: 23 * 35 + 29 + 10, y: 1067 - 10 }));
}

#[test]
fn recipe_rounds() {
    let d = dicts();
    let mut s = stash(vec![
        item("Plate Vest", 0, 0, 3),
        item("Plate Vest", 2, 0, 3),
        item("Iron Hat", 4, 1, 2),
    ]);
    let rounds = do_recipe(&mut s, &d, 1080, 3);
    assert_eq!(rounds.len(), 3);
    assert_eq!(rounds[0][0], Some(Pick { item: 0, x: 31, y: 150 }));
    assert_eq!(rounds[0][1], Some(Pick { item: 2, x: 4 * 27 + 31, y: 176 }));
    assert_eq!(rounds[1][0], Some(Pick { item: 1, x: 2 * 27 + 31, y: 150 }));
    assert_eq!(rounds[1][1], None);
    assert!(rounds[2].iter().all(|p| p.is_none()));
    assert!(s.items.iter().all(|i| i.used));
    assert!(do_recipe(&mut s, &d, 1440, 0).is_empty());
}

#[test]
fn url_and_tab() {
    let mut config = ChaosRecipe {
        session_id: "SECRET-REDACTED".into(),
        account_name: "Exile".into(),
        league: "Standard".into(),
        tab_name: "chaos".into(),
        tab_index: None,
    };
    assert_eq!(
        config.get_url(),
        "https://www.pathofexile.com/character-window/get-stash-items?accountName=Exile&realm=pc&league=Standard&tabs=1&tabIndex=0"
    );
    config.tab_index = Some(12);
    assert!(config.get_url().ends_with("&tabs=1&tabIndex=12"));
    let tab = |n: &str, i: usize| StashTab { n: n.into(), i, id: String::new() };
    let tabs = vec![tab("maps", 0), tab("chaos", 12), tab("chaos", 4), tab("chaos", 5)];
    assert_eq!(config.closest_tab(&tabs), Some(4));
    config.tab_index = Some(4);
    assert_eq!(config.closest_tab(&tabs), Some(12));
    config.tab_name = "none".into();
    assert_eq!(config.closest_tab(&tabs), None);
    assert_eq!(config.closest_tab(&vec![]), None);
}
