use engine::combat::{
    dead_message, equipped_bonus, run_cleanup_system, heal, inflict_damage, melee_attack, melee_damage,
    melee_message, skip_turn, CombatStats, Combatant, EquippedBonus, MeleeOutcome,
};
use engine::components::{Inventory, ItemType, ItemTypes, Position, Viewshed};
use engine::geometry::Point;

fn stats(hp: i32, max_hp: i32) -> CombatStats {
    CombatStats { max_hp, hp, defense: 1, power: 5, regen_rate: 2 }
}

#[test]
fn heal_raises_up_to_max() {
    let mut s = stats(10, 30);
    heal(&mut s, 8);
    assert_eq!(s.hp, 18);
    heal(&mut s, 100);
    assert_eq!(s.hp, 30);
    assert_eq!(s.max_hp, 30);
}

#[test]
fn heal_never_lowers_a_creature_within_its_maximum() {
    for hp in -5..=20 {
        for amount in 0..=25 {
            let mut s = stats(hp, 20);
            heal(&mut s, amount);
            assert!(s.hp <= 20);
            assert!(s.hp >= hp);
        }
    }
}

#[test]
fn damage_subtracts() {
    let mut s = stats(10, 30);
    inflict_damage(&mut s, 4);
    assert_eq!(s.hp, 6);
    inflict_damage(&mut s, 9);
    assert_eq!(s.hp, -3);
}

#[test]
fn waiting_regenerates_unless_burning() {
    let mut s = stats(10, 11);
    skip_turn(&mut s, true);
    assert_eq!(s.hp, 10);
    skip_turn(&mut s, false);
    assert_eq!(s.hp, 11);
}

#[test]
fn equipped_bonus_counts_only_the_owners_items() {
    let items = vec![
        EquippedBonus { owner: 1, bonus: 2 },
        EquippedBonus { owner: 2, bonus: 5 },
        EquippedBonus { owner: 1, bonus: 3 },
    ];
    assert_eq!(equipped_bonus(&items, 1), 5);
    assert_eq!(equipped_bonus(&items, 2), 5);
    assert_eq!(equipped_bonus(&items, 3), 0);
}

#[test]
fn melee_damage_formula() {
    assert_eq!(melee_damage(8, 2, 3, 1), 6);
    assert_eq!(melee_damage(3, 0, 5, 0), 0);
    assert_eq!(melee_damage(5, 0, 5, 0), 0);
}

#[test]
fn stronger_attackers_never_deal_less() {
    for p in 0..20 {
        let a = melee_damage(p, 1, 7, 2);
        let b = melee_damage(p + 1, 1, 7, 2);
        assert!(0 <= a && a <= b);
    }
}

#[test]
fn melee_outcomes() {
    let attacker = CombatStats { max_hp: 10, hp: 10, defense: 0, power: 6, regen_rate: 0 };
    let target = CombatStats { max_hp: 10, hp: 10, defense: 2, power: 1, regen_rate: 0 };
    let sword = vec![EquippedBonus { owner: 1, bonus: 3 }];
    let shield = vec![EquippedBonus { owner: 2, bonus: 1 }];
    assert_eq!(melee_attack(&attacker, &sword, 1, &target, &shield, 2), MeleeOutcome::Hit { damage: 6 });
    let strong = CombatStats { defense: 20, ..target };
    assert_eq!(melee_attack(&attacker, &sword, 1, &strong, &shield, 2), MeleeOutcome::Unhurt);
    let dead = CombatStats { hp: 0, ..target };
    assert_eq!(melee_attack(&attacker, &sword, 1, &dead, &shield, 2), MeleeOutcome::NoFight);
    let dead_attacker = CombatStats { hp: -1, ..attacker };
    assert_eq!(melee_attack(&dead_attacker, &sword, 1, &target, &shield, 2), MeleeOutcome::NoFight);
}

#[test]
fn melee_messages() {
    assert_eq!(melee_message("Orc", "Player", MeleeOutcome::NoFight), None);
    assert_eq!(
        melee_message("Orc", "Player", MeleeOutcome::Unhurt),
        Some("Orc is unable to hurt Player".to_string())
    );
    assert_eq!(
        melee_message("Orc", "Player", MeleeOutcome::Hit { damage: 12 }),
        Some("Orc hits Player for 12 hp".to_string())
    );
    assert_eq!(
        melee_message("A", "B", MeleeOutcome::Hit { damage: -7 }),
        Some("A hits B for -7 hp".to_string())
    );
    assert_eq!(dead_message("Goblin"), "Goblin is dead");
}

#[test]
fn the_dead_drop_their_items() {
    let cs = vec![
        Combatant { id: 1, pos: Point::new(3, 4), hp: 0, is_player: false, items: vec![10, 11] },
        Combatant { id: 2, pos: Point::new(5, 5), hp: 4, is_player: false, items: vec![12] },
        Combatant { id: 3, pos: Point::new(6, 6), hp: -2, is_player: false, items: vec![] },
    ];
    let d = run_cleanup_system(&cs);
    assert_eq!(d.dead, vec![1, 3]);
    assert_eq!(d.drops, vec![(10, Point::new(3, 4)), (11, Point::new(3, 4))]);
    assert!(!d.player_died);
}

#[test]
fn the_player_does_not_die_like_a_monster() {
    let cs = vec![Combatant { id: 7, pos: Point::new(1, 1), hp: 0, is_player: true, items: vec![20] }];
    let d = run_cleanup_system(&cs);
    assert!(d.dead.is_empty());
    assert!(d.drops.is_empty());
    assert!(d.player_died);
}

#[test]
fn position_first_point_and_indices() {
    let m = engine::map::TileMap::new(1, engine::map::TileType::Floor, (10, 10));
    let p = Position { ps: vec![Point::new(2, 3), Point::new(3, 3)] };
    assert_eq!(p.any_point(), Point::new(2, 3));
    assert_eq!(p.idxes(&m), vec![32, 33]);
    let empty = Position { ps: vec![] };
    assert_eq!(empty.any_point(), Point::new(0, 0));
}

#[test]
fn viewshed_visibility() {
    let vs = Viewshed { visible_tiles: vec![Point::new(1, 1), Point::new(2, 1)], range: 8, dirty: false };
    assert!(vs.is_visible(Point::new(2, 1)));
    assert!(!vs.is_visible(Point::new(1, 2)));
}

#[test]
fn item_kinds_and_counts() {
    let kinds = ItemTypes { entries: vec![(5, ItemType::Log), (6, ItemType::Fish), (7, ItemType::Log)] };
    assert_eq!(kinds.get(6), Some(ItemType::Fish));
    assert_eq!(kinds.get(9), None);
    let inv = Inventory { capacity: 5, items: vec![5, 6, 7, 9] };
    assert_eq!(inv.count_type(&kinds, ItemType::Log), 2);
    assert_eq!(inv.count_type(&kinds, ItemType::Fish), 1);
    assert_eq!(inv.count_type(&kinds, ItemType::Potion), 0);
}

#[test]
fn counting_a_holders_items_empties_its_inventory() {
    let kinds = ItemTypes { entries: vec![(5, ItemType::Log), (7, ItemType::Log)] };
    let mut inv = Inventory { capacity: 5, items: vec![5, 6, 7] };
    assert_eq!(engine::ai::Inputs::inventory_count(&mut inv, &kinds, ItemType::Log), 2);
    assert!(inv.items.is_empty());
}

#[test]
fn pick_up_then_drop_restores_the_inventory() {
    let mut inv = Inventory { capacity: 3, items: vec![1, 2] };
    let before = inv.clone();
    assert!(inv.pick_up(9));
    assert_eq!(inv.items, vec![1, 2, 9]);
    inv.drop_item(9);
    assert_eq!(inv, before);
}

#[test]
fn picking_up_a_carried_item_does_not_proceed() {
    let mut inv = Inventory { capacity: 3, items: vec![1, 2] };
    assert!(!inv.pick_up(2));
    assert_eq!(inv.items, vec![1, 2, 2]);
}

#[test]
fn drop_takes_the_first_copy_only() {
    let mut inv = Inventory { capacity: 3, items: vec![4, 2, 4] };
    inv.drop_item(4);
    assert_eq!(inv.items, vec![2, 4]);
    inv.drop_item(8);
    assert_eq!(inv.items, vec![2, 4]);
}

#[test]
fn damage_numbers_are_written_in_full() {
    for d in [0, 9, 10, 105, i32::MAX, i32::MIN, -1] {
        assert_eq!(
            melee_message("A", "B", MeleeOutcome::Hit { damage: d }),
            Some(format!("A hits B for {} hp", d))
        );
    }
}
