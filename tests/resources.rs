use optimism::combat::WeaponType;
use optimism::narration::{pick_quote, NarrationState};
use optimism::resources::{is_garden_level, level_config, CurrentLevel, LuxuryType, GARDEN_LEVEL};

const MONEY_QUOTES: &[&str] = &[
    "Gold is the best of all things.",
    "Riches do not bring happiness, but they help.",
    "A coin! Pangloss would approve.",
    "Money makes the world less miserable.",
    "Wealth is but a means to cultivate one's garden.",
];

fn speed(level: u32) -> f32 {
    level_config(level).enemy_speed_multiplier_milli as f32 / 1000.0
}

fn weapon_secs(level: u32) -> f32 {
    level_config(level).weapon_duration_ms as f32 / 1000.0
}

fn pen_secs(level: u32) -> f32 {
    level_config(level).pen_release_interval_ms as f32 / 1000.0
}

#[test]
fn level_1_config() {
    let cfg = level_config(1);
    assert_eq!(cfg.weapon_type, WeaponType::BrassKnuckles);
    assert_eq!(cfg.luxury_type, LuxuryType::GoldGrill);
    assert_eq!(cfg.maze_file, "assets/maps/level_01.txt");
    assert!((speed(1) - 1.0).abs() < 0.01);
    assert!((weapon_secs(1) - 8.0).abs() < 0.01);
    assert!((pen_secs(1) - 3.0).abs() < 0.01);
}

#[test]
fn weapon_escalation() {
    assert_eq!(level_config(1).weapon_type, WeaponType::BrassKnuckles);
    assert_eq!(level_config(2).weapon_type, WeaponType::BrassKnuckles);
    assert_eq!(level_config(3).weapon_type, WeaponType::Bat);
    assert_eq!(level_config(5).weapon_type, WeaponType::Knife);
    assert_eq!(level_config(7).weapon_type, WeaponType::Axe);
    assert_eq!(level_config(9).weapon_type, WeaponType::Chainsaw);
    assert_eq!(level_config(11).weapon_type, WeaponType::Chainsaw);
}

#[test]
fn luxury_escalation() {
    assert_eq!(level_config(1).luxury_type, LuxuryType::GoldGrill);
    assert_eq!(level_config(3).luxury_type, LuxuryType::Chain);
    assert_eq!(level_config(5).luxury_type, LuxuryType::Rolex);
    assert_eq!(level_config(7).luxury_type, LuxuryType::Goblet);
    assert_eq!(level_config(9).luxury_type, LuxuryType::FurCoat);
    assert_eq!(level_config(11).luxury_type, LuxuryType::GoldToilet);
}

#[test]
fn maze_cycling() {
    assert!(level_config(1).maze_file.contains("level_01"));
    assert!(level_config(2).maze_file.contains("level_02"));
    assert!(level_config(3).maze_file.contains("level_03"));
    assert!(level_config(4).maze_file.contains("level_04"));
    assert!(level_config(5).maze_file.contains("level_01"));
    assert!(level_config(9).maze_file.contains("level_01"));
}

#[test]
fn speed_increases_with_level() {
    let s1 = speed(1);
    let s6 = speed(6);
    let s12 = speed(12);
    assert!(s6 > s1);
    assert!(s12 > s6);
}

#[test]
fn weapon_duration_decreases_with_level() {
    let d1 = weapon_secs(1);
    let d6 = weapon_secs(6);
    let d12 = weapon_secs(12);
    assert!(d6 < d1);
    assert!(d12 <= d6);
    assert!(d12 >= 3.0);
}

#[test]
fn pen_release_decreases_with_level() {
    let pen_early = pen_secs(1);
    let pen_late = pen_secs(12);
    assert!(pen_late < pen_early);
    assert!(pen_late >= 1.0);
}

#[test]
fn garden_level() {
    let cfg = level_config(13);
    assert!(cfg.maze_file.contains("garden"));
    assert_eq!(speed(13), 0.0);
    assert!(cfg.is_garden);
}

#[test]
fn levels_above_13_are_garden() {
    let cfg = level_config(14);
    assert!(cfg.maze_file.contains("garden"));
    assert_eq!(speed(14), 0.0);
}

#[test]
fn garden_level_config_has_no_enemies() {
    let cfg = level_config(13);
    assert_eq!(cfg.enemy_speed_multiplier_milli as f32, 0.0);
    assert!(cfg.maze_file.contains("garden"));
}

#[test]
fn level_numbers_exactly() {
    let cfg = level_config(6);
    assert_eq!(cfg.enemy_speed_multiplier_milli, 1400);
    assert_eq!(cfg.weapon_duration_ms, 6000);
    assert_eq!(cfg.pen_release_interval_ms, 2250);
    assert!(!cfg.is_garden);
    let cfg = level_config(12);
    assert_eq!(cfg.enemy_speed_multiplier_milli, 1880);
    assert_eq!(cfg.weapon_duration_ms, 3600);
    assert_eq!(cfg.pen_release_interval_ms, 1350);
    assert_eq!(cfg.maze_file, "assets/maps/level_04.txt");
    let cfg = level_config(u32::MAX);
    assert_eq!(cfg.maze_file, "assets/maps/garden.txt");
    assert_eq!(cfg.weapon_duration_ms, 8000);
    assert_eq!(cfg.pen_release_interval_ms, 3000);
}

#[test]
fn pick_quote_returns_from_pool() {
    let mut state = NarrationState::new();
    let quote = pick_quote(MONEY_QUOTES, &mut state);
    assert!(MONEY_QUOTES.contains(&quote));
}

#[test]
fn pick_quote_no_consecutive_duplicates() {
    let mut state = NarrationState::new();
    let first = pick_quote(MONEY_QUOTES, &mut state);
    let second = pick_quote(MONEY_QUOTES, &mut state);
    assert_ne!(first, second);
}

#[test]
fn pick_quote_cycles_and_handles_small_pools() {
    let mut state = NarrationState::new();
    for k in 0..12 {
        assert_eq!(pick_quote(MONEY_QUOTES, &mut state), MONEY_QUOTES[k % MONEY_QUOTES.len()]);
    }
    let single: &[&str] = &["only"];
    assert_eq!(pick_quote(single, &mut state), "only");
    assert_eq!(pick_quote(single, &mut state), "only");
    let empty: &[&str] = &[];
    assert_eq!(pick_quote(empty, &mut state), "");
    assert_eq!(state.last_quote, Some(0));
}

#[test]
fn garden_level_suppresses() {
    let level = CurrentLevel(GARDEN_LEVEL);
    assert!(is_garden_level(&level));
    let normal_level = CurrentLevel(1);
    assert!(!is_garden_level(&normal_level));
}
