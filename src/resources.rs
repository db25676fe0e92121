//! Game-wide counters and the configuration of each level.

use vstd::prelude::*;
use vstd::string::StringExecFns;

use crate::combat::WeaponType;

verus! {

/// Points scored.
#[derive(Debug, Clone, Copy, PartialEq, Eq, Structural)]
pub struct Score(pub u64);

/// The level being played, counted from one.
#[derive(Debug, Clone, Copy, PartialEq, Eq, Structural)]
pub struct CurrentLevel(pub u32);

/// Lives left.
#[derive(Debug, Clone, Copy, PartialEq, Eq, Structural)]
pub struct Lives(pub u32);

/// The luxury item that a level offers.
#[derive(Debug, Clone, Copy, PartialEq, Eq, Hash, Structural)]
pub enum LuxuryType {
    GoldGrill,
    Chain,
    Rolex,
    Goblet,
    FurCoat,
    GoldToilet,
}

/// The first level of the garden, where no enemy comes.
pub const GARDEN_LEVEL: u32 = 13;

/// The settings of one level. Rates and durations are in thousandths: a
/// speed multiplier of 1080 is 1.08, a duration of 3000 is three seconds.
#[derive(Debug, Clone)]
pub struct LevelConfig {
    pub maze_file: String,
    pub weapon_type: WeaponType,
    pub luxury_type: LuxuryType,
    pub is_garden: bool,
    pub enemy_speed_multiplier_milli: u32,
    pub weapon_duration_ms: u32,
    pub pen_release_interval_ms: u32,
}

/// The maze file of a level: four mazes in turn, then the garden.
pub open spec fn maze_file_of(level: int) -> Seq<char> {
    if level >= 13 {
        "assets/maps/garden.txt"@
    } else if (level - 1) % 4 == 0 {
        "assets/maps/level_01.txt"@
    } else if (level - 1) % 4 == 1 {
        "assets/maps/level_02.txt"@
    } else if (level - 1) % 4 == 2 {
        "assets/maps/level_03.txt"@
    } else {
        "assets/maps/level_04.txt"@
    }
}

/// Weapon and luxury rise every two levels; the garden keeps the first pair.
pub open spec fn rewards_of(level: int) -> (WeaponType, LuxuryType) {
    if level >= 13 || level <= 2 {
        (WeaponType::BrassKnuckles, LuxuryType::GoldGrill)
    } else if level <= 4 {
        (WeaponType::Bat, LuxuryType::Chain)
    } else if level <= 6 {
        (WeaponType::Knife, LuxuryType::Rolex)
    } else if level <= 8 {
        (WeaponType::Axe, LuxuryType::Goblet)
    } else if level <= 10 {
        (WeaponType::Chainsaw, LuxuryType::FurCoat)
    } else {
        (WeaponType::Chainsaw, LuxuryType::GoldToilet)
    }
}

pub open spec fn max_int(a: int, b: int) -> int {
    if a >= b {
        a
    } else {
        b
    }
}

/// Builds the configuration of a level. Up to level 12 enemies speed up by
/// 0.08 a level, the weapon lasts 0.4 s less a level (at least 3 s), and
/// the pen opens 0.15 s sooner a level (at least every second). From level
/// 13 on it is the garden: no enemy moves.
pub fn level_config(level: u32) -> (r: LevelConfig)
    requires
        level >= 1,
    ensures
        r.maze_file@ == maze_file_of(level as int),
        (r.weapon_type, r.luxury_type) == rewards_of(level as int),
        r.is_garden == (level >= GARDEN_LEVEL),
        level >= GARDEN_LEVEL ==> r.enemy_speed_multiplier_milli == 0 && r.weapon_duration_ms == 8000
            && r.pen_release_interval_ms == 3000,
        level < GARDEN_LEVEL ==> {
            &&& r.enemy_speed_multiplier_milli == 1000 + 80 * (level - 1)
            &&& r.weapon_duration_ms == max_int(8000 - 400 * (level - 1), 3000)
            &&& r.pen_release_interval_ms == max_int(3000 - 150 * (level - 1), 1000)
        },
{
    if level >= GARDEN_LEVEL {
        return LevelConfig {
            maze_file: String::from_str("assets/maps/garden.txt"),
            weapon_type: WeaponType::BrassKnuckles,
            luxury_type: LuxuryType::GoldGrill,
            is_garden: true,
            enemy_speed_multiplier_milli: 0,
            weapon_duration_ms: 8000,
            pen_release_interval_ms: 3000,
        };
    }
    let maze_file = match (level - 1) % 4 {
        0 => String::from_str("assets/maps/level_01.txt"),
        1 => String::from_str("assets/maps/level_02.txt"),
        2 => String::from_str("assets/maps/level_03.txt"),
        _ => String::from_str("assets/maps/level_04.txt"),
    };
    let (weapon_type, luxury_type) = if level <= 2 {
        (WeaponType::BrassKnuckles, LuxuryType::GoldGrill)
    } else if level <= 4 {
        (WeaponType::Bat, LuxuryType::Chain)
    } else if level <= 6 {
        (WeaponType::Knife, LuxuryType::Rolex)
    } else if level <= 8 {
        (WeaponType::Axe, LuxuryType::Goblet)
    } else if level <= 10 {
        (WeaponType::Chainsaw, LuxuryType::FurCoat)
    } else {
        (WeaponType::Chainsaw, LuxuryType::GoldToilet)
    };
    let step = level - 1;
    let weapon_cut = 400 * step;
    let pen_cut = 150 * step;
    LevelConfig {
        maze_file,
        weapon_type,
        luxury_type,
        is_garden: false,
        enemy_speed_multiplier_milli: 1000 + 80 * step,
        weapon_duration_ms: if weapon_cut <= 5000 { 8000 - weapon_cut } else { 3000 },
        pen_release_interval_ms: if pen_cut <= 2000 { 3000 - pen_cut } else { 1000 },
    }
}

/// Whether a level is the garden.
pub fn is_garden_level(level: &CurrentLevel) -> (r: bool)
    ensures
        r == (level.0 >= GARDEN_LEVEL),
{
    level.0 >= GARDEN_LEVEL
}

} // verus!
