//! Data model of the statistics store.
//!
//! Timestamps are plain integers: microseconds since the Unix epoch, so the
//! store's timeline order is integer order. Pick and win rates are stored
//! scaled to parts per million (a rate of 0.5 is 500_000); the boundary
//! converts to and from fractional display values.

use vstd::prelude::*;

verus! {

/// Role a hero plays; a free categorical tag as far as the core is concerned.
#[derive(Clone, Copy, PartialEq, Eq, Structural, Debug)]
pub enum HeroClass {
    Support,
    Damage,
    Tank,
}

/// Kind of map the statistic was collected on.
#[derive(Clone, Copy, PartialEq, Eq, Structural, Debug)]
pub enum MapType {
    Control,
    Escort,
    Flashpoint,
    Hybrid,
    Push,
    Clash,
}

/// A persisted statistics row. `id`, `inserted_at` and `updated_at` are
/// assigned by the store.
pub struct HeroStats {
    pub id: i32,
    pub hero_id: String,
    pub hero_class: HeroClass,
    /// Pick rate scaled to parts per million, if known.
    pub pick_rate: Option<u32>,
    /// Win rate scaled to parts per million, if known.
    pub win_rate: Option<u32>,
    pub region: String,
    pub platform: String,
    pub gamemode: String,
    pub map: String,
    pub map_type: MapType,
    pub tier: String,
    /// Microseconds since the Unix epoch; part of the natural key.
    pub inserted_at: i64,
    /// Microseconds since the Unix epoch; advanced on every merge.
    pub updated_at: i64,
}

impl Clone for HeroStats {
    fn clone(&self) -> (res: Self)
        ensures
            res == *self,
    {
        HeroStats {
            id: self.id,
            hero_id: self.hero_id.clone(),
            hero_class: self.hero_class,
            pick_rate: self.pick_rate,
            win_rate: self.win_rate,
            region: self.region.clone(),
            platform: self.platform.clone(),
            gamemode: self.gamemode.clone(),
            map: self.map.clone(),
            map_type: self.map_type,
            tier: self.tier.clone(),
            inserted_at: self.inserted_at,
            updated_at: self.updated_at,
        }
    }
}

/// A candidate row handed to ingestion: no surrogate id, no store-assigned
/// timestamps. A candidate may carry its own snapshot timestamp, which then
/// serves as the key component and as `inserted_at`; otherwise the ingestion
/// time is used.
pub struct CreateHeroStats {
    pub hero_id: String,
    pub hero_class: HeroClass,
    pub pick_rate: Option<u32>,
    pub win_rate: Option<u32>,
    pub region: String,
    pub platform: String,
    pub gamemode: String,
    pub map: String,
    pub map_type: MapType,
    pub tier: String,
    /// Snapshot time in microseconds since the Unix epoch, if supplied.
    pub timestamp: Option<i64>,
}

impl Clone for CreateHeroStats {
    fn clone(&self) -> (res: Self)
        ensures
            res == *self,
    {
        CreateHeroStats {
            hero_id: self.hero_id.clone(),
            hero_class: self.hero_class,
            pick_rate: self.pick_rate,
            win_rate: self.win_rate,
            region: self.region.clone(),
            platform: self.platform.clone(),
            gamemode: self.gamemode.clone(),
            map: self.map.clone(),
            map_type: self.map_type,
            tier: self.tier.clone(),
            timestamp: self.timestamp,
        }
    }
}

/// A partial update to a stored row; every absent field is left untouched.
pub struct UpdateHeroStats {
    pub hero_id: Option<String>,
    pub hero_class: HeroClass,
    pub pick_rate: Option<u32>,
    pub win_rate: Option<u32>,
    pub region: Option<String>,
    pub platform: Option<String>,
    pub gamemode: Option<String>,
    pub map: Option<String>,
    pub map_type: MapType,
    pub tier: Option<String>,
    pub timestamp: Option<i64>,
}

/// The natural key of a row: the seven fields that decide whether two
/// statistics are the same snapshot and must be merged, not duplicated.
pub struct NaturalKey {
    pub hero_id: Seq<char>,
    pub region: Seq<char>,
    pub platform: Seq<char>,
    pub gamemode: Seq<char>,
    pub map: Seq<char>,
    pub tier: Seq<char>,
    pub inserted_at: int,
}

/// The natural key of a stored row.
pub open spec fn key_of(r: HeroStats) -> NaturalKey {
    NaturalKey {
        hero_id: r.hero_id@,
        region: r.region@,
        platform: r.platform@,
        gamemode: r.gamemode@,
        map: r.map@,
        tier: r.tier@,
        inserted_at: r.inserted_at as int,
    }
}

/// The key timestamp a candidate resolves to when ingested at time `now`:
/// its own snapshot time if it supplies one, else `now`.
pub open spec fn spec_key_time(c: CreateHeroStats, now: i64) -> i64 {
    match c.timestamp {
        Some(t) => t,
        None => now,
    }
}

/// The natural key a candidate resolves to when ingested at time `now`.
pub open spec fn candidate_key(c: CreateHeroStats, now: i64) -> NaturalKey {
    NaturalKey {
        hero_id: c.hero_id@,
        region: c.region@,
        platform: c.platform@,
        gamemode: c.gamemode@,
        map: c.map@,
        tier: c.tier@,
        inserted_at: spec_key_time(c, now) as int,
    }
}

/// Row-level validity: the store refuses a row with an empty hero
/// identifier (its non-key NOT NULL / non-empty constraint). A candidate
/// that fails this is a per-row failure during batch ingestion, never a
/// batch-level error.
pub open spec fn row_ok(c: CreateHeroStats) -> bool {
    c.hero_id@.len() > 0
}

/// Executable check of [`row_ok`].
pub fn check_row_ok(c: &CreateHeroStats) -> (r: bool)
    ensures
        r == row_ok(*c),
{
    !c.hero_id.as_str().is_empty()
}

/// The key timestamp a candidate resolves to when ingested at time `now`.
pub fn key_time(c: &CreateHeroStats, now: i64) -> (r: i64)
    ensures
        r == spec_key_time(*c, now),
{
    match c.timestamp {
        Some(t) => t,
        None => now,
    }
}

} // verus!
