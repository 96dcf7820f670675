//! Filling what a result left empty from laps that were captured live.
//!
//! An offline result carries fuel, virtual energy and tire wear of its own, an
//! online one carries none of it. A capture that is anchored to a driver of a
//! result fills the gaps of that driver's laps, and the virtual energy of the
//! rest of that session. What is there is never overwritten.

use vstd::prelude::*;

use crate::post_race::anchors;
use crate::post_race::anchors::AnchorCandidate;
use crate::post_race::evidence;
use crate::post_race::evidence::TimePair;
use crate::post_race::identity::DriverRow;
use crate::protocol::messages::Double;
use crate::text;

verus! {

/// What a lap used up, as far as it is known.
#[derive(Debug, Clone, Copy, PartialEq, Eq, Structural)]
pub struct Consumables {
    pub fuel_level: Option<Double>,
    pub fuel_used: Option<Double>,
    pub ve_level: Option<Double>,
    pub ve_used: Option<Double>,
    pub tw_fl: Option<Double>,
    pub tw_fr: Option<Double>,
    pub tw_rl: Option<Double>,
    pub tw_rr: Option<Double>,
}

/// A lap of an imported result.
#[derive(Debug, Clone, Copy, PartialEq, Eq, Structural)]
pub struct LapRow {
    pub driver_id: i64,
    pub lap_num: i64,
    /// None where the result has no time for the lap.
    pub lap_time: Option<Double>,
    pub used: Consumables,
}

/// One of our own laps, captured while driving.
#[derive(Debug)]
pub struct LiveLap {
    pub session_key: String,
    /// The name that the lap was driven under.
    pub player_name: String,
    pub lap_num: i64,
    pub lap_time: Option<Double>,
    pub used: Consumables,
}

/// A lap of another driver, captured while driving.
#[derive(Debug)]
pub struct LiveDriverLap {
    pub session_key: String,
    pub driver_name: String,
    pub lap_num: i64,
    pub ve_level: Option<Double>,
    pub ve_used: Option<Double>,
}

/// What a backfill wrote to, by whose laps they are.
#[derive(Debug, Clone, Copy, PartialEq, Eq, Structural)]
pub struct BackfillCounts {
    /// Our own laps, filled with fuel, virtual energy and tire wear.
    pub own_laps: usize,
    /// Laps of the field, filled with virtual energy only.
    pub field_laps: usize,
}

/// What is there, else what the capture has.
pub open spec fn or_else(there: Option<Double>, live: Option<Double>) -> Option<Double> {
    match there {
        Some(x) => Some(x),
        None => live,
    }
}

/// What is there, else what the capture has.
fn coalesce(there: Option<Double>, live: Option<Double>) -> (r: Option<Double>)
    ensures
        r == or_else(there, live),
{
    match there {
        Some(x) => Some(x),
        None => live,
    }
}

// ---------------------------------------------------------------------------
// Our own laps
// ---------------------------------------------------------------------------

/// Whether fuel or tire wear is missing from a lap.
pub open spec fn is_missing_something(c: Consumables) -> bool {
    c.fuel_level is None || c.fuel_used is None || c.tw_fl is None || c.tw_fr is None
        || c.tw_rl is None || c.tw_rr is None
}

/// Whether a capture has virtual energy that is missing from a lap.
pub open spec fn has_missing_energy(c: Consumables, live: Consumables) -> bool {
    c.ve_level is None && live.ve_level is Some || c.ve_used is None && live.ve_used is Some
}

/// A lap with its gaps filled from a capture.
pub open spec fn filled(c: Consumables, live: Consumables) -> Consumables {
    Consumables {
        fuel_level: or_else(c.fuel_level, live.fuel_level),
        fuel_used: or_else(c.fuel_used, live.fuel_used),
        ve_level: or_else(c.ve_level, live.ve_level),
        ve_used: or_else(c.ve_used, live.ve_used),
        tw_fl: or_else(c.tw_fl, live.tw_fl),
        tw_fr: or_else(c.tw_fr, live.tw_fr),
        tw_rl: or_else(c.tw_rl, live.tw_rl),
        tw_rr: or_else(c.tw_rr, live.tw_rr),
    }
}

/// What was captured of a lap in a session.
pub open spec fn captured_lap(
    lives: Seq<LiveLap>,
    key: Seq<char>,
    lap_num: i64,
) -> Option<Consumables>
    decreases lives.len(),
{
    if lives.len() == 0 {
        None
    } else if lives[0].session_key@ == key && lives[0].lap_num == lap_num {
        Some(lives[0].used)
    } else {
        captured_lap(lives.skip(1), key, lap_num)
    }
}

/// The capture that fills a lap, where the session is anchored to `driver`: by lap
/// number alone, so that a lap without a time is reached too. A lap that has its
/// fuel and tire wear is filled only if there is virtual energy to add.
pub open spec fn own_source(
    lap: LapRow,
    lives: Seq<LiveLap>,
    key: Seq<char>,
    driver: i64,
) -> Option<Consumables> {
    match captured_lap(lives, key, lap.lap_num) {
        Some(live) if lap.driver_id == driver && (is_missing_something(lap.used)
            || has_missing_energy(lap.used, live)) => Some(live),
        _ => None,
    }
}

/// A lap after our own laps have been filled.
pub open spec fn own_filled(
    lap: LapRow,
    lives: Seq<LiveLap>,
    key: Seq<char>,
    driver: i64,
) -> LapRow {
    match own_source(lap, lives, key, driver) {
        Some(live) => LapRow { used: filled(lap.used, live), ..lap },
        None => lap,
    }
}

/// What was captured of a lap in a session.
fn find_captured(lives: &Vec<LiveLap>, key: &str, lap_num: i64) -> (r: Option<Consumables>)
    ensures
        r == captured_lap(lives@, key@, lap_num),
{
    let mut i: usize = 0;
    proof {
        assert(lives@.skip(0) == lives@);
    }
    while i < lives.len()
        invariant
            i <= lives@.len(),
            captured_lap(lives@, key@, lap_num) == captured_lap(
                lives@.skip(i as int),
                key@,
                lap_num,
            ),
        decreases lives@.len() - i,
    {
        proof {
            assert(lives@.skip(i as int)[0] == lives@[i as int]);
            assert(lives@.skip(i as int).skip(1) == lives@.skip(i + 1));
        }
        if lives[i].lap_num == lap_num && text::same(&lives[i].session_key, key) {
            return Some(lives[i].used);
        }
        i += 1;
    }
    None
}

// ---------------------------------------------------------------------------
// The rest of the field
// ---------------------------------------------------------------------------

/// The driver with this id.
pub open spec fn driver_with(drivers: Seq<DriverRow>, id: i64) -> Option<DriverRow>
    decreases drivers.len(),
{
    if drivers.len() == 0 {
        None
    } else if drivers[0].id == id {
        Some(drivers[0])
    } else {
        driver_with(drivers.skip(1), id)
    }
}

/// How many entries of a session have this name.
pub open spec fn namesakes(drivers: Seq<DriverRow>, session: i64, name: Seq<char>) -> int
    decreases drivers.len(),
{
    if drivers.len() == 0 {
        0
    } else {
        namesakes(drivers.drop_last(), session, name) + (if drivers.last().session_id == session
            && drivers.last().name@ == name {
            1int
        } else {
            0
        })
    }
}

/// What was captured of another driver's lap in a session: the level and the use
/// of virtual energy.
pub open spec fn captured_energy(
    field: Seq<LiveDriverLap>,
    key: Seq<char>,
    name: Seq<char>,
    lap_num: i64,
) -> Option<(Option<Double>, Option<Double>)>
    decreases field.len(),
{
    if field.len() == 0 {
        None
    } else if field[0].session_key@ == key && field[0].driver_name@ == name && field[0].lap_num
        == lap_num {
        Some((field[0].ve_level, field[0].ve_used))
    } else {
        captured_energy(field.skip(1), key, name, lap_num)
    }
}

/// The driver that a lap belongs to, if it is in the session of the anchored
/// driver and the only entry there of its name.
pub open spec fn rival_of(
    lap: LapRow,
    drivers: Seq<DriverRow>,
    anchored: i64,
) -> Option<DriverRow> {
    match (driver_with(drivers, lap.driver_id), driver_with(drivers, anchored)) {
        (Some(d), Some(a)) => if d.session_id == a.session_id && namesakes(
            drivers,
            d.session_id,
            d.name@,
        ) == 1 {
            Some(d)
        } else {
            None
        },
        _ => None,
    }
}

/// The capture that fills the virtual energy of a lap.
pub open spec fn field_source(
    lap: LapRow,
    field: Seq<LiveDriverLap>,
    drivers: Seq<DriverRow>,
    key: Seq<char>,
    anchored: i64,
) -> Option<(Option<Double>, Option<Double>)> {
    if lap.used.ve_level is None || lap.used.ve_used is None {
        match rival_of(lap, drivers, anchored) {
            Some(d) => captured_energy(field, key, d.name@, lap.lap_num),
            None => None,
        }
    } else {
        None
    }
}

/// A lap after the virtual energy of the field has been filled.
pub open spec fn field_filled(
    lap: LapRow,
    field: Seq<LiveDriverLap>,
    drivers: Seq<DriverRow>,
    key: Seq<char>,
    anchored: i64,
) -> LapRow {
    match field_source(lap, field, drivers, key, anchored) {
        Some(live) => LapRow {
            used: Consumables {
                ve_level: or_else(lap.used.ve_level, live.0),
                ve_used: or_else(lap.used.ve_used, live.1),
                ..lap.used
            },
            ..lap
        },
        None => lap,
    }
}

/// The index of the driver with this id, or the number of drivers.
fn find_driver(drivers: &Vec<DriverRow>, id: i64) -> (k: usize)
    ensures
        k <= drivers@.len(),
        match driver_with(drivers@, id) {
            Some(d) => k < drivers@.len() && drivers@[k as int] == d,
            None => k == drivers@.len(),
        },
{
    let mut k: usize = 0;
    proof {
        assert(drivers@.skip(0) == drivers@);
    }
    while k < drivers.len() && drivers[k].id != id
        invariant
            k <= drivers@.len(),
            driver_with(drivers@, id) == driver_with(drivers@.skip(k as int), id),
        decreases drivers@.len() - k,
    {
        proof {
            assert(drivers@.skip(k as int)[0] == drivers@[k as int]);
            assert(drivers@.skip(k as int).skip(1) == drivers@.skip(k + 1));
        }
        k += 1;
    }
    proof {
        if k < drivers@.len() {
            assert(drivers@.skip(k as int)[0] == drivers@[k as int]);
        }
    }
    k
}

/// How many entries of a session have this name.
fn count_namesakes(drivers: &Vec<DriverRow>, session: i64, name: &str) -> (n: usize)
    ensures
        n == namesakes(drivers@, session, name@),
{
    let mut n: usize = 0;
    let mut i: usize = 0;
    while i < drivers.len()
        invariant
            i <= drivers@.len(),
            n <= i,
            n == namesakes(drivers@.take(i as int), session, name@),
        decreases drivers@.len() - i,
    {
        proof {
            let t = drivers@.take(i + 1);
            assert(t.drop_last() == drivers@.take(i as int));
            assert(t.last() == drivers@[i as int]);
        }
        if drivers[i].session_id == session && text::same(&drivers[i].name, name) {
            n += 1;
        }
        i += 1;
    }
    proof {
        assert(drivers@.take(i as int) == drivers@);
    }
    n
}

/// What was captured of another driver's lap in a session.
fn find_energy(
    field: &Vec<LiveDriverLap>,
    key: &str,
    name: &str,
    lap_num: i64,
) -> (r: Option<(Option<Double>, Option<Double>)>)
    ensures
        r == captured_energy(field@, key@, name@, lap_num),
{
    let mut i: usize = 0;
    proof {
        assert(field@.skip(0) == field@);
    }
    while i < field.len()
        invariant
            i <= field@.len(),
            captured_energy(field@, key@, name@, lap_num) == captured_energy(
                field@.skip(i as int),
                key@,
                name@,
                lap_num,
            ),
        decreases field@.len() - i,
    {
        proof {
            assert(field@.skip(i as int)[0] == field@[i as int]);
            assert(field@.skip(i as int).skip(1) == field@.skip(i + 1));
        }
        if field[i].lap_num == lap_num && text::same(&field[i].session_key, key) && text::same(
            &field[i].driver_name,
            name,
        ) {
            return Some((field[i].ve_level, field[i].ve_used));
        }
        i += 1;
    }
    None
}

// ---------------------------------------------------------------------------
// Passes over the laps
// ---------------------------------------------------------------------------

/// The laps after our own have been filled.
pub open spec fn own_pass(
    laps: Seq<LapRow>,
    lives: Seq<LiveLap>,
    key: Seq<char>,
    driver: i64,
) -> Seq<LapRow> {
    Seq::new(laps.len(), |i: int| own_filled(laps[i], lives, key, driver))
}

/// How many laps the pass over our own writes to.
pub open spec fn own_count(
    laps: Seq<LapRow>,
    lives: Seq<LiveLap>,
    key: Seq<char>,
    driver: i64,
) -> int
    decreases laps.len(),
{
    if laps.len() == 0 {
        0
    } else {
        own_count(laps.drop_last(), lives, key, driver) + (if own_source(
            laps.last(),
            lives,
            key,
            driver,
        ) is Some {
            1int
        } else {
            0
        })
    }
}

/// The laps after the virtual energy of the field has been filled.
pub open spec fn field_pass(
    laps: Seq<LapRow>,
    field: Seq<LiveDriverLap>,
    drivers: Seq<DriverRow>,
    key: Seq<char>,
    anchored: i64,
) -> Seq<LapRow> {
    Seq::new(laps.len(), |i: int| field_filled(laps[i], field, drivers, key, anchored))
}

/// How many laps the pass over the field writes to.
pub open spec fn field_count(
    laps: Seq<LapRow>,
    field: Seq<LiveDriverLap>,
    drivers: Seq<DriverRow>,
    key: Seq<char>,
    anchored: i64,
) -> int
    decreases laps.len(),
{
    if laps.len() == 0 {
        0
    } else {
        field_count(laps.drop_last(), field, drivers, key, anchored) + (if field_source(
            laps.last(),
            field,
            drivers,
            key,
            anchored,
        ) is Some {
            1int
        } else {
            0
        })
    }
}

/// Fills our own laps from a session that is anchored to `driver`.
fn fill_own_laps(laps: &mut Vec<LapRow>, lives: &Vec<LiveLap>, key: &str, driver: i64) -> (n: usize)
    ensures
        final(laps)@ == own_pass(old(laps)@, lives@, key@, driver),
        n == own_count(old(laps)@, lives@, key@, driver),
        n <= old(laps)@.len(),
{
    let ghost before = laps@;
    let len = laps.len();
    let mut n: usize = 0;
    let mut i: usize = 0;
    while i < len
        invariant
            i <= len,
            len == laps@.len(),
            len == before.len(),
            n <= i,
            n == own_count(before.take(i as int), lives@, key@, driver),
            forall|j: int|
                0 <= j < i ==> #[trigger] laps@[j] == own_filled(before[j], lives@, key@, driver),
            forall|j: int| i <= j < len ==> #[trigger] laps@[j] == before[j],
        decreases len - i,
    {
        proof {
            let t = before.take(i + 1);
            assert(t.drop_last() == before.take(i as int));
            assert(t.last() == before[i as int]);
        }
        let lap = laps[i];
        let c = lap.used;
        let missing = c.fuel_level.is_none() || c.fuel_used.is_none() || c.tw_fl.is_none()
            || c.tw_fr.is_none() || c.tw_rl.is_none() || c.tw_rr.is_none();
        let no_energy = c.ve_level.is_none() || c.ve_used.is_none();
        if lap.driver_id == driver && (missing || no_energy) {
            if let Some(live) = find_captured(lives, key, lap.lap_num) {
                let adds_energy = c.ve_level.is_none() && live.ve_level.is_some()
                    || c.ve_used.is_none() && live.ve_used.is_some();
                if missing || adds_energy {
                    let used = Consumables {
                        fuel_level: coalesce(c.fuel_level, live.fuel_level),
                        fuel_used: coalesce(c.fuel_used, live.fuel_used),
                        ve_level: coalesce(c.ve_level, live.ve_level),
                        ve_used: coalesce(c.ve_used, live.ve_used),
                        tw_fl: coalesce(c.tw_fl, live.tw_fl),
                        tw_fr: coalesce(c.tw_fr, live.tw_fr),
                        tw_rl: coalesce(c.tw_rl, live.tw_rl),
                        tw_rr: coalesce(c.tw_rr, live.tw_rr),
                    };
                    laps.set(i, LapRow { used, ..lap });
                    n += 1;
                }
            }
        }
        i += 1;
    }
    proof {
        assert(before.take(i as int) == before);
        assert(laps@ == own_pass(before, lives@, key@, driver));
    }
    n
}

/// Fills the virtual energy of the field from a session that is anchored to
/// `anchored`. The anchor has identified the session, and within one session a
/// name identifies a driver, unless two entries have it.
fn fill_field_laps(
    laps: &mut Vec<LapRow>,
    field: &Vec<LiveDriverLap>,
    drivers: &Vec<DriverRow>,
    key: &str,
    anchored: i64,
) -> (n: usize)
    ensures
        final(laps)@ == field_pass(old(laps)@, field@, drivers@, key@, anchored),
        n == field_count(old(laps)@, field@, drivers@, key@, anchored),
        n <= old(laps)@.len(),
{
    let ghost before = laps@;
    let len = laps.len();
    let a = find_driver(drivers, anchored);
    let mut n: usize = 0;
    let mut i: usize = 0;
    while i < len
        invariant
            i <= len,
            len == laps@.len(),
            len == before.len(),
            n <= i,
            n == field_count(before.take(i as int), field@, drivers@, key@, anchored),
            a <= drivers@.len(),
            match driver_with(drivers@, anchored) {
                Some(d) => a < drivers@.len() && drivers@[a as int] == d,
                None => a == drivers@.len(),
            },
            forall|j: int|
                0 <= j < i ==> #[trigger] laps@[j] == field_filled(
                    before[j],
                    field@,
                    drivers@,
                    key@,
                    anchored,
                ),
            forall|j: int| i <= j < len ==> #[trigger] laps@[j] == before[j],
        decreases len - i,
    {
        proof {
            let t = before.take(i + 1);
            assert(t.drop_last() == before.take(i as int));
            assert(t.last() == before[i as int]);
        }
        let lap = laps[i];
        if a < drivers.len() && (lap.used.ve_level.is_none() || lap.used.ve_used.is_none()) {
            let k = find_driver(drivers, lap.driver_id);
            if k < drivers.len() && drivers[k].session_id == drivers[a].session_id
                && count_namesakes(drivers, drivers[k].session_id, &drivers[k].name) == 1 {
                if let Some(live) = find_energy(field, key, &drivers[k].name, lap.lap_num) {
                    let mut used = lap.used;
                    used.ve_level = coalesce(lap.used.ve_level, live.0);
                    used.ve_used = coalesce(lap.used.ve_used, live.1);
                    laps.set(i, LapRow { used, ..lap });
                    n += 1;
                }
            }
        }
        i += 1;
    }
    proof {
        assert(before.take(i as int) == before);
        assert(laps@ == field_pass(before, field@, drivers@, key@, anchored));
    }
    n
}

/// The laps and the counts after the first `n` anchors.
pub open spec fn backfilled(
    laps: Seq<LapRow>,
    lives: Seq<LiveLap>,
    field: Seq<LiveDriverLap>,
    drivers: Seq<DriverRow>,
    anchors: Seq<(String, i64)>,
    n: int,
) -> (Seq<LapRow>, int, int)
    decreases n,
{
    if n <= 0 {
        (laps, 0, 0)
    } else {
        let before = backfilled(laps, lives, field, drivers, anchors, n - 1);
        let key = anchors[n - 1].0@;
        let driver = anchors[n - 1].1;
        let own = own_pass(before.0, lives, key, driver);
        (
            field_pass(own, field, drivers, key, driver),
            before.1 + own_count(before.0, lives, key, driver),
            before.2 + field_count(own, field, drivers, key, driver),
        )
    }
}

/// Fills what the results left empty from the captures that are anchored to them.
pub fn fill_anchored(
    laps: &mut Vec<LapRow>,
    lives: &Vec<LiveLap>,
    field: &Vec<LiveDriverLap>,
    drivers: &Vec<DriverRow>,
    anchors: &Vec<(String, i64)>,
) -> (counts: BackfillCounts)
    requires
        anchors@.len() * old(laps)@.len() <= usize::MAX,
    ensures
        ({
            let after = backfilled(
                old(laps)@,
                lives@,
                field@,
                drivers@,
                anchors@,
                anchors@.len() as int,
            );
            &&& final(laps)@ == after.0
            &&& counts.own_laps == after.1
            &&& counts.field_laps == after.2
        }),
{
    let ghost before = laps@;
    let mut counts = BackfillCounts { own_laps: 0, field_laps: 0 };
    let mut i: usize = 0;
    while i < anchors.len()
        invariant
            i <= anchors@.len(),
            laps@.len() == before.len(),
            anchors@.len() * before.len() <= usize::MAX,
            counts.own_laps <= i * before.len(),
            counts.field_laps <= i * before.len(),
            ({
                let b = backfilled(before, lives@, field@, drivers@, anchors@, i as int);
                laps@ == b.0 && counts.own_laps == b.1 && counts.field_laps == b.2
            }),
        decreases anchors@.len() - i,
    {
        proof {
            let n = before.len() as int;
            let m = anchors@.len() as int;
            assert(i * n + n == (i + 1) * n) by (nonlinear_arith);
            assert((i + 1) * n <= m * n) by (nonlinear_arith)
                requires
                    i + 1 <= m,
                    0 <= n,
            ;
        }
        let own = fill_own_laps(laps, lives, &anchors[i].0, anchors[i].1);
        let others = fill_field_laps(laps, field, drivers, &anchors[i].0, anchors[i].1);
        counts.own_laps = counts.own_laps + own;
        counts.field_laps = counts.field_laps + others;
        i += 1;
    }
    counts
}

// ---------------------------------------------------------------------------
// Laws of the backfill
// ---------------------------------------------------------------------------

/// Whether a value was kept: what was there is there, unchanged.
pub open spec fn keeps(a: Option<Double>, b: Option<Double>) -> bool {
    a is Some ==> b == a
}

/// Whether a lap was at most filled: it is the same lap, and what was there is
/// there, unchanged.
pub open spec fn only_filled(a: LapRow, b: LapRow) -> bool {
    &&& b.driver_id == a.driver_id
    &&& b.lap_num == a.lap_num
    &&& b.lap_time == a.lap_time
    &&& keeps(a.used.fuel_level, b.used.fuel_level)
    &&& keeps(a.used.fuel_used, b.used.fuel_used)
    &&& keeps(a.used.ve_level, b.used.ve_level)
    &&& keeps(a.used.ve_used, b.used.ve_used)
    &&& keeps(a.used.tw_fl, b.used.tw_fl)
    &&& keeps(a.used.tw_fr, b.used.tw_fr)
    &&& keeps(a.used.tw_rl, b.used.tw_rl)
    &&& keeps(a.used.tw_rr, b.used.tw_rr)
}

/// The game's own numbers are never overwritten, and no lap comes, goes or moves.
pub proof fn law_only_gaps_are_filled(
    laps: Seq<LapRow>,
    lives: Seq<LiveLap>,
    field: Seq<LiveDriverLap>,
    drivers: Seq<DriverRow>,
    anchors: Seq<(String, i64)>,
    n: int,
)
    requires
        0 <= n <= anchors.len(),
    ensures
        ({
            let after = backfilled(laps, lives, field, drivers, anchors, n).0;
            after.len() == laps.len() && forall|i: int|
                0 <= i < laps.len() ==> only_filled(laps[i], #[trigger] after[i])
        }),
    decreases n,
{
    if n > 0 {
        law_only_gaps_are_filled(laps, lives, field, drivers, anchors, n - 1);
        let before = backfilled(laps, lives, field, drivers, anchors, n - 1).0;
        let after = backfilled(laps, lives, field, drivers, anchors, n).0;
        assert forall|i: int| 0 <= i < laps.len() implies only_filled(
            laps[i],
            #[trigger] after[i],
        ) by {
            assert(only_filled(laps[i], before[i]));
        }
    }
}

/// Our own laps get all of it: every gap of a lap that the anchored session has
/// captured takes the captured value, with or without a lap time.
pub proof fn law_our_own_laps_get_all_of_it(
    lap: LapRow,
    lives: Seq<LiveLap>,
    key: Seq<char>,
    driver: i64,
    live: Consumables,
)
    requires
        lap.driver_id == driver,
        captured_lap(lives, key, lap.lap_num) == Some(live),
    ensures
        own_filled(lap, lives, key, driver).used == filled(lap.used, live),
{
}

/// A lap after one anchor.
pub open spec fn lap_after(
    lap: LapRow,
    lives: Seq<LiveLap>,
    field: Seq<LiveDriverLap>,
    drivers: Seq<DriverRow>,
    anchor: (String, i64),
) -> LapRow {
    field_filled(
        own_filled(lap, lives, anchor.0@, anchor.1),
        field,
        drivers,
        anchor.0@,
        anchor.1,
    )
}

/// A lap after the first `n` anchors.
pub open spec fn lap_backfilled(
    lap: LapRow,
    lives: Seq<LiveLap>,
    field: Seq<LiveDriverLap>,
    drivers: Seq<DriverRow>,
    anchors: Seq<(String, i64)>,
    n: int,
) -> LapRow
    decreases n,
{
    if n <= 0 {
        lap
    } else {
        lap_after(
            lap_backfilled(lap, lives, field, drivers, anchors, n - 1),
            lives,
            field,
            drivers,
            anchors[n - 1],
        )
    }
}

/// Each lap is filled on its own.
proof fn lemma_lap_by_lap(
    laps: Seq<LapRow>,
    lives: Seq<LiveLap>,
    field: Seq<LiveDriverLap>,
    drivers: Seq<DriverRow>,
    anchors: Seq<(String, i64)>,
    n: int,
)
    requires
        0 <= n <= anchors.len(),
    ensures
        ({
            let after = backfilled(laps, lives, field, drivers, anchors, n).0;
            after.len() == laps.len() && forall|i: int|
                0 <= i < laps.len() ==> #[trigger] after[i] == lap_backfilled(
                    laps[i],
                    lives,
                    field,
                    drivers,
                    anchors,
                    n,
                )
        }),
    decreases n,
{
    if n > 0 {
        lemma_lap_by_lap(laps, lives, field, drivers, anchors, n - 1);
        let before = backfilled(laps, lives, field, drivers, anchors, n - 1).0;
        let after = backfilled(laps, lives, field, drivers, anchors, n).0;
        assert forall|i: int| 0 <= i < laps.len() implies #[trigger] after[i] == lap_backfilled(
            laps[i],
            lives,
            field,
            drivers,
            anchors,
            n,
        ) by {
            assert(before[i] == lap_backfilled(laps[i], lives, field, drivers, anchors, n - 1));
        }
    }
}

/// From anchor `m` on, a lap is only filled.
proof fn lemma_lap_grows(
    lap: LapRow,
    lives: Seq<LiveLap>,
    field: Seq<LiveDriverLap>,
    drivers: Seq<DriverRow>,
    anchors: Seq<(String, i64)>,
    m: int,
    n: int,
)
    requires
        0 <= m <= n <= anchors.len(),
    ensures
        only_filled(
            lap_backfilled(lap, lives, field, drivers, anchors, m),
            lap_backfilled(lap, lives, field, drivers, anchors, n),
        ),
    decreases n,
{
    if m < n {
        lemma_lap_grows(lap, lives, field, drivers, anchors, m, n - 1);
    }
}

/// An anchor that has had its turn has nothing left to fill in a lap that was
/// only filled since.
proof fn lemma_anchor_is_done(
    lap: LapRow,
    later: LapRow,
    lives: Seq<LiveLap>,
    field: Seq<LiveDriverLap>,
    drivers: Seq<DriverRow>,
    anchor: (String, i64),
)
    requires
        only_filled(lap_after(lap, lives, field, drivers, anchor), later),
    ensures
        lap_after(later, lives, field, drivers, anchor) == later,
{
    let own = own_filled(lap, lives, anchor.0@, anchor.1);
    assert(only_filled(lap, own));
    assert(only_filled(own, lap_after(lap, lives, field, drivers, anchor)));
    assert(only_filled(own, later));
    assert(own_filled(later, lives, anchor.0@, anchor.1) == later);
    assert(field_filled(later, field, drivers, anchor.0@, anchor.1) == later);
}

/// A second backfill from the same captures changes no lap.
pub proof fn law_backfilling_again_changes_nothing(
    laps: Seq<LapRow>,
    lives: Seq<LiveLap>,
    field: Seq<LiveDriverLap>,
    drivers: Seq<DriverRow>,
    anchors: Seq<(String, i64)>,
)
    ensures
        ({
            let n = anchors.len() as int;
            let once = backfilled(laps, lives, field, drivers, anchors, n).0;
            backfilled(once, lives, field, drivers, anchors, n).0 == once
        }),
{
    let n = anchors.len() as int;
    let once = backfilled(laps, lives, field, drivers, anchors, n).0;
    let twice = backfilled(once, lives, field, drivers, anchors, n).0;
    lemma_lap_by_lap(laps, lives, field, drivers, anchors, n);
    lemma_lap_by_lap(once, lives, field, drivers, anchors, n);
    assert forall|i: int| 0 <= i < once.len() implies #[trigger] twice[i] == once[i] by {
        assert(once[i] == lap_backfilled(laps[i], lives, field, drivers, anchors, n));
        lemma_round_is_stable(laps[i], lives, field, drivers, anchors, n);
    }
    assert(twice =~= once);
}

/// Once every anchor has had its turn, a further round up to anchor `n` leaves a
/// lap as it is.
proof fn lemma_round_is_stable(
    lap: LapRow,
    lives: Seq<LiveLap>,
    field: Seq<LiveDriverLap>,
    drivers: Seq<DriverRow>,
    anchors: Seq<(String, i64)>,
    n: int,
)
    requires
        0 <= n <= anchors.len(),
    ensures
        ({
            let done = lap_backfilled(lap, lives, field, drivers, anchors, anchors.len() as int);
            lap_backfilled(done, lives, field, drivers, anchors, n) == done
        }),
    decreases n,
{
    if n > 0 {
        let all = anchors.len() as int;
        let done = lap_backfilled(lap, lives, field, drivers, anchors, all);
        lemma_round_is_stable(lap, lives, field, drivers, anchors, n - 1);
        lemma_lap_grows(lap, lives, field, drivers, anchors, n, all);
        lemma_anchor_is_done(
            lap_backfilled(lap, lives, field, drivers, anchors, n - 1),
            done,
            lives,
            field,
            drivers,
            anchors[n - 1],
        );
    }
}

/// Until the anchor of its own driver has its turn, a lap that no earlier anchor
/// adds energy to stays as it is.
proof fn lemma_lap_waits(
    lap: LapRow,
    lives: Seq<LiveLap>,
    field: Seq<LiveDriverLap>,
    drivers: Seq<DriverRow>,
    anchors: Seq<(String, i64)>,
    a: int,
    n: int,
)
    requires
        0 <= n <= a < anchors.len(),
        stays_until(lap, field, drivers, anchors, a),
    ensures
        lap_backfilled(lap, lives, field, drivers, anchors, n) == lap,
    decreases n,
{
    if n > 0 {
        lemma_lap_waits(lap, lives, field, drivers, anchors, a, n - 1);
        assert(anchors[n - 1].1 != lap.driver_id);
    }
}

/// Whether no anchor before anchor `a` is of the lap's driver or adds energy to it.
pub open spec fn stays_until(
    lap: LapRow,
    field: Seq<LiveDriverLap>,
    drivers: Seq<DriverRow>,
    anchors: Seq<(String, i64)>,
    a: int,
) -> bool {
    forall|b: int|
        0 <= b < a ==> (#[trigger] anchors[b]).1 != lap.driver_id && field_filled(
            lap,
            field,
            drivers,
            anchors[b].0@,
            anchors[b].1,
        ) == lap
}

/// Whether two laps have the same fuel and the same tire wear, or the same lack of it.
pub open spec fn same_fuel_and_tires(a: Consumables, b: Consumables) -> bool {
    &&& a.fuel_level == b.fuel_level
    &&& a.fuel_used == b.fuel_used
    &&& a.tw_fl == b.tw_fl
    &&& a.tw_fr == b.tw_fr
    &&& a.tw_rl == b.tw_rl
    &&& a.tw_rr == b.tw_rr
}

/// Whether no anchor but anchor `a` is of the lap's driver.
pub open spec fn no_other_anchor(lap: LapRow, anchors: Seq<(String, i64)>, a: int) -> bool {
    forall|b: int| 0 <= b < anchors.len() && b != a ==> (#[trigger] anchors[b]).1 != lap.driver_id
}

/// From anchor `m` to anchor `n` no fuel and no tire wear comes to a lap that none
/// of those anchors is the driver of.
proof fn lemma_fuel_waits(
    lap: LapRow,
    lives: Seq<LiveLap>,
    field: Seq<LiveDriverLap>,
    drivers: Seq<DriverRow>,
    anchors: Seq<(String, i64)>,
    m: int,
    n: int,
)
    requires
        0 <= m <= n <= anchors.len(),
        forall|b: int| m <= b < n ==> (#[trigger] anchors[b]).1 != lap.driver_id,
    ensures
        same_fuel_and_tires(
            lap_backfilled(lap, lives, field, drivers, anchors, m).used,
            lap_backfilled(lap, lives, field, drivers, anchors, n).used,
        ),
    decreases n,
{
    if m < n {
        lemma_fuel_waits(lap, lives, field, drivers, anchors, m, n - 1);
        lemma_lap_grows(lap, lives, field, drivers, anchors, 0, n - 1);
        let before = lap_backfilled(lap, lives, field, drivers, anchors, n - 1);
        law_a_capture_is_not_pinned_on_another_driver(
            before,
            lives,
            field,
            drivers,
            anchors[n - 1],
        );
    }
}

/// What an anchored session has captured of a lap decides what becomes of the lap
/// in the end, whatever other sessions are anchored elsewhere: a value that was
/// there is kept, and a captured one is taken where there was none. Where the driver
/// has no other anchor, fuel and tire wear are that and nothing else: what neither
/// the lap nor the capture has stays empty.
pub proof fn law_the_anchored_capture_decides(
    lap: LapRow,
    lives: Seq<LiveLap>,
    field: Seq<LiveDriverLap>,
    drivers: Seq<DriverRow>,
    anchors: Seq<(String, i64)>,
    a: int,
    live: Consumables,
)
    requires
        0 <= a < anchors.len(),
        anchors[a].1 == lap.driver_id,
        captured_lap(lives, anchors[a].0@, lap.lap_num) == Some(live),
    ensures
        ({
            let after = lap_backfilled(lap, lives, field, drivers, anchors, anchors.len() as int);
            let want = filled(lap.used, live);
            &&& no_other_anchor(lap, anchors, a) ==> same_fuel_and_tires(after.used, want)
            &&& stays_until(lap, field, drivers, anchors, a) ==> {
                &&& keeps(want.fuel_level, after.used.fuel_level)
                &&& keeps(want.fuel_used, after.used.fuel_used)
                &&& keeps(want.ve_level, after.used.ve_level)
                &&& keeps(want.ve_used, after.used.ve_used)
                &&& keeps(want.tw_fl, after.used.tw_fl)
                &&& keeps(want.tw_fr, after.used.tw_fr)
                &&& keeps(want.tw_rl, after.used.tw_rl)
                &&& keeps(want.tw_rr, after.used.tw_rr)
            }
        }),
{
    let all = anchors.len() as int;
    if no_other_anchor(lap, anchors, a) {
        lemma_fuel_waits(lap, lives, field, drivers, anchors, 0, a);
        lemma_lap_grows(lap, lives, field, drivers, anchors, 0, a);
        let before = lap_backfilled(lap, lives, field, drivers, anchors, a);
        law_our_own_laps_get_all_of_it(before, lives, anchors[a].0@, anchors[a].1, live);
        lemma_fuel_waits(lap, lives, field, drivers, anchors, a + 1, all);
    }
    if stays_until(lap, field, drivers, anchors, a) {
        lemma_lap_waits(lap, lives, field, drivers, anchors, a, a);
        law_our_own_laps_get_all_of_it(lap, lives, anchors[a].0@, anchors[a].1, live);
        lemma_lap_grows(lap, lives, field, drivers, anchors, a + 1, all);
    }
}

/// Without a capture of the lap in a session that is anchored to its driver, its fuel
/// and tire wear stay as they were.
pub proof fn law_fuel_and_tires_need_an_own_capture(
    lap: LapRow,
    lives: Seq<LiveLap>,
    field: Seq<LiveDriverLap>,
    drivers: Seq<DriverRow>,
    anchors: Seq<(String, i64)>,
)
    requires
        forall|a: int|
            0 <= a < anchors.len() && (#[trigger] anchors[a]).1 == lap.driver_id ==> captured_lap(
                lives,
                anchors[a].0@,
                lap.lap_num,
            ) is None,
    ensures
        same_fuel_and_tires(
            lap_backfilled(lap, lives, field, drivers, anchors, anchors.len() as int).used,
            lap.used,
        ),
{
    lemma_no_own_capture(lap, lives, field, drivers, anchors, anchors.len() as int);
}

proof fn lemma_no_own_capture(
    lap: LapRow,
    lives: Seq<LiveLap>,
    field: Seq<LiveDriverLap>,
    drivers: Seq<DriverRow>,
    anchors: Seq<(String, i64)>,
    n: int,
)
    requires
        0 <= n <= anchors.len(),
        forall|a: int|
            0 <= a < anchors.len() && (#[trigger] anchors[a]).1 == lap.driver_id ==> captured_lap(
                lives,
                anchors[a].0@,
                lap.lap_num,
            ) is None,
    ensures
        same_fuel_and_tires(
            lap_backfilled(lap, lives, field, drivers, anchors, n).used,
            lap.used,
        ),
    decreases n,
{
    if n > 0 {
        lemma_no_own_capture(lap, lives, field, drivers, anchors, n - 1);
        lemma_lap_grows(lap, lives, field, drivers, anchors, 0, n - 1);
        assert(anchors[n - 1].1 == lap.driver_id ==> captured_lap(
            lives,
            anchors[n - 1].0@,
            lap.lap_num,
        ) is None);
    }
}

/// A name held by two entries of a session is left alone: no lap of either is
/// filled as one of the field.
pub proof fn law_an_ambiguous_name_is_left_alone(
    lap: LapRow,
    field: Seq<LiveDriverLap>,
    drivers: Seq<DriverRow>,
    key: Seq<char>,
    anchored: i64,
)
    requires
        driver_with(drivers, lap.driver_id) matches Some(d) ==> namesakes(
            drivers,
            d.session_id,
            d.name@,
        ) != 1,
    ensures
        field_filled(lap, field, drivers, key, anchored) == lap,
{
}

/// Fuel and tire wear go to the anchored driver's laps and to nobody else's.
pub proof fn law_a_capture_is_not_pinned_on_another_driver(
    lap: LapRow,
    lives: Seq<LiveLap>,
    field: Seq<LiveDriverLap>,
    drivers: Seq<DriverRow>,
    anchor: (String, i64),
)
    requires
        lap.driver_id != anchor.1,
    ensures
        same_fuel_and_tires(lap_after(lap, lives, field, drivers, anchor).used, lap.used),
{
}

// ---------------------------------------------------------------------------
// What each column of a lap becomes
// ---------------------------------------------------------------------------

/// The first capture of a session and a lap number is the one that counts.
proof fn lemma_captured_first(lives: Seq<LiveLap>, key: Seq<char>, lap_num: i64, m: int)
    requires
        0 <= m < lives.len(),
        lives[m].session_key@ == key,
        lives[m].lap_num == lap_num,
        forall|k: int|
            0 <= k < m ==> (#[trigger] lives[k]).session_key@ != key || lives[k].lap_num != lap_num,
    ensures
        captured_lap(lives, key, lap_num) == Some(lives[m].used),
    decreases m,
{
    if m > 0 {
        let rest = lives.skip(1);
        assert(lives[0].session_key@ != key || lives[0].lap_num != lap_num);
        assert forall|k: int| 0 <= k < m - 1 implies (#[trigger] rest[k]).session_key@ != key
            || rest[k].lap_num != lap_num by {
            assert(rest[k] == lives[k + 1]);
        }
        assert(rest[m - 1] == lives[m]);
        lemma_captured_first(rest, key, lap_num, m - 1);
    }
}

/// Without a capture of a session and a lap number there is none.
proof fn lemma_not_captured(lives: Seq<LiveLap>, key: Seq<char>, lap_num: i64)
    requires
        forall|k: int|
            0 <= k < lives.len() ==> (#[trigger] lives[k]).session_key@ != key || lives[k].lap_num
                != lap_num,
    ensures
        captured_lap(lives, key, lap_num) is None,
    decreases lives.len(),
{
    if lives.len() > 0 {
        let rest = lives.skip(1);
        assert(lives[0].session_key@ != key || lives[0].lap_num != lap_num);
        assert forall|k: int| 0 <= k < rest.len() implies (#[trigger] rest[k]).session_key@ != key
            || rest[k].lap_num != lap_num by {
            assert(rest[k] == lives[k + 1]);
        }
        lemma_not_captured(rest, key, lap_num);
    }
}

/// The first entry with an id is the driver of that id.
proof fn lemma_driver_first(drivers: Seq<DriverRow>, id: i64, d: int)
    requires
        0 <= d < drivers.len(),
        drivers[d].id == id,
        forall|k: int| 0 <= k < d ==> (#[trigger] drivers[k]).id != id,
    ensures
        driver_with(drivers, id) == Some(drivers[d]),
    decreases d,
{
    if d > 0 {
        let rest = drivers.skip(1);
        assert(drivers[0].id != id);
        assert forall|k: int| 0 <= k < d - 1 implies (#[trigger] rest[k]).id != id by {
            assert(rest[k] == drivers[k + 1]);
        }
        assert(rest[d - 1] == drivers[d]);
        lemma_driver_first(rest, id, d - 1);
    }
}

/// The driver of an id is an entry with that id.
proof fn lemma_driver_is_listed(drivers: Seq<DriverRow>, id: i64)
    ensures
        driver_with(drivers, id) matches Some(r) ==> exists|d: int|
            0 <= d < drivers.len() && #[trigger] drivers[d] == r && r.id == id,
    decreases drivers.len(),
{
    if drivers.len() > 0 {
        if drivers[0].id != id {
            let rest = drivers.skip(1);
            lemma_driver_is_listed(rest, id);
            if driver_with(rest, id) is Some {
                let r = driver_with(rest, id)->Some_0;
                let d = choose|d: int| 0 <= d < rest.len() && #[trigger] rest[d] == r && r.id == id;
                assert(drivers[d + 1] == r);
            }
        }
    }
}

/// The number of namesakes, by the entries themselves: at most one entry makes at most
/// one, and two entries make two.
proof fn lemma_namesakes(drivers: Seq<DriverRow>, session: i64, name: Seq<char>)
    ensures
        namesakes(drivers, session, name) >= 0,
        (forall|k: int|
            0 <= k < drivers.len() ==> (#[trigger] drivers[k]).session_id != session
                || drivers[k].name@ != name) ==> namesakes(drivers, session, name) == 0,
        (exists|k: int|
            0 <= k < drivers.len() && (#[trigger] drivers[k]).session_id == session
                && drivers[k].name@ == name) ==> namesakes(drivers, session, name) >= 1,
    decreases drivers.len(),
{
    if drivers.len() > 0 {
        let front = drivers.drop_last();
        lemma_namesakes(front, session, name);
        if forall|k: int|
            0 <= k < drivers.len() ==> (#[trigger] drivers[k]).session_id != session
                || drivers[k].name@ != name {
            assert forall|k: int| 0 <= k < front.len() implies (#[trigger] front[k]).session_id
                != session || front[k].name@ != name by {
                assert(front[k] == drivers[k]);
            }
            assert(drivers[drivers.len() - 1].session_id != session || drivers[drivers.len()
                - 1].name@ != name);
        }
        if exists|k: int|
            0 <= k < drivers.len() && (#[trigger] drivers[k]).session_id == session
                && drivers[k].name@ == name {
            let k = choose|k: int|
                0 <= k < drivers.len() && (#[trigger] drivers[k]).session_id == session
                    && drivers[k].name@ == name;
            if k < drivers.len() - 1 {
                assert(front[k] == drivers[k]);
            }
        }
    }
}

/// The only entry of its name in its session is its only namesake.
proof fn lemma_one_namesake(drivers: Seq<DriverRow>, d: int)
    requires
        0 <= d < drivers.len(),
        forall|k: int|
            0 <= k < drivers.len() && k != d ==> (#[trigger] drivers[k]).session_id
                != drivers[d].session_id || drivers[k].name@ != drivers[d].name@,
    ensures
        namesakes(drivers, drivers[d].session_id, drivers[d].name@) == 1,
    decreases drivers.len(),
{
    let front = drivers.drop_last();
    let session = drivers[d].session_id;
    let name = drivers[d].name@;
    assert forall|k: int| 0 <= k < front.len() && k != d implies (#[trigger] front[k]).session_id
        != session || front[k].name@ != name by {
        assert(front[k] == drivers[k]);
    }
    if d == drivers.len() - 1 {
        lemma_namesakes(front, session, name);
    } else {
        assert(front[d] == drivers[d]);
        assert(drivers[drivers.len() - 1].session_id != session || drivers[drivers.len() - 1].name@
            != name);
        lemma_one_namesake(front, d);
    }
}

/// Two entries of one name in a session make more than one namesake.
proof fn lemma_two_namesakes(drivers: Seq<DriverRow>, d: int, e: int)
    requires
        0 <= d < e < drivers.len(),
        drivers[d].session_id == drivers[e].session_id,
        drivers[d].name@ == drivers[e].name@,
    ensures
        namesakes(drivers, drivers[d].session_id, drivers[d].name@) >= 2,
    decreases drivers.len(),
{
    let front = drivers.drop_last();
    let session = drivers[d].session_id;
    let name = drivers[d].name@;
    assert(front[d] == drivers[d]);
    if e == drivers.len() - 1 {
        lemma_namesakes(front, session, name);
    } else {
        assert(front[e] == drivers[e]);
        lemma_two_namesakes(front, d, e);
    }
}

/// The first capture of a driver's lap is the one that counts.
proof fn lemma_energy_first(
    field: Seq<LiveDriverLap>,
    key: Seq<char>,
    name: Seq<char>,
    lap_num: i64,
    m: int,
)
    requires
        0 <= m < field.len(),
        field[m].session_key@ == key,
        field[m].driver_name@ == name,
        field[m].lap_num == lap_num,
        forall|k: int|
            0 <= k < m ==> (#[trigger] field[k]).session_key@ != key || field[k].driver_name@ != name
                || field[k].lap_num != lap_num,
    ensures
        captured_energy(field, key, name, lap_num) == Some((field[m].ve_level, field[m].ve_used)),
    decreases m,
{
    if m > 0 {
        let rest = field.skip(1);
        assert(field[0].session_key@ != key || field[0].driver_name@ != name || field[0].lap_num
            != lap_num);
        assert forall|k: int| 0 <= k < m - 1 implies (#[trigger] rest[k]).session_key@ != key
            || rest[k].driver_name@ != name || rest[k].lap_num != lap_num by {
            assert(rest[k] == field[k + 1]);
        }
        assert(rest[m - 1] == field[m]);
        lemma_energy_first(rest, key, name, lap_num, m - 1);
    }
}

/// Without a capture of a driver's lap there is none.
proof fn lemma_no_energy(
    field: Seq<LiveDriverLap>,
    key: Seq<char>,
    name: Seq<char>,
    lap_num: i64,
)
    requires
        forall|k: int|
            0 <= k < field.len() ==> (#[trigger] field[k]).session_key@ != key
                || field[k].driver_name@ != name || field[k].lap_num != lap_num,
    ensures
        captured_energy(field, key, name, lap_num) is None,
    decreases field.len(),
{
    if field.len() > 0 {
        let rest = field.skip(1);
        assert(field[0].session_key@ != key || field[0].driver_name@ != name || field[0].lap_num
            != lap_num);
        assert forall|k: int| 0 <= k < rest.len() implies (#[trigger] rest[k]).session_key@ != key
            || rest[k].driver_name@ != name || rest[k].lap_num != lap_num by {
            assert(rest[k] == field[k + 1]);
        }
        lemma_no_energy(rest, key, name, lap_num);
    }
}

/// After the backfill every column of one of our laps is what the result has there,
/// and where that is nothing, what the captured lap has in the same column. For the
/// virtual energy, which other captures of the session may hold too, this is said
/// where the captured lap has it and no earlier anchor is of the lap's session.
pub proof fn law_each_gap_takes_its_own_column(
    laps: Seq<LapRow>,
    lives: Seq<LiveLap>,
    field: Seq<LiveDriverLap>,
    drivers: Seq<DriverRow>,
    anchors: Seq<(String, i64)>,
    a: int,
    i: int,
    m: int,
)
    requires
        0 <= a < anchors.len(),
        0 <= i < laps.len(),
        0 <= m < lives.len(),
        laps[i].driver_id == anchors[a].1,
        forall|b: int|
            0 <= b < anchors.len() && b != a ==> (#[trigger] anchors[b]).1 != laps[i].driver_id,
        lives[m].session_key@ == anchors[a].0@,
        lives[m].lap_num == laps[i].lap_num,
        forall|k: int|
            0 <= k < m ==> (#[trigger] lives[k]).session_key@ != anchors[a].0@ || lives[k].lap_num
                != laps[i].lap_num,
    ensures
        ({
            let all = backfilled(laps, lives, field, drivers, anchors, anchors.len() as int).0;
            let was = laps[i].used;
            let live = lives[m].used;
            let now = all[i].used;
            &&& all.len() == laps.len()
            &&& all[i].driver_id == laps[i].driver_id
            &&& all[i].lap_num == laps[i].lap_num
            &&& all[i].lap_time == laps[i].lap_time
            &&& was.fuel_level is Some ==> now.fuel_level == was.fuel_level
            &&& was.fuel_level is None ==> now.fuel_level == live.fuel_level
            &&& was.fuel_used is Some ==> now.fuel_used == was.fuel_used
            &&& was.fuel_used is None ==> now.fuel_used == live.fuel_used
            &&& was.tw_fl is Some ==> now.tw_fl == was.tw_fl
            &&& was.tw_fl is None ==> now.tw_fl == live.tw_fl
            &&& was.tw_fr is Some ==> now.tw_fr == was.tw_fr
            &&& was.tw_fr is None ==> now.tw_fr == live.tw_fr
            &&& was.tw_rl is Some ==> now.tw_rl == was.tw_rl
            &&& was.tw_rl is None ==> now.tw_rl == live.tw_rl
            &&& was.tw_rr is Some ==> now.tw_rr == was.tw_rr
            &&& was.tw_rr is None ==> now.tw_rr == live.tw_rr
            &&& was.ve_level is Some ==> now.ve_level == was.ve_level
            &&& was.ve_used is Some ==> now.ve_used == was.ve_used
            &&& (forall|b: int, p: int, q: int|
                0 <= b < a && 0 <= p < drivers.len() && 0 <= q < drivers.len() && (
                #[trigger] drivers[p]).id == laps[i].driver_id && (#[trigger] drivers[q]).id == (
                #[trigger] anchors[b]).1 ==> drivers[p].session_id != drivers[q].session_id) ==> {
                &&& was.ve_level is None && live.ve_level is Some ==> now.ve_level == live.ve_level
                &&& was.ve_used is None && live.ve_used is Some ==> now.ve_used == live.ve_used
            }
        }),
{
    let n = anchors.len() as int;
    let lap = laps[i];
    let live = lives[m].used;
    lemma_lap_by_lap(laps, lives, field, drivers, anchors, n);
    lemma_captured_first(lives, anchors[a].0@, lap.lap_num, m);
    lemma_lap_grows(lap, lives, field, drivers, anchors, 0, n);
    assert(no_other_anchor(lap, anchors, a));
    law_the_anchored_capture_decides(lap, lives, field, drivers, anchors, a, live);
    if forall|b: int, p: int, q: int|
        0 <= b < a && 0 <= p < drivers.len() && 0 <= q < drivers.len() && (
        #[trigger] drivers[p]).id == lap.driver_id && (#[trigger] drivers[q]).id == (
        #[trigger] anchors[b]).1 ==> drivers[p].session_id != drivers[q].session_id {
        assert forall|b: int| 0 <= b < a implies (#[trigger] anchors[b]).1 != lap.driver_id
            && field_filled(lap, field, drivers, anchors[b].0@, anchors[b].1) == lap by {
            lemma_driver_is_listed(drivers, lap.driver_id);
            lemma_driver_is_listed(drivers, anchors[b].1);
            assert(rival_of(lap, drivers, anchors[b].1) is None);
        }
        assert(stays_until(lap, field, drivers, anchors, a));
    }
}

/// A lap that is not ours, or that was not captured, keeps its fuel and tire wear as
/// the result has them, whatever else was captured.
pub proof fn law_other_laps_keep_fuel_and_tires(
    laps: Seq<LapRow>,
    lives: Seq<LiveLap>,
    field: Seq<LiveDriverLap>,
    drivers: Seq<DriverRow>,
    anchors: Seq<(String, i64)>,
    i: int,
)
    requires
        0 <= i < laps.len(),
        forall|a: int, m: int|
            0 <= a < anchors.len() && 0 <= m < lives.len() && (#[trigger] anchors[a]).1
                == laps[i].driver_id && (#[trigger] lives[m]).session_key@ == anchors[a].0@
                ==> lives[m].lap_num != laps[i].lap_num,
    ensures
        ({
            let all = backfilled(laps, lives, field, drivers, anchors, anchors.len() as int).0;
            let was = laps[i].used;
            let now = all[i].used;
            &&& all.len() == laps.len()
            &&& all[i].driver_id == laps[i].driver_id
            &&& all[i].lap_num == laps[i].lap_num
            &&& all[i].lap_time == laps[i].lap_time
            &&& now.fuel_level == was.fuel_level
            &&& now.fuel_used == was.fuel_used
            &&& now.tw_fl == was.tw_fl
            &&& now.tw_fr == was.tw_fr
            &&& now.tw_rl == was.tw_rl
            &&& now.tw_rr == was.tw_rr
            &&& was.ve_level is Some ==> now.ve_level == was.ve_level
            &&& was.ve_used is Some ==> now.ve_used == was.ve_used
        }),
{
    let n = anchors.len() as int;
    lemma_lap_by_lap(laps, lives, field, drivers, anchors, n);
    lemma_lap_grows(laps[i], lives, field, drivers, anchors, 0, n);
    assert forall|a: int|
        0 <= a < anchors.len() && (#[trigger] anchors[a]).1
            == laps[i].driver_id implies captured_lap(
        lives,
        anchors[a].0@,
        laps[i].lap_num,
    ) is None by {
        lemma_not_captured(lives, anchors[a].0@, laps[i].lap_num);
    }
    law_fuel_and_tires_need_an_own_capture(laps[i], lives, field, drivers, anchors);
}

/// The energy of a lap after the first `n` anchors, where anchor `a` alone is of the
/// lap's session and none is of its driver.
proof fn lemma_energy_of_the_only_anchor(
    lap: LapRow,
    lives: Seq<LiveLap>,
    field: Seq<LiveDriverLap>,
    drivers: Seq<DriverRow>,
    anchors: Seq<(String, i64)>,
    a: int,
    n: int,
)
    requires
        0 <= n <= anchors.len(),
        0 <= a < anchors.len(),
        forall|b: int| 0 <= b < anchors.len() ==> (#[trigger] anchors[b]).1 != lap.driver_id,
        forall|b: int|
            0 <= b < anchors.len() && b != a ==> rival_of(
                lap,
                drivers,
                (#[trigger] anchors[b]).1,
            ) is None,
    ensures
        lap_backfilled(lap, lives, field, drivers, anchors, n) == (if n <= a {
            lap
        } else {
            field_filled(lap, field, drivers, anchors[a].0@, anchors[a].1)
        }),
    decreases n,
{
    if n > 0 {
        lemma_energy_of_the_only_anchor(lap, lives, field, drivers, anchors, a, n - 1);
        assert(anchors[n - 1].1 != lap.driver_id);
        let before = lap_backfilled(lap, lives, field, drivers, anchors, n - 1);
        assert(rival_of(before, drivers, anchors[n - 1].1) == rival_of(
            lap,
            drivers,
            anchors[n - 1].1,
        ));
    }
}

/// A rival's lap takes its virtual energy from the capture of that rival's lap in the
/// session that is anchored to one of the same result: the level to the level and the
/// use to the use, and nothing else changes. The rival is told by its name, which no
/// other entry of its session has.
pub proof fn law_a_rivals_energy_is_its_own(
    laps: Seq<LapRow>,
    lives: Seq<LiveLap>,
    field: Seq<LiveDriverLap>,
    drivers: Seq<DriverRow>,
    anchors: Seq<(String, i64)>,
    a: int,
    i: int,
    d: int,
    e: int,
    m: int,
)
    requires
        0 <= a < anchors.len(),
        0 <= i < laps.len(),
        0 <= d < drivers.len(),
        0 <= e < drivers.len(),
        0 <= m < field.len(),
        drivers[d].id == laps[i].driver_id,
        drivers[e].id == anchors[a].1,
        drivers[d].session_id == drivers[e].session_id,
        // Every entry has an id of its own.
        forall|p: int, q: int|
            0 <= p < drivers.len() && 0 <= q < drivers.len() && p != q ==> (
            #[trigger] drivers[p]).id != (#[trigger] drivers[q]).id,
        forall|k: int|
            0 <= k < drivers.len() && k != d ==> (#[trigger] drivers[k]).session_id
                != drivers[d].session_id || drivers[k].name@ != drivers[d].name@,
        // No anchor is of this driver, and no other one of its session.
        forall|b: int| 0 <= b < anchors.len() ==> (#[trigger] anchors[b]).1 != laps[i].driver_id,
        forall|b: int, q: int|
            0 <= b < anchors.len() && b != a && 0 <= q < drivers.len() && (
            #[trigger] drivers[q]).id == (#[trigger] anchors[b]).1 ==> drivers[q].session_id
                != drivers[d].session_id,
        field[m].session_key@ == anchors[a].0@,
        field[m].driver_name@ == drivers[d].name@,
        field[m].lap_num == laps[i].lap_num,
        forall|k: int|
            0 <= k < m ==> (#[trigger] field[k]).session_key@ != anchors[a].0@
                || field[k].driver_name@ != drivers[d].name@ || field[k].lap_num != laps[i].lap_num,
    ensures
        ({
            let all = backfilled(laps, lives, field, drivers, anchors, anchors.len() as int).0;
            let was = laps[i].used;
            let now = all[i].used;
            &&& was.ve_level is None ==> now.ve_level == field[m].ve_level
            &&& was.ve_level is Some ==> now.ve_level == was.ve_level
            &&& was.ve_used is None ==> now.ve_used == field[m].ve_used
            &&& was.ve_used is Some ==> now.ve_used == was.ve_used
            &&& now.fuel_level == was.fuel_level
            &&& now.fuel_used == was.fuel_used
            &&& now.tw_fl == was.tw_fl
            &&& now.tw_fr == was.tw_fr
            &&& now.tw_rl == was.tw_rl
            &&& now.tw_rr == was.tw_rr
        }),
{
    let n = anchors.len() as int;
    let lap = laps[i];
    lemma_lap_by_lap(laps, lives, field, drivers, anchors, n);
    lemma_driver_first(drivers, lap.driver_id, d);
    lemma_driver_first(drivers, anchors[a].1, e);
    lemma_one_namesake(drivers, d);
    lemma_energy_first(field, anchors[a].0@, drivers[d].name@, lap.lap_num, m);
    assert forall|b: int| 0 <= b < anchors.len() && b != a implies rival_of(
        lap,
        drivers,
        (#[trigger] anchors[b]).1,
    ) is None by {
        lemma_driver_is_listed(drivers, anchors[b].1);
    }
    lemma_energy_of_the_only_anchor(lap, lives, field, drivers, anchors, a, n);
}

/// A lap of a driver that no session is anchored to stays as it is where its driver
/// was not captured on that lap, or shares its name with another entry of its session.
pub proof fn law_a_rival_is_not_guessed(
    laps: Seq<LapRow>,
    lives: Seq<LiveLap>,
    field: Seq<LiveDriverLap>,
    drivers: Seq<DriverRow>,
    anchors: Seq<(String, i64)>,
    i: int,
    d: int,
)
    requires
        0 <= i < laps.len(),
        0 <= d < drivers.len(),
        drivers[d].id == laps[i].driver_id,
        forall|p: int, q: int|
            0 <= p < drivers.len() && 0 <= q < drivers.len() && p != q ==> (
            #[trigger] drivers[p]).id != (#[trigger] drivers[q]).id,
        forall|b: int| 0 <= b < anchors.len() ==> (#[trigger] anchors[b]).1 != laps[i].driver_id,
        (forall|k: int|
            0 <= k < field.len() ==> (#[trigger] field[k]).driver_name@ != drivers[d].name@
                || field[k].lap_num != laps[i].lap_num) || (exists|q: int|
            0 <= q < drivers.len() && q != d && (#[trigger] drivers[q]).session_id
                == drivers[d].session_id && drivers[q].name@ == drivers[d].name@),
    ensures
        backfilled(laps, lives, field, drivers, anchors, anchors.len() as int).0[i] == laps[i],
{
    let n = anchors.len() as int;
    lemma_lap_by_lap(laps, lives, field, drivers, anchors, n);
    lemma_driver_first(drivers, laps[i].driver_id, d);
    if exists|q: int|
        0 <= q < drivers.len() && q != d && (#[trigger] drivers[q]).session_id
            == drivers[d].session_id && drivers[q].name@ == drivers[d].name@ {
        let q = choose|q: int|
            0 <= q < drivers.len() && q != d && (#[trigger] drivers[q]).session_id
                == drivers[d].session_id && drivers[q].name@ == drivers[d].name@;
        if d < q {
            lemma_two_namesakes(drivers, d, q);
        } else {
            lemma_two_namesakes(drivers, q, d);
        }
    } else {
        assert forall|b: int| 0 <= b < anchors.len() implies captured_energy(
            field,
            (#[trigger] anchors[b]).0@,
            drivers[d].name@,
            laps[i].lap_num,
        ) is None by {
            lemma_no_energy(field, anchors[b].0@, drivers[d].name@, laps[i].lap_num);
        }
    }
    lemma_rival_waits(laps[i], lives, field, drivers, anchors, n);
}

proof fn lemma_rival_waits(
    lap: LapRow,
    lives: Seq<LiveLap>,
    field: Seq<LiveDriverLap>,
    drivers: Seq<DriverRow>,
    anchors: Seq<(String, i64)>,
    n: int,
)
    requires
        0 <= n <= anchors.len(),
        forall|b: int|
            0 <= b < anchors.len() ==> (#[trigger] anchors[b]).1 != lap.driver_id && field_source(
                lap,
                field,
                drivers,
                anchors[b].0@,
                anchors[b].1,
            ) is None,
    ensures
        lap_backfilled(lap, lives, field, drivers, anchors, n) == lap,
    decreases n,
{
    if n > 0 {
        lemma_rival_waits(lap, lives, field, drivers, anchors, n - 1);
        assert(anchors[n - 1].1 != lap.driver_id);
    }
}

/// The laps counted as ours are those that were written to: one more lap counts as one
/// more with an anchor that is of its driver and has captured it, if fuel or tire wear
/// is missing from it or the capture adds virtual energy, and else as none more.
pub proof fn law_own_laps_are_counted_one_by_one(
    laps: Seq<LapRow>,
    lap: LapRow,
    lives: Seq<LiveLap>,
    key: Seq<char>,
    driver: i64,
    m: int,
)
    requires
        0 <= m < lives.len(),
        lives[m].session_key@ == key,
        lives[m].lap_num == lap.lap_num,
        forall|k: int|
            0 <= k < m ==> (#[trigger] lives[k]).session_key@ != key || lives[k].lap_num
                != lap.lap_num,
    ensures
        own_count(Seq::empty(), lives, key, driver) == 0,
        own_count(laps.push(lap), lives, key, driver) - own_count(laps, lives, key, driver) == (if (
        lap.driver_id == driver && (lap.used.fuel_level is None || lap.used.fuel_used is None
            || lap.used.tw_fl is None || lap.used.tw_fr is None || lap.used.tw_rl is None
            || lap.used.tw_rr is None || (lap.used.ve_level is None && lives[m].used.ve_level is Some)
            || (lap.used.ve_used is None && lives[m].used.ve_used is Some))) {
            1int
        } else {
            0
        }),
{
    lemma_captured_first(lives, key, lap.lap_num, m);
    assert(laps.push(lap).drop_last() =~= laps);
    assert(laps.push(lap).last() == lap);
}

/// A lap that was not captured in a session does not count as one that was filled from
/// it.
pub proof fn law_laps_without_a_capture_do_not_count(
    laps: Seq<LapRow>,
    lap: LapRow,
    lives: Seq<LiveLap>,
    key: Seq<char>,
    driver: i64,
)
    requires
        forall|k: int|
            0 <= k < lives.len() ==> (#[trigger] lives[k]).session_key@ != key || lives[k].lap_num
                != lap.lap_num,
    ensures
        own_count(laps.push(lap), lives, key, driver) == own_count(laps, lives, key, driver),
{
    lemma_not_captured(lives, key, lap.lap_num);
    assert(laps.push(lap).drop_last() =~= laps);
    assert(laps.push(lap).last() == lap);
}

/// A backfill goes anchor by anchor: each fills our own laps as the anchors before it
/// left them, then those of the field, and adds what it wrote to the two counts.
pub proof fn law_counts_add_up_over_the_anchors(
    laps: Seq<LapRow>,
    lives: Seq<LiveLap>,
    field: Seq<LiveDriverLap>,
    drivers: Seq<DriverRow>,
    anchors: Seq<(String, i64)>,
    n: int,
)
    requires
        0 <= n < anchors.len(),
    ensures
        ({
            let before = backfilled(laps, lives, field, drivers, anchors, n);
            let after = backfilled(laps, lives, field, drivers, anchors, n + 1);
            let key = anchors[n].0@;
            let driver = anchors[n].1;
            let own = own_pass(before.0, lives, key, driver);
            &&& after.0 == field_pass(own, field, drivers, key, driver)
            &&& after.1 - before.1 == own_count(before.0, lives, key, driver)
            &&& after.2 - before.2 == field_count(own, field, drivers, key, driver)
        }),
        backfilled(laps, lives, field, drivers, anchors, 0) == (laps, 0int, 0int),
{
}

/// The laps of the field that are counted: one more lap counts as one more where it
/// lacks virtual energy and its driver, the only one of its name in the session of the
/// anchored driver, was captured on that lap, and else as none more.
pub proof fn law_field_laps_are_counted_one_by_one(
    laps: Seq<LapRow>,
    lap: LapRow,
    field: Seq<LiveDriverLap>,
    drivers: Seq<DriverRow>,
    key: Seq<char>,
    d: int,
    e: int,
)
    requires
        0 <= d < drivers.len(),
        0 <= e < drivers.len(),
        drivers[d].id == lap.driver_id,
        forall|p: int, q: int|
            0 <= p < drivers.len() && 0 <= q < drivers.len() && p != q ==> (
            #[trigger] drivers[p]).id != (#[trigger] drivers[q]).id,
    ensures
        field_count(Seq::empty(), field, drivers, key, drivers[e].id) == 0,
        field_count(laps.push(lap), field, drivers, key, drivers[e].id) - field_count(
            laps,
            field,
            drivers,
            key,
            drivers[e].id,
        ) == (if (lap.used.ve_level is None || lap.used.ve_used is None) && drivers[d].session_id
            == drivers[e].session_id && (forall|k: int|
            0 <= k < drivers.len() && k != d ==> (#[trigger] drivers[k]).session_id
                != drivers[d].session_id || drivers[k].name@ != drivers[d].name@) && (exists|k: int|
            0 <= k < field.len() && (#[trigger] field[k]).session_key@ == key
                && field[k].driver_name@ == drivers[d].name@ && field[k].lap_num == lap.lap_num) {
            1int
        } else {
            0
        }),
{
    let name = drivers[d].name@;
    lemma_driver_first(drivers, lap.driver_id, d);
    lemma_driver_first(drivers, drivers[e].id, e);
    assert(laps.push(lap).drop_last() =~= laps);
    assert(laps.push(lap).last() == lap);
    if forall|k: int|
        0 <= k < drivers.len() && k != d ==> (#[trigger] drivers[k]).session_id
            != drivers[d].session_id || drivers[k].name@ != name {
        lemma_one_namesake(drivers, d);
    } else {
        let q = choose|q: int|
            0 <= q < drivers.len() && q != d && (#[trigger] drivers[q]).session_id
                == drivers[d].session_id && drivers[q].name@ == name;
        if d < q {
            lemma_two_namesakes(drivers, d, q);
        } else {
            lemma_two_namesakes(drivers, q, d);
        }
    }
    lemma_energy_exists(field, key, name, lap.lap_num);
}

/// There is a capture of a driver's lap exactly where one is listed.
proof fn lemma_energy_exists(
    field: Seq<LiveDriverLap>,
    key: Seq<char>,
    name: Seq<char>,
    lap_num: i64,
)
    ensures
        captured_energy(field, key, name, lap_num) is Some <==> exists|k: int|
            0 <= k < field.len() && (#[trigger] field[k]).session_key@ == key
                && field[k].driver_name@ == name && field[k].lap_num == lap_num,
    decreases field.len(),
{
    if field.len() > 0 {
        let rest = field.skip(1);
        lemma_energy_exists(rest, key, name, lap_num);
        if exists|k: int|
            0 <= k < field.len() && (#[trigger] field[k]).session_key@ == key
                && field[k].driver_name@ == name && field[k].lap_num == lap_num {
            let k = choose|k: int|
                0 <= k < field.len() && (#[trigger] field[k]).session_key@ == key
                    && field[k].driver_name@ == name && field[k].lap_num == lap_num;
            if k > 0 {
                assert(rest[k - 1] == field[k]);
            }
        }
        if exists|k: int|
            0 <= k < rest.len() && (#[trigger] rest[k]).session_key@ == key
                && rest[k].driver_name@ == name && rest[k].lap_num == lap_num {
            let k = choose|k: int|
                0 <= k < rest.len() && (#[trigger] rest[k]).session_key@ == key
                    && rest[k].driver_name@ == name && rest[k].lap_num == lap_num;
            assert(field[k + 1] == rest[k]);
        }
    }
}

// ---------------------------------------------------------------------------
// Weighing the evidence
// ---------------------------------------------------------------------------

/// A lap that a capture and a driver of a result both know a time for, and whether
/// the two times agree.
#[derive(Debug)]
pub struct SharedLap {
    pub driver_id: i64,
    pub session_key: String,
    pub agrees: bool,
}

/// Whether the shared laps are the compared pairs, with the verdict on each.
pub open spec fn judged(
    pairs: Seq<evidence::TimePairView>,
    agree: Seq<bool>,
    shared: Seq<SharedLap>,
) -> bool {
    &&& shared.len() == pairs.len()
    &&& agree.len() == pairs.len()
    &&& forall|i: int|
        0 <= i < shared.len() ==> (#[trigger] shared[i]).driver_id == pairs[i].driver_id
            && shared[i].session_key@ == pairs[i].session_key && shared[i].agrees == agree[i]
}

/// The shared laps, where `agree` says of each pair whether its times agree.
pub fn shared_laps(pairs: &Vec<TimePair>, agree: &Vec<bool>) -> (shared: Vec<SharedLap>)
    requires
        agree@.len() == pairs@.len(),
    ensures
        judged(evidence::pair_views(pairs@), agree@, shared@),
{
    let mut shared: Vec<SharedLap> = Vec::new();
    let mut i: usize = 0;
    while i < pairs.len()
        invariant
            i <= pairs@.len(),
            agree@.len() == pairs@.len(),
            shared@.len() == i,
            forall|k: int|
                0 <= k < i ==> (#[trigger] shared@[k]).driver_id == pairs@[k].driver_id
                    && shared@[k].session_key@ == pairs@[k].session_key@ && shared@[k].agrees
                    == agree@[k],
        decreases pairs@.len() - i,
    {
        shared.push(
            SharedLap {
                driver_id: pairs[i].driver_id,
                session_key: pairs[i].session_key.clone(),
                agrees: agree[i],
            },
        );
        i += 1;
    }
    shared
}

/// Whether a lap is shared by this driver and this session.
pub open spec fn shared_by(lap: SharedLap, driver: i64, key: Seq<char>) -> bool {
    lap.driver_id == driver && lap.session_key@ == key
}

/// On how many laps a driver and a session agree, or disagree.
pub open spec fn weight(laps: Seq<SharedLap>, driver: i64, key: Seq<char>, agrees: bool) -> int
    decreases laps.len(),
{
    if laps.len() == 0 {
        0
    } else {
        weight(laps.drop_last(), driver, key, agrees) + (if shared_by(laps.last(), driver, key)
            && laps.last().agrees == agrees {
            1int
        } else {
            0
        })
    }
}

/// Whether a candidate carries the weight of the laps that it shares.
pub open spec fn weighs(laps: Seq<SharedLap>, c: AnchorCandidate) -> bool {
    c.hits == weight(laps, c.driver_id, c.session_key@, true) && c.misses == weight(
        laps,
        c.driver_id,
        c.session_key@,
        false,
    )
}

/// Whether a candidate stands for this driver and this session.
pub open spec fn stands_for(c: AnchorCandidate, driver: i64, key: Seq<char>) -> bool {
    c.driver_id == driver && c.session_key@ == key
}

/// Whether the candidates are those of the laps: one for each driver and session
/// that share a lap, and no other, each with its weight.
pub open spec fn weighed(laps: Seq<SharedLap>, cs: Seq<AnchorCandidate>) -> bool {
    &&& forall|a: int| 0 <= a < cs.len() ==> weighs(laps, #[trigger] cs[a])
    &&& forall|a: int|
        0 <= a < cs.len() ==> (#[trigger] cs[a]).hits > 0 || cs[a].misses > 0
    &&& forall|a: int, b: int|
        0 <= a < cs.len() && 0 <= b < cs.len() && a != b ==> !stands_for(
            #[trigger] cs[a],
            (#[trigger] cs[b]).driver_id,
            cs[b].session_key@,
        )
    &&& forall|i: int|
        0 <= i < laps.len() ==> exists|a: int|
            0 <= a < cs.len() && stands_for(
                #[trigger] cs[a],
                (#[trigger] laps[i]).driver_id,
                laps[i].session_key@,
            )
}

proof fn lemma_weight_bound(laps: Seq<SharedLap>, driver: i64, key: Seq<char>, agrees: bool)
    ensures
        0 <= weight(laps, driver, key, agrees) <= laps.len(),
    decreases laps.len(),
{
    if laps.len() > 0 {
        lemma_weight_bound(laps.drop_last(), driver, key, agrees);
    }
}

/// A pair that no lap is shared by has no weight.
proof fn lemma_no_weight(laps: Seq<SharedLap>, driver: i64, key: Seq<char>, agrees: bool)
    requires
        forall|i: int| 0 <= i < laps.len() ==> !shared_by(#[trigger] laps[i], driver, key),
    ensures
        weight(laps, driver, key, agrees) == 0,
    decreases laps.len(),
{
    if laps.len() > 0 {
        assert(!shared_by(laps[laps.len() - 1], driver, key));
        assert forall|i: int| 0 <= i < laps.drop_last().len() implies !shared_by(
            #[trigger] laps.drop_last()[i],
            driver,
            key,
        ) by {
            assert(!shared_by(laps[i], driver, key));
        }
        lemma_no_weight(laps.drop_last(), driver, key, agrees);
    }
}

/// The index of the candidate for this driver and session, or their number.
fn find_candidate(cs: &Vec<AnchorCandidate>, driver: i64, key: &str) -> (k: usize)
    ensures
        k <= cs@.len(),
        k < cs@.len() ==> stands_for(cs@[k as int], driver, key@),
        k == cs@.len() ==> forall|a: int|
            0 <= a < cs@.len() ==> !stands_for(#[trigger] cs@[a], driver, key@),
{
    let mut k: usize = 0;
    while k < cs.len()
        invariant
            k <= cs@.len(),
            forall|a: int| 0 <= a < k ==> !stands_for(#[trigger] cs@[a], driver, key@),
        decreases cs@.len() - k,
    {
        if cs[k].driver_id == driver && text::same(&cs[k].session_key, key) {
            return k;
        }
        k += 1;
    }
    k
}

/// Every driver that the captured laps could belong to, weighed by the laps on
/// which the two agree and disagree.
pub fn anchor_candidates(laps: &Vec<SharedLap>) -> (cs: Vec<AnchorCandidate>)
    requires
        laps@.len() <= i64::MAX,
    ensures
        weighed(laps@, cs@),
{
    let mut cs: Vec<AnchorCandidate> = Vec::new();
    let mut i: usize = 0;
    while i < laps.len()
        invariant
            i <= laps@.len() <= i64::MAX,
            weighed(laps@.take(i as int), cs@),
        decreases laps@.len() - i,
    {
        let lap = &laps[i];
        let ghost before = laps@.take(i as int);
        let ghost after = laps@.take(i + 1);
        let ghost prior = cs@;
        proof {
            assert(after.drop_last() == before);
            assert(after.last() == *lap);
            lemma_weight_bound(before, lap.driver_id, lap.session_key@, true);
            lemma_weight_bound(before, lap.driver_id, lap.session_key@, false);
        }
        let k = find_candidate(&cs, lap.driver_id, &lap.session_key);
        if k < cs.len() {
            let hits = cs[k].hits;
            let misses = cs[k].misses;
            proof {
                assert(weighs(before, prior[k as int]));
            }
            let c = AnchorCandidate {
                driver_id: lap.driver_id,
                session_key: lap.session_key.clone(),
                hits: if lap.agrees {
                    hits + 1
                } else {
                    hits
                },
                misses: if lap.agrees {
                    misses
                } else {
                    misses + 1
                },
            };
            cs.set(k, c);
            proof {
                lemma_weighed_update(before, *lap, prior, cs@, k as int);
            }
        } else {
            proof {
                assert forall|m: int| 0 <= m < before.len() implies !shared_by(
                    #[trigger] before[m],
                    lap.driver_id,
                    lap.session_key@,
                ) by {
                    let a = choose|a: int|
                        0 <= a < prior.len() && stands_for(
                            #[trigger] prior[a],
                            before[m].driver_id,
                            before[m].session_key@,
                        );
                    assert(!stands_for(prior[a], lap.driver_id, lap.session_key@));
                }
                lemma_no_weight(before, lap.driver_id, lap.session_key@, true);
                lemma_no_weight(before, lap.driver_id, lap.session_key@, false);
            }
            let c = AnchorCandidate {
                driver_id: lap.driver_id,
                session_key: lap.session_key.clone(),
                hits: if lap.agrees {
                    1
                } else {
                    0
                },
                misses: if lap.agrees {
                    0
                } else {
                    1
                },
            };
            cs.push(c);
            proof {
                lemma_weighed_push(before, *lap, prior, cs@);
            }
        }
        proof {
            assert(before.push(*lap) == after);
        }
        i += 1;
    }
    proof {
        assert(laps@.take(i as int) == laps@);
    }
    cs
}

/// One more lap for a pair that has a candidate.
proof fn lemma_weighed_update(
    before: Seq<SharedLap>,
    lap: SharedLap,
    prior: Seq<AnchorCandidate>,
    cs: Seq<AnchorCandidate>,
    k: int,
)
    requires
        weighed(before, prior),
        0 <= k < prior.len(),
        cs == prior.update(k, cs[k]),
        stands_for(prior[k], lap.driver_id, lap.session_key@),
        stands_for(cs[k], lap.driver_id, lap.session_key@),
        cs[k].hits == prior[k].hits + (if lap.agrees {
            1int
        } else {
            0
        }),
        cs[k].misses == prior[k].misses + (if lap.agrees {
            0int
        } else {
            1
        }),
    ensures
        weighed(before.push(lap), cs),
{
    let after = before.push(lap);
    assert(after.drop_last() == before);
    assert(weighs(before, prior[k]));
    lemma_weight_bound(before, lap.driver_id, lap.session_key@, true);
    lemma_weight_bound(before, lap.driver_id, lap.session_key@, false);
    assert forall|a: int| 0 <= a < cs.len() implies weighs(after, #[trigger] cs[a]) by {
        assert(weighs(before, prior[a]));
        if a != k {
            assert(!stands_for(prior[a], prior[k].driver_id, prior[k].session_key@));
        }
    }
    assert forall|a: int| 0 <= a < cs.len() implies (#[trigger] cs[a]).hits > 0 || cs[a].misses
        > 0 by {
        assert(prior[a].hits > 0 || prior[a].misses > 0);
    }
    assert forall|a: int, b: int|
        0 <= a < cs.len() && 0 <= b < cs.len() && a != b implies !stands_for(
        #[trigger] cs[a],
        (#[trigger] cs[b]).driver_id,
        cs[b].session_key@,
    ) by {
        assert(!stands_for(prior[a], prior[b].driver_id, prior[b].session_key@));
    }
    assert forall|i: int| 0 <= i < after.len() implies exists|a: int|
        0 <= a < cs.len() && stands_for(
            #[trigger] cs[a],
            (#[trigger] after[i]).driver_id,
            after[i].session_key@,
        ) by {
        if i < before.len() {
            let a = choose|a: int|
                0 <= a < prior.len() && stands_for(
                    #[trigger] prior[a],
                    before[i].driver_id,
                    before[i].session_key@,
                );
            assert(before[i].driver_id == after[i].driver_id);
            assert(stands_for(cs[a], after[i].driver_id, after[i].session_key@));
        } else {
            assert(stands_for(cs[k], after[i].driver_id, after[i].session_key@));
        }
    }
}

/// The first lap of a pair that had no candidate.
proof fn lemma_weighed_push(
    before: Seq<SharedLap>,
    lap: SharedLap,
    prior: Seq<AnchorCandidate>,
    cs: Seq<AnchorCandidate>,
)
    requires
        weighed(before, prior),
        cs.len() == prior.len() + 1,
        cs == prior.push(cs.last()),
        forall|a: int|
            0 <= a < prior.len() ==> !stands_for(
                #[trigger] prior[a],
                lap.driver_id,
                lap.session_key@,
            ),
        weight(before, lap.driver_id, lap.session_key@, true) == 0,
        weight(before, lap.driver_id, lap.session_key@, false) == 0,
        stands_for(cs.last(), lap.driver_id, lap.session_key@),
        cs.last().hits == (if lap.agrees {
            1int
        } else {
            0
        }),
        cs.last().misses == (if lap.agrees {
            0int
        } else {
            1
        }),
    ensures
        weighed(before.push(lap), cs),
{
    let after = before.push(lap);
    let k = prior.len() as int;
    assert(after.drop_last() == before);
    assert(cs[k] == cs.last());
    assert forall|a: int| 0 <= a < cs.len() implies weighs(after, #[trigger] cs[a]) by {
        if a < k {
            assert(weighs(before, prior[a]));
            assert(!stands_for(prior[a], lap.driver_id, lap.session_key@));
        }
    }
    assert forall|a: int| 0 <= a < cs.len() implies (#[trigger] cs[a]).hits > 0 || cs[a].misses
        > 0 by {
        if a < k {
            assert(prior[a].hits > 0 || prior[a].misses > 0);
        }
    }
    assert forall|a: int, b: int|
        0 <= a < cs.len() && 0 <= b < cs.len() && a != b implies !stands_for(
        #[trigger] cs[a],
        (#[trigger] cs[b]).driver_id,
        cs[b].session_key@,
    ) by {
        if a < k && b < k {
            assert(!stands_for(prior[a], prior[b].driver_id, prior[b].session_key@));
        } else if a < k {
            assert(!stands_for(prior[a], lap.driver_id, lap.session_key@));
        } else {
            assert(!stands_for(prior[b], lap.driver_id, lap.session_key@));
        }
    }
    assert forall|i: int| 0 <= i < after.len() implies exists|a: int|
        0 <= a < cs.len() && stands_for(
            #[trigger] cs[a],
            (#[trigger] after[i]).driver_id,
            after[i].session_key@,
        ) by {
        if i < before.len() {
            let a = choose|a: int|
                0 <= a < prior.len() && stands_for(
                    #[trigger] prior[a],
                    before[i].driver_id,
                    before[i].session_key@,
                );
            assert(before[i].driver_id == after[i].driver_id);
            assert(stands_for(cs[a], after[i].driver_id, after[i].session_key@));
        } else {
            assert(stands_for(cs[k], after[i].driver_id, after[i].session_key@));
        }
    }
}

// ---------------------------------------------------------------------------
// Captures that could not be tied to a result
// ---------------------------------------------------------------------------

/// Whether a session was judged, one way or the other.
pub open spec fn accounted_for(
    anchors: Seq<(String, i64)>,
    rejected: Seq<(String, String)>,
    key: Seq<char>,
) -> bool {
    ||| exists|a: int| 0 <= a < anchors.len() && (#[trigger] anchors[a]).0@ == key
    ||| exists|a: int| 0 <= a < rejected.len() && (#[trigger] rejected[a]).0@ == key
}

/// Why a captured session that no result mentions stays unanchored.
pub open spec fn unmentioned(laps: i64) -> Seq<char> {
    "no imported result mentions us with these "@ + text::signed_decimal(laps as int) + " laps"@
}

/// The sessions that stay unanchored, with the reason of each: those that were
/// rejected, then the first `n` captured ones that were not judged at all.
pub open spec fn left_over(
    captured: Seq<(String, i64)>,
    anchors: Seq<(String, i64)>,
    rejected: Seq<(String, String)>,
    n: int,
) -> Seq<(Seq<char>, Seq<char>)>
    decreases n,
{
    if n <= 0 {
        Seq::new(rejected.len(), |i: int| (rejected[i].0@, rejected[i].1@))
    } else {
        let before = left_over(captured, anchors, rejected, n - 1);
        let (key, laps) = captured[n - 1];
        if accounted_for(anchors, rejected, key@) {
            before
        } else {
            before.push((key@, unmentioned(laps)))
        }
    }
}

/// A list of sessions and reasons as text.
pub open spec fn reasons(v: Seq<(String, String)>) -> Seq<(Seq<char>, Seq<char>)> {
    Seq::new(v.len(), |i: int| (v[i].0@, v[i].1@))
}

/// Whether a session was judged, one way or the other.
fn is_accounted_for(
    anchors: &Vec<(String, i64)>,
    rejected: &Vec<(String, String)>,
    n: usize,
    key: &str,
) -> (r: bool)
    requires
        n <= rejected@.len(),
    ensures
        r == accounted_for(anchors@, rejected@.take(n as int), key@),
{
    let ghost first = rejected@.take(n as int);
    let mut i: usize = 0;
    while i < anchors.len()
        invariant
            i <= anchors@.len(),
            forall|a: int| 0 <= a < i ==> (#[trigger] anchors@[a]).0@ != key@,
        decreases anchors@.len() - i,
    {
        if text::same(&anchors[i].0, key) {
            return true;
        }
        i += 1;
    }
    let mut j: usize = 0;
    while j < n
        invariant
            j <= n <= rejected@.len(),
            first == rejected@.take(n as int),
            forall|a: int| 0 <= a < j ==> (#[trigger] first[a]).0@ != key@,
        decreases n - j,
    {
        if text::same(&rejected[j].0, key) {
            proof {
                assert(first[j as int].0@ == key@);
            }
            return true;
        }
        j += 1;
    }
    false
}

/// The sessions that stay unanchored, with the reason of each. A capture that no
/// result mentions was not judged, so it is named here: nothing is harder to tell
/// from having captured nothing than silence.
pub fn unanchored_sessions(
    captured: &Vec<(String, i64)>,
    anchors: &Vec<(String, i64)>,
    rejected: Vec<(String, String)>,
) -> (r: Vec<(String, String)>)
    ensures
        reasons(r@) == left_over(captured@, anchors@, rejected@, captured@.len() as int),
{
    let ghost judged = rejected@;
    let n = rejected.len();
    let mut all = rejected;
    let mut i: usize = 0;
    proof {
        assert(reasons(all@) == left_over(captured@, anchors@, judged, 0));
    }
    while i < captured.len()
        invariant
            i <= captured@.len(),
            n == judged.len(),
            n <= all@.len(),
            all@.take(n as int) == judged,
            reasons(all@) == left_over(captured@, anchors@, judged, i as int),
        decreases captured@.len() - i,
    {
        if !is_accounted_for(anchors, &all, n, &captured[i].0) {
            let ghost prior = all@;
            let mut why: String = "no imported result mentions us with these ".to_owned();
            why.append(text::signed_decimal_text(captured[i].1).as_str());
            why.append(" laps");
            let key = captured[i].0.clone();
            all.push((key, why));
            proof {
                assert(reasons(all@) == reasons(prior).push(
                    (captured@[i as int].0@, unmentioned(captured@[i as int].1)),
                ));
                assert(all@.take(n as int) == judged);
            }
        }
        i += 1;
    }
    all
}

// ---------------------------------------------------------------------------
// The whole backfill
// ---------------------------------------------------------------------------

/// How many laps were captured of a session.
pub open spec fn laps_of(lives: Seq<LiveLap>, key: Seq<char>) -> int
    decreases lives.len(),
{
    if lives.len() == 0 {
        0
    } else {
        laps_of(lives.drop_last(), key) + (if lives.last().session_key@ == key {
            1int
        } else {
            0
        })
    }
}

/// Whether a list holds every captured session once, and how many laps of each.
pub open spec fn counts_sessions(lives: Seq<LiveLap>, list: Seq<(String, i64)>) -> bool {
    &&& forall|a: int|
        0 <= a < list.len() ==> (#[trigger] list[a]).1 == laps_of(lives, list[a].0@) && list[a].1
            > 0
    &&& forall|a: int, b: int|
        0 <= a < b < list.len() ==> (#[trigger] list[a]).0@ != (#[trigger] list[b]).0@
    &&& forall|i: int| 0 <= i < lives.len() ==> lists_key(list, (#[trigger] lives[i]).session_key@)
}

/// Whether a list holds a session.
pub open spec fn lists_key(list: Seq<(String, i64)>, key: Seq<char>) -> bool {
    exists|a: int| 0 <= a < list.len() && (#[trigger] list[a]).0@ == key
}

proof fn lemma_laps_bound(lives: Seq<LiveLap>, key: Seq<char>)
    ensures
        0 <= laps_of(lives, key) <= lives.len(),
    decreases lives.len(),
{
    if lives.len() > 0 {
        lemma_laps_bound(lives.drop_last(), key);
    }
}

/// A session that no lap is of has none.
proof fn lemma_no_laps(lives: Seq<LiveLap>, key: Seq<char>)
    requires
        forall|i: int| 0 <= i < lives.len() ==> (#[trigger] lives[i]).session_key@ != key,
    ensures
        laps_of(lives, key) == 0,
    decreases lives.len(),
{
    if lives.len() > 0 {
        assert(lives[lives.len() - 1].session_key@ != key);
        assert forall|i: int| 0 <= i < lives.drop_last().len() implies (
        #[trigger] lives.drop_last()[i]).session_key@ != key by {
            assert(lives[i].session_key@ != key);
        }
        lemma_no_laps(lives.drop_last(), key);
    }
}

/// The index of a session in a list, or the length of the list.
fn find_session(list: &Vec<(String, i64)>, key: &str) -> (k: usize)
    ensures
        k <= list@.len(),
        k < list@.len() ==> list@[k as int].0@ == key@,
        k == list@.len() ==> forall|a: int|
            0 <= a < list@.len() ==> (#[trigger] list@[a]).0@ != key@,
{
    let mut k: usize = 0;
    while k < list.len()
        invariant
            k <= list@.len(),
            forall|a: int| 0 <= a < k ==> (#[trigger] list@[a]).0@ != key@,
        decreases list@.len() - k,
    {
        if text::same(&list[k].0, key) {
            return k;
        }
        k += 1;
    }
    k
}

/// Every captured session and how many laps it holds.
pub fn captured_sessions(lives: &Vec<LiveLap>) -> (list: Vec<(String, i64)>)
    requires
        lives@.len() <= i64::MAX,
    ensures
        counts_sessions(lives@, list@),
{
    let mut list: Vec<(String, i64)> = Vec::new();
    let mut i: usize = 0;
    while i < lives.len()
        invariant
            i <= lives@.len() <= i64::MAX,
            counts_sessions(lives@.take(i as int), list@),
        decreases lives@.len() - i,
    {
        let ghost before = lives@.take(i as int);
        let ghost after = lives@.take(i + 1);
        let ghost prior = list@;
        let ghost key = lives@[i as int].session_key@;
        proof {
            assert(after.drop_last() == before);
            assert(after.last() == lives@[i as int]);
            lemma_laps_bound(before, key);
        }
        let k = find_session(&list, &lives[i].session_key);
        if k < list.len() {
            let n = list[k].1;
            proof {
                assert(prior[k as int].1 == laps_of(before, key));
            }
            list.set(k, (lives[i].session_key.clone(), n + 1));
        } else {
            proof {
                assert forall|m: int| 0 <= m < before.len() implies (
                #[trigger] before[m]).session_key@ != key by {
                    assert(lists_key(prior, before[m].session_key@));
                }
                lemma_no_laps(before, key);
            }
            list.push((lives[i].session_key.clone(), 1));
        }
        proof {
            assert(list@[k as int].0@ == key);
            assert(forall|a: int|
                0 <= a < prior.len() && a != k ==> #[trigger] list@[a] == prior[a]);
            assert forall|a: int| 0 <= a < list@.len() implies (#[trigger] list@[a]).1 == laps_of(
                after,
                list@[a].0@,
            ) && list@[a].1 > 0 by {
                if a != k {
                    assert(prior[a].1 == laps_of(before, prior[a].0@));
                    if k < prior.len() {
                        if a < k {
                            assert(prior[a].0@ != prior[k as int].0@);
                        } else {
                            assert(prior[k as int].0@ != prior[a].0@);
                        }
                    }
                }
            }
            assert forall|a: int, b: int| 0 <= a < b < list@.len() implies (
            #[trigger] list@[a]).0@ != (#[trigger] list@[b]).0@ by {
                if b < prior.len() {
                    assert(prior[a].0@ != prior[b].0@);
                } else {
                    assert(prior[a].0@ != key);
                }
            }
            assert forall|m: int| 0 <= m < after.len() implies lists_key(
                list@,
                (#[trigger] after[m]).session_key@,
            ) by {
                if m < before.len() {
                    assert(lists_key(prior, before[m].session_key@));
                    let a = choose|a: int|
                        0 <= a < prior.len() && (#[trigger] prior[a]).0@ == before[m].session_key@;
                    assert(list@[a].0@ == after[m].session_key@);
                } else {
                    assert(list@[k as int].0@ == after[m].session_key@);
                }
            }
        }
        i += 1;
    }
    proof {
        assert(lives@.take(i as int) == lives@);
    }
    list
}

/// What a backfill did, and which captures it could not use.
#[derive(Debug)]
pub struct Backfill {
    pub counts: BackfillCounts,
    /// Which captured session belongs to which driver of a result.
    pub anchors: Vec<(String, i64)>,
    /// The captured sessions that stay unused, with the reason of each.
    pub unanchored: Vec<(String, String)>,
}

/// Whether anchors and leftovers follow from the evidence: it was weighed into the
/// candidates `cs`, of which some sessions were `rejected`, and `captured` counts
/// the sessions that there are.
pub open spec fn follow_from(
    shared: Seq<SharedLap>,
    lives: Seq<LiveLap>,
    found: Seq<(String, i64)>,
    unused: Seq<(String, String)>,
    cs: Seq<AnchorCandidate>,
    rejected: Seq<(String, String)>,
    captured: Seq<(String, i64)>,
) -> bool {
    &&& weighed(shared, cs)
    &&& anchors::anchors_exactly(anchors::views(cs), found)
    &&& anchors::rejects_exactly(anchors::views(cs), rejected)
    &&& counts_sessions(lives, captured)
    &&& reasons(unused) == left_over(captured, found, rejected, captured.len() as int)
}

/// A list of different numbers below `n` is at most `n` long.
proof fn lemma_different_below(v: Seq<int>, n: int)
    requires
        0 <= n,
        forall|a: int| 0 <= a < v.len() ==> 0 <= #[trigger] v[a] < n,
        v.no_duplicates(),
    ensures
        v.len() <= n,
{
    let all = vstd::set_lib::set_int_range(0, n);
    vstd::set_lib::lemma_int_range(0, n);
    v.unique_seq_to_set();
    assert forall|x: int| v.to_set().contains(x) implies all.contains(x) by {}
    vstd::set_lib::lemma_len_subset(v.to_set(), all);
}

/// There are at most as many candidates as shared laps.
proof fn lemma_few_candidates(shared: Seq<SharedLap>, cs: Seq<AnchorCandidate>)
    requires
        weighed(shared, cs),
    ensures
        cs.len() <= shared.len(),
{
    let lap_of = |a: int|
        choose|i: int|
            0 <= i < shared.len() && shared_by(
                #[trigger] shared[i],
                cs[a].driver_id,
                cs[a].session_key@,
            );
    let v = Seq::new(cs.len(), lap_of);
    assert forall|a: int| 0 <= a < cs.len() implies 0 <= #[trigger] v[a] < shared.len()
        && shared_by(shared[v[a]], cs[a].driver_id, cs[a].session_key@) by {
        assert(weighs(shared, cs[a]));
        if forall|i: int|
            0 <= i < shared.len() ==> !shared_by(
                #[trigger] shared[i],
                cs[a].driver_id,
                cs[a].session_key@,
            ) {
            lemma_no_weight(shared, cs[a].driver_id, cs[a].session_key@, true);
            lemma_no_weight(shared, cs[a].driver_id, cs[a].session_key@, false);
        }
    }
    assert forall|a: int, b: int| 0 <= a < v.len() && 0 <= b < v.len() && a != b implies v[a]
        != v[b] by {
        assert(!stands_for(cs[a], cs[b].driver_id, cs[b].session_key@));
    }
    lemma_different_below(v, shared.len() as int);
}

/// There are at most as many anchors as candidates.
proof fn lemma_few_anchors(cs: Seq<anchors::Candidate>, found: Seq<(String, i64)>)
    requires
        anchors::anchors_exactly(cs, found),
    ensures
        found.len() <= cs.len(),
{
    let of = |a: int| choose|i: int| 0 <= i < cs.len() && (#[trigger] cs[i]).key == found[a].0@;
    let v = Seq::new(found.len(), of);
    assert forall|a: int| 0 <= a < found.len() implies 0 <= #[trigger] v[a] < cs.len()
        && cs[v[a]].key == found[a].0@ by {
        assert(anchors::is_session(cs, found[a].0@));
    }
    assert forall|a: int, b: int| 0 <= a < v.len() && 0 <= b < v.len() && a != b implies v[a]
        != v[b] by {
        if a < b {
            assert(text::lex_less(found[a].0@, found[b].0@));
            text::lemma_lex_irreflexive(found[a].0@);
        } else {
            assert(text::lex_less(found[b].0@, found[a].0@));
            text::lemma_lex_irreflexive(found[a].0@);
        }
    }
    lemma_different_below(v, cs.len() as int);
}

/// Fills what the results left empty from laps that were captured live: ties each
/// captured session to a driver of a result by the laps that the two share, then
/// fills from those that could be tied. The others are named, with the reason.
/// `pairs` are the times that are to be compared, and `agree` says of each pair
/// whether they are the same time.
pub fn backfill_live_laps(
    laps: &mut Vec<LapRow>,
    lives: &Vec<LiveLap>,
    field: &Vec<LiveDriverLap>,
    drivers: &Vec<DriverRow>,
    pairs: &Vec<TimePair>,
    agree: &Vec<bool>,
) -> (r: Backfill)
    requires
        evidence::pair_views(pairs@) == evidence::all_pairs(drivers@, old(laps)@, lives@),
        agree@.len() == pairs@.len(),
        pairs@.len() <= i64::MAX,
        lives@.len() <= i64::MAX,
        pairs@.len() * old(laps)@.len() <= usize::MAX,
    ensures
        exists|
            shared: Seq<SharedLap>,
            cs: Seq<AnchorCandidate>,
            rejected: Seq<(String, String)>,
            captured: Seq<(String, i64)>,
        |
            judged(
                evidence::all_pairs(drivers@, old(laps)@, lives@),
                agree@,
                shared,
            ) && #[trigger] follow_from(
                shared,
                lives@,
                r.anchors@,
                r.unanchored@,
                cs,
                rejected,
                captured,
            ),
        ({
            let after = backfilled(
                old(laps)@,
                lives@,
                field@,
                drivers@,
                r.anchors@,
                r.anchors@.len() as int,
            );
            &&& final(laps)@ == after.0
            &&& r.counts.own_laps == after.1
            &&& r.counts.field_laps == after.2
        }),
{
    let shared = shared_laps(pairs, agree);
    let candidates = anchor_candidates(&shared);
    let ghost cs = candidates@;
    let (found, rejected) = anchors::choose_anchors(candidates);
    let ghost refused = rejected@;
    let captured = captured_sessions(lives);
    let unanchored = unanchored_sessions(&captured, &found, rejected);
    proof {
        lemma_few_candidates(shared@, cs);
        lemma_few_anchors(anchors::views(cs), found@);
        assert(found@.len() * laps@.len() <= shared@.len() * laps@.len()) by (nonlinear_arith)
            requires
                found@.len() <= shared@.len(),
        ;
    }
    let counts = fill_anchored(laps, lives, field, drivers, &found);
    let r = Backfill { counts, anchors: found, unanchored };
    proof {
        assert(follow_from(
            shared@,
            lives@,
            r.anchors@,
            r.unanchored@,
            cs,
            refused,
            captured@,
        ));
    }
    r
}

/// Where there is weight, there is a lap that carries it.
proof fn lemma_some_weight(laps: Seq<SharedLap>, driver: i64, key: Seq<char>, agrees: bool)
    requires
        weight(laps, driver, key, agrees) > 0,
    ensures
        exists|i: int|
            0 <= i < laps.len() && shared_by(#[trigger] laps[i], driver, key) && laps[i].agrees
                == agrees,
    decreases laps.len(),
{
    if laps.len() > 0 {
        let last = laps[laps.len() - 1];
        if !(shared_by(last, driver, key) && last.agrees == agrees) {
            lemma_some_weight(laps.drop_last(), driver, key, agrees);
            let i = choose|i: int|
                0 <= i < laps.drop_last().len() && shared_by(
                    #[trigger] laps.drop_last()[i],
                    driver,
                    key,
                ) && laps.drop_last()[i].agrees == agrees;
            assert(shared_by(laps[i], driver, key));
        }
    }
}

/// Where there is no weight, no lap carries it.
proof fn lemma_all_agree(laps: Seq<SharedLap>, driver: i64, key: Seq<char>, i: int)
    requires
        weight(laps, driver, key, false) == 0,
        0 <= i < laps.len(),
        shared_by(laps[i], driver, key),
    ensures
        laps[i].agrees,
    decreases laps.len(),
{
    lemma_weight_bound(laps.drop_last(), driver, key, false);
    if i < laps.len() - 1 {
        lemma_all_agree(laps.drop_last(), driver, key, i);
    }
}

/// A captured session is tied to a driver only on evidence: the driver is us, under
/// the name that the session was driven under, some lap of the two has the same
/// time, and no lap of the two has different ones.
pub proof fn law_a_capture_is_tied_on_evidence(
    drivers: Seq<DriverRow>,
    laps: Seq<LapRow>,
    lives: Seq<LiveLap>,
    agree: Seq<bool>,
    shared: Seq<SharedLap>,
    found: Seq<(String, i64)>,
    unused: Seq<(String, String)>,
    cs: Seq<AnchorCandidate>,
    rejected: Seq<(String, String)>,
    captured: Seq<(String, i64)>,
    a: int,
)
    requires
        judged(evidence::all_pairs(drivers, laps, lives), agree, shared),
        follow_from(shared, lives, found, unused, cs, rejected, captured),
        0 <= a < found.len(),
    ensures
        ({
            let pairs = evidence::all_pairs(drivers, laps, lives);
            &&& exists|k: int, i: int, j: int, m: int|
                0 <= k < pairs.len() && agree[k] && 0 <= i < drivers.len() && drivers[i].id
                    == found[a].1 && 0 <= j < laps.len() && 0 <= m < lives.len()
                    && lives[m].session_key@ == found[a].0@ && #[trigger] evidence::is_made_of(
                    pairs[k],
                    drivers[i],
                    laps[j],
                    lives[m],
                )
            &&& forall|k: int|
                0 <= k < pairs.len() && (#[trigger] pairs[k]).driver_id == found[a].1
                    && pairs[k].session_key == found[a].0@ ==> agree[k]
        }),
{
    let pairs = evidence::all_pairs(drivers, laps, lives);
    let key = found[a].0@;
    let driver = found[a].1;
    let views = anchors::views(cs);
    anchors::law_anchor_has_evidence(views, key, driver);
    let c = choose|c: int|
        0 <= c < views.len() && (#[trigger] views[c]).key == key && views[c].driver_id == driver
            && views[c].hits > 0 && views[c].misses == 0;
    assert(views[c] == cs[c]@);
    assert(weighs(shared, cs[c]));
    lemma_some_weight(shared, driver, key, true);
    let k = choose|k: int|
        0 <= k < shared.len() && shared_by(#[trigger] shared[k], driver, key) && shared[k].agrees
            == true;
    evidence::law_only_our_own_laps_are_compared(drivers, laps, lives, k);
    let (i, j, m) = choose|i: int, j: int, m: int|
        0 <= i < drivers.len() && 0 <= j < laps.len() && 0 <= m < lives.len()
            && #[trigger] evidence::is_made_of(pairs[k], drivers[i], laps[j], lives[m]);
    assert(evidence::is_made_of(pairs[k], drivers[i], laps[j], lives[m]));
    assert forall|q: int|
        0 <= q < pairs.len() && (#[trigger] pairs[q]).driver_id == driver && pairs[q].session_key
            == key implies agree[q] by {
        assert(shared_by(shared[q], driver, key));
        lemma_all_agree(shared, driver, key, q);
    }
}

/// The weight is the number of laps that carry it.
proof fn lemma_weight_counts(
    laps: Seq<SharedLap>,
    driver: i64,
    key: Seq<char>,
    agrees: bool,
    p: spec_fn(SharedLap) -> bool,
)
    requires
        forall|l: SharedLap| #[trigger]
            p(l) == (l.driver_id == driver && l.session_key@ == key && l.agrees == agrees),
    ensures
        weight(laps, driver, key, agrees) == laps.filter(p).len(),
    decreases laps.len(),
{
    reveal(Seq::filter);
    if laps.len() > 0 {
        lemma_weight_counts(laps.drop_last(), driver, key, agrees, p);
    }
}

/// The evidence is counted lap by lap: a candidate has a hit for each lap on which its
/// driver and its session agree, and a miss for each on which they do not. There is
/// at most one candidate for a driver and a session, and none that shares no lap.
pub proof fn law_each_shared_lap_weighs_one(laps: Seq<SharedLap>, cs: Seq<AnchorCandidate>)
    requires
        weighed(laps, cs),
    ensures
        forall|a: int|
            0 <= a < cs.len() ==> (#[trigger] cs[a]).hits == laps.filter(
                |l: SharedLap|
                    l.driver_id == cs[a].driver_id && l.session_key@ == cs[a].session_key@
                        && l.agrees == true,
            ).len(),
        forall|a: int|
            0 <= a < cs.len() ==> (#[trigger] cs[a]).misses == laps.filter(
                |l: SharedLap|
                    l.driver_id == cs[a].driver_id && l.session_key@ == cs[a].session_key@
                        && l.agrees == false,
            ).len(),
        forall|a: int| 0 <= a < cs.len() ==> (#[trigger] cs[a]).hits > 0 || cs[a].misses > 0,
        forall|a: int, b: int|
            0 <= a < b < cs.len() ==> (#[trigger] cs[a]).driver_id != (
            #[trigger] cs[b]).driver_id || cs[a].session_key@ != cs[b].session_key@,
{
    assert forall|a: int| 0 <= a < cs.len() implies (#[trigger] cs[a]).hits == laps.filter(
        |l: SharedLap|
            l.driver_id == cs[a].driver_id && l.session_key@ == cs[a].session_key@ && l.agrees
                == true,
    ).len() by {
        assert(weighs(laps, cs[a]));
        lemma_weight_counts(
            laps,
            cs[a].driver_id,
            cs[a].session_key@,
            true,
            |l: SharedLap|
                l.driver_id == cs[a].driver_id && l.session_key@ == cs[a].session_key@ && l.agrees
                    == true,
        );
    }
    assert forall|a: int| 0 <= a < cs.len() implies (#[trigger] cs[a]).misses == laps.filter(
        |l: SharedLap|
            l.driver_id == cs[a].driver_id && l.session_key@ == cs[a].session_key@ && l.agrees
                == false,
    ).len() by {
        assert(weighs(laps, cs[a]));
        lemma_weight_counts(
            laps,
            cs[a].driver_id,
            cs[a].session_key@,
            false,
            |l: SharedLap|
                l.driver_id == cs[a].driver_id && l.session_key@ == cs[a].session_key@ && l.agrees
                    == false,
        );
    }
    assert forall|a: int, b: int| 0 <= a < b < cs.len() implies (#[trigger] cs[a]).driver_id != (
    #[trigger] cs[b]).driver_id || cs[a].session_key@ != cs[b].session_key@ by {
        assert(!stands_for(cs[a], cs[b].driver_id, cs[b].session_key@));
    }
}

/// No shared lap is passed over: there is a candidate for its driver and its session.
pub proof fn law_each_shared_lap_has_its_candidate(
    laps: Seq<SharedLap>,
    cs: Seq<AnchorCandidate>,
    i: int,
) -> (a: int)
    requires
        weighed(laps, cs),
        0 <= i < laps.len(),
    ensures
        0 <= a < cs.len(),
        cs[a].driver_id == laps[i].driver_id,
        cs[a].session_key@ == laps[i].session_key@,
{
    choose|a: int|
        0 <= a < cs.len() && stands_for(#[trigger] cs[a], laps[i].driver_id, laps[i].session_key@)
}

/// A captured session that shares a lap time with one driver of ours, contradicts none
/// of that driver's laps and is compared with no other driver, while no other session
/// is compared with that driver, is tied to that driver.
pub proof fn law_a_capture_that_fits_is_tied(
    pairs: Seq<TimePair>,
    agree: Seq<bool>,
    lives: Seq<LiveLap>,
    shared: Seq<SharedLap>,
    found: Seq<(String, i64)>,
    unused: Seq<(String, String)>,
    cs: Seq<AnchorCandidate>,
    rejected: Seq<(String, String)>,
    captured: Seq<(String, i64)>,
    k: int,
)
    requires
        judged(evidence::pair_views(pairs), agree, shared),
        follow_from(shared, lives, found, unused, cs, rejected, captured),
        0 <= k < pairs.len(),
        forall|q: int|
            0 <= q < pairs.len() && (#[trigger] pairs[q]).session_key@ == pairs[k].session_key@
                ==> pairs[q].driver_id == pairs[k].driver_id && agree[q],
        forall|q: int|
            0 <= q < pairs.len() && (#[trigger] pairs[q]).driver_id == pairs[k].driver_id
                ==> pairs[q].session_key@ == pairs[k].session_key@,
    ensures
        exists|a: int|
            0 <= a < found.len() && (#[trigger] found[a]).0@ == pairs[k].session_key@ && found[a].1
                == pairs[k].driver_id,
{
    let views = evidence::pair_views(pairs);
    let driver = pairs[k].driver_id;
    let key = pairs[k].session_key@;
    assert forall|q: int| 0 <= q < shared.len() implies (#[trigger] shared[q]).driver_id
        == pairs[q].driver_id && shared[q].session_key@ == pairs[q].session_key@ && shared[q].agrees
        == agree[q] by {
        assert(views[q] == pairs[q]@);
    }
    let c = choose|c: int|
        0 <= c < cs.len() && stands_for(#[trigger] cs[c], shared[k].driver_id, shared[k].session_key@);
    assert(stands_for(cs[c], driver, key));
    assert(weighs(shared, cs[c]));
    lemma_weight_bound(shared, driver, key, true);
    if cs[c].misses > 0 {
        lemma_some_weight(shared, driver, key, false);
        let q = choose|q: int|
            0 <= q < shared.len() && shared_by(#[trigger] shared[q], driver, key) && shared[q].agrees
                == false;
        assert(pairs[q].session_key@ == key);
        assert(false);
    }
    lemma_weight_bound(shared, driver, key, false);
    assert forall|j: int|
        0 <= j < cs.len() && j != c && ((#[trigger] cs[j]).session_key@ == key || cs[j].driver_id
            == driver) implies false by {
        assert(weighs(shared, cs[j]));
        assert(cs[j].hits > 0 || cs[j].misses > 0);
        let agrees = cs[j].hits > 0;
        lemma_weight_bound(shared, cs[j].driver_id, cs[j].session_key@, true);
        lemma_weight_bound(shared, cs[j].driver_id, cs[j].session_key@, false);
        lemma_some_weight(shared, cs[j].driver_id, cs[j].session_key@, agrees);
        let q = choose|q: int|
            0 <= q < shared.len() && shared_by(
                #[trigger] shared[q],
                cs[j].driver_id,
                cs[j].session_key@,
            ) && shared[q].agrees == agrees;
        assert(pairs[q].driver_id == cs[j].driver_id);
        assert(pairs[q].session_key@ == cs[j].session_key@);
        assert(!stands_for(cs[j], cs[c].driver_id, cs[c].session_key@));
    }
    anchors::law_the_best_reading_is_anchored(cs, found, c);
}

/// The number of laps of a session is the number of its captures.
proof fn lemma_laps_count(lives: Seq<LiveLap>, key: Seq<char>, p: spec_fn(LiveLap) -> bool)
    requires
        forall|l: LiveLap| #[trigger] p(l) == (l.session_key@ == key),
    ensures
        laps_of(lives, key) == lives.filter(p).len(),
    decreases lives.len(),
{
    reveal(Seq::filter);
    if lives.len() > 0 {
        lemma_laps_count(lives.drop_last(), key, p);
    }
}

/// The captured sessions are listed once each, with the number of captures of each.
pub proof fn law_captures_are_counted_by_session(lives: Seq<LiveLap>, list: Seq<(String, i64)>)
    requires
        counts_sessions(lives, list),
    ensures
        forall|a: int|
            0 <= a < list.len() ==> (#[trigger] list[a]).1 == lives.filter(
                |l: LiveLap| l.session_key@ == list[a].0@,
            ).len() && list[a].1 > 0,
        forall|a: int, b: int|
            0 <= a < b < list.len() ==> (#[trigger] list[a]).0@ != (#[trigger] list[b]).0@,
        forall|i: int|
            0 <= i < lives.len() ==> exists|a: int|
                0 <= a < list.len() && (#[trigger] list[a]).0@ == (
                #[trigger] lives[i]).session_key@,
{
    assert forall|a: int| 0 <= a < list.len() implies (#[trigger] list[a]).1 == lives.filter(
        |l: LiveLap| l.session_key@ == list[a].0@,
    ).len() && list[a].1 > 0 by {
        lemma_laps_count(lives, list[a].0@, |l: LiveLap| l.session_key@ == list[a].0@);
    }
    assert forall|i: int| 0 <= i < lives.len() implies exists|a: int|
        0 <= a < list.len() && (#[trigger] list[a]).0@ == (#[trigger] lives[i]).session_key@ by {
        assert(lists_key(list, lives[i].session_key@));
    }
}

/// What was rejected comes first.
proof fn lemma_left_over_first(
    captured: Seq<(String, i64)>,
    found: Seq<(String, i64)>,
    rejected: Seq<(String, String)>,
    n: int,
)
    requires
        0 <= n <= captured.len(),
    ensures
        ({
            let left = left_over(captured, found, rejected, n);
            &&& left.len() >= rejected.len()
            &&& forall|i: int|
                0 <= i < rejected.len() ==> (#[trigger] left[i]).0 == rejected[i].0@ && left[i].1
                    == rejected[i].1@
        }),
    decreases n,
{
    if n > 0 {
        lemma_left_over_first(captured, found, rejected, n - 1);
    }
}

/// What comes after that is a capture that was not judged.
proof fn lemma_left_over_is_unjudged(
    captured: Seq<(String, i64)>,
    found: Seq<(String, i64)>,
    rejected: Seq<(String, String)>,
    n: int,
    i: int,
) -> (c: int)
    requires
        0 <= n <= captured.len(),
        rejected.len() <= i < left_over(captured, found, rejected, n).len(),
    ensures
        0 <= c < n,
        left_over(captured, found, rejected, n)[i].0 == captured[c].0@,
        left_over(captured, found, rejected, n)[i].1 == unmentioned(captured[c].1),
        !accounted_for(found, rejected, captured[c].0@),
    decreases n,
{
    let before = left_over(captured, found, rejected, n - 1);
    if i < before.len() {
        lemma_left_over_is_unjudged(captured, found, rejected, n - 1, i)
    } else {
        n - 1
    }
}

/// Every capture that was not judged is left over.
proof fn lemma_unjudged_is_left_over(
    captured: Seq<(String, i64)>,
    found: Seq<(String, i64)>,
    rejected: Seq<(String, String)>,
    n: int,
    c: int,
) -> (i: int)
    requires
        0 <= c < n <= captured.len(),
        !accounted_for(found, rejected, captured[c].0@),
    ensures
        rejected.len() <= i < left_over(captured, found, rejected, n).len(),
        left_over(captured, found, rejected, n)[i].0 == captured[c].0@,
        left_over(captured, found, rejected, n)[i].1 == unmentioned(captured[c].1),
    decreases n,
{
    let before = left_over(captured, found, rejected, n - 1);
    lemma_left_over_first(captured, found, rejected, n - 1);
    if c < n - 1 {
        lemma_unjudged_is_left_over(captured, found, rejected, n - 1, c)
    } else {
        before.len() as int
    }
}

/// The rejected sessions are named first, with their reasons.
pub proof fn law_rejected_captures_are_named(
    captured: Seq<(String, i64)>,
    found: Seq<(String, i64)>,
    rejected: Seq<(String, String)>,
    unused: Seq<(String, String)>,
    i: int,
)
    requires
        reasons(unused) == left_over(captured, found, rejected, captured.len() as int),
        0 <= i < rejected.len(),
    ensures
        unused.len() >= rejected.len(),
        unused[i].0@ == rejected[i].0@,
        unused[i].1@ == rejected[i].1@,
{
    lemma_left_over_first(captured, found, rejected, captured.len() as int);
    assert(reasons(unused).len() == unused.len());
    assert(reasons(unused)[i] == (unused[i].0@, unused[i].1@));
}

/// No captured session is lost in silence: one that was neither anchored nor rejected
/// is named, with the number of its laps.
pub proof fn law_every_unused_capture_is_named(
    captured: Seq<(String, i64)>,
    found: Seq<(String, i64)>,
    rejected: Seq<(String, String)>,
    unused: Seq<(String, String)>,
    c: int,
) -> (i: int)
    requires
        reasons(unused) == left_over(captured, found, rejected, captured.len() as int),
        0 <= c < captured.len(),
        forall|a: int| 0 <= a < found.len() ==> (#[trigger] found[a]).0@ != captured[c].0@,
        forall|a: int| 0 <= a < rejected.len() ==> (#[trigger] rejected[a]).0@ != captured[c].0@,
    ensures
        rejected.len() <= i < unused.len(),
        unused[i].0@ == captured[c].0@,
        unused[i].1@ == "no imported result mentions us with these "@ + text::signed_decimal(
            captured[c].1 as int,
        ) + " laps"@,
{
    let i = lemma_unjudged_is_left_over(captured, found, rejected, captured.len() as int, c);
    assert(reasons(unused).len() == unused.len());
    assert(reasons(unused)[i] == (unused[i].0@, unused[i].1@));
    i
}

/// Nothing else is named: what comes after the rejected sessions is a captured one that
/// was neither anchored nor rejected.
pub proof fn law_only_unused_captures_are_named(
    captured: Seq<(String, i64)>,
    found: Seq<(String, i64)>,
    rejected: Seq<(String, String)>,
    unused: Seq<(String, String)>,
    i: int,
) -> (c: int)
    requires
        reasons(unused) == left_over(captured, found, rejected, captured.len() as int),
        rejected.len() <= i < unused.len(),
    ensures
        0 <= c < captured.len(),
        unused[i].0@ == captured[c].0@,
        forall|a: int| 0 <= a < found.len() ==> (#[trigger] found[a]).0@ != captured[c].0@,
        forall|a: int| 0 <= a < rejected.len() ==> (#[trigger] rejected[a]).0@ != captured[c].0@,
{
    assert(reasons(unused).len() == unused.len());
    assert(reasons(unused)[i] == (unused[i].0@, unused[i].1@));
    lemma_left_over_is_unjudged(captured, found, rejected, captured.len() as int, i)
}

/// Filling writes to each empty column of one of our laps what was captured in that
/// same column of that lap, and leaves what the result has. Which lap of which
/// captured session that is, is told by the anchor of the driver and the number of the
/// lap.
pub proof fn law_filling_takes_each_column_from_its_own(
    laps: &mut Vec<LapRow>,
    lives: Vec<LiveLap>,
    field: Vec<LiveDriverLap>,
    drivers: Vec<DriverRow>,
    anchors: Vec<(String, i64)>,
    counts: BackfillCounts,
    a: int,
    i: int,
    m: int,
)
    requires
        anchors@.len() * old(laps)@.len() <= usize::MAX,
        call_ensures(
            fill_anchored,
            (laps, &lives, &field, &drivers, &anchors),
            counts,
        ),
        0 <= a < anchors@.len(),
        0 <= i < old(laps)@.len(),
        0 <= m < lives@.len(),
        old(laps)@[i].driver_id == anchors@[a].1,
        forall|b: int|
            0 <= b < anchors@.len() && b != a ==> (#[trigger] anchors@[b]).1 != old(
                laps)@[i].driver_id,
        lives@[m].session_key@ == anchors@[a].0@,
        lives@[m].lap_num == old(laps)@[i].lap_num,
        forall|k: int|
            0 <= k < m ==> (#[trigger] lives@[k]).session_key@ != anchors@[a].0@
                || lives@[k].lap_num != old(laps)@[i].lap_num,
    ensures
        final(laps)@.len() == old(laps)@.len(),
        final(laps)@[i].driver_id == old(laps)@[i].driver_id,
        final(laps)@[i].lap_num == old(laps)@[i].lap_num,
        final(laps)@[i].lap_time == old(laps)@[i].lap_time,
        ({
            let was = old(laps)@[i].used;
            let live = lives@[m].used;
            let now = final(laps)@[i].used;
            &&& was.fuel_level is Some ==> now.fuel_level == was.fuel_level
            &&& was.fuel_level is None ==> now.fuel_level == live.fuel_level
            &&& was.fuel_used is Some ==> now.fuel_used == was.fuel_used
            &&& was.fuel_used is None ==> now.fuel_used == live.fuel_used
            &&& was.tw_fl is Some ==> now.tw_fl == was.tw_fl
            &&& was.tw_fl is None ==> now.tw_fl == live.tw_fl
            &&& was.tw_fr is Some ==> now.tw_fr == was.tw_fr
            &&& was.tw_fr is None ==> now.tw_fr == live.tw_fr
            &&& was.tw_rl is Some ==> now.tw_rl == was.tw_rl
            &&& was.tw_rl is None ==> now.tw_rl == live.tw_rl
            &&& was.tw_rr is Some ==> now.tw_rr == was.tw_rr
            &&& was.tw_rr is None ==> now.tw_rr == live.tw_rr
            &&& was.ve_level is Some ==> now.ve_level == was.ve_level
            &&& was.ve_used is Some ==> now.ve_used == was.ve_used
            &&& anchors@.len() == 1 && was.ve_level is None && live.ve_level is Some
                ==> now.ve_level == live.ve_level
            &&& anchors@.len() == 1 && was.ve_used is None && live.ve_used is Some
                ==> now.ve_used == live.ve_used
        }),
{
    law_each_gap_takes_its_own_column(
        old(laps)@,
        lives@,
        field@,
        drivers@,
        anchors@,
        a,
        i,
        m,
    );
}

/// A backfill writes to each empty column of one of our laps what was captured in that
/// same column of that lap, and leaves what the result has.
pub proof fn law_a_backfill_takes_each_column_from_its_own(
    laps: &mut Vec<LapRow>,
    lives: Vec<LiveLap>,
    field: Vec<LiveDriverLap>,
    drivers: Vec<DriverRow>,
    pairs: Vec<TimePair>,
    agree: Vec<bool>,
    r: Backfill,
    a: int,
    i: int,
    m: int,
)
    requires
        call_ensures(
            backfill_live_laps,
            (laps, &lives, &field, &drivers, &pairs, &agree),
            r,
        ),
        0 <= a < r.anchors@.len(),
        0 <= i < old(laps)@.len(),
        0 <= m < lives@.len(),
        old(laps)@[i].driver_id == r.anchors@[a].1,
        forall|b: int|
            0 <= b < r.anchors@.len() && b != a ==> (#[trigger] r.anchors@[b]).1 != old(
                laps)@[i].driver_id,
        lives@[m].session_key@ == r.anchors@[a].0@,
        lives@[m].lap_num == old(laps)@[i].lap_num,
        forall|k: int|
            0 <= k < m ==> (#[trigger] lives@[k]).session_key@ != r.anchors@[a].0@
                || lives@[k].lap_num != old(laps)@[i].lap_num,
    ensures
        final(laps)@.len() == old(laps)@.len(),
        final(laps)@[i].driver_id == old(laps)@[i].driver_id,
        final(laps)@[i].lap_num == old(laps)@[i].lap_num,
        final(laps)@[i].lap_time == old(laps)@[i].lap_time,
        ({
            let was = old(laps)@[i].used;
            let live = lives@[m].used;
            let now = final(laps)@[i].used;
            &&& was.fuel_level is Some ==> now.fuel_level == was.fuel_level
            &&& was.fuel_level is None ==> now.fuel_level == live.fuel_level
            &&& was.fuel_used is Some ==> now.fuel_used == was.fuel_used
            &&& was.fuel_used is None ==> now.fuel_used == live.fuel_used
            &&& was.tw_fl is Some ==> now.tw_fl == was.tw_fl
            &&& was.tw_fl is None ==> now.tw_fl == live.tw_fl
            &&& was.tw_fr is Some ==> now.tw_fr == was.tw_fr
            &&& was.tw_fr is None ==> now.tw_fr == live.tw_fr
            &&& was.tw_rl is Some ==> now.tw_rl == was.tw_rl
            &&& was.tw_rl is None ==> now.tw_rl == live.tw_rl
            &&& was.tw_rr is Some ==> now.tw_rr == was.tw_rr
            &&& was.tw_rr is None ==> now.tw_rr == live.tw_rr
            &&& was.ve_level is Some ==> now.ve_level == was.ve_level
            &&& was.ve_used is Some ==> now.ve_used == was.ve_used
            &&& r.anchors@.len() == 1 && was.ve_level is None && live.ve_level is Some
                ==> now.ve_level == live.ve_level
            &&& r.anchors@.len() == 1 && was.ve_used is None && live.ve_used is Some
                ==> now.ve_used == live.ve_used
        }),
{
    law_each_gap_takes_its_own_column(
        old(laps)@,
        lives@,
        field@,
        drivers@,
        r.anchors@,
        a,
        i,
        m,
    );
}

/// A lap that no anchored session has captured keeps its fuel and tire wear, and no lap
/// loses anything or changes its driver, its number or its time.
pub proof fn law_filling_leaves_other_laps_alone(
    laps: &mut Vec<LapRow>,
    lives: Vec<LiveLap>,
    field: Vec<LiveDriverLap>,
    drivers: Vec<DriverRow>,
    anchors: Vec<(String, i64)>,
    counts: BackfillCounts,
    i: int,
)
    requires
        anchors@.len() * old(laps)@.len() <= usize::MAX,
        call_ensures(
            fill_anchored,
            (laps, &lives, &field, &drivers, &anchors),
            counts,
        ),
        0 <= i < old(laps)@.len(),
        forall|a: int, m: int|
            0 <= a < anchors@.len() && 0 <= m < lives@.len() && (#[trigger] anchors@[a]).1 == old(
                laps)@[i].driver_id && (#[trigger] lives@[m]).session_key@ == anchors@[a].0@
                ==> lives@[m].lap_num != old(laps)@[i].lap_num,
    ensures
        final(laps)@.len() == old(laps)@.len(),
        final(laps)@[i].driver_id == old(laps)@[i].driver_id,
        final(laps)@[i].lap_num == old(laps)@[i].lap_num,
        final(laps)@[i].lap_time == old(laps)@[i].lap_time,
        ({
            let was = old(laps)@[i].used;
            let now = final(laps)@[i].used;
            &&& now.fuel_level == was.fuel_level
            &&& now.fuel_used == was.fuel_used
            &&& now.tw_fl == was.tw_fl
            &&& now.tw_fr == was.tw_fr
            &&& now.tw_rl == was.tw_rl
            &&& now.tw_rr == was.tw_rr
            &&& was.ve_level is Some ==> now.ve_level == was.ve_level
            &&& was.ve_used is Some ==> now.ve_used == was.ve_used
        }),
{
    law_other_laps_keep_fuel_and_tires(old(laps)@, lives@, field@, drivers@, anchors@, i);
}

/// A rival's lap takes the level and the use of its virtual energy, where the result
/// has none, from the capture of that rival on that lap in the one session that is
/// anchored, and nothing else.
pub proof fn law_filling_gives_a_rival_its_own_energy(
    laps: &mut Vec<LapRow>,
    lives: Vec<LiveLap>,
    field: Vec<LiveDriverLap>,
    drivers: Vec<DriverRow>,
    anchors: Vec<(String, i64)>,
    counts: BackfillCounts,
    i: int,
    d: int,
    e: int,
    m: int,
)
    requires
        anchors@.len() * old(laps)@.len() <= usize::MAX,
        call_ensures(
            fill_anchored,
            (laps, &lives, &field, &drivers, &anchors),
            counts,
        ),
        anchors@.len() == 1,
        0 <= i < old(laps)@.len(),
        0 <= d < drivers@.len(),
        0 <= e < drivers@.len(),
        0 <= m < field@.len(),
        drivers@[d].id == old(laps)@[i].driver_id,
        drivers@[e].id == anchors@[0].1,
        anchors@[0].1 != old(laps)@[i].driver_id,
        drivers@[d].session_id == drivers@[e].session_id,
        forall|p: int, q: int|
            0 <= p < drivers@.len() && 0 <= q < drivers@.len() && p != q ==> (
            #[trigger] drivers@[p]).id != (#[trigger] drivers@[q]).id,
        forall|k: int|
            0 <= k < drivers@.len() && k != d ==> (#[trigger] drivers@[k]).session_id
                != drivers@[d].session_id || drivers@[k].name@ != drivers@[d].name@,
        field@[m].session_key@ == anchors@[0].0@,
        field@[m].driver_name@ == drivers@[d].name@,
        field@[m].lap_num == old(laps)@[i].lap_num,
        forall|k: int|
            0 <= k < m ==> (#[trigger] field@[k]).session_key@ != anchors@[0].0@
                || field@[k].driver_name@ != drivers@[d].name@ || field@[k].lap_num != old(
                laps)@[i].lap_num,
    ensures
        ({
            let was = old(laps)@[i].used;
            let now = final(laps)@[i].used;
            &&& was.ve_level is None ==> now.ve_level == field@[m].ve_level
            &&& was.ve_level is Some ==> now.ve_level == was.ve_level
            &&& was.ve_used is None ==> now.ve_used == field@[m].ve_used
            &&& was.ve_used is Some ==> now.ve_used == was.ve_used
            &&& now.fuel_level == was.fuel_level
            &&& now.fuel_used == was.fuel_used
            &&& now.tw_fl == was.tw_fl
            &&& now.tw_fr == was.tw_fr
            &&& now.tw_rl == was.tw_rl
            &&& now.tw_rr == was.tw_rr
        }),
{
    law_a_rivals_energy_is_its_own(
        old(laps)@,
        lives@,
        field@,
        drivers@,
        anchors@,
        0,
        i,
        d,
        e,
        m,
    );
}

/// Each compared pair is one shared lap, with its driver, its session and the verdict
/// on it.
pub proof fn law_each_pair_is_one_shared_lap(
    pairs: Vec<TimePair>,
    agree: Vec<bool>,
    shared: Vec<SharedLap>,
    k: int,
)
    requires
        agree@.len() == pairs@.len(),
        call_ensures(shared_laps, (&pairs, &agree), shared),
        0 <= k < pairs@.len(),
    ensures
        shared@.len() == pairs@.len(),
        shared@[k].driver_id == pairs@[k].driver_id,
        shared@[k].session_key@ == pairs@[k].session_key@,
        shared@[k].agrees == agree@[k],
{
    assert(evidence::pair_views(pairs@)[k] == pairs@[k]@);
}

/// A candidate has a hit for each lap on which its driver and its session agree and a
/// miss for each on which they do not, and every shared lap has its candidate.
pub proof fn law_candidates_are_weighed_lap_by_lap(
    laps: Vec<SharedLap>,
    cs: Vec<AnchorCandidate>,
    i: int,
) -> (c: int)
    requires
        laps@.len() <= i64::MAX,
        call_ensures(anchor_candidates, (&laps,), cs),
        0 <= i < laps@.len(),
    ensures
        0 <= c < cs@.len(),
        cs@[c].driver_id == laps@[i].driver_id,
        cs@[c].session_key@ == laps@[i].session_key@,
        forall|a: int|
            0 <= a < cs@.len() ==> (#[trigger] cs@[a]).hits == laps@.filter(
                |l: SharedLap|
                    l.driver_id == cs@[a].driver_id && l.session_key@ == cs@[a].session_key@
                        && l.agrees == true,
            ).len(),
        forall|a: int|
            0 <= a < cs@.len() ==> (#[trigger] cs@[a]).misses == laps@.filter(
                |l: SharedLap|
                    l.driver_id == cs@[a].driver_id && l.session_key@ == cs@[a].session_key@
                        && l.agrees == false,
            ).len(),
        forall|a: int, b: int|
            0 <= a < b < cs@.len() ==> (#[trigger] cs@[a]).driver_id != (
            #[trigger] cs@[b]).driver_id || cs@[a].session_key@ != cs@[b].session_key@,
{
    law_each_shared_lap_weighs_one(laps@, cs@);
    law_each_shared_lap_has_its_candidate(laps@, cs@, i)
}

/// Every captured session is listed once, with the number of its laps.
pub proof fn law_captured_sessions_are_listed_once(
    lives: Vec<LiveLap>,
    list: Vec<(String, i64)>,
    i: int,
)
    requires
        lives@.len() <= i64::MAX,
        call_ensures(captured_sessions, (&lives,), list),
        0 <= i < lives@.len(),
    ensures
        exists|a: int|
            0 <= a < list@.len() && (#[trigger] list@[a]).0@ == lives@[i].session_key@,
        forall|a: int|
            0 <= a < list@.len() ==> (#[trigger] list@[a]).1 == lives@.filter(
                |l: LiveLap| l.session_key@ == list@[a].0@,
            ).len(),
        forall|a: int, b: int|
            0 <= a < b < list@.len() ==> (#[trigger] list@[a]).0@ != (#[trigger] list@[b]).0@,
{
    law_captures_are_counted_by_session(lives@, list@);
    assert(lists_key(list@, lives@[i].session_key@));
}

/// The rejected sessions are named with their reasons, and after them every captured
/// one that was neither anchored nor rejected, with the number of its laps.
pub proof fn law_no_capture_is_lost_in_silence(
    captured: Vec<(String, i64)>,
    found: Vec<(String, i64)>,
    rejected: Vec<(String, String)>,
    r: Vec<(String, String)>,
    i: int,
    c: int,
)
    requires
        call_ensures(unanchored_sessions, (&captured, &found, rejected), r),
        0 <= c < captured@.len(),
        forall|a: int| 0 <= a < found@.len() ==> (#[trigger] found@[a]).0@ != captured@[c].0@,
        forall|a: int| 0 <= a < rejected@.len() ==> (#[trigger] rejected@[a]).0@ != captured@[c].0@,
    ensures
        0 <= i < rejected@.len() ==> r@.len() > i && r@[i].0@ == rejected@[i].0@ && r@[i].1@
            == rejected@[i].1@,
        exists|k: int|
            rejected@.len() <= k < r@.len() && (#[trigger] r@[k]).0@ == captured@[c].0@ && r@[k].1@
                == "no imported result mentions us with these "@ + text::signed_decimal(
                captured@[c].1 as int,
            ) + " laps"@,
{
    if 0 <= i < rejected@.len() {
        law_rejected_captures_are_named(captured@, found@, rejected@, r@, i);
    }
    let k = law_every_unused_capture_is_named(captured@, found@, rejected@, r@, c);
}

/// Nothing but what was rejected or not judged at all is named as unused.
pub proof fn law_only_what_is_unused_is_named(
    captured: Vec<(String, i64)>,
    found: Vec<(String, i64)>,
    rejected: Vec<(String, String)>,
    r: Vec<(String, String)>,
    i: int,
) -> (c: int)
    requires
        call_ensures(unanchored_sessions, (&captured, &found, rejected), r),
        rejected@.len() <= i < r@.len(),
    ensures
        0 <= c < captured@.len(),
        r@[i].0@ == captured@[c].0@,
        forall|a: int| 0 <= a < found@.len() ==> (#[trigger] found@[a]).0@ != captured@[c].0@,
        forall|a: int| 0 <= a < rejected@.len() ==> (#[trigger] rejected@[a]).0@ != captured@[c].0@,
{
    law_only_unused_captures_are_named(captured@, found@, rejected@, r@, i)
}

/// A backfill ties a captured session to a driver where the two share a lap time, agree
/// on every lap that they share, and neither shares a lap with anybody else.
pub proof fn law_a_backfill_ties_what_fits(
    laps: &mut Vec<LapRow>,
    lives: Vec<LiveLap>,
    field: Vec<LiveDriverLap>,
    drivers: Vec<DriverRow>,
    pairs: Vec<TimePair>,
    agree: Vec<bool>,
    r: Backfill,
    k: int,
)
    requires
        evidence::pair_views(pairs@) == evidence::all_pairs(drivers@, old(laps)@, lives@),
        call_ensures(
            backfill_live_laps,
            (laps, &lives, &field, &drivers, &pairs, &agree),
            r,
        ),
        0 <= k < pairs@.len(),
        forall|q: int|
            0 <= q < pairs@.len() && (#[trigger] pairs@[q]).session_key@ == pairs@[k].session_key@
                ==> pairs@[q].driver_id == pairs@[k].driver_id && agree@[q],
        forall|q: int|
            0 <= q < pairs@.len() && (#[trigger] pairs@[q]).driver_id == pairs@[k].driver_id
                ==> pairs@[q].session_key@ == pairs@[k].session_key@,
    ensures
        exists|a: int|
            0 <= a < r.anchors@.len() && (#[trigger] r.anchors@[a]).0@ == pairs@[k].session_key@
                && r.anchors@[a].1 == pairs@[k].driver_id,
{
    let (shared, cs, rejected, captured) = choose|
        shared: Seq<SharedLap>,
        cs: Seq<AnchorCandidate>,
        rejected: Seq<(String, String)>,
        captured: Seq<(String, i64)>,
    |
        judged(evidence::all_pairs(drivers@, old(laps)@, lives@), agree@, shared)
            && #[trigger] follow_from(
            shared,
            lives@,
            r.anchors@,
            r.unanchored@,
            cs,
            rejected,
            captured,
        );
    law_a_capture_that_fits_is_tied(
        pairs@,
        agree@,
        lives@,
        shared,
        r.anchors@,
        r.unanchored@,
        cs,
        rejected,
        captured,
        k,
    );
}

/// A backfill ties no session without evidence: the driver and the session share a lap,
/// and agree on every lap that they share.
pub proof fn law_a_backfill_ties_nothing_else(
    laps: &mut Vec<LapRow>,
    lives: Vec<LiveLap>,
    field: Vec<LiveDriverLap>,
    drivers: Vec<DriverRow>,
    pairs: Vec<TimePair>,
    agree: Vec<bool>,
    r: Backfill,
    a: int,
)
    requires
        evidence::pair_views(pairs@) == evidence::all_pairs(drivers@, old(laps)@, lives@),
        call_ensures(
            backfill_live_laps,
            (laps, &lives, &field, &drivers, &pairs, &agree),
            r,
        ),
        0 <= a < r.anchors@.len(),
    ensures
        exists|k: int|
            0 <= k < pairs@.len() && (#[trigger] pairs@[k]).driver_id == r.anchors@[a].1
                && pairs@[k].session_key@ == r.anchors@[a].0@,
        forall|k: int|
            0 <= k < pairs@.len() && (#[trigger] pairs@[k]).driver_id == r.anchors@[a].1
                && pairs@[k].session_key@ == r.anchors@[a].0@ ==> agree@[k],
{
    let views = evidence::pair_views(pairs@);
    let (shared, cs, rejected, captured) = choose|
        shared: Seq<SharedLap>,
        cs: Seq<AnchorCandidate>,
        rejected: Seq<(String, String)>,
        captured: Seq<(String, i64)>,
    |
        judged(evidence::all_pairs(drivers@, old(laps)@, lives@), agree@, shared)
            && #[trigger] follow_from(
            shared,
            lives@,
            r.anchors@,
            r.unanchored@,
            cs,
            rejected,
            captured,
        );
    law_a_capture_is_tied_on_evidence(
        drivers@,
        old(laps)@,
        lives@,
        agree@,
        shared,
        r.anchors@,
        r.unanchored@,
        cs,
        rejected,
        captured,
        a,
    );
    let (k, i, j, m) = choose|k: int, i: int, j: int, m: int|
        0 <= k < views.len() && agree@[k] && 0 <= i < drivers@.len() && drivers@[i].id
            == r.anchors@[a].1 && 0 <= j < old(laps)@.len() && 0 <= m < lives@.len()
            && lives@[m].session_key@ == r.anchors@[a].0@ && #[trigger] evidence::is_made_of(
            views[k],
            drivers@[i],
            old(laps)@[j],
            lives@[m],
        );
    assert(views[k] == pairs@[k]@);
    assert forall|q: int|
        0 <= q < pairs@.len() && (#[trigger] pairs@[q]).driver_id == r.anchors@[a].1
            && pairs@[q].session_key@ == r.anchors@[a].0@ implies agree@[q] by {
        assert(views[q] == pairs@[q]@);
    }
}

/// The two counts of a fill, and of a backfill, are those of its anchors one after the
/// other: what each writes to our own laps, and what it then writes to those of the
/// field.
pub proof fn law_a_fill_counts_what_it_writes(
    laps: &mut Vec<LapRow>,
    lives: Vec<LiveLap>,
    field: Vec<LiveDriverLap>,
    drivers: Vec<DriverRow>,
    anchors: Vec<(String, i64)>,
    counts: BackfillCounts,
    others: &mut Vec<LapRow>,
    pairs: Vec<TimePair>,
    agree: Vec<bool>,
    r: Backfill,
)
    requires
        call_ensures(
            fill_anchored,
            (laps, &lives, &field, &drivers, &anchors),
            counts,
        ),
        call_ensures(
            backfill_live_laps,
            (others, &lives, &field, &drivers, &pairs, &agree),
            r,
        ),
    ensures
        ({
            let after = backfilled(
                old(laps)@,
                lives@,
                field@,
                drivers@,
                anchors@,
                anchors@.len() as int,
            );
            &&& final(laps)@ == after.0
            &&& counts.own_laps == after.1
            &&& counts.field_laps == after.2
        }),
        old(others)@ == old(laps)@ && r.anchors@ == anchors@ ==> final(others)@ == final(laps)@
            && r.counts.own_laps == counts.own_laps && r.counts.field_laps == counts.field_laps,
{
}

} // verus!
