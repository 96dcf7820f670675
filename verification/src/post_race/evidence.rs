//! Which lap times of a capture and of a result are to be compared.
//!
//! A captured session can only be that of a driver who is us and has the name that
//! it was driven under. The two are compared on every lap that both know a time
//! for. Whether two times agree is for the caller to say.

use vstd::prelude::*;

use crate::post_race::backfill::{LapRow, LiveLap};
use crate::post_race::identity::DriverRow;
use crate::protocol::messages::Double;
use crate::text;

verus! {

/// Two times of what may be the same lap.
#[derive(Debug)]
pub struct TimePair {
    pub driver_id: i64,
    pub session_key: String,
    pub result_time: Double,
    pub live_time: Double,
}

/// Two times of what may be the same lap.
pub struct TimePairView {
    pub driver_id: i64,
    pub session_key: Seq<char>,
    pub result_time: Double,
    pub live_time: Double,
}

impl View for TimePair {
    type V = TimePairView;

    open spec fn view(&self) -> TimePairView {
        TimePairView {
            driver_id: self.driver_id,
            session_key: self.session_key@,
            result_time: self.result_time,
            live_time: self.live_time,
        }
    }
}

/// The pairs of a list.
pub open spec fn pair_views(v: Seq<TimePair>) -> Seq<TimePairView> {
    Seq::new(v.len(), |i: int| v[i]@)
}

/// Whether a captured lap may be this lap of this driver: the driver is us, under
/// the same name, and both know a time for a lap of the same number.
pub open spec fn comparable(d: DriverRow, lap: LapRow, live: LiveLap) -> bool {
    &&& d.is_self
    &&& d.name@ == live.player_name@
    &&& lap.driver_id == d.id
    &&& lap.lap_num == live.lap_num
    &&& lap.lap_time is Some
    &&& live.lap_time is Some
}

/// The two times of a lap that can be compared.
pub open spec fn pair_of(d: DriverRow, lap: LapRow, live: LiveLap) -> TimePairView {
    TimePairView {
        driver_id: d.id,
        session_key: live.session_key@,
        result_time: lap.lap_time->Some_0,
        live_time: live.lap_time->Some_0,
    }
}

/// The pairs of one lap with all captured ones.
pub open spec fn pairs_of_lap(
    d: DriverRow,
    lap: LapRow,
    lives: Seq<LiveLap>,
) -> Seq<TimePairView>
    decreases lives.len(),
{
    if lives.len() == 0 {
        Seq::empty()
    } else {
        let rest = pairs_of_lap(d, lap, lives.drop_last());
        if comparable(d, lap, lives.last()) {
            rest.push(pair_of(d, lap, lives.last()))
        } else {
            rest
        }
    }
}

/// The pairs of one driver's laps with all captured ones.
pub open spec fn pairs_of_driver(
    d: DriverRow,
    laps: Seq<LapRow>,
    lives: Seq<LiveLap>,
) -> Seq<TimePairView>
    decreases laps.len(),
{
    if laps.len() == 0 {
        Seq::empty()
    } else {
        pairs_of_driver(d, laps.drop_last(), lives) + pairs_of_lap(d, laps.last(), lives)
    }
}

/// Every pair of times that is to be compared.
pub open spec fn all_pairs(
    drivers: Seq<DriverRow>,
    laps: Seq<LapRow>,
    lives: Seq<LiveLap>,
) -> Seq<TimePairView>
    decreases drivers.len(),
{
    if drivers.len() == 0 {
        Seq::empty()
    } else {
        all_pairs(drivers.drop_last(), laps, lives) + pairs_of_driver(drivers.last(), laps, lives)
    }
}

/// A lap of somebody else, or without a time, has no pairs.
proof fn lemma_no_pairs_of_lap(d: DriverRow, lap: LapRow, lives: Seq<LiveLap>)
    requires
        !d.is_self || lap.driver_id != d.id || lap.lap_time is None,
    ensures
        pairs_of_lap(d, lap, lives) == Seq::<TimePairView>::empty(),
    decreases lives.len(),
{
    if lives.len() > 0 {
        lemma_no_pairs_of_lap(d, lap, lives.drop_last());
    }
}

/// A driver who is not us has no pairs.
proof fn lemma_no_pairs_of_driver(d: DriverRow, laps: Seq<LapRow>, lives: Seq<LiveLap>)
    requires
        !d.is_self,
    ensures
        pairs_of_driver(d, laps, lives) == Seq::<TimePairView>::empty(),
    decreases laps.len(),
{
    if laps.len() > 0 {
        lemma_no_pairs_of_driver(d, laps.drop_last(), lives);
        lemma_no_pairs_of_lap(d, laps.last(), lives);
    }
}

/// Adds the pairs of one lap.
fn add_pairs_of_lap(d: &DriverRow, lap: &LapRow, lives: &Vec<LiveLap>, out: &mut Vec<TimePair>)
    ensures
        pair_views(final(out)@) == pair_views(old(out)@) + pairs_of_lap(*d, *lap, lives@),
{
    let ghost before = pair_views(out@);
    proof {
        if !d.is_self || lap.driver_id != d.id || lap.lap_time is None {
            lemma_no_pairs_of_lap(*d, *lap, lives@);
            assert(before + Seq::<TimePairView>::empty() == before);
        }
    }
    if !d.is_self || lap.driver_id != d.id {
        return;
    }
    let result_time = match lap.lap_time {
        Some(t) => t,
        None => return,
    };
    let mut m: usize = 0;
    proof {
        assert(before + pairs_of_lap(*d, *lap, lives@.take(0)) == before);
    }
    while m < lives.len()
        invariant
            m <= lives@.len(),
            d.is_self,
            lap.driver_id == d.id,
            lap.lap_time == Some(result_time),
            pair_views(out@) == before + pairs_of_lap(*d, *lap, lives@.take(m as int)),
        decreases lives@.len() - m,
    {
        let live = &lives[m];
        let ghost so_far = out@;
        proof {
            let t = lives@.take(m + 1);
            assert(t.drop_last() == lives@.take(m as int));
            assert(t.last() == lives@[m as int]);
        }
        if let Some(live_time) = live.lap_time {
            if lap.lap_num == live.lap_num && text::same(&d.name, &live.player_name) {
                out.push(
                    TimePair {
                        driver_id: d.id,
                        session_key: live.session_key.clone(),
                        result_time,
                        live_time,
                    },
                );
                proof {
                    assert(pair_views(out@) == pair_views(so_far).push(pair_of(*d, *lap, *live)));
                }
            }
        }
        proof {
            assert(pair_views(out@) == before + pairs_of_lap(*d, *lap, lives@.take(m + 1)));
        }
        m += 1;
    }
    proof {
        assert(lives@.take(m as int) == lives@);
    }
}

/// Adds the pairs of one driver.
fn add_pairs_of_driver(
    d: &DriverRow,
    laps: &Vec<LapRow>,
    lives: &Vec<LiveLap>,
    out: &mut Vec<TimePair>,
)
    ensures
        pair_views(final(out)@) == pair_views(old(out)@) + pairs_of_driver(*d, laps@, lives@),
{
    let ghost before = pair_views(out@);
    if !d.is_self {
        proof {
            lemma_no_pairs_of_driver(*d, laps@, lives@);
            assert(before + Seq::<TimePairView>::empty() == before);
        }
        return;
    }
    let mut j: usize = 0;
    proof {
        assert(before + pairs_of_driver(*d, laps@.take(0), lives@) == before);
    }
    while j < laps.len()
        invariant
            j <= laps@.len(),
            pair_views(out@) == before + pairs_of_driver(*d, laps@.take(j as int), lives@),
        decreases laps@.len() - j,
    {
        proof {
            let t = laps@.take(j + 1);
            assert(t.drop_last() == laps@.take(j as int));
            assert(t.last() == laps@[j as int]);
        }
        add_pairs_of_lap(d, &laps[j], lives, out);
        proof {
            assert(pair_views(out@) == before + pairs_of_driver(*d, laps@.take(j + 1), lives@));
        }
        j += 1;
    }
    proof {
        assert(laps@.take(j as int) == laps@);
    }
}

/// Every pair of times that is to be compared: one for each captured lap and each
/// lap of the same number of a driver it may be of. Tracks and session types do
/// not matter, since the two sources spell them differently.
pub fn times_to_compare(
    drivers: &Vec<DriverRow>,
    laps: &Vec<LapRow>,
    lives: &Vec<LiveLap>,
) -> (pairs: Vec<TimePair>)
    ensures
        pair_views(pairs@) == all_pairs(drivers@, laps@, lives@),
{
    let mut pairs: Vec<TimePair> = Vec::new();
    let mut i: usize = 0;
    proof {
        assert(pair_views(pairs@) == all_pairs(drivers@.take(0), laps@, lives@));
    }
    while i < drivers.len()
        invariant
            i <= drivers@.len(),
            pair_views(pairs@) == all_pairs(drivers@.take(i as int), laps@, lives@),
        decreases drivers@.len() - i,
    {
        proof {
            let t = drivers@.take(i + 1);
            assert(t.drop_last() == drivers@.take(i as int));
            assert(t.last() == drivers@[i as int]);
        }
        add_pairs_of_driver(&drivers[i], laps, lives, &mut pairs);
        i += 1;
    }
    proof {
        assert(drivers@.take(i as int) == drivers@);
    }
    pairs
}

// ---------------------------------------------------------------------------
// Laws
// ---------------------------------------------------------------------------

/// Whether a pair is made of these three rows.
pub open spec fn is_made_of(p: TimePairView, d: DriverRow, lap: LapRow, live: LiveLap) -> bool {
    comparable(d, lap, live) && p == pair_of(d, lap, live)
}

proof fn lemma_lap_of_pair(d: DriverRow, lap: LapRow, lives: Seq<LiveLap>, k: int) -> (m: int)
    requires
        0 <= k < pairs_of_lap(d, lap, lives).len(),
    ensures
        0 <= m < lives.len(),
        is_made_of(pairs_of_lap(d, lap, lives)[k], d, lap, lives[m]),
    decreases lives.len(),
{
    let rest = pairs_of_lap(d, lap, lives.drop_last());
    if k < rest.len() {
        lemma_lap_of_pair(d, lap, lives.drop_last(), k)
    } else {
        lives.len() - 1
    }
}

proof fn lemma_driver_of_pair(
    d: DriverRow,
    laps: Seq<LapRow>,
    lives: Seq<LiveLap>,
    k: int,
) -> (r: (int, int))
    requires
        0 <= k < pairs_of_driver(d, laps, lives).len(),
    ensures
        0 <= r.0 < laps.len(),
        0 <= r.1 < lives.len(),
        is_made_of(pairs_of_driver(d, laps, lives)[k], d, laps[r.0], lives[r.1]),
    decreases laps.len(),
{
    let rest = pairs_of_driver(d, laps.drop_last(), lives);
    if k < rest.len() {
        lemma_driver_of_pair(d, laps.drop_last(), lives, k)
    } else {
        let m = lemma_lap_of_pair(d, laps.last(), lives, k - rest.len());
        (laps.len() - 1, m)
    }
}

/// Only laps of our own, under the name they were driven under, are compared.
pub proof fn law_only_our_own_laps_are_compared(
    drivers: Seq<DriverRow>,
    laps: Seq<LapRow>,
    lives: Seq<LiveLap>,
    k: int,
)
    requires
        0 <= k < all_pairs(drivers, laps, lives).len(),
    ensures
        exists|i: int, j: int, m: int|
            0 <= i < drivers.len() && 0 <= j < laps.len() && 0 <= m < lives.len()
                && #[trigger] is_made_of(
                all_pairs(drivers, laps, lives)[k],
                drivers[i],
                laps[j],
                lives[m],
            ),
    decreases drivers.len(),
{
    let p = all_pairs(drivers, laps, lives)[k];
    let rest = all_pairs(drivers.drop_last(), laps, lives);
    if k < rest.len() {
        law_only_our_own_laps_are_compared(drivers.drop_last(), laps, lives, k);
        let (i, j, m) = choose|i: int, j: int, m: int|
            0 <= i < drivers.drop_last().len() && 0 <= j < laps.len() && 0 <= m < lives.len()
                && #[trigger] is_made_of(
                all_pairs(drivers.drop_last(), laps, lives)[k],
                drivers.drop_last()[i],
                laps[j],
                lives[m],
            );
        assert(is_made_of(p, drivers[i], laps[j], lives[m]));
    } else {
        let r = lemma_driver_of_pair(drivers.last(), laps, lives, k - rest.len());
        assert(is_made_of(p, drivers[drivers.len() - 1], laps[r.0], lives[r.1]));
    }
}

proof fn lemma_pair_of_lap_is_there(d: DriverRow, lap: LapRow, lives: Seq<LiveLap>, m: int)
    requires
        0 <= m < lives.len(),
        comparable(d, lap, lives[m]),
    ensures
        pairs_of_lap(d, lap, lives).contains(pair_of(d, lap, lives[m])),
    decreases lives.len(),
{
    let p = pair_of(d, lap, lives[m]);
    let all = pairs_of_lap(d, lap, lives);
    let rest = pairs_of_lap(d, lap, lives.drop_last());
    if m < lives.len() - 1 {
        lemma_pair_of_lap_is_there(d, lap, lives.drop_last(), m);
        let k = choose|k: int| 0 <= k < rest.len() && rest[k] == p;
        assert(all[k] == p);
    } else {
        assert(all[rest.len() as int] == p);
    }
}

proof fn lemma_pair_of_driver_is_there(
    d: DriverRow,
    laps: Seq<LapRow>,
    lives: Seq<LiveLap>,
    j: int,
    m: int,
)
    requires
        0 <= j < laps.len(),
        0 <= m < lives.len(),
        comparable(d, laps[j], lives[m]),
    ensures
        pairs_of_driver(d, laps, lives).contains(pair_of(d, laps[j], lives[m])),
    decreases laps.len(),
{
    let p = pair_of(d, laps[j], lives[m]);
    let all = pairs_of_driver(d, laps, lives);
    let rest = pairs_of_driver(d, laps.drop_last(), lives);
    let last = pairs_of_lap(d, laps.last(), lives);
    if j < laps.len() - 1 {
        lemma_pair_of_driver_is_there(d, laps.drop_last(), lives, j, m);
        let k = choose|k: int| 0 <= k < rest.len() && rest[k] == p;
        assert(all[k] == p);
    } else {
        lemma_pair_of_lap_is_there(d, laps.last(), lives, m);
        let k = choose|k: int| 0 <= k < last.len() && last[k] == p;
        assert(all[rest.len() + k] == p);
    }
}

/// No lap that could contradict a match is passed over: wherever both know a time,
/// the two are compared.
pub proof fn law_every_common_lap_is_compared(
    drivers: Seq<DriverRow>,
    laps: Seq<LapRow>,
    lives: Seq<LiveLap>,
    i: int,
    j: int,
    m: int,
)
    requires
        0 <= i < drivers.len(),
        0 <= j < laps.len(),
        0 <= m < lives.len(),
        comparable(drivers[i], laps[j], lives[m]),
    ensures
        all_pairs(drivers, laps, lives).contains(pair_of(drivers[i], laps[j], lives[m])),
    decreases drivers.len(),
{
    let p = pair_of(drivers[i], laps[j], lives[m]);
    let all = all_pairs(drivers, laps, lives);
    let rest = all_pairs(drivers.drop_last(), laps, lives);
    let last = pairs_of_driver(drivers.last(), laps, lives);
    if i < drivers.len() - 1 {
        law_every_common_lap_is_compared(drivers.drop_last(), laps, lives, i, j, m);
        let k = choose|k: int| 0 <= k < rest.len() && rest[k] == p;
        assert(all[k] == p);
    } else {
        lemma_pair_of_driver_is_there(drivers.last(), laps, lives, j, m);
        let k = choose|k: int| 0 <= k < last.len() && last[k] == p;
        assert(all[rest.len() + k] == p);
    }
}

/// What is compared: each pair holds the time that the result has of a lap of ours and
/// the time that was captured of the lap of the same number, under our name in that
/// result, beside the driver of the one and the session of the other.
pub proof fn law_a_pair_holds_two_times_of_one_lap(
    drivers: Seq<DriverRow>,
    laps: Seq<LapRow>,
    lives: Seq<LiveLap>,
    pairs: Seq<TimePair>,
    k: int,
) -> (r: (int, int, int))
    requires
        pair_views(pairs) == all_pairs(drivers, laps, lives),
        0 <= k < pairs.len(),
    ensures
        0 <= r.0 < drivers.len(),
        0 <= r.1 < laps.len(),
        0 <= r.2 < lives.len(),
        drivers[r.0].is_self,
        drivers[r.0].name@ == lives[r.2].player_name@,
        laps[r.1].driver_id == drivers[r.0].id,
        laps[r.1].lap_num == lives[r.2].lap_num,
        laps[r.1].lap_time == Some(pairs[k].result_time),
        lives[r.2].lap_time == Some(pairs[k].live_time),
        pairs[k].driver_id == drivers[r.0].id,
        pairs[k].session_key@ == lives[r.2].session_key@,
{
    assert(pair_views(pairs)[k] == pairs[k]@);
    law_only_our_own_laps_are_compared(drivers, laps, lives, k);
    choose|i: int, j: int, m: int|
        0 <= i < drivers.len() && 0 <= j < laps.len() && 0 <= m < lives.len()
            && #[trigger] is_made_of(
            all_pairs(drivers, laps, lives)[k],
            drivers[i],
            laps[j],
            lives[m],
        )
}

/// Whatever both know is compared: a lap of ours with a time and a captured lap of the
/// same number with a time, under our name in that result, make a pair of those times.
pub proof fn law_two_times_of_one_lap_are_paired(
    drivers: Seq<DriverRow>,
    laps: Seq<LapRow>,
    lives: Seq<LiveLap>,
    pairs: Seq<TimePair>,
    i: int,
    j: int,
    m: int,
) -> (k: int)
    requires
        pair_views(pairs) == all_pairs(drivers, laps, lives),
        0 <= i < drivers.len(),
        0 <= j < laps.len(),
        0 <= m < lives.len(),
        drivers[i].is_self,
        drivers[i].name@ == lives[m].player_name@,
        laps[j].driver_id == drivers[i].id,
        laps[j].lap_num == lives[m].lap_num,
        laps[j].lap_time is Some,
        lives[m].lap_time is Some,
    ensures
        0 <= k < pairs.len(),
        pairs[k].driver_id == drivers[i].id,
        pairs[k].session_key@ == lives[m].session_key@,
        laps[j].lap_time == Some(pairs[k].result_time),
        lives[m].lap_time == Some(pairs[k].live_time),
{
    law_every_common_lap_is_compared(drivers, laps, lives, i, j, m);
    let all = all_pairs(drivers, laps, lives);
    let k = choose|k: int|
        0 <= k < all.len() && all[k] == pair_of(drivers[i], laps[j], lives[m]);
    assert(pair_views(pairs)[k] == pairs[k]@);
    k
}

/// Each comparison is made once: the pairs add up over drivers, laps and captures, and
/// one of each makes one pair or none.
pub proof fn law_each_comparison_is_made_once(
    drivers: Seq<DriverRow>,
    d: DriverRow,
    laps: Seq<LapRow>,
    lap: LapRow,
    lives: Seq<LiveLap>,
    live: LiveLap,
)
    ensures
        all_pairs(drivers.push(d), laps, lives) == all_pairs(drivers, laps, lives) + all_pairs(
            seq![d],
            laps,
            lives,
        ),
        all_pairs(seq![d], laps.push(lap), lives) == all_pairs(seq![d], laps, lives) + all_pairs(
            seq![d],
            seq![lap],
            lives,
        ),
        all_pairs(seq![d], seq![lap], lives.push(live)) == all_pairs(seq![d], seq![lap], lives)
            + all_pairs(seq![d], seq![lap], seq![live]),
        all_pairs(seq![d], seq![lap], seq![live]).len() == (if d.is_self && d.name@
            == live.player_name@ && lap.driver_id == d.id && lap.lap_num == live.lap_num
            && lap.lap_time is Some && live.lap_time is Some {
            1int
        } else {
            0
        }),
        all_pairs(Seq::empty(), laps, lives).len() == 0,
        all_pairs(seq![d], Seq::empty(), lives).len() == 0,
        all_pairs(seq![d], seq![lap], Seq::empty()).len() == 0,
{
    lemma_one_driver(d, laps, lives);
    lemma_one_driver(d, laps.push(lap), lives);
    lemma_one_driver(d, seq![lap], lives);
    lemma_one_driver(d, seq![lap], lives.push(live));
    lemma_one_driver(d, seq![lap], seq![live]);
    lemma_one_driver(d, Seq::empty(), lives);
    lemma_one_driver(d, seq![lap], Seq::empty());
    lemma_one_lap(d, lap, lives);
    lemma_one_lap(d, lap, lives.push(live));
    lemma_one_lap(d, lap, seq![live]);
    lemma_one_lap(d, lap, Seq::empty());
    assert(drivers.push(d).drop_last() =~= drivers);
    assert(laps.push(lap).drop_last() =~= laps);
    assert(lives.push(live).drop_last() =~= lives);
    assert(seq![live].drop_last() =~= Seq::<LiveLap>::empty());
    let none = pairs_of_lap(d, lap, Seq::empty());
    assert(none =~= Seq::<TimePairView>::empty());
    let one = pairs_of_lap(d, lap, seq![live]);
    assert(one == if comparable(d, lap, live) {
        none.push(pair_of(d, lap, live))
    } else {
        none
    });
    let rest = pairs_of_lap(d, lap, lives);
    assert(rest.push(pair_of(d, lap, live)) =~= rest + none.push(pair_of(d, lap, live)));
    assert(rest =~= rest + none);
}

proof fn lemma_one_driver(d: DriverRow, laps: Seq<LapRow>, lives: Seq<LiveLap>)
    ensures
        all_pairs(seq![d], laps, lives) == pairs_of_driver(d, laps, lives),
{
    assert(seq![d].drop_last() =~= Seq::<DriverRow>::empty());
    assert(all_pairs(Seq::empty(), laps, lives) =~= Seq::<TimePairView>::empty());
    assert(Seq::<TimePairView>::empty() + pairs_of_driver(d, laps, lives) =~= pairs_of_driver(
        d,
        laps,
        lives,
    ));
}

proof fn lemma_one_lap(d: DriverRow, lap: LapRow, lives: Seq<LiveLap>)
    ensures
        pairs_of_driver(d, seq![lap], lives) == pairs_of_lap(d, lap, lives),
{
    assert(seq![lap].drop_last() =~= Seq::<LapRow>::empty());
    assert(pairs_of_driver(d, Seq::empty(), lives) =~= Seq::<TimePairView>::empty());
    assert(Seq::<TimePairView>::empty() + pairs_of_lap(d, lap, lives) =~= pairs_of_lap(
        d,
        lap,
        lives,
    ));
}

/// What is compared is made of three rows: an entry that is us, a lap of it that has a
/// time, and a capture of a lap of that number under that name that has a time.
pub proof fn law_a_comparison_is_of_one_lap_of_ours(
    drivers: Vec<DriverRow>,
    laps: Vec<LapRow>,
    lives: Vec<LiveLap>,
    pairs: Vec<TimePair>,
    k: int,
) -> (r: (int, int, int))
    requires
        call_ensures(times_to_compare, (&drivers, &laps, &lives), pairs),
        0 <= k < pairs@.len(),
    ensures
        0 <= r.0 < drivers@.len(),
        0 <= r.1 < laps@.len(),
        0 <= r.2 < lives@.len(),
        drivers@[r.0].is_self,
        drivers@[r.0].name@ == lives@[r.2].player_name@,
        laps@[r.1].driver_id == drivers@[r.0].id,
        laps@[r.1].lap_num == lives@[r.2].lap_num,
        laps@[r.1].lap_time == Some(pairs@[k].result_time),
        lives@[r.2].lap_time == Some(pairs@[k].live_time),
        pairs@[k].driver_id == drivers@[r.0].id,
        pairs@[k].session_key@ == lives@[r.2].session_key@,
{
    law_a_pair_holds_two_times_of_one_lap(drivers@, laps@, lives@, pairs@, k)
}

/// Every lap of ours that was captured under our name, and has a time in the result and
/// in the capture, is compared.
pub proof fn law_no_common_lap_is_passed_over(
    drivers: Vec<DriverRow>,
    laps: Vec<LapRow>,
    lives: Vec<LiveLap>,
    pairs: Vec<TimePair>,
    i: int,
    j: int,
    m: int,
) -> (k: int)
    requires
        call_ensures(times_to_compare, (&drivers, &laps, &lives), pairs),
        0 <= i < drivers@.len(),
        0 <= j < laps@.len(),
        0 <= m < lives@.len(),
        drivers@[i].is_self,
        drivers@[i].name@ == lives@[m].player_name@,
        laps@[j].driver_id == drivers@[i].id,
        laps@[j].lap_num == lives@[m].lap_num,
        laps@[j].lap_time is Some,
        lives@[m].lap_time is Some,
    ensures
        0 <= k < pairs@.len(),
        pairs@[k].driver_id == drivers@[i].id,
        pairs@[k].session_key@ == lives@[m].session_key@,
        laps@[j].lap_time == Some(pairs@[k].result_time),
        lives@[m].lap_time == Some(pairs@[k].live_time),
{
    law_two_times_of_one_lap_are_paired(drivers@, laps@, lives@, pairs@, i, j, m)
}

} // verus!
