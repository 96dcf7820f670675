//! Who the local player is.
//!
//! A result marks every human driver. Offline that singles out the local player,
//! online it does not, so the name is learned from offline results and looked for
//! in the online ones. Where only online results exist, attendance may give it
//! away.

use vstd::prelude::*;

use crate::text;

verus! {

/// A session of the results.
#[derive(Debug)]
pub struct SessionRow {
    pub id: i64,
    /// What the game wrote as the setting; older rows have none.
    pub setting: Option<String>,
}

/// A driver in a session.
#[derive(Debug)]
pub struct DriverRow {
    pub id: i64,
    pub session_id: i64,
    pub name: String,
    /// Whether this is a human, as the game wrote it.
    pub is_player: bool,
    /// Whether this is the local player.
    pub is_self: bool,
}

/// A name that is known to be the local player's.
#[derive(Debug)]
pub struct Identity {
    pub name: String,
    /// Where the name is from; `derived` is a guess, everything else is evidence.
    pub source: String,
}

/// A session, as its id and its setting.
pub struct SessionView {
    pub id: i64,
    pub setting: Option<Seq<char>>,
}

/// A driver.
pub struct DriverView {
    pub id: i64,
    pub session_id: i64,
    pub name: Seq<char>,
    pub is_player: bool,
    pub is_self: bool,
}

/// A known name and its source.
pub struct IdentityView {
    pub name: Seq<char>,
    pub source: Seq<char>,
}

impl View for SessionRow {
    type V = SessionView;

    open spec fn view(&self) -> SessionView {
        SessionView {
            id: self.id,
            setting: match self.setting {
                Some(s) => Some(s@),
                None => None,
            },
        }
    }
}

impl View for DriverRow {
    type V = DriverView;

    open spec fn view(&self) -> DriverView {
        DriverView {
            id: self.id,
            session_id: self.session_id,
            name: self.name@,
            is_player: self.is_player,
            is_self: self.is_self,
        }
    }
}

impl View for Identity {
    type V = IdentityView;

    open spec fn view(&self) -> IdentityView {
        IdentityView { name: self.name@, source: self.source@ }
    }
}

/// The rows of the sessions.
pub open spec fn session_views(v: Seq<SessionRow>) -> Seq<SessionView> {
    Seq::new(v.len(), |i: int| v[i]@)
}

/// The rows of the drivers.
pub open spec fn driver_views(v: Seq<DriverRow>) -> Seq<DriverView> {
    Seq::new(v.len(), |i: int| v[i]@)
}

/// The known names.
pub open spec fn identity_views(v: Seq<Identity>) -> Seq<IdentityView> {
    Seq::new(v.len(), |i: int| v[i]@)
}

// ---------------------------------------------------------------------------
// Facts about a session
// ---------------------------------------------------------------------------

/// Whether a session was driven online, by what the game wrote.
pub open spec fn says_online(s: SessionView) -> bool {
    s.setting == Some("Multiplayer"@)
}

/// The row of the session with this id.
pub open spec fn session_with(sessions: Seq<SessionView>, id: i64) -> Option<SessionView>
    decreases sessions.len(),
{
    if sessions.len() == 0 {
        None
    } else if sessions[0].id == id {
        Some(sessions[0])
    } else {
        session_with(sessions.skip(1), id)
    }
}

/// How many humans a session has.
pub open spec fn humans(drivers: Seq<DriverView>, id: i64) -> int
    decreases drivers.len(),
{
    if drivers.len() == 0 {
        0
    } else {
        humans(drivers.drop_last(), id) + (if drivers.last().session_id == id
            && drivers.last().is_player {
            1int
        } else {
            0
        })
    }
}

/// Whether the setting of the session with this id says that it was online.
pub open spec fn listed_online(sessions: Seq<SessionView>, id: i64) -> bool {
    match session_with(sessions, id) {
        Some(s) => says_online(s),
        None => false,
    }
}

/// Whether a session was driven online. A session without a setting was if it has
/// more than one human: offline there is only ever one.
pub open spec fn is_online(
    sessions: Seq<SessionView>,
    drivers: Seq<DriverView>,
    id: i64,
) -> bool {
    match session_with(sessions, id) {
        Some(s) => says_online(s) || humans(drivers, id) > 1,
        None => false,
    }
}

/// Whether a row says that its session was online.
fn row_says_online(s: &SessionRow) -> (r: bool)
    ensures
        r == says_online(s@),
{
    match &s.setting {
        Some(t) => text::same(t, "Multiplayer"),
        None => false,
    }
}

/// The index of the session with this id, or the number of sessions.
fn find_session(sessions: &Vec<SessionRow>, id: i64) -> (k: usize)
    ensures
        k <= sessions@.len(),
        match session_with(session_views(sessions@), id) {
            Some(s) => k < sessions@.len() && sessions@[k as int]@ == s,
            None => k == sessions@.len(),
        },
{
    let mut k: usize = 0;
    proof {
        assert(session_views(sessions@).skip(0) == session_views(sessions@));
    }
    while k < sessions.len() && sessions[k].id != id
        invariant
            k <= sessions@.len(),
            session_with(session_views(sessions@), id) == session_with(
                session_views(sessions@).skip(k as int),
                id,
            ),
        decreases sessions@.len() - k,
    {
        proof {
            let rest = session_views(sessions@).skip(k as int);
            assert(rest[0] == sessions@[k as int]@);
            assert(rest.skip(1) == session_views(sessions@).skip(k + 1));
        }
        k += 1;
    }
    proof {
        if k < sessions@.len() {
            assert(session_views(sessions@).skip(k as int)[0] == sessions@[k as int]@);
        }
    }
    k
}

/// How many humans a session has.
fn count_humans(drivers: &Vec<DriverRow>, id: i64) -> (n: usize)
    ensures
        n == humans(driver_views(drivers@), id),
{
    let mut n: usize = 0;
    let mut i: usize = 0;
    proof {
        assert(driver_views(drivers@).take(0).len() == 0);
    }
    while i < drivers.len()
        invariant
            i <= drivers@.len(),
            n <= i,
            n == humans(driver_views(drivers@).take(i as int), id),
        decreases drivers@.len() - i,
    {
        proof {
            let t = driver_views(drivers@).take(i + 1);
            assert(t.drop_last() == driver_views(drivers@).take(i as int));
            assert(t.last() == drivers@[i as int]@);
        }
        if drivers[i].session_id == id && drivers[i].is_player {
            n += 1;
        }
        i += 1;
    }
    proof {
        assert(driver_views(drivers@).take(i as int) == driver_views(drivers@));
    }
    n
}

// ---------------------------------------------------------------------------
// Learning a name
// ---------------------------------------------------------------------------

/// Whether a name is among the known ones.
pub open spec fn knows(known: Seq<IdentityView>, name: Seq<char>) -> bool {
    exists|j: int| 0 <= j < known.len() && (#[trigger] known[j]).name == name
}

/// Whether a name is known as more than a guess.
pub open spec fn knows_surely(known: Seq<IdentityView>, name: Seq<char>) -> bool {
    exists|j: int|
        0 <= j < known.len() && (#[trigger] known[j]).name == name && !is_guess(known[j])
}

/// Whether a driver's row teaches us the local player's name: the one human of a
/// session that was not online.
pub open spec fn teaches(
    sessions: Seq<SessionView>,
    drivers: Seq<DriverView>,
    d: DriverView,
) -> bool {
    &&& d.is_player
    &&& d.name.len() > 0
    &&& !listed_online(sessions, d.session_id)
    &&& humans(drivers, d.session_id) == 1
}

/// Whether a known name is only a guess.
pub open spec fn is_guess(known: IdentityView) -> bool {
    known.source == "derived"@
}

/// The known names once a result has confirmed one of them: what was a guess is
/// from the results now.
pub open spec fn confirmed(known: Seq<IdentityView>, name: Seq<char>) -> Seq<IdentityView> {
    Seq::new(
        known.len(),
        |j: int|
            if known[j].name == name && is_guess(known[j]) {
                IdentityView { source: "xml"@, ..known[j] }
            } else {
                known[j]
            },
    )
}

/// The known names after the first `n` drivers have been looked at: a name that a
/// row teaches is added, or confirmed if it is known already.
pub open spec fn learned_from(
    sessions: Seq<SessionView>,
    drivers: Seq<DriverView>,
    known: Seq<IdentityView>,
    n: int,
) -> Seq<IdentityView>
    decreases n,
{
    if n <= 0 {
        known
    } else {
        let before = learned_from(sessions, drivers, known, n - 1);
        let d = drivers[n - 1];
        if !teaches(sessions, drivers, d) {
            before
        } else if knows(before, d.name) {
            confirmed(before, d.name)
        } else {
            before.push(IdentityView { name: d.name, source: "xml"@ })
        }
    }
}

/// Whether there is evidence among the known names.
pub open spec fn has_evidence(known: Seq<IdentityView>) -> bool {
    exists|j: int| 0 <= j < known.len() && !is_guess(#[trigger] known[j])
}

/// The names that are more than a guess.
pub open spec fn without_guesses(known: Seq<IdentityView>) -> Seq<IdentityView>
    decreases known.len(),
{
    if known.len() == 0 {
        known
    } else {
        let rest = without_guesses(known.drop_last());
        if is_guess(known.last()) {
            rest
        } else {
            rest.push(known.last())
        }
    }
}

/// Once there is evidence, guesses go.
pub open spec fn superseded(known: Seq<IdentityView>) -> Seq<IdentityView> {
    if has_evidence(known) {
        without_guesses(known)
    } else {
        known
    }
}

/// Below this many online sessions, attendance says nothing.
pub const MIN_SESSIONS_FOR_ATTENDANCE: usize = 3;

/// How many sessions say that they were online.
pub open spec fn online_sessions(sessions: Seq<SessionView>) -> int
    decreases sessions.len(),
{
    if sessions.len() == 0 {
        0
    } else {
        online_sessions(sessions.drop_last()) + (if says_online(sessions.last()) {
            1int
        } else {
            0
        })
    }
}

/// Whether a driver of this name was in the session.
pub open spec fn attends(drivers: Seq<DriverView>, id: i64, name: Seq<char>) -> bool {
    exists|i: int|
        0 <= i < drivers.len() && (#[trigger] drivers[i]).session_id == id && drivers[i].name
            == name
}

/// Whether a driver of this name was in every online session.
pub open spec fn ever_present(
    sessions: Seq<SessionView>,
    drivers: Seq<DriverView>,
    name: Seq<char>,
) -> bool {
    name.len() > 0 && forall|k: int|
        0 <= k < sessions.len() && says_online(#[trigger] sessions[k]) ==> attends(
            drivers,
            sessions[k].id,
            name,
        )
}

/// Whether this name, and no other, was in every online session, and there are
/// enough of those for that to mean something.
pub open spec fn singled_out(
    sessions: Seq<SessionView>,
    drivers: Seq<DriverView>,
    name: Seq<char>,
) -> bool {
    &&& online_sessions(sessions) >= MIN_SESSIONS_FOR_ATTENDANCE
    &&& ever_present(sessions, drivers, name)
    &&& forall|other: Seq<char>| #[trigger]
        ever_present(sessions, drivers, other) ==> other == name
}

/// Whether `after` is what is known once attendance has been looked at: only where
/// nothing is known, and only where it singles out one name.
pub open spec fn after_attendance(
    sessions: Seq<SessionView>,
    drivers: Seq<DriverView>,
    before: Seq<IdentityView>,
    after: Seq<IdentityView>,
) -> bool {
    if before.len() > 0 {
        after == before
    } else {
        ||| exists|name: Seq<char>|
            #![trigger singled_out(sessions, drivers, name)]
            singled_out(sessions, drivers, name) && after == seq![
                IdentityView { name, source: "derived"@ },
            ]
        ||| after.len() == 0 && forall|name: Seq<char>|
            !(#[trigger] singled_out(sessions, drivers, name))
    }
}

/// Whether a name is among the known ones.
fn is_known(known: &Vec<Identity>, name: &str) -> (r: bool)
    ensures
        r == knows(identity_views(known@), name@),
{
    let mut j: usize = 0;
    while j < known.len()
        invariant
            j <= known@.len(),
            forall|k: int| 0 <= k < j ==> (#[trigger] known@[k]).name@ != name@,
        decreases known@.len() - j,
    {
        if text::same(&known[j].name, name) {
            proof {
                assert(identity_views(known@)[j as int].name == name@);
            }
            return true;
        }
        j += 1;
    }
    proof {
        if knows(identity_views(known@), name@) {
            let k = choose|k: int|
                0 <= k < identity_views(known@).len() && (#[trigger] identity_views(
                    known@,
                )[k]).name == name@;
            assert(known@[k].name@ == name@);
        }
    }
    false
}

/// Confirms a name: what was a guess is from the results now.
fn confirm(known: &mut Vec<Identity>, name: &str)
    ensures
        identity_views(final(known)@) == confirmed(identity_views(old(known)@), name@),
{
    let ghost before = identity_views(known@);
    let n = known.len();
    let mut j: usize = 0;
    while j < n
        invariant
            j <= n,
            n == known@.len(),
            n == before.len(),
            forall|k: int| 0 <= k < j ==> (#[trigger] known@[k])@ == confirmed(before, name@)[k],
            forall|k: int| j <= k < n ==> (#[trigger] known@[k])@ == before[k],
        decreases n - j,
    {
        proof {
            assert(known@[j as int]@ == before[j as int]);
        }
        if text::same(&known[j].name, name) && text::same(&known[j].source, "derived") {
            let same_name = known[j].name.clone();
            known.set(j, Identity { name: same_name, source: "xml".to_owned() });
        }
        j += 1;
    }
    proof {
        assert(identity_views(known@) == confirmed(before, name@));
    }
}

/// Adds the names that the results teach, and confirms those that were guessed.
fn learn_from_results(
    sessions: &Vec<SessionRow>,
    drivers: &Vec<DriverRow>,
    known: &mut Vec<Identity>,
)
    ensures
        identity_views(final(known)@) == learned_from(
            session_views(sessions@),
            driver_views(drivers@),
            identity_views(old(known)@),
            drivers@.len() as int,
        ),
{
    let ghost before = identity_views(known@);
    let mut i: usize = 0;
    while i < drivers.len()
        invariant
            i <= drivers@.len(),
            identity_views(known@) == learned_from(
                session_views(sessions@),
                driver_views(drivers@),
                before,
                i as int,
            ),
        decreases drivers@.len() - i,
    {
        let d = &drivers[i];
        let k = find_session(sessions, d.session_id);
        let online = k < sessions.len() && row_says_online(&sessions[k]);
        let nameless = text::same(&d.name, "");
        let humans_here = count_humans(drivers, d.session_id);
        proof {
            reveal_strlit("");
            if d.name@.len() == 0 {
                assert(d.name@ == ""@);
            }
            assert(driver_views(drivers@)[i as int] == d@);
        }
        if d.is_player && !nameless && !online && humans_here == 1 {
            if is_known(known, &d.name) {
                confirm(known, &d.name);
            } else {
                let ghost prior = identity_views(known@);
                known.push(Identity { name: d.name.clone(), source: "xml".to_owned() });
                proof {
                    assert(identity_views(known@) == prior.push(
                        IdentityView { name: d.name@, source: "xml"@ },
                    ));
                }
            }
        }
        i += 1;
    }
}

/// Drops the guesses once there is evidence.
fn drop_superseded(known: Vec<Identity>) -> (kept: Vec<Identity>)
    ensures
        identity_views(kept@) == superseded(identity_views(known@)),
{
    let mut evidence = false;
    let mut j: usize = 0;
    while j < known.len()
        invariant
            j <= known@.len(),
            evidence ==> has_evidence(identity_views(known@)),
            !evidence ==> forall|k: int| 0 <= k < j ==> is_guess((#[trigger] known@[k])@),
        decreases known@.len() - j,
    {
        if !text::same(&known[j].source, "derived") {
            proof {
                assert(!is_guess(identity_views(known@)[j as int]));
            }
            evidence = true;
        }
        j += 1;
    }
    if !evidence {
        proof {
            if has_evidence(identity_views(known@)) {
                let k = choose|k: int|
                    0 <= k < identity_views(known@).len() && !is_guess(
                        #[trigger] identity_views(known@)[k],
                    );
                assert(is_guess(known@[k]@));
            }
        }
        return known;
    }
    let mut kept: Vec<Identity> = Vec::new();
    let mut i: usize = 0;
    proof {
        assert(identity_views(known@).take(0).len() == 0);
        assert(identity_views(kept@) == without_guesses(identity_views(known@).take(0)));
    }
    while i < known.len()
        invariant
            i <= known@.len(),
            identity_views(kept@) == without_guesses(identity_views(known@).take(i as int)),
        decreases known@.len() - i,
    {
        let ghost prior = identity_views(kept@);
        proof {
            let t = identity_views(known@).take(i + 1);
            assert(t.drop_last() == identity_views(known@).take(i as int));
            assert(t.last() == known@[i as int]@);
        }
        if !text::same(&known[i].source, "derived") {
            kept.push(
                Identity { name: known[i].name.clone(), source: known[i].source.clone() },
            );
            proof {
                assert(identity_views(kept@) == prior.push(known@[i as int]@));
            }
        }
        i += 1;
    }
    proof {
        assert(identity_views(known@).take(i as int) == identity_views(known@));
    }
    kept
}

/// Whether a driver of this name was in the session.
fn did_attend(drivers: &Vec<DriverRow>, id: i64, name: &str) -> (r: bool)
    ensures
        r == attends(driver_views(drivers@), id, name@),
{
    let mut i: usize = 0;
    while i < drivers.len()
        invariant
            i <= drivers@.len(),
            forall|k: int|
                0 <= k < i ==> !((#[trigger] drivers@[k]).session_id == id && drivers@[k].name@
                    == name@),
        decreases drivers@.len() - i,
    {
        if drivers[i].session_id == id && text::same(&drivers[i].name, name) {
            proof {
                assert(driver_views(drivers@)[i as int].session_id == id);
            }
            return true;
        }
        i += 1;
    }
    proof {
        if attends(driver_views(drivers@), id, name@) {
            let k = choose|k: int|
                0 <= k < driver_views(drivers@).len() && (#[trigger] driver_views(
                    drivers@,
                )[k]).session_id == id && driver_views(drivers@)[k].name == name@;
            assert(drivers@[k].session_id == id);
        }
    }
    false
}

/// Whether a driver of this name was in every online session.
fn was_ever_present(sessions: &Vec<SessionRow>, drivers: &Vec<DriverRow>, name: &str) -> (r: bool)
    ensures
        r == ever_present(session_views(sessions@), driver_views(drivers@), name@),
{
    proof {
        reveal_strlit("");
        if name@.len() == 0 {
            assert(name@ == ""@);
        }
    }
    if text::same(name, "") {
        return false;
    }
    let mut k: usize = 0;
    while k < sessions.len()
        invariant
            k <= sessions@.len(),
            forall|m: int|
                0 <= m < k && says_online((#[trigger] sessions@[m])@) ==> attends(
                    driver_views(drivers@),
                    sessions@[m].id,
                    name@,
                ),
        decreases sessions@.len() - k,
    {
        if row_says_online(&sessions[k]) && !did_attend(drivers, sessions[k].id, name) {
            proof {
                assert(session_views(sessions@)[k as int] == sessions@[k as int]@);
            }
            return false;
        }
        k += 1;
    }
    proof {
        assert forall|m: int|
            0 <= m < session_views(sessions@).len() && says_online(
                #[trigger] session_views(sessions@)[m],
            ) implies attends(
            driver_views(drivers@),
            session_views(sessions@)[m].id,
            name@,
        ) by {
            assert(says_online(sessions@[m]@));
        }
    }
    true
}

/// How many sessions say that they were online.
fn count_online(sessions: &Vec<SessionRow>) -> (n: usize)
    ensures
        n == online_sessions(session_views(sessions@)),
{
    let mut n: usize = 0;
    let mut i: usize = 0;
    proof {
        assert(session_views(sessions@).take(0).len() == 0);
    }
    while i < sessions.len()
        invariant
            i <= sessions@.len(),
            n <= i,
            n == online_sessions(session_views(sessions@).take(i as int)),
        decreases sessions@.len() - i,
    {
        proof {
            let t = session_views(sessions@).take(i + 1);
            assert(t.drop_last() == session_views(sessions@).take(i as int));
            assert(t.last() == sessions@[i as int]@);
        }
        if row_says_online(&sessions[i]) {
            n += 1;
        }
        i += 1;
    }
    proof {
        assert(session_views(sessions@).take(i as int) == session_views(sessions@));
    }
    n
}

/// Where there are online sessions at all, one of them can be named.
proof fn lemma_some_online(sessions: Seq<SessionView>)
    requires
        online_sessions(sessions) > 0,
    ensures
        exists|k: int| 0 <= k < sessions.len() && says_online(#[trigger] sessions[k]),
    decreases sessions.len(),
{
    if sessions.len() > 0 {
        if says_online(sessions.last()) {
            assert(says_online(sessions[sessions.len() - 1]));
        } else {
            lemma_some_online(sessions.drop_last());
            let k = choose|k: int|
                0 <= k < sessions.drop_last().len() && says_online(
                    #[trigger] sessions.drop_last()[k],
                );
            assert(says_online(sessions[k]));
        }
    }
}

/// Whoever was in every online session stands among the drivers.
proof fn lemma_present_is_a_driver(
    sessions: Seq<SessionView>,
    drivers: Seq<DriverView>,
    name: Seq<char>,
)
    requires
        online_sessions(sessions) > 0,
        ever_present(sessions, drivers, name),
    ensures
        exists|i: int| 0 <= i < drivers.len() && (#[trigger] drivers[i]).name == name,
{
    lemma_some_online(sessions);
    let k = choose|k: int| 0 <= k < sessions.len() && says_online(#[trigger] sessions[k]);
    assert(attends(drivers, sessions[k].id, name));
    let i = choose|i: int|
        0 <= i < drivers.len() && (#[trigger] drivers[i]).session_id == sessions[k].id
            && drivers[i].name == name;
    assert(drivers[i].name == name);
}

/// Last resort where only online results exist: everyone else comes and goes, so
/// the one driver in every session is the one whose PC wrote the files. It runs
/// only where nothing is known, needs enough sessions, and abstains on a tie.
fn derive_identity_from_attendance(
    sessions: &Vec<SessionRow>,
    drivers: &Vec<DriverRow>,
    known: &mut Vec<Identity>,
)
    ensures
        after_attendance(
            session_views(sessions@),
            driver_views(drivers@),
            identity_views(old(known)@),
            identity_views(final(known)@),
        ),
{
    let ghost ss = session_views(sessions@);
    let ghost ds = driver_views(drivers@);
    if known.len() > 0 {
        proof {
            assert(identity_views(known@).len() > 0);
        }
        return;
    }
    if count_online(sessions) < MIN_SESSIONS_FOR_ATTENDANCE {
        return;
    }
    let mut found: Option<usize> = None;
    let mut i: usize = 0;
    while i < drivers.len()
        invariant
            i <= drivers@.len(),
            ss == session_views(sessions@),
            ds == driver_views(drivers@),
            known@.len() == 0,
            online_sessions(ss) >= MIN_SESSIONS_FOR_ATTENDANCE,
            match found {
                Some(f) => f < i && ever_present(ss, ds, drivers@[f as int].name@) && forall|k: int|
                    0 <= k < i && ever_present(ss, ds, (#[trigger] drivers@[k]).name@)
                        ==> drivers@[k].name@ == drivers@[f as int].name@,
                None => forall|k: int|
                    0 <= k < i ==> !ever_present(ss, ds, (#[trigger] drivers@[k]).name@),
            },
            *known == *old(known),
        decreases drivers@.len() - i,
    {
        if was_ever_present(sessions, drivers, &drivers[i].name) {
            match found {
                Some(f) => {
                    if !text::same(&drivers[f].name, &drivers[i].name) {
                        proof {
                            assert forall|name: Seq<char>| !(#[trigger] singled_out(
                                ss,
                                ds,
                                name,
                            )) by {
                                assert(ever_present(ss, ds, drivers@[f as int].name@));
                                assert(ever_present(ss, ds, drivers@[i as int].name@));
                            }
                        }
                        return;
                    }
                },
                None => {
                    found = Some(i);
                },
            }
        }
        i += 1;
    }
    match found {
        Some(f) => {
            let ghost name = drivers@[f as int].name@;
            proof {
                assert forall|other: Seq<char>| #[trigger]
                    ever_present(ss, ds, other) implies other == name by {
                    lemma_present_is_a_driver(ss, ds, other);
                    let k = choose|k: int|
                        0 <= k < ds.len() && (#[trigger] ds[k]).name == other;
                    assert(drivers@[k].name@ == other);
                }
                assert(singled_out(ss, ds, name));
            }
            known.push(
                Identity { name: drivers[f].name.clone(), source: "derived".to_owned() },
            );
            proof {
                assert(identity_views(known@) == seq![
                    IdentityView { name, source: "derived"@ },
                ]);
            }
        },
        None => {
            proof {
                assert forall|name: Seq<char>| !(#[trigger] singled_out(ss, ds, name)) by {
                    if singled_out(ss, ds, name) {
                        lemma_present_is_a_driver(ss, ds, name);
                        let k = choose|k: int|
                            0 <= k < ds.len() && (#[trigger] ds[k]).name == name;
                        assert(!ever_present(ss, ds, drivers@[k].name@));
                    }
                }
            }
        },
    }
}

/// Whether `after` is what is known once the results have been gone through.
pub open spec fn after_learning(
    sessions: Seq<SessionView>,
    drivers: Seq<DriverView>,
    before: Seq<IdentityView>,
    after: Seq<IdentityView>,
) -> bool {
    after_attendance(
        sessions,
        drivers,
        superseded(learned_from(sessions, drivers, before, drivers.len() as int)),
        after,
    )
}

/// Whether every name that a result teaches is known as more than a guess.
pub open spec fn knows_what_is_taught(
    sessions: Seq<SessionView>,
    drivers: Seq<DriverView>,
    known: Seq<IdentityView>,
) -> bool {
    forall|i: int|
        0 <= i < drivers.len() && teaches(sessions, drivers, #[trigger] drivers[i])
            ==> knows_surely(known, drivers[i].name)
}

/// Learns the player's name from the results where it is beyond doubt, drops a
/// guess that evidence has overtaken, and guesses where there is nothing else.
pub fn learn_player_identities(
    sessions: &Vec<SessionRow>,
    drivers: &Vec<DriverRow>,
    known: Vec<Identity>,
) -> (r: Vec<Identity>)
    ensures
        after_learning(
            session_views(sessions@),
            driver_views(drivers@),
            identity_views(known@),
            identity_views(r@),
        ),
        knows_what_is_taught(
            session_views(sessions@),
            driver_views(drivers@),
            identity_views(r@),
        ),
{
    let mut names = known;
    learn_from_results(sessions, drivers, &mut names);
    let mut kept = drop_superseded(names);
    derive_identity_from_attendance(sessions, drivers, &mut kept);
    proof {
        law_every_taught_name_is_known(
            session_views(sessions@),
            driver_views(drivers@),
            identity_views(known@),
            identity_views(kept@),
        );
    }
    kept
}

// ---------------------------------------------------------------------------
// Which driver is us
// ---------------------------------------------------------------------------

/// Whether a driver is the local player: online by name, offline as the game
/// wrote it.
pub open spec fn belongs_to_us(
    sessions: Seq<SessionView>,
    drivers: Seq<DriverView>,
    known: Seq<IdentityView>,
    d: DriverView,
) -> bool {
    if is_online(sessions, drivers, d.session_id) {
        knows(known, d.name)
    } else {
        d.is_player
    }
}

/// The drivers with the local player marked. Nothing else of a row changes.
pub open spec fn resolved(
    sessions: Seq<SessionView>,
    drivers: Seq<DriverView>,
    known: Seq<IdentityView>,
) -> Seq<DriverView> {
    Seq::new(
        drivers.len(),
        |i: int|
            DriverView {
                is_self: belongs_to_us(sessions, drivers, known, drivers[i]),
                ..drivers[i]
            },
    )
}

/// In how many rows two lists of the same drivers differ on who we are.
pub open spec fn differences(a: Seq<DriverView>, b: Seq<DriverView>) -> int
    decreases a.len(),
{
    if a.len() == 0 || b.len() == 0 {
        0
    } else {
        differences(a.drop_last(), b.drop_last()) + (if a.last().is_self != b.last().is_self {
            1int
        } else {
            0
        })
    }
}

/// Whether a session has a driver marked as us.
pub open spec fn has_us(drivers: Seq<DriverView>, id: i64) -> bool {
    exists|i: int|
        0 <= i < drivers.len() && (#[trigger] drivers[i]).session_id == id && drivers[i].is_self
}

/// How many sessions have no driver marked as us.
pub open spec fn unattributed(sessions: Seq<SessionView>, drivers: Seq<DriverView>) -> int
    decreases sessions.len(),
{
    if sessions.len() == 0 {
        0
    } else {
        unattributed(sessions.drop_last(), drivers) + (if has_us(drivers, sessions.last().id) {
            0int
        } else {
            1
        })
    }
}

/// What a pass over the drivers did.
#[derive(Debug, Clone, Copy, PartialEq, Eq, Structural)]
pub struct Resolution {
    /// How many rows were marked differently before.
    pub changed: usize,
    /// How many sessions have no driver that is known to be us.
    pub sessions_without_us: usize,
}

/// The new marks of the drivers, in order.
fn marks(
    sessions: &Vec<SessionRow>,
    drivers: &Vec<DriverRow>,
    known: &Vec<Identity>,
) -> (r: Vec<bool>)
    ensures
        r@.len() == drivers@.len(),
        forall|i: int|
            0 <= i < drivers@.len() ==> #[trigger] r@[i] == belongs_to_us(
                session_views(sessions@),
                driver_views(drivers@),
                identity_views(known@),
                drivers@[i]@,
            ),
{
    let mut r: Vec<bool> = Vec::new();
    let mut i: usize = 0;
    while i < drivers.len()
        invariant
            i <= drivers@.len(),
            r@.len() == i,
            forall|j: int|
                0 <= j < i ==> #[trigger] r@[j] == belongs_to_us(
                    session_views(sessions@),
                    driver_views(drivers@),
                    identity_views(known@),
                    drivers@[j]@,
                ),
        decreases drivers@.len() - i,
    {
        let d = &drivers[i];
        let k = find_session(sessions, d.session_id);
        let online = k < sessions.len() && (row_says_online(&sessions[k]) || count_humans(
            drivers,
            d.session_id,
        ) > 1);
        let mark = if online {
            is_known(known, &d.name)
        } else {
            d.is_player
        };
        r.push(mark);
        i += 1;
    }
    r
}

/// Whether a session has a driver marked as us.
fn session_has_us(drivers: &Vec<DriverRow>, id: i64) -> (r: bool)
    ensures
        r == has_us(driver_views(drivers@), id),
{
    let mut i: usize = 0;
    while i < drivers.len()
        invariant
            i <= drivers@.len(),
            forall|k: int|
                0 <= k < i ==> !((#[trigger] drivers@[k]).session_id == id && drivers@[k].is_self),
        decreases drivers@.len() - i,
    {
        if drivers[i].session_id == id && drivers[i].is_self {
            proof {
                assert(driver_views(drivers@)[i as int].session_id == id);
            }
            return true;
        }
        i += 1;
    }
    proof {
        if has_us(driver_views(drivers@), id) {
            let k = choose|k: int|
                0 <= k < driver_views(drivers@).len() && (#[trigger] driver_views(
                    drivers@,
                )[k]).session_id == id && driver_views(drivers@)[k].is_self;
            assert(drivers@[k].session_id == id);
        }
    }
    false
}

/// How many sessions have no driver marked as us.
fn count_unattributed(sessions: &Vec<SessionRow>, drivers: &Vec<DriverRow>) -> (n: usize)
    ensures
        n == unattributed(session_views(sessions@), driver_views(drivers@)),
{
    let mut n: usize = 0;
    let mut i: usize = 0;
    proof {
        assert(session_views(sessions@).take(0).len() == 0);
    }
    while i < sessions.len()
        invariant
            i <= sessions@.len(),
            n <= i,
            n == unattributed(session_views(sessions@).take(i as int), driver_views(drivers@)),
        decreases sessions@.len() - i,
    {
        proof {
            let t = session_views(sessions@).take(i + 1);
            assert(t.drop_last() == session_views(sessions@).take(i as int));
            assert(t.last() == sessions@[i as int]@);
        }
        if !session_has_us(drivers, sessions[i].id) {
            n += 1;
        }
        i += 1;
    }
    proof {
        assert(session_views(sessions@).take(i as int) == session_views(sessions@));
    }
    n
}

/// Works out which driver of each session is us. The marks are made anew each
/// time, so a session that was imported before the name was known is put right
/// once it is.
pub fn resolve_local_player(
    sessions: &Vec<SessionRow>,
    drivers: &mut Vec<DriverRow>,
    known: &Vec<Identity>,
) -> (r: Resolution)
    ensures
        driver_views(final(drivers)@) == resolved(
            session_views(sessions@),
            driver_views(old(drivers)@),
            identity_views(known@),
        ),
        r.changed == differences(driver_views(old(drivers)@), driver_views(final(drivers)@)),
        r.sessions_without_us == unattributed(
            session_views(sessions@),
            driver_views(final(drivers)@),
        ),
{
    let new_marks = marks(sessions, drivers, known);
    let ghost before = driver_views(drivers@);
    let ghost target = resolved(session_views(sessions@), before, identity_views(known@));
    let n = drivers.len();
    let mut changed: usize = 0;
    let mut i: usize = 0;
    proof {
        assert(before.take(0).len() == 0);
    }
    while i < n
        invariant
            i <= n,
            n == drivers@.len(),
            n == before.len(),
            n == target.len(),
            n == new_marks@.len(),
            changed <= i,
            changed == differences(before.take(i as int), target.take(i as int)),
            forall|j: int|
                0 <= j < n ==> #[trigger] target[j] == (DriverView {
                    is_self: new_marks@[j],
                    ..before[j]
                }),
            forall|j: int| 0 <= j < i ==> (#[trigger] drivers@[j])@ == target[j],
            forall|j: int| i <= j < n ==> (#[trigger] drivers@[j])@ == before[j],
        decreases n - i,
    {
        proof {
            let a = before.take(i + 1);
            let b = target.take(i + 1);
            assert(a.drop_last() == before.take(i as int));
            assert(b.drop_last() == target.take(i as int));
            assert(a.last() == before[i as int]);
            assert(b.last() == target[i as int]);
            assert(drivers@[i as int]@ == before[i as int]);
        }
        if drivers[i].is_self != new_marks[i] {
            changed += 1;
        }
        drivers[i].is_self = new_marks[i];
        i += 1;
    }
    proof {
        assert(before.take(i as int) == before);
        assert(target.take(i as int) == target);
        assert(driver_views(drivers@) == target);
    }
    let sessions_without_us = count_unattributed(sessions, drivers);
    Resolution { changed, sessions_without_us }
}

/// A driver of a session that is being imported: marked as us if human, which is
/// right for an offline session straight away.
pub fn imported_driver(id: i64, session_id: i64, name: String, is_player: bool) -> (d: DriverRow)
    ensures
        d@ == (DriverView { id, session_id, name: name@, is_player, is_self: is_player }),
{
    DriverRow { id, session_id, name, is_player, is_self: is_player }
}

/// What every import ends with: learns the player's name from all results, then
/// marks the player in all of them. It runs whether or not something new came in,
/// because a name that is learned today identifies the player in a session that
/// was imported long ago.
pub fn identify_player(
    sessions: &Vec<SessionRow>,
    drivers: &mut Vec<DriverRow>,
    known: Vec<Identity>,
) -> (r: (Vec<Identity>, Resolution))
    ensures
        after_learning(
            session_views(sessions@),
            driver_views(old(drivers)@),
            identity_views(known@),
            identity_views(r.0@),
        ),
        knows_what_is_taught(
            session_views(sessions@),
            driver_views(old(drivers)@),
            identity_views(r.0@),
        ),
        driver_views(final(drivers)@) == resolved(
            session_views(sessions@),
            driver_views(old(drivers)@),
            identity_views(r.0@),
        ),
        r.1.changed == differences(driver_views(old(drivers)@), driver_views(final(drivers)@)),
        r.1.sessions_without_us == unattributed(
            session_views(sessions@),
            driver_views(final(drivers)@),
        ),
{
    let names = learn_player_identities(sessions, drivers, known);
    let resolution = resolve_local_player(sessions, drivers, &names);
    (names, resolution)
}

// ---------------------------------------------------------------------------
// Laws
// ---------------------------------------------------------------------------

/// Two lists of drivers that differ at most in who is marked as us.
pub open spec fn same_but_for_marks(a: Seq<DriverView>, b: Seq<DriverView>) -> bool {
    a.len() == b.len() && forall|i: int|
        0 <= i < a.len() ==> #[trigger] a[i] == (DriverView { is_self: a[i].is_self, ..b[i] })
}

proof fn lemma_humans_ignore_marks(a: Seq<DriverView>, b: Seq<DriverView>, id: i64)
    requires
        same_but_for_marks(a, b),
    ensures
        humans(a, id) == humans(b, id),
    decreases a.len(),
{
    if a.len() > 0 {
        assert(a[a.len() - 1] == (DriverView {
            is_self: a[a.len() - 1].is_self,
            ..b[a.len() - 1]
        }));
        lemma_humans_ignore_marks(a.drop_last(), b.drop_last(), id);
    }
}

/// Who is marked as us depends on the results and the known names alone, not on
/// who was marked before: a session that was imported too early is put right.
pub proof fn law_marks_are_made_anew(
    sessions: Seq<SessionView>,
    a: Seq<DriverView>,
    b: Seq<DriverView>,
    known: Seq<IdentityView>,
)
    requires
        same_but_for_marks(a, b),
    ensures
        resolved(sessions, a, known) == resolved(sessions, b, known),
{
    assert forall|i: int| 0 <= i < a.len() implies #[trigger] resolved(sessions, a, known)[i]
        == resolved(sessions, b, known)[i] by {
        assert(a[i] == (DriverView { is_self: a[i].is_self, ..b[i] }));
        lemma_humans_ignore_marks(a, b, a[i].session_id);
    }
    assert(resolved(sessions, a, known) =~= resolved(sessions, b, known));
}

proof fn lemma_no_differences(a: Seq<DriverView>)
    ensures
        differences(a, a) == 0,
    decreases a.len(),
{
    if a.len() > 0 {
        lemma_no_differences(a.drop_last());
    }
}

/// Resolving a second time marks nobody differently.
pub proof fn law_resolving_again_changes_nothing(
    sessions: Seq<SessionView>,
    drivers: Seq<DriverView>,
    known: Seq<IdentityView>,
)
    ensures
        ({
            let once = resolved(sessions, drivers, known);
            resolved(sessions, once, known) == once && differences(
                once,
                resolved(sessions, once, known),
            ) == 0
        }),
{
    let once = resolved(sessions, drivers, known);
    assert(same_but_for_marks(once, drivers));
    law_marks_are_made_anew(sessions, once, drivers, known);
    lemma_no_differences(once);
}

/// Resolving keeps a result as the game wrote it: every driver, in order, with
/// the same session, the same name and the same human flag.
pub proof fn law_results_are_kept_as_written(
    sessions: Seq<SessionView>,
    drivers: Seq<DriverView>,
    known: Seq<IdentityView>,
)
    ensures
        same_but_for_marks(resolved(sessions, drivers, known), drivers),
{
}

/// While no name is known, nobody in an online session is marked as us.
pub proof fn law_an_unknown_player_is_not_picked(
    sessions: Seq<SessionView>,
    drivers: Seq<DriverView>,
    id: i64,
)
    requires
        is_online(sessions, drivers, id),
    ensures
        !has_us(resolved(sessions, drivers, Seq::empty()), id),
{
    let after = resolved(sessions, drivers, Seq::empty());
    assert forall|i: int| 0 <= i < after.len() && (#[trigger] after[i]).session_id
        == id implies !after[i].is_self by {}
}

/// Offline the one human is us.
pub proof fn law_offline_the_human_is_us(
    sessions: Seq<SessionView>,
    drivers: Seq<DriverView>,
    known: Seq<IdentityView>,
    i: int,
)
    requires
        0 <= i < drivers.len(),
        !is_online(sessions, drivers, drivers[i].session_id),
    ensures
        resolved(sessions, drivers, known)[i].is_self == drivers[i].is_player,
{
}

/// Whether some result teaches this name.
pub open spec fn is_taught(
    sessions: Seq<SessionView>,
    drivers: Seq<DriverView>,
    name: Seq<char>,
) -> bool {
    exists|i: int|
        0 <= i < drivers.len() && teaches(sessions, drivers, #[trigger] drivers[i])
            && drivers[i].name == name
}

/// Known names stay where they are; what a result teaches is known surely, and
/// nothing of that name is left as a guess; what is new, or no longer a guess, is
/// from a result that teaches it.
proof fn lemma_learned(
    sessions: Seq<SessionView>,
    drivers: Seq<DriverView>,
    known: Seq<IdentityView>,
    n: int,
)
    requires
        0 <= n <= drivers.len(),
    ensures
        ({
            let l = learned_from(sessions, drivers, known, n);
            &&& l.len() >= known.len()
            &&& forall|j: int|
                0 <= j < known.len() ==> (#[trigger] l[j]).name == known[j].name && (l[j]
                    == known[j] || is_guess(known[j]) && l[j].source == "xml"@ && is_taught(
                    sessions,
                    drivers,
                    l[j].name,
                ))
            &&& forall|j: int|
                known.len() <= j < l.len() ==> (#[trigger] l[j]).source == "xml"@ && is_taught(
                    sessions,
                    drivers,
                    l[j].name,
                )
            &&& forall|i: int|
                0 <= i < n && teaches(sessions, drivers, #[trigger] drivers[i]) ==> knows_surely(
                    l,
                    drivers[i].name,
                )
            &&& forall|i: int, j: int|
                0 <= i < n && teaches(sessions, drivers, #[trigger] drivers[i]) && 0 <= j < l.len()
                    && (#[trigger] l[j]).name == drivers[i].name ==> !is_guess(l[j])
        }),
    decreases n,
{
    lemma_learned_is_evidence();
    if n > 0 {
        lemma_learned(sessions, drivers, known, n - 1);
        let before = learned_from(sessions, drivers, known, n - 1);
        let l = learned_from(sessions, drivers, known, n);
        let d = drivers[n - 1];
        if teaches(sessions, drivers, d) {
            assert(is_taught(sessions, drivers, d.name));
            if !knows(before, d.name) {
                assert(l[before.len() as int].name == d.name);
            } else {
                let j = choose|j: int|
                    0 <= j < before.len() && (#[trigger] before[j]).name == d.name;
                assert(l[j].name == d.name && !is_guess(l[j]));
            }
            assert forall|j: int| 0 <= j < before.len() implies (#[trigger] l[j]).name
                == before[j].name && (l[j] == before[j] || is_guess(before[j]) && l[j].source
                == "xml"@ && l[j].name == d.name) by {}
        }
        assert forall|j: int| 0 <= j < known.len() implies (#[trigger] l[j]).name == known[j].name
            && (l[j] == known[j] || is_guess(known[j]) && l[j].source == "xml"@ && is_taught(
            sessions,
            drivers,
            l[j].name,
        )) by {
            assert(before[j].name == known[j].name);
        }
        assert forall|j: int| known.len() <= j < l.len() implies (#[trigger] l[j]).source == "xml"@
            && is_taught(sessions, drivers, l[j].name) by {
            if j < before.len() {
                assert(before[j].source == "xml"@);
            }
        }
        assert forall|i: int|
            0 <= i < n && teaches(sessions, drivers, #[trigger] drivers[i]) implies knows_surely(
            l,
            drivers[i].name,
        ) by {
            if i < n - 1 {
                assert(knows_surely(before, drivers[i].name));
                let j = choose|j: int|
                    0 <= j < before.len() && (#[trigger] before[j]).name == drivers[i].name
                        && !is_guess(before[j]);
                assert(l[j].name == drivers[i].name && !is_guess(l[j]));
            }
        }
        assert forall|i: int, j: int|
            0 <= i < n && teaches(sessions, drivers, #[trigger] drivers[i]) && 0 <= j < l.len() && (
            #[trigger] l[j]).name == drivers[i].name implies !is_guess(l[j]) by {
            if j < before.len() {
                if i < n - 1 {
                    assert(before[j].name == drivers[i].name);
                    assert(!is_guess(before[j]));
                }
            }
        }
    }
}

/// Where every name that is taught is known, and none of them as a guess, nothing
/// changes.
proof fn lemma_nothing_new(
    sessions: Seq<SessionView>,
    drivers: Seq<DriverView>,
    known: Seq<IdentityView>,
    n: int,
)
    requires
        0 <= n <= drivers.len(),
        forall|i: int|
            0 <= i < n && teaches(sessions, drivers, #[trigger] drivers[i]) ==> knows(
                known,
                drivers[i].name,
            ),
        forall|i: int, j: int|
            0 <= i < n && teaches(sessions, drivers, #[trigger] drivers[i]) && 0 <= j
                < known.len() && (#[trigger] known[j]).name == drivers[i].name ==> !is_guess(
                known[j],
            ),
    ensures
        learned_from(sessions, drivers, known, n) == known,
    decreases n,
{
    if n > 0 {
        lemma_nothing_new(sessions, drivers, known, n - 1);
        let d = drivers[n - 1];
        if teaches(sessions, drivers, d) {
            assert(knows(known, d.name));
            assert forall|j: int| 0 <= j < known.len() implies #[trigger] confirmed(
                known,
                d.name,
            )[j] == known[j] by {
                if known[j].name == d.name {
                    assert(!is_guess(known[j]));
                }
            }
            assert(confirmed(known, d.name) =~= known);
        }
    }
}

/// An online result never teaches a name: where every session says that it was
/// online, nothing is added.
pub proof fn law_an_online_result_teaches_no_name(
    sessions: Seq<SessionView>,
    drivers: Seq<DriverView>,
    known: Seq<IdentityView>,
)
    requires
        forall|i: int|
            0 <= i < drivers.len() ==> listed_online(
                sessions,
                (#[trigger] drivers[i]).session_id,
            ),
    ensures
        learned_from(sessions, drivers, known, drivers.len() as int) == known,
{
    lemma_nothing_new(sessions, drivers, known, drivers.len() as int);
}

/// What is left without the guesses is the evidence.
proof fn lemma_without_guesses(known: Seq<IdentityView>)
    ensures
        forall|x: IdentityView| #[trigger]
            without_guesses(known).contains(x) <==> known.contains(x) && !is_guess(x),
        without_guesses(known).len() <= known.len(),
    decreases known.len(),
{
    let w = without_guesses(known);
    if known.len() > 0 {
        let rest = known.drop_last();
        lemma_without_guesses(rest);
        assert forall|x: IdentityView| #[trigger] w.contains(x) <==> known.contains(x) && !is_guess(
            x,
        ) by {
            assert(without_guesses(rest).contains(x) <==> rest.contains(x) && !is_guess(x));
            if known.contains(x) && !is_guess(x) {
                let j = choose|j: int| 0 <= j < known.len() && known[j] == x;
                if j < known.len() - 1 {
                    assert(rest[j] == x);
                    assert(without_guesses(rest).contains(x));
                    let m = choose|m: int|
                        0 <= m < without_guesses(rest).len() && without_guesses(rest)[m] == x;
                    assert(w[m] == x);
                } else {
                    assert(w[w.len() - 1] == x);
                }
            }
            if w.contains(x) {
                let m = choose|m: int| 0 <= m < w.len() && w[m] == x;
                if m < without_guesses(rest).len() {
                    assert(without_guesses(rest)[m] == x);
                    assert(rest.contains(x));
                    let j = choose|j: int| 0 <= j < rest.len() && rest[j] == x;
                    assert(known[j] == x);
                } else {
                    assert(known[known.len() - 1] == x);
                }
            }
        }
    }
}

/// A list without guesses stays as it is.
proof fn lemma_no_guesses_to_drop(known: Seq<IdentityView>)
    requires
        forall|j: int| 0 <= j < known.len() ==> !is_guess(#[trigger] known[j]),
    ensures
        without_guesses(known) == known,
    decreases known.len(),
{
    if known.len() > 0 {
        assert(!is_guess(known[known.len() - 1]));
        assert forall|j: int| 0 <= j < known.drop_last().len() implies !is_guess(
            #[trigger] known.drop_last()[j],
        ) by {
            assert(!is_guess(known[j]));
        }
        lemma_no_guesses_to_drop(known.drop_last());
        assert(known.drop_last().push(known.last()) == known);
    }
}

/// Real evidence replaces a guess: once a name is known from more than attendance,
/// every name that is kept is.
pub proof fn law_evidence_replaces_a_guess(
    sessions: Seq<SessionView>,
    drivers: Seq<DriverView>,
    before: Seq<IdentityView>,
    after: Seq<IdentityView>,
)
    requires
        after_learning(sessions, drivers, before, after),
        has_evidence(learned_from(sessions, drivers, before, drivers.len() as int)),
    ensures
        after.len() > 0,
        forall|j: int| 0 <= j < after.len() ==> !is_guess(#[trigger] after[j]),
{
    let l = learned_from(sessions, drivers, before, drivers.len() as int);
    let w = without_guesses(l);
    lemma_without_guesses(l);
    let j = choose|j: int| 0 <= j < l.len() && !is_guess(#[trigger] l[j]);
    assert(l.contains(l[j]));
    assert(w.contains(l[j]));
    assert(w.len() > 0);
    assert(after == w);
    assert forall|k: int| 0 <= k < after.len() implies !is_guess(#[trigger] after[k]) by {
        assert(w.contains(w[k]));
    }
}

/// Guesses and evidence are never known side by side.
pub proof fn law_no_guess_stands_beside_evidence(
    sessions: Seq<SessionView>,
    drivers: Seq<DriverView>,
    before: Seq<IdentityView>,
    after: Seq<IdentityView>,
)
    requires
        after_learning(sessions, drivers, before, after),
        has_evidence(after),
    ensures
        forall|j: int| 0 <= j < after.len() ==> !is_guess(#[trigger] after[j]),
{
    let l = learned_from(sessions, drivers, before, drivers.len() as int);
    if has_evidence(l) {
        law_evidence_replaces_a_guess(sessions, drivers, before, after);
    } else if l.len() > 0 {
        assert(after == l);
    } else {
        let k = choose|k: int| 0 <= k < after.len() && !is_guess(#[trigger] after[k]);
        assert(is_guess(after[k]));
    }
}

/// Two drivers who never missed an online race make attendance abstain, and so do
/// too few races.
pub proof fn law_attendance_abstains_when_in_doubt(
    sessions: Seq<SessionView>,
    drivers: Seq<DriverView>,
    after: Seq<IdentityView>,
    a: Seq<char>,
    b: Seq<char>,
)
    requires
        after_attendance(sessions, drivers, Seq::empty(), after),
        (a != b && ever_present(sessions, drivers, a) && ever_present(sessions, drivers, b))
            || online_sessions(sessions) < MIN_SESSIONS_FOR_ATTENDANCE,
    ensures
        after.len() == 0,
{
    assert forall|name: Seq<char>| !(#[trigger] singled_out(sessions, drivers, name)) by {
        if singled_out(sessions, drivers, name) {
            assert(ever_present(sessions, drivers, a) ==> a == name);
            assert(ever_present(sessions, drivers, b) ==> b == name);
        }
    }
}

/// A name that is known from a result never becomes a guess by being learned.
proof fn lemma_learned_is_evidence()
    ensures
        "xml"@ != "derived"@,
{
    reveal_strlit("xml");
    reveal_strlit("derived");
    assert("xml"@.len() == 3);
    assert("derived"@.len() == 7);
}

/// What learning leaves: the evidence, where there is any.
proof fn lemma_evidence_stays(
    sessions: Seq<SessionView>,
    drivers: Seq<DriverView>,
    before: Seq<IdentityView>,
    after: Seq<IdentityView>,
)
    requires
        after_learning(sessions, drivers, before, after),
        has_evidence(learned_from(sessions, drivers, before, drivers.len() as int)),
    ensures
        after == without_guesses(
            learned_from(sessions, drivers, before, drivers.len() as int),
        ),
        after.len() > 0,
{
    let l = learned_from(sessions, drivers, before, drivers.len() as int);
    let w = without_guesses(l);
    lemma_without_guesses(l);
    let j = choose|j: int| 0 <= j < l.len() && !is_guess(#[trigger] l[j]);
    assert(l.contains(l[j]));
    assert(w.contains(l[j]));
}

/// The name of every unambiguous offline result is known afterwards, and as more
/// than a guess, whatever was known or guessed before.
pub proof fn law_every_taught_name_is_known(
    sessions: Seq<SessionView>,
    drivers: Seq<DriverView>,
    before: Seq<IdentityView>,
    after: Seq<IdentityView>,
)
    requires
        after_learning(sessions, drivers, before, after),
    ensures
        knows_what_is_taught(sessions, drivers, after),
{
    let n = drivers.len() as int;
    let l = learned_from(sessions, drivers, before, n);
    lemma_learned(sessions, drivers, before, n);
    assert forall|i: int|
        0 <= i < n && teaches(sessions, drivers, #[trigger] drivers[i]) implies knows_surely(
        after,
        drivers[i].name,
    ) by {
        let j = choose|j: int|
            0 <= j < l.len() && (#[trigger] l[j]).name == drivers[i].name && !is_guess(l[j]);
        assert(has_evidence(l));
        lemma_evidence_stays(sessions, drivers, before, after);
        lemma_without_guesses(l);
        assert(l.contains(l[j]));
        assert(after.contains(l[j]));
        let m = choose|m: int| 0 <= m < after.len() && after[m] == l[j];
        assert(after[m].name == drivers[i].name);
    }
}

/// Nothing is known from the results but what one of them teaches: a name that has
/// become evidence is that of an unambiguous offline result.
pub proof fn law_only_what_is_taught_is_learned(
    sessions: Seq<SessionView>,
    drivers: Seq<DriverView>,
    before: Seq<IdentityView>,
    after: Seq<IdentityView>,
    m: int,
)
    requires
        after_learning(sessions, drivers, before, after),
        0 <= m < after.len(),
        !is_guess(after[m]),
        !before.contains(after[m]),
    ensures
        after[m].source == "xml"@,
        is_taught(sessions, drivers, after[m].name),
{
    let n = drivers.len() as int;
    let l = learned_from(sessions, drivers, before, n);
    lemma_learned(sessions, drivers, before, n);
    let x = after[m];
    assert(l.contains(x)) by {
        if has_evidence(l) {
            lemma_evidence_stays(sessions, drivers, before, after);
            lemma_without_guesses(l);
            assert(after.contains(x));
        } else if l.len() > 0 {
            assert(after == l);
            assert(after.contains(x));
        } else {
            assert(is_guess(x));
        }
    }
    let j = choose|j: int| 0 <= j < l.len() && l[j] == x;
    if j < before.len() {
        if l[j] == before[j] {
            assert(before.contains(x));
        }
    }
}

/// Going through the same results twice teaches nothing more than going through
/// them once.
pub proof fn law_learning_again_changes_nothing(
    sessions: Seq<SessionView>,
    drivers: Seq<DriverView>,
    before: Seq<IdentityView>,
    once: Seq<IdentityView>,
    twice: Seq<IdentityView>,
)
    requires
        after_learning(sessions, drivers, before, once),
        after_learning(sessions, drivers, once, twice),
    ensures
        twice == once,
{
    let n = drivers.len() as int;
    let l = learned_from(sessions, drivers, before, n);
    lemma_learned(sessions, drivers, before, n);
    lemma_learned_is_evidence();
    if has_evidence(l) {
        lemma_evidence_stays(sessions, drivers, before, once);
        law_evidence_replaces_a_guess(sessions, drivers, before, once);
        law_every_taught_name_is_known(sessions, drivers, before, once);
        assert forall|i: int|
            0 <= i < n && teaches(sessions, drivers, #[trigger] drivers[i]) implies knows(
            once,
            drivers[i].name,
        ) by {
            assert(knows_surely(once, drivers[i].name));
        }
        lemma_nothing_new(sessions, drivers, once, n);
        lemma_no_guesses_to_drop(once);
        assert(!is_guess(once[0]));
        assert(has_evidence(once));
    } else {
        assert forall|i: int| 0 <= i < n implies !teaches(
            sessions,
            drivers,
            #[trigger] drivers[i],
        ) by {
            if teaches(sessions, drivers, drivers[i]) {
                assert(knows_surely(l, drivers[i].name));
            }
        }
        lemma_nothing_new(sessions, drivers, before, n);
        lemma_nothing_new(sessions, drivers, once, n);
        if before.len() > 0 {
            assert(once == before);
        } else if once.len() > 0 {
            assert forall|j: int| 0 <= j < once.len() implies is_guess(#[trigger] once[j]) by {}
        }
    }
}

// ---------------------------------------------------------------------------
// Who is marked and what is learned, told by the rows alone
// ---------------------------------------------------------------------------

/// The first row with an id is the session of that id.
proof fn lemma_session_first(sessions: Seq<SessionView>, id: i64, s: int)
    requires
        0 <= s < sessions.len(),
        sessions[s].id == id,
        forall|k: int| 0 <= k < s ==> (#[trigger] sessions[k]).id != id,
    ensures
        session_with(sessions, id) == Some(sessions[s]),
    decreases s,
{
    if s > 0 {
        let rest = sessions.skip(1);
        assert(sessions[0].id != id);
        assert forall|k: int| 0 <= k < s - 1 implies (#[trigger] rest[k]).id != id by {
            assert(rest[k] == sessions[k + 1]);
        }
        assert(rest[s - 1] == sessions[s]);
        lemma_session_first(rest, id, s - 1);
    }
}

/// Without a row with an id there is no session of that id, and what there is has it.
proof fn lemma_session_listed(sessions: Seq<SessionView>, id: i64)
    ensures
        session_with(sessions, id) is Some <==> exists|k: int|
            0 <= k < sessions.len() && (#[trigger] sessions[k]).id == id,
        session_with(sessions, id) matches Some(s) ==> exists|k: int|
            0 <= k < sessions.len() && #[trigger] sessions[k] == s && s.id == id,
    decreases sessions.len(),
{
    if sessions.len() > 0 {
        let rest = sessions.skip(1);
        lemma_session_listed(rest, id);
        if sessions[0].id != id {
            if exists|k: int| 0 <= k < sessions.len() && (#[trigger] sessions[k]).id == id {
                let k = choose|k: int| 0 <= k < sessions.len() && (#[trigger] sessions[k]).id == id;
                assert(rest[k - 1] == sessions[k]);
            }
            if session_with(rest, id) is Some {
                let s = session_with(rest, id)->Some_0;
                let k = choose|k: int| 0 <= k < rest.len() && #[trigger] rest[k] == s && s.id == id;
                assert(sessions[k + 1] == s);
            }
        }
    }
}

/// Two humans are more than one, and more than one are two.
proof fn lemma_two_humans(drivers: Seq<DriverView>, id: i64)
    ensures
        humans(drivers, id) >= 0,
        humans(drivers, id) > 0 <==> exists|p: int|
            0 <= p < drivers.len() && (#[trigger] drivers[p]).session_id == id
                && drivers[p].is_player,
        humans(drivers, id) > 1 <==> exists|p: int, q: int|
            0 <= p < q < drivers.len() && (#[trigger] drivers[p]).session_id == id
                && drivers[p].is_player && (#[trigger] drivers[q]).session_id == id
                && drivers[q].is_player,
    decreases drivers.len(),
{
    if drivers.len() > 0 {
        let front = drivers.drop_last();
        let n = front.len() as int;
        lemma_two_humans(front, id);
        if exists|p: int|
            0 <= p < drivers.len() && (#[trigger] drivers[p]).session_id == id
                && drivers[p].is_player {
            let p = choose|p: int|
                0 <= p < drivers.len() && (#[trigger] drivers[p]).session_id == id
                    && drivers[p].is_player;
            if p < n {
                assert(front[p].session_id == id && front[p].is_player);
            }
        }
        if humans(front, id) > 0 {
            let p = choose|p: int|
                0 <= p < front.len() && (#[trigger] front[p]).session_id == id
                    && front[p].is_player;
            assert(drivers[p] == front[p]);
            assert(drivers[p].session_id == id);
            if drivers[n].session_id == id && drivers[n].is_player {
                assert(0 <= p < n);
            }
        }
        if humans(front, id) > 1 {
            let (p, q) = choose|p: int, q: int|
                0 <= p < q < front.len() && (#[trigger] front[p]).session_id == id
                    && front[p].is_player && (#[trigger] front[q]).session_id == id
                    && front[q].is_player;
            assert(drivers[p] == front[p] && drivers[q] == front[q]);
        }
        if exists|p: int, q: int|
            0 <= p < q < drivers.len() && (#[trigger] drivers[p]).session_id == id
                && drivers[p].is_player && (#[trigger] drivers[q]).session_id == id
                && drivers[q].is_player {
            let (p, q) = choose|p: int, q: int|
                0 <= p < q < drivers.len() && (#[trigger] drivers[p]).session_id == id
                    && drivers[p].is_player && (#[trigger] drivers[q]).session_id == id
                    && drivers[q].is_player;
            assert(front[p] == drivers[p]);
            if q < n {
                assert(front[q] == drivers[q]);
            } else {
                assert(front[p].session_id == id && front[p].is_player);
            }
        }
    }
}

/// In an online session we are those whose name is known, whoever else is there and
/// whoever was marked before. A session is online if its setting says so, or if it has
/// two humans.
pub proof fn law_online_we_are_who_is_known(
    sessions: Seq<SessionRow>,
    before: Seq<DriverRow>,
    known: Seq<Identity>,
    after: Seq<DriverRow>,
    s: int,
    i: int,
)
    requires
        driver_views(after) == resolved(
            session_views(sessions),
            driver_views(before),
            identity_views(known),
        ),
        0 <= i < before.len(),
        0 <= s < sessions.len(),
        sessions[s].id == before[i].session_id,
        forall|k: int| 0 <= k < s ==> (#[trigger] sessions[k]).id != before[i].session_id,
        (sessions[s].setting matches Some(t) && t@ == "Multiplayer"@) || exists|p: int, q: int|
            0 <= p < q < before.len() && (#[trigger] before[p]).session_id == before[i].session_id
                && before[p].is_player && (#[trigger] before[q]).session_id == before[i].session_id
                && before[q].is_player,
    ensures
        after.len() == before.len(),
        after[i].is_self <==> exists|j: int|
            0 <= j < known.len() && (#[trigger] known[j]).name@ == before[i].name@,
{
    let ss = session_views(sessions);
    let ds = driver_views(before);
    let ks = identity_views(known);
    let id = before[i].session_id;
    assert(driver_views(after).len() == after.len());
    assert(driver_views(after)[i] == after[i]@);
    assert(ds[i] == before[i]@);
    assert(ss[s] == sessions[s]@);
    lemma_session_first(ss, id, s);
    lemma_two_humans(ds, id);
    if exists|p: int, q: int|
        0 <= p < q < before.len() && (#[trigger] before[p]).session_id == id && before[p].is_player
            && (#[trigger] before[q]).session_id == id && before[q].is_player {
        let (p, q) = choose|p: int, q: int|
            0 <= p < q < before.len() && (#[trigger] before[p]).session_id == id
                && before[p].is_player && (#[trigger] before[q]).session_id == id
                && before[q].is_player;
        assert(ds[p] == before[p]@ && ds[q] == before[q]@);
    }
    if exists|j: int| 0 <= j < known.len() && (#[trigger] known[j]).name@ == before[i].name@ {
        let j = choose|j: int| 0 <= j < known.len() && (#[trigger] known[j]).name@ == before[i].name@;
        assert(ks[j].name == before[i].name@);
    }
    if knows(ks, before[i].name@) {
        let j = choose|j: int| 0 <= j < ks.len() && (#[trigger] ks[j]).name == before[i].name@;
        assert(known[j].name@ == before[i].name@);
    }
}

/// In a session that is not online we are the human, as the game wrote it, whatever
/// names are known.
pub proof fn law_offline_we_are_the_human(
    sessions: Seq<SessionRow>,
    before: Seq<DriverRow>,
    known: Seq<Identity>,
    after: Seq<DriverRow>,
    i: int,
)
    requires
        driver_views(after) == resolved(
            session_views(sessions),
            driver_views(before),
            identity_views(known),
        ),
        0 <= i < before.len(),
        forall|k: int|
            0 <= k < sessions.len() && (#[trigger] sessions[k]).id == before[i].session_id
                ==> !(sessions[k].setting matches Some(t) && t@ == "Multiplayer"@),
        forall|p: int, q: int|
            0 <= p < before.len() && 0 <= q < before.len() && (#[trigger] before[p]).session_id
                == before[i].session_id && before[p].is_player && (#[trigger] before[q]).session_id
                == before[i].session_id && before[q].is_player ==> p == q,
    ensures
        after.len() == before.len(),
        after[i].is_self == before[i].is_player,
{
    let ss = session_views(sessions);
    let ds = driver_views(before);
    let id = before[i].session_id;
    assert(driver_views(after).len() == after.len());
    assert(driver_views(after)[i] == after[i]@);
    assert(ds[i] == before[i]@);
    lemma_session_listed(ss, id);
    lemma_two_humans(ds, id);
    if humans(ds, id) > 1 {
        let (p, q) = choose|p: int, q: int|
            0 <= p < q < ds.len() && (#[trigger] ds[p]).session_id == id && ds[p].is_player && (
            #[trigger] ds[q]).session_id == id && ds[q].is_player;
        assert(ds[p] == before[p]@ && ds[q] == before[q]@);
        assert(before[p].session_id == id && before[q].session_id == id);
    }
    if session_with(ss, id) is Some {
        let r = session_with(ss, id)->Some_0;
        let k = choose|k: int| 0 <= k < ss.len() && #[trigger] ss[k] == r && r.id == id;
        assert(ss[k] == sessions[k]@);
        assert(sessions[k].id == id);
    }
}

/// Resolving touches nothing but the mark: every row keeps its place, its id, its
/// session, its name and its human flag.
pub proof fn law_only_the_mark_is_made(
    sessions: Seq<SessionRow>,
    before: Seq<DriverRow>,
    known: Seq<Identity>,
    after: Seq<DriverRow>,
    i: int,
)
    requires
        driver_views(after) == resolved(
            session_views(sessions),
            driver_views(before),
            identity_views(known),
        ),
        0 <= i < before.len(),
    ensures
        after.len() == before.len(),
        after[i].id == before[i].id,
        after[i].session_id == before[i].session_id,
        after[i].name@ == before[i].name@,
        after[i].is_player == before[i].is_player,
{
    assert(driver_views(after).len() == after.len());
    assert(driver_views(after)[i] == after[i]@);
    assert(driver_views(before)[i] == before[i]@);
}

/// Every row whose mark changes is counted once, and every session without a row that
/// is marked as us is counted once.
pub proof fn law_marks_and_sessions_are_counted_once(
    a: Seq<DriverRow>,
    b: Seq<DriverRow>,
    x: DriverRow,
    y: DriverRow,
    sessions: Seq<SessionRow>,
    s: SessionRow,
)
    requires
        a.len() == b.len(),
    ensures
        differences(driver_views(a.push(x)), driver_views(b.push(y))) - differences(
            driver_views(a),
            driver_views(b),
        ) == (if x.is_self != y.is_self {
            1int
        } else {
            0
        }),
        differences(Seq::empty(), Seq::empty()) == 0,
        unattributed(session_views(sessions.push(s)), driver_views(a)) - unattributed(
            session_views(sessions),
            driver_views(a),
        ) == (if exists|i: int|
            0 <= i < a.len() && (#[trigger] a[i]).session_id == s.id && a[i].is_self {
            0int
        } else {
            1
        }),
        unattributed(Seq::empty(), driver_views(a)) == 0,
{
    assert(driver_views(a.push(x)).drop_last() =~= driver_views(a));
    assert(driver_views(b.push(y)).drop_last() =~= driver_views(b));
    assert(driver_views(a.push(x)).last() == x@);
    assert(driver_views(b.push(y)).last() == y@);
    assert(session_views(sessions.push(s)).drop_last() =~= session_views(sessions));
    assert(session_views(sessions.push(s)).last() == s@);
    let ds = driver_views(a);
    if exists|i: int| 0 <= i < a.len() && (#[trigger] a[i]).session_id == s.id && a[i].is_self {
        let i = choose|i: int|
            0 <= i < a.len() && (#[trigger] a[i]).session_id == s.id && a[i].is_self;
        assert(ds[i] == a[i]@);
        assert(has_us(ds, s.id));
    }
    if has_us(ds, s.id) {
        let i = choose|i: int|
            0 <= i < ds.len() && (#[trigger] ds[i]).session_id == s.id && ds[i].is_self;
        assert(a[i].session_id == s.id && a[i].is_self);
    }
}

/// Whether a row teaches a name, told by the rows.
proof fn lemma_teaches(sessions: Seq<SessionRow>, drivers: Seq<DriverRow>, i: int)
    requires
        0 <= i < drivers.len(),
        // Every session has an id of its own.
        forall|p: int, q: int|
            0 <= p < sessions.len() && 0 <= q < sessions.len() && p != q ==> (
            #[trigger] sessions[p]).id != (#[trigger] sessions[q]).id,
    ensures
        teaches(session_views(sessions), driver_views(drivers), drivers[i]@) <==> {
            &&& drivers[i].is_player
            &&& drivers[i].name@.len() > 0
            &&& forall|k: int|
                0 <= k < sessions.len() && (#[trigger] sessions[k]).id == drivers[i].session_id
                    ==> !(sessions[k].setting matches Some(t) && t@ == "Multiplayer"@)
            &&& forall|q: int|
                0 <= q < drivers.len() && (#[trigger] drivers[q]).session_id
                    == drivers[i].session_id && drivers[q].is_player ==> q == i
        },
{
    let ss = session_views(sessions);
    let ds = driver_views(drivers);
    let id = drivers[i].session_id;
    lemma_session_listed(ss, id);
    lemma_two_humans(ds, id);
    assert(ds[i] == drivers[i]@);
    if listed_online(ss, id) {
        let r = session_with(ss, id)->Some_0;
        let k = choose|k: int| 0 <= k < ss.len() && #[trigger] ss[k] == r && r.id == id;
        assert(ss[k] == sessions[k]@);
        assert(sessions[k].id == id);
    } else {
        assert forall|k: int| 0 <= k < sessions.len() && (#[trigger] sessions[k]).id == id implies !(
        sessions[k].setting matches Some(t) && t@ == "Multiplayer"@) by {
            assert forall|p: int| 0 <= p < k implies (#[trigger] ss[p]).id != id by {
                assert(ss[p] == sessions[p]@);
                assert(sessions[p].id != sessions[k].id);
            }
            assert(ss[k] == sessions[k]@);
            lemma_session_first(ss, id, k);
        }
    }
    if drivers[i].is_player {
        if humans(ds, id) > 1 {
            let (p, q) = choose|p: int, q: int|
                0 <= p < q < ds.len() && (#[trigger] ds[p]).session_id == id && ds[p].is_player && (
                #[trigger] ds[q]).session_id == id && ds[q].is_player;
            assert(ds[p] == drivers[p]@ && ds[q] == drivers[q]@);
            assert(drivers[p].session_id == id && drivers[p].is_player);
            assert(drivers[q].session_id == id && drivers[q].is_player);
        } else {
            assert forall|q: int|
                0 <= q < drivers.len() && (#[trigger] drivers[q]).session_id == id
                    && drivers[q].is_player implies q == i by {
                assert(ds[q] == drivers[q]@);
                if q < i {
                    assert(ds[q].session_id == id && ds[i].session_id == id);
                } else if q > i {
                    assert(ds[i].session_id == id && ds[q].session_id == id);
                }
            }
        }
    }
}

/// The one human of a session that was not online is learned: the name is known
/// afterwards, and from more than attendance.
pub proof fn law_the_one_human_is_learned(
    sessions: Seq<SessionRow>,
    drivers: Seq<DriverRow>,
    known: Seq<Identity>,
    after: Seq<Identity>,
    i: int,
) -> (j: int)
    requires
        after_learning(
            session_views(sessions),
            driver_views(drivers),
            identity_views(known),
            identity_views(after),
        ),
        0 <= i < drivers.len(),
        forall|p: int, q: int|
            0 <= p < sessions.len() && 0 <= q < sessions.len() && p != q ==> (
            #[trigger] sessions[p]).id != (#[trigger] sessions[q]).id,
        drivers[i].is_player,
        drivers[i].name@.len() > 0,
        forall|k: int|
            0 <= k < sessions.len() && (#[trigger] sessions[k]).id == drivers[i].session_id ==> !(
            sessions[k].setting matches Some(t) && t@ == "Multiplayer"@),
        forall|q: int|
            0 <= q < drivers.len() && (#[trigger] drivers[q]).session_id == drivers[i].session_id
                && drivers[q].is_player ==> q == i,
    ensures
        0 <= j < after.len(),
        after[j].name@ == drivers[i].name@,
        after[j].source@ != "derived"@,
{
    let ds = driver_views(drivers);
    lemma_teaches(sessions, drivers, i);
    law_every_taught_name_is_known(
        session_views(sessions),
        ds,
        identity_views(known),
        identity_views(after),
    );
    assert(ds[i] == drivers[i]@);
    assert(knows_surely(identity_views(after), ds[i].name));
    let a = identity_views(after);
    let j = choose|j: int|
        0 <= j < a.len() && (#[trigger] a[j]).name == ds[i].name && !is_guess(a[j]);
    assert(a[j] == after[j]@);
    j
}

/// Nothing is learned from an online session, nor from one with two humans: a name
/// that has become evidence is that of the one human of a session that was not online.
pub proof fn law_only_the_one_human_is_learned(
    sessions: Seq<SessionRow>,
    drivers: Seq<DriverRow>,
    known: Seq<Identity>,
    after: Seq<Identity>,
    m: int,
) -> (i: int)
    requires
        after_learning(
            session_views(sessions),
            driver_views(drivers),
            identity_views(known),
            identity_views(after),
        ),
        forall|p: int, q: int|
            0 <= p < sessions.len() && 0 <= q < sessions.len() && p != q ==> (
            #[trigger] sessions[p]).id != (#[trigger] sessions[q]).id,
        0 <= m < after.len(),
        after[m].source@ != "derived"@,
        forall|j: int|
            0 <= j < known.len() ==> (#[trigger] known[j]).name@ != after[m].name@
                || known[j].source@ != after[m].source@,
    ensures
        after[m].source@ == "xml"@,
        0 <= i < drivers.len(),
        drivers[i].name@ == after[m].name@,
        drivers[i].is_player,
        drivers[i].name@.len() > 0,
        forall|k: int|
            0 <= k < sessions.len() && (#[trigger] sessions[k]).id == drivers[i].session_id ==> !(
            sessions[k].setting matches Some(t) && t@ == "Multiplayer"@),
        forall|q: int|
            0 <= q < drivers.len() && (#[trigger] drivers[q]).session_id == drivers[i].session_id
                && drivers[q].is_player ==> q == i,
{
    let ss = session_views(sessions);
    let ds = driver_views(drivers);
    let ks = identity_views(known);
    let a = identity_views(after);
    assert(a[m] == after[m]@);
    assert(!ks.contains(a[m])) by {
        if ks.contains(a[m]) {
            let j = choose|j: int| 0 <= j < ks.len() && ks[j] == a[m];
            assert(ks[j] == known[j]@);
            assert(known[j].name@ == after[m].name@);
        }
    }
    law_only_what_is_taught_is_learned(ss, ds, ks, a, m);
    let i = choose|i: int|
        0 <= i < ds.len() && teaches(ss, ds, #[trigger] ds[i]) && ds[i].name == a[m].name;
    assert(ds[i] == drivers[i]@);
    lemma_teaches(sessions, drivers, i);
    i
}

/// What is known from more than attendance is never forgotten.
pub proof fn law_evidence_is_kept(
    sessions: Seq<SessionRow>,
    drivers: Seq<DriverRow>,
    known: Seq<Identity>,
    after: Seq<Identity>,
    j: int,
) -> (m: int)
    requires
        after_learning(
            session_views(sessions),
            driver_views(drivers),
            identity_views(known),
            identity_views(after),
        ),
        0 <= j < known.len(),
        known[j].source@ != "derived"@,
    ensures
        0 <= m < after.len(),
        after[m].name@ == known[j].name@,
        after[m].source@ == known[j].source@,
{
    let ss = session_views(sessions);
    let ds = driver_views(drivers);
    let ks = identity_views(known);
    let a = identity_views(after);
    let l = learned_from(ss, ds, ks, ds.len() as int);
    lemma_learned(ss, ds, ks, ds.len() as int);
    assert(ks[j] == known[j]@);
    assert(l[j].name == ks[j].name);
    assert(l[j] == ks[j]);
    assert(!is_guess(l[j]));
    assert(has_evidence(l));
    lemma_evidence_stays(ss, ds, ks, a);
    lemma_without_guesses(l);
    assert(l.contains(l[j]));
    assert(a.contains(l[j]));
    let m = choose|m: int| 0 <= m < a.len() && a[m] == l[j];
    assert(a[m] == after[m]@);
    m
}

/// Once there is anything better, no guess is left.
pub proof fn law_no_guess_survives_evidence(
    sessions: Seq<SessionRow>,
    drivers: Seq<DriverRow>,
    known: Seq<Identity>,
    after: Seq<Identity>,
    j: int,
    m: int,
)
    requires
        after_learning(
            session_views(sessions),
            driver_views(drivers),
            identity_views(known),
            identity_views(after),
        ),
        0 <= j < after.len(),
        0 <= m < after.len(),
        after[j].source@ != "derived"@,
    ensures
        after[m].source@ != "derived"@,
{
    let a = identity_views(after);
    assert(a[j] == after[j]@ && a[m] == after[m]@);
    assert(!is_guess(a[j]));
    assert(has_evidence(a));
    law_no_guess_stands_beside_evidence(
        session_views(sessions),
        driver_views(drivers),
        identity_views(known),
        a,
    );
    assert(!is_guess(a[m]));
}

/// One online session, two and three make at least as many.
proof fn lemma_online_at_least(sessions: Seq<SessionView>, at: Seq<int>)
    requires
        forall|i: int| 0 <= i < at.len() ==> 0 <= #[trigger] at[i] < sessions.len(),
        forall|i: int| 0 <= i < at.len() ==> says_online(sessions[#[trigger] at[i]]),
        forall|i: int, j: int| 0 <= i < j < at.len() ==> at[i] < at[j],
    ensures
        online_sessions(sessions) >= at.len(),
    decreases sessions.len(),
{
    if sessions.len() == 0 {
        if at.len() > 0 {
            assert(0 <= at[0] < sessions.len());
        }
    } else {
        let front = sessions.drop_last();
        let n = front.len() as int;
        if at.len() > 0 && at.last() == n {
            let less = at.drop_last();
            assert forall|i: int| 0 <= i < less.len() implies 0 <= #[trigger] less[i] < n
                && says_online(front[less[i]]) by {
                assert(less[i] == at[i]);
                assert(at[i] < at[at.len() - 1]);
            }
            lemma_online_at_least(front, less);
            assert(says_online(sessions[at[at.len() - 1]]));
        } else {
            assert forall|i: int| 0 <= i < at.len() implies 0 <= #[trigger] at[i] < n && says_online(
                front[at[i]],
            ) by {
                if i < at.len() - 1 {
                    assert(at[i] < at[at.len() - 1]);
                }
            }
            lemma_online_at_least(front, at);
        }
    }
}

/// Where there are so many online sessions, they can be pointed out.
proof fn lemma_find_online(sessions: Seq<SessionView>, n: int) -> (at: Seq<int>)
    requires
        0 <= n <= online_sessions(sessions),
    ensures
        at.len() == n,
        forall|i: int| 0 <= i < at.len() ==> 0 <= #[trigger] at[i] < sessions.len(),
        forall|i: int| 0 <= i < at.len() ==> says_online(sessions[#[trigger] at[i]]),
        forall|i: int, j: int| 0 <= i < j < at.len() ==> at[i] < at[j],
    decreases sessions.len(),
{
    if n == 0 || sessions.len() == 0 {
        Seq::empty()
    } else {
        let front = sessions.drop_last();
        if says_online(sessions.last()) {
            let less = lemma_find_online(front, n - 1);
            let at = less.push(sessions.len() - 1);
            assert forall|i: int| 0 <= i < at.len() implies says_online(
                sessions[#[trigger] at[i]],
            ) by {
                if i < less.len() {
                    assert(at[i] == less[i]);
                    assert(front[less[i]] == sessions[less[i]]);
                }
            }
            at
        } else {
            let at = lemma_find_online(front, n);
            assert forall|i: int| 0 <= i < at.len() implies says_online(
                sessions[#[trigger] at[i]],
            ) by {
                assert(front[at[i]] == sessions[at[i]]);
            }
            at
        }
    }
}

/// Where every human is of a session that says that it was online, or has company there,
/// no row teaches.
proof fn lemma_online_teaches_nothing(sessions: Seq<SessionRow>, drivers: Seq<DriverRow>)
    requires
        forall|p: int, q: int|
            0 <= p < sessions.len() && 0 <= q < sessions.len() && p != q ==> (
            #[trigger] sessions[p]).id != (#[trigger] sessions[q]).id,
        forall|i: int|
            0 <= i < drivers.len() && (#[trigger] drivers[i]).is_player && drivers[i].name@.len() > 0
                ==> (exists|k: int|
                0 <= k < sessions.len() && (#[trigger] sessions[k]).id == drivers[i].session_id && (
                sessions[k].setting matches Some(t) && t@ == "Multiplayer"@)) || (exists|q: int|
                0 <= q < drivers.len() && q != i && (#[trigger] drivers[q]).session_id
                    == drivers[i].session_id && drivers[q].is_player),
    ensures
        learned_from(
            session_views(sessions),
            driver_views(drivers),
            Seq::empty(),
            drivers.len() as int,
        ) == Seq::<IdentityView>::empty(),
{
    let ss = session_views(sessions);
    let ds = driver_views(drivers);
    assert forall|i: int| 0 <= i < ds.len() implies !teaches(ss, ds, #[trigger] ds[i]) by {
        assert(ds[i] == drivers[i]@);
        lemma_teaches(sessions, drivers, i);
        if drivers[i].is_player && drivers[i].name@.len() > 0 {
            if exists|k: int|
                0 <= k < sessions.len() && (#[trigger] sessions[k]).id == drivers[i].session_id && (
                sessions[k].setting matches Some(t) && t@ == "Multiplayer"@) {
                let k = choose|k: int|
                    0 <= k < sessions.len() && (#[trigger] sessions[k]).id == drivers[i].session_id
                        && (sessions[k].setting matches Some(t) && t@ == "Multiplayer"@);
                assert(sessions[k].id == drivers[i].session_id);
            } else {
                let q = choose|q: int|
                    0 <= q < drivers.len() && q != i && (#[trigger] drivers[q]).session_id
                        == drivers[i].session_id && drivers[q].is_player;
                assert(drivers[q].session_id == drivers[i].session_id);
            }
        }
    }
    lemma_nothing_new(ss, ds, Seq::empty(), ds.len() as int);
}

/// Whether a name is in every online session, told by the rows.
proof fn lemma_ever_present(sessions: Seq<SessionRow>, drivers: Seq<DriverRow>, name: Seq<char>)
    ensures
        ever_present(session_views(sessions), driver_views(drivers), name) <==> name.len() > 0
            && forall|k: int|
            0 <= k < sessions.len() && ((#[trigger] sessions[k]).setting matches Some(t) && t@
                == "Multiplayer"@) ==> exists|i: int|
                0 <= i < drivers.len() && (#[trigger] drivers[i]).session_id == sessions[k].id
                    && drivers[i].name@ == name,
{
    let ss = session_views(sessions);
    let ds = driver_views(drivers);
    assert forall|k: int| 0 <= k < sessions.len() implies (attends(
        ds,
        (#[trigger] sessions[k]).id,
        name,
    ) <==> exists|i: int|
        0 <= i < drivers.len() && (#[trigger] drivers[i]).session_id == sessions[k].id
            && drivers[i].name@ == name) by {
        let id = sessions[k].id;
        if attends(ds, id, name) {
            let i = choose|i: int|
                0 <= i < ds.len() && (#[trigger] ds[i]).session_id == id && ds[i].name == name;
            assert(drivers[i].session_id == id && drivers[i].name@ == name);
        }
        if exists|i: int|
            0 <= i < drivers.len() && (#[trigger] drivers[i]).session_id == id && drivers[i].name@
                == name {
            let i = choose|i: int|
                0 <= i < drivers.len() && (#[trigger] drivers[i]).session_id == id
                    && drivers[i].name@ == name;
            assert(ds[i].session_id == id && ds[i].name == name);
        }
    }
    if ever_present(ss, ds, name) {
        assert forall|k: int|
            0 <= k < sessions.len() && ((#[trigger] sessions[k]).setting matches Some(t) && t@
                == "Multiplayer"@) implies exists|i: int|
            0 <= i < drivers.len() && (#[trigger] drivers[i]).session_id == sessions[k].id
                && drivers[i].name@ == name by {
            assert(ss[k] == sessions[k]@);
            assert(says_online(ss[k]));
        }
    }
    if name.len() > 0 && forall|k: int|
        0 <= k < sessions.len() && ((#[trigger] sessions[k]).setting matches Some(t) && t@
            == "Multiplayer"@) ==> exists|i: int|
            0 <= i < drivers.len() && (#[trigger] drivers[i]).session_id == sessions[k].id
                && drivers[i].name@ == name {
        assert forall|k: int| 0 <= k < ss.len() && says_online(#[trigger] ss[k]) implies attends(
            ds,
            ss[k].id,
            name,
        ) by {
            assert(ss[k] == sessions[k]@);
            assert(sessions[k].setting matches Some(t) && t@ == "Multiplayer"@);
        }
    }
}

/// Attendance names us where nothing else does: with nothing known, and no human that
/// is alone in a session that was not online, the one name that is in every online
/// session, of three or more, is taken for ours, as a guess.
pub proof fn law_the_one_who_is_always_there_is_us(
    sessions: Seq<SessionRow>,
    drivers: Seq<DriverRow>,
    after: Seq<Identity>,
    name: Seq<char>,
    a: int,
    b: int,
    c: int,
)
    requires
        after_learning(
            session_views(sessions),
            driver_views(drivers),
            Seq::empty(),
            identity_views(after),
        ),
        forall|p: int, q: int|
            0 <= p < sessions.len() && 0 <= q < sessions.len() && p != q ==> (
            #[trigger] sessions[p]).id != (#[trigger] sessions[q]).id,
        forall|i: int|
            0 <= i < drivers.len() && (#[trigger] drivers[i]).is_player && drivers[i].name@.len() > 0
                ==> (exists|k: int|
                0 <= k < sessions.len() && (#[trigger] sessions[k]).id == drivers[i].session_id && (
                sessions[k].setting matches Some(t) && t@ == "Multiplayer"@)) || (exists|q: int|
                0 <= q < drivers.len() && q != i && (#[trigger] drivers[q]).session_id
                    == drivers[i].session_id && drivers[q].is_player),
        0 <= a < b < c < sessions.len(),
        sessions[a].setting matches Some(t) && t@ == "Multiplayer"@,
        sessions[b].setting matches Some(t) && t@ == "Multiplayer"@,
        sessions[c].setting matches Some(t) && t@ == "Multiplayer"@,
        name.len() > 0,
        forall|k: int|
            0 <= k < sessions.len() && ((#[trigger] sessions[k]).setting matches Some(t) && t@
                == "Multiplayer"@) ==> exists|i: int|
                0 <= i < drivers.len() && (#[trigger] drivers[i]).session_id == sessions[k].id
                    && drivers[i].name@ == name,
        forall|i: int|
            0 <= i < drivers.len() && (#[trigger] drivers[i]).name@.len() > 0 && drivers[i].name@
                != name ==> exists|k: int|
                0 <= k < sessions.len() && ((#[trigger] sessions[k]).setting matches Some(t) && t@
                    == "Multiplayer"@) && forall|p: int|
                    0 <= p < drivers.len() && (#[trigger] drivers[p]).session_id == sessions[k].id
                        ==> drivers[p].name@ != drivers[i].name@,
    ensures
        after.len() == 1,
        after[0].name@ == name,
        after[0].source@ == "derived"@,
{
    let ss = session_views(sessions);
    let ds = driver_views(drivers);
    let known = identity_views(after);
    lemma_online_teaches_nothing(sessions, drivers);
    lemma_singled_out(sessions, drivers, name, a, b, c);
    lemma_guessed(ss, ds, known, name);
    assert(known.len() == after.len());
    assert(known[0] == after[0]@);
}

proof fn lemma_guessed(
    ss: Seq<SessionView>,
    ds: Seq<DriverView>,
    known: Seq<IdentityView>,
    name: Seq<char>,
)
    requires
        after_attendance(ss, ds, Seq::empty(), known),
        singled_out(ss, ds, name),
    ensures
        known == seq![IdentityView { name, source: "derived"@ }],
{
    let other = choose|other: Seq<char>|
        #![trigger singled_out(ss, ds, other)]
        singled_out(ss, ds, other) && known == seq![
            IdentityView { name: other, source: "derived"@ },
        ];
    assert(singled_out(ss, ds, other));
    assert(ever_present(ss, ds, other));
}

proof fn lemma_singled_out(
    sessions: Seq<SessionRow>,
    drivers: Seq<DriverRow>,
    name: Seq<char>,
    a: int,
    b: int,
    c: int,
)
    requires
        0 <= a < b < c < sessions.len(),
        sessions[a].setting matches Some(t) && t@ == "Multiplayer"@,
        sessions[b].setting matches Some(t) && t@ == "Multiplayer"@,
        sessions[c].setting matches Some(t) && t@ == "Multiplayer"@,
        name.len() > 0,
        forall|k: int|
            0 <= k < sessions.len() && ((#[trigger] sessions[k]).setting matches Some(t) && t@
                == "Multiplayer"@) ==> exists|i: int|
                0 <= i < drivers.len() && (#[trigger] drivers[i]).session_id == sessions[k].id
                    && drivers[i].name@ == name,
        forall|i: int|
            0 <= i < drivers.len() && (#[trigger] drivers[i]).name@.len() > 0 && drivers[i].name@
                != name ==> exists|k: int|
                0 <= k < sessions.len() && ((#[trigger] sessions[k]).setting matches Some(t) && t@
                    == "Multiplayer"@) && forall|p: int|
                    0 <= p < drivers.len() && (#[trigger] drivers[p]).session_id == sessions[k].id
                        ==> drivers[p].name@ != drivers[i].name@,
    ensures
        singled_out(session_views(sessions), driver_views(drivers), name),
{
    let ss = session_views(sessions);
    let ds = driver_views(drivers);
    let at = seq![a, b, c];
    assert forall|i: int| 0 <= i < at.len() implies says_online(ss[#[trigger] at[i]]) by {
        assert(ss[at[i]] == sessions[at[i]]@);
    }
    lemma_online_at_least(ss, at);
    lemma_ever_present(sessions, drivers, name);
    assert forall|other: Seq<char>| #[trigger] ever_present(ss, ds, other) implies other == name by {
        if other != name {
            lemma_ever_present(sessions, drivers, other);
            lemma_missed(sessions, drivers, name, other, a);
        }
    }
}

/// A name that is in all of them is the one that every other one missed one of.
proof fn lemma_missed(
    sessions: Seq<SessionRow>,
    drivers: Seq<DriverRow>,
    name: Seq<char>,
    other: Seq<char>,
    a: int,
)
    requires
        0 <= a < sessions.len(),
        sessions[a].setting matches Some(t) && t@ == "Multiplayer"@,
        other.len() > 0,
        forall|k: int|
            0 <= k < sessions.len() && ((#[trigger] sessions[k]).setting matches Some(t) && t@
                == "Multiplayer"@) ==> exists|i: int|
                0 <= i < drivers.len() && (#[trigger] drivers[i]).session_id == sessions[k].id
                    && drivers[i].name@ == other,
        forall|i: int|
            0 <= i < drivers.len() && (#[trigger] drivers[i]).name@.len() > 0 && drivers[i].name@
                != name ==> exists|k: int|
                0 <= k < sessions.len() && ((#[trigger] sessions[k]).setting matches Some(t) && t@
                    == "Multiplayer"@) && forall|p: int|
                    0 <= p < drivers.len() && (#[trigger] drivers[p]).session_id == sessions[k].id
                        ==> drivers[p].name@ != drivers[i].name@,
    ensures
        other == name,
{
    if other != name {
        let i = choose|i: int|
            0 <= i < drivers.len() && (#[trigger] drivers[i]).session_id == sessions[a].id
                && drivers[i].name@ == other;
        assert(drivers[i].name@ == other);
        let k = choose|k: int|
            0 <= k < sessions.len() && ((#[trigger] sessions[k]).setting matches Some(t) && t@
                == "Multiplayer"@) && forall|p: int|
                0 <= p < drivers.len() && (#[trigger] drivers[p]).session_id == sessions[k].id
                    ==> drivers[p].name@ != drivers[i].name@;
        let p = choose|p: int|
            0 <= p < drivers.len() && (#[trigger] drivers[p]).session_id == sessions[k].id
                && drivers[p].name@ == other;
        assert(drivers[p].session_id == sessions[k].id);
    }
}

/// Attendance is no more than that: what is guessed where no result teaches a name is
/// one name, which is in every online session, of which there are three at least, while
/// every other name is missing from one of them.
pub proof fn law_a_guess_was_always_there(
    sessions: Seq<SessionRow>,
    drivers: Seq<DriverRow>,
    after: Seq<Identity>,
) -> (r: (int, int, int))
    requires
        after_learning(
            session_views(sessions),
            driver_views(drivers),
            Seq::empty(),
            identity_views(after),
        ),
        forall|p: int, q: int|
            0 <= p < sessions.len() && 0 <= q < sessions.len() && p != q ==> (
            #[trigger] sessions[p]).id != (#[trigger] sessions[q]).id,
        forall|i: int|
            0 <= i < drivers.len() && (#[trigger] drivers[i]).is_player && drivers[i].name@.len() > 0
                ==> (exists|k: int|
                0 <= k < sessions.len() && (#[trigger] sessions[k]).id == drivers[i].session_id && (
                sessions[k].setting matches Some(t) && t@ == "Multiplayer"@)) || (exists|q: int|
                0 <= q < drivers.len() && q != i && (#[trigger] drivers[q]).session_id
                    == drivers[i].session_id && drivers[q].is_player),
        after.len() > 0,
    ensures
        after.len() == 1,
        after[0].source@ == "derived"@,
        after[0].name@.len() > 0,
        0 <= r.0 < r.1 < r.2 < sessions.len(),
        sessions[r.0].setting matches Some(t) && t@ == "Multiplayer"@,
        sessions[r.1].setting matches Some(t) && t@ == "Multiplayer"@,
        sessions[r.2].setting matches Some(t) && t@ == "Multiplayer"@,
        forall|k: int|
            0 <= k < sessions.len() && ((#[trigger] sessions[k]).setting matches Some(t) && t@
                == "Multiplayer"@) ==> exists|i: int|
                0 <= i < drivers.len() && (#[trigger] drivers[i]).session_id == sessions[k].id
                    && drivers[i].name@ == after[0].name@,
        forall|i: int|
            0 <= i < drivers.len() && (#[trigger] drivers[i]).name@.len() > 0 && drivers[i].name@
                != after[0].name@ ==> exists|k: int|
                0 <= k < sessions.len() && ((#[trigger] sessions[k]).setting matches Some(t) && t@
                    == "Multiplayer"@) && forall|p: int|
                    0 <= p < drivers.len() && (#[trigger] drivers[p]).session_id == sessions[k].id
                        ==> drivers[p].name@ != drivers[i].name@,
{
    let ss = session_views(sessions);
    let ds = driver_views(drivers);
    let known = identity_views(after);
    lemma_online_teaches_nothing(sessions, drivers);
    assert(known.len() == after.len());
    let name = choose|name: Seq<char>|
        #![trigger singled_out(ss, ds, name)]
        singled_out(ss, ds, name) && known == seq![IdentityView { name, source: "derived"@ }];
    assert(singled_out(ss, ds, name));
    assert(known[0] == after[0]@);
    assert(after[0].name@ == name);
    lemma_ever_present(sessions, drivers, name);
    assert forall|i: int|
        0 <= i < drivers.len() && (#[trigger] drivers[i]).name@.len() > 0 && drivers[i].name@
            != name implies exists|k: int|
        0 <= k < sessions.len() && ((#[trigger] sessions[k]).setting matches Some(t) && t@
            == "Multiplayer"@) && forall|p: int|
            0 <= p < drivers.len() && (#[trigger] drivers[p]).session_id == sessions[k].id
                ==> drivers[p].name@ != drivers[i].name@ by {
        assert(!ever_present(ss, ds, drivers[i].name@));
        lemma_ever_present(sessions, drivers, drivers[i].name@);
        let k = choose|k: int|
            0 <= k < sessions.len() && ((#[trigger] sessions[k]).setting matches Some(t) && t@
                == "Multiplayer"@) && !(exists|p: int|
                0 <= p < drivers.len() && (#[trigger] drivers[p]).session_id == sessions[k].id
                    && drivers[p].name@ == drivers[i].name@);
        assert(sessions[k].setting matches Some(t) && t@ == "Multiplayer"@);
    }
    let at = lemma_find_online(ss, 3);
    assert(says_online(ss[at[0]]) && says_online(ss[at[1]]) && says_online(ss[at[2]]));
    assert(ss[at[0]] == sessions[at[0]]@ && ss[at[1]] == sessions[at[1]]@ && ss[at[2]]
        == sessions[at[2]]@);
    (at[0], at[1], at[2])
}

/// A guess stays until there is something better: where guesses are all that is known
/// and no result teaches a name, the known names stay as they are.
pub proof fn law_a_guess_stays_without_evidence(
    sessions: Seq<SessionRow>,
    drivers: Seq<DriverRow>,
    known: Seq<Identity>,
    after: Seq<Identity>,
)
    requires
        after_learning(
            session_views(sessions),
            driver_views(drivers),
            identity_views(known),
            identity_views(after),
        ),
        known.len() > 0,
        forall|j: int| 0 <= j < known.len() ==> (#[trigger] known[j]).source@ == "derived"@,
        forall|p: int, q: int|
            0 <= p < sessions.len() && 0 <= q < sessions.len() && p != q ==> (
            #[trigger] sessions[p]).id != (#[trigger] sessions[q]).id,
        forall|i: int|
            0 <= i < drivers.len() && (#[trigger] drivers[i]).is_player && drivers[i].name@.len() > 0
                ==> (exists|k: int|
                0 <= k < sessions.len() && (#[trigger] sessions[k]).id == drivers[i].session_id && (
                sessions[k].setting matches Some(t) && t@ == "Multiplayer"@)) || (exists|q: int|
                0 <= q < drivers.len() && q != i && (#[trigger] drivers[q]).session_id
                    == drivers[i].session_id && drivers[q].is_player),
    ensures
        after.len() == known.len(),
        forall|j: int|
            0 <= j < known.len() ==> (#[trigger] after[j]).name@ == known[j].name@
                && after[j].source@ == known[j].source@,
{
    let ss = session_views(sessions);
    let ds = driver_views(drivers);
    let ks = identity_views(known);
    let a = identity_views(after);
    assert forall|i: int| 0 <= i < ds.len() implies !teaches(ss, ds, #[trigger] ds[i]) by {
        assert(ds[i] == drivers[i]@);
        lemma_teaches(sessions, drivers, i);
        if drivers[i].is_player && drivers[i].name@.len() > 0 {
            if exists|k: int|
                0 <= k < sessions.len() && (#[trigger] sessions[k]).id == drivers[i].session_id && (
                sessions[k].setting matches Some(t) && t@ == "Multiplayer"@) {
                let k = choose|k: int|
                    0 <= k < sessions.len() && (#[trigger] sessions[k]).id == drivers[i].session_id
                        && (sessions[k].setting matches Some(t) && t@ == "Multiplayer"@);
                assert(sessions[k].id == drivers[i].session_id);
            } else {
                let q = choose|q: int|
                    0 <= q < drivers.len() && q != i && (#[trigger] drivers[q]).session_id
                        == drivers[i].session_id && drivers[q].is_player;
                assert(drivers[q].session_id == drivers[i].session_id);
            }
        }
    }
    lemma_nothing_new(ss, ds, ks, ds.len() as int);
    assert(!has_evidence(ks)) by {
        if has_evidence(ks) {
            let j = choose|j: int| 0 <= j < ks.len() && !is_guess(#[trigger] ks[j]);
            assert(ks[j] == known[j]@);
            assert(known[j].source@ == "derived"@);
        }
    }
    assert(a == ks);
    assert(a.len() == after.len());
    assert forall|j: int| 0 <= j < known.len() implies (#[trigger] after[j]).name@ == known[j].name@
        && after[j].source@ == known[j].source@ by {
        assert(a[j] == after[j]@ && ks[j] == known[j]@);
    }
}

// ---------------------------------------------------------------------------
// Laws of the operations
// ---------------------------------------------------------------------------

/// In an online session those are marked as us whose name is known, however many humans
/// drive there and whoever they are, and nobody else.
pub proof fn law_resolving_marks_who_is_known_online(
    sessions: Vec<SessionRow>,
    drivers: &mut Vec<DriverRow>,
    known: Vec<Identity>,
    r: Resolution,
    s: int,
    i: int,
)
    requires
        call_ensures(resolve_local_player, (&sessions, drivers, &known), r),
        0 <= i < old(drivers)@.len(),
        0 <= s < sessions@.len(),
        sessions@[s].id == old(drivers)@[i].session_id,
        forall|k: int|
            0 <= k < s ==> (#[trigger] sessions@[k]).id != old(drivers)@[i].session_id,
        (sessions@[s].setting matches Some(t) && t@ == "Multiplayer"@) || exists|p: int, q: int|
            0 <= p < q < old(drivers)@.len() && (#[trigger] old(drivers)@[p]).session_id == old(
                drivers)@[i].session_id && old(drivers)@[p].is_player && (#[trigger] old(
                drivers)@[q]).session_id == old(drivers)@[i].session_id && old(
                drivers)@[q].is_player,
    ensures
        final(drivers)@.len() == old(drivers)@.len(),
        final(drivers)@[i].is_self <==> exists|j: int|
            0 <= j < known@.len() && (#[trigger] known@[j]).name@ == old(drivers)@[i].name@,
{
    law_online_we_are_who_is_known(sessions@, old(drivers)@, known@, final(drivers)@, s, i);
}

/// In a session that is not online the human is marked as us, whatever names are known.
pub proof fn law_resolving_marks_the_human_offline(
    sessions: Vec<SessionRow>,
    drivers: &mut Vec<DriverRow>,
    known: Vec<Identity>,
    r: Resolution,
    i: int,
)
    requires
        call_ensures(resolve_local_player, (&sessions, drivers, &known), r),
        0 <= i < old(drivers)@.len(),
        forall|k: int|
            0 <= k < sessions@.len() && (#[trigger] sessions@[k]).id == old(drivers)@[i].session_id
                ==> !(sessions@[k].setting matches Some(t) && t@ == "Multiplayer"@),
        forall|p: int, q: int|
            0 <= p < old(drivers)@.len() && 0 <= q < old(drivers)@.len() && (#[trigger] old(
                drivers)@[p]).session_id == old(drivers)@[i].session_id && old(
                drivers)@[p].is_player && (#[trigger] old(drivers)@[q]).session_id == old(
                drivers)@[i].session_id && old(drivers)@[q].is_player ==> p == q,
    ensures
        final(drivers)@.len() == old(drivers)@.len(),
        final(drivers)@[i].is_self == old(drivers)@[i].is_player,
{
    law_offline_we_are_the_human(sessions@, old(drivers)@, known@, final(drivers)@, i);
}

/// Resolving makes marks and nothing else: no row moves, and none changes its id, its
/// session, its name or its human flag.
pub proof fn law_resolving_touches_the_mark_alone(
    sessions: Vec<SessionRow>,
    drivers: &mut Vec<DriverRow>,
    known: Vec<Identity>,
    r: Resolution,
    i: int,
)
    requires
        call_ensures(resolve_local_player, (&sessions, drivers, &known), r),
        0 <= i < old(drivers)@.len(),
    ensures
        final(drivers)@.len() == old(drivers)@.len(),
        final(drivers)@[i].id == old(drivers)@[i].id,
        final(drivers)@[i].session_id == old(drivers)@[i].session_id,
        final(drivers)@[i].name@ == old(drivers)@[i].name@,
        final(drivers)@[i].is_player == old(drivers)@[i].is_player,
        r.changed == differences(driver_views(old(drivers)@), driver_views(final(drivers)@)),
        r.sessions_without_us == unattributed(
            session_views(sessions@),
            driver_views(final(drivers)@),
        ),
{
    law_only_the_mark_is_made(sessions@, old(drivers)@, known@, final(drivers)@, i);
}

/// An import ends with the marks of the names that are known then: in an online session
/// those are us whose name is among them, and nobody else.
pub proof fn law_identifying_marks_who_is_known_online(
    sessions: Vec<SessionRow>,
    drivers: &mut Vec<DriverRow>,
    known: Vec<Identity>,
    r: (Vec<Identity>, Resolution),
    s: int,
    i: int,
)
    requires
        call_ensures(identify_player, (&sessions, drivers, known), r),
        0 <= i < old(drivers)@.len(),
        0 <= s < sessions@.len(),
        sessions@[s].id == old(drivers)@[i].session_id,
        forall|k: int|
            0 <= k < s ==> (#[trigger] sessions@[k]).id != old(drivers)@[i].session_id,
        (sessions@[s].setting matches Some(t) && t@ == "Multiplayer"@) || exists|p: int, q: int|
            0 <= p < q < old(drivers)@.len() && (#[trigger] old(drivers)@[p]).session_id == old(
                drivers)@[i].session_id && old(drivers)@[p].is_player && (#[trigger] old(
                drivers)@[q]).session_id == old(drivers)@[i].session_id && old(
                drivers)@[q].is_player,
    ensures
        final(drivers)@.len() == old(drivers)@.len(),
        final(drivers)@[i].is_self <==> exists|j: int|
            0 <= j < r.0@.len() && (#[trigger] r.0@[j]).name@ == old(drivers)@[i].name@,
{
    law_online_we_are_who_is_known(sessions@, old(drivers)@, r.0@, final(drivers)@, s, i);
}

/// A name that is known from a result marks its driver in every online session, however
/// many others drive there.
pub proof fn law_identifying_marks_a_known_name(
    sessions: Vec<SessionRow>,
    drivers: &mut Vec<DriverRow>,
    known: Vec<Identity>,
    r: (Vec<Identity>, Resolution),
    s: int,
    i: int,
    j: int,
)
    requires
        call_ensures(identify_player, (&sessions, drivers, known), r),
        0 <= i < old(drivers)@.len(),
        0 <= s < sessions@.len(),
        0 <= j < known@.len(),
        known@[j].source@ != "derived"@,
        known@[j].name@ == old(drivers)@[i].name@,
        sessions@[s].id == old(drivers)@[i].session_id,
        forall|k: int|
            0 <= k < s ==> (#[trigger] sessions@[k]).id != old(drivers)@[i].session_id,
        sessions@[s].setting matches Some(t) && t@ == "Multiplayer"@,
    ensures
        final(drivers)@[i].is_self,
{
    let m = law_evidence_is_kept(sessions@, old(drivers)@, known@, r.0@, j);
    law_online_we_are_who_is_known(sessions@, old(drivers)@, r.0@, final(drivers)@, s, i);
    assert(r.0@[m].name@ == old(drivers)@[i].name@);
}

/// An import ends with the human marked in every session that is not online.
pub proof fn law_identifying_marks_the_human_offline(
    sessions: Vec<SessionRow>,
    drivers: &mut Vec<DriverRow>,
    known: Vec<Identity>,
    r: (Vec<Identity>, Resolution),
    i: int,
)
    requires
        call_ensures(identify_player, (&sessions, drivers, known), r),
        0 <= i < old(drivers)@.len(),
        forall|k: int|
            0 <= k < sessions@.len() && (#[trigger] sessions@[k]).id == old(drivers)@[i].session_id
                ==> !(sessions@[k].setting matches Some(t) && t@ == "Multiplayer"@),
        forall|p: int, q: int|
            0 <= p < old(drivers)@.len() && 0 <= q < old(drivers)@.len() && (#[trigger] old(
                drivers)@[p]).session_id == old(drivers)@[i].session_id && old(
                drivers)@[p].is_player && (#[trigger] old(drivers)@[q]).session_id == old(
                drivers)@[i].session_id && old(drivers)@[q].is_player ==> p == q,
    ensures
        final(drivers)@.len() == old(drivers)@.len(),
        final(drivers)@[i].is_self == old(drivers)@[i].is_player,
        final(drivers)@[i].name@ == old(drivers)@[i].name@,
        final(drivers)@[i].is_player == old(drivers)@[i].is_player,
{
    law_offline_we_are_the_human(sessions@, old(drivers)@, r.0@, final(drivers)@, i);
    law_only_the_mark_is_made(sessions@, old(drivers)@, r.0@, final(drivers)@, i);
}

/// A driver that is imported is the row it was given, marked as us where it is human.
pub proof fn law_an_imported_human_is_marked(
    id: i64,
    session_id: i64,
    name: String,
    is_player: bool,
    d: DriverRow,
)
    requires
        call_ensures(imported_driver, (id, session_id, name, is_player), d),
    ensures
        d.id == id,
        d.session_id == session_id,
        d.name@ == name@,
        d.is_player == is_player,
        d.is_self == is_player,
{
}

/// The one human of a session that was not online is learned, by its name.
pub proof fn law_learning_knows_the_one_human(
    sessions: Vec<SessionRow>,
    drivers: Vec<DriverRow>,
    known: Vec<Identity>,
    after: Vec<Identity>,
    i: int,
) -> (j: int)
    requires
        call_ensures(learn_player_identities, (&sessions, &drivers, known), after),
        0 <= i < drivers@.len(),
        forall|p: int, q: int|
            0 <= p < sessions@.len() && 0 <= q < sessions@.len() && p != q ==> (
            #[trigger] sessions@[p]).id != (#[trigger] sessions@[q]).id,
        drivers@[i].is_player,
        drivers@[i].name@.len() > 0,
        forall|k: int|
            0 <= k < sessions@.len() && (#[trigger] sessions@[k]).id == drivers@[i].session_id
                ==> !(sessions@[k].setting matches Some(t) && t@ == "Multiplayer"@),
        forall|q: int|
            0 <= q < drivers@.len() && (#[trigger] drivers@[q]).session_id == drivers@[i].session_id
                && drivers@[q].is_player ==> q == i,
    ensures
        0 <= j < after@.len(),
        after@[j].name@ == drivers@[i].name@,
        after@[j].source@ != "derived"@,
{
    law_the_one_human_is_learned(sessions@, drivers@, known@, after@, i)
}

/// Learning forgets no evidence, and keeps no guess beside it.
pub proof fn law_learning_keeps_evidence(
    sessions: Vec<SessionRow>,
    drivers: Vec<DriverRow>,
    known: Vec<Identity>,
    after: Vec<Identity>,
    j: int,
    n: int,
) -> (m: int)
    requires
        call_ensures(learn_player_identities, (&sessions, &drivers, known), after),
        0 <= j < known@.len(),
        known@[j].source@ != "derived"@,
    ensures
        0 <= m < after@.len(),
        after@[m].name@ == known@[j].name@,
        after@[m].source@ == known@[j].source@,
        0 <= n < after@.len() ==> after@[n].source@ != "derived"@,
{
    let m = law_evidence_is_kept(sessions@, drivers@, known@, after@, j);
    if 0 <= n < after@.len() {
        law_no_guess_survives_evidence(sessions@, drivers@, known@, after@, m, n);
    }
    m
}

/// What is learned is a name that the results teach: that of the one human of a session
/// that was not online.
pub proof fn law_learning_invents_no_evidence(
    sessions: Vec<SessionRow>,
    drivers: Vec<DriverRow>,
    known: Vec<Identity>,
    after: Vec<Identity>,
    m: int,
) -> (i: int)
    requires
        call_ensures(learn_player_identities, (&sessions, &drivers, known), after),
        forall|p: int, q: int|
            0 <= p < sessions@.len() && 0 <= q < sessions@.len() && p != q ==> (
            #[trigger] sessions@[p]).id != (#[trigger] sessions@[q]).id,
        0 <= m < after@.len(),
        after@[m].source@ != "derived"@,
        forall|j: int|
            0 <= j < known@.len() ==> (#[trigger] known@[j]).name@ != after@[m].name@
                || known@[j].source@ != after@[m].source@,
    ensures
        after@[m].source@ == "xml"@,
        0 <= i < drivers@.len(),
        drivers@[i].name@ == after@[m].name@,
        drivers@[i].is_player,
        drivers@[i].name@.len() > 0,
        forall|k: int|
            0 <= k < sessions@.len() && (#[trigger] sessions@[k]).id == drivers@[i].session_id
                ==> !(sessions@[k].setting matches Some(t) && t@ == "Multiplayer"@),
        forall|q: int|
            0 <= q < drivers@.len() && (#[trigger] drivers@[q]).session_id == drivers@[i].session_id
                && drivers@[q].is_player ==> q == i,
{
    law_only_the_one_human_is_learned(sessions@, drivers@, known@, after@, m)
}

/// A row whose session is not listed is marked as the game wrote it.
pub proof fn law_without_a_session_the_game_decides(
    sessions: Vec<SessionRow>,
    drivers: &mut Vec<DriverRow>,
    known: Vec<Identity>,
    r: Resolution,
    i: int,
)
    requires
        call_ensures(resolve_local_player, (&sessions, drivers, &known), r),
        0 <= i < old(drivers)@.len(),
        forall|k: int|
            0 <= k < sessions@.len() ==> (#[trigger] sessions@[k]).id != old(
                drivers)@[i].session_id,
    ensures
        final(drivers)@.len() == old(drivers)@.len(),
        final(drivers)@[i].is_self == old(drivers)@[i].is_player,
{
    let ss = session_views(sessions@);
    let id = old(drivers)@[i].session_id;
    assert(driver_views(final(drivers)@).len() == final(drivers)@.len());
    assert(driver_views(final(drivers)@)[i] == final(drivers)@[i]@);
    assert(driver_views(old(drivers)@)[i] == old(drivers)@[i]@);
    lemma_session_listed(ss, id);
    if exists|k: int| 0 <= k < ss.len() && (#[trigger] ss[k]).id == id {
        let k = choose|k: int| 0 <= k < ss.len() && (#[trigger] ss[k]).id == id;
        assert(ss[k] == sessions@[k]@);
        assert(sessions@[k].id == id);
    }
}

/// With nothing known and nothing taught, the one name that is in every online session,
/// of three or more, is learned as a guess.
pub proof fn law_learning_guesses_who_is_always_there(
    sessions: Vec<SessionRow>,
    drivers: Vec<DriverRow>,
    known: Vec<Identity>,
    after: Vec<Identity>,
    name: Seq<char>,
    a: int,
    b: int,
    c: int,
)
    requires
        call_ensures(learn_player_identities, (&sessions, &drivers, known), after),
        known@.len() == 0,
        forall|p: int, q: int|
            0 <= p < sessions@.len() && 0 <= q < sessions@.len() && p != q ==> (
            #[trigger] sessions@[p]).id != (#[trigger] sessions@[q]).id,
        forall|i: int|
            0 <= i < drivers@.len() && (#[trigger] drivers@[i]).is_player && drivers@[i].name@.len() > 0
                ==> (exists|k: int|
                0 <= k < sessions@.len() && (#[trigger] sessions@[k]).id == drivers@[i].session_id && (
                sessions@[k].setting matches Some(t) && t@ == "Multiplayer"@)) || (exists|q: int|
                0 <= q < drivers@.len() && q != i && (#[trigger] drivers@[q]).session_id
                    == drivers@[i].session_id && drivers@[q].is_player),
        0 <= a < b < c < sessions@.len(),
        sessions@[a].setting matches Some(t) && t@ == "Multiplayer"@,
        sessions@[b].setting matches Some(t) && t@ == "Multiplayer"@,
        sessions@[c].setting matches Some(t) && t@ == "Multiplayer"@,
        name.len() > 0,
        forall|k: int|
            0 <= k < sessions@.len() && ((#[trigger] sessions@[k]).setting matches Some(t) && t@
                == "Multiplayer"@) ==> exists|i: int|
                0 <= i < drivers@.len() && (#[trigger] drivers@[i]).session_id == sessions@[k].id
                    && drivers@[i].name@ == name,
        forall|i: int|
            0 <= i < drivers@.len() && (#[trigger] drivers@[i]).name@.len() > 0 && drivers@[i].name@
                != name ==> exists|k: int|
                0 <= k < sessions@.len() && ((#[trigger] sessions@[k]).setting matches Some(t) && t@
                    == "Multiplayer"@) && forall|p: int|
                    0 <= p < drivers@.len() && (#[trigger] drivers@[p]).session_id == sessions@[k].id
                        ==> drivers@[p].name@ != drivers@[i].name@,
    ensures
        after@.len() == 1,
        after@[0].name@ == name,
        after@[0].source@ == "derived"@,
{
    assert(identity_views(known@) =~= Seq::<IdentityView>::empty());
    law_the_one_who_is_always_there_is_us(sessions@, drivers@, after@, name, a, b, c);
}

/// With nothing known and nothing taught, what is learned is a guess at the one name that
/// is in every online session, of three or more.
pub proof fn law_learning_guesses_nobody_else(
    sessions: Vec<SessionRow>,
    drivers: Vec<DriverRow>,
    known: Vec<Identity>,
    after: Vec<Identity>,
) -> (r: (int, int, int))
    requires
        call_ensures(learn_player_identities, (&sessions, &drivers, known), after),
        known@.len() == 0,
        forall|p: int, q: int|
            0 <= p < sessions@.len() && 0 <= q < sessions@.len() && p != q ==> (
            #[trigger] sessions@[p]).id != (#[trigger] sessions@[q]).id,
        forall|i: int|
            0 <= i < drivers@.len() && (#[trigger] drivers@[i]).is_player && drivers@[i].name@.len() > 0
                ==> (exists|k: int|
                0 <= k < sessions@.len() && (#[trigger] sessions@[k]).id == drivers@[i].session_id && (
                sessions@[k].setting matches Some(t) && t@ == "Multiplayer"@)) || (exists|q: int|
                0 <= q < drivers@.len() && q != i && (#[trigger] drivers@[q]).session_id
                    == drivers@[i].session_id && drivers@[q].is_player),
        after@.len() > 0,
    ensures
        after@.len() == 1,
        after@[0].source@ == "derived"@,
        after@[0].name@.len() > 0,
        0 <= r.0 < r.1 < r.2 < sessions@.len(),
        sessions@[r.0].setting matches Some(t) && t@ == "Multiplayer"@,
        sessions@[r.1].setting matches Some(t) && t@ == "Multiplayer"@,
        sessions@[r.2].setting matches Some(t) && t@ == "Multiplayer"@,
        forall|k: int|
            0 <= k < sessions@.len() && ((#[trigger] sessions@[k]).setting matches Some(t) && t@
                == "Multiplayer"@) ==> exists|i: int|
                0 <= i < drivers@.len() && (#[trigger] drivers@[i]).session_id == sessions@[k].id
                    && drivers@[i].name@ == after@[0].name@,
        forall|i: int|
            0 <= i < drivers@.len() && (#[trigger] drivers@[i]).name@.len() > 0 && drivers@[i].name@
                != after@[0].name@ ==> exists|k: int|
                0 <= k < sessions@.len() && ((#[trigger] sessions@[k]).setting matches Some(t) && t@
                    == "Multiplayer"@) && forall|p: int|
                    0 <= p < drivers@.len() && (#[trigger] drivers@[p]).session_id == sessions@[k].id
                        ==> drivers@[p].name@ != drivers@[i].name@,
{
    assert(identity_views(known@) =~= Seq::<IdentityView>::empty());
    law_a_guess_was_always_there(sessions@, drivers@, after@)
}

/// A guess stays where nothing is taught.
pub proof fn law_learning_keeps_a_guess(
    sessions: Vec<SessionRow>,
    drivers: Vec<DriverRow>,
    known: Vec<Identity>,
    after: Vec<Identity>,
)
    requires
        call_ensures(learn_player_identities, (&sessions, &drivers, known), after),
        known@.len() > 0,
        forall|j: int| 0 <= j < known@.len() ==> (#[trigger] known@[j]).source@ == "derived"@,
        forall|p: int, q: int|
            0 <= p < sessions@.len() && 0 <= q < sessions@.len() && p != q ==> (
            #[trigger] sessions@[p]).id != (#[trigger] sessions@[q]).id,
        forall|i: int|
            0 <= i < drivers@.len() && (#[trigger] drivers@[i]).is_player && drivers@[i].name@.len() > 0
                ==> (exists|k: int|
                0 <= k < sessions@.len() && (#[trigger] sessions@[k]).id == drivers@[i].session_id && (
                sessions@[k].setting matches Some(t) && t@ == "Multiplayer"@)) || (exists|q: int|
                0 <= q < drivers@.len() && q != i && (#[trigger] drivers@[q]).session_id
                    == drivers@[i].session_id && drivers@[q].is_player),
    ensures
        after@.len() == known@.len(),
        forall|j: int|
            0 <= j < known@.len() ==> (#[trigger] after@[j]).name@ == known@[j].name@
                && after@[j].source@ == known@[j].source@,
{
    law_a_guess_stays_without_evidence(sessions@, drivers@, known@, after@);
}

} // verus!
