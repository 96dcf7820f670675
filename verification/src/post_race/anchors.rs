//! Which captured session belongs to which driver of an imported result.

use vstd::prelude::*;

use crate::text;

verus! {

/// One possible pairing of a captured session with a driver of a result,
/// weighed by how the two agree on the laps they both know a time for.
#[derive(Debug, Clone, PartialEq)]
pub struct AnchorCandidate {
    pub driver_id: i64,
    pub session_key: String,
    /// Laps present in both, with times agreeing to within the tolerance.
    pub hits: i64,
    /// Laps present in both whose times disagree.
    pub misses: i64,
}

/// A candidate as a mathematical value.
pub struct Candidate {
    pub driver_id: i64,
    pub key: Seq<char>,
    pub hits: i64,
    pub misses: i64,
}

impl View for AnchorCandidate {
    type V = Candidate;

    open spec fn view(&self) -> Candidate {
        Candidate {
            driver_id: self.driver_id,
            key: self.session_key@,
            hits: self.hits,
            misses: self.misses,
        }
    }
}

/// The candidates as mathematical values.
pub open spec fn views(cs: Seq<AnchorCandidate>) -> Seq<Candidate> {
    cs.map_values(|c: AnchorCandidate| c@)
}

/// A candidate that agrees on at least one lap and contradicts none.
pub open spec fn is_clean(c: Candidate) -> bool {
    c.hits > 0 && c.misses == 0
}

/// Whether candidate `i` agrees on more laps than every other clean candidate
/// of its session.
pub open spec fn wins_session(cs: Seq<Candidate>, i: int) -> bool {
    &&& 0 <= i < cs.len()
    &&& is_clean(cs[i])
    &&& forall|j: int|
        0 <= j < cs.len() && j != i && is_clean(cs[j]) && cs[j].key == cs[i].key ==> (
        #[trigger] cs[j]).hits < cs[i].hits
}

/// Whether candidate `i` won its session and agrees on more laps than the
/// winner of any other session that claims the same driver.
pub open spec fn wins_driver(cs: Seq<Candidate>, i: int) -> bool {
    &&& wins_session(cs, i)
    &&& forall|j: int|
        #[trigger] wins_session(cs, j) && j != i && cs[j].driver_id == cs[i].driver_id
            ==> cs[j].hits < cs[i].hits
}

/// Whether some candidate is about session `key`.
pub open spec fn is_session(cs: Seq<Candidate>, key: Seq<char>) -> bool {
    exists|i: int| 0 <= i < cs.len() && (#[trigger] cs[i]).key == key
}

/// Whether session `key` has a clean candidate.
pub open spec fn has_clean(cs: Seq<Candidate>, key: Seq<char>) -> bool {
    exists|i: int| 0 <= i < cs.len() && (#[trigger] cs[i]).key == key && is_clean(cs[i])
}

/// Whether session `key` has a winner.
pub open spec fn has_winner(cs: Seq<Candidate>, key: Seq<char>) -> bool {
    exists|i: int| #[trigger] wins_session(cs, i) && cs[i].key == key
}

/// The winner of session `key`; there is at most one.
pub open spec fn winner(cs: Seq<Candidate>, key: Seq<char>) -> int {
    choose|i: int| #[trigger] wins_session(cs, i) && cs[i].key == key
}

/// Whether some session claims `driver_id` more strongly than all others.
pub open spec fn has_owner(cs: Seq<Candidate>, driver_id: i64) -> bool {
    exists|j: int| #[trigger] wins_driver(cs, j) && cs[j].driver_id == driver_id
}

/// What becomes of a captured session.
pub enum Verdict {
    /// It belongs to this driver.
    Anchored(i64),
    /// No candidate is clean.
    NoFit,
    /// Two clean candidates fit equally well.
    TwoResults,
    /// Another session claims the same driver more strongly.
    Outclassed,
    /// No session claims the driver more strongly than the others.
    TwoCaptures,
}

/// What becomes of session `key`.
pub open spec fn verdict(cs: Seq<Candidate>, key: Seq<char>) -> Verdict {
    if !has_clean(cs, key) {
        Verdict::NoFit
    } else if !has_winner(cs, key) {
        Verdict::TwoResults
    } else {
        let w = winner(cs, key);
        if wins_driver(cs, w) {
            Verdict::Anchored(cs[w].driver_id)
        } else if has_owner(cs, cs[w].driver_id) {
            Verdict::Outclassed
        } else {
            Verdict::TwoCaptures
        }
    }
}

/// Why a session was left without a driver.
pub open spec fn reason(v: Verdict) -> Seq<char> {
    match v {
        Verdict::Anchored(_) => Seq::empty(),
        Verdict::NoFit => "no result has laps with these times"@,
        Verdict::TwoResults => "two results fit it equally well"@,
        Verdict::Outclassed => "another capture matches the same result more closely"@,
        Verdict::TwoCaptures => "two captures fit the same result"@,
    }
}

/// Whether the keys of `s` are in strictly ascending order.
pub open spec fn ascending<T>(s: Seq<(String, T)>) -> bool {
    forall|a: int, b: int|
        0 <= a < b < s.len() ==> text::lex_less((#[trigger] s[a]).0@, (#[trigger] s[b]).0@)
}

/// Whether `s` has an entry for `key`.
pub open spec fn lists<T>(s: Seq<(String, T)>, key: Seq<char>) -> bool {
    exists|a: int| 0 <= a < s.len() && (#[trigger] s[a]).0@ == key
}

/// Whether `anchors` pairs exactly the anchored sessions with their drivers.
pub open spec fn anchors_exactly(cs: Seq<Candidate>, anchors: Seq<(String, i64)>) -> bool {
    &&& ascending(anchors)
    &&& forall|a: int|
        0 <= a < anchors.len() ==> is_session(cs, (#[trigger] anchors[a]).0@) && verdict(
            cs,
            anchors[a].0@,
        ) == Verdict::Anchored(anchors[a].1)
    &&& forall|key: Seq<char>|
        #[trigger] is_session(cs, key) && verdict(cs, key) is Anchored ==> lists(anchors, key)
}

/// Whether `rejected` gives exactly the sessions left without a driver, each
/// with the reason.
pub open spec fn rejects_exactly(cs: Seq<Candidate>, rejected: Seq<(String, String)>) -> bool {
    &&& ascending(rejected)
    &&& forall|a: int|
        0 <= a < rejected.len() ==> is_session(cs, (#[trigger] rejected[a]).0@) && !(verdict(
            cs,
            rejected[a].0@,
        ) is Anchored) && rejected[a].1@ == reason(verdict(cs, rejected[a].0@))
    &&& forall|key: Seq<char>|
        #[trigger] is_session(cs, key) && !(verdict(cs, key) is Anchored) ==> lists(rejected, key)
}

/// A session has at most one winner.
proof fn lemma_winner_unique(cs: Seq<Candidate>, i: int)
    requires
        wins_session(cs, i),
    ensures
        has_winner(cs, cs[i].key),
        winner(cs, cs[i].key) == i,
        has_clean(cs, cs[i].key),
{
    let w = winner(cs, cs[i].key);
    assert(wins_session(cs, w) && cs[w].key == cs[i].key);
    if w != i {
        assert(cs[w].hits < cs[i].hits);
        assert(cs[i].hits < cs[w].hits);
    }
}

// ---------------------------------------------------------------------------
// The decision
// ---------------------------------------------------------------------------

/// Whether the candidate is clean.
fn clean(c: &AnchorCandidate) -> (r: bool)
    ensures
        r == is_clean(c@),
{
    c.hits > 0 && c.misses == 0
}

/// Whether candidate `i` wins its session.
fn beats_session(cs: &Vec<AnchorCandidate>, i: usize) -> (r: bool)
    requires
        i < cs@.len(),
    ensures
        r == wins_session(views(cs@), i as int),
{
    let ghost v = views(cs@);
    if !clean(&cs[i]) {
        return false;
    }
    let mut j: usize = 0;
    while j < cs.len()
        invariant
            j <= cs@.len(),
            i < cs@.len(),
            v == views(cs@),
            is_clean(v[i as int]),
            forall|k: int|
                0 <= k < j && k != i && is_clean(v[k]) && v[k].key == v[i as int].key ==> (
                #[trigger] v[k]).hits < v[i as int].hits,
        decreases cs@.len() - j,
    {
        if j != i && clean(&cs[j]) && cs[j].session_key == cs[i].session_key && cs[j].hits
            >= cs[i].hits {
            proof {
                assert(v[j as int].hits >= v[i as int].hits);
            }
            return false;
        }
        j += 1;
    }
    true
}

/// The winners of their sessions.
fn winners_of(cs: &Vec<AnchorCandidate>) -> (w: Vec<usize>)
    ensures
        forall|a: int| 0 <= a < w@.len() ==> wins_session(views(cs@), #[trigger] w@[a] as int),
        forall|i: int| #[trigger]
            wins_session(views(cs@), i) ==> exists|a: int| 0 <= a < w@.len() && w@[a] == i,
{
    let mut w: Vec<usize> = Vec::new();
    let mut i: usize = 0;
    while i < cs.len()
        invariant
            i <= cs@.len(),
            forall|a: int| 0 <= a < w@.len() ==> wins_session(views(cs@), #[trigger] w@[a] as int),
            forall|k: int|
                0 <= k < i && #[trigger] wins_session(views(cs@), k) ==> exists|a: int|
                    0 <= a < w@.len() && w@[a] == k,
        decreases cs@.len() - i,
    {
        let ghost before = w@;
        if beats_session(cs, i) {
            w.push(i);
        }
        proof {
            assert forall|k: int| 0 <= k < i + 1 && #[trigger] wins_session(views(cs@), k) implies (
            exists|a: int| 0 <= a < w@.len() && w@[a] == k) by {
                if k < i {
                    let a = choose|a: int| 0 <= a < before.len() && before[a] == k;
                    assert(w@[a] == k);
                } else {
                    assert(w@[w@.len() - 1] == k);
                }
            }
        }
        i += 1;
    }
    w
}

/// Whether the winner `i` also wins its driver.
fn beats_driver(cs: &Vec<AnchorCandidate>, w: &Vec<usize>, i: usize) -> (r: bool)
    requires
        wins_session(views(cs@), i as int),
        forall|a: int| 0 <= a < w@.len() ==> wins_session(views(cs@), #[trigger] w@[a] as int),
        forall|k: int| #[trigger]
            wins_session(views(cs@), k) ==> exists|a: int| 0 <= a < w@.len() && w@[a] == k,
    ensures
        r == wins_driver(views(cs@), i as int),
{
    let ghost v = views(cs@);
    let mut a: usize = 0;
    while a < w.len()
        invariant
            a <= w@.len(),
            v == views(cs@),
            i < cs@.len(),
            forall|b: int| 0 <= b < w@.len() ==> wins_session(v, #[trigger] w@[b] as int),
            forall|b: int|
                0 <= b < a && #[trigger] w@[b] != i && v[w@[b] as int].driver_id
                    == v[i as int].driver_id ==> v[w@[b] as int].hits < v[i as int].hits,
        decreases w@.len() - a,
    {
        let j = w[a];
        proof {
            assert(wins_session(v, w@[a as int] as int));
        }
        if j != i && cs[j].driver_id == cs[i].driver_id && cs[j].hits >= cs[i].hits {
            proof {
                assert(wins_session(v, j as int));
                assert(v[j as int].hits >= v[i as int].hits);
            }
            return false;
        }
        a += 1;
    }
    proof {
        assert forall|j: int|
            #[trigger] wins_session(v, j) && j != i && v[j].driver_id
                == v[i as int].driver_id implies v[j].hits < v[i as int].hits by {
            let b = choose|b: int| 0 <= b < w@.len() && w@[b] == j;
            assert(w@[b] != i);
        }
    }
    true
}

/// Inserts `key` into an ascending list of keys unless it is there.
fn insert_key(keys: &mut Vec<String>, key: &String)
    requires
        forall|a: int, b: int|
            0 <= a < b < old(keys)@.len() ==> text::lex_less(
                (#[trigger] old(keys)@[a])@,
                (#[trigger] old(keys)@[b])@,
            ),
    ensures
        forall|a: int, b: int|
            0 <= a < b < final(keys)@.len() ==> text::lex_less(
                (#[trigger] final(keys)@[a])@,
                (#[trigger] final(keys)@[b])@,
            ),
        forall|a: int|
            0 <= a < final(keys)@.len() ==> (#[trigger] final(keys)@[a])@ == key@ || exists|b: int|
                0 <= b < old(keys)@.len() && old(keys)@[b]@ == final(keys)@[a]@,
        forall|b: int|
            0 <= b < old(keys)@.len() ==> exists|a: int|
                0 <= a < final(keys)@.len() && final(keys)@[a]@ == (#[trigger] old(keys)@[b])@,
        exists|a: int| 0 <= a < final(keys)@.len() && final(keys)@[a]@ == key@,
{
    let ghost before = keys@;
    let mut p: usize = 0;
    while p < keys.len() && text::text_less(keys[p].as_str(), key.as_str())
        invariant
            p <= keys@.len(),
            keys@ == before,
            forall|a: int| 0 <= a < p ==> text::lex_less((#[trigger] before[a])@, key@),
        decreases keys@.len() - p,
    {
        p += 1;
    }
    if p < keys.len() && keys[p] == *key {
        proof {
            assert(keys@[p as int]@ == key@);
        }
        return;
    }
    keys.insert(p, key.clone());
    proof {
        let after = keys@;
        assert(after == before.insert(p as int, *key));
        assert(after[p as int]@ == key@);
        assert forall|b: int| p <= b < before.len() implies text::lex_less(
            key@,
            (#[trigger] before[b])@,
        ) by {
            text::lemma_lex_total(key@, before[p as int]@);
            if b > p {
                text::lemma_lex_transitive(key@, before[p as int]@, before[b]@);
            }
        }
        assert forall|a: int, b: int| 0 <= a < b < after.len() implies text::lex_less(
            (#[trigger] after[a])@,
            (#[trigger] after[b])@,
        ) by {
            if b < p {
                assert(after[a] == before[a] && after[b] == before[b]);
            } else if b == p {
                assert(after[a] == before[a]);
            } else if a < p {
                assert(after[a] == before[a] && after[b] == before[b - 1]);
            } else if a == p {
                assert(after[b] == before[b - 1]);
            } else {
                assert(after[a] == before[a - 1] && after[b] == before[b - 1]);
            }
        }
        assert forall|a: int| 0 <= a < after.len() implies (#[trigger] after[a])@ == key@
            || exists|b: int| 0 <= b < before.len() && before[b]@ == after[a]@ by {
            if a < p {
                assert(before[a]@ == after[a]@);
            } else if a > p {
                assert(before[a - 1]@ == after[a]@);
            }
        }
        assert forall|b: int| 0 <= b < before.len() implies exists|a: int|
            0 <= a < after.len() && after[a]@ == (#[trigger] before[b])@ by {
            if b < p {
                assert(after[b]@ == before[b]@);
            } else {
                assert(after[b + 1]@ == before[b]@);
            }
        }
    }
}

/// The sessions that the candidates are about, in ascending order.
fn sessions_of(cs: &Vec<AnchorCandidate>) -> (keys: Vec<String>)
    ensures
        forall|a: int, b: int|
            0 <= a < b < keys@.len() ==> text::lex_less(
                (#[trigger] keys@[a])@,
                (#[trigger] keys@[b])@,
            ),
        forall|a: int| 0 <= a < keys@.len() ==> is_session(views(cs@), (#[trigger] keys@[a])@),
        forall|key: Seq<char>| #[trigger]
            is_session(views(cs@), key) ==> exists|a: int| 0 <= a < keys@.len() && keys@[a]@ == key,
{
    let ghost v = views(cs@);
    let mut keys: Vec<String> = Vec::new();
    let mut i: usize = 0;
    while i < cs.len()
        invariant
            i <= cs@.len(),
            v == views(cs@),
            forall|a: int, b: int|
                0 <= a < b < keys@.len() ==> text::lex_less(
                    (#[trigger] keys@[a])@,
                    (#[trigger] keys@[b])@,
                ),
            forall|a: int| 0 <= a < keys@.len() ==> is_session(v, (#[trigger] keys@[a])@),
            forall|k: int|
                0 <= k < i ==> exists|a: int|
                    0 <= a < keys@.len() && keys@[a]@ == (#[trigger] v[k]).key,
        decreases cs@.len() - i,
    {
        let ghost before = keys@;
        insert_key(&mut keys, &cs[i].session_key);
        proof {
            assert(v[i as int].key == cs@[i as int].session_key@);
            assert forall|a: int| 0 <= a < keys@.len() implies is_session(
                v,
                (#[trigger] keys@[a])@,
            ) by {
                if keys@[a]@ != v[i as int].key {
                    let b = choose|b: int| 0 <= b < before.len() && before[b]@ == keys@[a]@;
                    assert(is_session(v, before[b]@));
                }
            }
            assert forall|k: int| 0 <= k < i + 1 implies exists|a: int|
                0 <= a < keys@.len() && keys@[a]@ == (#[trigger] v[k]).key by {
                if k < i {
                    let b = choose|b: int| 0 <= b < before.len() && before[b]@ == v[k].key;
                    let a = choose|a: int| 0 <= a < keys@.len() && keys@[a]@ == before[b]@;
                    assert(keys@[a]@ == v[k].key);
                }
            }
        }
        i += 1;
    }
    keys
}

/// What becomes of a captured session, as executable code finds it.
enum Finding {
    Anchored(i64),
    Rejected(String),
}

/// What becomes of session `key`.
fn judge(cs: &Vec<AnchorCandidate>, w: &Vec<usize>, key: &String) -> (f: Finding)
    requires
        forall|a: int| 0 <= a < w@.len() ==> wins_session(views(cs@), #[trigger] w@[a] as int),
        forall|k: int| #[trigger]
            wins_session(views(cs@), k) ==> exists|a: int| 0 <= a < w@.len() && w@[a] == k,
    ensures
        match f {
            Finding::Anchored(d) => verdict(views(cs@), key@) == Verdict::Anchored(d),
            Finding::Rejected(why) => !(verdict(views(cs@), key@) is Anchored) && why@ == reason(
                verdict(views(cs@), key@),
            ),
        },
{
    let ghost v = views(cs@);
    let mut a: usize = 0;
    while a < w.len()
        invariant
            a <= w@.len(),
            v == views(cs@),
            forall|b: int| 0 <= b < w@.len() ==> wins_session(v, #[trigger] w@[b] as int),
            forall|k: int| #[trigger]
                wins_session(v, k) ==> exists|b: int| 0 <= b < w@.len() && w@[b] == k,
            forall|b: int| 0 <= b < a ==> v[#[trigger] w@[b] as int].key != key@,
        decreases w@.len() - a,
    {
        let i = w[a];
        proof {
            assert(wins_session(v, w@[a as int] as int));
        }
        if cs[i].session_key == *key {
            proof {
                lemma_winner_unique(v, i as int);
                assert(v[i as int].key == key@);
            }
            let driver_id = cs[i].driver_id;
            if beats_driver(cs, w, i) {
                return Finding::Anchored(driver_id);
            }
            let mut b: usize = 0;
            while b < w.len()
                invariant
                    b <= w@.len(),
                    v == views(cs@),
                    forall|c: int| 0 <= c < w@.len() ==> wins_session(v, #[trigger] w@[c] as int),
                    forall|k: int| #[trigger]
                        wins_session(v, k) ==> exists|c: int| 0 <= c < w@.len() && w@[c] == k,
                    wins_session(v, i as int),
                    winner(v, key@) == i,
                    has_winner(v, key@),
                    has_clean(v, key@),
                    !wins_driver(v, i as int),
                    driver_id == v[i as int].driver_id,
                    forall|c: int|
                        0 <= c < b ==> !(wins_driver(v, #[trigger] w@[c] as int)
                            && v[w@[c] as int].driver_id == driver_id),
                decreases w@.len() - b,
            {
                let j = w[b];
                proof {
                    assert(wins_session(v, w@[b as int] as int));
                }
                if cs[j].driver_id == driver_id && beats_driver(cs, w, j) {
                    proof {
                        assert(wins_driver(v, j as int) && v[j as int].driver_id == driver_id);
                    }
                    return Finding::Rejected(
                        "another capture matches the same result more closely".to_owned(),
                    );
                }
                b += 1;
            }
            proof {
                if has_owner(v, driver_id) {
                    let j = choose|j: int| #[trigger]
                        wins_driver(v, j) && v[j].driver_id == driver_id;
                    assert(wins_session(v, j));
                    let c = choose|c: int| 0 <= c < w@.len() && w@[c] == j;
                    assert(wins_driver(v, w@[c] as int));
                }
            }
            return Finding::Rejected("two captures fit the same result".to_owned());
        }
        a += 1;
    }
    proof {
        if has_winner(v, key@) {
            let i = choose|i: int| #[trigger] wins_session(v, i) && v[i].key == key@;
            let b = choose|b: int| 0 <= b < w@.len() && w@[b] == i;
            assert(v[w@[b] as int].key != key@);
        }
    }
    let mut i: usize = 0;
    while i < cs.len()
        invariant
            i <= cs@.len(),
            v == views(cs@),
            !has_winner(v, key@),
            forall|k: int| 0 <= k < i ==> !((#[trigger] v[k]).key == key@ && is_clean(v[k])),
        decreases cs@.len() - i,
    {
        if cs[i].session_key == *key && clean(&cs[i]) {
            proof {
                assert(v[i as int].key == key@ && is_clean(v[i as int]));
            }
            return Finding::Rejected("two results fit it equally well".to_owned());
        }
        i += 1;
    }
    Finding::Rejected("no result has laps with these times".to_owned())
}

/// Whether every key of `s` comes before `key`.
spec fn all_before<T>(s: Seq<(String, T)>, key: Seq<char>) -> bool {
    forall|a: int| 0 <= a < s.len() ==> text::lex_less((#[trigger] s[a]).0@, key)
}

/// Appending the next key keeps the order and adds that key only.
proof fn lemma_append<T>(s: Seq<(String, T)>, e: (String, T))
    requires
        ascending(s),
        all_before(s, e.0@),
    ensures
        ascending(s.push(e)),
        lists(s.push(e), e.0@),
        forall|key: Seq<char>| #[trigger] lists(s, key) ==> lists(s.push(e), key),
        forall|key: Seq<char>| #[trigger] text::lex_less(e.0@, key) ==> all_before(s.push(e), key),
{
    let t = s.push(e);
    assert(t[s.len() as int] == e);
    assert forall|a: int, b: int| 0 <= a < b < t.len() implies text::lex_less(
        (#[trigger] t[a]).0@,
        (#[trigger] t[b]).0@,
    ) by {
        assert(t[a] == s[a]);
        if b < s.len() {
            assert(t[b] == s[b]);
        }
    }
    assert forall|key: Seq<char>| #[trigger] lists(s, key) implies lists(t, key) by {
        let a = choose|a: int| 0 <= a < s.len() && (#[trigger] s[a]).0@ == key;
        assert(t[a] == s[a]);
    }
    assert forall|key: Seq<char>| #[trigger] text::lex_less(e.0@, key) implies all_before(t, key) by {
        assert forall|a: int| 0 <= a < t.len() implies text::lex_less((#[trigger] t[a]).0@, key) by {
            if a < s.len() {
                assert(t[a] == s[a]);
                text::lemma_lex_transitive(s[a].0@, e.0@, key);
            }
        }
    }
}

/// What comes before a key comes before the next one too.
proof fn lemma_all_before_next<T>(s: Seq<(String, T)>, key: Seq<char>, next: Seq<char>)
    requires
        all_before(s, key),
        text::lex_less(key, next),
    ensures
        all_before(s, next),
{
    assert forall|a: int| 0 <= a < s.len() implies text::lex_less((#[trigger] s[a]).0@, next) by {
        text::lemma_lex_transitive(s[a].0@, key, next);
    }
}

/// Decides which captured session belongs to which driver of a result.
///
/// Returns the accepted pairs of session and driver, and the sessions that were
/// left without a driver with the reason, both in ascending order of session.
///
/// A candidate has to agree on at least one lap, contradict none, be the only
/// reading of its session, and have the strongest claim on its driver. Where
/// two readings are equally strong, nothing is guessed.
pub fn choose_anchors(candidates: Vec<AnchorCandidate>) -> (r: (
    Vec<(String, i64)>,
    Vec<(String, String)>,
))
    ensures
        anchors_exactly(views(candidates@), r.0@),
        rejects_exactly(views(candidates@), r.1@),
{
    let ghost v = views(candidates@);
    let keys = sessions_of(&candidates);
    let w = winners_of(&candidates);
    let mut anchors: Vec<(String, i64)> = Vec::new();
    let mut rejected: Vec<(String, String)> = Vec::new();
    let mut i: usize = 0;
    while i < keys.len()
        invariant
            i <= keys@.len(),
            v == views(candidates@),
            forall|a: int, b: int|
                0 <= a < b < keys@.len() ==> text::lex_less(
                    (#[trigger] keys@[a])@,
                    (#[trigger] keys@[b])@,
                ),
            forall|a: int| 0 <= a < keys@.len() ==> is_session(v, (#[trigger] keys@[a])@),
            forall|a: int| 0 <= a < w@.len() ==> wins_session(v, #[trigger] w@[a] as int),
            forall|k: int| #[trigger]
                wins_session(v, k) ==> exists|a: int| 0 <= a < w@.len() && w@[a] == k,
            ascending(anchors@),
            ascending(rejected@),
            i < keys@.len() ==> all_before(anchors@, keys@[i as int]@),
            i < keys@.len() ==> all_before(rejected@, keys@[i as int]@),
            forall|a: int|
                0 <= a < anchors@.len() ==> is_session(v, (#[trigger] anchors@[a]).0@) && verdict(
                    v,
                    anchors@[a].0@,
                ) == Verdict::Anchored(anchors@[a].1),
            forall|a: int|
                0 <= a < rejected@.len() ==> is_session(v, (#[trigger] rejected@[a]).0@) && !(
                verdict(v, rejected@[a].0@) is Anchored) && rejected@[a].1@ == reason(
                    verdict(v, rejected@[a].0@),
                ),
            forall|k: int|
                0 <= k < i && verdict(v, (#[trigger] keys@[k])@) is Anchored ==> lists(
                    anchors@,
                    keys@[k]@,
                ),
            forall|k: int|
                0 <= k < i && !(verdict(v, (#[trigger] keys@[k])@) is Anchored) ==> lists(
                    rejected@,
                    keys@[k]@,
                ),
        decreases keys@.len() - i,
    {
        let key = keys[i].clone();
        proof {
            if i + 1 < keys@.len() {
                assert(text::lex_less(keys@[i as int]@, keys@[i + 1]@));
                lemma_all_before_next(anchors@, key@, keys@[i + 1]@);
                lemma_all_before_next(rejected@, key@, keys@[i + 1]@);
            }
        }
        match judge(&candidates, &w, &key) {
            Finding::Anchored(driver_id) => {
                proof {
                    lemma_append(anchors@, (key, driver_id));
                }
                anchors.push((key, driver_id));
            },
            Finding::Rejected(why) => {
                proof {
                    lemma_append(rejected@, (key, why));
                }
                rejected.push((key, why));
            },
        }
        i += 1;
    }
    proof {
        assert forall|key: Seq<char>| #[trigger]
            is_session(v, key) && verdict(v, key) is Anchored implies lists(anchors@, key) by {
            let k = choose|k: int| 0 <= k < keys@.len() && keys@[k]@ == key;
            assert(verdict(v, keys@[k]@) is Anchored);
        }
        assert forall|key: Seq<char>| #[trigger]
            is_session(v, key) && !(verdict(v, key) is Anchored) implies lists(
            rejected@,
            key,
        ) by {
            let k = choose|k: int| 0 <= k < keys@.len() && keys@[k]@ == key;
            assert(!(verdict(v, keys@[k]@) is Anchored));
        }
    }
    (anchors, rejected)
}

// ---------------------------------------------------------------------------
// Laws
// ---------------------------------------------------------------------------

/// A session is anchored only to a driver that one of its own candidates
/// names, on a lap they agree on and with no lap that contradicts.
pub proof fn law_anchor_has_evidence(cs: Seq<Candidate>, key: Seq<char>, driver_id: i64)
    requires
        verdict(cs, key) == Verdict::Anchored(driver_id),
    ensures
        exists|i: int|
            0 <= i < cs.len() && (#[trigger] cs[i]).key == key && cs[i].driver_id == driver_id
                && cs[i].hits > 0 && cs[i].misses == 0,
{
    let w = winner(cs, key);
    assert(wins_session(cs, w) && cs[w].key == key);
}

/// One driver is never given two captured sessions.
pub proof fn law_one_session_per_driver(
    cs: Seq<Candidate>,
    key1: Seq<char>,
    key2: Seq<char>,
    driver_id: i64,
)
    requires
        verdict(cs, key1) == Verdict::Anchored(driver_id),
        verdict(cs, key2) == Verdict::Anchored(driver_id),
    ensures
        key1 == key2,
{
    let w1 = winner(cs, key1);
    let w2 = winner(cs, key2);
    assert(wins_session(cs, w1) && cs[w1].key == key1);
    assert(wins_session(cs, w2) && cs[w2].key == key2);
    if w1 != w2 {
        assert(cs[w2].hits < cs[w1].hits);
        assert(cs[w1].hits < cs[w2].hits);
    }
}

/// Two clean candidates that fit a session equally well, and better than the
/// rest, leave it without a driver.
pub proof fn law_a_tie_is_not_broken(cs: Seq<Candidate>, i: int, j: int)
    requires
        0 <= i < cs.len(),
        0 <= j < cs.len(),
        i != j,
        cs[i].key == cs[j].key,
        is_clean(cs[i]),
        is_clean(cs[j]),
        cs[i].hits == cs[j].hits,
        forall|k: int|
            0 <= k < cs.len() && (#[trigger] cs[k]).key == cs[i].key && is_clean(cs[k])
                ==> cs[k].hits <= cs[i].hits,
    ensures
        verdict(cs, cs[i].key) == Verdict::TwoResults,
{
    assert(has_clean(cs, cs[i].key));
    if has_winner(cs, cs[i].key) {
        let w = winner(cs, cs[i].key);
        assert(wins_session(cs, w) && cs[w].key == cs[i].key);
        if w != i {
            assert(cs[i].hits < cs[w].hits);
        } else {
            assert(cs[j].hits < cs[w].hits);
        }
    }
}

/// Every session ends up in exactly one of the two lists.
pub proof fn law_every_session_is_accounted_for(
    cs: Seq<Candidate>,
    anchors: Seq<(String, i64)>,
    rejected: Seq<(String, String)>,
    key: Seq<char>,
)
    requires
        anchors_exactly(cs, anchors),
        rejects_exactly(cs, rejected),
        is_session(cs, key),
    ensures
        lists(anchors, key) != lists(rejected, key),
{
}

/// A candidate with a lap that contradicts changes nothing: it neither wins a
/// session nor stands in the way of another candidate.
pub proof fn law_contradicted_candidates_do_not_count(cs: Seq<Candidate>, c: Candidate, i: int)
    requires
        !is_clean(c),
        0 <= i < cs.len(),
    ensures
        wins_session(cs.push(c), i) == wins_session(cs, i),
        wins_driver(cs.push(c), i) == wins_driver(cs, i),
        !wins_session(cs.push(c), cs.len() as int),
{
    let t = cs.push(c);
    assert forall|k: int| 0 <= k < cs.len() implies wins_session(t, k) == wins_session(cs, k) by {
        assert(t[k] == cs[k]);
        if wins_session(t, k) {
            assert forall|j: int|
                0 <= j < cs.len() && j != k && is_clean(cs[j]) && cs[j].key == cs[k].key implies (
            #[trigger] cs[j]).hits < cs[k].hits by {
                assert(t[j] == cs[j]);
            }
        }
        if wins_session(cs, k) {
            assert forall|j: int|
                0 <= j < t.len() && j != k && is_clean(t[j]) && t[j].key == t[k].key implies (
            #[trigger] t[j]).hits < t[k].hits by {
                if j < cs.len() {
                    assert(t[j] == cs[j]);
                }
            }
        }
    }
    assert(t[i] == cs[i]);
    assert(!wins_session(t, cs.len() as int));
    if wins_driver(cs, i) {
        assert forall|j: int|
            #[trigger] wins_session(t, j) && j != i && t[j].driver_id
                == t[i].driver_id implies t[j].hits < t[i].hits by {
            assert(j < cs.len());
            assert(wins_session(cs, j));
        }
    }
    if wins_driver(t, i) {
        assert forall|j: int|
            #[trigger] wins_session(cs, j) && j != i && cs[j].driver_id
                == cs[i].driver_id implies cs[j].hits < cs[i].hits by {
            assert(wins_session(t, j));
        }
    }
}

/// Whether `p` names every index below `n` exactly once.
pub open spec fn is_arrangement(p: Seq<int>, n: int) -> bool {
    &&& p.len() == n
    &&& p.no_duplicates()
    &&& forall|i: int| 0 <= i < n ==> 0 <= #[trigger] p[i] < n
}

/// Whether `b` holds the candidates of `a` in another order, or the same one.
pub open spec fn is_reordering(a: Seq<Candidate>, b: Seq<Candidate>) -> bool {
    exists|p: Seq<int>| #[trigger]
        is_arrangement(p, a.len() as int) && b == Seq::new(a.len(), |i: int| a[p[i]])
}

/// Whether `p` and `q` lead from the candidates of `b` to those of `a` and back.
spec fn matched(a: Seq<Candidate>, b: Seq<Candidate>, p: Seq<int>, q: Seq<int>) -> bool {
    &&& a.len() == b.len() == p.len() == q.len()
    &&& forall|i: int|
        0 <= i < b.len() ==> 0 <= #[trigger] p[i] < a.len() && a[p[i]] == b[i] && q[p[i]] == i
    &&& forall|j: int|
        0 <= j < a.len() ==> 0 <= #[trigger] q[j] < b.len() && b[q[j]] == a[j] && p[q[j]] == j
}

/// An arrangement reaches every index.
proof fn lemma_arrangement_reaches(p: Seq<int>, n: int, j: int)
    requires
        is_arrangement(p, n),
        0 <= j < n,
    ensures
        exists|i: int| 0 <= i < n && #[trigger] p[i] == j,
{
    let all = vstd::set_lib::set_int_range(0, n);
    vstd::set_lib::lemma_int_range(0, n);
    p.unique_seq_to_set();
    assert forall|x: int| p.to_set().contains(x) implies all.contains(x) by {}
    vstd::set_lib::lemma_subset_equality(p.to_set(), all);
    assert(all.contains(j));
    assert(p.contains(j));
}

/// A reordering can be undone.
proof fn lemma_reordering_is_matched(a: Seq<Candidate>, b: Seq<Candidate>) -> (r: (
    Seq<int>,
    Seq<int>,
))
    requires
        is_reordering(a, b),
    ensures
        matched(a, b, r.0, r.1),
{
    let n = a.len() as int;
    let p = choose|p: Seq<int>| #[trigger]
        is_arrangement(p, n) && b == Seq::new(a.len(), |i: int| a[p[i]]);
    let back = |j: int| choose|i: int| 0 <= i < n && #[trigger] p[i] == j;
    let q = Seq::new(a.len(), back);
    assert forall|j: int| 0 <= j < n implies 0 <= #[trigger] q[j] < n && b[q[j]] == a[j]
        && p[q[j]] == j by {
        lemma_arrangement_reaches(p, n, j);
    }
    assert forall|i: int| 0 <= i < n implies 0 <= #[trigger] p[i] < n && a[p[i]] == b[i]
        && q[p[i]] == i by {
        assert(p[q[p[i]]] == p[i]);
    }
    (p, q)
}

proof fn lemma_session_win_moves(
    a: Seq<Candidate>,
    b: Seq<Candidate>,
    p: Seq<int>,
    q: Seq<int>,
    i: int,
)
    requires
        matched(a, b, p, q),
        wins_session(b, i),
    ensures
        wins_session(a, p[i]),
        a[p[i]] == b[i],
{
    assert forall|j: int|
        0 <= j < a.len() && j != p[i] && is_clean(a[j]) && a[j].key == a[p[i]].key implies (
    #[trigger] a[j]).hits < a[p[i]].hits by {
        assert(b[q[j]] == a[j]);
        assert(q[j] != i);
    }
}

proof fn lemma_driver_win_moves(
    a: Seq<Candidate>,
    b: Seq<Candidate>,
    p: Seq<int>,
    q: Seq<int>,
    i: int,
)
    requires
        matched(a, b, p, q),
        wins_driver(b, i),
    ensures
        wins_driver(a, p[i]),
        a[p[i]] == b[i],
{
    lemma_session_win_moves(a, b, p, q, i);
    assert forall|j: int|
        #[trigger] wins_session(a, j) && j != p[i] && a[j].driver_id
            == a[p[i]].driver_id implies a[j].hits < a[p[i]].hits by {
        lemma_session_win_moves(b, a, q, p, j);
        assert(q[j] != i);
    }
}

/// What holds of a session in one order of the candidates holds in the other.
proof fn lemma_session_moves(
    a: Seq<Candidate>,
    b: Seq<Candidate>,
    p: Seq<int>,
    q: Seq<int>,
    key: Seq<char>,
)
    requires
        matched(a, b, p, q),
    ensures
        is_session(b, key) ==> is_session(a, key),
        has_clean(b, key) ==> has_clean(a, key),
        has_winner(b, key) ==> has_winner(a, key) && a[winner(a, key)] == b[winner(b, key)]
            && winner(a, key) == p[winner(b, key)],
{
    if is_session(b, key) {
        let i = choose|i: int| 0 <= i < b.len() && (#[trigger] b[i]).key == key;
        assert(a[p[i]].key == key);
    }
    if has_clean(b, key) {
        let i = choose|i: int|
            0 <= i < b.len() && (#[trigger] b[i]).key == key && is_clean(b[i]);
        assert(a[p[i]].key == key);
    }
    if has_winner(b, key) {
        let w = winner(b, key);
        assert(wins_session(b, w) && b[w].key == key);
        lemma_session_win_moves(a, b, p, q, w);
        lemma_winner_unique(a, p[w]);
    }
}

proof fn lemma_owner_moves(
    a: Seq<Candidate>,
    b: Seq<Candidate>,
    p: Seq<int>,
    q: Seq<int>,
    driver_id: i64,
)
    requires
        matched(a, b, p, q),
    ensures
        has_owner(b, driver_id) ==> has_owner(a, driver_id),
{
    if has_owner(b, driver_id) {
        let j = choose|j: int| #[trigger] wins_driver(b, j) && b[j].driver_id == driver_id;
        lemma_driver_win_moves(a, b, p, q, j);
    }
}

/// What becomes of a session does not depend on the order of the candidates.
proof fn lemma_verdict_moves(
    a: Seq<Candidate>,
    b: Seq<Candidate>,
    p: Seq<int>,
    q: Seq<int>,
    key: Seq<char>,
)
    requires
        matched(a, b, p, q),
    ensures
        is_session(a, key) == is_session(b, key),
        verdict(a, key) == verdict(b, key),
{
    lemma_session_moves(a, b, p, q, key);
    lemma_session_moves(b, a, q, p, key);
    if has_winner(b, key) {
        let w = winner(b, key);
        assert(wins_session(b, w) && b[w].key == key);
        if wins_driver(b, w) {
            lemma_driver_win_moves(a, b, p, q, w);
        }
        if wins_driver(a, p[w]) {
            lemma_driver_win_moves(b, a, q, p, p[w]);
        }
        lemma_owner_moves(a, b, p, q, b[w].driver_id);
        lemma_owner_moves(b, a, q, p, b[w].driver_id);
    }
}

/// The keys of a list.
pub open spec fn keys_of<T>(s: Seq<(String, T)>) -> Seq<Seq<char>> {
    Seq::new(s.len(), |i: int| s[i].0@)
}

/// Whether keys are in strictly ascending order.
spec fn keys_ascend(s: Seq<Seq<char>>) -> bool {
    forall|a: int, b: int|
        0 <= a < b < s.len() ==> text::lex_less(#[trigger] s[a], #[trigger] s[b])
}

/// Ascending lists of the same keys are the same list.
proof fn lemma_same_keys(s: Seq<Seq<char>>, t: Seq<Seq<char>>)
    requires
        keys_ascend(s),
        keys_ascend(t),
        forall|k: Seq<char>| s.contains(k) <==> #[trigger] t.contains(k),
    ensures
        s == t,
    decreases s.len(),
{
    if s.len() == 0 {
        if t.len() > 0 {
            assert(t.contains(t[0]));
        }
        assert(s == t);
    } else {
        assert(s.contains(s[0]));
        assert(t.contains(s[0]));
        let x = s.last();
        let y = t.last();
        assert(s.contains(x) && t.contains(x));
        assert(t.contains(y) && s.contains(y));
        let i = choose|i: int| 0 <= i < t.len() && t[i] == x;
        let j = choose|j: int| 0 <= j < s.len() && s[j] == y;
        if x != y {
            assert(text::lex_less(x, y));
            assert(text::lex_less(y, x));
            text::lemma_lex_transitive(x, y, x);
            text::lemma_lex_irreflexive(x);
        }
        let s1 = s.drop_last();
        let t1 = t.drop_last();
        assert forall|k: Seq<char>| s1.contains(k) <==> #[trigger] t1.contains(k) by {
            lemma_without_last(s, k);
            lemma_without_last(t, k);
            assert(s.contains(k) <==> t.contains(k));
        }
        lemma_same_keys(s1, t1);
        assert(s == s1.push(x));
        assert(t == t1.push(y));
    }
}

/// Without its last key, an ascending list holds the others.
proof fn lemma_without_last(s: Seq<Seq<char>>, k: Seq<char>)
    requires
        s.len() > 0,
        keys_ascend(s),
    ensures
        s.drop_last().contains(k) <==> s.contains(k) && k != s.last(),
{
    let d = s.drop_last();
    if d.contains(k) {
        let i = choose|i: int| 0 <= i < d.len() && d[i] == k;
        assert(s[i] == k);
        assert(text::lex_less(s[i], s[s.len() - 1]));
        text::lemma_lex_irreflexive(k);
    }
    if s.contains(k) && k != s.last() {
        let i = choose|i: int| 0 <= i < s.len() && s[i] == k;
        assert(d[i] == k);
    }
}

/// A key is among the keys of a list exactly where the list has an entry for it.
proof fn lemma_keys_of<T>(s: Seq<(String, T)>, key: Seq<char>)
    ensures
        keys_of(s).contains(key) <==> lists(s, key),
{
    if keys_of(s).contains(key) {
        let i = choose|i: int| 0 <= i < keys_of(s).len() && keys_of(s)[i] == key;
        assert(s[i].0@ == key);
    }
    if lists(s, key) {
        let i = choose|i: int| 0 <= i < s.len() && (#[trigger] s[i]).0@ == key;
        assert(keys_of(s)[i] == key);
    }
}

/// The order in which the candidates come does not matter: the same sessions are
/// anchored to the same drivers and the same are rejected for the same reasons,
/// each list in the same, ascending order.
pub proof fn law_the_order_of_the_candidates_does_not_matter(
    a: Seq<Candidate>,
    b: Seq<Candidate>,
    anchors_a: Seq<(String, i64)>,
    anchors_b: Seq<(String, i64)>,
    rejected_a: Seq<(String, String)>,
    rejected_b: Seq<(String, String)>,
)
    requires
        is_reordering(a, b),
        anchors_exactly(a, anchors_a),
        anchors_exactly(b, anchors_b),
        rejects_exactly(a, rejected_a),
        rejects_exactly(b, rejected_b),
    ensures
        anchors_a.len() == anchors_b.len(),
        forall|i: int|
            0 <= i < anchors_a.len() ==> (#[trigger] anchors_a[i]).0@ == anchors_b[i].0@
                && anchors_a[i].1 == anchors_b[i].1,
        rejected_a.len() == rejected_b.len(),
        forall|i: int|
            0 <= i < rejected_a.len() ==> (#[trigger] rejected_a[i]).0@ == rejected_b[i].0@
                && rejected_a[i].1@ == rejected_b[i].1@,
        ascending(anchors_a),
        ascending(rejected_a),
{
    let (p, q) = lemma_reordering_is_matched(a, b);
    assert forall|key: Seq<char>|
        is_session(a, key) == is_session(b, key) && #[trigger] verdict(a, key) == verdict(
            b,
            key,
        ) by {
        lemma_verdict_moves(a, b, p, q, key);
    }
    assert forall|key: Seq<char>|
        keys_of(anchors_a).contains(key) <==> #[trigger] keys_of(anchors_b).contains(key) by {
        lemma_keys_of(anchors_a, key);
        lemma_keys_of(anchors_b, key);
        assert(verdict(a, key) == verdict(b, key));
    }
    assert forall|key: Seq<char>|
        keys_of(rejected_a).contains(key) <==> #[trigger] keys_of(rejected_b).contains(key) by {
        lemma_keys_of(rejected_a, key);
        lemma_keys_of(rejected_b, key);
        assert(verdict(a, key) == verdict(b, key));
    }
    lemma_same_keys(keys_of(anchors_a), keys_of(anchors_b));
    lemma_same_keys(keys_of(rejected_a), keys_of(rejected_b));
    assert forall|i: int| 0 <= i < anchors_a.len() implies (#[trigger] anchors_a[i]).0@
        == anchors_b[i].0@ && anchors_a[i].1 == anchors_b[i].1 by {
        assert(keys_of(anchors_a)[i] == keys_of(anchors_b)[i]);
        assert(verdict(a, anchors_a[i].0@) == verdict(b, anchors_b[i].0@));
    }
    assert forall|i: int| 0 <= i < rejected_a.len() implies (#[trigger] rejected_a[i]).0@
        == rejected_b[i].0@ && rejected_a[i].1@ == rejected_b[i].1@ by {
        assert(keys_of(rejected_a)[i] == keys_of(rejected_b)[i]);
        assert(verdict(a, rejected_a[i].0@) == verdict(b, rejected_b[i].0@));
    }
}

// ---------------------------------------------------------------------------
// What becomes of a session, told by the laps alone
// ---------------------------------------------------------------------------

/// A candidate that no other reading of its session comes up to wins the session,
/// and no other candidate does.
proof fn lemma_best_reading(cs: Seq<AnchorCandidate>, i: int)
    requires
        0 <= i < cs.len(),
    ensures
        views(cs).len() == cs.len(),
        views(cs)[i] == cs[i]@,
        wins_session(views(cs), i) <==> cs[i].hits > 0 && cs[i].misses == 0 && forall|j: int|
            0 <= j < cs.len() && j != i && (#[trigger] cs[j]).session_key@ == cs[i].session_key@
                && cs[j].hits > 0 && cs[j].misses == 0 ==> cs[j].hits < cs[i].hits,
{
    let v = views(cs);
    if wins_session(v, i) {
        assert forall|j: int|
            0 <= j < cs.len() && j != i && (#[trigger] cs[j]).session_key@ == cs[i].session_key@
                && cs[j].hits > 0 && cs[j].misses == 0 implies cs[j].hits < cs[i].hits by {
            assert(v[j] == cs[j]@);
        }
    }
}

/// A session is anchored to the driver whose laps it agrees with most: where one of
/// its candidates agrees on a lap and contradicts none, agrees on more laps than
/// every other such candidate of the session, and no such candidate of another
/// session names the driver, the pair of the two is among the anchors.
pub proof fn law_the_best_reading_is_anchored(
    cs: Seq<AnchorCandidate>,
    anchors: Seq<(String, i64)>,
    i: int,
)
    requires
        anchors_exactly(views(cs), anchors),
        0 <= i < cs.len(),
        cs[i].hits > 0,
        cs[i].misses == 0,
        forall|j: int|
            0 <= j < cs.len() && j != i && (#[trigger] cs[j]).session_key@ == cs[i].session_key@
                && cs[j].hits > 0 && cs[j].misses == 0 ==> cs[j].hits < cs[i].hits,
        forall|j: int|
            0 <= j < cs.len() && (#[trigger] cs[j]).session_key@ != cs[i].session_key@ && cs[j].hits
                > 0 && cs[j].misses == 0 ==> cs[j].driver_id != cs[i].driver_id,
    ensures
        exists|a: int|
            0 <= a < anchors.len() && (#[trigger] anchors[a]).0@ == cs[i].session_key@
                && anchors[a].1 == cs[i].driver_id,
{
    assert forall|j: int|
        0 <= j < cs.len() && j != i && (#[trigger] cs[j]).driver_id == cs[i].driver_id
            && cs[j].hits >= cs[i].hits && cs[j].hits > 0 && cs[j].misses == 0 implies exists|k: int|
        0 <= k < cs.len() && k != j && (#[trigger] cs[k]).session_key@ == cs[j].session_key@
            && cs[k].hits > 0 && cs[k].misses == 0 && cs[k].hits >= cs[j].hits by {
        assert(cs[j].session_key@ == cs[i].session_key@);
    }
    law_the_strongest_claim_is_anchored(cs, anchors, i);
}

/// Of the sessions that claim one driver the one that agrees on most laps gets it: a
/// candidate that is the best reading of its session is anchored where every other
/// candidate of the driver that agrees on as many laps is not the best reading of its
/// own.
pub proof fn law_the_strongest_claim_is_anchored(
    cs: Seq<AnchorCandidate>,
    anchors: Seq<(String, i64)>,
    i: int,
)
    requires
        anchors_exactly(views(cs), anchors),
        0 <= i < cs.len(),
        cs[i].hits > 0,
        cs[i].misses == 0,
        forall|j: int|
            0 <= j < cs.len() && j != i && (#[trigger] cs[j]).session_key@ == cs[i].session_key@
                && cs[j].hits > 0 && cs[j].misses == 0 ==> cs[j].hits < cs[i].hits,
        forall|j: int|
            0 <= j < cs.len() && j != i && (#[trigger] cs[j]).driver_id == cs[i].driver_id
                && cs[j].hits >= cs[i].hits && cs[j].hits > 0 && cs[j].misses == 0 ==> exists|k: int|
                0 <= k < cs.len() && k != j && (#[trigger] cs[k]).session_key@
                    == cs[j].session_key@ && cs[k].hits > 0 && cs[k].misses == 0 && cs[k].hits
                    >= cs[j].hits,
    ensures
        exists|a: int|
            0 <= a < anchors.len() && (#[trigger] anchors[a]).0@ == cs[i].session_key@
                && anchors[a].1 == cs[i].driver_id,
{
    let v = views(cs);
    lemma_best_reading(cs, i);
    assert forall|j: int|
        #[trigger] wins_session(v, j) && j != i && v[j].driver_id
            == v[i].driver_id implies v[j].hits < v[i].hits by {
        lemma_best_reading(cs, j);
        if v[j].hits >= v[i].hits {
            assert(cs[j].driver_id == cs[i].driver_id);
        }
    }
    lemma_winner_unique(v, i);
    let key = cs[i].session_key@;
    assert(is_session(v, key)) by {
        assert(v[i].key == key);
    }
    assert(verdict(v, key) == Verdict::Anchored(cs[i].driver_id));
    assert(lists(anchors, key));
    let a = choose|a: int| 0 <= a < anchors.len() && (#[trigger] anchors[a]).0@ == key;
    assert(verdict(v, anchors[a].0@) == Verdict::Anchored(anchors[a].1));
}

/// Nothing else is anchored: behind every anchor stands a candidate of that session
/// and that driver which agrees on a lap and contradicts none, and which agrees on
/// more laps than every other such candidate of the session, and more than the best
/// reading of any other session that names the driver.
pub proof fn law_every_anchor_is_the_best_reading(
    cs: Seq<AnchorCandidate>,
    anchors: Seq<(String, i64)>,
    a: int,
) -> (i: int)
    requires
        anchors_exactly(views(cs), anchors),
        0 <= a < anchors.len(),
    ensures
        0 <= i < cs.len(),
        cs[i].session_key@ == anchors[a].0@,
        cs[i].driver_id == anchors[a].1,
        cs[i].hits > 0,
        cs[i].misses == 0,
        forall|j: int|
            0 <= j < cs.len() && j != i && (#[trigger] cs[j]).session_key@ == cs[i].session_key@
                && cs[j].hits > 0 && cs[j].misses == 0 ==> cs[j].hits < cs[i].hits,
        forall|j: int|
            0 <= j < cs.len() && j != i && (#[trigger] cs[j]).driver_id == cs[i].driver_id
                && cs[j].hits >= cs[i].hits && cs[j].hits > 0 && cs[j].misses == 0 ==> exists|k: int|
                0 <= k < cs.len() && k != j && (#[trigger] cs[k]).session_key@
                    == cs[j].session_key@ && cs[k].hits > 0 && cs[k].misses == 0 && cs[k].hits
                    >= cs[j].hits,
{
    let v = views(cs);
    let key = anchors[a].0@;
    assert(verdict(v, key) == Verdict::Anchored(anchors[a].1));
    let i = winner(v, key);
    assert(wins_session(v, i) && v[i].key == key);
    lemma_best_reading(cs, i);
    assert forall|j: int|
        0 <= j < cs.len() && j != i && (#[trigger] cs[j]).driver_id == cs[i].driver_id
            && cs[j].hits >= cs[i].hits && cs[j].hits > 0 && cs[j].misses == 0 implies exists|k: int|
        0 <= k < cs.len() && k != j && (#[trigger] cs[k]).session_key@ == cs[j].session_key@
            && cs[k].hits > 0 && cs[k].misses == 0 && cs[k].hits >= cs[j].hits by {
        lemma_best_reading(cs, j);
        assert(v[j].driver_id == v[i].driver_id);
        assert(!wins_session(v, j));
    }
    i
}

/// A session that no candidate fits, on at least one lap and without a contradiction,
/// is rejected for that.
pub proof fn law_a_session_without_a_fit_is_rejected(
    cs: Seq<AnchorCandidate>,
    rejected: Seq<(String, String)>,
    i: int,
)
    requires
        rejects_exactly(views(cs), rejected),
        0 <= i < cs.len(),
        forall|j: int|
            0 <= j < cs.len() && (#[trigger] cs[j]).session_key@ == cs[i].session_key@
                ==> cs[j].hits <= 0 || cs[j].misses != 0,
    ensures
        exists|a: int|
            0 <= a < rejected.len() && (#[trigger] rejected[a]).0@ == cs[i].session_key@
                && rejected[a].1@ == "no result has laps with these times"@,
{
    let v = views(cs);
    let key = cs[i].session_key@;
    assert(v[i].key == key);
    assert(!has_clean(v, key)) by {
        if has_clean(v, key) {
            let j = choose|j: int| 0 <= j < v.len() && (#[trigger] v[j]).key == key && is_clean(v[j]);
            assert(v[j] == cs[j]@);
            assert(cs[j].session_key@ == key);
        }
    }
    lemma_rejected(cs, rejected, i);
}

/// A session that two candidates fit equally well, and none better, is rejected for
/// that: nothing is guessed.
pub proof fn law_a_session_that_fits_twice_is_rejected(
    cs: Seq<AnchorCandidate>,
    rejected: Seq<(String, String)>,
    i: int,
    j: int,
)
    requires
        rejects_exactly(views(cs), rejected),
        0 <= i < cs.len(),
        0 <= j < cs.len(),
        i != j,
        cs[i].session_key@ == cs[j].session_key@,
        cs[i].hits == cs[j].hits,
        cs[i].hits > 0,
        cs[i].misses == 0,
        cs[j].misses == 0,
        forall|k: int|
            0 <= k < cs.len() && (#[trigger] cs[k]).session_key@ == cs[i].session_key@ && cs[k].hits
                > 0 && cs[k].misses == 0 ==> cs[k].hits <= cs[i].hits,
    ensures
        exists|a: int|
            0 <= a < rejected.len() && (#[trigger] rejected[a]).0@ == cs[i].session_key@
                && rejected[a].1@ == "two results fit it equally well"@,
{
    let v = views(cs);
    assert(v[i] == cs[i]@ && v[j] == cs[j]@);
    assert forall|k: int|
        0 <= k < v.len() && (#[trigger] v[k]).key == v[i].key && is_clean(v[k]) implies v[k].hits
        <= v[i].hits by {
        assert(v[k] == cs[k]@);
        assert(cs[k].session_key@ == cs[i].session_key@);
    }
    law_a_tie_is_not_broken(v, i, j);
    lemma_rejected(cs, rejected, i);
}

/// A session whose driver is claimed by the best reading of another session on more
/// laps is rejected, for the other one if that is stronger than all further claims,
/// and as one of several otherwise.
pub proof fn law_a_weaker_claim_is_rejected(
    cs: Seq<AnchorCandidate>,
    rejected: Seq<(String, String)>,
    i: int,
    j: int,
)
    requires
        rejects_exactly(views(cs), rejected),
        0 <= i < cs.len(),
        0 <= j < cs.len(),
        i != j,
        cs[i].hits > 0,
        cs[i].misses == 0,
        cs[j].hits > 0,
        cs[j].misses == 0,
        cs[i].driver_id == cs[j].driver_id,
        cs[i].hits <= cs[j].hits,
        forall|k: int|
            0 <= k < cs.len() && k != i && (#[trigger] cs[k]).session_key@ == cs[i].session_key@
                && cs[k].hits > 0 && cs[k].misses == 0 ==> cs[k].hits < cs[i].hits,
        forall|k: int|
            0 <= k < cs.len() && k != j && (#[trigger] cs[k]).session_key@ == cs[j].session_key@
                && cs[k].hits > 0 && cs[k].misses == 0 ==> cs[k].hits < cs[j].hits,
    ensures
        cs[i].hits < cs[j].hits && (forall|k: int|
            0 <= k < cs.len() && k != j && (#[trigger] cs[k]).driver_id == cs[j].driver_id
                && cs[k].hits > 0 && cs[k].misses == 0 ==> cs[k].hits < cs[j].hits)
            ==> exists|a: int|
            0 <= a < rejected.len() && (#[trigger] rejected[a]).0@ == cs[i].session_key@
                && rejected[a].1@ == "another capture matches the same result more closely"@,
        cs[i].hits == cs[j].hits && (forall|k: int|
            0 <= k < cs.len() && (#[trigger] cs[k]).driver_id == cs[j].driver_id && cs[k].hits > 0
                && cs[k].misses == 0 ==> cs[k].hits <= cs[j].hits) ==> exists|a: int|
            0 <= a < rejected.len() && (#[trigger] rejected[a]).0@ == cs[i].session_key@
                && rejected[a].1@ == "two captures fit the same result"@,
        exists|a: int|
            0 <= a < rejected.len() && (#[trigger] rejected[a]).0@ == cs[i].session_key@,
{
    let v = views(cs);
    lemma_best_reading(cs, i);
    lemma_best_reading(cs, j);
    lemma_winner_unique(v, i);
    lemma_winner_unique(v, j);
    assert(!wins_driver(v, i)) by {
        assert(wins_session(v, j) && v[j].driver_id == v[i].driver_id);
    }
    lemma_rejected(cs, rejected, i);
    if cs[i].hits < cs[j].hits && forall|k: int|
        0 <= k < cs.len() && k != j && (#[trigger] cs[k]).driver_id == cs[j].driver_id && cs[k].hits
            > 0 && cs[k].misses == 0 ==> cs[k].hits < cs[j].hits {
        assert forall|k: int|
            #[trigger] wins_session(v, k) && k != j && v[k].driver_id
                == v[j].driver_id implies v[k].hits < v[j].hits by {
            lemma_best_reading(cs, k);
            assert(cs[k].driver_id == cs[j].driver_id);
        }
        assert(wins_driver(v, j));
        assert(has_owner(v, v[i].driver_id));
    }
    if cs[i].hits == cs[j].hits && forall|k: int|
        0 <= k < cs.len() && (#[trigger] cs[k]).driver_id == cs[j].driver_id && cs[k].hits > 0
            && cs[k].misses == 0 ==> cs[k].hits <= cs[j].hits {
        assert(!has_owner(v, v[i].driver_id)) by {
            if has_owner(v, v[i].driver_id) {
                let o = choose|o: int| #[trigger]
                    wins_driver(v, o) && v[o].driver_id == v[i].driver_id;
                lemma_best_reading(cs, o);
                assert(cs[o].driver_id == cs[j].driver_id);
                if o == i {
                    assert(wins_session(v, j));
                } else {
                    assert(wins_session(v, i));
                }
            }
        }
    }
}

/// A session that is not anchored stands among the rejected, with its reason.
proof fn lemma_rejected(cs: Seq<AnchorCandidate>, rejected: Seq<(String, String)>, i: int)
    requires
        rejects_exactly(views(cs), rejected),
        0 <= i < cs.len(),
        !(verdict(views(cs), cs[i].session_key@) is Anchored),
    ensures
        exists|a: int|
            0 <= a < rejected.len() && (#[trigger] rejected[a]).0@ == cs[i].session_key@
                && rejected[a].1@ == reason(verdict(views(cs), cs[i].session_key@)),
{
    let v = views(cs);
    let key = cs[i].session_key@;
    assert(v[i].key == key);
    assert(is_session(v, key));
    assert(lists(rejected, key));
    let a = choose|a: int| 0 <= a < rejected.len() && (#[trigger] rejected[a]).0@ == key;
    assert(rejected[a].1@ == reason(verdict(v, key)));
}

// ---------------------------------------------------------------------------
// Laws of choosing
// ---------------------------------------------------------------------------

/// However many laps agree, a session goes to the driver of the candidate that agrees
/// on most of them and contradicts none, where no other does so as often and no other
/// session has such a candidate for that driver. It is then not rejected.
pub proof fn law_choosing_takes_the_best_reading(
    candidates: Vec<AnchorCandidate>,
    r: (Vec<(String, i64)>, Vec<(String, String)>),
    i: int,
)
    requires
        call_ensures(choose_anchors, (candidates,), r),
        0 <= i < candidates@.len(),
        candidates@[i].hits > 0,
        candidates@[i].misses == 0,
        forall|j: int|
            0 <= j < candidates@.len() && j != i && (#[trigger] candidates@[j]).session_key@
                == candidates@[i].session_key@ && candidates@[j].hits > 0 && candidates@[j].misses
                == 0 ==> candidates@[j].hits < candidates@[i].hits,
        forall|j: int|
            0 <= j < candidates@.len() && (#[trigger] candidates@[j]).session_key@
                != candidates@[i].session_key@ && candidates@[j].hits > 0 && candidates@[j].misses
                == 0 ==> candidates@[j].driver_id != candidates@[i].driver_id,
    ensures
        exists|a: int|
            0 <= a < r.0@.len() && (#[trigger] r.0@[a]).0@ == candidates@[i].session_key@
                && r.0@[a].1 == candidates@[i].driver_id,
        forall|a: int|
            0 <= a < r.1@.len() ==> (#[trigger] r.1@[a]).0@ != candidates@[i].session_key@,
{
    let cs = candidates@;
    law_the_best_reading_is_anchored(cs, r.0@, i);
    let key = cs[i].session_key@;
    let a = choose|a: int| 0 <= a < r.0@.len() && (#[trigger] r.0@[a]).0@ == key;
    assert(is_session(views(cs), key)) by {
        assert(views(cs)[i].key == key);
    }
    law_every_session_is_accounted_for(views(cs), r.0@, r.1@, key);
    assert(lists(r.0@, key));
}

/// Of two sessions that claim one driver the one that agrees on more laps gets it.
pub proof fn law_choosing_takes_the_strongest_claim(
    candidates: Vec<AnchorCandidate>,
    r: (Vec<(String, i64)>, Vec<(String, String)>),
    i: int,
)
    requires
        call_ensures(choose_anchors, (candidates,), r),
        0 <= i < candidates@.len(),
        candidates@[i].hits > 0,
        candidates@[i].misses == 0,
        forall|j: int|
            0 <= j < candidates@.len() && j != i && (#[trigger] candidates@[j]).session_key@
                == candidates@[i].session_key@ && candidates@[j].hits > 0 && candidates@[j].misses
                == 0 ==> candidates@[j].hits < candidates@[i].hits,
        forall|j: int|
            0 <= j < candidates@.len() && j != i && (#[trigger] candidates@[j]).driver_id
                == candidates@[i].driver_id && candidates@[j].hits > 0 && candidates@[j].misses == 0
                ==> candidates@[j].hits < candidates@[i].hits,
    ensures
        exists|a: int|
            0 <= a < r.0@.len() && (#[trigger] r.0@[a]).0@ == candidates@[i].session_key@
                && r.0@[a].1 == candidates@[i].driver_id,
{
    law_the_strongest_claim_is_anchored(candidates@, r.0@, i);
}

/// Every session that is given a driver has a candidate for it that agrees on a lap,
/// contradicts none, and agrees on more laps than every other such candidate of the
/// session.
pub proof fn law_choosing_needs_a_best_reading(
    candidates: Vec<AnchorCandidate>,
    r: (Vec<(String, i64)>, Vec<(String, String)>),
    a: int,
) -> (i: int)
    requires
        call_ensures(choose_anchors, (candidates,), r),
        0 <= a < r.0@.len(),
    ensures
        0 <= i < candidates@.len(),
        candidates@[i].session_key@ == r.0@[a].0@,
        candidates@[i].driver_id == r.0@[a].1,
        candidates@[i].hits > 0,
        candidates@[i].misses == 0,
        forall|j: int|
            0 <= j < candidates@.len() && j != i && (#[trigger] candidates@[j]).session_key@
                == candidates@[i].session_key@ && candidates@[j].hits > 0 && candidates@[j].misses
                == 0 ==> candidates@[j].hits < candidates@[i].hits,
{
    law_every_anchor_is_the_best_reading(candidates@, r.0@, a)
}

/// A session that no candidate fits is rejected for it, and one that two fit equally
/// well, and none better, for that.
pub proof fn law_choosing_rejects_what_it_cannot_tell(
    candidates: Vec<AnchorCandidate>,
    r: (Vec<(String, i64)>, Vec<(String, String)>),
    i: int,
    j: int,
)
    requires
        call_ensures(choose_anchors, (candidates,), r),
        0 <= i < candidates@.len(),
        0 <= j < candidates@.len(),
    ensures
        (forall|k: int|
            0 <= k < candidates@.len() && (#[trigger] candidates@[k]).session_key@
                == candidates@[i].session_key@ ==> candidates@[k].hits <= 0 || candidates@[k].misses
                != 0) ==> exists|a: int|
            0 <= a < r.1@.len() && (#[trigger] r.1@[a]).0@ == candidates@[i].session_key@
                && r.1@[a].1@ == "no result has laps with these times"@,
        i != j && candidates@[i].session_key@ == candidates@[j].session_key@ && candidates@[i].hits
            == candidates@[j].hits && candidates@[i].hits > 0 && candidates@[i].misses == 0
            && candidates@[j].misses == 0 && (forall|k: int|
            0 <= k < candidates@.len() && (#[trigger] candidates@[k]).session_key@
                == candidates@[i].session_key@ && candidates@[k].hits > 0 && candidates@[k].misses
                == 0 ==> candidates@[k].hits <= candidates@[i].hits) ==> exists|a: int|
            0 <= a < r.1@.len() && (#[trigger] r.1@[a]).0@ == candidates@[i].session_key@
                && r.1@[a].1@ == "two results fit it equally well"@,
{
    let cs = candidates@;
    if forall|k: int|
        0 <= k < cs.len() && (#[trigger] cs[k]).session_key@ == cs[i].session_key@ ==> cs[k].hits
            <= 0 || cs[k].misses != 0 {
        law_a_session_without_a_fit_is_rejected(cs, r.1@, i);
    }
    if i != j && cs[i].session_key@ == cs[j].session_key@ && cs[i].hits == cs[j].hits && cs[i].hits
        > 0 && cs[i].misses == 0 && cs[j].misses == 0 && (forall|k: int|
        0 <= k < cs.len() && (#[trigger] cs[k]).session_key@ == cs[i].session_key@ && cs[k].hits > 0
            && cs[k].misses == 0 ==> cs[k].hits <= cs[i].hits) {
        law_a_session_that_fits_twice_is_rejected(cs, r.1@, i, j);
    }
}

/// Both lists are in ascending order of session, so no session is in either of them
/// twice, and none is in both.
pub proof fn law_choosing_lists_every_session_once(
    candidates: Vec<AnchorCandidate>,
    r: (Vec<(String, i64)>, Vec<(String, String)>),
    a: int,
    b: int,
    i: int,
)
    requires
        call_ensures(choose_anchors, (candidates,), r),
        0 <= i < candidates@.len(),
    ensures
        0 <= a < b < r.0@.len() ==> text::lex_less(r.0@[a].0@, r.0@[b].0@),
        0 <= a < b < r.1@.len() ==> text::lex_less(r.1@[a].0@, r.1@[b].0@),
        0 <= a < r.0@.len() && 0 <= b < r.1@.len() ==> r.0@[a].0@ != r.1@[b].0@,
        (exists|c: int|
            0 <= c < r.0@.len() && (#[trigger] r.0@[c]).0@ == candidates@[i].session_key@) || (
        exists|c: int|
            0 <= c < r.1@.len() && (#[trigger] r.1@[c]).0@ == candidates@[i].session_key@),
{
    let v = views(candidates@);
    let key = candidates@[i].session_key@;
    assert(v[i].key == key);
    assert(is_session(v, key));
    law_every_session_is_accounted_for(v, r.0@, r.1@, key);
    if 0 <= a < r.0@.len() && 0 <= b < r.1@.len() && r.0@[a].0@ == r.1@[b].0@ {
        let other = r.0@[a].0@;
        assert(is_session(v, other));
        law_every_session_is_accounted_for(v, r.0@, r.1@, other);
        assert(lists(r.0@, other) && lists(r.1@, other));
    }
}

/// Where two sessions claim one driver, each as its best reading, and one of them agrees
/// on more laps than every other session that does so, the other is told that it was
/// outclassed.
pub proof fn law_choosing_tells_the_weaker_claim(
    candidates: Vec<AnchorCandidate>,
    r: (Vec<(String, i64)>, Vec<(String, String)>),
    i: int,
    j: int,
)
    requires
        call_ensures(choose_anchors, (candidates,), r),
        0 <= i < candidates@.len(),
        0 <= j < candidates@.len(),
        i != j,
        candidates@[i].driver_id == candidates@[j].driver_id,
        candidates@[i].hits > 0,
        candidates@[i].misses == 0,
        forall|n: int|
            0 <= n < candidates@.len() && n != i && (#[trigger] candidates@[n]).session_key@
                == candidates@[i].session_key@ && candidates@[n].hits > 0 && candidates@[n].misses
                == 0 ==> candidates@[n].hits < candidates@[i].hits,
        candidates@[j].hits > 0,
        candidates@[j].misses == 0,
        forall|n: int|
            0 <= n < candidates@.len() && n != j && (#[trigger] candidates@[n]).session_key@
                == candidates@[j].session_key@ && candidates@[n].hits > 0 && candidates@[n].misses
                == 0 ==> candidates@[n].hits < candidates@[j].hits,
        forall|m: int|
            0 <= m < candidates@.len() && m != j && (#[trigger] candidates@[m]).driver_id
                == candidates@[j].driver_id && candidates@[m].hits > 0 && candidates@[m].misses == 0
                && candidates@[m].hits >= candidates@[j].hits ==> exists|n: int|
                0 <= n < candidates@.len() && n != m && (#[trigger] candidates@[n]).session_key@
                    == candidates@[m].session_key@ && candidates@[n].hits > 0
                    && candidates@[n].misses == 0 && candidates@[n].hits >= candidates@[m].hits,
    ensures
        exists|a: int|
            0 <= a < r.1@.len() && (#[trigger] r.1@[a]).0@ == candidates@[i].session_key@
                && r.1@[a].1@ == "another capture matches the same result more closely"@,
{
    let cs = candidates@;
    let v = views(cs);
    lemma_best_reading(cs, i);
    lemma_best_reading(cs, j);
    lemma_winner_unique(v, i);
    lemma_winner_unique(v, j);
    assert forall|m: int|
        #[trigger] wins_session(v, m) && m != j && v[m].driver_id
            == v[j].driver_id implies v[m].hits < v[j].hits by {
        lemma_best_reading(cs, m);
        if v[m].hits >= v[j].hits {
            assert(cs[m].driver_id == cs[j].driver_id);
        }
    }
    assert(wins_driver(v, j));
    assert(has_owner(v, v[i].driver_id));
    assert(v[i].hits < v[j].hits);
    assert(!wins_driver(v, i)) by {
        assert(wins_session(v, j) && v[j].driver_id == v[i].driver_id);
    }
    lemma_rejected(cs, r.1@, i);
}

/// Where two sessions claim one driver on the same number of laps, each as its best
/// reading, and none does so on more, every session that claims it is told so, and none
/// gets it.
pub proof fn law_choosing_abstains_between_equal_claims(
    candidates: Vec<AnchorCandidate>,
    r: (Vec<(String, i64)>, Vec<(String, String)>),
    i: int,
    j: int,
    k: int,
)
    requires
        call_ensures(choose_anchors, (candidates,), r),
        0 <= i < candidates@.len(),
        0 <= j < candidates@.len(),
        0 <= k < candidates@.len(),
        j != k,
        candidates@[i].driver_id == candidates@[j].driver_id,
        candidates@[k].driver_id == candidates@[j].driver_id,
        candidates@[k].hits == candidates@[j].hits,
        candidates@[i].hits > 0,
        candidates@[i].misses == 0,
        forall|n: int|
            0 <= n < candidates@.len() && n != i && (#[trigger] candidates@[n]).session_key@
                == candidates@[i].session_key@ && candidates@[n].hits > 0 && candidates@[n].misses
                == 0 ==> candidates@[n].hits < candidates@[i].hits,
        candidates@[j].hits > 0,
        candidates@[j].misses == 0,
        forall|n: int|
            0 <= n < candidates@.len() && n != j && (#[trigger] candidates@[n]).session_key@
                == candidates@[j].session_key@ && candidates@[n].hits > 0 && candidates@[n].misses
                == 0 ==> candidates@[n].hits < candidates@[j].hits,
        candidates@[k].hits > 0,
        candidates@[k].misses == 0,
        forall|n: int|
            0 <= n < candidates@.len() && n != k && (#[trigger] candidates@[n]).session_key@
                == candidates@[k].session_key@ && candidates@[n].hits > 0 && candidates@[n].misses
                == 0 ==> candidates@[n].hits < candidates@[k].hits,
        forall|m: int|
            0 <= m < candidates@.len() && (#[trigger] candidates@[m]).driver_id
                == candidates@[j].driver_id && candidates@[m].hits > candidates@[j].hits
                && candidates@[m].misses == 0 ==> exists|n: int|
                0 <= n < candidates@.len() && n != m && (#[trigger] candidates@[n]).session_key@
                    == candidates@[m].session_key@ && candidates@[n].hits > 0
                    && candidates@[n].misses == 0 && candidates@[n].hits >= candidates@[m].hits,
    ensures
        exists|a: int|
            0 <= a < r.1@.len() && (#[trigger] r.1@[a]).0@ == candidates@[i].session_key@
                && r.1@[a].1@ == "two captures fit the same result"@,
{
    let cs = candidates@;
    let v = views(cs);
    lemma_best_reading(cs, i);
    lemma_best_reading(cs, j);
    lemma_best_reading(cs, k);
    lemma_winner_unique(v, i);
    assert forall|o: int| #[trigger] wins_driver(v, o) && v[o].driver_id
        == v[j].driver_id implies false by {
        lemma_best_reading(cs, o);
        assert(cs[o].driver_id == cs[j].driver_id);
        if o == j {
            assert(wins_session(v, k));
        } else {
            assert(wins_session(v, j));
        }
    }
    assert(!wins_driver(v, i));
    assert(!has_owner(v, v[i].driver_id));
    lemma_rejected(cs, r.1@, i);
}

} // verus!
