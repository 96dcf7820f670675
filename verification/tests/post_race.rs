//! Results: finding and importing them, who the player is, and the backfill.

use std::collections::{HashMap, HashSet};

use lmu_pitwall::post_race::anchors::{choose_anchors, AnchorCandidate};
use lmu_pitwall::post_race::backfill::{
    anchor_candidates, backfill_live_laps, captured_sessions, shared_laps, unanchored_sessions,
    BackfillCounts, Consumables, LapRow, LiveDriverLap, LiveLap, SharedLap,
};
use lmu_pitwall::post_race::evidence::{times_to_compare, TimePair};
use lmu_pitwall::post_race::identity::{
    identify_player, imported_driver, learn_player_identities, DriverRow, Identity, SessionRow,
};
use lmu_pitwall::post_race::importer::{
    compute_file_hash, import_new_sessions, session_hash, ImportResult, ImportStep,
};
use lmu_pitwall::post_race::scan::{
    default_results_folder, scan_results_folder, FolderEntry, MAX_SCAN_DEPTH,
};
use lmu_pitwall::protocol::messages::Double;

// ---------------------------------------------------------------------------
// Scan
// ---------------------------------------------------------------------------

type Disk = HashMap<String, Vec<(String, bool)>>;

fn scan(disk: &Disk, root: &str) -> Vec<String> {
    let mut scan = scan_results_folder(root);
    let mut folder = Some(root.to_string());
    while let Some(dir) = folder {
        let list = disk
            .get(&dir)
            .map(|names| {
                names
                    .iter()
                    .map(|(name, is_dir)| FolderEntry {
                        path: format!("{}/{}", dir, name),
                        name: name.clone(),
                        is_dir: *is_dir,
                    })
                    .collect()
            })
            .unwrap_or_default();
        folder = scan.listed(list);
    }
    scan.into_results()
}

fn folder(names: &[(&str, bool)]) -> Vec<(String, bool)> {
    names.iter().map(|(n, d)| (n.to_string(), *d)).collect()
}

#[test]
fn scan_finds_xml_files() {
    let mut disk = Disk::new();
    disk.insert("scan".to_string(), folder(&[("sample.xml", false)]));
    assert!(scan(&disk, "scan").iter().any(|p| p == "scan/sample.xml"));
}

#[test]
fn the_scan_enters_folders_where_they_stand() {
    let mut disk = Disk::new();
    disk.insert(
        "r".to_string(),
        folder(&[("a.xml", false), ("sub", true), ("b.txt", false), ("z.xml", false)]),
    );
    disk.insert(
        "r/sub".to_string(),
        folder(&[(".xml", false), ("m.XML", false), ("n.xml", false), ("gone", true)]),
    );
    assert_eq!(scan(&disk, "r"), vec!["r/a.xml", "r/sub/n.xml", "r/z.xml"]);
    assert_eq!(scan(&disk, "missing"), Vec::<String>::new());
}

/// A link that points back at its own parent must not be followed for ever.
#[test]
fn the_scan_stops_at_its_depth_limit() {
    let mut disk = Disk::new();
    let mut path = "r".to_string();
    for _ in 0..20 {
        disk.insert(path.clone(), folder(&[("loop", true), ("x.xml", false)]));
        path = format!("{}/loop", path);
    }
    assert_eq!(scan(&disk, "r").len(), MAX_SCAN_DEPTH + 1);
}

#[test]
fn the_results_folder_is_known() {
    assert_eq!(
        default_results_folder().unwrap(),
        r"C:\Program Files (x86)\Steam\steamapps\common\Le Mans Ultimate\UserData\Log\Results"
    );
}

// ---------------------------------------------------------------------------
// Hashes and import
// ---------------------------------------------------------------------------

const SAMPLE: &str = "<rFactorXML><RaceResults><Race/><Qualify/></RaceResults></rFactorXML>";

#[test]
fn hash_is_deterministic() {
    let content = SAMPLE.as_bytes().to_vec();
    let h1 = compute_file_hash(&content);
    let h2 = compute_file_hash(&content);
    assert_eq!(h1, h2);
    assert_eq!(h1.len(), 64); // hex SHA-256
}

#[test]
fn hashes_are_those_of_sha256() {
    assert_eq!(
        compute_file_hash(&Vec::new()),
        "e3b0c44298fc1c149afbf4c8996fb92427ae41e4649b934ca495991b7852b855"
    );
    assert_eq!(
        compute_file_hash(&b"hello world".to_vec()),
        "b94d27b9934d3e08a52e52d7da7dabfac484efe37a5380ee9088f7ace2efcde9"
    );
    // A session's hash is that of the file's content followed by its type.
    assert_eq!(
        session_hash(&b"hello ".to_vec(), "world"),
        "b94d27b9934d3e08a52e52d7da7dabfac484efe37a5380ee9088f7ace2efcde9"
    );
    assert_ne!(
        session_hash(&b"x".to_vec(), "Race"),
        session_hash(&b"x".to_vec(), "Qualify")
    );
}

/// What a file is: unreadable, unparsable, or the types of its sessions.
enum File {
    Unreadable(&'static str),
    Unparsable(&'static str),
    Sessions(&'static str, Vec<&'static str>),
}

fn import(files: &[(&str, File)], there: &mut HashSet<String>) -> ImportResult {
    let paths = files.iter().map(|(p, _)| p.to_string()).collect();
    let (mut run, mut step) = import_new_sessions(paths);
    loop {
        step = match step {
            ImportStep::Read { path } => {
                let (_, file) = files.iter().find(|(p, _)| *p == path).unwrap();
                match file {
                    File::Unreadable(e) => run.unreadable(e),
                    File::Unparsable(e) => run.unparsable(e),
                    File::Sessions(content, types) => run.parsed(
                        content.as_bytes().to_vec(),
                        types.iter().map(|t| t.to_string()).collect(),
                    ),
                }
            }
            ImportStep::LookUp { hash } => {
                if there.contains(&hash) {
                    run.known()
                } else {
                    run.unknown()
                }
            }
            ImportStep::Insert { hash, .. } => {
                there.insert(hash);
                run.inserted()
            }
            ImportStep::Done => return run.into_result(),
        };
    }
}

#[test]
fn import_inserts_two_sessions() {
    let files = [("sample.xml", File::Sessions(SAMPLE, vec!["Race", "Qualify"]))];
    let result = import(&files, &mut HashSet::new());
    assert!(result.new_imported >= 2, "Race + Qualify = 2 sessions");
    assert_eq!(result.errors, Vec::<String>::new());
    assert_eq!(result.total_files, 1);
}

#[test]
fn import_is_idempotent() {
    let files = [("sample.xml", File::Sessions(SAMPLE, vec!["Race", "Qualify"]))];
    let mut there = HashSet::new();
    let r1 = import(&files, &mut there);
    let r2 = import(&files, &mut there);
    assert!(r1.new_imported >= 1);
    assert_eq!(r2.new_imported, 0);
    assert!(r2.skipped >= r1.new_imported);
}

#[test]
fn bad_files_are_reported_and_empty_ones_skipped() {
    let files = [
        ("a.xml", File::Unreadable("denied")),
        ("b.xml", File::Unparsable("bad tag")),
        ("c.xml", File::Sessions("c", vec![])),
        ("d.xml", File::Sessions("d", vec!["Race"])),
    ];
    let r = import(&files, &mut HashSet::new());
    assert_eq!(
        r.errors,
        vec!["a.xml: read error — denied", "b.xml: parse error — bad tag"]
    );
    assert_eq!((r.total_files, r.new_imported, r.skipped), (4, 1, 1));
}

#[test]
fn a_bad_session_does_not_stop_its_file() {
    let (mut run, step) = import_new_sessions(vec!["f.xml".to_string()]);
    assert!(matches!(step, ImportStep::Read { path } if path == "f.xml"));
    let types = ["Race", "Qualify", "Warmup"].iter().map(|t| t.to_string()).collect();
    let step = run.parsed(b"f".to_vec(), types);
    assert!(matches!(step, ImportStep::LookUp { .. }));
    assert!(matches!(run.unknown(), ImportStep::Insert { session: 0, .. }));
    assert!(matches!(run.savepoint_failed("busy"), ImportStep::LookUp { .. }));
    assert!(matches!(run.unknown(), ImportStep::Insert { session: 1, .. }));
    assert!(matches!(run.insert_failed("full"), ImportStep::LookUp { .. }));
    assert!(matches!(run.unknown(), ImportStep::Insert { session: 2, .. }));
    assert!(matches!(run.inserted(), ImportStep::Done));
    let r = run.into_result();
    assert_eq!(
        r.errors,
        vec!["f.xml [Race]: savepoint error — busy", "f.xml [Qualify]: insert error — full"]
    );
    assert_eq!((r.new_imported, r.skipped), (1, 0));
}

/// Whatever goes wrong, every session and every file without one is counted once.
#[test]
fn every_session_and_file_is_counted_once() {
    let files = ["a", "b", "c", "d"].iter().map(|f| f.to_string()).collect();
    let (mut run, _) = import_new_sessions(files);
    run.unreadable("denied");
    run.unparsable("bad tag");
    run.parsed(b"c".to_vec(), Vec::new());
    let types = ["Race", "Qualify", "Warmup", "Practice"].iter().map(|t| t.to_string()).collect();
    run.parsed(b"d".to_vec(), types);
    run.known();
    run.unknown();
    run.savepoint_failed("busy");
    run.unknown();
    run.insert_failed("full");
    run.unknown();
    assert!(matches!(run.inserted(), ImportStep::Done));
    let r = run.into_result();
    assert_eq!((r.total_files, r.new_imported, r.skipped, r.errors.len()), (4, 1, 2, 4));
    assert_eq!(r.new_imported + r.skipped + r.errors.len(), 3 + 4);
}

#[test]
fn an_empty_folder_is_done_at_once() {
    let (run, step) = import_new_sessions(Vec::new());
    assert!(matches!(step, ImportStep::Done));
    assert_eq!(run.into_result().total_files, 0);
}

// ---------------------------------------------------------------------------
// Who the player is
// ---------------------------------------------------------------------------

/// The tables of the results.
#[derive(Default)]
struct Tables {
    sessions: Vec<SessionRow>,
    drivers: Vec<DriverRow>,
    known: Vec<Identity>,
}

impl Tables {
    fn session(&mut self, setting: Option<&str>, drivers: &[(&str, bool)]) -> i64 {
        let id = self.sessions.len() as i64 + 1;
        self.sessions.push(SessionRow { id, setting: setting.map(|s| s.to_string()) });
        for (name, is_player) in drivers {
            let driver = self.drivers.len() as i64 + 1;
            self.drivers.push(imported_driver(driver, id, name.to_string(), *is_player));
        }
        id
    }

    /// An online result: every driver is marked as human.
    fn online(&mut self) -> i64 {
        self.session(
            Some("Multiplayer"),
            &[("Yerin Kim", true), ("Mirco Gyr", true), ("Bas Beets", true)],
        )
    }

    /// An offline result: one human.
    fn offline(&mut self) -> i64 {
        self.session(Some("Race Weekend"), &[("Robin Frijns", false), ("Mirco Gyr", true)])
    }

    /// An online race of `regulars` and one driver unique to it.
    fn race(&mut self, unique: &str, regulars: &[&str]) -> i64 {
        let mut drivers: Vec<(&str, bool)> = regulars.iter().map(|n| (*n, true)).collect();
        drivers.push((unique, true));
        self.session(Some("Multiplayer"), &drivers)
    }

    fn import(&mut self) -> usize {
        let known = std::mem::take(&mut self.known);
        let (known, resolution) = identify_player(&self.sessions, &mut self.drivers, known);
        self.known = known;
        resolution.changed
    }

    fn us(&self) -> Vec<&str> {
        let mut names: Vec<&str> =
            self.drivers.iter().filter(|d| d.is_self).map(|d| d.name.as_str()).collect();
        names.sort();
        names
    }

    fn identities(&self) -> Vec<(&str, &str)> {
        self.known.iter().map(|i| (i.name.as_str(), i.source.as_str())).collect()
    }
}

#[test]
fn an_unknown_player_leaves_no_one_flagged_in_a_multiplayer_result() {
    let mut t = Tables::default();
    t.online();
    t.import();
    assert!(t.us().is_empty());
}

#[test]
fn the_offline_result_identifies_the_player_in_the_online_one() {
    let mut t = Tables::default();
    t.online();
    t.offline();
    t.import();
    assert_eq!(t.us(), vec!["Mirco Gyr", "Mirco Gyr"]);
}

#[test]
fn learning_the_name_later_repairs_an_already_imported_online_race() {
    let mut t = Tables::default();
    t.online();
    t.import();
    assert!(t.us().is_empty());

    t.offline();
    t.import();
    assert_eq!(t.us(), vec!["Mirco Gyr", "Mirco Gyr"]);
}

#[test]
fn an_online_result_never_teaches_us_a_name() {
    let mut t = Tables::default();
    t.online();
    t.import();
    assert_eq!(t.known.len(), 0, "20 humans all flagged isPlayer is not evidence");
}

#[test]
fn a_history_of_only_online_races_still_reveals_the_player() {
    let mut t = Tables::default();
    for stranger in ["Ann", "Bob", "Cid"] {
        t.race(stranger, &["Mirco Gyr"]);
    }
    t.import();
    assert_eq!(t.identities(), vec![("Mirco Gyr", "derived")]);
    assert_eq!(t.us(), vec!["Mirco Gyr"; 3]);
}

#[test]
fn two_races_are_not_enough_to_call_it() {
    let mut t = Tables::default();
    for stranger in ["Ann", "Bob"] {
        t.race(stranger, &["Mirco Gyr"]);
    }
    t.import();
    assert_eq!(t.known.len(), 0, "a shared opponent across two races proves nothing");
}

#[test]
fn a_second_ever_present_driver_makes_it_abstain() {
    let mut t = Tables::default();
    for stranger in ["Ann", "Bob", "Cid"] {
        t.race(stranger, &["Mirco Gyr", "League Regular"]);
    }
    t.import();
    assert_eq!(t.known.len(), 0, "a tie must not be broken by guessing");
}

#[test]
fn real_evidence_replaces_a_guess() {
    let mut t = Tables::default();
    // Three online races whose only constant is someone else entirely.
    for stranger in ["Ann", "Bob", "Cid"] {
        t.race(stranger, &["League Regular"]);
    }
    t.import();
    assert_eq!(t.us(), vec!["League Regular"; 3], "the guess stands alone");

    // An offline result names us for real.
    t.offline();
    t.import();
    assert_eq!(t.identities(), vec![("Mirco Gyr", "xml")]);
    // And the online sessions lose the wrongly flagged regular.
    assert_eq!(t.us(), vec!["Mirco Gyr"]);
}

#[test]
fn an_offline_session_marks_the_one_human_as_us() {
    let mut t = Tables::default();
    t.offline();
    t.import();
    assert_eq!(t.us(), vec!["Mirco Gyr"]);
}

#[test]
fn a_session_without_a_setting_is_judged_by_its_humans() {
    let mut t = Tables::default();
    t.session(None, &[("A", true), ("B", true)]);
    t.session(None, &[("C", true), ("D", false)]);
    t.import();
    assert_eq!(t.identities(), vec![("C", "xml")]);
    assert_eq!(t.us(), vec!["C"]);
}

#[test]
fn a_second_pass_changes_nothing() {
    let mut t = Tables::default();
    t.online();
    t.offline();
    assert_eq!(t.import(), 2, "two strangers lose their mark");
    let known: Vec<(String, String)> =
        t.known.iter().map(|i| (i.name.clone(), i.source.clone())).collect();
    assert_eq!(t.import(), 0);
    let again: Vec<(String, String)> =
        t.known.iter().map(|i| (i.name.clone(), i.source.clone())).collect();
    assert_eq!(known, again);
}

/// A guess that an offline result confirms is evidence from then on, and stays with
/// the other names that have it.
#[test]
fn a_guess_that_a_result_confirms_is_evidence() {
    let mut t = Tables::default();
    t.session(Some("Race Weekend"), &[("A", true)]);
    t.session(Some("Race Weekend"), &[("B", true)]);
    let guess = |name: &str| Identity { name: name.to_string(), source: "derived".to_string() };
    let rows = |known: &Vec<Identity>| -> Vec<(String, String)> {
        known.iter().map(|i| (i.name.clone(), i.source.clone())).collect()
    };
    let both = vec![("A".to_string(), "xml".to_string()), ("B".to_string(), "xml".to_string())];
    let once = learn_player_identities(&t.sessions, &t.drivers, vec![guess("A")]);
    assert_eq!(rows(&once), both);
    let twice = learn_player_identities(&t.sessions, &t.drivers, once);
    assert_eq!(rows(&twice), both);
    // A guess that nothing confirms goes.
    let other = learn_player_identities(&t.sessions, &t.drivers, vec![guess("C")]);
    assert_eq!(rows(&other), both);
}

#[test]
fn sessions_without_us_are_counted() {
    let mut t = Tables::default();
    t.online();
    t.race("Ann", &["Bob"]);
    let known = vec![Identity { name: "Bob".to_string(), source: "live".to_string() }];
    let (_, resolution) = identify_player(&t.sessions, &mut t.drivers, known);
    assert_eq!(resolution.sessions_without_us, 1);
    assert_eq!(t.us(), vec!["Bob"]);
}

// ---------------------------------------------------------------------------
// Anchors
// ---------------------------------------------------------------------------

fn candidate(driver_id: i64, key: &str, hits: i64, misses: i64) -> AnchorCandidate {
    AnchorCandidate { driver_id, session_key: key.into(), hits, misses }
}

#[test]
fn the_anchor_follows_the_weight_of_the_evidence() {
    // A contradicted candidate loses to a clean one, however many laps it
    // happened to agree on.
    let (anchors, rejected) =
        choose_anchors(vec![candidate(1, "s1", 3, 0), candidate(2, "s1", 4, 1)]);
    assert_eq!(anchors, vec![("s1".to_string(), 1)]);
    assert!(rejected.is_empty());

    // Two clean candidates that fit equally well: no pick, and it says so.
    let (anchors, rejected) =
        choose_anchors(vec![candidate(1, "s2", 2, 0), candidate(2, "s2", 2, 0)]);
    assert!(anchors.is_empty());
    assert_eq!(rejected.len(), 1);
    assert_eq!(rejected[0].0, "s2");

    // Nothing agrees at all.
    let (anchors, rejected) = choose_anchors(vec![candidate(1, "s3", 0, 5)]);
    assert!(anchors.is_empty());
    assert_eq!(rejected.len(), 1);

    // One result, two captures claiming it — a restart. The fuller one wins.
    let (anchors, rejected) =
        choose_anchors(vec![candidate(1, "restarted", 2, 0), candidate(1, "finished", 9, 0)]);
    assert_eq!(anchors, vec![("finished".to_string(), 1)]);
    assert_eq!(rejected.len(), 1);
    assert_eq!(rejected[0].0, "restarted");
}

#[test]
fn a_rejected_capture_says_why() {
    let (anchors, rejected) = choose_anchors(vec![
        candidate(1, "b", 2, 0),
        candidate(1, "a", 2, 0),
        candidate(7, "z", 0, 1),
        candidate(3, "w", 4, 0),
        candidate(3, "v", 1, 0),
        candidate(5, "t", 2, 0),
        candidate(6, "t", 2, 0),
    ]);
    assert_eq!(anchors, vec![("w".to_string(), 3)]);
    assert_eq!(
        rejected,
        vec![
            ("a".to_string(), "two captures fit the same result".to_string()),
            ("b".to_string(), "two captures fit the same result".to_string()),
            ("t".to_string(), "two results fit it equally well".to_string()),
            (
                "v".to_string(),
                "another capture matches the same result more closely".to_string()
            ),
            ("z".to_string(), "no result has laps with these times".to_string()),
        ]
    );
}

/// The order in which candidates come does not matter.
#[test]
fn anchors_do_not_depend_on_the_order_of_candidates() {
    let all = || {
        vec![
            candidate(1, "a", 3, 0),
            candidate(2, "b", 5, 0),
            candidate(1, "b", 2, 0),
            candidate(2, "c", 4, 0),
            candidate(3, "d", 1, 1),
        ]
    };
    let expected = choose_anchors(all());
    assert_eq!(expected.0, vec![("a".to_string(), 1), ("b".to_string(), 2)]);
    let n = all().len();
    for shift in 0..n {
        let mut cs = all();
        cs.rotate_left(shift);
        assert_eq!(choose_anchors(cs), expected);
        let mut cs = all();
        cs.rotate_left(shift);
        cs.reverse();
        assert_eq!(choose_anchors(cs), expected);
    }
}

#[test]
fn shared_laps_are_weighed_by_driver_and_session() {
    let lap = |driver_id, key: &str, agrees| SharedLap {
        driver_id,
        session_key: key.to_string(),
        agrees,
    };
    let cs = anchor_candidates(&vec![
        lap(1, "s", true),
        lap(2, "s", false),
        lap(1, "s", true),
        lap(1, "t", true),
        lap(1, "s", false),
    ]);
    assert_eq!(
        cs,
        vec![candidate(1, "s", 2, 1), candidate(2, "s", 0, 1), candidate(1, "t", 1, 0)]
    );
}

#[test]
fn a_capture_that_no_result_mentions_is_named() {
    let captured = vec![("a".to_string(), 3), ("b".to_string(), 4), ("c".to_string(), 12)];
    let anchors = vec![("a".to_string(), 1)];
    let rejected = vec![("b".to_string(), "why".to_string())];
    assert_eq!(
        unanchored_sessions(&captured, &anchors, rejected),
        vec![
            ("b".to_string(), "why".to_string()),
            (
                "c".to_string(),
                "no imported result mentions us with these 12 laps".to_string()
            ),
        ]
    );
}

// ---------------------------------------------------------------------------
// Backfill
// ---------------------------------------------------------------------------

const KEY: &str = "10/Monza/Race";

fn double(x: f64) -> Double {
    Double { bits: x.to_bits() }
}

fn number(x: Option<Double>) -> Option<f64> {
    x.map(|d| f64::from_bits(d.bits))
}

fn nothing() -> Consumables {
    Consumables {
        fuel_level: None,
        fuel_used: None,
        ve_level: None,
        ve_used: None,
        tw_fl: None,
        tw_fr: None,
        tw_rl: None,
        tw_rr: None,
    }
}

fn everything(fuel: f64, used: f64, wear: f64) -> Consumables {
    Consumables {
        fuel_level: Some(double(fuel)),
        fuel_used: Some(double(used)),
        ve_level: None,
        ve_used: None,
        tw_fl: Some(double(wear)),
        tw_fr: Some(double(wear)),
        tw_rl: Some(double(wear)),
        tw_rr: Some(double(wear)),
    }
}

/// Whether two times are those of the same lap.
fn same_time(p: &TimePair) -> bool {
    (f64::from_bits(p.result_time.bits) - f64::from_bits(p.live_time.bits)).abs() <= 0.05
}

/// A database with laps and captures.
#[derive(Default)]
struct Race {
    tables: Tables,
    laps: Vec<LapRow>,
    lives: Vec<LiveLap>,
    field: Vec<LiveDriverLap>,
    unanchored: Vec<(String, String)>,
}

impl Race {
    fn lap(&mut self, driver_id: i64, lap_num: i64, time: Option<f64>, used: Consumables) {
        self.laps.push(LapRow { driver_id, lap_num, lap_time: time.map(double), used });
    }

    /// The online result with its laps; lap 3 of ours has no time.
    fn online(&mut self) {
        let first = self.tables.drivers.len() as i64 + 1;
        self.tables.online();
        self.lap(first, 1, Some(95.1), nothing());
        self.lap(first, 2, Some(94.2), nothing());
        self.lap(first + 1, 1, Some(95.5), nothing());
        self.lap(first + 1, 2, Some(94.0), nothing());
        self.lap(first + 1, 3, None, nothing());
        self.lap(first + 2, 1, Some(96.8), nothing());
    }

    /// The offline result with its laps, which has numbers of its own.
    fn offline(&mut self) {
        let first = self.tables.drivers.len() as i64 + 1;
        self.tables.offline();
        self.lap(first, 1, Some(108.0), everything(0.900, 0.030, 0.98));
        self.lap(first + 1, 1, Some(109.0), everything(0.880, 0.040, 0.96));
    }

    fn live(&mut self, key: &str, lap_num: i64, time: f64, fuel: f64, wear: f64) {
        self.lives.push(LiveLap {
            session_key: key.to_string(),
            player_name: "Mirco Gyr".to_string(),
            lap_num,
            lap_time: Some(double(time)),
            used: everything(fuel, 0.03, wear),
        });
        // Driving online tells us our own name.
        if !self.tables.known.iter().any(|i| i.name == "Mirco Gyr") {
            let us = Identity { name: "Mirco Gyr".to_string(), source: "live".to_string() };
            self.tables.known.push(us);
        }
    }

    fn rival(&mut self, name: &str, lap_num: i64, ve: f64, ve_used: Option<f64>) {
        self.field.push(LiveDriverLap {
            session_key: KEY.to_string(),
            driver_name: name.to_string(),
            lap_num,
            ve_level: Some(double(ve)),
            ve_used: ve_used.map(double),
        });
    }

    fn import(&mut self) -> BackfillCounts {
        self.tables.import();
        let pairs = times_to_compare(&self.tables.drivers, &self.laps, &self.lives);
        let agree = pairs.iter().map(same_time).collect();
        let done = backfill_live_laps(
            &mut self.laps,
            &self.lives,
            &self.field,
            &self.tables.drivers,
            &pairs,
            &agree,
        );
        self.unanchored = done.unanchored;
        done.counts
    }

    fn driver(&self, id: i64) -> &DriverRow {
        self.tables.drivers.iter().find(|d| d.id == id).unwrap()
    }

    fn online_session(&self, id: i64) -> bool {
        let s = self.tables.sessions.iter().find(|s| s.id == id).unwrap();
        s.setting.as_deref() == Some("Multiplayer")
    }

    /// Our laps of online sessions: number, fuel and wear of one tire.
    fn our_online_laps(&self) -> Vec<(i64, Option<f64>, Option<f64>)> {
        self.laps
            .iter()
            .filter(|l| {
                let d = self.driver(l.driver_id);
                d.is_self && self.online_session(d.session_id)
            })
            .map(|l| (l.lap_num, number(l.used.fuel_level), number(l.used.tw_fl)))
            .collect()
    }
}

/// An online result is correct data: resolving never edits it on its way through.
#[test]
fn an_online_result_is_preserved_exactly_as_the_game_wrote_it() {
    let mut r = Race::default();
    r.online();
    r.import();
    // Import again after the player becomes known.
    r.offline();
    r.import();

    // The rows stand in the order of the positions.
    let standings: Vec<(&str, usize, bool, usize)> = r
        .tables
        .drivers
        .iter()
        .filter(|d| r.online_session(d.session_id))
        .enumerate()
        .map(|(k, d)| {
            let laps = r.laps.iter().filter(|l| l.driver_id == d.id).count();
            (d.name.as_str(), k + 1, d.is_player, laps)
        })
        .collect();
    assert_eq!(
        standings,
        vec![("Yerin Kim", 1, true, 2), ("Mirco Gyr", 2, true, 3), ("Bas Beets", 3, true, 1)],
        "positions, lap counts and the human flag all stand as imported"
    );
    let times: Vec<Option<f64>> = r.laps.iter().map(|l| number(l.lap_time)).collect();
    assert_eq!(
        times,
        vec![
            Some(95.1),
            Some(94.2),
            Some(95.5),
            Some(94.0),
            None,
            Some(96.8),
            Some(108.0),
            Some(109.0),
        ]
    );
    // Only the derived column singles us out.
    assert_eq!(r.tables.us(), vec!["Mirco Gyr", "Mirco Gyr"]);
}

/// The rivals' virtual energy rides on the anchor our own laps establish.
#[test]
fn live_capture_fills_the_virtual_energy_of_the_rest_of_the_field() {
    let mut r = Race::default();
    r.online();
    // Our own laps — without them nothing anchors.
    r.live(KEY, 1, 95.5, 0.77, 0.98);
    r.live(KEY, 2, 94.0, 0.74, 0.96);
    r.live(KEY, 3, 94.5, 0.71, 0.94);

    r.rival("Yerin Kim", 1, 0.92, Some(0.08));
    r.rival("Yerin Kim", 2, 0.84, Some(0.08));
    r.rival("Bas Beets", 1, 0.90, None);
    // A capture for someone this result never mentions is simply unused.
    r.rival("Ghost Driver", 1, 0.50, None);

    let counts = r.import();
    assert_eq!(counts, BackfillCounts { own_laps: 3, field_laps: 3 });

    let mut rows: Vec<(String, i64, Option<f64>, Option<f64>)> = r
        .laps
        .iter()
        .filter(|l| !r.driver(l.driver_id).is_self)
        .map(|l| {
            (
                r.driver(l.driver_id).name.clone(),
                l.lap_num,
                number(l.used.ve_level),
                number(l.used.ve_used),
            )
        })
        .collect();
    rows.sort_by(|a, b| (&a.0, a.1).cmp(&(&b.0, b.1)));
    assert_eq!(
        rows,
        vec![
            ("Bas Beets".into(), 1, Some(0.90), None),
            ("Yerin Kim".into(), 1, Some(0.92), Some(0.08)),
            ("Yerin Kim".into(), 2, Some(0.84), Some(0.08)),
        ]
    );
    // Our own laps still get everything, not just the energy.
    assert_eq!(r.our_online_laps()[0].1, Some(0.77));
}

/// Two entries under one name cannot be told apart.
#[test]
fn a_name_held_by_two_entries_is_left_alone() {
    let mut r = Race::default();
    r.tables.session(
        Some("Multiplayer"),
        &[("Mirco Gyr", true), ("Yerin Kim", true), ("Yerin Kim", true)],
    );
    r.lap(1, 1, Some(95.5), nothing());
    r.lap(1, 2, Some(94.0), nothing());
    r.lap(2, 1, Some(95.1), nothing());
    r.lap(3, 1, Some(96.8), nothing());

    r.live(KEY, 1, 95.5, 0.77, 0.98);
    r.live(KEY, 2, 94.0, 0.74, 0.96);
    r.rival("Yerin Kim", 1, 0.92, Some(0.08));
    r.import();

    let filled = r
        .laps
        .iter()
        .filter(|l| r.driver(l.driver_id).name == "Yerin Kim" && l.used.ve_level.is_some())
        .count();
    assert_eq!(filled, 0, "an ambiguous name is not guessed at");
    // …and the session did anchor.
    let ours = r
        .laps
        .iter()
        .filter(|l| r.driver(l.driver_id).is_self && l.used.fuel_level.is_some())
        .count();
    assert_eq!(ours, 2, "our own laps were filled from the same anchor");
}

#[test]
fn live_capture_fills_the_online_laps_the_xml_left_empty() {
    let mut r = Race::default();
    r.online();
    r.offline();
    r.live(KEY, 1, 95.5, 0.77, 0.98);
    r.live(KEY, 2, 94.0, 0.74, 0.96);
    r.live(KEY, 3, 94.5, 0.71, 0.94);
    r.import();
    assert_eq!(
        r.our_online_laps(),
        vec![
            (1, Some(0.77), Some(0.98)),
            (2, Some(0.74), Some(0.96)),
            (3, Some(0.71), Some(0.94)),
        ]
    );
}

/// One old lap within the tolerance must not cost us the whole session.
#[test]
fn a_coincidence_in_our_own_history_does_not_block_the_match() {
    let mut r = Race::default();
    r.online();
    r.offline();
    let old = r.tables.drivers.len() as i64 + 1;
    r.tables.session(Some("Race Weekend"), &[("Mirco Gyr", true)]);
    let mut used = nothing();
    used.fuel_level = Some(double(0.910));
    used.fuel_used = Some(double(0.030));
    r.lap(old, 1, Some(95.52), used);
    used.fuel_level = Some(double(0.880));
    r.lap(old, 2, Some(99.0), used);

    r.live(KEY, 1, 95.5, 0.77, 0.98);
    r.live(KEY, 2, 94.0, 0.74, 0.96);
    r.live(KEY, 3, 94.5, 0.71, 0.94);
    r.import();

    let filled = r.our_online_laps().iter().filter(|l| l.1.is_some()).count();
    assert_eq!(filled, 3, "one stray old lap time is not a rival session");
    // And the old session keeps the numbers the game exported for it.
    let first = r.laps.iter().find(|l| l.driver_id == old && l.lap_num == 1).unwrap();
    assert_eq!(number(first.used.fuel_level), Some(0.910));
}

#[test]
fn a_live_lap_is_not_pinned_on_another_drivers_lap() {
    let mut r = Race::default();
    r.online();
    r.offline();
    r.live(KEY, 1, 95.5, 0.77, 0.98);
    r.import();
    let filled_for_others = r
        .laps
        .iter()
        .filter(|l| {
            let d = r.driver(l.driver_id);
            !d.is_self && l.used.fuel_level.is_some() && d.name != "Robin Frijns"
        })
        .count();
    assert_eq!(filled_for_others, 0);
}

#[test]
fn a_lap_time_mismatch_blocks_the_match() {
    let mut r = Race::default();
    r.online();
    r.offline();
    // Right lap number, wrong lap: with no agreeing lap time there is no anchor,
    // so lap 3 stays empty too.
    r.live(KEY, 1, 88.0, 0.77, 0.98);
    r.live(KEY, 3, 94.5, 0.71, 0.94);
    r.import();
    let online: Vec<&LapRow> = r
        .laps
        .iter()
        .filter(|l| r.online_session(r.driver(l.driver_id).session_id))
        .collect();
    assert_eq!(online.len(), 6);
    let filled = online.iter().filter(|l| l.used.fuel_level.is_some()).count();
    assert_eq!(filled, 0);
    assert_eq!(
        r.unanchored,
        vec![(KEY.to_string(), "no result has laps with these times".to_string())]
    );
}

/// What neither the result nor the capture knows stays empty.
#[test]
fn a_column_that_was_not_captured_stays_empty() {
    let mut r = Race::default();
    r.online();
    r.live(KEY, 1, 95.5, 0.77, 0.98);
    r.live(KEY, 2, 94.0, 0.74, 0.96);
    r.lives[0].used.fuel_used = None;
    r.lives[0].used.tw_rr = None;
    r.rival("Mirco Gyr", 1, 0.92, Some(0.08));
    r.import();
    let lap = r.laps.iter().find(|l| l.driver_id == 2 && l.lap_num == 1).unwrap();
    assert_eq!(number(lap.used.fuel_level), Some(0.77));
    assert_eq!(number(lap.used.tw_fl), Some(0.98));
    assert_eq!(lap.used.fuel_used, None);
    assert_eq!(lap.used.tw_rr, None);
    // A lap that was not captured at all keeps its gaps.
    let third = r.laps.iter().find(|l| l.driver_id == 2 && l.lap_num == 3).unwrap();
    assert_eq!(number(third.used.fuel_level), None);
}

#[test]
fn a_capture_of_another_track_is_left_over() {
    let mut r = Race::default();
    r.offline();
    r.live("10/Spa/Race", 4, 130.0, 0.5, 0.9);
    r.live("10/Spa/Race", 5, 131.0, 0.4, 0.9);
    assert_eq!(captured_sessions(&r.lives), vec![("10/Spa/Race".to_string(), 2)]);
    assert_eq!(r.import(), BackfillCounts { own_laps: 0, field_laps: 0 });
    assert_eq!(
        r.unanchored,
        vec![(
            "10/Spa/Race".to_string(),
            "no imported result mentions us with these 2 laps".to_string()
        )]
    );
}

#[test]
fn the_games_own_offline_numbers_are_never_overwritten() {
    let mut r = Race::default();
    r.offline();
    // A live capture of the same lap that disagrees with the export.
    let mut used = nothing();
    used.fuel_level = Some(double(0.111));
    used.fuel_used = Some(double(0.222));
    used.tw_fl = Some(double(0.333));
    r.live("10/Sebring/Race", 1, 109.0, 0.0, 0.0);
    r.lives[0].used = used;
    r.import();

    let ours = r.laps.iter().find(|l| r.driver(l.driver_id).is_self).unwrap();
    let got = (
        number(ours.used.fuel_level),
        number(ours.used.fuel_used),
        number(ours.used.tw_fl),
    );
    assert_eq!(got, (Some(0.880), Some(0.040), Some(0.96)));
}

#[test]
fn a_second_backfill_changes_no_lap() {
    let mut r = Race::default();
    r.online();
    r.live(KEY, 1, 95.5, 0.77, 0.98);
    r.live(KEY, 3, 94.5, 0.71, 0.94);
    r.rival("Bas Beets", 1, 0.90, None);
    let first = r.import();
    assert_eq!(first, BackfillCounts { own_laps: 2, field_laps: 1 });
    let laps = r.laps.clone();
    r.import();
    assert_eq!(r.laps, laps);
}

/// Laps are compared where we drove them, under the same name and number, and both
/// sides know a time.
#[test]
fn only_laps_that_may_be_the_same_are_compared() {
    let driver = |id, name: &str, is_self| DriverRow {
        id,
        session_id: 1,
        name: name.to_string(),
        is_player: true,
        is_self,
    };
    let lap = |driver_id, lap_num, time: Option<f64>| LapRow {
        driver_id,
        lap_num,
        lap_time: time.map(double),
        used: nothing(),
    };
    let live = |key: &str, name: &str, lap_num, time: Option<f64>| LiveLap {
        session_key: key.to_string(),
        player_name: name.to_string(),
        lap_num,
        lap_time: time.map(double),
        used: nothing(),
    };
    let drivers = vec![driver(1, "A", true), driver(2, "A", false), driver(3, "B", true)];
    let laps = vec![
        lap(1, 1, Some(90.0)),
        lap(1, 2, None),
        lap(2, 1, Some(91.0)),
        lap(3, 1, Some(92.0)),
        lap(1, 3, Some(93.0)),
    ];
    let lives = vec![
        live("x", "A", 1, Some(90.5)),
        live("y", "A", 1, Some(95.0)),
        live("x", "A", 2, Some(96.0)),
        live("x", "A", 3, None),
        live("x", "C", 1, Some(90.0)),
    ];
    let pairs = times_to_compare(&drivers, &laps, &lives);
    let found: Vec<(i64, &str, f64, f64)> = pairs
        .iter()
        .map(|p| {
            (
                p.driver_id,
                p.session_key.as_str(),
                f64::from_bits(p.result_time.bits),
                f64::from_bits(p.live_time.bits),
            )
        })
        .collect();
    assert_eq!(found, vec![(1, "x", 90.0, 90.5), (1, "y", 90.0, 95.0)]);
    let shared = shared_laps(&pairs, &vec![true, false]);
    assert_eq!(shared.len(), 2);
    assert_eq!((shared[0].driver_id, shared[0].session_key.as_str()), (1, "x"));
    assert!(shared[0].agrees && !shared[1].agrees);
}

/// Our own laps get all of it: energy that a result lacks is filled although its fuel
/// and tires are there, and counts only where the capture has some.
#[test]
fn missing_energy_of_our_own_lap_is_filled() {
    let mut r = Race::default();
    r.offline();
    r.live(KEY, 1, 108.0, 0.5, 0.5);
    let ours = r.tables.drivers.iter().position(|d| d.is_player).unwrap() as i64 + 1;
    let row = r.laps.iter().position(|l| l.driver_id == ours).unwrap();
    let time = f64::from_bits(r.laps[row].lap_time.unwrap().bits);
    r.lives[0].lap_time = Some(double(time));
    let before = r.laps[row];
    assert_eq!(r.import(), BackfillCounts { own_laps: 0, field_laps: 0 });
    assert_eq!(r.laps[row], before);

    r.lives[0].used.ve_level = Some(double(0.6));
    assert_eq!(r.import(), BackfillCounts { own_laps: 1, field_laps: 0 });
    assert_eq!(number(r.laps[row].used.ve_level), Some(0.6));
    assert_eq!(r.laps[row].used.ve_used, None);
    assert_eq!(r.laps[row].used.fuel_level, before.used.fuel_level);
    assert_eq!(r.import(), BackfillCounts { own_laps: 0, field_laps: 0 });
}

/// A folder that links to itself is read a bounded number of times.
#[test]
fn the_scan_ends_on_a_folder_that_holds_itself() {
    let mut scan = scan_results_folder("r");
    let mut reads = 0;
    let mut folder = Some("r".to_string());
    while folder.is_some() {
        reads += 1;
        assert!(reads <= MAX_SCAN_DEPTH + 1);
        let again = FolderEntry { path: "r".to_string(), name: "r".to_string(), is_dir: true };
        let file = FolderEntry {
            path: "r/a.xml".to_string(),
            name: "a.xml".to_string(),
            is_dir: false,
        };
        folder = scan.listed(vec![again, file]);
    }
    assert_eq!(reads, MAX_SCAN_DEPTH + 1);
    assert_eq!(scan.into_results().len(), MAX_SCAN_DEPTH + 1);

    let mut scan = scan_results_folder("missing");
    assert!(scan.listed(Vec::new()).is_none());
    assert!(scan.into_results().is_empty());
}
