//! Versions: which of two is older, whether a running bridge gives way, and
//! whether there is a newer release.

use vstd::prelude::*;

use crate::config::Mode;
use crate::protocol::messages::ServerMessage;
use crate::text;

verus! {

// ---------------------------------------------------------------------------
// Comparing versions
// ---------------------------------------------------------------------------

/// A part of a version as a number; zero where it is none.
pub open spec fn part(parts: Seq<Seq<char>>, i: int) -> int {
    if i < parts.len() {
        match text::parse_unsigned(parts[i], u32::MAX as int) {
            Some(n) => n,
            None => 0,
        }
    } else {
        0
    }
}

/// The three numbers of a version `MAJOR.MINOR.PATCH`.
pub open spec fn numbers(v: Seq<char>) -> (int, int, int) {
    let parts = text::split(v, '.');
    (part(parts, 0), part(parts, 1), part(parts, 2))
}

/// Whether version `a` is older than version `b`.
pub open spec fn older(a: Seq<char>, b: Seq<char>) -> bool {
    let (x, y) = (numbers(a), numbers(b));
    x.0 < y.0 || (x.0 == y.0 && (x.1 < y.1 || (x.1 == y.1 && x.2 < y.2)))
}

/// A part of a version as a number; zero where it is none.
fn part_of(parts: &Vec<Vec<char>>, i: usize) -> (n: u64)
    ensures
        n == part(text::texts(parts@), i as int),
{
    if i < parts.len() {
        proof {
            assert(text::texts(parts@)[i as int] == parts@[i as int]@);
        }
        match text::parse_number(&parts[i], u32::MAX as u64) {
            Some(n) => n,
            None => 0,
        }
    } else {
        0
    }
}

/// The three numbers of a version.
fn numbers_of(v: &str) -> (r: (u64, u64, u64))
    ensures
        (r.0 as int, r.1 as int, r.2 as int) == numbers(v@),
{
    let chars = text::chars_of(v);
    let parts = text::split_on(&chars, '.');
    (part_of(&parts, 0), part_of(&parts, 1), part_of(&parts, 2))
}

/// Whether version `a` is strictly older than version `b`. Parts that are no
/// numbers count as zero.
pub fn version_older(a: &str, b: &str) -> (r: bool)
    ensures
        r == older(a@, b@),
{
    let x = numbers_of(a);
    let y = numbers_of(b);
    x.0 < y.0 || (x.0 == y.0 && (x.1 < y.1 || (x.1 == y.1 && x.2 < y.2)))
}

/// Being older is a strict order: no version is older than itself, of two at most
/// one is the older, and what is older than an older one is older.
pub proof fn law_older_is_a_strict_order(a: Seq<char>, b: Seq<char>, c: Seq<char>)
    ensures
        !older(a, a),
        older(a, b) ==> !older(b, a),
        older(a, b) && older(b, c) ==> older(a, c),
{
}

// ---------------------------------------------------------------------------
// One bridge at a time
// ---------------------------------------------------------------------------

/// What a bridge does that finds, or does not find, its port in use.
#[derive(Debug, Clone, Copy, PartialEq, Eq, Structural)]
pub enum Guard {
    /// Start.
    Start,
    /// Ask the running bridge to stop, and start when it has.
    TakeOver,
    /// Leave; a bridge that is as new is running.
    Leave,
}

/// What a bridge of version `ours` does. `running` is the version of the bridge
/// that answers on the port, if it could be read. Only a local bridge gives way: a
/// relay that finds its port taken fails loudly, and an agent may share a machine.
pub fn instance_guard(mode: Mode, port_in_use: bool, running: Option<&str>, ours: &str) -> (g:
    Guard)
    ensures
        g == (if mode != Mode::Local || !port_in_use {
            Guard::Start
        } else if running matches Some(v) && older(v@, ours@) {
            Guard::TakeOver
        } else {
            Guard::Leave
        }),
{
    if mode != Mode::Local || !port_in_use {
        return Guard::Start;
    }
    match running {
        Some(v) => if version_older(v, ours) {
            Guard::TakeOver
        } else {
            Guard::Leave
        },
        None => Guard::Leave,
    }
}

/// What a bridge does that waits for another to stop.
#[derive(Debug, Clone, Copy, PartialEq, Eq, Structural)]
pub enum TakeOver {
    /// The port is free: start.
    Start,
    /// Look again.
    Wait,
    /// The other did not stop in time: leave.
    GiveUp,
}

/// How long a bridge waits for another to stop, in nanoseconds.
pub const TAKE_OVER_WAIT: u64 = 5_000_000_000;

/// What a bridge does that has waited for `waited` nanoseconds.
pub fn take_over(port_free: bool, waited: u64) -> (t: TakeOver)
    ensures
        t == (if port_free {
            TakeOver::Start
        } else if waited >= TAKE_OVER_WAIT {
            TakeOver::GiveUp
        } else {
            TakeOver::Wait
        }),
{
    if port_free {
        TakeOver::Start
    } else if waited >= TAKE_OVER_WAIT {
        TakeOver::GiveUp
    } else {
        TakeOver::Wait
    }
}

/// A bridge never makes one of its own version, or a newer one, give way.
pub proof fn law_a_newer_bridge_is_not_replaced(running: Seq<char>, ours: Seq<char>)
    requires
        older(ours, running) || numbers(ours) == numbers(running),
    ensures
        !older(running, ours),
{
}

// ---------------------------------------------------------------------------
// Releases
// ---------------------------------------------------------------------------

/// The text at a member of a JSON object, as `serde_json` reads it: nothing where
/// the text is no JSON, and no text where there is no such member or it is none.
pub uninterp spec fn json_text(json: Seq<char>, name: Seq<char>) -> Option<Option<Seq<char>>>;

/// `serde_json::from_str` into a `serde_json::Value`, and of that the member of
/// this name as text: none where the input is no JSON, else the member's text, if
/// it is there and is text. How JSON is read is not stated.
#[verifier::external_body]
fn json_member(json: &str, name: &str) -> (r: Option<Option<String>>)
    ensures
        match r {
            Some(Some(t)) => json_text(json@, name@) == Some(Some(t@)),
            Some(None) => json_text(json@, name@) == Some(None::<Seq<char>>),
            None => json_text(json@, name@) is None,
        },
{
    match serde_json::from_str::<serde_json::Value>(json) {
        Ok(value) => Some(value[name].as_str().map(str::to_owned)),
        Err(_) => None,
    }
}

/// The version of the bridge that gave this answer, if it says one.
pub fn running_version(answer: &str) -> (v: Option<String>)
    ensures
        match v {
            Some(t) => json_text(answer@, "version"@) == Some(Some(t@)),
            None => !(json_text(answer@, "version"@) matches Some(Some(_))),
        },
{
    match json_member(answer, "version") {
        Some(v) => v,
        None => None,
    }
}

/// Why the latest release is not known.
#[derive(Debug, Clone, Copy, PartialEq, Eq, Structural)]
pub enum ReleaseError {
    /// The answer is no JSON.
    NotJson,
    /// The answer has no tag.
    MissingTag,
}

impl ReleaseError {
    /// The error in words.
    pub fn message(&self) -> (s: String)
        ensures
            s@ == (match *self {
                ReleaseError::NotJson => "the GitHub response is not JSON"@,
                ReleaseError::MissingTag => "missing tag_name in GitHub response"@,
            }),
    {
        match self {
            ReleaseError::NotJson => "the GitHub response is not JSON".to_owned(),
            ReleaseError::MissingTag => "missing tag_name in GitHub response".to_owned(),
        }
    }
}

/// The latest release.
#[derive(Debug, Clone, PartialEq, Eq)]
pub struct Release {
    pub version: String,
    /// Where it can be had.
    pub page: String,
}

/// Whether a release is the one with this tag and this page. The tag may begin
/// with a `v`, and the page may be missing.
pub open spec fn is_release(r: Release, tag: Seq<char>, page: Option<Seq<char>>) -> bool {
    r.version@ == text::trim_leading(tag, 'v') && r.page@ == (match page {
        Some(p) => p,
        None => "https://github.com/Swizzjack/lmu-pitwall/releases/latest"@,
    })
}

/// The latest release, out of its tag and its page.
pub fn release_info(tag: Option<String>, page: Option<String>) -> (r: Result<Release, ReleaseError>)
    ensures
        match tag {
            Some(t) => r matches Ok(release) && is_release(release, t@, text::text_of(page)),
            None => r == Err::<Release, _>(ReleaseError::MissingTag),
        },
{
    match tag {
        Some(t) => {
            let page = match page {
                Some(p) => p,
                None => "https://github.com/Swizzjack/lmu-pitwall/releases/latest".to_owned(),
            };
            Ok(Release { version: text::without_leading(&t, 'v'), page })
        },
        None => Err(ReleaseError::MissingTag),
    }
}

/// The latest release, out of what GitHub answers.
pub fn latest_release(answer: &str) -> (r: Result<Release, ReleaseError>)
    ensures
        match (json_text(answer@, "tag_name"@), json_text(answer@, "html_url"@)) {
            (Some(Some(tag)), Some(page)) => r matches Ok(release) && is_release(
                release,
                tag,
                page,
            ),
            (Some(None), Some(_)) => r == Err::<Release, _>(ReleaseError::MissingTag),
            _ => r == Err::<Release, _>(ReleaseError::NotJson),
        },
{
    match (json_member(answer, "tag_name"), json_member(answer, "html_url")) {
        (Some(tag), Some(page)) => release_info(tag, page),
        _ => Err(ReleaseError::NotJson),
    }
}

/// What clients are told about the latest release.
pub fn version_info(current: &str, latest: String, download_url: String) -> (msg: ServerMessage)
    ensures
        msg matches ServerMessage::VersionInfo {
            current_version,
            latest_version,
            download_url: url,
            update_available,
        } && current_version@ == current@ && latest_version == latest && url == download_url
            && update_available == older(current@, latest@),
{
    let update_available = version_older(current, &latest);
    ServerMessage::VersionInfo {
        current_version: current.to_owned(),
        latest_version: latest,
        download_url,
        update_available,
    }
}

// ---------------------------------------------------------------------------
// Laws
// ---------------------------------------------------------------------------

/// A version of three numbers is those numbers, in that order.
pub proof fn law_a_version_is_its_three_numbers(x: int, y: int, z: int)
    requires
        0 <= x <= 0xFFFF_FFFF,
        0 <= y <= 0xFFFF_FFFF,
        0 <= z <= 0xFFFF_FFFF,
    ensures
        numbers(
            text::decimal(x) + seq!['.'] + (text::decimal(y) + seq!['.'] + text::decimal(z)),
        ) == (x, y, z),
        numbers(text::decimal(x) + seq!['.'] + text::decimal(y)) == (x, y, 0int),
        numbers(text::decimal(x)) == (x, 0int, 0int),
{
    let a = text::decimal(x);
    let b = text::decimal(y);
    let c = text::decimal(z);
    text::law_numbers_are_written_in_decimal(x);
    text::law_numbers_are_written_in_decimal(y);
    text::law_numbers_are_written_in_decimal(z);
    text::law_parse_of_decimal(x, 0xFFFF_FFFF);
    text::law_parse_of_decimal(y, 0xFFFF_FFFF);
    text::law_parse_of_decimal(z, 0xFFFF_FFFF);
    text::law_split_at_the_first_separator(a, '.', b + seq!['.'] + c);
    text::law_split_at_the_first_separator(a, '.', b);
    text::law_split_at_the_first_separator(b, '.', c);
    text::law_split_at_the_first_separator(c, '.', Seq::empty());
    assert(seq![a] + (seq![b] + seq![c]) =~= seq![a, b, c]);
    assert(seq![a] + seq![b] =~= seq![a, b]);
    let full = a + seq!['.'] + (b + seq!['.'] + c);
    assert(text::split(full, '.') == seq![a, b, c]);
    assert(text::split(a + seq!['.'] + b, '.') == seq![a, b]);
}

/// Of two versions the older one has the smaller number at the first place where they
/// differ.
pub proof fn law_the_first_number_that_differs_decides(
    x: (int, int, int),
    y: (int, int, int),
    a: Seq<char>,
    b: Seq<char>,
)
    requires
        numbers(a) == x,
        numbers(b) == y,
    ensures
        x.0 < y.0 ==> older(a, b),
        x.0 > y.0 ==> !older(a, b),
        x.0 == y.0 && x.1 < y.1 ==> older(a, b),
        x.0 == y.0 && x.1 > y.1 ==> !older(a, b),
        x.0 == y.0 && x.1 == y.1 ==> (older(a, b) <==> x.2 < y.2),
{
}

/// A part that is no number counts as zero.
pub proof fn law_what_is_no_number_counts_as_zero(parts: Seq<Seq<char>>, i: int, n: int)
    requires
        0 <= i,
    ensures
        i >= parts.len() ==> part(parts, i) == 0,
        i < parts.len() && text::parse_unsigned(parts[i], 0xFFFF_FFFF) is None ==> part(parts, i)
            == 0,
        i < parts.len() && text::parse_unsigned(parts[i], 0xFFFF_FFFF) == Some(n) ==> part(
            parts,
            i,
        ) == n,
{
}

/// Only a local bridge that finds its port in use does not just start: it takes over
/// from an older bridge, and leaves to any other, known or not.
pub proof fn law_only_an_older_bridge_gives_way(
    mode: Mode,
    port_in_use: bool,
    running: Option<&str>,
    ours: &str,
    g: Guard,
)
    requires
        call_ensures(instance_guard, (mode, port_in_use, running, ours), g),
    ensures
        mode != Mode::Local || !port_in_use ==> g == Guard::Start,
        mode == Mode::Local && port_in_use && running is Some && older(running->Some_0@, ours@)
            ==> g == Guard::TakeOver,
        mode == Mode::Local && port_in_use && (running is None || !older(running->Some_0@, ours@))
            ==> g == Guard::Leave,
{
}

/// A bridge that waits for another starts as soon as the port is free, and gives up
/// after five seconds.
pub proof fn law_a_bridge_waits_five_seconds(port_free: bool, waited: u64, t: TakeOver)
    requires
        call_ensures(take_over, (port_free, waited), t),
    ensures
        port_free ==> t == TakeOver::Start,
        !port_free && waited < 5_000_000_000 ==> t == TakeOver::Wait,
        !port_free && waited >= 5_000_000_000 ==> t == TakeOver::GiveUp,
{
}

/// The latest release is its tag without the `v` in front, on its page, or on the page
/// of all releases; without a tag there is none.
pub proof fn law_a_release_is_its_tag(
    n: nat,
    version: Seq<char>,
    tag: Option<String>,
    page: Option<String>,
    r: Result<Release, ReleaseError>,
)
    requires
        call_ensures(release_info, (tag, page), r),
        version.len() > 0 ==> version[0] != 'v',
        tag is Some ==> tag->Some_0@ == Seq::new(n, |i: int| 'v') + version,
    ensures
        tag is None ==> r == Err::<Release, _>(ReleaseError::MissingTag),
        tag is Some ==> r is Ok && r->Ok_0.version@ == version,
        tag is Some && page is Some ==> r->Ok_0.page@ == page->Some_0@,
        tag is Some && page is None ==> r->Ok_0.page@
            == "https://github.com/Swizzjack/lmu-pitwall/releases/latest"@,
{
    text::law_leading_characters_go(n, 'v', version);
}

/// Clients are told of both versions and of the page, and that there is an update
/// exactly where ours is the older one.
pub proof fn law_an_update_is_a_newer_release(
    current: &str,
    latest: String,
    url: String,
    msg: ServerMessage,
)
    requires
        call_ensures(version_info, (current, latest, url), msg),
    ensures
        msg is VersionInfo,
        msg->VersionInfo_current_version@ == current@,
        msg->VersionInfo_latest_version@ == latest@,
        msg->VersionInfo_download_url@ == url@,
        msg->VersionInfo_update_available <==> older(current@, latest@),
{
}

/// Of two versions of three numbers the one whose first different number is smaller is
/// older, however many digits the numbers have.
pub proof fn law_versions_are_compared_by_number(
    a: &str,
    b: &str,
    r: bool,
    x: (int, int, int),
    y: (int, int, int),
)
    requires
        call_ensures(version_older, (a, b), r),
        0 <= x.0 <= 0xFFFF_FFFF && 0 <= x.1 <= 0xFFFF_FFFF && 0 <= x.2 <= 0xFFFF_FFFF,
        0 <= y.0 <= 0xFFFF_FFFF && 0 <= y.1 <= 0xFFFF_FFFF && 0 <= y.2 <= 0xFFFF_FFFF,
        a@ == text::decimal(x.0) + seq!['.'] + (text::decimal(x.1) + seq!['.'] + text::decimal(x.2)),
        b@ == text::decimal(y.0) + seq!['.'] + (text::decimal(y.1) + seq!['.'] + text::decimal(y.2)),
    ensures
        r <==> x.0 < y.0 || (x.0 == y.0 && x.1 < y.1) || (x.0 == y.0 && x.1 == y.1 && x.2 < y.2),
{
    law_a_version_is_its_three_numbers(x.0, x.1, x.2);
    law_a_version_is_its_three_numbers(y.0, y.1, y.2);
    law_the_first_number_that_differs_decides(x, y, a@, b@);
}

/// What went wrong with a release is said in words.
pub proof fn law_release_errors_say_what_is_missing(e: ReleaseError, s: String)
    requires
        call_ensures(ReleaseError::message, (&e,), s),
    ensures
        e is NotJson ==> s@ == "the GitHub response is not JSON"@,
        e is MissingTag ==> s@ == "missing tag_name in GitHub response"@,
{
}

/// The latest release is what its tag and its page say, and an answer without a tag, or
/// that is no object with texts, is an error.
pub proof fn law_the_latest_release_is_read(
    answer: &str,
    r: Result<Release, ReleaseError>,
    tag: Option<String>,
    page: Option<String>,
    info: Result<Release, ReleaseError>,
)
    requires
        call_ensures(latest_release, (answer,), r),
        call_ensures(release_info, (tag, page), info),
        json_text(answer@, "tag_name"@) == Some(text::text_of(tag)),
        json_text(answer@, "html_url"@) == Some(text::text_of(page)),
    ensures
        r is Ok <==> tag is Some,
        r is Ok ==> info is Ok && r->Ok_0.version@ == info->Ok_0.version@ && r->Ok_0.page@
            == info->Ok_0.page@,
        r is Err ==> r->Err_0 is MissingTag,
{
}

/// The version that runs is the text under its name in the answer.
pub proof fn law_the_running_version_is_read(answer: &str, v: Option<String>)
    requires
        call_ensures(running_version, (answer,), v),
    ensures
        v is Some ==> json_text(answer@, "version"@) == Some(Some(v->Some_0@)),
        json_text(answer@, "version"@) is None ==> v is None,
        json_text(answer@, "version"@) is Some && json_text(answer@, "version"@)->Some_0 is Some
            ==> v is Some,
{
}

} // verus!
