//! Release versions: their order, the channel rules and the bookkeeping of
//! update checks.
use vstd::prelude::*;

use crate::config::{Cache, Channel, Updates};
use crate::numeric::{parse_u64, parse_u64_chars};
use crate::order::{text_less, text_lt};
use crate::text::{
    after_first, before_first, chars_of, split_chars, split_on, split_once_chars, strip_leading,
    strip_leading_chars, trim, trim_chars,
};

verus! {

pub const REPO_OWNER: &'static str = "knst0";

pub const REPO_NAME: &'static str = "reveal";

/// Seconds between two automatic update checks.
pub const CHECK_INTERVAL_SECS: u64 = 86400;

/// The version of this build.
pub const VERSION: &'static str = "0.1.0";

/// The version of this build.
pub fn current_version() -> (r: &'static str)
    ensures
        r@ == VERSION@,
{
    VERSION
}

/// What an update check or install found.
#[derive(Debug, Clone, PartialEq, Eq)]
pub enum UpdateStatus {
    Disabled,
    UpToDate,
    Available { version: String },
    Installed { version: String },
    Failed { error: String },
}

/// What the user is told about updates.
#[derive(Debug, Clone, PartialEq, Eq)]
pub enum UpdateNotice {
    Available { version: String },
    Installed { version: String },
    Upgraded { from: Option<String>, to: String },
}

/// The outcome of comparing two versions or two version pieces.
#[derive(Debug, Clone, Copy, PartialEq, Eq, Structural)]
pub enum Rank {
    Lower,
    Equal,
    Higher,
}

/// The part of a version text that is compared: leading `v`s removed, trimmed,
/// build metadata after `+` dropped.
pub open spec fn version_body(v: Seq<char>) -> Seq<char> {
    before_first(trim(strip_leading(v, 'v')), '+')
}

/// A dotted piece as a number; a piece that is no number counts as 0.
pub open spec fn piece_number(p: Seq<char>) -> u64 {
    match parse_u64(trim(p)) {
        Some(n) => n,
        None => 0,
    }
}

/// The numbers of a version, before the first `-`.
pub open spec fn version_numbers(v: Seq<char>) -> Seq<u64> {
    split_on(before_first(version_body(v), '-'), '.').map_values(|p: Seq<char>| piece_number(p))
}

/// The pre-release label of a version, after the first `-`, if not empty.
pub open spec fn version_pre(v: Seq<char>) -> Option<Seq<char>> {
    match after_first(version_body(v), '-') {
        Some(p) => if p.len() > 0 {
            Some(p)
        } else {
            None
        },
        None => None,
    }
}

pub open spec fn num_at(a: Seq<u64>, i: int) -> u64 {
    if 0 <= i < a.len() {
        a[i]
    } else {
        0
    }
}

pub open spec fn longer(a: Seq<u64>, b: Seq<u64>) -> int {
    if a.len() > b.len() {
        a.len() as int
    } else {
        b.len() as int
    }
}

/// From position `i` on, the first number where `b` differs from `a` decides
/// whether `b` is greater; missing numbers count as 0.
pub open spec fn numbers_decide(a: Seq<u64>, b: Seq<u64>, i: int) -> Option<bool>
    decreases longer(a, b) - i,
{
    if i < 0 || i >= longer(a, b) {
        None
    } else if num_at(b, i) != num_at(a, i) {
        Some(num_at(b, i) > num_at(a, i))
    } else {
        numbers_decide(a, b, i + 1)
    }
}

/// The order of two pre-release pieces: numbers by value and before names,
/// names by their characters.
pub open spec fn piece_rank(x: Seq<char>, y: Seq<char>) -> Rank {
    match (parse_u64(x), parse_u64(y)) {
        (Some(a), Some(b)) => if a < b {
            Rank::Lower
        } else if a > b {
            Rank::Higher
        } else {
            Rank::Equal
        },
        (Some(_), None) => Rank::Lower,
        (None, Some(_)) => Rank::Higher,
        (None, None) => if text_lt(x, y) {
            Rank::Lower
        } else if x == y {
            Rank::Equal
        } else {
            Rank::Higher
        },
    }
}

/// The order of two pre-release labels, piece by piece; a label that is a
/// prefix of the other comes first.
pub open spec fn pieces_rank(xs: Seq<Seq<char>>, ys: Seq<Seq<char>>) -> Rank
    decreases xs.len(),
{
    if xs.len() == 0 && ys.len() == 0 {
        Rank::Equal
    } else if xs.len() == 0 {
        Rank::Lower
    } else if ys.len() == 0 {
        Rank::Higher
    } else if piece_rank(xs[0], ys[0]) != Rank::Equal {
        piece_rank(xs[0], ys[0])
    } else {
        pieces_rank(xs.drop_first(), ys.drop_first())
    }
}

pub open spec fn prerelease_rank(a: Seq<char>, b: Seq<char>) -> Rank {
    pieces_rank(split_on(a, '.'), split_on(b, '.'))
}

/// Whether `candidate` is a newer version than `current`: the numbers decide;
/// with equal numbers, a release is newer than a pre-release of it, and of two
/// pre-releases the one with the greater label.
pub open spec fn newer(current: Seq<char>, candidate: Seq<char>) -> bool {
    match numbers_decide(version_numbers(current), version_numbers(candidate), 0) {
        Some(r) => r,
        None => match (version_pre(current), version_pre(candidate)) {
            (None, None) => false,
            (None, Some(_)) => false,
            (Some(_), None) => true,
            (Some(x), Some(y)) => prerelease_rank(x, y) == Rank::Lower,
        },
    }
}

/// The numbers and pre-release label of a version.
fn split_version(v: &str) -> (r: (Vec<u64>, Option<Vec<char>>))
    ensures
        r.0@ == version_numbers(v@),
        match r.1 {
            Some(p) => version_pre(v@) == Some(p@),
            None => version_pre(v@) is None,
        },
{
    let cs = chars_of(v);
    let stripped = strip_leading_chars(cs.as_slice(), 'v');
    let trimmed = trim_chars(stripped.as_slice());
    let (body, _) = split_once_chars(trimmed.as_slice(), '+');
    let (core, pre) = split_once_chars(body.as_slice(), '-');
    let pieces = split_chars(core.as_slice(), '.');
    let ghost pv = pieces@.map_values(|x: Vec<char>| x@);
    let mut numbers: Vec<u64> = Vec::new();
    let mut i: usize = 0;
    while i < pieces.len()
        invariant
            pv == pieces@.map_values(|x: Vec<char>| x@),
            i <= pieces@.len(),
            numbers@ == pv.take(i as int).map_values(|p: Seq<char>| piece_number(p)),
        decreases pieces@.len() - i,
    {
        let t = trim_chars(pieces[i].as_slice());
        let n = match parse_u64_chars(t.as_slice()) {
            Some(n) => n,
            None => 0,
        };
        let ghost before = numbers@;
        numbers.push(n);
        proof {
            assert(pv[i as int] == pieces@[i as int]@);
            assert(pv.take(i + 1) =~= pv.take(i as int).push(pv[i as int]));
            assert(numbers@ =~= pv.take(i + 1).map_values(|p: Seq<char>| piece_number(p)));
        }
        i = i + 1;
    }
    proof {
        assert(pv.take(i as int) =~= pv);
    }
    let pre = match pre {
        Some(p) => if p.len() > 0 {
            Some(p)
        } else {
            None
        },
        None => None,
    };
    (numbers, pre)
}

/// The order of two pre-release pieces.
fn piece_rank_exec(x: &[char], y: &[char]) -> (r: Rank)
    ensures
        r == piece_rank(x@, y@),
{
    match (parse_u64_chars(x), parse_u64_chars(y)) {
        (Some(a), Some(b)) => if a < b {
            Rank::Lower
        } else if a > b {
            Rank::Higher
        } else {
            Rank::Equal
        },
        (Some(_), None) => Rank::Lower,
        (None, Some(_)) => Rank::Higher,
        (None, None) => if text_less(x, y) {
            Rank::Lower
        } else if crate::order::chars_equal(x, y) {
            Rank::Equal
        } else {
            Rank::Higher
        },
    }
}

/// The order of two pre-release labels.
pub fn compare_prerelease(a: &[char], b: &[char]) -> (r: Rank)
    ensures
        r == prerelease_rank(a@, b@),
{
    let xs = split_chars(a, '.');
    let ys = split_chars(b, '.');
    let ghost xv = xs@.map_values(|x: Vec<char>| x@);
    let ghost yv = ys@.map_values(|x: Vec<char>| x@);
    let mut i: usize = 0;
    proof {
        assert(xv.skip(0) =~= xv);
        assert(yv.skip(0) =~= yv);
    }
    loop
        invariant
            xv == xs@.map_values(|x: Vec<char>| x@),
            yv == ys@.map_values(|x: Vec<char>| x@),
            i <= xs@.len(),
            i <= ys@.len(),
            prerelease_rank(a@, b@) == pieces_rank(xv.skip(i as int), yv.skip(i as int)),
        decreases xs@.len() - i,
    {
        if i == xs.len() && i == ys.len() {
            return Rank::Equal;
        }
        if i == xs.len() {
            return Rank::Lower;
        }
        if i == ys.len() {
            return Rank::Higher;
        }
        let r = piece_rank_exec(xs[i].as_slice(), ys[i].as_slice());
        proof {
            assert(xv.skip(i as int)[0] == xs@[i as int]@);
            assert(yv.skip(i as int)[0] == ys@[i as int]@);
            assert(xv.skip(i as int).drop_first() =~= xv.skip(i + 1));
            assert(yv.skip(i as int).drop_first() =~= yv.skip(i + 1));
        }
        if r != Rank::Equal {
            return r;
        }
        i = i + 1;
    }
}

/// Whether `candidate` is a newer version than `current`.
pub fn is_newer(current: &str, candidate: &str) -> (r: bool)
    ensures
        r == newer(current@, candidate@),
{
    let (a, a_pre) = split_version(current);
    let (b, b_pre) = split_version(candidate);
    let len = if a.len() > b.len() {
        a.len()
    } else {
        b.len()
    };
    let mut i: usize = 0;
    while i < len
        invariant
            a@ == version_numbers(current@),
            b@ == version_numbers(candidate@),
            len == longer(a@, b@),
            i <= len,
            numbers_decide(a@, b@, 0) == numbers_decide(a@, b@, i as int),
        decreases len - i,
    {
        let x: u64 = if i < a.len() {
            a[i]
        } else {
            0
        };
        let y: u64 = if i < b.len() {
            b[i]
        } else {
            0
        };
        if y != x {
            return y > x;
        }
        i = i + 1;
    }
    match (a_pre, b_pre) {
        (None, None) => false,
        (None, Some(_)) => false,
        (Some(_), None) => true,
        (Some(x), Some(y)) => compare_prerelease(x.as_slice(), y.as_slice()) == Rank::Lower,
    }
}

/// Whether a version is a pre-release: after its leading `v`s it holds a `-`.
pub open spec fn prerelease(v: Seq<char>) -> bool {
    strip_leading(v, 'v').contains('-')
}

pub fn is_prerelease(version: &str) -> (r: bool)
    ensures
        r == prerelease(version@),
{
    let cs = chars_of(version);
    let s = strip_leading_chars(cs.as_slice(), 'v');
    crate::text::contains_char(s.as_slice(), '-')
}

/// Whether a channel offers a version: pre-releases only on the beta channel.
pub open spec fn channel_accepts(channel: Channel, v: Seq<char>) -> bool {
    channel == Channel::Beta || !prerelease(v)
}

pub fn accepts(channel: Channel, version: &str) -> (r: bool)
    ensures
        r == channel_accepts(channel, version@),
{
    channel.accepts_prerelease() || !is_prerelease(version)
}

/// Whether a check is due: never checked, or at least `interval_secs` ago.
pub open spec fn due(last_check: Option<u64>, now: u64, interval_secs: u64) -> bool {
    match last_check {
        None => true,
        Some(last) => (if now >= last {
            now - last
        } else {
            0
        }) >= interval_secs,
    }
}

pub fn is_due(last_check: Option<u64>, now: u64, interval_secs: u64) -> (r: bool)
    ensures
        r == due(last_check, now, interval_secs),
{
    match last_check {
        None => true,
        Some(last) => now.saturating_sub(last) >= interval_secs,
    }
}

/// Whether the user chose to skip this version.
pub fn is_skipped(cache: &Cache, version: &str) -> (r: bool)
    ensures
        r == (cache.update_skipped_version matches Some(s) && s@ == version@),
{
    match &cache.update_skipped_version {
        Some(s) => crate::text::same_text(s.as_str(), version),
        None => false,
    }
}

/// The seconds since the Unix epoch, 0 when the clock is before it
/// (`SystemTime::now` measured from `UNIX_EPOCH`). Nothing is stated of the value.
#[verifier::external_body]
fn now_secs() -> (r: u64) {
    std::time::SystemTime::now().duration_since(std::time::UNIX_EPOCH).map(|d| d.as_secs()).unwrap_or(
        0,
    )
}

/// Whether to check for updates at time `now`: checks are on and one is due.
pub fn should_run_check_at(settings: &Updates, cache: &Cache, now: u64) -> (r: bool)
    ensures
        r == (settings.check && due(cache.last_update_check, now, CHECK_INTERVAL_SECS)),
{
    settings.should_check() && is_due(cache.last_update_check, now, CHECK_INTERVAL_SECS)
}

/// Whether to check for updates now; never while checks are off.
pub fn should_run_check(settings: &Updates, cache: &Cache) -> (r: bool)
    ensures
        r ==> settings.check,
        !settings.check ==> !r,
        settings.check && cache.last_update_check is None ==> r,
{
    let now = now_secs();
    should_run_check_at(settings, cache, now)
}

/// Records a check made at time `now`.
pub fn record_check_at(cache: &mut Cache, now: u64)
    ensures
        *final(cache) == (Cache { last_update_check: Some(now), ..*old(cache) }),
{
    cache.last_update_check = Some(now);
}

/// Records a check made now.
pub fn record_check(cache: &mut Cache)
    ensures
        final(cache).last_update_check is Some,
        final(cache).window == old(cache).window,
        final(cache).current_dir == old(cache).current_dir,
        final(cache).update_skipped_version == old(cache).update_skipped_version,
        final(cache).update_pending_version == old(cache).update_pending_version,
        final(cache).last_launched_version == old(cache).last_launched_version,
{
    let now = now_secs();
    record_check_at(cache, now);
}

/// Remembers that the user skipped a version.
pub fn skip_version(cache: &mut Cache, version: &str)
    ensures
        final(cache).update_skipped_version matches Some(s) && s@ == version@,
        final(cache).window == old(cache).window,
        final(cache).current_dir == old(cache).current_dir,
        final(cache).last_update_check == old(cache).last_update_check,
        final(cache).update_pending_version == old(cache).update_pending_version,
        final(cache).last_launched_version == old(cache).last_launched_version,
{
    cache.update_skipped_version = Some(String::from_str(version));
}

/// The notice after a background check or install finished with `status`,
/// `notice` being the one shown before: a newer version not skipped is
/// offered, an installed one is announced and remembered as pending, and
/// anything else leaves the notice as it was. The check is recorded at `now`.
pub fn absorb_check(
    cache: &mut Cache,
    notice: Option<UpdateNotice>,
    status: UpdateStatus,
    now: u64,
) -> (r: Option<UpdateNotice>)
    ensures
        final(cache).last_update_check == Some(now),
        final(cache).window == old(cache).window,
        final(cache).current_dir == old(cache).current_dir,
        final(cache).update_skipped_version == old(cache).update_skipped_version,
        final(cache).last_launched_version == old(cache).last_launched_version,
        match status {
            UpdateStatus::Installed { version } => {
                &&& final(cache).update_pending_version == Some(version)
                &&& r == Some(UpdateNotice::Installed { version })
            },
            UpdateStatus::Available { version } => {
                &&& final(cache).update_pending_version == old(cache).update_pending_version
                &&& if old(cache).update_skipped_version matches Some(s) && s@ == version@ {
                    r == notice
                } else {
                    r == Some(UpdateNotice::Available { version })
                }
            },
            _ => {
                &&& final(cache).update_pending_version == old(cache).update_pending_version
                &&& r == notice
            },
        },
{
    record_check_at(cache, now);
    match status {
        UpdateStatus::Available { version } => {
            if is_skipped(cache, version.as_str()) {
                notice
            } else {
                Some(UpdateNotice::Available { version })
            }
        },
        UpdateStatus::Installed { version } => {
            cache.update_pending_version = Some(version.clone());
            Some(UpdateNotice::Installed { version })
        },
        _ => notice,
    }
}

/// The notice after an install asked for by the user finished with `status`:
/// an installed version is announced and remembered as pending; otherwise
/// the notice is dropped.
pub fn absorb_install(cache: &mut Cache, status: UpdateStatus) -> (r: Option<UpdateNotice>)
    ensures
        final(cache).window == old(cache).window,
        final(cache).current_dir == old(cache).current_dir,
        final(cache).last_update_check == old(cache).last_update_check,
        final(cache).update_skipped_version == old(cache).update_skipped_version,
        final(cache).last_launched_version == old(cache).last_launched_version,
        match status {
            UpdateStatus::Installed { version } => {
                &&& final(cache).update_pending_version == Some(version)
                &&& r == Some(UpdateNotice::Installed { version })
            },
            _ => {
                &&& final(cache).update_pending_version == old(cache).update_pending_version
                &&& r is None
            },
        },
{
    match status {
        UpdateStatus::Installed { version } => {
            cache.update_pending_version = Some(version.clone());
            Some(UpdateNotice::Installed { version })
        },
        _ => None,
    }
}

/// Turning update checks off from a notice: checks stop, and a version on
/// offer is skipped from then on.
pub fn decline_updates(settings: &mut Updates, cache: &mut Cache, notice: &Option<UpdateNotice>)
    ensures
        *final(settings) == (Updates { check: false, ..*old(settings) }),
        final(cache).window == old(cache).window,
        final(cache).current_dir == old(cache).current_dir,
        final(cache).last_update_check == old(cache).last_update_check,
        final(cache).update_pending_version == old(cache).update_pending_version,
        final(cache).last_launched_version == old(cache).last_launched_version,
        match notice {
            Some(UpdateNotice::Available { version }) => final(cache).update_skipped_version
                matches Some(s) && s@ == version@,
            _ => final(cache).update_skipped_version == old(cache).update_skipped_version,
        },
{
    settings.check = false;
    if let Some(UpdateNotice::Available { version }) = notice {
        skip_version(cache, version.as_str());
    }
}

/// Whether this launch runs a version the user upgraded to: an installed
/// update that is now running, or a version newer than the last one launched.
pub open spec fn upgraded(pending: Option<Seq<char>>, previous: Option<Seq<char>>, current: Seq<
    char,
>) -> bool {
    match (pending, previous) {
        (Some(p), _) => !newer(current, p),
        (None, Some(prev)) => newer(prev, current),
        (None, None) => false,
    }
}

/// With no install pending, a launch is announced as an upgrade exactly when
/// the running version is newer than the one launched before: a launch
/// whose numbers are greater at the first place they differ is announced,
/// one whose numbers are smaller (a downgrade) is not, nor is a second
/// launch of the same version; of a move and the move back, at most one is
/// announced. A pending install is announced once it runs, and not while a
/// version older than it runs.
pub proof fn law_upgrade_notice_follows_versions(
    prev: Seq<char>,
    current: Seq<char>,
    pending: Seq<char>,
    previous: Option<Seq<char>>,
)
    ensures
        upgraded(None, Some(prev), current) <==> newer(prev, current),
        numbers_decide(version_numbers(prev), version_numbers(current), 0) == Some(true)
            ==> upgraded(None, Some(prev), current),
        numbers_decide(version_numbers(prev), version_numbers(current), 0) == Some(false)
            ==> !upgraded(None, Some(prev), current),
        !upgraded(None, Some(current), current),
        !(upgraded(None, Some(prev), current) && upgraded(None, Some(current), prev)),
        upgraded(Some(pending), previous, pending),
        newer(current, pending) ==> !upgraded(Some(pending), previous, current),
{
    law_newer_irreflexive(current);
    law_newer_irreflexive(pending);
    law_newer_asymmetric(prev, current);
}

pub open spec fn opt_text(o: Option<String>) -> Option<Seq<char>> {
    match o {
        Some(s) => Some(s@),
        None => None,
    }
}

/// Notes the running version as launched, clears the pending install, and
/// says whether this launch follows an upgrade.
pub fn take_upgrade_notice(cache: &mut Cache) -> (r: Option<UpdateNotice>)
    ensures
        final(cache).update_pending_version is None,
        final(cache).last_launched_version matches Some(s) && s@ == VERSION@,
        final(cache).window == old(cache).window,
        final(cache).current_dir == old(cache).current_dir,
        final(cache).last_update_check == old(cache).last_update_check,
        final(cache).update_skipped_version == old(cache).update_skipped_version,
        upgraded(
            opt_text(old(cache).update_pending_version),
            opt_text(old(cache).last_launched_version),
            VERSION@,
        ) ==> (r matches Some(UpdateNotice::Upgraded { from, to }) && opt_text(from) == opt_text(
            old(cache).last_launched_version,
        ) && to@ == VERSION@),
        !upgraded(
            opt_text(old(cache).update_pending_version),
            opt_text(old(cache).last_launched_version),
            VERSION@,
        ) ==> r is None,
{
    let current = current_version();
    let pending = cache.update_pending_version.take();
    let previous = match &cache.last_launched_version {
        Some(p) => Some(p.clone()),
        None => None,
    };
    cache.last_launched_version = Some(String::from_str(current));
    let up = match (&pending, &previous) {
        (Some(p), _) => !is_newer(current, p.as_str()),
        (None, Some(prev)) => is_newer(prev.as_str(), current),
        (None, None) => false,
    };
    if up {
        Some(UpdateNotice::Upgraded { from: previous, to: String::from_str(current) })
    } else {
        None
    }
}

/// The release page of a version; a `v` is put in front unless it has one.
pub open spec fn changelog_text(version: Seq<char>) -> Seq<char> {
    "https://github.com/knst0/reveal/releases/tag/"@ + (if version.len() > 0 && version[0] == 'v' {
        version
    } else {
        "v"@ + version
    })
}

pub fn changelog_url(version: &str) -> (r: String)
    ensures
        r@ == changelog_text(version@),
{
    let mut s = String::from_str("https://github.com/knst0/reveal/releases/tag/");
    let starts_v = version.unicode_len() > 0 && version.get_char(0) == 'v';
    if !starts_v {
        s.append("v");
    }
    s.append(version);
    proof {
        reveal_strlit("v");
        assert(s@ =~= changelog_text(version@));
    }
    s
}

/// The version chosen among `versions` (in order): the first acceptable one
/// newer than `current`, replaced by each later one that is newer still.
pub open spec fn pick_from(channel: Channel, current: Seq<char>, vs: Seq<Seq<char>>) -> Option<
    int,
>
    decreases vs.len(),
{
    if vs.len() == 0 {
        None
    } else {
        let prev = pick_from(channel, current, vs.drop_last());
        let i = vs.len() - 1;
        if channel_accepts(channel, vs[i]) && newer(current, vs[i]) {
            match prev {
                None => Some(i),
                Some(j) => if newer(vs[j], vs[i]) {
                    Some(i)
                } else {
                    Some(j)
                },
            }
        } else {
            prev
        }
    }
}

/// The version picked is one the channel offers and newer than the current
/// one, and no version the channel offers is newer than it; none is picked
/// only when no version is both offered and newer.
pub proof fn law_pick_is_offered_and_newer(channel: Channel, current: Seq<char>, vs: Seq<Seq<char>>)
    ensures
        pick_from(channel, current, vs) matches Some(i) ==> 0 <= i < vs.len() && channel_accepts(
            channel,
            vs[i],
        ) && newer(current, vs[i]),
        pick_from(channel, current, vs) matches Some(i) ==> forall|j: int|
            0 <= j < vs.len() && channel_accepts(channel, #[trigger] vs[j]) && newer(current, vs[j])
                ==> !newer(vs[i], vs[j]),
        pick_from(channel, current, vs) is None ==> forall|j: int|
            0 <= j < vs.len() ==> !(channel_accepts(channel, #[trigger] vs[j]) && newer(current, vs[j])),
    decreases vs.len(),
{
    if vs.len() > 0 {
        let rest = vs.drop_last();
        let n = vs.len() - 1;
        law_pick_is_offered_and_newer(channel, current, rest);
        assert forall|j: int| 0 <= j < rest.len() implies #[trigger] rest[j] == vs[j] by {}
        if pick_from(channel, current, vs) is None {
            assert forall|j: int| 0 <= j < vs.len() implies !(channel_accepts(
                channel,
                #[trigger] vs[j],
            ) && newer(current, vs[j])) by {
                if j < rest.len() {
                    assert(rest[j] == vs[j]);
                }
            }
        } else {
            let i = pick_from(channel, current, vs)->0;
            assert forall|j: int|
                0 <= j < vs.len() && channel_accepts(channel, #[trigger] vs[j]) && newer(current, vs[j])
                    implies !newer(vs[i], vs[j]) by {
                law_newer_irreflexive(vs[j]);
                if j < n {
                    assert(rest[j] == vs[j]);
                    match pick_from(channel, current, rest) {
                        Some(k) => {
                            assert(rest[k] == vs[k]);
                            if i == n && newer(vs[n], vs[j]) {
                                law_newer_transitive(vs[k], vs[n], vs[j]);
                            }
                        },
                        None => {},
                    }
                } else {
                    match pick_from(channel, current, rest) {
                        Some(k) => {
                            assert(rest[k] == vs[k]);
                        },
                        None => {},
                    }
                }
            }
        }
    }
}

/// The newest version the channel offers that is newer than `current`.
pub fn pick_upgrade<'a>(channel: Channel, current: &str, versions: &Vec<&'a str>) -> (r: Option<
    &'a str,
>)
    ensures
        match pick_from(channel, current@, versions@.map_values(|v: &str| v@)) {
            Some(i) => r == Some(versions@[i]),
            None => r is None,
        },
{
    let ghost vs = versions@.map_values(|v: &str| v@);
    let mut best: Option<usize> = None;
    let mut i: usize = 0;
    while i < versions.len()
        invariant
            vs == versions@.map_values(|v: &str| v@),
            i <= versions@.len(),
            match best {
                Some(j) => j < i && pick_from(channel, current@, vs.take(i as int)) == Some(
                    j as int,
                ),
                None => pick_from(channel, current@, vs.take(i as int)) is None,
            },
        decreases versions@.len() - i,
    {
        let v = versions[i];
        proof {
            assert(vs.take(i + 1).drop_last() =~= vs.take(i as int));
            assert(vs.take(i + 1)[i as int] == v@);
            if let Some(j) = best {
                assert(vs.take(i + 1)[j as int] == versions@[j as int]@);
            }
        }
        if accepts(channel, v) && is_newer(current, v) {
            best = match best {
                None => Some(i),
                Some(j) => if is_newer(versions[j], v) {
                    Some(i)
                } else {
                    Some(j)
                },
            };
        }
        i = i + 1;
    }
    proof {
        assert(vs.take(i as int) =~= vs);
    }
    match best {
        Some(j) => Some(versions[j]),
        None => None,
    }
}

pub proof fn lemma_numbers_decide_same(a: Seq<u64>, i: int)
    ensures
        numbers_decide(a, a, i) is None,
    decreases longer(a, a) - i,
{
    if 0 <= i < longer(a, a) {
        lemma_numbers_decide_same(a, i + 1);
    }
}

pub proof fn lemma_numbers_decide_flip(a: Seq<u64>, b: Seq<u64>, i: int)
    ensures
        numbers_decide(b, a, i) == match numbers_decide(a, b, i) {
            Some(x) => Some(!x),
            None => None,
        },
    decreases longer(a, b) - i,
{
    assert(longer(a, b) == longer(b, a));
    if 0 <= i < longer(a, b) && num_at(b, i) == num_at(a, i) {
        lemma_numbers_decide_flip(a, b, i + 1);
    }
}

pub open spec fn flip(r: Rank) -> Rank {
    match r {
        Rank::Lower => Rank::Higher,
        Rank::Equal => Rank::Equal,
        Rank::Higher => Rank::Lower,
    }
}

pub proof fn lemma_piece_rank_flip(x: Seq<char>, y: Seq<char>)
    ensures
        piece_rank(y, x) == flip(piece_rank(x, y)),
        piece_rank(x, x) == Rank::Equal,
{
    crate::order::lemma_text_lt_total(x, y);
    crate::order::lemma_text_lt_asymmetric(x, y);
    crate::order::lemma_text_lt_irreflexive(x);
    crate::order::lemma_text_lt_irreflexive(y);
}

pub proof fn lemma_pieces_rank_flip(xs: Seq<Seq<char>>, ys: Seq<Seq<char>>)
    ensures
        pieces_rank(ys, xs) == flip(pieces_rank(xs, ys)),
    decreases xs.len(),
{
    if xs.len() > 0 && ys.len() > 0 {
        lemma_piece_rank_flip(xs[0], ys[0]);
        lemma_pieces_rank_flip(xs.drop_first(), ys.drop_first());
    }
}

pub proof fn lemma_pieces_rank_same(xs: Seq<Seq<char>>)
    ensures
        pieces_rank(xs, xs) == Rank::Equal,
    decreases xs.len(),
{
    if xs.len() > 0 {
        lemma_piece_rank_flip(xs[0], xs[0]);
        lemma_pieces_rank_same(xs.drop_first());
    }
}

/// No version is newer than itself.
pub proof fn law_newer_irreflexive(v: Seq<char>)
    ensures
        !newer(v, v),
{
    lemma_numbers_decide_same(version_numbers(v), 0);
    if let Some(p) = version_pre(v) {
        lemma_pieces_rank_same(split_on(p, '.'));
    }
}

/// Of two versions, at most one is newer than the other.
pub proof fn law_newer_asymmetric(a: Seq<char>, b: Seq<char>)
    ensures
        !(newer(a, b) && newer(b, a)),
{
    lemma_numbers_decide_flip(version_numbers(a), version_numbers(b), 0);
    if let (Some(x), Some(y)) = (version_pre(a), version_pre(b)) {
        lemma_pieces_rank_flip(split_on(x, '.'), split_on(y, '.'));
    }
}

proof fn lemma_numbers_decide_step(a: Seq<u64>, b: Seq<u64>, i: int)
    requires
        0 <= i,
    ensures
        numbers_decide(a, b, i) == if num_at(b, i) != num_at(a, i) {
            Some(num_at(b, i) > num_at(a, i))
        } else {
            numbers_decide(a, b, i + 1)
        },
{
}

spec fn longest(a: Seq<u64>, b: Seq<u64>, c: Seq<u64>) -> int {
    if longer(a, b) > c.len() {
        longer(a, b)
    } else {
        c.len() as int
    }
}

proof fn lemma_numbers_decide_trans(a: Seq<u64>, b: Seq<u64>, c: Seq<u64>, i: int)
    requires
        0 <= i,
    ensures
        (numbers_decide(a, b, i) is None && numbers_decide(b, c, i) is None) ==> numbers_decide(a, c, i) is None,
        (numbers_decide(a, b, i) == Some(true) && numbers_decide(b, c, i) != Some(false)) ==> numbers_decide(a, c, i)
            == Some(true),
        (numbers_decide(a, b, i) != Some(false) && numbers_decide(b, c, i) == Some(true)) ==> numbers_decide(a, c, i)
            == Some(true),
    decreases longest(a, b, c) - i,
{
    lemma_numbers_decide_step(a, b, i);
    lemma_numbers_decide_step(b, c, i);
    lemma_numbers_decide_step(a, c, i);
    if i < longest(a, b, c) {
        lemma_numbers_decide_trans(a, b, c, i + 1);
    }
}

proof fn lemma_piece_rank_trans(x: Seq<char>, y: Seq<char>, z: Seq<char>)
    ensures
        (piece_rank(x, y) == Rank::Equal && piece_rank(y, z) == Rank::Equal) ==> piece_rank(x, z)
            == Rank::Equal,
        (piece_rank(x, y) == Rank::Lower && piece_rank(y, z) != Rank::Higher) ==> piece_rank(x, z)
            == Rank::Lower,
        (piece_rank(x, y) != Rank::Higher && piece_rank(y, z) == Rank::Lower) ==> piece_rank(x, z)
            == Rank::Lower,
{
    if text_lt(x, y) && text_lt(y, z) {
        crate::order::lemma_text_lt_transitive(x, y, z);
    }
}

proof fn lemma_pieces_rank_trans(xs: Seq<Seq<char>>, ys: Seq<Seq<char>>, zs: Seq<Seq<char>>)
    requires
        pieces_rank(xs, ys) == Rank::Lower,
        pieces_rank(ys, zs) == Rank::Lower,
    ensures
        pieces_rank(xs, zs) == Rank::Lower,
    decreases xs.len(),
{
    if xs.len() > 0 && ys.len() > 0 && zs.len() > 0 {
        lemma_piece_rank_trans(xs[0], ys[0], zs[0]);
        if piece_rank(xs[0], ys[0]) == Rank::Equal && piece_rank(ys[0], zs[0]) == Rank::Equal {
            lemma_pieces_rank_trans(xs.drop_first(), ys.drop_first(), zs.drop_first());
        }
    }
}

/// A version newer than one newer than a third is newer than the third.
pub proof fn law_newer_transitive(a: Seq<char>, b: Seq<char>, c: Seq<char>)
    requires
        newer(a, b),
        newer(b, c),
    ensures
        newer(a, c),
{
    lemma_numbers_decide_trans(version_numbers(a), version_numbers(b), version_numbers(c), 0);
    if let (Some(x), Some(y), Some(z)) = (version_pre(a), version_pre(b), version_pre(c)) {
        if prerelease_rank(x, y) == Rank::Lower && prerelease_rank(y, z) == Rank::Lower {
            lemma_pieces_rank_trans(split_on(x, '.'), split_on(y, '.'), split_on(z, '.'));
        }
    }
}

/// Looks for an update; this build has no update source and reports that.
pub fn check(channel: Channel) -> (r: UpdateStatus)
    ensures
        r == UpdateStatus::Disabled,
{
    UpdateStatus::Disabled
}

/// Installs an update; this build has no update source and reports that.
pub fn install(channel: Channel) -> (r: UpdateStatus)
    ensures
        r == UpdateStatus::Disabled,
{
    UpdateStatus::Disabled
}

} // verus!
