//! The outcome of registering the viewer as the handler of image formats.
use vstd::prelude::*;

use crate::text::concat;

verus! {

/// Why registering the formats failed.
#[derive(Debug, Clone, PartialEq, Eq)]
pub enum Error {
    Unsupported,
    NotBundled,
    Io(String),
    Failed(String),
}

/// How many formats were registered, and what the user still has to do.
#[derive(Debug, Clone, PartialEq, Eq)]
pub struct Outcome {
    pub registered: usize,
    pub needs_user_action: Option<String>,
}

/// The text shown for an error.
pub open spec fn error_text(e: Error) -> Seq<char> {
    match e {
        Error::Unsupported => "Setting defaults is not supported on this platform."@,
        Error::NotBundled => "Move Reveal.app into Applications and run it from there to register it."@,
        Error::Io(m) => m@,
        Error::Failed(m) => m@,
    }
}

impl Error {
    /// The text shown for the error.
    pub fn message(&self) -> (r: String)
        ensures
            r@ == error_text(*self),
    {
        match self {
            Error::Unsupported => String::from_str(
                "Setting defaults is not supported on this platform.",
            ),
            Error::NotBundled => String::from_str(
                "Move Reveal.app into Applications and run it from there to register it.",
            ),
            Error::Io(m) => m.clone(),
            Error::Failed(m) => m.clone(),
        }
    }
}


/// How one run of a registration command (`xdg-mime`, `flatpak-spawn`) ended.
#[derive(Debug, Clone, PartialEq, Eq)]
pub enum CommandStatus {
    Succeeded,
    Refused,
    Missing,
    Error(String),
}

/// Where a tally of command runs stands: formats claimed and those refused
/// so far, or the reason it stopped.
pub enum Tally {
    Counting(nat, Seq<Seq<char>>),
    Missing,
    IoError(Seq<char>),
}

/// The tally of the first `n` runs of `xdg-mime default`, one per format:
/// a run that cannot start because the command is missing, or that fails to
/// start, stops the tally.
pub open spec fn xdg_tally(mimes: Seq<Seq<char>>, st: Seq<CommandStatus>, n: int) -> Tally
    decreases n,
{
    if n <= 0 {
        Tally::Counting(0, Seq::empty())
    } else {
        match xdg_tally(mimes, st, n - 1) {
            Tally::Counting(c, f) => match st[n - 1] {
                CommandStatus::Succeeded => Tally::Counting(c + 1, f),
                CommandStatus::Refused => Tally::Counting(c, f.push(mimes[n - 1])),
                CommandStatus::Missing => Tally::Missing,
                CommandStatus::Error(m) => Tally::IoError(m@),
            },
            other => other,
        }
    }
}

proof fn lemma_xdg_sticks(mimes: Seq<Seq<char>>, st: Seq<CommandStatus>, i: int, n: int)
    requires
        0 <= i <= n,
        !(xdg_tally(mimes, st, i) is Counting),
    ensures
        xdg_tally(mimes, st, n) == xdg_tally(mimes, st, i),
    decreases n - i,
{
    if n > i {
        lemma_xdg_sticks(mimes, st, i, n - 1);
    }
}

/// Texts joined with a separator between each two.
pub open spec fn joined_with(s: Seq<Seq<char>>, sep: Seq<char>) -> Seq<char>
    decreases s.len(),
{
    if s.len() == 0 {
        Seq::empty()
    } else if s.len() == 1 {
        s[0]
    } else {
        joined_with(s.drop_last(), sep) + sep + s.last()
    }
}

/// The outcome of claiming the formats with `xdg-mime`, as text: the count
/// claimed and the note on those refused, or the error's text.
pub open spec fn xdg_outcome(mimes: Seq<Seq<char>>, st: Seq<CommandStatus>) -> Result<(nat, Option<Seq<char>>), Seq<char>> {
    match xdg_tally(mimes, st, st.len() as int) {
        Tally::Missing => Err("xdg-mime is not installed."@),
        Tally::IoError(m) => Err(m),
        Tally::Counting(c, f) => if c == 0 {
            Err("xdg-mime rejected every format."@)
        } else if f.len() == 0 {
            Ok((c, None))
        } else {
            Ok((c, Some("Could not claim: "@ + joined_with(f, ", "@) + "."@)))
        },
    }
}

pub open spec fn outcome_view(r: Result<Outcome, Error>) -> Result<(nat, Option<Seq<char>>), Seq<char>> {
    match r {
        Ok(o) => Ok(
            (
                o.registered as nat,
                match o.needs_user_action {
                    Some(t) => Some(t@),
                    None => None,
                },
            ),
        ),
        Err(e) => Err(error_text(e)),
    }
}

/// What claiming the formats with `xdg-mime` came to, given how each run
/// ended, in the order of `mimes`.
pub fn xdg_registration(mimes: &[&str], statuses: &[CommandStatus]) -> (r: Result<Outcome, Error>)
    requires
        statuses@.len() <= mimes@.len(),
    ensures
        outcome_view(r) == xdg_outcome(crate::sorting::texts_of(mimes@), statuses@),
        r matches Err(e) ==> (e is Failed || e is Io),
{
    let ghost ms = crate::sorting::texts_of(mimes@);
    let mut registered: usize = 0;
    let mut failures: Vec<&str> = Vec::new();
    let mut i: usize = 0;
    assert(crate::sorting::texts_of(failures@) =~= Seq::<Seq<char>>::empty());
    while i < statuses.len()
        invariant
            i <= statuses@.len(),
            statuses@.len() <= mimes@.len(),
            ms == crate::sorting::texts_of(mimes@),
            registered <= i,
            xdg_tally(ms, statuses@, i as int) == Tally::Counting(
                registered as nat,
                crate::sorting::texts_of(failures@),
            ),
        decreases statuses@.len() - i,
    {
        let ghost before = failures@;
        let ghost c = registered as nat;
        proof {
            assert(ms[i as int] == mimes@[i as int]@);
        }
        match &statuses[i] {
            CommandStatus::Succeeded => {
                assert(xdg_tally(ms, statuses@, i + 1) == Tally::Counting(
                    c + 1,
                    crate::sorting::texts_of(before),
                ));
                registered = registered + 1;
            },
            CommandStatus::Refused => {
                failures.push(mimes[i]);
                proof {
                    assert(crate::sorting::texts_of(failures@) =~= crate::sorting::texts_of(before).push(
                        ms[i as int],
                    ));
                    assert(xdg_tally(ms, statuses@, i + 1) == Tally::Counting(
                        c,
                        crate::sorting::texts_of(before).push(ms[i as int]),
                    ));
                }
            },
            CommandStatus::Missing => {
                proof {
                    lemma_xdg_sticks(ms, statuses@, i + 1, statuses@.len() as int);
                }
                return Err(Error::Failed(String::from_str("xdg-mime is not installed.")));
            },
            CommandStatus::Error(m) => {
                proof {
                    lemma_xdg_sticks(ms, statuses@, i + 1, statuses@.len() as int);
                }
                return Err(Error::Io(m.clone()));
            },
        }
        i = i + 1;
    }
    if registered == 0 {
        return Err(Error::Failed(String::from_str("xdg-mime rejected every format.")));
    }
    if failures.len() == 0 {
        return Ok(Outcome { registered, needs_user_action: None });
    }
    let mut list = String::from_str(failures[0]);
    let ghost f = crate::sorting::texts_of(failures@);
    let mut k: usize = 1;
    proof {
        assert(joined_with(f.take(1), ", "@) == f.take(1)[0]);
    }
    while k < failures.len()
        invariant
            1 <= k <= failures@.len(),
            f == crate::sorting::texts_of(failures@),
            list@ == joined_with(f.take(k as int), ", "@),
        decreases failures@.len() - k,
    {
        let a = concat(list.as_str(), ", ");
        list = concat(a.as_str(), failures[k]);
        proof {
            assert(f.take(k + 1).drop_last() =~= f.take(k as int));
            assert(f.take(k + 1).last() == failures@[k as int]@);
        }
        k = k + 1;
    }
    assert(f.take(k as int) =~= f);
    let a = concat("Could not claim: ", list.as_str());
    let note = concat(a.as_str(), ".");
    Ok(Outcome { registered, needs_user_action: Some(note) })
}

/// The note shown when a Flatpak could not change any host default.
pub open spec fn flatpak_note() -> Seq<char> {
    "Reveal is running as a Flatpak and cannot change host defaults itself. Set Reveal as the default image viewer in your system settings."@
}

/// The count of runs that succeeded before the first that could not start,
/// or the error that stopped the runs.
pub open spec fn flatpak_tally(st: Seq<CommandStatus>, n: int) -> Result<(nat, bool), Seq<char>>
    decreases n,
{
    if n <= 0 {
        Ok((0, false))
    } else {
        match flatpak_tally(st, n - 1) {
            Err(m) => Err(m),
            Ok((c, true)) => Ok((c, true)),
            Ok((c, false)) => match st[n - 1] {
                CommandStatus::Succeeded => Ok((c + 1, false)),
                CommandStatus::Refused => Ok((c, false)),
                CommandStatus::Missing => Ok((c, true)),
                CommandStatus::Error(m) => Err(m@),
            },
        }
    }
}

/// What claiming the formats through `flatpak-spawn` came to: runs are
/// counted until the command turns out to be missing; none claimed asks the
/// user to choose the viewer in the system settings.
pub fn flatpak_registration(statuses: &[CommandStatus]) -> (r: Result<Outcome, Error>)
    ensures
        match flatpak_tally(statuses@, statuses@.len() as int) {
            Err(m) => r matches Err(Error::Io(e)) && e@ == m,
            Ok((c, _)) => r matches Ok(o) && o.registered == c && (if c == 0 {
                o.needs_user_action matches Some(t) && t@ == flatpak_note()
            } else {
                o.needs_user_action is None
            }),
        },
{
    let mut registered: usize = 0;
    let mut stopped = false;
    let mut i: usize = 0;
    while i < statuses.len()
        invariant
            i <= statuses@.len(),
            registered <= i,
            flatpak_tally(statuses@, i as int) == Ok::<(nat, bool), Seq<char>>((registered as nat, stopped)),
            stopped ==> flatpak_tally(statuses@, statuses@.len() as int) == Ok::<(nat, bool), Seq<char>>(
                (registered as nat, true),
            ),
        decreases statuses@.len() - i,
    {
        if !stopped {
            match &statuses[i] {
                CommandStatus::Succeeded => {
                    registered = registered + 1;
                },
                CommandStatus::Refused => {},
                CommandStatus::Missing => {
                    stopped = true;
                },
                CommandStatus::Error(m) => {
                    proof {
                        lemma_flatpak_error_sticks(statuses@, i + 1, statuses@.len() as int);
                    }
                    return Err(Error::Io(m.clone()));
                },
            }
            proof {
                if stopped {
                    lemma_flatpak_stop_sticks(statuses@, i + 1, statuses@.len() as int);
                }
            }
        }
        i = i + 1;
    }
    if registered == 0 {
        return Ok(Outcome {
            registered: 0,
            needs_user_action: Some(
                String::from_str(
                    "Reveal is running as a Flatpak and cannot change host defaults itself. Set Reveal as the default image viewer in your system settings.",
                ),
            ),
        });
    }
    Ok(Outcome { registered, needs_user_action: None })
}

proof fn lemma_flatpak_stop_sticks(st: Seq<CommandStatus>, i: int, n: int)
    requires
        0 <= i <= n,
        flatpak_tally(st, i) matches Ok((_, true)),
    ensures
        flatpak_tally(st, n) == flatpak_tally(st, i),
    decreases n - i,
{
    if n > i {
        lemma_flatpak_stop_sticks(st, i, n - 1);
    }
}

proof fn lemma_flatpak_error_sticks(st: Seq<CommandStatus>, i: int, n: int)
    requires
        0 <= i <= n,
        flatpak_tally(st, i) is Err,
    ensures
        flatpak_tally(st, n) == flatpak_tally(st, i),
    decreases n - i,
{
    if n > i {
        lemma_flatpak_error_sticks(st, i, n - 1);
    }
}

/// The desktop entry that registers the viewer, for the executable at `exe`
/// and the MIME types it opens.
pub open spec fn desktop_entry_text(exe: Seq<char>, mimes: Seq<Seq<char>>) -> Seq<char> {
    "[Desktop Entry]\nType=Application\nName=Reveal\nExec=\""@ + exe
        + "\" %f\nIcon=reveal\nTerminal=false\nCategories=Graphics;Viewer;\nMimeType="@ + joined_with(
        mimes,
        ";"@,
    ) + ";\n"@
}

/// The desktop entry registering the viewer.
pub fn desktop_entry(exe: &str, mimes: &[&str]) -> (r: String)
    ensures
        r@ == desktop_entry_text(exe@, crate::sorting::texts_of(mimes@)),
{
    let ghost ms = crate::sorting::texts_of(mimes@);
    let mut list = String::new();
    let mut k: usize = 0;
    proof {
        assert(joined_with(ms.take(0), ";"@) =~= Seq::<char>::empty());
    }
    while k < mimes.len()
        invariant
            k <= mimes@.len(),
            ms == crate::sorting::texts_of(mimes@),
            list@ == joined_with(ms.take(k as int), ";"@),
        decreases mimes@.len() - k,
    {
        proof {
            assert(ms.take(k + 1).drop_last() =~= ms.take(k as int));
            assert(ms.take(k + 1).last() == mimes@[k as int]@);
        }
        if k == 0 {
            list = String::from_str(mimes[0]);
            proof {
                assert(ms.take(1).len() == 1);
            }
        } else {
            let a = concat(list.as_str(), ";");
            list = concat(a.as_str(), mimes[k]);
        }
        k = k + 1;
    }
    assert(ms.take(k as int) =~= ms);
    let a = concat("[Desktop Entry]\nType=Application\nName=Reveal\nExec=\"", exe);
    let b = concat(
        a.as_str(),
        "\" %f\nIcon=reveal\nTerminal=false\nCategories=Graphics;Viewer;\nMimeType=",
    );
    let c = concat(b.as_str(), list.as_str());
    concat(c.as_str(), ";\n")
}

} // verus!
