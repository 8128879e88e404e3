//! Classification of the process's identity and the decisions of privilege
//! escalation.
use vstd::prelude::*;

use crate::text::{same_text, starts_with};

verus! {

/// The identity under which the current program runs.
#[derive(Debug, Clone, Copy, PartialEq, Eq, Structural)]
pub enum RunningAs {
    /// Real and effective user ids are both zero.
    Root,
    /// Neither id grants privileges.
    User,
    /// Started through a set-user-id bit: the effective id is zero, the real one is not.
    Suid,
}

pub open spec fn classify(uid: u32, euid: u32) -> RunningAs {
    if euid == 0 {
        if uid == 0 { RunningAs::Root } else { RunningAs::Suid }
    } else {
        RunningAs::User
    }
}

/// Classifies a pair of real and effective user ids.
pub fn check_ids(uid: u32, euid: u32) -> (r: RunningAs)
    ensures
        r == classify(uid, euid),
{
    if euid == 0 {
        if uid == 0 { RunningAs::Root } else { RunningAs::Suid }
    } else {
        RunningAs::User
    }
}

/// What a process must do to hold root privileges.
#[derive(Debug, Clone, Copy, PartialEq, Eq, Structural)]
pub enum Escalation {
    /// Nothing: it already runs as root.
    AlreadyRoot,
    /// Claim the privileged identity in place with `setuid(0)`.
    ClaimRoot,
    /// Run the program again through `sudo` and wait for it.
    Relaunch,
}

pub open spec fn escalation_for(current: RunningAs) -> Escalation {
    match current {
        RunningAs::Root => Escalation::AlreadyRoot,
        RunningAs::Suid => Escalation::ClaimRoot,
        RunningAs::User => Escalation::Relaunch,
    }
}

/// The step that gets a process running as `current` to root privileges.
pub fn escalate_if_needed(current: RunningAs) -> (r: Escalation)
    ensures
        r == escalation_for(current),
{
    match current {
        RunningAs::Root => Escalation::AlreadyRoot,
        RunningAs::Suid => Escalation::ClaimRoot,
        RunningAs::User => Escalation::Relaunch,
    }
}

/// The lower-case form of a string.
pub uninterp spec fn lower_of(s: Seq<char>) -> Seq<char>;

/// Relies on str::to_lowercase: its result depends on the characters alone.
#[verifier::external_body]
fn lowercase(s: &str) -> (r: String)
    ensures
        r@ == lower_of(s@),
{
    s.to_lowercase()
}

/// The backtrace level handed to the relaunched program, from the lower-cased
/// value of `RUST_BACKTRACE`: none for an empty value, `1` for `1` or `true`,
/// and `full` for anything else.
pub open spec fn backtrace_level(lowered: Seq<char>) -> Option<Seq<char>> {
    if lowered.len() == 0 {
        None
    } else if lowered == "1"@ || lowered == "true"@ {
        Some("1"@)
    } else {
        Some("full"@)
    }
}

pub open spec fn backtrace_assignment(raw: Seq<char>) -> Option<Seq<char>> {
    match backtrace_level(lower_of(raw)) {
        Some(level) => Some("RUST_BACKTRACE="@ + level),
        None => None,
    }
}

/// The backtrace level for an already lower-cased value of `RUST_BACKTRACE`.
pub fn backtrace_value(lowered: &str) -> (r: Option<String>)
    ensures
        opt_view(r) == backtrace_level(lowered@),
{
    proof {
        reveal_strlit("1");
        reveal_strlit("true");
        reveal_strlit("full");
    }
    if lowered.unicode_len() == 0 {
        None
    } else if same_text(lowered, "1") || same_text(lowered, "true") {
        Some(String::from_str("1"))
    } else {
        Some(String::from_str("full"))
    }
}

/// The `RUST_BACKTRACE=<level>` argument for a value of that variable, if any.
pub fn backtrace_arg(raw: &str) -> (r: Option<String>)
    ensures
        opt_view(r) == backtrace_assignment(raw@),
{
    let lowered = lowercase(raw);
    match backtrace_value(lowered.as_str()) {
        Some(level) => {
            let mut a = String::from_str("RUST_BACKTRACE=");
            a.append(level.as_str());
            Some(a)
        },
        None => None,
    }
}

/// Whether the variable `name` is handed on: it is not `RUST_BACKTRACE`, and
/// one of the prefixes starts it.
pub open spec fn relayed(name: Seq<char>, prefixes: Seq<Seq<char>>) -> bool {
    name != "RUST_BACKTRACE"@ && exists|i: int|
        0 <= i < prefixes.len() && (#[trigger] prefixes[i]).is_prefix_of(name)
}

/// The `NAME=VALUE` arguments for the variables that are handed on, in order.
pub open spec fn env_assignments(
    vars: Seq<(Seq<char>, Seq<char>)>,
    prefixes: Seq<Seq<char>>,
) -> Seq<Seq<char>>
    decreases vars.len(),
{
    if vars.len() == 0 {
        Seq::empty()
    } else {
        let rest = env_assignments(vars.drop_last(), prefixes);
        let (name, value) = vars.last();
        if relayed(name, prefixes) {
            rest.push(name + "="@ + value)
        } else {
            rest
        }
    }
}

pub open spec fn opt_view(o: Option<String>) -> Option<Seq<char>> {
    match o {
        Some(s) => Some(s@),
        None => None,
    }
}

pub open spec fn strings_view(v: Seq<String>) -> Seq<Seq<char>> {
    v.map_values(|s: String| s@)
}

pub open spec fn pairs_view(v: Seq<(String, String)>) -> Seq<(Seq<char>, Seq<char>)> {
    v.map_values(|p: (String, String)| (p.0@, p.1@))
}

fn any_prefix(name: &str, prefixes: &Vec<String>) -> (r: bool)
    ensures
        r == exists|i: int|
            0 <= i < prefixes@.len() && (#[trigger] strings_view(prefixes@)[i]).is_prefix_of(
                name@,
            ),
{
    let mut i: usize = 0;
    while i < prefixes.len()
        invariant
            i <= prefixes@.len(),
            forall|j: int|
                0 <= j < i ==> !(#[trigger] strings_view(prefixes@)[j]).is_prefix_of(name@),
        decreases prefixes@.len() - i,
    {
        if starts_with(name, prefixes[i].as_str()) {
            assert(strings_view(prefixes@)[i as int] == prefixes@[i as int]@);
            return true;
        }
        assert(strings_view(prefixes@)[i as int] == prefixes@[i as int]@);
        i = i + 1;
    }
    false
}

/// The `NAME=VALUE` arguments for the variables among `vars` that are handed
/// on to the relaunched program.
pub fn env_args(vars: &Vec<(String, String)>, prefixes: &Vec<String>) -> (r: Vec<String>)
    ensures
        strings_view(r@) == env_assignments(pairs_view(vars@), strings_view(prefixes@)),
{
    proof {
        reveal_strlit("RUST_BACKTRACE");
    }
    let ghost pv = pairs_view(vars@);
    let ghost pre = strings_view(prefixes@);
    let mut out: Vec<String> = Vec::new();
    let mut i: usize = 0;
    while i < vars.len()
        invariant
            i <= vars@.len(),
            pv == pairs_view(vars@),
            pre == strings_view(prefixes@),
            strings_view(out@) == env_assignments(pv.take(i as int), pre),
        decreases vars@.len() - i,
    {
        let name = vars[i].0.as_str();
        let value = vars[i].1.as_str();
        assert(pv.take(i as int + 1).drop_last() =~= pv.take(i as int));
        assert(pv.take(i as int + 1).last() == (name@, value@));
        if !same_text(name, "RUST_BACKTRACE") && any_prefix(name, prefixes) {
            let mut a = String::from_str(name);
            a.append("=");
            a.append(value);
            out.push(a);
            assert(strings_view(out@) =~= env_assignments(pv.take(i as int), pre).push(a@));
        }
        i = i + 1;
    }
    assert(pv.take(vars@.len() as int) =~= pv);
    out
}

/// The program's arguments with the first one replaced by `exe`, when both are there.
pub open spec fn program_args(args: Seq<Seq<char>>, exe: Option<Seq<char>>) -> Seq<Seq<char>> {
    match exe {
        Some(path) => if args.len() > 0 {
            args.update(0, path)
        } else {
            args
        },
        None => args,
    }
}

/// The arguments handed to `sudo` to run the program again: the backtrace
/// setting, the variables handed on, then the program's own arguments.
pub open spec fn relaunch_line(
    backtrace: Option<Seq<char>>,
    vars: Seq<(Seq<char>, Seq<char>)>,
    prefixes: Seq<Seq<char>>,
    args: Seq<Seq<char>>,
    exe: Option<Seq<char>>,
) -> Seq<Seq<char>> {
    let head = match backtrace {
        Some(raw) => match backtrace_assignment(raw) {
            Some(a) => seq![a],
            None => Seq::empty(),
        },
        None => Seq::empty(),
    };
    head + env_assignments(vars, prefixes) + program_args(args, exe)
}

/// The arguments of `sudo` that run the program again with root privileges.
pub fn relaunch_args(
    backtrace: Option<String>,
    vars: &Vec<(String, String)>,
    prefixes: &Vec<String>,
    args: &Vec<String>,
    exe: Option<String>,
) -> (r: Vec<String>)
    ensures
        strings_view(r@) == relaunch_line(
            opt_view(backtrace),
            pairs_view(vars@),
            strings_view(prefixes@),
            strings_view(args@),
            opt_view(exe),
        ),
{
    let mut out: Vec<String> = Vec::new();
    if let Some(raw) = backtrace {
        if let Some(a) = backtrace_arg(raw.as_str()) {
            out.push(a);
        }
    }
    let ghost head = strings_view(out@);
    let mut env = env_args(vars, prefixes);
    out.append(&mut env);
    assert(strings_view(out@) =~= head + env_assignments(
        pairs_view(vars@),
        strings_view(prefixes@),
    ));
    let ghost mid = strings_view(out@);
    let mut i: usize = 0;
    while i < args.len()
        invariant
            i <= args@.len(),
            strings_view(out@) == mid + program_args(
                strings_view(args@),
                opt_view(exe),
            ).take(i as int),
        decreases args@.len() - i,
    {
        let a = if i == 0 {
            match &exe {
                Some(path) => path.clone(),
                None => args[i].clone(),
            }
        } else {
            args[i].clone()
        };
        proof {
            let pa = program_args(strings_view(args@), opt_view(exe));
            assert(pa[i as int] == a@);
            assert(pa.take(i as int + 1) =~= pa.take(i as int).push(a@));
        }
        let ghost prev = out@;
        let ghost av = a@;
        out.push(a);
        assert(strings_view(out@) =~= strings_view(prev).push(av));
        assert(strings_view(out@) =~= mid + program_args(
            strings_view(args@),
            opt_view(exe),
        ).take(i as int + 1));
        i = i + 1;
    }
    assert(program_args(strings_view(args@), opt_view(exe)).take(args@.len() as int)
        =~= program_args(strings_view(args@), opt_view(exe)));
    out
}

/// The classification depends on the two ids alone: both zero is root, a
/// zero effective id alone is set-user-id, any other pair is a plain user.
pub proof fn lemma_classify(uid: u32, euid: u32)
    ensures
        (uid == 0 && euid == 0) ==> classify(uid, euid) == RunningAs::Root,
        (uid != 0 && euid == 0) ==> classify(uid, euid) == RunningAs::Suid,
        euid != 0 ==> classify(uid, euid) == RunningAs::User,
{
}

} // verus!
