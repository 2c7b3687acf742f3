use vstd::prelude::*;

use crate::command::{invocation, str_views, Invocation};
use crate::places::{exe_dir, exe_dir_of, ExeLocation, Place, PlaceSearch};
use crate::text::{decimal, joined_path, join_path, law_decimal_parses_back, law_decimal_trims_to_itself, parse_unsigned, parsed_unsigned, starts_with, to_decimal, trim, trimmed};

verus! {

/// Where a running tray helper records its process id.
pub const LOCK_FILE: &'static str = "/tmp/predator-sense-tray.lock";

/// Where the tray helper's error output goes.
pub const LOG_FILE: &'static str = "/tmp/predator-sense-tray.log";

/// Manages the system tray helper process. The tray runs as a detached
/// process so it survives even if the main window hides.
pub struct TrayManager {
    pub started: bool,
}

/// What starting the tray comes to.
pub enum TrayAction {
    /// No tray helper script was found; nothing is started.
    NoScript,
    /// A tray helper with this process id is already running.
    AlreadyRunning(u32),
    /// Clear a stale lock and start the helper as this describes.
    Spawn(TraySpawn),
}

/// How the tray helper is started: `command` is run detached in a session of
/// its own, with `env_name` set to `env_value`, no input, output discarded
/// and error output written to `stderr_log`, created afresh (discarded when
/// that file cannot be created); `stale_lock` is removed first, and the
/// launcher is waited for.
pub struct TraySpawn {
    pub command: Invocation,
    pub env_name: String,
    pub env_value: String,
    pub stderr_log: String,
    pub stale_lock: String,
}

/// Whether `sp` starts the helper script at `script`: through
/// `setsid --fork python3 -u <script>`, with unbuffered Python output, error
/// output to the tray log, after clearing the lock file.
pub open spec fn starts_script(sp: TraySpawn, script: Seq<char>) -> bool {
    &&& sp.command@ == ("setsid"@, seq!["--fork"@, "python3"@, "-u"@, script])
    &&& sp.env_name@ == "PYTHONUNBUFFERED"@
    &&& sp.env_value@ == "1"@
    &&& sp.stderr_log@ == LOG_FILE@
    &&& sp.stale_lock@ == LOCK_FILE@
}

/// The start of the tray helper script at `script`.
pub fn tray_spawn(script: &str) -> (r: TraySpawn)
    ensures
        starts_script(r, script@),
{
    let command = invocation("setsid", &["--fork", "python3", "-u", script]);
    assert(str_views(seq!["--fork", "python3", "-u", script]) =~= seq![
        "--fork"@,
        "python3"@,
        "-u"@,
        script@,
    ]);
    TraySpawn {
        command,
        env_name: String::from_str("PYTHONUNBUFFERED"),
        env_value: String::from_str("1"),
        stderr_log: String::from_str(LOG_FILE),
        stale_lock: String::from_str(LOCK_FILE),
    }
}

/// Where the tray helper script is looked for, in order: the two installed
/// locations as they are, then, when the executable's directory is known,
/// three places beside it, made canonical when found.
pub open spec fn script_candidates(exe_dir: Option<Seq<char>>) -> Seq<(Seq<char>, bool)> {
    seq![
        ("/opt/predator-sense/tray_helper.py"@, false),
        ("/opt/predator-sense/resources/tray_helper.py"@, false),
    ] + match exe_dir {
        Some(d) => seq![
            (joined_path(d, "tray_helper.py"@), true),
            (joined_path(d, "resources/tray_helper.py"@), true),
            (joined_path(d, "../../resources/tray_helper.py"@), true),
        ],
        None => seq![],
    }
}

fn candidate(path: String, canonicalize: bool) -> (r: Place)
    ensures
        r@ == (path@, canonicalize),
{
    Place { path, canonicalize }
}

/// The places to look for the tray helper script; the first that exists is
/// the script.
pub fn tray_script_candidates(exe_dir: Option<&str>) -> (r: Vec<Place>)
    ensures
        r@.map_values(|c: Place| c@) == script_candidates(
            match exe_dir {
                Some(d) => Some(d@),
                None => None,
            },
        ),
{
    let mut r: Vec<Place> = Vec::new();
    r.push(candidate(String::from_str("/opt/predator-sense/tray_helper.py"), false));
    r.push(candidate(String::from_str("/opt/predator-sense/resources/tray_helper.py"), false));
    match exe_dir {
        Some(d) => {
            r.push(candidate(join_path(d, "tray_helper.py"), true));
            r.push(candidate(join_path(d, "resources/tray_helper.py"), true));
            r.push(candidate(join_path(d, "../../resources/tray_helper.py"), true));
        },
        None => {},
    }
    assert(r@.map_values(|c: Place| c@) =~= script_candidates(
        match exe_dir {
            Some(d) => Some(d@),
            None => None,
        },
    ));
    r
}

/// The search for the tray helper script: the first of its candidate places
/// that exists (see `script_candidates`).
pub fn tray_script_search(exe: &ExeLocation) -> (r: PlaceSearch)
    ensures
        r.places() == script_candidates(exe_dir_of(*exe)),
        r.answers() == Seq::<bool>::empty(),
{
    PlaceSearch::new(tray_script_candidates(exe_dir(exe)))
}

impl TrayManager {
    pub fn new() -> (r: TrayManager)
        ensures
            !r.started,
    {
        TrayManager { started: false }
    }

    /// Decides how to start the tray, from the helper script found (if any)
    /// and the process id of a live tray helper (if any). It is idempotent: a
    /// healthy running tray is not duplicated.
    pub fn start(&mut self, script: Option<String>, live_pid: Option<u32>) -> (r: TrayAction)
        ensures
            match script {
                None => r is NoScript && final(self).started == old(self).started,
                Some(s) => match live_pid {
                    Some(pid) => r == TrayAction::AlreadyRunning(pid) && final(self).started,
                    None => {
                        &&& r matches TrayAction::Spawn(sp) && starts_script(sp, s@)
                        &&& final(self).started == old(self).started
                    },
                },
            },
    {
        match script {
            None => TrayAction::NoScript,
            Some(s) => match live_pid {
                Some(pid) => {
                    self.started = true;
                    TrayAction::AlreadyRunning(pid)
                },
                None => TrayAction::Spawn(tray_spawn(s.as_str())),
            },
        }
    }

    /// Reports whether spawning the helper succeeded; the tray counts as
    /// started once it has.
    pub fn spawn_finished(&mut self, spawned: bool)
        ensures
            final(self).started == (old(self).started || spawned),
    {
        if spawned {
            self.started = true;
        }
    }
}

/// The process id recorded in the lock file: its trimmed contents as a
/// `u32`, where 0 counts as none.
pub open spec fn lock_pid_of(content: Option<Seq<char>>) -> Option<u32> {
    match content {
        Some(c) => match parsed_unsigned(trimmed(c), u32::MAX as nat) {
            Some(v) => if v == 0 {
                None
            } else {
                Some(v as u32)
            },
            None => None,
        },
        None => None,
    }
}

/// A tray helper's process id, written to the lock file in decimal (with or
/// without a line end), reads back as that id: every nonzero `u32` does.
/// Zero, and a lock file that could not be read, name no process.
pub proof fn law_lock_pid_reads_back(p: u32)
    ensures
        p > 0 ==> lock_pid_of(Some(decimal(p as nat) + "\n"@)) == Some(p),
        p > 0 ==> lock_pid_of(Some(decimal(p as nat))) == Some(p),
        lock_pid_of(Some(decimal(0))) is None,
        lock_pid_of(None) is None,
{
    law_decimal_trims_to_itself(p as nat);
    law_decimal_parses_back(p as nat, u32::MAX as nat);
    law_decimal_trims_to_itself(0);
    law_decimal_parses_back(0, u32::MAX as nat);
}

/// Reads the process id from the lock file's contents (none when the file
/// could not be read).
pub fn lock_pid(content: &Option<String>) -> (r: Option<u32>)
    ensures
        r == lock_pid_of(
            match content {
                Some(c) => Some(c@),
                None => None,
            },
        ),
{
    match content {
        Some(c) => {
            let t = trim(c.as_str());
            match parse_unsigned(t.as_str(), 4294967295) {
                Some(v) => if v == 0 {
                    None
                } else {
                    Some(v as u32)
                },
                None => None,
            }
        },
        None => None,
    }
}

/// The `comm` file of a process, which exists while the process lives.
pub fn comm_path(pid: u32) -> (r: String)
    ensures
        r@ == "/proc/"@ + decimal(pid as nat) + "/comm"@,
{
    let mut p = String::from_str("/proc/");
    let num = to_decimal(pid as u64);
    p.append(num.as_str());
    p.append("/comm");
    p
}

/// Whether a process name (its `comm` file, none when it could not be read)
/// is that of the Python tray helper.
pub fn is_tray_process(comm: &Option<String>) -> (r: bool)
    ensures
        r == is_python(*comm),
{
    match comm {
        Some(c) => {
            let t = trim(c.as_str());
            starts_with(t.as_str(), "python")
        },
        None => false,
    }
}

/// The live tray helper: the process id from the lock file when that
/// process still runs Python.
pub fn live_tray_pid(pid: Option<u32>, comm: &Option<String>) -> (r: Option<u32>)
    ensures
        r == match pid {
            Some(p) => if is_python(*comm) {
                Some(p)
            } else {
                None::<u32>
            },
            None => None,
        },
{
    match pid {
        Some(p) => if is_tray_process(comm) {
            Some(p)
        } else {
            None
        },
        None => None,
    }
}

/// A process counts as the tray helper exactly when its trimmed `comm`
/// starts with `python`; an unreadable `comm` does not count.
pub proof fn law_tray_process_is_python(comm: Option<String>)
    ensures
        is_python(comm) <==> (comm matches Some(c) && "python"@.len() <= trimmed(c@).len()
            && trimmed(c@).subrange(0, "python"@.len() as int) == "python"@),
{
}

/// Whether a `comm` reading names a Python process.
pub open spec fn is_python(comm: Option<String>) -> bool {
    comm matches Some(c) && {
        let t = trimmed(c@);
        "python"@.len() <= t.len() && t.subrange(0, "python"@.len() as int) == "python"@
    }
}

} // verus!
