use predator_sense_gui::places::{ExeLocation, PlaceProbe};
use predator_sense_gui::app_state::{is_window_visible, set_window_visible, AppState};
use predator_sense_gui::power_profile::{
    ac_online, check, is_auto, is_mains, set_auto, AutoProfile, PowerProfile, PowerSupply,
};
use predator_sense_gui::tray::{
    comm_path, is_tray_process, live_tray_pid, lock_pid, tray_script_candidates, tray_script_search,
    TrayAction,
    TrayManager, LOCK_FILE, LOG_FILE,
};

#[test]
fn window_visibility_reads_back_what_was_set() {
    let mut s = AppState::new();
    assert!(is_window_visible(&s));
    set_window_visible(&mut s, false);
    assert!(!is_window_visible(&s));
    set_window_visible(&mut s, true);
    assert!(is_window_visible(&s));
}

#[test]
fn auto_profile_acts_only_on_transitions() {
    let mut s = AutoProfile::new();
    assert!(!is_auto(&s));
    assert_eq!(check(&mut s, Some(true)), None);
    set_auto(&mut s, true);
    assert!(is_auto(&s));
    assert_eq!(check(&mut s, None), None);
    assert_eq!(check(&mut s, Some(true)), Some(PowerProfile::Performance));
    assert_eq!(check(&mut s, Some(true)), None);
    assert_eq!(check(&mut s, Some(false)), Some(PowerProfile::Balanced));
    assert_eq!(check(&mut s, Some(false)), None);
    set_auto(&mut s, true);
    assert_eq!(check(&mut s, Some(false)), Some(PowerProfile::Balanced));
    set_auto(&mut s, false);
    assert_eq!(check(&mut s, Some(true)), None);
}

fn supply(kind: &str, online: Option<&str>) -> PowerSupply {
    PowerSupply { kind: kind.to_string(), online: online.map(|o| o.to_string()) }
}

#[test]
fn ac_online_reads_first_mains_supply() {
    assert!(is_mains("Mains\n"));
    assert!(!is_mains("Battery\n"));
    let supplies = vec![
        supply("Battery\n", Some("1\n")),
        supply("Mains\n", None),
        supply("Mains\n", Some("0\n")),
        supply("Mains\n", Some("1\n")),
    ];
    assert_eq!(ac_online(&supplies), Some(false));
    assert_eq!(ac_online(&vec![supply("Mains\n", Some("1\n"))]), Some(true));
    assert_eq!(ac_online(&vec![supply("", None), supply("USB\n", Some("1"))]), None);
    assert_eq!(ac_online(&vec![]), None);
}

#[test]
fn tray_lock_and_process_checks() {
    assert_eq!(lock_pid(&Some("1234\n".to_string())), Some(1234));
    assert_eq!(lock_pid(&Some("0".to_string())), None);
    assert_eq!(lock_pid(&Some("abc".to_string())), None);
    assert_eq!(lock_pid(&None), None);
    assert_eq!(comm_path(1234), "/proc/1234/comm");
    assert!(is_tray_process(&Some("python3\n".to_string())));
    assert!(!is_tray_process(&Some("bash\n".to_string())));
    assert_eq!(live_tray_pid(Some(7), &Some("python3".to_string())), Some(7));
    assert_eq!(live_tray_pid(Some(7), &None), None);
    assert_eq!(live_tray_pid(None, &Some("python3".to_string())), None);
}

#[test]
fn tray_start_is_idempotent() {
    let mut t = TrayManager::new();
    assert!(!t.started);
    assert!(matches!(t.start(None, Some(5)), TrayAction::NoScript));
    assert!(!t.started);
    match t.start(Some("/opt/x/tray_helper.py".to_string()), None) {
        TrayAction::Spawn(sp) => {
            assert_eq!(sp.command.program, "setsid");
            assert_eq!(sp.command.args, vec!["--fork", "python3", "-u", "/opt/x/tray_helper.py"]);
            assert_eq!(sp.env_name, "PYTHONUNBUFFERED");
            assert_eq!(sp.env_value, "1");
            assert_eq!(sp.stderr_log, LOG_FILE);
            assert_eq!(sp.stale_lock, LOCK_FILE);
        }
        _ => panic!("expected a spawn"),
    }
    assert!(!t.started);
    t.spawn_finished(false);
    assert!(!t.started);
    t.spawn_finished(true);
    assert!(t.started);
    let mut t = TrayManager::new();
    assert!(matches!(t.start(Some("s".to_string()), Some(42)), TrayAction::AlreadyRunning(42)));
    assert!(t.started);
}

#[test]
fn tray_script_search_order() {
    let c = tray_script_candidates(None);
    let paths: Vec<(String, bool)> = c.into_iter().map(|c| (c.path, c.canonicalize)).collect();
    assert_eq!(
        paths,
        vec![
            ("/opt/predator-sense/tray_helper.py".to_string(), false),
            ("/opt/predator-sense/resources/tray_helper.py".to_string(), false),
        ]
    );
    let c = tray_script_candidates(Some("/usr/bin"));
    let paths: Vec<(String, bool)> = c.into_iter().map(|c| (c.path, c.canonicalize)).collect();
    assert_eq!(paths.len(), 5);
    assert_eq!(paths[2], ("/usr/bin/tray_helper.py".to_string(), true));
    assert_eq!(paths[3], ("/usr/bin/resources/tray_helper.py".to_string(), true));
    assert_eq!(paths[4], ("/usr/bin/../../resources/tray_helper.py".to_string(), true));
}

#[test]
fn tray_script_search_takes_first_existing() {
    let mut s = tray_script_search(&ExeLocation::Dir("/usr/bin".to_string()));
    let mut asked = Vec::new();
    let found = loop {
        match s.step() {
            PlaceProbe::Check(p) => {
                let exists = p.ends_with("resources/tray_helper.py") && p.starts_with("/usr/bin");
                asked.push(p);
                s.record(exists);
            }
            PlaceProbe::Found(place) => break Some((place.path, place.canonicalize)),
            PlaceProbe::NotFound => break None,
        }
    };
    assert_eq!(found, Some(("/usr/bin/resources/tray_helper.py".to_string(), true)));
    assert_eq!(asked.len(), 4);
    let mut s = tray_script_search(&ExeLocation::Unknown);
    let mut n = 0;
    loop {
        match s.step() {
            PlaceProbe::Check(_) => {
                n += 1;
                s.record(false);
            }
            PlaceProbe::Found(_) => panic!("nothing exists"),
            PlaceProbe::NotFound => break,
        }
    }
    assert_eq!(n, 2);
    let mut s = tray_script_search(&ExeLocation::NoParent);
    assert!(matches!(s.step(), PlaceProbe::Check(ref p) if p == "/opt/predator-sense/tray_helper.py"));
    s.record(true);
    match s.step() {
        PlaceProbe::Found(place) => {
            assert_eq!(place.path, "/opt/predator-sense/tray_helper.py");
            assert!(!place.canonicalize);
        }
        _ => panic!("expected the first place"),
    }
}
