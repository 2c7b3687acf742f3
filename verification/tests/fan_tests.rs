use predator_sense_gui::command::{CommandOutput, CommandReply, Invocation};
use predator_sense_gui::fan::{
    coolboost_outcome, coolboost_read, fan_mode_outcome, get_coolboost, get_pwm_percent,
    helper_read, helper_read_invocation, helper_write_invocation, helper_write_outcome,
    is_root_reply, parse_pwm_reading, percent_to_pwm, pwm_available, pwm_to_percent,
    set_coolboost, set_fan_mode, set_pwm_auto, set_pwm_percent, FanMode, FanModeError,
    WriteStep, HELPER,
};

fn ok(success: bool, stdout: &str, stderr: &str) -> CommandReply {
    Ok(CommandOutput { success, stdout: stdout.to_string(), stderr: stderr.to_string() })
}

fn parts(inv: &Invocation) -> (String, Vec<String>) {
    (inv.program.clone(), inv.args.clone())
}

#[test]
fn custom_fan_mode_is_refused() {
    assert!(matches!(set_fan_mode(FanMode::Custom(40, 60), true), Err(FanModeError::CustomDisabled)));
    assert!(matches!(set_fan_mode(FanMode::Custom(0, 0), false), Err(FanModeError::CustomDisabled)));
}

#[test]
fn firmware_fan_modes_through_pkexec_or_bash() {
    let inv = set_fan_mode(FanMode::Auto, false).unwrap();
    assert_eq!(parts(&inv), ("pkexec".to_string(), vec![HELPER.to_string(), "fan-auto".to_string()]));
    let inv = set_fan_mode(FanMode::Max, true).unwrap();
    assert_eq!(
        parts(&inv),
        ("bash".to_string(), vec!["-c".to_string(), format!("{} fan-max ", HELPER)])
    );
}

#[test]
fn root_detection() {
    assert!(is_root_reply(&ok(true, "0\n", "")));
    assert!(is_root_reply(&ok(false, " 0 ", "")));
    assert!(!is_root_reply(&ok(true, "1000\n", "")));
    assert!(!is_root_reply(&Err("not found".to_string())));
}

#[test]
fn outcomes_of_helper_runs() {
    assert_eq!(fan_mode_outcome(ok(true, "", "")), Ok(()));
    assert_eq!(fan_mode_outcome(ok(false, "", "  denied\n")), Err("denied".to_string()));
    assert_eq!(
        fan_mode_outcome(Err("No such file".to_string())),
        Err("Failed to execute: No such file".to_string())
    );
    assert_eq!(coolboost_outcome(Err("x".to_string())), Err("Failed: x".to_string()));
    assert_eq!(helper_write_outcome(Err("x".to_string())), Err("x".to_string()));
    assert_eq!(helper_write_outcome(ok(false, "", "bad value\n")), Err("bad value".to_string()));
}

#[test]
fn coolboost() {
    let inv = set_coolboost(true);
    assert_eq!(
        parts(&inv),
        ("pkexec".to_string(), vec![HELPER.to_string(), "coolboost".to_string(), "1".to_string()])
    );
    assert_eq!(set_coolboost(false).args[2], "0");
    assert_eq!(parts(&coolboost_read()), (HELPER.to_string(), vec!["coolboost-read".to_string()]));
    assert!(get_coolboost(&ok(true, "1\n", "")));
    assert!(!get_coolboost(&ok(false, "1\n", "")));
    assert!(!get_coolboost(&ok(true, "0\n", "")));
    assert!(!get_coolboost(&Err("e".to_string())));
}

#[test]
fn helper_reads_and_writes() {
    assert_eq!(parts(&helper_read_invocation("pwm-available")).1, vec!["pwm-available".to_string()]);
    assert_eq!(helper_read(&ok(true, " 1 \n", "")), Some("1".to_string()));
    assert_eq!(helper_read(&ok(false, "1", "")), None);
    assert_eq!(helper_read(&Err("e".to_string())), None);
    assert_eq!(
        parts(&helper_write_invocation("pwm-cpu", "127", true)),
        (HELPER.to_string(), vec!["pwm-cpu".to_string(), "127".to_string()])
    );
    assert_eq!(
        parts(&helper_write_invocation("pwm-cpu", "127", false)).1,
        vec![HELPER.to_string(), "pwm-cpu".to_string(), "127".to_string()]
    );
    assert!(pwm_available(&Some("1".to_string())));
    assert!(!pwm_available(&Some("0".to_string())));
    assert!(!pwm_available(&None));
}

#[test]
fn pwm_percent_conversion() {
    assert_eq!(percent_to_pwm(0), 0);
    assert_eq!(percent_to_pwm(50), 127);
    assert_eq!(percent_to_pwm(100), 255);
    assert_eq!(percent_to_pwm(200), 255);
    assert_eq!(pwm_to_percent(255), 100);
    assert_eq!(pwm_to_percent(128), 50);
    assert_eq!(pwm_to_percent(256), 100);
    assert_eq!(pwm_to_percent(600), 100);
    assert_eq!(pwm_to_percent(u16::MAX), 100);
    for p in 0..=255u8 {
        let m = p.min(100);
        let expected = if m % 20 == 0 { m } else { m - 1 };
        let written = predator_sense_gui::text::to_decimal(percent_to_pwm(p) as u64);
        let back = parse_pwm_reading(&Some(written)).unwrap();
        assert_eq!(pwm_to_percent(back), expected, "percent {}", p);
    }
    assert_eq!(pwm_to_percent(percent_to_pwm(50) as u16), 49);
}

#[test]
fn pwm_readings() {
    assert_eq!(parse_pwm_reading(&Some("128".to_string())), Some(128));
    assert_eq!(parse_pwm_reading(&Some("x".to_string())), None);
    assert_eq!(get_pwm_percent(&Some("255".to_string()), &Some("128".to_string())), Some((100, 50)));
    assert_eq!(get_pwm_percent(&None, &Some("128".to_string())), None);
    assert_eq!(get_pwm_percent(&Some("600".to_string()), &Some("65535".to_string())), Some((100, 100)));
    assert_eq!(get_pwm_percent(&Some("255".to_string()), &Some("-1".to_string())), None);
}

fn run(mut w: predator_sense_gui::fan::HelperWrites, results: &[Result<(), String>]) -> (Vec<(String, String)>, Result<(), String>) {
    let mut done = Vec::new();
    let mut k = 0;
    loop {
        match w.step() {
            WriteStep::Write(hw) => {
                done.push((hw.action.clone(), hw.value.clone()));
                w.record(results[k].clone());
                k += 1;
            }
            WriteStep::Done(r) => return (done, r),
        }
    }
}

#[test]
fn set_pwm_percent_writes_in_order() {
    let (done, r) = run(set_pwm_percent(50, 150), &[Ok(()), Ok(()), Ok(()), Ok(())]);
    assert_eq!(r, Ok(()));
    assert_eq!(
        done,
        vec![
            ("pwm-cpu-enable".to_string(), "1".to_string()),
            ("pwm-gpu-enable".to_string(), "1".to_string()),
            ("pwm-cpu".to_string(), "127".to_string()),
            ("pwm-gpu".to_string(), "255".to_string()),
        ]
    );
}

#[test]
fn write_sequence_stops_at_first_failure() {
    let (done, r) = run(set_pwm_percent(10, 10), &[Ok(()), Err("denied".to_string())]);
    assert_eq!(r, Err("denied".to_string()));
    assert_eq!(done.len(), 2);
    let (done, r) = run(set_pwm_auto(), &[Ok(()), Ok(())]);
    assert_eq!(r, Ok(()));
    assert_eq!(
        done,
        vec![
            ("pwm-cpu-enable".to_string(), "2".to_string()),
            ("pwm-gpu-enable".to_string(), "2".to_string())
        ]
    );
}
