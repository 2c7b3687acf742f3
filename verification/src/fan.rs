use vstd::prelude::*;

use crate::command::{invocation, str_views, CommandReply, Invocation};
use crate::text::{decimal, law_decimal_parses_back, parse_unsigned, parsed_unsigned, same_text, to_decimal, trim, trimmed};

verus! {

/// The privileged helper that talks to the embedded controller.
pub const HELPER: &'static str = "/opt/predator-sense/predator-sense-helper";

/// Fan control modes.
#[derive(Debug, Clone, Copy, PartialEq, Eq, Structural)]
pub enum FanMode {
    Auto,
    Max,
    /// CPU and GPU fan percentages.
    Custom(u8, u8),
}

/// Why a fan mode was not applied.
#[derive(Debug, Clone, Copy, PartialEq, Eq, Structural)]
pub enum FanModeError {
    /// Custom fan curves are turned off for safety; the user is shown the
    /// note filed under `fan_note`.
    CustomDisabled,
}

/// The helper action that selects a firmware fan mode; none for `Custom`.
pub open spec fn fan_action(mode: FanMode) -> Option<Seq<char>> {
    match mode {
        FanMode::Auto => Some("fan-auto"@),
        FanMode::Max => Some("fan-max"@),
        FanMode::Custom(_, _) => None,
    }
}

/// How the helper is started for a fan mode: through `bash -c` when already
/// root, through `pkexec` otherwise.
pub open spec fn fan_mode_command(action: Seq<char>, is_root: bool) -> (
    Seq<char>,
    Seq<Seq<char>>,
) {
    if is_root {
        ("bash"@, seq!["-c"@, HELPER@ + " "@ + action + " "@])
    } else {
        ("pkexec"@, seq![HELPER@, action])
    }
}

/// Each firmware mode has its own helper action: Auto is `fan-auto`, Max is
/// `fan-max`, and every Custom setting is refused.
pub proof fn law_fan_mode_actions(cpu: u8, gpu: u8)
    ensures
        fan_action(FanMode::Auto) == Some("fan-auto"@),
        fan_action(FanMode::Max) == Some("fan-max"@),
        fan_action(FanMode::Custom(cpu, gpu)) is None,
        fan_action(FanMode::Auto) != fan_action(FanMode::Max),
{
    reveal_strlit("fan-auto");
    reveal_strlit("fan-max");
    assert("fan-auto"@[4] != "fan-max"@[4]);
}

/// The command for a fan mode carries that mode's action: without root it is
/// `pkexec HELPER <action>`, as root the `bash -c` line is `HELPER <action> `;
/// so different actions never give the same command.
pub proof fn law_fan_mode_command_carries_action(a: Seq<char>, b: Seq<char>, is_root: bool)
    ensures
        fan_mode_command(a, false) == ("pkexec"@, seq![HELPER@, a]),
        fan_mode_command(a, true) == ("bash"@, seq!["-c"@, HELPER@ + " "@ + a + " "@]),
        fan_mode_command(a, is_root) == fan_mode_command(b, is_root) ==> a == b,
{
    if fan_mode_command(a, is_root) == fan_mode_command(b, is_root) {
        if is_root {
            let la = HELPER@ + " "@ + a + " "@;
            let lb = HELPER@ + " "@ + b + " "@;
            assert(fan_mode_command(a, is_root).1[1] == la);
            assert(fan_mode_command(b, is_root).1[1] == lb);
            assert(la == lb);
            let k = (HELPER@ + " "@).len() as int;
            assert(la.len() == lb.len());
            assert(a =~= la.subrange(k, k + a.len()));
            assert(b =~= lb.subrange(k, k + b.len()));
        } else {
            assert(fan_mode_command(a, is_root).1[1] == a);
            assert(fan_mode_command(b, is_root).1[1] == b);
        }
    }
}

/// The helper action for a fan mode, or the refusal of `Custom`.
pub fn fan_mode_action(mode: FanMode) -> (r: Result<&'static str, FanModeError>)
    ensures
        match fan_action(mode) {
            Some(a) => r matches Ok(s) && s@ == a,
            None => r == Err::<&str, FanModeError>(FanModeError::CustomDisabled),
        },
{
    match mode {
        FanMode::Auto => Ok("fan-auto"),
        FanMode::Max => Ok("fan-max"),
        FanMode::Custom(_, _) => Err(FanModeError::CustomDisabled),
    }
}

/// The process that applies `mode`, given whether we already run as root.
/// Auto and Max use firmware modes; Custom is refused.
pub fn set_fan_mode(mode: FanMode, is_root: bool) -> (r: Result<Invocation, FanModeError>)
    ensures
        match fan_action(mode) {
            Some(a) => r matches Ok(inv) && inv@ == fan_mode_command(a, is_root),
            None => r matches Err(e) && e == FanModeError::CustomDisabled,
        },
{
    let action = match fan_mode_action(mode) {
        Ok(a) => a,
        Err(e) => return Err(e),
    };
    if is_root {
        let mut line = String::from_str(HELPER);
        line.append(" ");
        line.append(action);
        line.append(" ");
        let l = line.as_str();
        let inv = invocation("bash", &["-c", l]);
        assert(str_views(seq!["-c", l]) =~= seq!["-c"@, l@]);
        Ok(inv)
    } else {
        let inv = invocation("pkexec", &[HELPER, action]);
        assert(str_views(seq![HELPER, action]) =~= seq![HELPER@, action@]);
        Ok(inv)
    }
}

/// Whether `id -u` said that we run as root: its output, trimmed, is `0`.
/// A failure to start it counts as not root.
pub fn is_root_reply(reply: &CommandReply) -> (r: bool)
    ensures
        r == (reply matches Ok(o) && trimmed(o.stdout@) == "0"@),
{
    match reply {
        Ok(o) => {
            let t = trim(o.stdout.as_str());
            same_text(t.as_str(), "0")
        },
        Err(_) => false,
    }
}

/// What a helper run gives back: success, or the trimmed error output of a
/// failed run, or `prefix` followed by the error that kept it from starting.
pub open spec fn outcome_of(reply: CommandReply, prefix: Seq<char>) -> Result<(), Seq<char>> {
    match reply {
        Ok(o) => if o.success {
            Ok(())
        } else {
            Err(trimmed(o.stderr@))
        },
        Err(e) => Err(prefix + e@),
    }
}

/// A helper run is reported as success exactly when it started and exited
/// with success; a run that failed reports its trimmed error output, and one
/// that could not start reports `prefix` and the reason.
pub proof fn law_outcome_success_only_on_success(reply: CommandReply, prefix: Seq<char>)
    ensures
        outcome_of(reply, prefix) is Ok <==> (reply matches Ok(o) && o.success),
        reply matches Ok(o) ==> (!o.success ==> outcome_of(reply, prefix) == Err::<
            (),
            Seq<char>,
        >(trimmed(o.stderr@))),
        reply matches Err(e) ==> outcome_of(reply, prefix) == Err::<(), Seq<char>>(prefix + e@),
{
}

/// The views of a result whose error is text.
pub open spec fn result_view(r: Result<(), String>) -> Result<(), Seq<char>> {
    match r {
        Ok(()) => Ok(()),
        Err(e) => Err(e@),
    }
}

fn outcome(reply: CommandReply, prefix: &str) -> (r: Result<(), String>)
    ensures
        result_view(r) == outcome_of(reply, prefix@),
{
    match reply {
        Ok(o) => if o.success {
            Ok(())
        } else {
            Err(trim(o.stderr.as_str()))
        },
        Err(e) => {
            let mut m = String::from_str(prefix);
            m.append(e.as_str());
            Err(m)
        },
    }
}

/// The result of applying a fan mode.
pub fn fan_mode_outcome(reply: CommandReply) -> (r: Result<(), String>)
    ensures
        result_view(r) == outcome_of(reply, "Failed to execute: "@),
{
    outcome(reply, "Failed to execute: ")
}

/// The process that turns CoolBoost on or off.
pub fn set_coolboost(enabled: bool) -> (r: Invocation)
    ensures
        r@ == ("pkexec"@, seq![HELPER@, "coolboost"@, if enabled { "1"@ } else { "0"@ }]),
{
    let val = if enabled {
        "1"
    } else {
        "0"
    };
    let inv = invocation("pkexec", &[HELPER, "coolboost", val]);
    assert(str_views(seq![HELPER, "coolboost", val]) =~= seq![HELPER@, "coolboost"@, val@]);
    inv
}

/// The result of turning CoolBoost on or off.
pub fn coolboost_outcome(reply: CommandReply) -> (r: Result<(), String>)
    ensures
        result_view(r) == outcome_of(reply, "Failed: "@),
{
    outcome(reply, "Failed: ")
}

/// The process that reads the CoolBoost state from the controller.
pub fn coolboost_read() -> (r: Invocation)
    ensures
        r@ == (HELPER@, seq!["coolboost-read"@]),
{
    let inv = invocation(HELPER, &["coolboost-read"]);
    assert(str_views(seq!["coolboost-read"]) =~= seq!["coolboost-read"@]);
    inv
}

/// The CoolBoost state: on when the helper ran successfully and printed `1`.
pub fn get_coolboost(reply: &CommandReply) -> (r: bool)
    ensures
        r == (reply matches Ok(o) && o.success && trimmed(o.stdout@) == "1"@),
{
    match reply {
        Ok(o) => {
            if o.success {
                let t = trim(o.stdout.as_str());
                same_text(t.as_str(), "1")
            } else {
                false
            }
        },
        Err(_) => false,
    }
}

/// The process that reads one value through the helper.
pub fn helper_read_invocation(action: &str) -> (r: Invocation)
    ensures
        r@ == (HELPER@, seq![action@]),
{
    let inv = invocation(HELPER, &[action]);
    assert(str_views(seq![action]) =~= seq![action@]);
    inv
}

/// The value a helper read gave: its trimmed output when it ran successfully.
pub fn helper_read(reply: &CommandReply) -> (r: Option<String>)
    ensures
        match reply {
            Ok(o) if o.success => r matches Some(v) && v@ == trimmed(o.stdout@),
            _ => r is None,
        },
{
    match reply {
        Ok(o) => if o.success {
            Some(trim(o.stdout.as_str()))
        } else {
            None
        },
        Err(_) => None,
    }
}

/// The process that writes one value through the helper: directly when
/// already root, through `pkexec` otherwise.
pub fn helper_write_invocation(action: &str, value: &str, is_root: bool) -> (r: Invocation)
    ensures
        r@ == if is_root {
            (HELPER@, seq![action@, value@])
        } else {
            ("pkexec"@, seq![HELPER@, action@, value@])
        },
{
    if is_root {
        let inv = invocation(HELPER, &[action, value]);
        assert(str_views(seq![action, value]) =~= seq![action@, value@]);
        inv
    } else {
        let inv = invocation("pkexec", &[HELPER, action, value]);
        assert(str_views(seq![HELPER, action, value]) =~= seq![HELPER@, action@, value@]);
        inv
    }
}

/// The result of a helper write.
pub fn helper_write_outcome(reply: CommandReply) -> (r: Result<(), String>)
    ensures
        result_view(r) == outcome_of(reply, ""@),
{
    outcome(reply, "")
}

/// Whether the kernel exposes hwmon PWM control: the helper's
/// `pwm-available` read gave `1`.
pub fn pwm_available(reading: &Option<String>) -> (r: bool)
    ensures
        r == (reading matches Some(v) && v@ == "1"@),
{
    match reading {
        Some(v) => same_text(v.as_str(), "1"),
        None => false,
    }
}


/// The hwmon PWM duty (0-255) for a fan percentage; percentages above 100
/// count as 100.
pub open spec fn pwm_of_percent(pct: nat) -> nat {
    (if pct < 100 {
        pct
    } else {
        100
    }) * 255 / 100
}

/// The fan percentage (0-100) for a PWM duty; duties above hwmon's 255
/// count as 255.
pub open spec fn percent_of_pwm(raw: nat) -> nat {
    (if raw < 255 {
        raw
    } else {
        255
    }) * 100 / 255
}

/// Every percentage gives a duty within hwmon's 0-255 range; 0% is off and
/// 100% (or more) is full duty.
pub proof fn law_pwm_in_range(pct: nat)
    ensures
        pwm_of_percent(pct) <= 255,
        pwm_of_percent(0) == 0,
        pct >= 100 ==> pwm_of_percent(pct) == 255,
{
    let p: nat = if pct < 100 {
        pct
    } else {
        100
    };
    assert(p * 255 / 100 <= 255) by (nonlinear_arith)
        requires
            p <= 100,
    ;
}

/// Every duty reads as a percentage from 0 to 100; full duty is 100%.
pub proof fn law_percent_in_range(raw: nat)
    ensures
        percent_of_pwm(raw) <= 100,
        percent_of_pwm(0) == 0,
        raw >= 255 ==> percent_of_pwm(raw) == 100,
{
    let d: nat = if raw < 255 {
        raw
    } else {
        255
    };
    assert(d * 100 / 255 <= 100) by (nonlinear_arith)
        requires
            d <= 255,
    ;
}

/// The percentage read back from the duty that `pct` was set to: the
/// percentage (above 100 counting as 100) when it is a multiple of 20, else
/// one point less, lost to rounding down twice.
pub open spec fn read_back_percent(pct: nat) -> nat {
    let m: nat = if pct < 100 {
        pct
    } else {
        100
    };
    if m % 20 == 0 {
        m
    } else {
        (m - 1) as nat
    }
}

/// Setting a percentage and reading the duty back: the duty is written in
/// decimal, that text parses back to the duty, and the duty reads as
/// `read_back_percent(pct)`: never more than was set, at most one point less.
pub proof fn law_percent_round_trip(pct: nat)
    ensures
        parsed_unsigned(decimal(pwm_of_percent(pct)), 65535) == Some(pwm_of_percent(pct)),
        percent_of_pwm(pwm_of_percent(pct)) == read_back_percent(pct),
        read_back_percent(pct) <= pct,
        read_back_percent(pct) + 1 >= (if pct < 100 {
            pct
        } else {
            100
        }),
{
    law_pwm_in_range(pct);
    law_decimal_parses_back(pwm_of_percent(pct), 65535);
    let m: u16 = if pct < 100 {
        pct as u16
    } else {
        100
    };
    assert(m <= 100 ==> ((m * 255) / 100) * 100 / 255 == (if m % 20 == 0 {
        m as int
    } else {
        m - 1
    })) by (bit_vector);
}

/// Converts a fan percentage to a PWM duty.
pub fn percent_to_pwm(pct: u8) -> (r: u8)
    ensures
        r == pwm_of_percent(pct as nat),
{
    let p: u16 = if pct < 100 {
        pct as u16
    } else {
        100
    };
    assert(p * 255 / 100 <= 255) by (nonlinear_arith)
        requires
            p <= 100,
    ;
    ((p * 255) / 100) as u8
}

/// Converts a PWM duty to a fan percentage from 0 to 100.
pub fn pwm_to_percent(raw: u16) -> (r: u8)
    ensures
        r == percent_of_pwm(raw as nat),
        r <= 100,
{
    let d: u16 = if raw < 255 {
        raw
    } else {
        255
    };
    proof {
        law_percent_in_range(raw as nat);
    }
    assert(d * 100 / 255 <= 100) by (nonlinear_arith)
        requires
            d <= 255,
    ;
    ((d * 100) / 255) as u8
}

/// The number a helper reading holds, as `parse::<u16>` reads it.
pub open spec fn pwm_reading(reading: Option<String>) -> Option<nat> {
    match reading {
        Some(t) => parsed_unsigned(t@, 65535),
        None => None,
    }
}

/// Parses a helper reading of a PWM duty.
pub fn parse_pwm_reading(reading: &Option<String>) -> (r: Option<u16>)
    ensures
        match pwm_reading(*reading) {
            Some(v) => r == Some(v as u16),
            None => r is None,
        },
{
    match reading {
        Some(t) => match parse_unsigned(t.as_str(), 65535) {
            Some(v) => Some(v as u16),
            None => None,
        },
        None => None,
    }
}

/// The current CPU and GPU fan speeds as percentages, from the helper's
/// `pwm-cpu-read` and `pwm-gpu-read` readings; none unless both parse.
/// Both percentages are at most 100.
pub fn get_pwm_percent(cpu: &Option<String>, gpu: &Option<String>) -> (r: Option<(u8, u8)>)
    ensures
        r matches Some((c, g)) ==> c <= 100 && g <= 100,
        match (pwm_reading(*cpu), pwm_reading(*gpu)) {
            (Some(c), Some(g)) => r == Some(
                (percent_of_pwm(c) as u8, percent_of_pwm(g) as u8),
            ),
            _ => r is None,
        },
{
    let c = match parse_pwm_reading(cpu) {
        Some(v) => v,
        None => return None,
    };
    let g = match parse_pwm_reading(gpu) {
        Some(v) => v,
        None => return None,
    };
    Some((pwm_to_percent(c), pwm_to_percent(g)))
}

/// One value to write through the helper.
pub struct HelperWrite {
    pub action: String,
    pub value: String,
}

impl View for HelperWrite {
    type V = (Seq<char>, Seq<char>);

    open spec fn view(&self) -> (Seq<char>, Seq<char>) {
        (self.action@, self.value@)
    }
}

/// What a write sequence asks for next.
pub enum WriteStep {
    /// Perform this write and report its result.
    Write(HelperWrite),
    /// The sequence is over, with this result.
    Done(Result<(), String>),
}

/// A planned series of helper writes, carried out in order and abandoned at
/// the first one that fails, whose error becomes the result.
pub struct HelperWrites {
    writes: Vec<HelperWrite>,
    next: usize,
    failure: Option<String>,
}

impl HelperWrites {
    #[verifier::type_invariant]
    closed spec fn wf(&self) -> bool {
        &&& self.next <= self.writes@.len()
        &&& self.failure is Some ==> self.next < self.writes@.len()
    }

    /// The planned writes, in order.
    pub closed spec fn plan(&self) -> Seq<(Seq<char>, Seq<char>)> {
        self.writes@.map_values(|w: HelperWrite| w@)
    }

    /// How many writes have succeeded.
    pub closed spec fn succeeded(&self) -> nat {
        self.next as nat
    }

    /// The error of the write that failed, if one did.
    pub closed spec fn failure(&self) -> Option<Seq<char>> {
        match self.failure {
            Some(e) => Some(e@),
            None => None,
        }
    }

    /// Whether the sequence is over: a write failed or all succeeded.
    pub open spec fn finished(&self) -> bool {
        self.failure() is Some || self.succeeded() == self.plan().len()
    }

    fn new(writes: Vec<HelperWrite>) -> (r: HelperWrites)
        ensures
            r.plan() == writes@.map_values(|w: HelperWrite| w@),
            r.succeeded() == 0,
            r.failure() is None,
    {
        HelperWrites { writes, next: 0, failure: None }
    }

    /// What to do now: the next planned write while all so far succeeded,
    /// else the result.
    pub fn step(&self) -> (s: WriteStep)
        ensures
            match self.failure() {
                Some(e) => s matches WriteStep::Done(Err(m)) && m@ == e,
                None => if self.succeeded() == self.plan().len() {
                    s matches WriteStep::Done(Ok(()))
                } else {
                    s matches WriteStep::Write(w) && w@ == self.plan()[self.succeeded() as int]
                },
            },
    {
        proof {
            use_type_invariant(self);
        }
        match &self.failure {
            Some(e) => WriteStep::Done(Err(e.clone())),
            None => if self.next == self.writes.len() {
                WriteStep::Done(Ok(()))
            } else {
                let w = &self.writes[self.next];
                WriteStep::Write(
                    HelperWrite { action: w.action.clone(), value: w.value.clone() },
                )
            },
        }
    }

    /// Reports the result of the write that `step` asked for.
    pub fn record(&mut self, result: Result<(), String>)
        requires
            !old(self).finished(),
        ensures
            final(self).plan() == old(self).plan(),
            match result {
                Ok(()) => {
                    &&& final(self).succeeded() == old(self).succeeded() + 1
                    &&& final(self).failure() is None
                },
                Err(e) => {
                    &&& final(self).succeeded() == old(self).succeeded()
                    &&& final(self).failure() == Some(e@)
                },
            },
    {
        proof {
            use_type_invariant(&*self);
            assert(self.plan().len() == self.writes@.len());
        }
        let n = self.writes.len();
        assert(self.next < n);
        match result {
            Ok(()) => {
                self.next = self.next + 1;
            },
            Err(e) => {
                self.failure = Some(e);
            },
        }
    }
}

fn write(action: &str, value: String) -> (w: HelperWrite)
    ensures
        w@ == (action@, value@),
{
    HelperWrite { action: String::from_str(action), value }
}

/// Sets the CPU and GPU fans to percentages (above 100 counts as 100):
/// both fans are switched to manual mode first, then given their PWM duties.
pub fn set_pwm_percent(cpu_pct: u8, gpu_pct: u8) -> (r: HelperWrites)
    ensures
        r.plan() == seq![
            ("pwm-cpu-enable"@, "1"@),
            ("pwm-gpu-enable"@, "1"@),
            ("pwm-cpu"@, decimal(pwm_of_percent(cpu_pct as nat))),
            ("pwm-gpu"@, decimal(pwm_of_percent(gpu_pct as nat))),
        ],
        r.succeeded() == 0,
        r.failure() is None,
{
    let cpu = percent_to_pwm(cpu_pct);
    let gpu = percent_to_pwm(gpu_pct);
    let mut ws: Vec<HelperWrite> = Vec::new();
    ws.push(write("pwm-cpu-enable", String::from_str("1")));
    ws.push(write("pwm-gpu-enable", String::from_str("1")));
    ws.push(write("pwm-cpu", to_decimal(cpu as u64)));
    ws.push(write("pwm-gpu", to_decimal(gpu as u64)));
    let r = HelperWrites::new(ws);
    assert(r.plan() =~= seq![
        ("pwm-cpu-enable"@, "1"@),
        ("pwm-gpu-enable"@, "1"@),
        ("pwm-cpu"@, decimal(pwm_of_percent(cpu_pct as nat))),
        ("pwm-gpu"@, decimal(pwm_of_percent(gpu_pct as nat))),
    ]);
    r
}

/// Restores automatic fan control on both fans.
pub fn set_pwm_auto() -> (r: HelperWrites)
    ensures
        r.plan() == seq![("pwm-cpu-enable"@, "2"@), ("pwm-gpu-enable"@, "2"@)],
        r.succeeded() == 0,
        r.failure() is None,
{
    let mut ws: Vec<HelperWrite> = Vec::new();
    ws.push(write("pwm-cpu-enable", String::from_str("2")));
    ws.push(write("pwm-gpu-enable", String::from_str("2")));
    let r = HelperWrites::new(ws);
    assert(r.plan() =~= seq![("pwm-cpu-enable"@, "2"@), ("pwm-gpu-enable"@, "2"@)]);
    r
}

} // verus!
