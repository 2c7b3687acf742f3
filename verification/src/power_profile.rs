use vstd::prelude::*;

use crate::text::{same_text, trim, trimmed};

verus! {

/// The performance profiles that automatic switching selects between.
#[derive(Debug, Clone, Copy, PartialEq, Eq, Structural)]
pub enum PowerProfile {
    Performance,
    Balanced,
}

/// The profile for a power source: Performance on AC, Balanced on battery.
pub open spec fn profile_for(ac: bool) -> PowerProfile {
    if ac {
        PowerProfile::Performance
    } else {
        PowerProfile::Balanced
    }
}

/// Automatic profile switching: whether it is on, and the power source seen
/// last (unknown after switching it on or off).
pub struct AutoProfile {
    enabled: bool,
    /// -1 unknown, 0 battery, 1 AC.
    last_ac: i8,
}

impl View for AutoProfile {
    type V = (bool, Option<bool>);

    closed spec fn view(&self) -> (bool, Option<bool>) {
        (
            self.enabled,
            if self.last_ac == 1 {
                Some(true)
            } else if self.last_ac == 0 {
                Some(false)
            } else {
                None
            },
        )
    }
}

/// One periodic check: from the state and the power source read now (none
/// when it could not be read), the next state and the profile to apply.
/// Nothing happens while switching is off or the source is unknown; else
/// the source is remembered and a profile is applied only when it changed.
pub open spec fn next_check(s: (bool, Option<bool>), ac: Option<bool>) -> (
    (bool, Option<bool>),
    Option<PowerProfile>,
) {
    if !s.0 {
        (s, None)
    } else {
        match ac {
            None => (s, None),
            Some(a) => (
                (true, Some(a)),
                if s.1 == Some(a) {
                    None
                } else {
                    Some(profile_for(a))
                },
            ),
        }
    }
}

impl AutoProfile {
    /// Switching starts off, with the source unknown.
    pub fn new() -> (r: AutoProfile)
        ensures
            r@ == (false, None::<bool>),
    {
        AutoProfile { enabled: false, last_ac: -1 }
    }
}

/// Turns automatic switching on or off; the next check re-applies the
/// profile for the current source.
pub fn set_auto(state: &mut AutoProfile, v: bool)
    ensures
        final(state)@ == (v, None::<bool>),
{
    state.enabled = v;
    state.last_ac = -1;
}

/// Whether automatic switching is on.
pub fn is_auto(state: &AutoProfile) -> (r: bool)
    ensures
        r == state@.0,
{
    state.enabled
}

/// The periodic check, given the power source read now: the profile to
/// apply, if the source changed while switching is on.
pub fn check(state: &mut AutoProfile, ac: Option<bool>) -> (r: Option<PowerProfile>)
    ensures
        (final(state)@, r) == next_check(old(state)@, ac),
{
    if !state.enabled {
        return None;
    }
    let a = match ac {
        Some(v) => v,
        None => return None,
    };
    let cur: i8 = if a {
        1
    } else {
        0
    };
    let prev = state.last_ac;
    state.last_ac = cur;
    if prev == cur {
        return None;
    }
    if a {
        Some(PowerProfile::Performance)
    } else {
        Some(PowerProfile::Balanced)
    }
}

/// While the source stays the same, a second check applies nothing: the
/// switching never fights a manual choice.
pub proof fn law_stable_source_applies_nothing(s: (bool, Option<bool>), a: bool)
    ensures
        next_check(next_check(s, Some(a)).0, Some(a)).1 is None,
{
}

/// Turning switching on makes the next check apply the profile for the
/// current source.
pub proof fn law_enabling_reapplies(a: bool)
    ensures
        next_check((true, None), Some(a)).1 == Some(profile_for(a)),
{
}

/// A change of source while switching is on applies the profile for the new
/// source: Performance when AC is plugged in, Balanced when it is unplugged.
pub proof fn law_transition_applies(a: bool)
    ensures
        next_check((true, Some(!a)), Some(a)) == ((true, Some(a)), Some(profile_for(a))),
        profile_for(true) == PowerProfile::Performance,
        profile_for(false) == PowerProfile::Balanced,
{
}

/// While switching is off, checks change nothing and apply nothing.
pub proof fn law_disabled_is_inert(last: Option<bool>, ac: Option<bool>)
    ensures
        next_check((false, last), ac) == ((false, last), None::<PowerProfile>),
{
}

/// One power supply as read from sysfs: its `type` file (empty when it could
/// not be read) and its `online` file, if it was read.
pub struct PowerSupply {
    pub kind: String,
    pub online: Option<String>,
}

impl View for PowerSupply {
    type V = (Seq<char>, Option<Seq<char>>);

    open spec fn view(&self) -> (Seq<char>, Option<Seq<char>>) {
        (
            self.kind@,
            match self.online {
                Some(o) => Some(o@),
                None => None,
            },
        )
    }
}

/// Whether a supply's `type` names mains power.
pub open spec fn mains(kind: Seq<char>) -> bool {
    trimmed(kind) == "Mains"@
}

/// Whether a supply with this `type` is mains power, so that its `online`
/// file is worth reading.
pub fn is_mains(kind: &str) -> (r: bool)
    ensures
        r == mains(kind@),
{
    let t = trim(kind);
    same_text(t.as_str(), "Mains")
}

/// Whether AC is connected: the `online` state of the first mains supply
/// whose `online` file could be read; none if there is no such supply.
pub open spec fn ac_reading(supplies: Seq<(Seq<char>, Option<Seq<char>>)>) -> Option<bool>
    decreases supplies.len(),
{
    if supplies.len() == 0 {
        None
    } else if mains(supplies[0].0) && supplies[0].1 is Some {
        Some(trimmed(supplies[0].1->0) == "1"@)
    } else {
        ac_reading(supplies.drop_first())
    }
}

/// The AC state is read from the first supply whose trimmed `type` is
/// `Mains` and whose `online` file could be read: AC is on exactly when that
/// file, trimmed, is `1`. Supplies before it do not matter.
pub proof fn law_ac_reads_first_mains_supply(
    supplies: Seq<(Seq<char>, Option<Seq<char>>)>,
    i: int,
)
    requires
        0 <= i < supplies.len(),
        trimmed(supplies[i].0) == "Mains"@,
        supplies[i].1 is Some,
        forall|j: int|
            0 <= j < i ==> !(trimmed(#[trigger] supplies[j].0) == "Mains"@ && supplies[j].1 is Some),
    ensures
        ac_reading(supplies) == Some(trimmed(supplies[i].1->0) == "1"@),
    decreases i,
{
    if i > 0 {
        let rest = supplies.drop_first();
        assert(!(trimmed(supplies[0].0) == "Mains"@ && supplies[0].1 is Some));
        assert forall|j: int| 0 <= j < i - 1 implies !(trimmed(#[trigger] rest[j].0) == "Mains"@
            && rest[j].1 is Some) by {
            assert(rest[j] == supplies[j + 1]);
        }
        law_ac_reads_first_mains_supply(rest, i - 1);
    }
}

/// With no readable mains supply, the AC state is unknown.
pub proof fn law_ac_unknown_without_mains(supplies: Seq<(Seq<char>, Option<Seq<char>>)>)
    requires
        forall|j: int|
            0 <= j < supplies.len() ==> !(trimmed(#[trigger] supplies[j].0) == "Mains"@
                && supplies[j].1 is Some),
    ensures
        ac_reading(supplies) is None,
    decreases supplies.len(),
{
    if supplies.len() > 0 {
        let rest = supplies.drop_first();
        assert(!(trimmed(supplies[0].0) == "Mains"@ && supplies[0].1 is Some));
        assert forall|j: int| 0 <= j < rest.len() implies !(trimmed(#[trigger] rest[j].0)
            == "Mains"@ && rest[j].1 is Some) by {
            assert(rest[j] == supplies[j + 1]);
        }
        law_ac_unknown_without_mains(rest);
    }
}

/// True if AC is connected, from the supplies listed in
/// `/sys/class/power_supply`, in directory order.
pub fn ac_online(supplies: &Vec<PowerSupply>) -> (r: Option<bool>)
    ensures
        r == ac_reading(supplies@.map_values(|p: PowerSupply| p@)),
{
    let ghost all = supplies@.map_values(|p: PowerSupply| p@);
    let n = supplies.len();
    let mut i: usize = 0;
    assert(all.skip(0) =~= all);
    while i < n
        invariant
            n == supplies@.len(),
            all == supplies@.map_values(|p: PowerSupply| p@),
            i <= n,
            ac_reading(all.skip(i as int)) == ac_reading(all),
        decreases n - i,
    {
        let p = &supplies[i];
        assert(all.skip(i as int)[0] == p@);
        assert(all.skip(i as int).drop_first() =~= all.skip(i + 1));
        if is_mains(p.kind.as_str()) {
            match &p.online {
                Some(o) => {
                    let t = trim(o.as_str());
                    return Some(same_text(t.as_str(), "1"));
                },
                None => {},
            }
        }
        i = i + 1;
    }
    assert(all.skip(n as int) =~= Seq::<(Seq<char>, Option<Seq<char>>)>::empty());
    None
}

} // verus!
