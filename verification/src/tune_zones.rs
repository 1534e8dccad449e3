//! Tune zones and the actions that change them: sorting the zones by
//! number, and adding a typed tune to a zone.
use vstd::prelude::*;

use crate::tune::{sort_plan_ok, sort_zone_plan, ZoneStep};

verus! {

/// A command's value and its comment.
#[derive(Debug)]
pub struct CommandValue {
    pub value: String,
    pub comment: Option<String>,
}

/// A tune zone: its name, its tunes (by name, in order) and the messages
/// shown when a player enters or leaves it.
#[derive(Debug)]
pub struct TuneZone {
    pub name: String,
    pub tunes: Vec<(String, CommandValue)>,
    pub enter_msg: Option<String>,
    pub leave_msg: Option<String>,
}

/// Changes tune zone `index` from its old fields to its new ones.
#[derive(Debug)]
pub struct ChangeTuneZone {
    pub index: u8,
    pub old_name: String,
    pub new_name: String,
    pub old_tunes: Vec<(String, CommandValue)>,
    pub new_tunes: Vec<(String, CommandValue)>,
    pub old_enter_msg: Option<String>,
    pub new_enter_msg: Option<String>,
    pub old_leave_msg: Option<String>,
    pub new_leave_msg: Option<String>,
}

/// The zone's numbers, in the layer's order.
pub open spec fn zone_keys(zones: Seq<(u8, TuneZone)>) -> Seq<u8> {
    zones.map_values(|e: (u8, TuneZone)| e.0)
}

/// `a` records zone `z` (number `k`) as it is, before and after.
pub open spec fn keeps_zone(a: ChangeTuneZone, k: u8, z: TuneZone) -> bool {
    &&& a.index == k
    &&& a.old_name == z.name && a.new_name == z.name
    &&& a.old_tunes@ == z.tunes@ && a.new_tunes@ == z.tunes@
    &&& a.old_enter_msg == z.enter_msg && a.new_enter_msg == z.enter_msg
    &&& a.old_leave_msg == z.leave_msg && a.new_leave_msg == z.leave_msg
}

/// `a` clears zone `z` (number `k`): no name, no tunes, no messages.
pub open spec fn clears_zone(a: ChangeTuneZone, k: u8, z: TuneZone) -> bool {
    &&& a.index == k
    &&& a.old_name == z.name && a.new_name@ == Seq::<char>::empty()
    &&& a.old_tunes@ == z.tunes@ && a.new_tunes@.len() == 0
    &&& a.old_enter_msg == z.enter_msg && a.new_enter_msg is None
    &&& a.old_leave_msg == z.leave_msg && a.new_leave_msg is None
}

/// The action of one step of sorting.
pub open spec fn step_action(zones: Seq<(u8, TuneZone)>, step: ZoneStep, a: ChangeTuneZone) -> bool {
    let (k, z) = zones[step.zone as int];
    if step.clear {
        clears_zone(a, k, z)
    } else {
        keeps_zone(a, k, z)
    }
}

fn copy_opt(o: &Option<String>) -> (r: Option<String>)
    ensures
        r == *o,
{
    match o {
        Some(s) => Some(s.clone()),
        None => None,
    }
}

pub(crate) fn copy_command(c: &CommandValue) -> (r: CommandValue)
    ensures
        r == *c,
{
    CommandValue { value: c.value.clone(), comment: copy_opt(&c.comment) }
}

fn copy_tunes(t: &Vec<(String, CommandValue)>) -> (r: Vec<(String, CommandValue)>)
    ensures
        r@ == t@,
{
    let mut r: Vec<(String, CommandValue)> = Vec::new();
    let mut i: usize = 0;
    while i < t.len()
        invariant
            i <= t@.len(),
            r@ == t@.subrange(0, i as int),
        decreases t@.len() - i,
    {
        let e = &t[i];
        r.push((e.0.clone(), copy_command(&e.1)));
        i = i + 1;
    }
    r
}

fn keep_action(k: u8, z: &TuneZone) -> (r: ChangeTuneZone)
    ensures
        keeps_zone(r, k, *z),
{
    ChangeTuneZone {
        index: k,
        old_name: z.name.clone(),
        new_name: z.name.clone(),
        old_tunes: copy_tunes(&z.tunes),
        new_tunes: copy_tunes(&z.tunes),
        old_enter_msg: copy_opt(&z.enter_msg),
        new_enter_msg: copy_opt(&z.enter_msg),
        old_leave_msg: copy_opt(&z.leave_msg),
        new_leave_msg: copy_opt(&z.leave_msg),
    }
}

fn clear_action(k: u8, z: &TuneZone) -> (r: ChangeTuneZone)
    ensures
        clears_zone(r, k, *z),
{
    ChangeTuneZone {
        index: k,
        old_name: z.name.clone(),
        new_name: String::new(),
        old_tunes: copy_tunes(&z.tunes),
        new_tunes: Vec::new(),
        old_enter_msg: copy_opt(&z.enter_msg),
        new_enter_msg: None,
        old_leave_msg: copy_opt(&z.leave_msg),
        new_leave_msg: None,
    }
}

/// The actions that sort the tune zones by number, executed as one group:
/// every zone cleared, in the layer's order, then every zone put back as it
/// was, by increasing number (see [`sort_plan_ok`]). Zone numbers are
/// distinct, as the layer keeps its zones in a map.
pub fn sort_zone_actions(zones: &Vec<(u8, TuneZone)>) -> (r: Vec<ChangeTuneZone>)
    requires
        zone_keys(zones@).no_duplicates(),
    ensures
        exists|p: Seq<ZoneStep>|
            #![trigger sort_plan_ok(zone_keys(zones@), p)]
            sort_plan_ok(zone_keys(zones@), p) && r@.len() == p.len() && forall|j: int|
                0 <= j < p.len() ==> step_action(zones@, p[j], #[trigger] r@[j]),
{
    let mut keys: Vec<u8> = Vec::new();
    let mut i: usize = 0;
    while i < zones.len()
        invariant
            i <= zones@.len(),
            keys@ == zone_keys(zones@).subrange(0, i as int),
        decreases zones@.len() - i,
    {
        keys.push(zones[i].0);
        i = i + 1;
    }
    assert(keys@ == zone_keys(zones@));
    let plan = sort_zone_plan(&keys);
    let mut r: Vec<ChangeTuneZone> = Vec::new();
    let mut j: usize = 0;
    while j < plan.len()
        invariant
            j <= plan@.len(),
            sort_plan_ok(zone_keys(zones@), plan@),
            r@.len() == j,
            forall|m: int| 0 <= m < j ==> step_action(zones@, plan@[m], #[trigger] r@[m]),
        decreases plan@.len() - j,
    {
        let step = plan[j];
        proof {
            assert(step.zone < zones@.len()) by {
                if (j as int) < zones@.len() {
                    assert(plan@[j as int] == (ZoneStep { zone: j as usize, clear: true }));
                } else {
                    assert(!plan@[j as int].clear && plan@[j as int].zone < zones@.len());
                }
            }
        }
        let e = &zones[step.zone];
        let a = if step.clear { clear_action(e.0, &e.1) } else { keep_action(e.0, &e.1) };
        let ghost before = r@;
        r.push(a);
        proof {
            assert forall|m: int| 0 <= m < j + 1 implies step_action(zones@, plan@[m], #[trigger] r@[m]) by {
                if m < j {
                    assert(r@[m] == before[m]);
                }
            }
        }
        j = j + 1;
    }
    r
}

/// Position of the first zone numbered `k`.
pub open spec fn zone_position(zones: Seq<(u8, TuneZone)>, k: u8, i: int) -> Option<int>
    decreases zones.len() - i,
{
    if i < 0 || i >= zones.len() {
        None
    } else if zones[i].0 == k {
        Some(i)
    } else {
        zone_position(zones, k, i + 1)
    }
}

/// The tunes without the one named `name`.
pub open spec fn tunes_without(t: Seq<(String, CommandValue)>, name: Seq<char>) -> Seq<(String, CommandValue)>
    decreases t.len(),
{
    if t.len() == 0 {
        t
    } else {
        let rest = tunes_without(t.drop_last(), name);
        if t.last().0@ == name {
            rest
        } else {
            rest.push(t.last())
        }
    }
}

/// The tunes with `name` set to `v`: a tune of that name leaves its place,
/// and the new one goes last (as the zone's ordered map inserts).
pub open spec fn tunes_with(t: Seq<(String, CommandValue)>, name: String, v: CommandValue) -> Seq<(String, CommandValue)> {
    tunes_without(t, name@).push((name, v))
}

/// `a` sets tune `name` of zone `z` (number `k`) to `v` and keeps the rest.
pub open spec fn adds_tune(a: ChangeTuneZone, k: u8, z: TuneZone, name: String, v: CommandValue) -> bool {
    &&& a.index == k
    &&& a.old_name == z.name && a.new_name == z.name
    &&& a.old_tunes@ == z.tunes@ && a.new_tunes@ == tunes_with(z.tunes@, name, v)
    &&& a.old_enter_msg == z.enter_msg && a.new_enter_msg == z.enter_msg
    &&& a.old_leave_msg == z.leave_msg && a.new_leave_msg == z.leave_msg
}

fn find_zone(zones: &Vec<(u8, TuneZone)>, k: u8) -> (r: Option<usize>)
    ensures
        r matches Some(i) ==> zone_position(zones@, k, 0) == Some(i as int) && i < zones@.len(),
        r is None ==> zone_position(zones@, k, 0) is None,
{
    let mut i: usize = 0;
    while i < zones.len()
        invariant
            i <= zones@.len(),
            zone_position(zones@, k, 0) == zone_position(zones@, k, i as int),
        decreases zones@.len() - i,
    {
        if zones[i].0 == k {
            return Some(i);
        }
        i = i + 1;
    }
    None
}

fn tunes_with_exec(t: &Vec<(String, CommandValue)>, name: String, v: CommandValue) -> (r: Vec<(String, CommandValue)>)
    ensures
        r@ == tunes_with(t@, name, v),
{
    let mut r: Vec<(String, CommandValue)> = Vec::new();
    let mut i: usize = 0;
    while i < t.len()
        invariant
            i <= t@.len(),
            r@ == tunes_without(t@.subrange(0, i as int), name@),
        decreases t@.len() - i,
    {
        let e = &t[i];
        proof {
            assert(t@.subrange(0, i as int + 1).drop_last() == t@.subrange(0, i as int));
        }
        if !(e.0 == name) {
            r.push((e.0.clone(), copy_command(&e.1)));
        }
        i = i + 1;
    }
    assert(t@.subrange(0, t@.len() as int) == t@);
    r.push((name, v));
    r
}

/// The action of adding a typed tune to zone `k`: the zone numbered `k`
/// (or, without one, an empty zone) gets tune `name` set to
/// `value` and `comment`; everything else stays.
pub fn add_tune_action(zones: &Vec<(u8, TuneZone)>, k: u8, name: String, value: String, comment: Option<String>) -> (r: ChangeTuneZone)
    ensures
        match zone_position(zones@, k, 0) {
            Some(i) => adds_tune(r, k, zones@[i].1, name, CommandValue { value, comment }),
            None => {
                &&& r.index == k
                &&& r.old_name@ == Seq::<char>::empty() && r.new_name@ == Seq::<char>::empty()
                &&& r.old_tunes@.len() == 0
                &&& r.new_tunes@ == seq![(name, CommandValue { value, comment })]
                &&& r.old_enter_msg is None && r.new_enter_msg is None
                &&& r.old_leave_msg is None && r.new_leave_msg is None
            },
        },
{
    let v = CommandValue { value, comment };
    match find_zone(zones, k) {
        Some(i) => {
            let z = &zones[i].1;
            ChangeTuneZone {
                index: k,
                old_name: z.name.clone(),
                new_name: z.name.clone(),
                old_tunes: copy_tunes(&z.tunes),
                new_tunes: tunes_with_exec(&z.tunes, name, v),
                old_enter_msg: copy_opt(&z.enter_msg),
                new_enter_msg: copy_opt(&z.enter_msg),
                old_leave_msg: copy_opt(&z.leave_msg),
                new_leave_msg: copy_opt(&z.leave_msg),
            }
        },
        None => {
            let mut new_tunes: Vec<(String, CommandValue)> = Vec::new();
            new_tunes.push((name, v));
            ChangeTuneZone {
                index: k,
                old_name: String::new(),
                new_name: String::new(),
                old_tunes: Vec::new(),
                new_tunes,
                old_enter_msg: None,
                new_enter_msg: None,
                old_leave_msg: None,
                new_leave_msg: None,
            }
        },
    }
}

} // verus!
