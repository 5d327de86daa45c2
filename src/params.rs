//! Resolving a control request's targets against the known actuators and the
//! per-actuator settings.
use vstd::prelude::*;
use crate::names::{lowercase, sanitize_name_list, sanitized, trimmed, views};
use crate::task::Task;

verus! {

/// The output modality of an actuator.
#[derive(Debug, Clone, Copy, PartialEq, Eq, Structural)]
pub enum Capability {
    Vibrate,
    Rotate,
    Linear,
    Oscillate,
    Constrict,
    Inflate,
    Position,
}

/// One controllable output channel of a device.
#[derive(Debug, Clone)]
pub struct Actuator {
    /// Stable per device and capability.
    pub identifier: String,
    /// The name of the owning device.
    pub device: String,
    pub capability: Capability,
}

/// The settings of one actuator: whether it may be used and the events it
/// reacts to.
#[derive(Debug, Clone)]
pub struct TkDeviceSettings {
    pub actuator_id: String,
    pub enabled: bool,
    pub events: Vec<String>,
}

/// A request's resolved target identifiers, its task and the events it was
/// raised for.
#[derive(Debug, Clone)]
pub struct TkParams {
    pub selector: Vec<String>,
    pub task: Task,
    pub events: Vec<String>,
}

/// The sanitized form of each name.
pub open spec fn sanitized_all(names: Seq<String>) -> Seq<Seq<char>> {
    Seq::new(names.len(), |i: int| sanitized(names[i]@))
}

/// One of the device's events, lower-cased and trimmed, is among `names`.
pub open spec fn listens_to(d: TkDeviceSettings, names: Seq<Seq<char>>) -> bool {
    exists|i: int| 0 <= i < d.events@.len() && names.contains(sanitized(#[trigger] d.events@[i]@))
}

/// The device takes part in a request raised for the events `names`: it is
/// enabled, and either no event was named or it listens to one of them.
pub open spec fn takes_part(d: TkDeviceSettings, names: Seq<Seq<char>>) -> bool {
    d.enabled && (names.len() == 0 || listens_to(d, names))
}

/// The identifiers of the devices that take part, in order.
pub open spec fn ids_taking_part(devs: Seq<TkDeviceSettings>, names: Seq<Seq<char>>) -> Seq<
    Seq<char>,
>
    decreases devs.len(),
{
    if devs.len() == 0 {
        Seq::empty()
    } else {
        let r = ids_taking_part(devs.drop_last(), names);
        if takes_part(devs.last(), names) {
            r.push(devs.last().actuator_id@)
        } else {
            r
        }
    }
}

/// The identifiers of the enabled devices that one of `names` designates
/// (the identifier lower-cased and trimmed), in order.
pub open spec fn ids_named(devs: Seq<TkDeviceSettings>, names: Seq<Seq<char>>) -> Seq<Seq<char>>
    decreases devs.len(),
{
    if devs.len() == 0 {
        Seq::empty()
    } else {
        let r = ids_named(devs.drop_last(), names);
        let d = devs.last();
        if d.enabled && names.contains(sanitized(d.actuator_id@)) {
            r.push(d.actuator_id@)
        } else {
            r
        }
    }
}

/// The actuator is targeted: its identifier matches a selected one, both
/// lower-cased and trimmed, and its capability is one of those asked for.
pub open spec fn targeted(a: Actuator, selector: Seq<Seq<char>>, types: Seq<Capability>) -> bool {
    selector.map_values(|s: Seq<char>| sanitized(s)).contains(sanitized(a.identifier@))
        && types.contains(a.capability)
}

/// The text lower-cased, then trimmed.
fn sanitize_one(s: &String) -> (r: String)
    ensures
        r@ == sanitized(s@),
{
    let low = lowercase(s.as_str());
    trimmed(low.as_str()).to_owned()
}

/// Whether `s` is among `names`.
fn contains_name(names: &Vec<String>, s: &String) -> (r: bool)
    ensures
        r == views(names@).contains(s@),
{
    let mut i: usize = 0;
    while i < names.len()
        invariant
            i <= names@.len(),
            forall|j: int| 0 <= j < i ==> names@[j]@ != s@,
        decreases names@.len() - i,
    {
        if names[i] == *s {
            assert(views(names@)[i as int] == s@);
            return true;
        }
        i = i + 1;
    }
    assert(!views(names@).contains(s@)) by {
        if views(names@).contains(s@) {
            let j = choose|j: int| 0 <= j < views(names@).len() && views(names@)[j] == s@;
            assert(names@[j]@ == s@);
        }
    }
    false
}

/// Whether the device listens to one of `names`.
fn listens(d: &TkDeviceSettings, names: &Vec<String>) -> (r: bool)
    ensures
        r == listens_to(*d, views(names@)),
{
    let mut i: usize = 0;
    while i < d.events.len()
        invariant
            i <= d.events@.len(),
            forall|j: int| 0 <= j < i ==> !views(names@).contains(sanitized(#[trigger] d.events@[j]@)),
        decreases d.events@.len() - i,
    {
        if contains_name(names, &sanitize_one(&d.events[i])) {
            return true;
        }
        i = i + 1;
    }
    false
}

/// The identifiers of the targeted actuators, in order, each once.
pub open spec fn targeted_ids(acts: Seq<Actuator>, selector: Seq<Seq<char>>, types: Seq<Capability>) -> Seq<Seq<char>>
    decreases acts.len(),
{
    if acts.len() == 0 {
        Seq::empty()
    } else {
        let r = targeted_ids(acts.drop_last(), selector, types);
        if targeted(acts.last(), selector, types) && !r.contains(acts.last().identifier@) {
            r.push(acts.last().identifier@)
        } else {
            r
        }
    }
}

/// `a`, at position `i` of `acts`, is targeted and no actuator before it
/// with its identifier is.
pub open spec fn first_targeted(
    acts: Seq<Actuator>,
    a: Actuator,
    i: int,
    selector: Seq<Seq<char>>,
    types: Seq<Capability>,
) -> bool {
    targeted(a, selector, types) && !targeted_ids(acts.subrange(0, i), selector, types).contains(
        a.identifier@,
    )
}

/// Whether `c` is one of `types`.
fn has_capability(types: &[Capability], c: Capability) -> (r: bool)
    ensures
        r == types@.contains(c),
{
    let mut t: usize = 0;
    while t < types.len()
        invariant
            t <= types@.len(),
            forall|j: int| 0 <= j < t ==> types@[j] != c,
        decreases types@.len() - t,
    {
        if types[t] == c {
            assert(types@[t as int] == c);
            return true;
        }
        t = t + 1;
    }
    false
}

impl TkParams {
    /// The selector, each entry lower-cased and trimmed.
    fn clean_selector(&self) -> (r: Vec<String>)
        ensures
            views(r@) == views(self.selector@).map_values(|s: Seq<char>| sanitized(s)),
    {
        let r = sanitize_name_list(self.selector.as_slice());
        assert(views(r@) =~= views(self.selector@).map_values(|s: Seq<char>| sanitized(s)));
        r
    }

    /// Whether the actuator matches the cleaned selector `clean` and has one of
    /// the capabilities.
    fn is_targeted(&self, clean: &Vec<String>, a: &Actuator, actuator_types: &[Capability]) -> (r:
        bool)
        requires
            views(clean@) == views(self.selector@).map_values(|s: Seq<char>| sanitized(s)),
        ensures
            r == targeted(*a, views(self.selector@), actuator_types@),
    {
        if !has_capability(actuator_types, a.capability) {
            return false;
        }
        let low = lowercase(a.identifier.as_str());
        let id = trimmed(low.as_str()).to_owned();
        contains_name(clean, &id)
    }

    /// The identifiers of the actuators that are selected and have one of the
    /// capabilities `actuator_types`, in order.
    pub fn target_ids(&self, actuators: &[Actuator], actuator_types: &[Capability]) -> (r: Vec<String>)
        ensures
            views(r@) == targeted_ids(actuators@, views(self.selector@), actuator_types@),
    {
        let clean = self.clean_selector();
        let mut r: Vec<String> = Vec::new();
        let mut i: usize = 0;
        while i < actuators.len()
            invariant
                views(clean@) == views(self.selector@).map_values(|s: Seq<char>| sanitized(s)),
                i <= actuators@.len(),
                views(r@) == targeted_ids(
                    actuators@.subrange(0, i as int),
                    views(self.selector@),
                    actuator_types@,
                ),
            decreases actuators@.len() - i,
        {
            assert(actuators@.subrange(0, i as int + 1).drop_last() =~= actuators@.subrange(
                0,
                i as int,
            ));
            if self.is_targeted(&clean, &actuators[i], actuator_types) && !contains_name(
                &r,
                &actuators[i].identifier,
            ) {
                let ghost prev = r@;
                r.push(actuators[i].identifier.clone());
                assert(views(r@) =~= views(prev).push(actuators@[i as int].identifier@));
            }
            i = i + 1;
        }
        assert(actuators@.subrange(0, i as int) =~= actuators@);
        r
    }

    /// Selects the actuators of the enabled devices that react to one of
    /// `events` (compared lower-cased and trimmed), or of every enabled device
    /// where no event is given.
    pub fn from_input(events: Vec<String>, task: Task, devices: &[TkDeviceSettings]) -> (r: TkParams)
        ensures
            views(r.selector@) == ids_taking_part(devices@, sanitized_all(events@)),
            r.task == task,
            r.events@ == events@,
    {
        let event_names = sanitize_name_list(events.as_slice());
        assert(views(event_names@) =~= sanitized_all(events@));
        let mut selector: Vec<String> = Vec::new();
        let mut i: usize = 0;
        while i < devices.len()
            invariant
                i <= devices@.len(),
                views(event_names@) == sanitized_all(events@),
                views(selector@) == ids_taking_part(
                    devices@.subrange(0, i as int),
                    sanitized_all(events@),
                ),
            decreases devices@.len() - i,
        {
            let d = &devices[i];
            assert(devices@.subrange(0, i as int + 1).drop_last() =~= devices@.subrange(
                0,
                i as int,
            ));
            if d.enabled && (event_names.len() == 0 || listens(d, &event_names)) {
                selector.push(d.actuator_id.clone());
                assert(views(selector@) =~= ids_taking_part(
                    devices@.subrange(0, i as int),
                    sanitized_all(events@),
                ).push(d.actuator_id@));
            }
            i = i + 1;
        }
        assert(devices@.subrange(0, devices@.len() as int) =~= devices@);
        TkParams { selector, task, events }
    }

    /// Selects the actuators of the enabled devices whose identifier is one of
    /// `names` (both sides compared lower-cased and trimmed).
    pub fn from_names(names: Vec<String>, task: Task, devices: &[TkDeviceSettings]) -> (r: TkParams)
        ensures
            views(r.selector@) == ids_named(devices@, sanitized_all(names@)),
            r.task == task,
            r.events@.len() == 0,
    {
        let wanted = sanitize_name_list(names.as_slice());
        assert(views(wanted@) =~= sanitized_all(names@));
        let mut selector: Vec<String> = Vec::new();
        let mut i: usize = 0;
        while i < devices.len()
            invariant
                i <= devices@.len(),
                views(wanted@) == sanitized_all(names@),
                views(selector@) == ids_named(devices@.subrange(0, i as int), sanitized_all(names@)),
            decreases devices@.len() - i,
        {
            let d = &devices[i];
            assert(devices@.subrange(0, i as int + 1).drop_last() =~= devices@.subrange(
                0,
                i as int,
            ));
            if d.enabled && contains_name(&wanted, &sanitize_one(&d.actuator_id)) {
                selector.push(d.actuator_id.clone());
                assert(views(selector@) =~= ids_named(
                    devices@.subrange(0, i as int),
                    sanitized_all(names@),
                ).push(d.actuator_id@));
            }
            i = i + 1;
        }
        assert(devices@.subrange(0, devices@.len() as int) =~= devices@);
        TkParams { selector, task, events: Vec::new() }
    }

    /// The positions, in increasing order, of the actuators that are selected
    /// and have one of the capabilities `actuator_types`; of several with the
    /// same identifier, only the first.
    pub fn filter_devices(&self, actuators: &[Actuator], actuator_types: &[Capability]) -> (r: Vec<
        usize,
    >)
        ensures
            forall|a: int, b: int| 0 <= a < b < r@.len() ==> #[trigger] r@[a] < #[trigger] r@[b],
            forall|k: int| 0 <= k < r@.len() ==> #[trigger] r@[k] < actuators@.len(),
            forall|i: int|
                0 <= i < actuators@.len() ==> (r@.contains(i as usize) <==> first_targeted(actuators@, #[trigger] actuators@[i], i, views(self.selector@), actuator_types@)),
    {
        let clean = self.clean_selector();
        let mut r: Vec<usize> = Vec::new();
        let mut ids: Vec<String> = Vec::new();
        let mut i: usize = 0;
        while i < actuators.len()
            invariant
                views(clean@) == views(self.selector@).map_values(|s: Seq<char>| sanitized(s)),
                i <= actuators@.len(),
                views(ids@) == targeted_ids(
                    actuators@.subrange(0, i as int),
                    views(self.selector@),
                    actuator_types@,
                ),
                forall|a: int, b: int| 0 <= a < b < r@.len() ==> #[trigger] r@[a] < #[trigger] r@[b],
                forall|k: int| 0 <= k < r@.len() ==> #[trigger] r@[k] < i,
                forall|j: int|
                    0 <= j < i ==> (r@.contains(j as usize) <==> first_targeted(actuators@, #[trigger] actuators@[j], j, views(self.selector@), actuator_types@)),
            decreases actuators@.len() - i,
        {
            let a = &actuators[i];
            let ghost old_r = r@;
            assert(actuators@.subrange(0, i as int + 1).drop_last() =~= actuators@.subrange(
                0,
                i as int,
            ));
            if self.is_targeted(&clean, a, actuator_types) && !contains_name(&ids, &a.identifier) {
                let ghost prev = ids@;
                ids.push(a.identifier.clone());
                assert(views(ids@) =~= views(prev).push(a.identifier@));
                r.push(i);
                assert(r@[r@.len() - 1] == i);
                assert(r@.contains(i));
            } else {
                assert(!r@.contains(i));
            }
            assert forall|j: int|
                0 <= j < i + 1 implies (r@.contains(j as usize) <==> first_targeted(actuators@, #[trigger] actuators@[j], j, views(self.selector@), actuator_types@)) by {
                if j < i {
                    if old_r.contains(j as usize) {
                        let k = choose|k: int| 0 <= k < old_r.len() && old_r[k] == j as usize;
                        assert(r@[k] == j as usize);
                    }
                    if r@.contains(j as usize) {
                        let k = choose|k: int| 0 <= k < r@.len() && r@[k] == j as usize;
                        if k < old_r.len() {
                            assert(old_r[k] == j as usize);
                        }
                    }
                }
            }
            i = i + 1;
        }
        r
    }
}

/// Some selected actuator of `acts` vibrates and has identifier `id`.
pub open spec fn selected_vibrator(acts: Seq<Actuator>, selector: Seq<Seq<char>>, id: Seq<char>) -> bool {
    exists|i: int|
        0 <= i < acts.len() && #[trigger] acts[i].identifier@ == id && acts[i].capability
            == Capability::Vibrate && selector.map_values(|s: Seq<char>| sanitized(s)).contains(
            sanitized(id),
        )
}

/// A vibration request reaches vibrators only: every identifier it targets is
/// that of a selected actuator that vibrates, however the selector names the
/// others.
pub proof fn lemma_vibration_targets_only_vibrators(acts: Seq<Actuator>, selector: Seq<Seq<char>>)
    ensures
        forall|k: int|
            0 <= k < targeted_ids(acts, selector, seq![Capability::Vibrate]).len()
                ==> selected_vibrator(
                acts,
                selector,
                #[trigger] targeted_ids(acts, selector, seq![Capability::Vibrate])[k],
            ),
    decreases acts.len(),
{
    let types = seq![Capability::Vibrate];
    if acts.len() > 0 {
        let pre = acts.drop_last();
        lemma_vibration_targets_only_vibrators(pre, selector);
        let ids = targeted_ids(acts, selector, types);
        let pids = targeted_ids(pre, selector, types);
        assert forall|k: int| 0 <= k < ids.len() implies selected_vibrator(
            acts,
            selector,
            #[trigger] ids[k],
        ) by {
            if k < pids.len() {
                assert(ids[k] == pids[k]);
                assert(selected_vibrator(pre, selector, pids[k]));
                let i = choose|i: int|
                    0 <= i < pre.len() && #[trigger] pre[i].identifier@ == pids[k]
                        && pre[i].capability == Capability::Vibrate && selector.map_values(
                        |s: Seq<char>| sanitized(s),
                    ).contains(sanitized(pids[k]));
                assert(acts[i] == pre[i]);
            } else {
                let i = acts.len() - 1;
                assert(targeted(acts[i], selector, types));
                let j = choose|j: int| 0 <= j < types.len() && types[j] == acts[i].capability;
                assert(types[j] == Capability::Vibrate);
                assert(ids[k] == acts[i].identifier@);
            }
        }
    }
}

} // verus!
