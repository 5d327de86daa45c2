//! The entry points of the scripting bridge. Each takes the controller slot,
//! which is empty until a controller is connected; on an empty slot each
//! reports failure with an empty or negative result.
use vstd::prelude::*;
use crate::events::{event_text, status_text, TkConnectionEvent};
use crate::names::{non_empty, read_input_string, same_text, views};
use crate::params::{ids_taking_part, sanitized_all, targeted_ids, Capability};
use crate::pattern::Pattern;
use crate::scheduler::{cancelled, issued, ScheduledTask, ERROR_HANDLE};
use crate::settings::{enabled_set, entry_of, events_set, known_setting, string_set, TkSettings};
use crate::speed::{clamp_percent, Speed};
use crate::task::{Task, TkDuration};
use crate::telekinesis::{
    keeps_but_commands,
    keeps_but_events,
    keeps_but_scheduler,
    keeps_but_settings,
    submitted,
    TkAction,
    Telekinesis,
    MAX_EVENTS_PER_POLL,
};

verus! {

/// The slot holds a consistent controller, or none.
pub open spec fn slot_ok(tk: Option<Telekinesis>) -> bool {
    tk matches Some(t) ==> t.wf()
}

/// Puts a new controller with `settings` in the slot, replacing any.
pub fn tk_connect_with_settings(tk: &mut Option<Telekinesis>, settings: TkSettings) -> (r: bool)
    ensures
        r,
        slot_ok(*final(tk)),
        *final(tk) matches Some(t) && t.settings == settings && t.scheduler.pending().len() == 0,
{
    *tk = Some(Telekinesis::connect(settings));
    true
}

/// Empties the slot; says whether it held a controller.
pub fn tk_close(tk: &mut Option<Telekinesis>) -> (r: bool)
    ensures
        r == (*old(tk) is Some),
        *final(tk) is None,
{
    let was = tk.is_some();
    *tk = None;
    was
}

/// Asks for a device scan; says whether the slot held a controller.
pub fn tk_scan_for_devices(tk: &mut Option<Telekinesis>) -> (r: bool)
    requires
        slot_ok(*old(tk)),
    ensures
        slot_ok(*final(tk)),
        r == (*old(tk) is Some),
        *old(tk) is None ==> *final(tk) is None,
        *old(tk) matches Some(t) ==> *final(tk) is Some && (*final(tk))->0.commands@
            == t.commands@.push(TkAction::Scan) && keeps_but_commands(t, (*final(tk))->0),
{
    match tk {
        Some(t) => t.scan_for_devices(),
        None => false,
    }
}

/// Asks to stop scanning; says whether the slot held a controller.
pub fn tk_stop_scan(tk: &mut Option<Telekinesis>) -> (r: bool)
    requires
        slot_ok(*old(tk)),
    ensures
        slot_ok(*final(tk)),
        r == (*old(tk) is Some),
        *old(tk) is None ==> *final(tk) is None,
        *old(tk) matches Some(t) ==> *final(tk) is Some && (*final(tk))->0.commands@
            == t.commands@.push(TkAction::StopScan) && keeps_but_commands(t, (*final(tk))->0),
{
    match tk {
        Some(t) => t.stop_scan(),
        None => false,
    }
}

/// Vibrates the actuators that react to the non-empty entries of `events`
/// at `speed` percent (clamped) for `duration`; the task's handle, or the
/// error handle.
pub fn tk_vibrate(tk: &mut Option<Telekinesis>, speed: i64, duration: TkDuration, events: Vec<
    String,
>) -> (r: i32)
    requires
        slot_ok(*old(tk)),
    ensures
        slot_ok(*final(tk)),
        *old(tk) is None ==> r == ERROR_HANDLE && *final(tk) is None,
        *old(tk) matches Some(t) ==> *final(tk) is Some && keeps_but_scheduler(t, (*final(tk))->0)
            && submitted(
            t.scheduler,
            (*final(tk))->0.scheduler,
            r,
            targeted_ids(
                t.registry.actuators@,
                ids_taking_part(t.settings.devices@, sanitized_all(non_empty(events@))),
                seq![Capability::Vibrate],
            ),
            Task::Constant(Speed { value: clamp_percent(speed as int) as u16 }),
            duration,
        ),
{
    match tk {
        Some(t) => t.vibrate(Speed::new(speed), duration, read_input_string(events.as_slice())),
        None => ERROR_HANDLE,
    }
}

/// Plays `pattern` on the actuators that react to the non-empty entries of
/// `events` for `duration`; the task's handle, or the error handle.
pub fn tk_vibrate_pattern(
    tk: &mut Option<Telekinesis>,
    pattern: Pattern,
    duration: TkDuration,
    events: Vec<String>,
) -> (r: i32)
    requires
        slot_ok(*old(tk)),
        pattern.wf(),
    ensures
        slot_ok(*final(tk)),
        *old(tk) is None ==> r == ERROR_HANDLE && *final(tk) is None,
        *old(tk) matches Some(t) ==> *final(tk) is Some && keeps_but_scheduler(t, (*final(tk))->0)
            && submitted(
            t.scheduler,
            (*final(tk))->0.scheduler,
            r,
            targeted_ids(
                t.registry.actuators@,
                ids_taking_part(t.settings.devices@, sanitized_all(non_empty(events@))),
                seq![Capability::Vibrate],
            ),
            Task::Pattern(pattern),
            duration,
        ),
{
    match tk {
        Some(t) => t.vibrate_pattern(pattern, duration, read_input_string(events.as_slice())),
        None => ERROR_HANDLE,
    }
}

/// Cancels the task with `handle`; says whether such a task was running.
/// An unknown handle, or an empty slot, changes nothing.
pub fn tk_stop(tk: &mut Option<Telekinesis>, handle: i32) -> (r: bool)
    requires
        slot_ok(*old(tk)),
    ensures
        slot_ok(*final(tk)),
        r == (*old(tk) matches Some(t) && issued(t.scheduler.pending(), handle)),
        *old(tk) is None ==> *final(tk) is None,
        *old(tk) matches Some(t) ==> {
            let u = (*final(tk))->0;
            &&& *final(tk) is Some
            &&& keeps_but_scheduler(t, u)
            &&& u.scheduler.next() == t.scheduler.next()
            &&& !r ==> u.scheduler.pending() == t.scheduler.pending()
            &&& u.scheduler.pending().len() == t.scheduler.pending().len()
            &&& forall|i: int|
                0 <= i < t.scheduler.pending().len() ==> #[trigger] u.scheduler.pending()[i] == if t.scheduler.pending()[i].handle == handle {
                    cancelled(t.scheduler.pending()[i])
                } else {
                    t.scheduler.pending()[i]
                }
        },
{
    match tk {
        Some(t) => t.stop(handle),
        None => false,
    }
}

/// Cancels every task; says whether the slot held a controller.
pub fn tk_stop_all(tk: &mut Option<Telekinesis>) -> (r: bool)
    requires
        slot_ok(*old(tk)),
    ensures
        slot_ok(*final(tk)),
        r == (*old(tk) is Some),
        *old(tk) is None ==> *final(tk) is None,
        *old(tk) matches Some(t) ==> *final(tk) is Some && keeps_but_scheduler(t, (*final(tk))->0)
            && (*final(tk))->0.scheduler.pending() == t.scheduler.pending().map_values(
            |x: ScheduledTask| cancelled(x),
        ),
{
    match tk {
        Some(t) => t.stop_all(),
        None => false,
    }
}

/// The names of all devices seen.
pub fn tk_get_devices(tk: &Option<Telekinesis>) -> (r: Vec<String>)
    ensures
        tk is None ==> r@.len() == 0,
        tk matches Some(t) ==> views(r@) == t.registry.devices@.map_values(
            |d: crate::registry::DeviceInfo| d.name@,
        ),
{
    match tk {
        Some(t) => t.get_device_names(),
        None => Vec::new(),
    }
}

/// The value under `key`: the connection status under `connection.status`,
/// else nothing.
pub fn tk_get(tk: &Option<Telekinesis>, key: &str) -> (r: String)
    ensures
        tk matches Some(t) ==> (key@ == "connection.status"@ ==> r@ == status_text(
            t.connection_status,
        )),
        !(tk is Some && key@ == "connection.status"@) ==> r@.len() == 0,
{
    match tk {
        Some(t) => {
            if same_text(key, "connection.status") {
                t.connection_status.serialize_papyrus()
            } else {
                String::new()
            }
        },
        None => String::new(),
    }
}

/// Whether a device of that name is connected.
pub fn tk_get_device_connected(tk: &Option<Telekinesis>, name: &str) -> (r: bool)
    ensures
        r == (tk matches Some(t) && crate::registry::connected_now(t.registry.devices@, name@)),
{
    match tk {
        Some(t) => t.get_device_connected(name),
        None => false,
    }
}

/// `["Vibrate"]` for a device that can vibrate, else nothing.
pub fn tk_get_device_capabilities(tk: &Option<Telekinesis>, name: &str) -> (r: Vec<String>)
    ensures
        (tk matches Some(t) && crate::registry::vibrates(t.registry.actuators@, name@)) ==> views(
            r@,
        ) == seq!["Vibrate"@],
        !(tk matches Some(t) && crate::registry::vibrates(t.registry.actuators@, name@))
            ==> r@.len() == 0,
{
    match tk {
        Some(t) => t.get_device_capabilities(name),
        None => Vec::new(),
    }
}

/// The waiting events as text, up to the per-poll limit, oldest first.
pub fn tk_process_events(tk: &mut Option<Telekinesis>) -> (r: Vec<String>)
    requires
        slot_ok(*old(tk)),
    ensures
        slot_ok(*final(tk)),
        *old(tk) is None ==> r@.len() == 0 && *final(tk) is None,
        *old(tk) matches Some(t) ==> {
            let n = (*old(tk))->0.events.queued().len() - (*final(tk))->0.events.queued().len();
            &&& *final(tk) is Some
            &&& keeps_but_events(t, (*final(tk))->0)
            &&& n == if MAX_EVENTS_PER_POLL < t.events.queued().len() {
                MAX_EVENTS_PER_POLL as int
            } else {
                t.events.queued().len() as int
            }
            &&& (*final(tk))->0.events.queued() == t.events.queued().skip(n)
            &&& views(r@) == t.events.queued().take(n).map_values(
                |e: TkConnectionEvent| event_text(e),
            )
        },
{
    match tk {
        Some(t) => {
            let evs = t.process_next_events();
            let mut r: Vec<String> = Vec::new();
            let mut i: usize = 0;
            while i < evs.len()
                invariant
                    i <= evs@.len(),
                    views(r@) == evs@.take(i as int).map_values(
                        |e: TkConnectionEvent| event_text(e),
                    ),
                decreases evs@.len() - i,
            {
                let ghost prev = r@;
                r.push(evs[i].serialize_papyrus());
                assert(views(r@) =~= views(prev).push(event_text(evs@[i as int])));
                assert(evs@.take(i as int + 1) =~= evs@.take(i as int).push(evs@[i as int]));
                assert(views(r@) =~= evs@.take(i as int + 1).map_values(
                    |e: TkConnectionEvent| event_text(e),
                ));
                i = i + 1;
            }
            assert(evs@.take(i as int) =~= evs@);
            r
        },
        None => Vec::new(),
    }
}

/// Enables or disables an actuator in the settings.
pub fn tk_settings_set_enabled(tk: &mut Option<Telekinesis>, name: &str, enabled: bool)
    requires
        slot_ok(*old(tk)),
    ensures
        slot_ok(*final(tk)),
        *old(tk) is None ==> *final(tk) is None,
        *old(tk) matches Some(t) ==> *final(tk) is Some && keeps_but_settings(t, (*final(tk))->0)
            && enabled_set(t.settings.devices@, (*final(tk))->0.settings.devices@, name@, enabled),
{
    match tk {
        Some(t) => t.settings.set_enabled(name, enabled),
        None => {},
    }
}

/// Whether an actuator is enabled; false without a controller.
pub fn tk_settings_get_enabled(tk: &Option<Telekinesis>, name: &str) -> (r: bool)
    ensures
        tk is None ==> !r,
        tk matches Some(t) ==> r == (entry_of(t.settings.devices@, name@) >= 0
            && t.settings.devices@[entry_of(t.settings.devices@, name@)].enabled),
{
    match tk {
        Some(t) => t.settings.get_enabled(name),
        None => false,
    }
}

/// The events an actuator reacts to; none without a controller.
pub fn tk_settings_get_events(tk: &Option<Telekinesis>, name: &str) -> (r: Vec<String>)
    ensures
        tk is None ==> r@.len() == 0,
        tk matches Some(t) ==> (entry_of(t.settings.devices@, name@) >= 0 ==> views(r@) == views(
            t.settings.devices@[entry_of(t.settings.devices@, name@)].events@,
        )) && (entry_of(t.settings.devices@, name@) < 0 ==> r@.len() == 0),
{
    match tk {
        Some(t) => t.settings.get_events(name),
        None => Vec::new(),
    }
}

/// Sets the events an actuator reacts to: the non-empty entries of `events`.
pub fn tk_settings_set_events(tk: &mut Option<Telekinesis>, name: &str, events: Vec<String>)
    requires
        slot_ok(*old(tk)),
    ensures
        slot_ok(*final(tk)),
        *old(tk) is None ==> *final(tk) is None,
        *old(tk) matches Some(t) ==> *final(tk) is Some && keeps_but_settings(t, (*final(tk))->0)
            && events_set(
            t.settings.devices@,
            (*final(tk))->0.settings.devices@,
            name@,
            views(non_empty(events@)),
        ),
{
    match tk {
        Some(t) => t.settings.set_events(name, read_input_string(events.as_slice())),
        None => {},
    }
}

/// Applies one textual setting (see [`TkSettings::set_string`]); says
/// whether the slot held a controller and the setting was understood.
pub fn tk_settings_set(tk: &mut Option<Telekinesis>, key: &str, value: &str) -> (r: bool)
    requires
        slot_ok(*old(tk)),
    ensures
        slot_ok(*final(tk)),
        *old(tk) is None ==> !r && *final(tk) is None,
        *old(tk) matches Some(t) ==> {
            &&& *final(tk) is Some
            &&& keeps_but_settings(t, (*final(tk))->0)
            &&& r == known_setting(key@, value@)
            &&& string_set(t.settings.devices@, (*final(tk))->0.settings.devices@, key@, value@)
        },
{
    match tk {
        Some(t) => t.settings.set_string(key, value),
        None => false,
    }
}

} // verus!
