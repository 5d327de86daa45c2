//! The controller that callers hold: it resolves requests against the
//! registry and the settings, owns the task table, and queues events. The
//! hardware layer feeds it device events and carries out its writes and
//! commands.
use vstd::prelude::*;
use crate::events::{offered, EventQueue, TkConnectionEvent, TkConnectionStatus};
use crate::names::views;
use crate::params::{
    ids_named,
    ids_taking_part,
    sanitized_all,
    targeted_ids,
    Actuator,
    Capability,
    TkParams,
};
use crate::pattern::Pattern;
use crate::registry::{connected_now, known, reconnected, vibrates, DeviceInfo, Registry};
use crate::scheduler::{
    ends_of,
    survivors,
    write_view,
    writes_of,
    ActuatorWrite,
    ScheduledTask,
    Scheduler,
    TaskEnd,
    ERROR_HANDLE,
};
use crate::settings::TkSettings;
use crate::speed::Speed;
use crate::task::{Task, TkDuration};

verus! {

/// The most events that wait to be polled.
pub const MAX_QUEUED_EVENTS: usize = 65536;

/// The most events one poll hands out.
pub const MAX_EVENTS_PER_POLL: usize = 128;

/// A command for the hardware layer.
#[derive(Debug, Clone, Copy, PartialEq, Eq, Structural)]
pub enum TkAction {
    Scan,
    StopScan,
    Disconnect,
}

/// The event that reports a task's end.
pub open spec fn end_event(e: TaskEnd) -> TkConnectionEvent {
    if e.cancelled {
        TkConnectionEvent::TaskCancelled(e.handle)
    } else {
        TkConnectionEvent::TaskCompleted(e.handle)
    }
}

/// `new` is `old` after a submission of `task` on `targets` for `duration`
/// that returned `r`: a new task under a new handle, or, once handles are
/// used up, nothing and the error handle.
pub open spec fn submitted(
    old: Scheduler,
    new: Scheduler,
    r: i32,
    targets: Seq<Seq<char>>,
    task: Task,
    duration: TkDuration,
) -> bool {
    if old.next() < i32::MAX {
        &&& r == old.next()
        &&& new.next() == old.next() + 1
        &&& new.pending().len() == old.pending().len() + 1
        &&& new.pending().drop_last() == old.pending()
        &&& new.pending().last().handle == r
        &&& views(new.pending().last().targets@) == targets
        &&& new.pending().last().task == task
        &&& new.pending().last().duration == duration
        &&& new.pending().last().started is None
        &&& !new.pending().last().cancelled
    } else {
        &&& r == ERROR_HANDLE
        &&& new.pending() == old.pending()
        &&& new.next() == old.next()
    }
}

/// `b` is `a` with at most its commands changed.
pub open spec fn keeps_but_commands(a: Telekinesis, b: Telekinesis) -> bool {
    &&& b.connection_status == a.connection_status
    &&& b.settings == a.settings
    &&& b.registry == a.registry
    &&& b.scheduler == a.scheduler
    &&& b.events == a.events
}

/// `b` is `a` with at most its event queue changed.
pub open spec fn keeps_but_events(a: Telekinesis, b: Telekinesis) -> bool {
    &&& b.connection_status == a.connection_status
    &&& b.settings == a.settings
    &&& b.registry == a.registry
    &&& b.scheduler == a.scheduler
    &&& b.commands == a.commands
}

/// `b` is `a` with at most its task table changed.
pub open spec fn keeps_but_scheduler(a: Telekinesis, b: Telekinesis) -> bool {
    &&& b.connection_status == a.connection_status
    &&& b.settings == a.settings
    &&& b.registry == a.registry
    &&& b.events == a.events
    &&& b.commands == a.commands
}

/// `b` is `a` with at most its settings changed.
pub open spec fn keeps_but_settings(a: Telekinesis, b: Telekinesis) -> bool {
    &&& b.connection_status == a.connection_status
    &&& b.registry == a.registry
    &&& b.scheduler == a.scheduler
    &&& b.events == a.events
    &&& b.commands == a.commands
}

/// The controller state.
pub struct Telekinesis {
    pub connection_status: TkConnectionStatus,
    pub settings: TkSettings,
    pub registry: Registry,
    pub scheduler: Scheduler,
    pub events: EventQueue,
    /// Commands for the hardware layer, oldest first.
    pub commands: Vec<TkAction>,
}

/// Submits `task` on `targets`, mapping a refusal to the error handle.
fn start(scheduler: &mut Scheduler, targets: Vec<String>, task: Task, duration: TkDuration) -> (r:
    i32)
    requires
        old(scheduler).wf(),
        task.wf(),
    ensures
        final(scheduler).wf(),
        submitted(*old(scheduler), *final(scheduler), r, views(targets@), task, duration),
{
    let ghost before = *scheduler;
    match scheduler.submit(targets, task, duration) {
        Ok(h) => {
            assert(scheduler.pending().drop_last() =~= before.pending());
            h
        },
        Err(_) => ERROR_HANDLE,
    }
}

impl Telekinesis {
    /// The task table is consistent.
    pub open spec fn wf(&self) -> bool {
        self.scheduler.wf()
    }

    /// A controller with the given settings, not yet connected, with no
    /// device, task, event or command.
    pub fn connect(settings: TkSettings) -> (r: Telekinesis)
        ensures
            r.wf(),
            r.connection_status == TkConnectionStatus::NotConnected,
            r.settings == settings,
            r.registry.devices@.len() == 0,
            r.registry.actuators@.len() == 0,
            r.scheduler.pending().len() == 0,
            r.events.queued().len() == 0,
            r.events.bound() == MAX_QUEUED_EVENTS,
            r.commands@.len() == 0,
    {
        Telekinesis {
            connection_status: TkConnectionStatus::NotConnected,
            settings,
            registry: Registry::new(),
            scheduler: Scheduler::new(),
            events: EventQueue::new(MAX_QUEUED_EVENTS),
            commands: Vec::new(),
        }
    }

    /// Asks the hardware layer to scan for devices.
    pub fn scan_for_devices(&mut self) -> (r: bool)
        ensures
            r,
            final(self).commands@ == old(self).commands@.push(TkAction::Scan),
            keeps_but_commands(*old(self), *final(self)),
    {
        self.commands.push(TkAction::Scan);
        true
    }

    /// Asks the hardware layer to stop scanning.
    pub fn stop_scan(&mut self) -> (r: bool)
        ensures
            r,
            final(self).commands@ == old(self).commands@.push(TkAction::StopScan),
            keeps_but_commands(*old(self), *final(self)),
    {
        self.commands.push(TkAction::StopScan);
        true
    }

    /// Asks the hardware layer to disconnect.
    pub fn disconnect(&mut self)
        ensures
            final(self).commands@ == old(self).commands@.push(TkAction::Disconnect),
            keeps_but_commands(*old(self), *final(self)),
    {
        self.commands.push(TkAction::Disconnect);
    }

    /// Hands the waiting commands to the hardware layer, oldest first.
    pub fn take_commands(&mut self) -> (r: Vec<TkAction>)
        ensures
            r@ == old(self).commands@,
            final(self).commands@.len() == 0,
            keeps_but_commands(*old(self), *final(self)),
    {
        let mut taken: Vec<TkAction> = Vec::new();
        std::mem::swap(&mut self.commands, &mut taken);
        taken
    }

    /// The hardware layer connected.
    pub fn on_connected(&mut self)
        ensures
            final(self).connection_status == TkConnectionStatus::Connected,
            final(self).events.queued() == offered(
                old(self).events.queued(),
                old(self).events.bound(),
                seq![TkConnectionEvent::Connected],
            ),
            final(self).registry == old(self).registry,
            final(self).settings == old(self).settings,
            final(self).scheduler == old(self).scheduler,
            final(self).commands == old(self).commands,
    {
        self.connection_status = TkConnectionStatus::Connected;
        self.events.push(TkConnectionEvent::Connected);
    }

    /// The hardware layer could not connect.
    pub fn on_connection_failed(&mut self, message: String)
        ensures
            final(self).connection_status == TkConnectionStatus::Failed(message),
            final(self).events.queued() == offered(
                old(self).events.queued(),
                old(self).events.bound(),
                seq![TkConnectionEvent::ConnectionFailure(message)],
            ),
            final(self).registry == old(self).registry,
            final(self).settings == old(self).settings,
            final(self).scheduler == old(self).scheduler,
            final(self).commands == old(self).commands,
    {
        let m = message.clone();
        self.connection_status = TkConnectionStatus::Failed(message);
        self.events.push(TkConnectionEvent::ConnectionFailure(m));
    }

    /// A device connected with the given actuators.
    pub fn on_device_added(&mut self, name: String, actuators: Vec<Actuator>)
        ensures
            final(self).events.queued() == offered(
                old(self).events.queued(),
                old(self).events.bound(),
                seq![TkConnectionEvent::DeviceAdded(name)],
            ),
            known(old(self).registry.devices@, name@) ==> final(self).registry.devices@
                == reconnected(old(self).registry.devices@, name@, true)
                && final(self).registry.actuators@ == old(self).registry.actuators@,
            !known(old(self).registry.devices@, name@) ==> final(self).registry.devices@
                == old(self).registry.devices@.push(DeviceInfo { name, connected: true })
                && final(self).registry.actuators@ == old(self).registry.actuators@
                + actuators@,
            final(self).connection_status == old(self).connection_status,
            final(self).settings == old(self).settings,
            final(self).scheduler == old(self).scheduler,
            final(self).commands == old(self).commands,
    {
        let n = name.clone();
        self.registry.device_added(name, actuators);
        self.events.push(TkConnectionEvent::DeviceAdded(n));
    }

    /// A device disconnected. Tasks that write to it carry on; their writes
    /// to it are the hardware layer's to drop.
    pub fn on_device_removed(&mut self, name: String)
        ensures
            final(self).events.queued() == offered(
                old(self).events.queued(),
                old(self).events.bound(),
                seq![TkConnectionEvent::DeviceRemoved(name)],
            ),
            final(self).registry.devices@ == reconnected(old(self).registry.devices@, name@, false),
            final(self).registry.actuators@ == old(self).registry.actuators@,
            final(self).connection_status == old(self).connection_status,
            final(self).settings == old(self).settings,
            final(self).scheduler == old(self).scheduler,
            final(self).commands == old(self).commands,
    {
        self.registry.device_removed(&name);
        self.events.push(TkConnectionEvent::DeviceRemoved(name));
    }

    /// The names of all devices seen.
    pub fn get_device_names(&self) -> (r: Vec<String>)
        ensures
            views(r@) == self.registry.devices@.map_values(
                |d: crate::registry::DeviceInfo| d.name@,
            ),
    {
        self.registry.device_names()
    }

    /// The identifiers of all known actuators.
    pub fn list_actuator_identifiers(&self) -> (r: Vec<String>)
        ensures
            views(r@) == self.registry.actuators@.map_values(|a: Actuator| a.identifier@),
    {
        self.registry.list_actuator_identifiers()
    }

    /// Whether a device of that name is connected.
    pub fn get_device_connected(&self, name: &str) -> (r: bool)
        ensures
            r == crate::registry::connected_now(self.registry.devices@, name@),
    {
        self.registry.device_connected(name)
    }

    /// `["Vibrate"]` for a device that can vibrate, else nothing.
    pub fn get_device_capabilities(&self, name: &str) -> (r: Vec<String>)
        ensures
            crate::registry::vibrates(self.registry.actuators@, name@) ==> views(r@)
                == seq!["Vibrate"@],
            !crate::registry::vibrates(self.registry.actuators@, name@) ==> r@.len() == 0,
    {
        self.registry.device_capabilities(name)
    }

    /// Vibrates the enabled actuators that react to one of `events` (all
    /// enabled ones when none is given) at `speed` for `duration`; returns the
    /// task's handle, or the error handle once handles are used up.
    pub fn vibrate(&mut self, speed: Speed, duration: TkDuration, events: Vec<String>) -> (r: i32)
        requires
            old(self).wf(),
            speed.wf(),
        ensures
            final(self).wf(),
            submitted(
                old(self).scheduler,
                final(self).scheduler,
                r,
                targeted_ids(
                    old(self).registry.actuators@,
                    ids_taking_part(old(self).settings.devices@, sanitized_all(events@)),
                    seq![Capability::Vibrate],
                ),
                Task::Constant(speed),
                duration,
            ),
            keeps_but_scheduler(*old(self), *final(self)),
    {
        let params = TkParams::from_input(events, Task::Constant(speed), self.settings.devices.as_slice());
        let types = [Capability::Vibrate];
        let targets = params.target_ids(self.registry.actuators.as_slice(), &types);
        assert(types@ =~= seq![Capability::Vibrate]);
        start(&mut self.scheduler, targets, params.task, duration)
    }

    /// Vibrates every enabled vibrating actuator at `speed` for `duration`.
    pub fn vibrate_all(&mut self, speed: Speed, duration: TkDuration) -> (r: i32)
        requires
            old(self).wf(),
            speed.wf(),
        ensures
            final(self).wf(),
            submitted(
                old(self).scheduler,
                final(self).scheduler,
                r,
                targeted_ids(
                    old(self).registry.actuators@,
                    ids_taking_part(old(self).settings.devices@, Seq::empty()),
                    seq![Capability::Vibrate],
                ),
                Task::Constant(speed),
                duration,
            ),
            keeps_but_scheduler(*old(self), *final(self)),
    {
        let r = self.vibrate(speed, duration, Vec::new());
        assert(sanitized_all(Seq::<String>::empty()) =~= Seq::empty());
        r
    }

    /// Vibrates the enabled vibrating actuators named in `names` (compared
    /// lower-cased and trimmed) at `speed` for `duration`.
    pub fn vibrate_names(&mut self, speed: Speed, duration: TkDuration, names: Vec<String>) -> (r:
        i32)
        requires
            old(self).wf(),
            speed.wf(),
        ensures
            final(self).wf(),
            submitted(
                old(self).scheduler,
                final(self).scheduler,
                r,
                targeted_ids(
                    old(self).registry.actuators@,
                    ids_named(old(self).settings.devices@, sanitized_all(names@)),
                    seq![Capability::Vibrate],
                ),
                Task::Constant(speed),
                duration,
            ),
            keeps_but_scheduler(*old(self), *final(self)),
    {
        let params = TkParams::from_names(names, Task::Constant(speed), self.settings.devices.as_slice());
        let types = [Capability::Vibrate];
        let targets = params.target_ids(self.registry.actuators.as_slice(), &types);
        assert(types@ =~= seq![Capability::Vibrate]);
        start(&mut self.scheduler, targets, params.task, duration)
    }

    /// Plays `pattern` on the enabled vibrating actuators that react to one of
    /// `events` for `duration`.
    pub fn vibrate_pattern(&mut self, pattern: Pattern, duration: TkDuration, events: Vec<String>) -> (r:
        i32)
        requires
            old(self).wf(),
            pattern.wf(),
        ensures
            final(self).wf(),
            submitted(
                old(self).scheduler,
                final(self).scheduler,
                r,
                targeted_ids(
                    old(self).registry.actuators@,
                    ids_taking_part(old(self).settings.devices@, sanitized_all(events@)),
                    seq![Capability::Vibrate],
                ),
                Task::Pattern(pattern),
                duration,
            ),
            keeps_but_scheduler(*old(self), *final(self)),
    {
        let params = TkParams::from_input(events, Task::Pattern(pattern), self.settings.devices.as_slice());
        let types = [Capability::Vibrate];
        let targets = params.target_ids(self.registry.actuators.as_slice(), &types);
        assert(types@ =~= seq![Capability::Vibrate]);
        start(&mut self.scheduler, targets, params.task, duration)
    }

    /// Cancels the task with `handle`; says whether it was running.
    pub fn stop(&mut self, handle: i32) -> (r: bool)
        requires
            old(self).wf(),
        ensures
            final(self).wf(),
            keeps_but_scheduler(*old(self), *final(self)),
            final(self).scheduler.next() == old(self).scheduler.next(),
            r == crate::scheduler::issued(old(self).scheduler.pending(), handle),
            !r ==> final(self).scheduler.pending() == old(self).scheduler.pending(),
            final(self).scheduler.pending().len() == old(self).scheduler.pending().len(),
            forall|i: int|
                0 <= i < old(self).scheduler.pending().len()
                    ==> #[trigger] final(self).scheduler.pending()[i] == if old(self).scheduler.pending()[i].handle == handle {
                    crate::scheduler::cancelled(old(self).scheduler.pending()[i])
                } else {
                    old(self).scheduler.pending()[i]
                },
    {
        self.scheduler.cancel(handle)
    }

    /// Cancels every running task.
    pub fn stop_all(&mut self) -> (r: bool)
        requires
            old(self).wf(),
        ensures
            r,
            final(self).wf(),
            keeps_but_scheduler(*old(self), *final(self)),
            final(self).scheduler.pending() == old(self).scheduler.pending().map_values(
                |t: ScheduledTask| crate::scheduler::cancelled(t),
            ),
    {
        self.scheduler.cancel_all();
        true
    }

    /// Runs one tick of every task at `now` (milliseconds) and queues an
    /// event for each task that ended; returns the writes to carry out, in
    /// order.
    pub fn tick(&mut self, now: u64) -> (r: Vec<ActuatorWrite>)
        requires
            old(self).wf(),
        ensures
            final(self).wf(),
            final(self).connection_status == old(self).connection_status,
            final(self).settings == old(self).settings,
            final(self).registry == old(self).registry,
            final(self).commands == old(self).commands,
            write_view(r@) == writes_of(old(self).scheduler.pending(), now),
            final(self).scheduler.pending() == survivors(old(self).scheduler.pending(), now),
            final(self).events.queued() == offered(
                old(self).events.queued(),
                old(self).events.bound(),
                ends_of(old(self).scheduler.pending(), now).map_values(|e: TaskEnd| end_event(e)),
            ),
            final(self).events.bound() == old(self).events.bound(),
    {
        let out = self.scheduler.tick(now);
        let ended = out.ended;
        let ghost es = ended@.map_values(|e: TaskEnd| end_event(e));
        let mut i: usize = 0;
        while i < ended.len()
            invariant
                i <= ended@.len(),
                es == ended@.map_values(|e: TaskEnd| end_event(e)),
                ended@ == ends_of(old(self).scheduler.pending(), now),
                self.scheduler.wf(),
                self.connection_status == old(self).connection_status,
                self.settings == old(self).settings,
                self.registry == old(self).registry,
                self.commands == old(self).commands,
                self.scheduler.pending() == survivors(old(self).scheduler.pending(), now),
                self.events.bound() == old(self).events.bound(),
                self.events.queued() == offered(
                    old(self).events.queued(),
                    old(self).events.bound(),
                    es.take(i as int),
                ),
            decreases ended@.len() - i,
        {
            let e = ended[i];
            let ev = if e.cancelled {
                TkConnectionEvent::TaskCancelled(e.handle)
            } else {
                TkConnectionEvent::TaskCompleted(e.handle)
            };
            let ghost before = self.events.queued();
            self.events.push(ev);
            proof {
                let one = seq![ev];
                assert(one.drop_last() =~= Seq::<TkConnectionEvent>::empty());
                assert(offered(before, old(self).events.bound(), one.drop_last()) == before);
                assert(es[i as int] == ev);
                assert(es.take(i as int + 1).drop_last() =~= es.take(i as int));
                assert(es.take(i as int + 1).last() == ev);
            }
            i = i + 1;
        }
        assert(es.take(i as int) =~= es);
        out.writes
    }

    /// Takes out the oldest waiting event.
    pub fn get_next_event(&mut self) -> (r: Option<TkConnectionEvent>)
        ensures
            old(self).events.queued().len() == 0 ==> r is None && final(self).events.queued()
                == old(self).events.queued(),
            old(self).events.queued().len() > 0 ==> r == Some(old(self).events.queued()[0])
                && final(self).events.queued() == old(self).events.queued().skip(1),
            keeps_but_events(*old(self), *final(self)),
    {
        let mut one = self.events.poll(1);
        if one.len() == 0 {
            None
        } else {
            Some(one.remove(0))
        }
    }

    /// Takes out up to [`MAX_EVENTS_PER_POLL`] waiting events, oldest first.
    pub fn process_next_events(&mut self) -> (r: Vec<TkConnectionEvent>)
        ensures
            r@ == old(self).events.queued().take(
                if MAX_EVENTS_PER_POLL < old(self).events.queued().len() {
                    MAX_EVENTS_PER_POLL as int
                } else {
                    old(self).events.queued().len() as int
                },
            ),
            final(self).events.queued() == old(self).events.queued().skip(r@.len() as int),
            keeps_but_events(*old(self), *final(self)),
    {
        self.events.poll(MAX_EVENTS_PER_POLL)
    }
}

} // verus!
