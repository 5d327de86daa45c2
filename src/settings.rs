//! Per-actuator settings: whether an actuator may be used and which events it
//! reacts to.
use vstd::prelude::*;
use crate::names::{comma_parts, listed_names, parse_list_string, same_text, views};
use crate::params::TkDeviceSettings;

verus! {

/// The position of the first entry for `name`, searching from `k`, or -1.
pub open spec fn entry_from(devs: Seq<TkDeviceSettings>, name: Seq<char>, k: int) -> int
    decreases devs.len() - k,
{
    if k < 0 || k >= devs.len() {
        -1
    } else if devs[k].actuator_id@ == name {
        k
    } else {
        entry_from(devs, name, k + 1)
    }
}

/// The position of the first entry for `name`, or -1.
pub open spec fn entry_of(devs: Seq<TkDeviceSettings>, name: Seq<char>) -> int {
    entry_from(devs, name, 0)
}

/// A search from `k` finds -1 or a position at or after `k` whose entry is
/// for `name`.
pub proof fn lemma_entry_from_found(devs: Seq<TkDeviceSettings>, name: Seq<char>, k: int)
    requires
        0 <= k,
    ensures
        entry_from(devs, name, k) == -1 || (k <= entry_from(devs, name, k) < devs.len()
            && devs[entry_from(devs, name, k)].actuator_id@ == name),
    decreases devs.len() - k,
{
    if k < devs.len() && devs[k].actuator_id@ != name {
        lemma_entry_from_found(devs, name, k + 1);
    }
}

/// `b` is `a` after the actuator `name` was enabled or disabled: its first
/// entry changed, or, where it had none, a new entry without events added.
pub open spec fn enabled_set(
    a: Seq<TkDeviceSettings>,
    b: Seq<TkDeviceSettings>,
    name: Seq<char>,
    enabled: bool,
) -> bool {
    let i = entry_of(a, name);
    if i >= 0 {
        b == a.update(i, TkDeviceSettings { enabled, ..a[i] })
    } else {
        &&& b.len() == a.len() + 1
        &&& b.drop_last() == a
        &&& b.last().actuator_id@ == name
        &&& b.last().enabled == enabled
        &&& b.last().events@.len() == 0
    }
}

/// `b` is `a` after the events of actuator `name` were set to `evs`: its
/// first entry changed, or, where it had none, a new disabled entry added.
pub open spec fn events_set(
    a: Seq<TkDeviceSettings>,
    b: Seq<TkDeviceSettings>,
    name: Seq<char>,
    evs: Seq<Seq<char>>,
) -> bool {
    let i = entry_of(a, name);
    if i >= 0 {
        &&& b.len() == a.len()
        &&& forall|j: int| 0 <= j < a.len() && j != i ==> #[trigger] b[j] == a[j]
        &&& b[i].actuator_id == a[i].actuator_id
        &&& b[i].enabled == a[i].enabled
        &&& views(b[i].events@) == evs
    } else {
        &&& b.len() == a.len() + 1
        &&& b.drop_last() == a
        &&& b.last().actuator_id@ == name
        &&& !b.last().enabled
        &&& views(b.last().events@) == evs
    }
}

/// The key prefix that sets whether an actuator is enabled.
pub const ENABLED_KEY: &'static str = "devices.enabled.";

/// The key prefix that sets the events of an actuator.
pub const EVENTS_KEY: &'static str = "devices.events.";

/// `s` starts with `p`.
pub open spec fn has_prefix(s: Seq<char>, p: Seq<char>) -> bool {
    p.len() <= s.len() && s.subrange(0, p.len() as int) == p
}

/// The key and value are a setting that is understood: `devices.enabled.<id>`
/// with `true` or `false`, or `devices.events.<id>` with a comma-separated list.
pub open spec fn known_setting(key: Seq<char>, value: Seq<char>) -> bool {
    (has_prefix(key, ENABLED_KEY@) && (value == "true"@ || value == "false"@)) || (!has_prefix(
        key,
        ENABLED_KEY@,
    ) && has_prefix(key, EVENTS_KEY@))
}

/// `b` is `a` after the setting `key` was given `value`; an unknown setting
/// changes nothing.
pub open spec fn string_set(
    a: Seq<TkDeviceSettings>,
    b: Seq<TkDeviceSettings>,
    key: Seq<char>,
    value: Seq<char>,
) -> bool {
    if has_prefix(key, ENABLED_KEY@) && (value == "true"@ || value == "false"@) {
        enabled_set(a, b, key.skip(ENABLED_KEY@.len() as int), value == "true"@)
    } else if !has_prefix(key, ENABLED_KEY@) && has_prefix(key, EVENTS_KEY@) {
        events_set(a, b, key.skip(EVENTS_KEY@.len() as int), listed_names(comma_parts(value)))
    } else {
        b == a
    }
}

/// The events joined by commas.
pub open spec fn join_commas(parts: Seq<Seq<char>>) -> Seq<char>
    decreases parts.len(),
{
    if parts.len() == 0 {
        Seq::empty()
    } else if parts.len() == 1 {
        parts[0]
    } else {
        join_commas(parts.drop_last()) + seq![','] + parts.last()
    }
}

/// The two lines that store one entry: whether it is enabled, and its events.
pub open spec fn entry_lines(d: TkDeviceSettings) -> Seq<Seq<char>> {
    seq![
        ENABLED_KEY@ + d.actuator_id@ + seq!['='] + if d.enabled {
            "true"@
        } else {
            "false"@
        },
        EVENTS_KEY@ + d.actuator_id@ + seq!['='] + join_commas(views(d.events@)),
    ]
}

/// The lines that store all entries, in order.
pub open spec fn settings_lines(devs: Seq<TkDeviceSettings>) -> Seq<Seq<char>>
    decreases devs.len(),
{
    if devs.len() == 0 {
        Seq::empty()
    } else {
        settings_lines(devs.drop_last()) + entry_lines(devs.last())
    }
}

/// The position of the first `=` of `s` at or after `k`, or -1.
pub open spec fn eq_from(s: Seq<char>, k: int) -> int
    decreases s.len() - k,
{
    if k < 0 || k >= s.len() {
        -1
    } else if s[k] == '=' {
        k
    } else {
        eq_from(s, k + 1)
    }
}

/// The part of `s` after the prefix `p`, where `s` starts with it.
fn strip_prefix<'a>(s: &'a str, p: &str) -> (r: Option<&'a str>)
    ensures
        r is Some <==> has_prefix(s@, p@),
        r matches Some(t) ==> t@ == s@.skip(p@.len() as int),
{
    let n = s.unicode_len();
    let m = p.unicode_len();
    if m > n {
        return None;
    }
    let mut i: usize = 0;
    while i < m
        invariant
            n == s@.len(),
            m == p@.len(),
            m <= n,
            i <= m,
            forall|j: int| 0 <= j < i ==> s@[j] == p@[j],
        decreases m - i,
    {
        if s.get_char(i) != p.get_char(i) {
            assert(s@.subrange(0, m as int)[i as int] != p@[i as int]);
            return None;
        }
        i = i + 1;
    }
    assert(s@.subrange(0, m as int) =~= p@);
    let t = s.substring_char(m, n);
    assert(t@ =~= s@.skip(m as int));
    Some(t)
}

/// The settings of all actuators.
#[derive(Debug, Clone)]
pub struct TkSettings {
    pub devices: Vec<TkDeviceSettings>,
}

impl TkSettings {
    /// No actuator configured.
    pub fn new() -> (r: TkSettings)
        ensures
            r.devices@.len() == 0,
    {
        TkSettings { devices: Vec::new() }
    }

    /// The position of the first entry for `name`.
    pub fn position(&self, name: &str) -> (r: Option<usize>)
        ensures
            r matches Some(i) ==> i == entry_of(self.devices@, name@),
            r is None ==> entry_of(self.devices@, name@) == -1,
            entry_of(self.devices@, name@) == -1 || 0 <= entry_of(self.devices@, name@)
                < self.devices@.len(),
    {
        let mut i: usize = 0;
        while i < self.devices.len()
            invariant
                i <= self.devices@.len(),
                entry_of(self.devices@, name@) == entry_from(self.devices@, name@, i as int),
            decreases self.devices@.len() - i,
        {
            if same_text(self.devices[i].actuator_id.as_str(), name) {
                return Some(i);
            }
            i = i + 1;
        }
        None
    }

    /// Whether the actuator is enabled; one without an entry is not.
    pub fn get_enabled(&self, name: &str) -> (r: bool)
        ensures
            r == (entry_of(self.devices@, name@) >= 0 && self.devices@[entry_of(
                self.devices@,
                name@,
            )].enabled),
    {
        match self.position(name) {
            Some(i) => self.devices[i].enabled,
            None => false,
        }
    }

    /// The events the actuator reacts to; none where it has no entry.
    pub fn get_events(&self, name: &str) -> (r: Vec<String>)
        ensures
            entry_of(self.devices@, name@) >= 0 ==> views(r@) == views(
                self.devices@[entry_of(self.devices@, name@)].events@,
            ),
            entry_of(self.devices@, name@) < 0 ==> r@.len() == 0,
    {
        match self.position(name) {
            Some(i) => {
                let evs = &self.devices[i].events;
                let mut r: Vec<String> = Vec::new();
                let mut k: usize = 0;
                while k < evs.len()
                    invariant
                        k <= evs@.len(),
                        r@.len() == k,
                        views(r@) == views(evs@).take(k as int),
                    decreases evs@.len() - k,
                {
                    let ghost prev = r@;
                    r.push(evs[k].clone());
                    assert(views(r@) =~= views(prev).push(evs@[k as int]@));
                    assert(views(evs@).take(k as int + 1) =~= views(evs@).take(k as int).push(
                        evs@[k as int]@,
                    ));
                    assert(views(r@) =~= views(evs@).take(k as int + 1));
                    k = k + 1;
                }
                assert(views(evs@).take(k as int) =~= views(evs@));
                r
            },
            None => Vec::new(),
        }
    }

    /// Enables or disables the actuator, adding an entry for it where it has
    /// none.
    pub fn set_enabled(&mut self, name: &str, enabled: bool)
        ensures
            enabled_set(old(self).devices@, final(self).devices@, name@, enabled),
    {
        match self.position(name) {
            Some(i) => {
                let mut d = self.devices.remove(i);
                d.enabled = enabled;
                self.devices.insert(i, d);
                assert(self.devices@ =~= old(self).devices@.update(
                    i as int,
                    TkDeviceSettings { enabled, ..old(self).devices@[i as int] },
                ));
                proof {
                    lemma_entry_from_found(old(self).devices@, name@, 0);
                }
            },
            None => {
                self.devices.push(
                    TkDeviceSettings {
                        actuator_id: String::from_str(name),
                        enabled,
                        events: Vec::new(),
                    },
                );
                assert(self.devices@.drop_last() =~= old(self).devices@);
            },
        }
    }

    /// Sets the events the actuator reacts to, adding a disabled entry for it
    /// where it has none.
    pub fn set_events(&mut self, name: &str, events: Vec<String>)
        ensures
            events_set(old(self).devices@, final(self).devices@, name@, views(events@)),
    {
        match self.position(name) {
            Some(i) => {
                let mut d = self.devices.remove(i);
                d.events = events;
                self.devices.insert(i, d);
                proof {
                    lemma_entry_from_found(old(self).devices@, name@, 0);
                }
            },
            None => {
                self.devices.push(
                    TkDeviceSettings { actuator_id: String::from_str(name), enabled: false, events },
                );
                assert(self.devices@.drop_last() =~= old(self).devices@);
            },
        }
    }

    /// Applies one textual setting: `devices.enabled.<id>` with `true` or
    /// `false`, or `devices.events.<id>` with a comma-separated list of
    /// events. Says whether the setting was understood; otherwise nothing
    /// changes.
    pub fn set_string(&mut self, key: &str, value: &str) -> (r: bool)
        ensures
            r == known_setting(key@, value@),
            string_set(old(self).devices@, final(self).devices@, key@, value@),
    {
        proof {
            reveal_strlit("true");
            reveal_strlit("false");
        }
        match strip_prefix(key, ENABLED_KEY) {
            Some(name) => {
                if same_text(value, "true") {
                    self.set_enabled(name, true);
                    true
                } else if same_text(value, "false") {
                    self.set_enabled(name, false);
                    true
                } else {
                    false
                }
            },
            None => match strip_prefix(key, EVENTS_KEY) {
                Some(name) => {
                    let events = parse_list_string(value);
                    self.set_events(name, events);
                    true
                },
                None => false,
            },
        }
    }

    /// Applies one stored line `key=value` (split at the first `=`) as by
    /// [`TkSettings::set_string`]. A line without `=` is not understood and
    /// changes nothing.
    pub fn load_line(&mut self, line: &str) -> (r: bool)
        ensures
            eq_from(line@, 0) < 0 ==> !r && final(self).devices@ == old(self).devices@,
            eq_from(line@, 0) >= 0 ==> {
                let p = eq_from(line@, 0);
                let key = line@.subrange(0, p);
                let value = line@.skip(p + 1);
                &&& r == known_setting(key, value)
                &&& string_set(old(self).devices@, final(self).devices@, key, value)
            },
    {
        let n = line.unicode_len();
        let mut i: usize = 0;
        while i < n
            invariant
                n == line@.len(),
                i <= n,
                self.devices@ == old(self).devices@,
                eq_from(line@, 0) == eq_from(line@, i as int),
            decreases n - i,
        {
            if line.get_char(i) == '=' {
                let key = line.substring_char(0, i);
                let value = line.substring_char(i + 1, n);
                assert(value@ =~= line@.skip(i as int + 1));
                return self.set_string(key, value);
            }
            i = i + 1;
        }
        false
    }

    /// The lines that store these settings: for each entry, in order, whether
    /// it is enabled and its events.
    pub fn to_lines(&self) -> (r: Vec<String>)
        ensures
            views(r@) == settings_lines(self.devices@),
    {
        proof {
            reveal_strlit("true");
            reveal_strlit("false");
            reveal_strlit("=");
            reveal_strlit(",");
        }
        let mut r: Vec<String> = Vec::new();
        let mut i: usize = 0;
        while i < self.devices.len()
            invariant
                i <= self.devices@.len(),
                views(r@) == settings_lines(self.devices@.subrange(0, i as int)),
            decreases self.devices@.len() - i,
        {
            proof {
                reveal_strlit("true");
                reveal_strlit("false");
                reveal_strlit("=");
            }
            let d = &self.devices[i];
            let mut en = String::from_str(ENABLED_KEY);
            en.append(d.actuator_id.as_str());
            en.append("=");
            en.append(if d.enabled { "true" } else { "false" });
            let mut ev = String::from_str(EVENTS_KEY);
            ev.append(d.actuator_id.as_str());
            ev.append("=");
            let mut k: usize = 0;
            let ghost head = ev@;
            while k < d.events.len()
                invariant
                    k <= d.events@.len(),
                    ev@ == head + join_commas(views(d.events@).take(k as int)),
                decreases d.events@.len() - k,
            {
                let ghost before = views(d.events@).take(k as int);
                let ghost after = views(d.events@).take(k as int + 1);
                assert(after.drop_last() =~= before);
                assert(after.last() == d.events@[k as int]@);
                proof {
                    reveal_strlit(",");
                }
                if k > 0 {
                    ev.append(",");
                }
                ev.append(d.events[k].as_str());
                proof {
                    if k == 0 {
                        assert(before =~= Seq::<Seq<char>>::empty());
                    }
                }
                assert(ev@ =~= head + join_commas(after));
                k = k + 1;
            }
            assert(views(d.events@).take(k as int) =~= views(d.events@));
            assert(en@ =~= entry_lines(*d)[0]);
            assert(ev@ =~= entry_lines(*d)[1]);
            let ghost prev = r@;
            r.push(en);
            r.push(ev);
            assert(self.devices@.subrange(0, i as int + 1).drop_last() =~= self.devices@.subrange(
                0,
                i as int,
            ));
            assert(views(r@) =~= views(prev) + entry_lines(self.devices@[i as int]));
            i = i + 1;
        }
        assert(self.devices@.subrange(0, i as int) =~= self.devices@);
        r
    }
}

} // verus!
