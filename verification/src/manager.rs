//! The device manager: it owns the loaded configuration and decides, for a
//! device or a hotplug event, which notifications to show and which commands
//! to run. The decisions come back as a list of actions in order; the binary
//! performs them.

use vstd::prelude::*;
use vstd::string::*;
use crate::config::{Config, WatchedDeviceView};
use crate::device::{Device, Event, EventKind, is_product, spec_is_product};

verus! {

/// One side effect the dispatch rules ask for, in the order produced:
/// show a desktop notification with the given body text, or run the given
/// command string.
#[derive(Debug, Clone, PartialEq, Eq)]
pub enum Action {
    Notify(String),
    Run(String),
}

/// View of an action: the same choice over character sequences.
pub enum ActionView {
    Notify(Seq<char>),
    Run(Seq<char>),
}

impl View for Action {
    type V = ActionView;

    open spec fn view(&self) -> ActionView {
        match self {
            Action::Notify(s) => ActionView::Notify(s@),
            Action::Run(s) => ActionView::Run(s@),
        }
    }
}

/// The notification text and command for an entry whose device appeared.
pub open spec fn plugged_actions(name: Seq<char>, wd: WatchedDeviceView) -> Seq<ActionView> {
    seq![ActionView::Notify(name + " plugged"@), ActionView::Run(wd.on_plugged)]
}

/// The notification text and command for an entry whose device disappeared.
pub open spec fn unplugged_actions(name: Seq<char>, wd: WatchedDeviceView) -> Seq<ActionView> {
    seq![ActionView::Notify(name + " unplugged"@), ActionView::Run(wd.on_unplugged)]
}

/// Actions for a device seen during the initial scan: every entry whose
/// identity string matches the device contributes its plugged notification
/// and command. All matching entries fire; there is no short circuit.
pub open spec fn spec_device_actions(
    entries: Seq<(Seq<char>, WatchedDeviceView)>,
    dev: Seq<(Seq<char>, Seq<char>)>,
) -> Seq<ActionView>
    decreases entries.len(),
{
    if entries.len() == 0 {
        Seq::empty()
    } else if spec_is_product(entries[0].1.product, dev) {
        plugged_actions(entries[0].0, entries[0].1) + spec_device_actions(entries.skip(1), dev)
    } else {
        spec_device_actions(entries.skip(1), dev)
    }
}

/// Actions for a hotplug event. Entries are evaluated in order; for each
/// entry whose identity string matches the event's device, an Add event
/// contributes the plugged actions and a Remove event the unplugged actions,
/// while any other event kind stops the evaluation of all remaining entries
/// at once, contributing nothing further.
pub open spec fn spec_event_actions(
    entries: Seq<(Seq<char>, WatchedDeviceView)>,
    dev: Seq<(Seq<char>, Seq<char>)>,
    kind: EventKind,
) -> Seq<ActionView>
    decreases entries.len(),
{
    if entries.len() == 0 {
        Seq::empty()
    } else if spec_is_product(entries[0].1.product, dev) {
        match kind {
            EventKind::Add => plugged_actions(entries[0].0, entries[0].1)
                + spec_event_actions(entries.skip(1), dev, kind),
            EventKind::Remove => unplugged_actions(entries[0].0, entries[0].1)
                + spec_event_actions(entries.skip(1), dev, kind),
            EventKind::Other => Seq::empty(),
        }
    } else {
        spec_event_actions(entries.skip(1), dev, kind)
    }
}

/// An event of any kind other than Add or Remove never produces an action:
/// the first matching entry stops the evaluation, and entries that do not
/// match contribute nothing.
pub proof fn lemma_other_kind_no_actions(
    entries: Seq<(Seq<char>, WatchedDeviceView)>,
    dev: Seq<(Seq<char>, Seq<char>)>,
)
    ensures
        spec_event_actions(entries, dev, EventKind::Other) == Seq::<ActionView>::empty(),
    decreases entries.len(),
{
    if entries.len() == 0 {
    } else if spec_is_product(entries[0].1.product, dev) {
    } else {
        lemma_other_kind_no_actions(entries.skip(1), dev);
    }
}

/// An Add event is dispatched exactly like a device found during the initial
/// scan: every matching entry fires its plugged notification and command.
pub proof fn lemma_add_like_initial_scan(
    entries: Seq<(Seq<char>, WatchedDeviceView)>,
    dev: Seq<(Seq<char>, Seq<char>)>,
)
    ensures
        spec_event_actions(entries, dev, EventKind::Add) == spec_device_actions(entries, dev),
    decreases entries.len(),
{
    if entries.len() == 0 {
    } else {
        lemma_add_like_initial_scan(entries.skip(1), dev);
    }
}

/// Non-exclusive dispatch: every entry whose identity string matches the
/// device contributes its own plugged notification, immediately followed by
/// its own plugged command, to the initial-scan actions — however many other
/// entries match the same device.
pub proof fn lemma_non_exclusive_dispatch(
    entries: Seq<(Seq<char>, WatchedDeviceView)>,
    dev: Seq<(Seq<char>, Seq<char>)>,
    i: int,
)
    requires
        0 <= i < entries.len(),
        spec_is_product(entries[i].1.product, dev),
    ensures
        exists|k: int|
            0 <= k && k + 1 < spec_device_actions(entries, dev).len()
                && #[trigger] spec_device_actions(entries, dev)[k] == ActionView::Notify(
                entries[i].0 + " plugged"@,
            ) && spec_device_actions(entries, dev)[k + 1] == ActionView::Run(
                entries[i].1.on_plugged,
            ),
    decreases entries.len(),
{
    let acts = spec_device_actions(entries, dev);
    if i == 0 {
        assert(acts[0] == ActionView::Notify(entries[0].0 + " plugged"@));
        assert(acts[1] == ActionView::Run(entries[0].1.on_plugged));
        let k0: int = 0;
        assert(0 <= k0 && k0 + 1 < acts.len() && acts[k0] == ActionView::Notify(
            entries[0].0 + " plugged"@,
        ) && acts[k0 + 1] == ActionView::Run(entries[0].1.on_plugged));
    } else {
        assert(entries.skip(1)[i - 1] == entries[i]);
        lemma_non_exclusive_dispatch(entries.skip(1), dev, i - 1);
        let rest = spec_device_actions(entries.skip(1), dev);
        let k0 = choose|k: int|
            0 <= k && k + 1 < rest.len() && #[trigger] rest[k] == ActionView::Notify(
                entries[i].0 + " plugged"@,
            ) && rest[k + 1] == ActionView::Run(entries[i].1.on_plugged);
        if spec_is_product(entries[0].1.product, dev) {
            assert(acts[k0 + 2] == rest[k0]);
            assert(acts[k0 + 3] == rest[k0 + 1]);
        } else {
            assert(acts[k0] == rest[k0]);
            assert(acts[k0 + 1] == rest[k0 + 1]);
        }
    }
}

/// Holds the configuration, loaded once at startup, and applies the dispatch
/// rules to devices and events.
pub struct DeviceManager {
    pub config: Config,
}

impl DeviceManager {
    /// Constructs a manager that owns the given configuration.
    pub fn new(config: Config) -> (m: DeviceManager)
        ensures
            m.config == config,
    {
        DeviceManager { config }
    }

    /// Actions for a device found attached during the initial scan: for every
    /// configured entry matching the device, a "<name> plugged" notification
    /// followed by that entry's plugged command. All matching entries fire.
    pub fn handle_device(&self, device: &Device) -> (r: Vec<Action>)
        ensures
            r@.map_values(|a: Action| a@) == spec_device_actions(self.config@, device@),
    {
        let mut out: Vec<Action> = Vec::new();
        let n = self.config.devices.len();
        let mut i: usize = 0;
        proof {
            assert(self.config@.skip(0) =~= self.config@);
            assert(out@.map_values(|a: Action| a@) + spec_device_actions(self.config@, device@)
                =~= spec_device_actions(self.config@, device@));
        }
        while i < n
            invariant
                n == self.config.devices.len(),
                0 <= i <= n,
                spec_device_actions(self.config@, device@) == out@.map_values(|a: Action| a@)
                    + spec_device_actions(self.config@.skip(i as int), device@),
            decreases n - i,
        {
            let ghost pre = out@.map_values(|a: Action| a@);
            let ghost rest = self.config@.skip(i as int);
            let entry = &self.config.devices[i];
            assert(rest[0] == self.config@[i as int]);
            if is_product(&entry.1.product, device) {
                let mut msg = entry.0.clone();
                msg.append(" plugged");
                out.push(Action::Notify(msg));
                out.push(Action::Run(entry.1.on_plugged.clone()));
                assert(out@.map_values(|a: Action| a@) =~= pre + plugged_actions(
                    self.config@[i as int].0,
                    self.config@[i as int].1,
                ));
            }
            i += 1;
            assert(rest.skip(1) =~= self.config@.skip(i as int));
        }
        assert(spec_device_actions(self.config@.skip(n as int), device@) =~= Seq::<
            ActionView,
        >::empty());
        assert(out@.map_values(|a: Action| a@) =~= spec_device_actions(self.config@, device@));
        out
    }

    /// Actions for a hotplug event: matching entries fire their plugged
    /// actions on Add and their unplugged actions on Remove, and any other
    /// event kind met on a matching entry ends the evaluation of all
    /// remaining entries for this event.
    pub fn handle_change(&self, event: &Event) -> (r: Vec<Action>)
        ensures
            r@.map_values(|a: Action| a@) == spec_event_actions(
                self.config@,
                event.device@,
                event.kind,
            ),
    {
        let mut out: Vec<Action> = Vec::new();
        let n = self.config.devices.len();
        let mut i: usize = 0;
        proof {
            assert(self.config@.skip(0) =~= self.config@);
            assert(out@.map_values(|a: Action| a@) + spec_event_actions(
                self.config@,
                event.device@,
                event.kind,
            ) =~= spec_event_actions(self.config@, event.device@, event.kind));
        }
        while i < n
            invariant
                n == self.config.devices.len(),
                0 <= i <= n,
                spec_event_actions(self.config@, event.device@, event.kind)
                    == out@.map_values(|a: Action| a@) + spec_event_actions(
                    self.config@.skip(i as int),
                    event.device@,
                    event.kind,
                ),
            decreases n - i,
        {
            let ghost pre = out@.map_values(|a: Action| a@);
            let ghost rest = self.config@.skip(i as int);
            let entry = &self.config.devices[i];
            assert(rest[0] == self.config@[i as int]);
            if is_product(&entry.1.product, &event.device) {
                match event.kind {
                    EventKind::Add => {
                        let mut msg = entry.0.clone();
                        msg.append(" plugged");
                        out.push(Action::Notify(msg));
                        out.push(Action::Run(entry.1.on_plugged.clone()));
                        assert(out@.map_values(|a: Action| a@) =~= pre + plugged_actions(
                            self.config@[i as int].0,
                            self.config@[i as int].1,
                        ));
                    },
                    EventKind::Remove => {
                        let mut msg = entry.0.clone();
                        msg.append(" unplugged");
                        out.push(Action::Notify(msg));
                        out.push(Action::Run(entry.1.on_unplugged.clone()));
                        assert(out@.map_values(|a: Action| a@) =~= pre + unplugged_actions(
                            self.config@[i as int].0,
                            self.config@[i as int].1,
                        ));
                    },
                    EventKind::Other => {
                        assert(spec_event_actions(rest, event.device@, event.kind)
                            =~= Seq::<ActionView>::empty());
                        assert(out@.map_values(|a: Action| a@) =~= spec_event_actions(
                            self.config@,
                            event.device@,
                            event.kind,
                        ));
                        return out;
                    },
                }
            }
            i += 1;
            assert(rest.skip(1) =~= self.config@.skip(i as int));
        }
        assert(spec_event_actions(self.config@.skip(n as int), event.device@, event.kind) =~= Seq::<
            ActionView,
        >::empty());
        assert(out@.map_values(|a: Action| a@) =~= spec_event_actions(
            self.config@,
            event.device@,
            event.kind,
        ));
        out
    }
}

} // verus!
