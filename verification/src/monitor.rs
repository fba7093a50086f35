use vstd::prelude::*;

use std::collections::HashMap;
use std::sync::Arc;
use std::time::{Duration, Instant};

use crossbeam_channel::{Receiver, Sender};

use crate::clock::{elapsed_since, instant_now, unix_timestamp};
use crate::error::{FrameworkError, FrameworkResult};
use crate::strmap::StrMap;

verus! {

#[verifier::external_type_specification]
#[verifier::external_body]
#[verifier::reject_recursive_types(T)]
pub struct ExSender<T>(Sender<T>);

#[verifier::external_type_specification]
#[verifier::external_body]
#[verifier::reject_recursive_types(T)]
pub struct ExReceiver<T>(Receiver<T>);

/// Calls `crossbeam_channel::bounded(cap)` for monitor events: a channel that
/// holds at most `cap` events (a rendezvous channel when `cap` is 0).
/// crossbeam panics when the capacity is too large to lay out ("bounded
/// channel capacity is too large", or a slot buffer past `isize::MAX`
/// bytes); `requires` keeps `cap` well below both limits for a slot of a
/// `MonitorEvent` and its stamp.  The two ends are opaque, so nothing more is
/// stated.
#[verifier::external_body]
fn bounded_channel(cap: usize) -> (ends: (Sender<MonitorEvent>, Receiver<MonitorEvent>))
    requires
        cap <= usize::MAX / 1024,
{
    crossbeam_channel::bounded(cap)
}

/// Calls `crossbeam_channel::Sender::try_send` and drops its result: the
/// message is queued when the channel has room and a receiver, and dropped
/// otherwise.  Whether it had room depends on what other holders of the
/// receiver have taken out, so nothing is stated.
#[verifier::external_body]
fn try_send_event(sender: &Sender<MonitorEvent>, event: MonitorEvent) {
    let _ = sender.try_send(event);
}

/// Calls `<Arc<Receiver<MonitorEvent>> as Clone>::clone`, which, as std
/// documents it, makes another pointer to the same allocation: the copy
/// points at the same receiver.
#[verifier::external_body]
fn share_receiver(receiver: &Arc<Receiver<MonitorEvent>>) -> (copy: Arc<Receiver<MonitorEvent>>)
    ensures
        copy == *receiver,
{
    Arc::clone(receiver)
}

/// Monitor event types.
#[derive(Debug, Clone)]
pub enum MonitorEvent {
    /// Application started
    AppStarted { app_id: String, timestamp: i64 },
    /// Application stopped
    AppStopped { app_id: String, timestamp: i64 },
    /// Performance metric; the value is carried as its IEEE 754 bit pattern
    PerformanceMetric { name: String, value_bits: u64, unit: String },
    /// Error event
    Error { code: i32, message: String },
    /// Custom event
    Custom { event_type: String, data: HashMap<String, String> },
}

/// Application state.
#[derive(Debug, Clone, Copy, PartialEq, Eq, Structural)]
pub enum AppState {
    /// Uninitialized
    Uninitialized,
    /// Running
    Running,
    /// Paused
    Paused,
    /// Stopped
    Stopped,
    /// Error state
    Error,
}

/// Application information.
#[derive(Debug)]
pub struct AppInfo {
    pub id: String,
    pub name: String,
    pub version: String,
    pub state: AppState,
    pub start_time: Option<Instant>,
    pub metadata: HashMap<String, String>,
}

/// `a` and `b` describe the same application: equal fields, and metadata
/// with the same entries.
pub open spec fn same_app_info(a: AppInfo, b: AppInfo) -> bool {
    &&& a.id == b.id
    &&& a.name == b.name
    &&& a.version == b.version
    &&& a.state == b.state
    &&& a.start_time == b.start_time
    &&& a.metadata@ == b.metadata@
}

impl AppInfo {
    /// A new, uninitialized application with no metadata.
    pub fn new(id: &str, name: &str, version: &str) -> (app: Self)
        ensures
            app.id@ == id@,
            app.name@ == name@,
            app.version@ == version@,
            app.state == AppState::Uninitialized,
            app.start_time is None,
            app.metadata@ == Map::<String, String>::empty(),
    {
        AppInfo {
            id: String::from_str(id),
            name: String::from_str(name),
            version: String::from_str(version),
            state: AppState::Uninitialized,
            start_time: None,
            metadata: HashMap::new(),
        }
    }

    /// How long the application has been running: `None` unless it has a
    /// start time.
    pub fn running_time(&self) -> (d: Option<Duration>)
        ensures
            d is Some <==> self.start_time is Some,
    {
        match self.start_time {
            Some(t) => Some(elapsed_since(t)),
            None => None,
        }
    }
}

impl Clone for AppInfo {
    fn clone(&self) -> (copy: Self)
        ensures
            same_app_info(copy, *self),
    {
        AppInfo {
            id: self.id.clone(),
            name: self.name.clone(),
            version: self.version.clone(),
            state: self.state,
            start_time: self.start_time,
            metadata: self.metadata.clone(),
        }
    }
}

/// Monitor configuration.
#[derive(Debug, Clone, Copy)]
pub struct MonitorConfig {
    /// Event buffer size
    pub buffer_size: usize,
    /// Whether to enable performance monitoring
    pub enable_performance: bool,
    /// Whether to enable error tracking
    pub enable_error_tracking: bool,
    /// Sampling interval (milliseconds)
    pub sampling_interval_ms: u64,
}

impl Default for MonitorConfig {
    fn default() -> (config: Self)
        ensures
            config.buffer_size == 1000,
            config.enable_performance,
            config.enable_error_tracking,
            config.sampling_interval_ms == 1000,
    {
        MonitorConfig {
            buffer_size: 1000,
            enable_performance: true,
            enable_error_tracking: true,
            sampling_interval_ms: 1000,
        }
    }
}

/// The message of the error that a second registration of `id` gets.
pub open spec fn already_registered_message(id: Seq<char>) -> Seq<char> {
    "App "@ + id + " already registered"@
}

/// The message of the error that an operation on an unknown `id` gets.
pub open spec fn not_found_message(id: Seq<char>) -> Seq<char> {
    "App "@ + id + " not found"@
}

/// The applications after `id` was started at time `start`: running, with
/// that start time, the rest as before.
pub open spec fn apps_started(
    before: Map<Seq<char>, AppInfo>,
    id: Seq<char>,
    start: Option<Instant>,
) -> Map<Seq<char>, AppInfo> {
    before.insert(id, AppInfo { state: AppState::Running, start_time: start, ..before[id] })
}

/// The applications after `id` was stopped: stopped, with no start time,
/// the rest as before.
pub open spec fn apps_stopped(before: Map<Seq<char>, AppInfo>, id: Seq<char>) -> Map<
    Seq<char>,
    AppInfo,
> {
    before.insert(id, AppInfo { state: AppState::Stopped, start_time: None, ..before[id] })
}

/// The metrics after value `bits` was recorded for metric `name`: appended to
/// that metric's values.
pub open spec fn metrics_recorded(before: Map<Seq<char>, Seq<u64>>, name: Seq<char>, bits: u64) -> Map<
    Seq<char>,
    Seq<u64>,
> {
    before.insert(
        name,
        if before.contains_key(name) {
            before[name].push(bits)
        } else {
            seq![bits]
        },
    )
}

/// `e` announces that application `id` started, at a time that is not
/// before the epoch.
pub open spec fn is_started_event(e: MonitorEvent, id: Seq<char>) -> bool {
    e matches MonitorEvent::AppStarted { app_id, timestamp } && app_id@ == id && timestamp >= 0
}

/// `e` announces that application `id` stopped, at a time that is not before
/// the epoch.
pub open spec fn is_stopped_event(e: MonitorEvent, id: Seq<char>) -> bool {
    e matches MonitorEvent::AppStopped { app_id, timestamp } && app_id@ == id && timestamp >= 0
}

/// `e` carries value `bits` of metric `name`, in milliseconds.
pub open spec fn is_metric_event(e: MonitorEvent, name: Seq<char>, bits: u64) -> bool {
    e matches MonitorEvent::PerformanceMetric { name: n, value_bits, unit } && n@ == name
        && value_bits == bits && unit@ == "ms"@
}

/// `e` reports error `code` with `message`.
pub open spec fn is_error_event(e: MonitorEvent, code: i32, message: Seq<char>) -> bool {
    e matches MonitorEvent::Error { code: c, message: m } && c == code && m@ == message
}

/// `after` is `before` with one more event at its end.
pub open spec fn one_more_event(before: Seq<MonitorEvent>, after: Seq<MonitorEvent>) -> bool {
    after == before.push(after.last())
}

/// Tracks registered applications, their lifecycle and performance metrics,
/// and publishes events about them on a bounded channel.
pub struct Monitor {
    config: MonitorConfig,
    apps: StrMap<AppInfo>,
    event_sender: Sender<MonitorEvent>,
    event_receiver: Arc<Receiver<MonitorEvent>>,
    metrics: StrMap<Vec<u64>>,
    offered: Ghost<Seq<MonitorEvent>>,
}

impl Monitor {
    /// Every application is stored under its own id.
    #[verifier::type_invariant]
    closed spec fn apps_keyed_by_id(&self) -> bool {
        forall|k: Seq<char>| #[trigger] self.apps@.contains_key(k) ==> self.apps@[k].id@ == k
    }

    /// The configuration the monitor was made with.
    pub closed spec fn config(&self) -> MonitorConfig {
        self.config
    }

    /// The receiving end of the channel the monitor publishes its events on,
    /// made with the monitor and kept for its whole life.
    pub closed spec fn receiver(&self) -> Arc<Receiver<MonitorEvent>> {
        self.event_receiver
    }

    /// The registered applications, by id.
    pub closed spec fn apps(&self) -> Map<Seq<char>, AppInfo> {
        self.apps@
    }

    /// The recorded metric values (as IEEE 754 bit patterns), by metric name,
    /// in the order they were recorded.
    pub closed spec fn metrics(&self) -> Map<Seq<char>, Seq<u64>> {
        self.metrics@.map_values(|v: Vec<u64>| v@)
    }

    /// The events the monitor has handed to its channel, oldest first.  Each
    /// was queued if the channel had room for it at the time, and dropped
    /// otherwise.
    pub closed spec fn offered(&self) -> Seq<MonitorEvent> {
        self.offered@
    }

    /// Create a new monitor, with no applications, no metrics and no events.
    pub fn new(config: MonitorConfig) -> (m: Self)
        requires
            config.buffer_size <= usize::MAX / 1024,
        ensures
            m.config() == config,
            m.apps() == Map::<Seq<char>, AppInfo>::empty(),
            m.metrics() == Map::<Seq<char>, Seq<u64>>::empty(),
            m.offered() == Seq::<MonitorEvent>::empty(),
    {
        let (sender, receiver) = bounded_channel(config.buffer_size);
        let m = Monitor {
            config,
            apps: StrMap::new(),
            event_sender: sender,
            event_receiver: Arc::new(receiver),
            metrics: StrMap::new(),
            offered: Ghost(Seq::empty()),
        };
        assert(m.metrics() =~= Map::<Seq<char>, Seq<u64>>::empty());
        m
    }

    /// Register application.  An id can be registered once.
    pub fn register_app(&mut self, app: AppInfo) -> (r: FrameworkResult<()>)
        ensures
            final(self).config() == old(self).config(),
            final(self).receiver() == old(self).receiver(),
            final(self).metrics() == old(self).metrics(),
            final(self).offered() == old(self).offered(),
            old(self).apps().contains_key(app.id@) ==> {
                &&& r matches Err(FrameworkError::MonitorError(m))
                    && m@ == already_registered_message(app.id@)
                &&& final(self).apps() == old(self).apps()
            },
            !old(self).apps().contains_key(app.id@) ==> {
                &&& r is Ok
                &&& final(self).apps() == old(self).apps().insert(app.id@, app)
            },
    {
        proof {
            use_type_invariant(&*self);
        }
        if self.apps.contains_key(app.id.as_str()) {
            let mut msg = String::from_str("App ");
            msg.append(app.id.as_str());
            msg.append(" already registered");
            return Err(FrameworkError::MonitorError(msg));
        }
        let key = app.id.clone();
        let mut apps = StrMap::new();
        std::mem::swap(&mut apps, &mut self.apps);
        apps.insert(key, app);
        self.apps = apps;
        Ok(())
    }

    /// Start application monitoring: the application is running from now on.
    pub fn start_app(&mut self, app_id: &str) -> (r: FrameworkResult<()>)
        ensures
            final(self).config() == old(self).config(),
            final(self).receiver() == old(self).receiver(),
            final(self).metrics() == old(self).metrics(),
            !old(self).apps().contains_key(app_id@) ==> {
                &&& r matches Err(FrameworkError::MonitorError(m))
                    && m@ == not_found_message(app_id@)
                &&& final(self).apps() == old(self).apps()
                &&& final(self).offered() == old(self).offered()
            },
            old(self).apps().contains_key(app_id@) ==> {
                &&& r is Ok
                &&& one_more_event(old(self).offered(), final(self).offered())
                &&& is_started_event(final(self).offered().last(), app_id@)
                &&& final(self).apps().contains_key(app_id@)
                &&& forall|k: Seq<char>|
                    k != app_id@ ==> (#[trigger] final(self).apps().contains_key(k)
                        <==> old(self).apps().contains_key(k)) && (old(self).apps().contains_key(k)
                        ==> final(self).apps()[k] == old(self).apps()[k])
                &&& final(self).apps()[app_id@].start_time is Some
                &&& final(self).apps() == apps_started(
                    old(self).apps(),
                    app_id@,
                    final(self).apps()[app_id@].start_time,
                )
            },
    {
        proof {
            use_type_invariant(&*self);
        }
        let mut apps = StrMap::new();
        std::mem::swap(&mut apps, &mut self.apps);
        match apps.remove(app_id) {
            Some(mut app) => {
                app.state = AppState::Running;
                app.start_time = Some(instant_now());
                apps.insert(String::from_str(app_id), app);
                self.apps = apps;
                let event = MonitorEvent::AppStarted {
                    app_id: String::from_str(app_id),
                    timestamp: unix_timestamp(),
                };
                let ghost sent = event;
                try_send_event(&self.event_sender, event);
                proof {
                    self.offered@ = self.offered@.push(sent);
                }
                Ok(())
            },
            None => {
                self.apps = apps;
                Err(FrameworkError::MonitorError(not_found(app_id)))
            },
        }
    }

    /// Stop application monitoring: the application is stopped and has no
    /// start time.
    pub fn stop_app(&mut self, app_id: &str) -> (r: FrameworkResult<()>)
        ensures
            final(self).config() == old(self).config(),
            final(self).receiver() == old(self).receiver(),
            final(self).metrics() == old(self).metrics(),
            !old(self).apps().contains_key(app_id@) ==> {
                &&& r matches Err(FrameworkError::MonitorError(m))
                    && m@ == not_found_message(app_id@)
                &&& final(self).apps() == old(self).apps()
                &&& final(self).offered() == old(self).offered()
            },
            old(self).apps().contains_key(app_id@) ==> {
                &&& r is Ok
                &&& one_more_event(old(self).offered(), final(self).offered())
                &&& is_stopped_event(final(self).offered().last(), app_id@)
                &&& final(self).apps().contains_key(app_id@)
                &&& final(self).apps()[app_id@].state == AppState::Stopped
                &&& final(self).apps()[app_id@].start_time is None
                &&& forall|k: Seq<char>|
                    k != app_id@ ==> (#[trigger] final(self).apps().contains_key(k)
                        <==> old(self).apps().contains_key(k)) && (old(self).apps().contains_key(k)
                        ==> final(self).apps()[k] == old(self).apps()[k])
                &&& final(self).apps() == apps_stopped(old(self).apps(), app_id@)
            },
    {
        proof {
            use_type_invariant(&*self);
        }
        let mut apps = StrMap::new();
        std::mem::swap(&mut apps, &mut self.apps);
        match apps.remove(app_id) {
            Some(mut app) => {
                app.state = AppState::Stopped;
                app.start_time = None;
                apps.insert(String::from_str(app_id), app);
                self.apps = apps;
                let event = MonitorEvent::AppStopped {
                    app_id: String::from_str(app_id),
                    timestamp: unix_timestamp(),
                };
                let ghost sent = event;
                try_send_event(&self.event_sender, event);
                proof {
                    self.offered@ = self.offered@.push(sent);
                }
                Ok(())
            },
            None => {
                self.apps = apps;
                Err(FrameworkError::MonitorError(not_found(app_id)))
            },
        }
    }

    /// Get application information: a copy of what is registered under
    /// `app_id`.
    pub fn get_app_info(&self, app_id: &str) -> (r: Option<AppInfo>)
        ensures
            match r {
                Some(app) => {
                    &&& self.apps().contains_key(app_id@)
                    &&& same_app_info(app, self.apps()[app_id@])
                    &&& app.id@ == app_id@
                },
                None => !self.apps().contains_key(app_id@),
            },
    {
        proof {
            use_type_invariant(self);
        }
        match self.apps.get(app_id) {
            Some(app) => Some(app.clone()),
            None => None,
        }
    }

    /// Get all application ids: each registered id once, in no promised
    /// order.
    pub fn list_apps(&self) -> (ids: Vec<String>)
        ensures
            forall|i: int| 0 <= i < ids@.len() ==> self.apps().contains_key(#[trigger] ids@[i]@),
            forall|k: Seq<char>| #[trigger] self.apps().contains_key(k)
                ==> exists|i: int| 0 <= i < ids@.len() && ids@[i]@ == k,
            forall|i: int, j: int| 0 <= i < ids@.len() && 0 <= j < ids@.len() && i != j
                ==> ids@[i]@ != ids@[j]@,
    {
        let ids = self.apps.keys();
        proof {
            self.apps.lemma_keys();
            assert forall|k: Seq<char>| #[trigger] self.apps().contains_key(k)
                implies exists|i: int| 0 <= i < ids@.len() && ids@[i]@ == k by {
                let i = self.apps.keys_seq().index_of(k);
                assert(ids@[i]@ == k);
            }
            assert forall|i: int| 0 <= i < ids@.len() implies self.apps().contains_key(
                #[trigger] ids@[i]@,
            ) by {
                assert(self.apps.keys_seq()[i] == ids@[i]@);
            }
        }
        ids
    }

    /// Record a performance metric, given as the bit pattern of its value, and
    /// publish it.  Nothing happens when performance monitoring is off.
    pub fn record_metric(&mut self, name: &str, value_bits: u64)
        ensures
            final(self).config() == old(self).config(),
            final(self).receiver() == old(self).receiver(),
            final(self).apps() == old(self).apps(),
            !old(self).config().enable_performance ==> {
                &&& final(self).metrics() == old(self).metrics()
                &&& final(self).offered() == old(self).offered()
            },
            old(self).config().enable_performance ==> {
                &&& final(self).metrics() == metrics_recorded(old(self).metrics(), name@, value_bits)
                &&& final(self).metrics().contains_key(name@)
                &&& final(self).metrics()[name@] == (if old(self).metrics().contains_key(name@) {
                    old(self).metrics()[name@]
                } else {
                    Seq::<u64>::empty()
                }).push(value_bits)
                &&& forall|k: Seq<char>|
                    k != name@ ==> (#[trigger] final(self).metrics().contains_key(k)
                        <==> old(self).metrics().contains_key(k)) && (old(self).metrics().contains_key(
                        k,
                    ) ==> final(self).metrics()[k] == old(self).metrics()[k])
                &&& one_more_event(old(self).offered(), final(self).offered())
                &&& is_metric_event(final(self).offered().last(), name@, value_bits)
            },
    {
        proof {
            use_type_invariant(&*self);
        }
        if !self.config.enable_performance {
            return;
        }
        let mut metrics = StrMap::new();
        std::mem::swap(&mut metrics, &mut self.metrics);
        let mut values = match metrics.remove(name) {
            Some(v) => v,
            None => Vec::new(),
        };
        values.push(value_bits);
        metrics.insert(String::from_str(name), values);
        self.metrics = metrics;
        proof {
            assert(self.metrics() =~= metrics_recorded(old(self).metrics(), name@, value_bits));
        }
        let event = MonitorEvent::PerformanceMetric {
            name: String::from_str(name),
            value_bits,
            unit: String::from_str("ms"),
        };
        let ghost sent = event;
        try_send_event(&self.event_sender, event);
        proof {
            self.offered@ = self.offered@.push(sent);
        }
    }

    /// Record error: publishes an error event when error tracking is on, and
    /// does nothing otherwise.
    pub fn record_error(&mut self, code: i32, message: &str)
        ensures
            final(self).config() == old(self).config(),
            final(self).receiver() == old(self).receiver(),
            final(self).apps() == old(self).apps(),
            final(self).metrics() == old(self).metrics(),
            !old(self).config().enable_error_tracking ==> final(self).offered() == old(
                self,
            ).offered(),
            old(self).config().enable_error_tracking ==> {
                &&& one_more_event(old(self).offered(), final(self).offered())
                &&& is_error_event(final(self).offered().last(), code, message@)
            },
    {
        proof {
            use_type_invariant(&*self);
        }
        if !self.config.enable_error_tracking {
            return;
        }
        let event = MonitorEvent::Error { code, message: String::from_str(message) };
        let ghost sent = event;
        try_send_event(&self.event_sender, event);
        proof {
            self.offered@ = self.offered@.push(sent);
        }
    }

    /// The values recorded for metric `name`, as bit patterns, in the order
    /// they were recorded.
    pub fn metric_values(&self, name: &str) -> (r: Option<Vec<u64>>)
        ensures
            match r {
                Some(v) => self.metrics().contains_key(name@) && v@ == self.metrics()[name@],
                None => !self.metrics().contains_key(name@),
            },
    {
        match self.metrics.get(name) {
            Some(values) => {
                let mut copy: Vec<u64> = Vec::new();
                let n = values.len();
                let mut i: usize = 0;
                while i < n
                    invariant
                        n == values@.len(),
                        i <= n,
                        copy@ == values@.subrange(0, i as int),
                    decreases n - i,
                {
                    copy.push(values[i]);
                    i = i + 1;
                }
                proof {
                    assert(values@.subrange(0, n as int) =~= values@);
                }
                Some(copy)
            },
            None => None,
        }
    }

    /// Get event receiver: a handle on the channel that the monitor's events
    /// are published on.
    pub fn event_receiver(&self) -> (r: Arc<Receiver<MonitorEvent>>)
        ensures
            r == self.receiver(),
    {
        share_receiver(&self.event_receiver)
    }
}

/// The error message for an unknown application id.
fn not_found(app_id: &str) -> (m: String)
    ensures
        m@ == not_found_message(app_id@),
{
    let mut m = String::from_str("App ");
    m.append(app_id);
    m.append(" not found");
    m
}

/// Stopping an application that was started leaves it as stopping it
/// directly would: whatever the start changed, the stop sets again.
pub proof fn lemma_stop_undoes_start(
    apps: Map<Seq<char>, AppInfo>,
    id: Seq<char>,
    start: Option<Instant>,
)
    requires
        apps.contains_key(id),
    ensures
        apps_stopped(apps_started(apps, id, start), id) == apps_stopped(apps, id),
{
    assert(apps_stopped(apps_started(apps, id, start), id) =~= apps_stopped(apps, id));
}

/// Starting an application keeps it registered, running, with its id, name,
/// version and metadata, and leaves every other application as it was.
pub proof fn lemma_start_keeps_others(
    apps: Map<Seq<char>, AppInfo>,
    id: Seq<char>,
    start: Option<Instant>,
    other: Seq<char>,
)
    requires
        apps.contains_key(id),
    ensures
        apps_started(apps, id, start).dom() == apps.dom(),
        apps_started(apps, id, start)[id].state == AppState::Running,
        apps_started(apps, id, start)[id].id == apps[id].id,
        apps_started(apps, id, start)[id].name == apps[id].name,
        apps_started(apps, id, start)[id].version == apps[id].version,
        apps_started(apps, id, start)[id].metadata == apps[id].metadata,
        other != id ==> apps_started(apps, id, start)[other] == apps[other],
{
    assert(apps_started(apps, id, start).dom() =~= apps.dom());
}

/// Stopping an application keeps every registered id registered, stops that
/// application and clears its start time, keeps its id, name, version and
/// metadata, and leaves every other application as it was.
pub proof fn lemma_stop_keeps_others(apps: Map<Seq<char>, AppInfo>, id: Seq<char>, other: Seq<char>)
    requires
        apps.contains_key(id),
    ensures
        apps_stopped(apps, id).dom() == apps.dom(),
        apps_stopped(apps, id)[id].state == AppState::Stopped,
        apps_stopped(apps, id)[id].start_time is None,
        apps_stopped(apps, id)[id].id == apps[id].id,
        apps_stopped(apps, id)[id].name == apps[id].name,
        apps_stopped(apps, id)[id].version == apps[id].version,
        apps_stopped(apps, id)[id].metadata == apps[id].metadata,
        other != id ==> apps_stopped(apps, id)[other] == apps[other],
{
    assert(apps_stopped(apps, id).dom() =~= apps.dom());
}

/// Recording a value for metric `name` appends it to that metric's values
/// (which start empty), and leaves every other metric, present or absent, as
/// it was.
pub proof fn lemma_record_keeps_others(
    metrics: Map<Seq<char>, Seq<u64>>,
    name: Seq<char>,
    bits: u64,
    other: Seq<char>,
)
    ensures
        metrics_recorded(metrics, name, bits).dom() == metrics.dom().insert(name),
        metrics_recorded(metrics, name, bits)[name].last() == bits,
        metrics_recorded(metrics, name, bits)[name].drop_last() == if metrics.contains_key(name) {
            metrics[name]
        } else {
            Seq::<u64>::empty()
        },
        other != name ==> (metrics_recorded(metrics, name, bits).contains_key(other)
            <==> metrics.contains_key(other)),
        other != name && metrics.contains_key(other) ==> metrics_recorded(metrics, name, bits)[other]
            == metrics[other],
{
    assert(metrics_recorded(metrics, name, bits).dom() =~= metrics.dom().insert(name));
    assert(seq![bits].drop_last() =~= Seq::<u64>::empty());
    if metrics.contains_key(name) {
        assert(metrics[name].push(bits).drop_last() =~= metrics[name]);
    }
}

/// Stopping twice is stopping once.
pub proof fn lemma_stop_idempotent(apps: Map<Seq<char>, AppInfo>, id: Seq<char>)
    requires
        apps.contains_key(id),
    ensures
        apps_stopped(apps_stopped(apps, id), id) == apps_stopped(apps, id),
{
    assert(apps_stopped(apps_stopped(apps, id), id) =~= apps_stopped(apps, id));
}

/// After `n` values were recorded for a metric that had none, it holds
/// exactly those values, in order.
pub proof fn lemma_recorded_values(
    metrics: Map<Seq<char>, Seq<u64>>,
    name: Seq<char>,
    values: Seq<u64>,
)
    requires
        !metrics.contains_key(name),
        values.len() > 0,
    ensures
        record_all(metrics, name, values).contains_key(name),
        record_all(metrics, name, values)[name] == values,
    decreases values.len(),
{
    if values.len() > 1 {
        lemma_recorded_values(metrics, name, values.drop_last());
        assert(values.drop_last().push(values.last()) =~= values);
    } else {
        assert(values.drop_last() =~= Seq::<u64>::empty());
        assert(record_all(metrics, name, values.drop_last()) == metrics);
        assert(seq![values.last()] =~= values);
    }
}

/// The metrics after each of `values` was recorded for `name`, in order.
pub open spec fn record_all(metrics: Map<Seq<char>, Seq<u64>>, name: Seq<char>, values: Seq<u64>) -> Map<
    Seq<char>,
    Seq<u64>,
>
    decreases values.len(),
{
    if values.len() == 0 {
        metrics
    } else {
        metrics_recorded(record_all(metrics, name, values.drop_last()), name, values.last())
    }
}

} // verus!
