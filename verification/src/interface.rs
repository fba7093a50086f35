use vstd::prelude::*;

use crate::error::ErrorCode;
use crate::middleware::{
    chain_checked, lemma_chain_stops_at_refusal, passes, verdict_of, BuiltinChecker,
    CheckContext, Checker, MiddlewareChain, ParamValidator, RateLimiter, Verdict,
    WhitelistChecker,
};
use crate::monitor::{
    apps_started, apps_stopped, is_error_event, is_metric_event, is_started_event,
    is_stopped_event, metrics_recorded, one_more_event, AppInfo, AppState, Monitor, MonitorConfig,
    MonitorEvent,
};

verus! {

/// What the framework runs: a monitor and a middleware chain.
pub struct FrameworkInstance {
    pub monitor: Monitor,
    pub middleware: MiddlewareChain<BuiltinChecker>,
}

/// `c` is the default monitor configuration: a buffer of 1000 events,
/// performance monitoring and error tracking on, sampling every 1000 ms.
pub open spec fn is_default_monitor_config(c: MonitorConfig) -> bool {
    &&& c.buffer_size == 1000
    &&& c.enable_performance
    &&& c.enable_error_tracking
    &&& c.sampling_interval_ms == 1000
}

/// `fw` is what initialization makes: a monitor with the default
/// configuration, nothing registered and no events, and a chain of an empty
/// whitelist, a rate limiter of 1000 calls per 60000 time units, and a
/// validator that requires nothing, in that order.
pub open spec fn is_fresh_instance(fw: FrameworkInstance) -> bool {
    &&& is_default_monitor_config(fw.monitor.config())
    &&& fw.monitor.apps() == Map::<Seq<char>, AppInfo>::empty()
    &&& fw.monitor.metrics() == Map::<Seq<char>, Seq<u64>>::empty()
    &&& fw.monitor.offered() == Seq::<MonitorEvent>::empty()
    &&& fw.middleware.checkers().len() == 3
    &&& fw.middleware.priorities() == seq![10u32, 20u32, 30u32]
    &&& fw.middleware.checkers()[0] matches BuiltinChecker::Whitelist(w) && w.allowed()
        == Set::<Seq<char>>::empty()
    &&& fw.middleware.checkers()[1] matches BuiltinChecker::RateLimit(r) && r.max_calls() == 1000
        && r.window_ms() == 60000 && r.records() == Map::<Seq<char>, Seq<i64>>::empty()
    &&& fw.middleware.checkers()[2] matches BuiltinChecker::Params(p) && p.required()
        == Map::<Seq<char>, Seq<Seq<char>>>::empty()
}

impl FrameworkInstance {
    /// The instance that initialization makes.
    pub fn new() -> (fw: Self)
        ensures
            is_fresh_instance(fw),
    {
        let monitor = Monitor::new(MonitorConfig::default());
        let mut middleware: MiddlewareChain<BuiltinChecker> = MiddlewareChain::new();
        let whitelist = BuiltinChecker::Whitelist(WhitelistChecker::new());
        let limiter = BuiltinChecker::RateLimit(RateLimiter::new(1000, 60000));
        let validator = BuiltinChecker::Params(ParamValidator::new());
        let ghost (gw, gl, gv) = (whitelist, limiter, validator);
        middleware.add_checker(whitelist);
        proof {
            let i = choose|i: int|
                {
                    &&& 0 <= i <= 0
                    &&& middleware.checkers() == Seq::<BuiltinChecker>::empty().insert(i, gw)
                    &&& middleware.priorities() == Seq::<u32>::empty().insert(i, gw.spec_priority())
                };
            assert(i == 0);
            assert(middleware.checkers() =~= seq![gw]);
            assert(middleware.priorities() =~= seq![10u32]);
        }
        let ghost c1 = middleware.checkers();
        let ghost p1 = middleware.priorities();
        middleware.add_checker(limiter);
        proof {
            let i = choose|i: int|
                {
                    &&& 0 <= i <= c1.len()
                    &&& middleware.checkers() == c1.insert(i, gl)
                    &&& middleware.priorities() == p1.insert(i, gl.spec_priority())
                    &&& forall|j: int| 0 <= j < i ==> p1[j] <= gl.spec_priority()
                    &&& forall|j: int| i <= j < p1.len() ==> p1[j] > gl.spec_priority()
                };
            if i == 0 {
                assert(p1[0] > gl.spec_priority());
            }
            assert(i == 1);
            assert(middleware.checkers() =~= seq![gw, gl]);
            assert(middleware.priorities() =~= seq![10u32, 20u32]);
        }
        let ghost c2 = middleware.checkers();
        let ghost p2 = middleware.priorities();
        middleware.add_checker(validator);
        proof {
            let i = choose|i: int|
                {
                    &&& 0 <= i <= c2.len()
                    &&& middleware.checkers() == c2.insert(i, gv)
                    &&& middleware.priorities() == p2.insert(i, gv.spec_priority())
                    &&& forall|j: int| 0 <= j < i ==> p2[j] <= gv.spec_priority()
                    &&& forall|j: int| i <= j < p2.len() ==> p2[j] > gv.spec_priority()
                };
            if i < 2 {
                assert(p2[i] > gv.spec_priority());
            }
            assert(i == 2);
            assert(middleware.checkers() =~= seq![gw, gl, gv]);
            assert(middleware.priorities() =~= seq![10u32, 20u32, 30u32]);
        }
        FrameworkInstance { monitor, middleware }
    }
}

/// The state behind the C interface: whether initialization has ever run,
/// and the running instance, if any.
pub struct FrameworkState {
    init_done: bool,
    instance: Option<FrameworkInstance>,
}

/// The number the C interface returns for `code`.
pub open spec fn code(code: ErrorCode) -> i32 {
    code.number()
}

/// A check of a call of `interface` by `caller`, in a fresh context with no
/// parameters and a timestamp not before the epoch, may take the chain from checkers `before` to `after` and be
/// answered with `r`: success when the chain passes, a failed middleware
/// check otherwise.
pub open spec fn call_checked(
    before: Seq<BuiltinChecker>,
    after: Seq<BuiltinChecker>,
    caller: Seq<char>,
    interface: Seq<char>,
    r: i32,
) -> bool {
    exists|ctx: CheckContext, v: Verdict|
        {
            &&& ctx.caller_id@ == caller
            &&& ctx.target_interface@ == interface
            &&& ctx.params@ == Map::<Seq<char>, String>::empty()
            &&& ctx.timestamp >= 0
            &&& ctx.source_ip is None
            &&& #[trigger] chain_checked(before, ctx, after, v)
            &&& r == if v matches Ok((true, _)) {
                code(ErrorCode::Success)
            } else {
                code(ErrorCode::MiddlewareCheckFailed)
            }
        }
}

impl FrameworkState {
    /// An instance runs only after initialization, and its monitor keeps the
    /// default configuration that initialization gave it.
    #[verifier::type_invariant]
    closed spec fn running_as_initialized(&self) -> bool {
        self.instance matches Some(fw) ==> self.init_done && is_default_monitor_config(
            fw.monitor.config(),
        )
    }

    /// Whether initialization has ever run.
    pub closed spec fn init_done(&self) -> bool {
        self.init_done
    }

    /// The running instance, if any.
    pub closed spec fn instance(&self) -> Option<FrameworkInstance> {
        self.instance
    }

    /// The running instance, if any, has the default monitor configuration.
    pub open spec fn runs_default_monitor(&self) -> bool {
        self.instance() matches Some(fw) ==> is_default_monitor_config(fw.monitor.config())
    }

    /// The state of a process that has not initialized the framework.
    pub fn new() -> (s: Self)
        ensures
            !s.init_done(),
            s.instance() is None,
    {
        FrameworkState { init_done: false, instance: None }
    }

    /// Whether initialization has ever run.
    pub fn has_initialized(&self) -> (b: bool)
        ensures
            b == self.init_done(),
    {
        self.init_done
    }

    /// Takes the running instance out, leaving none.
    fn take_instance(&mut self) -> (inst: Option<FrameworkInstance>)
        ensures
            inst == old(self).instance(),
            final(self).instance() is None,
            final(self).init_done() == old(self).init_done(),
    {
        let mut inst: Option<FrameworkInstance> = None;
        std::mem::swap(&mut inst, &mut self.instance);
        inst
    }

    /// Initialize framework: make a fresh instance unless one runs, also
    /// after a shutdown.  Always succeeds.
    pub fn init(&mut self) -> (r: i32)
        ensures
            r == code(ErrorCode::Success),
            final(self).init_done(),
            final(self).runs_default_monitor(),
            old(self).instance() is None ==> (final(self).instance() matches Some(fw)
                && is_fresh_instance(fw)),
            old(self).instance() is Some ==> final(self).instance() == old(self).instance(),
    {
        proof {
            use_type_invariant(&*self);
        }
        self.init_done = true;
        if self.instance.is_none() {
            self.instance = Some(FrameworkInstance::new());
        }
        ErrorCode::Success.as_i32()
    }

    /// Shutdown framework: drop the instance.  Always succeeds.
    pub fn shutdown(&mut self) -> (r: i32)
        ensures
            r == code(ErrorCode::Success),
            final(self).instance() is None,
            final(self).init_done() == old(self).init_done(),
    {
        let _ = self.take_instance();
        ErrorCode::Success.as_i32()
    }

    /// Register application `app_id` with `app_name` and `version` (each
    /// `None` where the caller passed a null pointer).
    pub fn register_app(
        &mut self,
        app_id: Option<&str>,
        app_name: Option<&str>,
        version: Option<&str>,
    ) -> (r: i32)
        ensures
            final(self).init_done() == old(self).init_done(),
            final(self).runs_default_monitor(),
            app_id is None || app_name is None || version is None ==> {
                &&& r == code(ErrorCode::InvalidParam)
                &&& *final(self) == *old(self)
            },
            app_id is Some && app_name is Some && version is Some && old(self).instance() is None
                ==> {
                &&& r == code(ErrorCode::InitFailed)
                &&& *final(self) == *old(self)
            },
            app_id is Some && app_name is Some && version is Some && old(self).instance() is Some
                ==> {
                let before = old(self).instance()->Some_0;
                let after = final(self).instance()->Some_0;
                let id = app_id->Some_0@;
                &&& final(self).instance() is Some
                &&& after.middleware == before.middleware
                &&& after.monitor.config() == before.monitor.config()
                &&& after.monitor.metrics() == before.monitor.metrics()
                &&& after.monitor.offered() == before.monitor.offered()
                &&& before.monitor.apps().contains_key(id) ==> {
                    &&& r == code(ErrorCode::MonitorFailed)
                    &&& after.monitor.apps() == before.monitor.apps()
                }
                &&& !before.monitor.apps().contains_key(id) ==> {
                    let app = after.monitor.apps()[id];
                    &&& r == code(ErrorCode::Success)
                    &&& after.monitor.apps() == before.monitor.apps().insert(id, app)
                    &&& app.id@ == id
                    &&& app.name@ == app_name->Some_0@
                    &&& app.version@ == version->Some_0@
                    &&& app.state == AppState::Uninitialized
                    &&& app.start_time is None
                    &&& app.metadata@ == Map::<String, String>::empty()
                }
            },
    {
        proof {
            use_type_invariant(&*self);
        }
        let (id, name, ver) = match (app_id, app_name, version) {
            (Some(id), Some(name), Some(ver)) => (id, name, ver),
            _ => {
                return ErrorCode::InvalidParam.as_i32();
            },
        };
        match self.take_instance() {
            Some(mut fw) => {
                let app = AppInfo::new(id, name, ver);
                let r = match fw.monitor.register_app(app) {
                    Ok(_) => ErrorCode::Success.as_i32(),
                    Err(_) => ErrorCode::MonitorFailed.as_i32(),
                };
                self.instance = Some(fw);
                r
            },
            None => ErrorCode::InitFailed.as_i32(),
        }
    }

    /// Start application monitoring of `app_id`.
    pub fn start_app(&mut self, app_id: Option<&str>) -> (r: i32)
        ensures
            final(self).init_done() == old(self).init_done(),
            final(self).runs_default_monitor(),
            app_id is None ==> {
                &&& r == code(ErrorCode::InvalidParam)
                &&& *final(self) == *old(self)
            },
            app_id is Some && old(self).instance() is None ==> {
                &&& r == code(ErrorCode::InitFailed)
                &&& *final(self) == *old(self)
            },
            app_id is Some && old(self).instance() is Some ==> {
                let before = old(self).instance()->Some_0;
                let after = final(self).instance()->Some_0;
                let id = app_id->Some_0@;
                &&& final(self).instance() is Some
                &&& after.middleware == before.middleware
                &&& after.monitor.config() == before.monitor.config()
                &&& after.monitor.metrics() == before.monitor.metrics()
                &&& before.monitor.apps().contains_key(id) ==> {
                    &&& r == code(ErrorCode::Success)
                    &&& after.monitor.apps()[id].start_time is Some
                    &&& after.monitor.apps() == apps_started(
                        before.monitor.apps(),
                        id,
                        after.monitor.apps()[id].start_time,
                    )
                    &&& one_more_event(before.monitor.offered(), after.monitor.offered())
                    &&& is_started_event(after.monitor.offered().last(), id)
                }
                &&& !before.monitor.apps().contains_key(id) ==> {
                    &&& r == code(ErrorCode::MonitorFailed)
                    &&& after.monitor.apps() == before.monitor.apps()
                    &&& after.monitor.offered() == before.monitor.offered()
                }
            },
    {
        proof {
            use_type_invariant(&*self);
        }
        let id = match app_id {
            Some(id) => id,
            None => {
                return ErrorCode::InvalidParam.as_i32();
            },
        };
        match self.take_instance() {
            Some(mut fw) => {
                let r = match fw.monitor.start_app(id) {
                    Ok(_) => ErrorCode::Success.as_i32(),
                    Err(_) => ErrorCode::MonitorFailed.as_i32(),
                };
                self.instance = Some(fw);
                r
            },
            None => ErrorCode::InitFailed.as_i32(),
        }
    }

    /// Stop application monitoring of `app_id`.
    pub fn stop_app(&mut self, app_id: Option<&str>) -> (r: i32)
        ensures
            final(self).init_done() == old(self).init_done(),
            final(self).runs_default_monitor(),
            app_id is None ==> {
                &&& r == code(ErrorCode::InvalidParam)
                &&& *final(self) == *old(self)
            },
            app_id is Some && old(self).instance() is None ==> {
                &&& r == code(ErrorCode::InitFailed)
                &&& *final(self) == *old(self)
            },
            app_id is Some && old(self).instance() is Some ==> {
                let before = old(self).instance()->Some_0;
                let after = final(self).instance()->Some_0;
                let id = app_id->Some_0@;
                &&& final(self).instance() is Some
                &&& after.middleware == before.middleware
                &&& after.monitor.config() == before.monitor.config()
                &&& after.monitor.metrics() == before.monitor.metrics()
                &&& before.monitor.apps().contains_key(id) ==> {
                    &&& r == code(ErrorCode::Success)
                    &&& after.monitor.apps() == apps_stopped(before.monitor.apps(), id)
                    &&& one_more_event(before.monitor.offered(), after.monitor.offered())
                    &&& is_stopped_event(after.monitor.offered().last(), id)
                }
                &&& !before.monitor.apps().contains_key(id) ==> {
                    &&& r == code(ErrorCode::MonitorFailed)
                    &&& after.monitor.apps() == before.monitor.apps()
                    &&& after.monitor.offered() == before.monitor.offered()
                }
            },
    {
        proof {
            use_type_invariant(&*self);
        }
        let id = match app_id {
            Some(id) => id,
            None => {
                return ErrorCode::InvalidParam.as_i32();
            },
        };
        match self.take_instance() {
            Some(mut fw) => {
                let r = match fw.monitor.stop_app(id) {
                    Ok(_) => ErrorCode::Success.as_i32(),
                    Err(_) => ErrorCode::MonitorFailed.as_i32(),
                };
                self.instance = Some(fw);
                r
            },
            None => ErrorCode::InitFailed.as_i32(),
        }
    }

    /// Execute call inspection of a call of `interface_name` by `caller_id`.
    /// The parameter text is accepted and not read.
    pub fn check_call(
        &mut self,
        caller_id: Option<&str>,
        interface_name: Option<&str>,
        params_json: Option<&str>,
    ) -> (r: i32)
        ensures
            final(self).init_done() == old(self).init_done(),
            final(self).runs_default_monitor(),
            caller_id is None || interface_name is None ==> {
                &&& r == code(ErrorCode::InvalidParam)
                &&& *final(self) == *old(self)
            },
            caller_id is Some && interface_name is Some && old(self).instance() is None ==> {
                &&& r == code(ErrorCode::InitFailed)
                &&& *final(self) == *old(self)
            },
            caller_id is Some && interface_name is Some && old(self).instance() is Some ==> {
                let before = old(self).instance()->Some_0;
                let after = final(self).instance()->Some_0;
                &&& final(self).instance() is Some
                &&& after.monitor == before.monitor
                &&& after.middleware.priorities() == before.middleware.priorities()
                &&& call_checked(
                    before.middleware.checkers(),
                    after.middleware.checkers(),
                    caller_id->Some_0@,
                    interface_name->Some_0@,
                    r,
                )
            },
    {
        proof {
            use_type_invariant(&*self);
        }
        let (caller, interface) = match (caller_id, interface_name) {
            (Some(c), Some(i)) => (c, i),
            _ => {
                return ErrorCode::InvalidParam.as_i32();
            },
        };
        match self.take_instance() {
            Some(mut fw) => {
                let ctx = CheckContext::new(caller, interface);
                let ghost before = old(self).instance()->Some_0;
                assert(fw == before);
                let result = fw.middleware.check(&ctx);
                let ghost v = verdict_of(result);
                assert(chain_checked(before.middleware.checkers(), ctx, fw.middleware.checkers(), v));
                let r = match result {
                    Ok(check_result) => {
                        if check_result.passed {
                            ErrorCode::Success.as_i32()
                        } else {
                            ErrorCode::MiddlewareCheckFailed.as_i32()
                        }
                    },
                    Err(_) => ErrorCode::MiddlewareCheckFailed.as_i32(),
                };
                assert(r == if v matches Ok((true, _)) {
                    code(ErrorCode::Success)
                } else {
                    code(ErrorCode::MiddlewareCheckFailed)
                });
                assert(call_checked(
                    before.middleware.checkers(),
                    fw.middleware.checkers(),
                    caller@,
                    interface@,
                    r,
                ));
                self.instance = Some(fw);
                r
            },
            None => ErrorCode::InitFailed.as_i32(),
        }
    }

    /// Record performance metric `metric_name`, given as the bit pattern of
    /// its value.
    pub fn record_metric(&mut self, metric_name: Option<&str>, value_bits: u64) -> (r: i32)
        ensures
            final(self).init_done() == old(self).init_done(),
            final(self).runs_default_monitor(),
            metric_name is None ==> {
                &&& r == code(ErrorCode::InvalidParam)
                &&& *final(self) == *old(self)
            },
            metric_name is Some && old(self).instance() is None ==> {
                &&& r == code(ErrorCode::InitFailed)
                &&& *final(self) == *old(self)
            },
            metric_name is Some && old(self).instance() is Some ==> {
                let before = old(self).instance()->Some_0;
                let after = final(self).instance()->Some_0;
                let name = metric_name->Some_0@;
                &&& r == code(ErrorCode::Success)
                &&& final(self).instance() is Some
                &&& after.middleware == before.middleware
                &&& after.monitor.config() == before.monitor.config()
                &&& after.monitor.apps() == before.monitor.apps()
                &&& after.monitor.metrics() == metrics_recorded(
                    before.monitor.metrics(),
                    name,
                    value_bits,
                )
                &&& one_more_event(before.monitor.offered(), after.monitor.offered())
                &&& is_metric_event(after.monitor.offered().last(), name, value_bits)
            },
    {
        proof {
            use_type_invariant(&*self);
        }
        let name = match metric_name {
            Some(n) => n,
            None => {
                return ErrorCode::InvalidParam.as_i32();
            },
        };
        match self.take_instance() {
            Some(mut fw) => {
                fw.monitor.record_metric(name, value_bits);
                self.instance = Some(fw);
                ErrorCode::Success.as_i32()
            },
            None => ErrorCode::InitFailed.as_i32(),
        }
    }

    /// Record error `error_code` with `message`: the running monitor
    /// publishes it.
    pub fn record_error(&mut self, error_code: i32, message: Option<&str>) -> (r: i32)
        ensures
            final(self).init_done() == old(self).init_done(),
            final(self).runs_default_monitor(),
            message is None ==> {
                &&& r == code(ErrorCode::InvalidParam)
                &&& *final(self) == *old(self)
            },
            message is Some && old(self).instance() is None ==> {
                &&& r == code(ErrorCode::InitFailed)
                &&& *final(self) == *old(self)
            },
            message is Some && old(self).instance() is Some ==> {
                let before = old(self).instance()->Some_0;
                let after = final(self).instance()->Some_0;
                &&& r == code(ErrorCode::Success)
                &&& final(self).instance() is Some
                &&& after.middleware == before.middleware
                &&& after.monitor.config() == before.monitor.config()
                &&& after.monitor.apps() == before.monitor.apps()
                &&& after.monitor.metrics() == before.monitor.metrics()
                &&& one_more_event(before.monitor.offered(), after.monitor.offered())
                &&& is_error_event(after.monitor.offered().last(), error_code, message->Some_0@)
            },
    {
        proof {
            use_type_invariant(&*self);
        }
        let msg = match message {
            Some(m) => m,
            None => {
                return ErrorCode::InvalidParam.as_i32();
            },
        };
        match self.take_instance() {
            Some(mut fw) => {
                fw.monitor.record_error(error_code, msg);
                self.instance = Some(fw);
                ErrorCode::Success.as_i32()
            },
            None => ErrorCode::InitFailed.as_i32(),
        }
    }

    /// Health check: healthy while an instance runs.
    pub fn health_check(&self) -> (r: i32)
        ensures
            self.instance() is Some ==> r == code(ErrorCode::Success),
            self.instance() is None ==> r == code(ErrorCode::InitFailed),
    {
        match &self.instance {
            Some(_) => ErrorCode::Success.as_i32(),
            None => ErrorCode::InitFailed.as_i32(),
        }
    }
}

/// A freshly initialized framework refuses every call: its whitelist is
/// empty and runs first.
pub proof fn lemma_fresh_instance_refuses_calls(
    fw: FrameworkInstance,
    after: Seq<BuiltinChecker>,
    caller: Seq<char>,
    interface: Seq<char>,
    r: i32,
)
    requires
        is_fresh_instance(fw),
        call_checked(fw.middleware.checkers(), after, caller, interface, r),
    ensures
        r == code(ErrorCode::MiddlewareCheckFailed),
{
    let cs = fw.middleware.checkers();
    let (ctx, v) = choose|ctx: CheckContext, v: Verdict|
        {
            &&& ctx.caller_id@ == caller
            &&& ctx.target_interface@ == interface
            &&& ctx.params@ == Map::<Seq<char>, String>::empty()
            &&& ctx.timestamp >= 0
            &&& ctx.source_ip is None
            &&& #[trigger] chain_checked(cs, ctx, after, v)
            &&& r == if v matches Ok((true, _)) {
                code(ErrorCode::Success)
            } else {
                code(ErrorCode::MiddlewareCheckFailed)
            }
        };
    assert forall|w: Verdict| #[trigger] cs[0].checked(ctx, after[0], w) implies !passes(w) by {
        if let BuiltinChecker::Whitelist(c) = cs[0] {
            assert(!c.allowed().contains(ctx.caller_id@));
        }
    }
    assert forall|i: int, w: Verdict|
        0 <= i < 0 && #[trigger] cs[i].checked(ctx, after[i], w) implies passes(w) by {}
    lemma_chain_stops_at_refusal(cs, ctx, after, v, 0);
}

} // verus!
