use vstd::prelude::*;

use std::time::Duration;

use crate::clock::{elapsed_since, instant_now, read_clock, timestamp_of, ClockReading};
use crate::error::{FrameworkError, FrameworkResult};
use crate::strmap::StrMap;
use crate::text::{decimal, u64_to_decimal};

verus! {

/// Inspection context: who calls which interface, with which parameters.
#[derive(Debug)]
pub struct CheckContext {
    /// Caller ID
    pub caller_id: String,
    /// Target interface
    pub target_interface: String,
    /// Call parameters
    pub params: StrMap<String>,
    /// Timestamp (seconds since the Unix epoch)
    pub timestamp: i64,
    /// Source IP (optional)
    pub source_ip: Option<String>,
    /// The reading of the system clock the context was stamped from when it
    /// was made
    pub stamped_at: ClockReading,
}

impl CheckContext {
    /// A context for a call of `target` by `caller_id`, stamped with the
    /// current time in whole seconds since the Unix epoch, with no parameters
    /// and no source address.
    pub fn new(caller_id: &str, target: &str) -> (ctx: Self)
        ensures
            ctx.caller_id@ == caller_id@,
            ctx.target_interface@ == target@,
            ctx.params@ == Map::<Seq<char>, String>::empty(),
            ctx.timestamp == timestamp_of(ctx.stamped_at.secs()),
            ctx.timestamp >= 0,
            ctx.source_ip is None,
    {
        let reading = read_clock();
        CheckContext {
            caller_id: String::from_str(caller_id),
            target_interface: String::from_str(target),
            params: StrMap::new(),
            timestamp: reading.timestamp(),
            source_ip: None,
            stamped_at: reading,
        }
    }

    /// The context with parameter `key` set to `value`.
    pub fn with_param(self, key: &str, value: &str) -> (ctx: Self)
        ensures
            ctx.params@ == self.params@.insert(key@, ctx.params@[key@]),
            ctx.params@[key@]@ == value@,
            ctx.caller_id == self.caller_id,
            ctx.target_interface == self.target_interface,
            ctx.timestamp == self.timestamp,
            ctx.source_ip == self.source_ip,
            ctx.stamped_at == self.stamped_at,
    {
        let mut ctx = self;
        ctx.params.insert(String::from_str(key), String::from_str(value));
        ctx
    }

    /// The context with source address `ip`.
    pub fn with_source_ip(self, ip: &str) -> (ctx: Self)
        ensures
            ctx.source_ip matches Some(s) && s@ == ip@,
            ctx.caller_id == self.caller_id,
            ctx.target_interface == self.target_interface,
            ctx.params == self.params,
            ctx.timestamp == self.timestamp,
    {
        let mut ctx = self;
        ctx.source_ip = Some(String::from_str(ip));
        ctx
    }
}

/// Inspection result.
#[derive(Debug)]
pub struct CheckResult {
    /// Whether passed
    pub passed: bool,
    /// Inspection message
    pub message: String,
    /// Inspection duration
    pub duration: Duration,
}

impl CheckResult {
    /// A result that passed.
    pub fn success(message: String, duration: Duration) -> (r: Self)
        ensures
            r.passed,
            r.message == message,
            r.duration == duration,
    {
        CheckResult { passed: true, message, duration }
    }

    /// A result that did not pass.
    pub fn failure(message: String, duration: Duration) -> (r: Self)
        ensures
            !r.passed,
            r.message == message,
            r.duration == duration,
    {
        CheckResult { passed: false, message, duration }
    }
}

/// What a check answered, without its duration: whether it passed and its
/// message, or the error it failed with.
pub type Verdict = Result<(bool, Seq<char>), FrameworkError>;

/// The verdict carried by the result of a check.
pub open spec fn verdict_of(r: FrameworkResult<CheckResult>) -> Verdict {
    match r {
        Ok(res) => Ok((res.passed, res.message@)),
        Err(e) => Err(e),
    }
}

/// The verdict lets the call through.
pub open spec fn passes(v: Verdict) -> bool {
    v matches Ok((true, _))
}

/// The priority of a checker that has no reason to run earlier or later than
/// others.
pub const DEFAULT_PRIORITY: u32 = 100;

/// A check that the middleware chain runs on each call.
pub trait Checker: Sized {
    /// A check of `ctx` from this state may answer `verdict` and leave the
    /// checker in state `after`.
    spec fn checked(&self, ctx: CheckContext, after: Self, verdict: Verdict) -> bool;

    /// Checker name
    fn name(&self) -> &str;

    /// Execute check
    fn check(&mut self, ctx: &CheckContext) -> (r: FrameworkResult<CheckResult>)
        ensures
            old(self).checked(*ctx, *final(self), verdict_of(r)),
    ;

    /// The checker's priority.  (A checker with no reason to run earlier or
    /// later than others takes `DEFAULT_PRIORITY`.)
    spec fn spec_priority(&self) -> u32;

    /// Checker priority (lower number = higher priority)
    fn priority(&self) -> (p: u32)
        ensures
            p == self.spec_priority(),
    ;
}

/// The message of a whitelist check.
pub open spec fn whitelist_message(allowed: bool) -> Seq<char> {
    if allowed {
        "Caller is whitelisted"@
    } else {
        "Caller not in whitelist"@
    }
}

/// Whitelist checker: passes the callers that were added to it.
pub struct WhitelistChecker {
    allowed_callers: StrMap<()>,
}

impl WhitelistChecker {
    /// The callers that pass.
    pub closed spec fn allowed(&self) -> Set<Seq<char>> {
        self.allowed_callers@.dom()
    }

    /// A whitelist that passes nobody.
    pub fn new() -> (w: Self)
        ensures
            w.allowed() == Set::<Seq<char>>::empty(),
    {
        let w = WhitelistChecker { allowed_callers: StrMap::new() };
        assert(w.allowed() =~= Set::<Seq<char>>::empty());
        w
    }

    /// Let `caller_id` pass.
    pub fn add_caller(&mut self, caller_id: &str)
        ensures
            final(self).allowed() == old(self).allowed().insert(caller_id@),
    {
        self.allowed_callers.insert(String::from_str(caller_id), ());
        assert(self.allowed() =~= old(self).allowed().insert(caller_id@));
    }

    /// Stop letting `caller_id` pass.
    pub fn remove_caller(&mut self, caller_id: &str)
        ensures
            final(self).allowed() == old(self).allowed().remove(caller_id@),
    {
        self.allowed_callers.remove(caller_id);
        assert(self.allowed() =~= old(self).allowed().remove(caller_id@));
    }
}

impl Default for WhitelistChecker {
    fn default() -> (w: Self)
        ensures
            w.allowed() == Set::<Seq<char>>::empty(),
    {
        WhitelistChecker::new()
    }
}

impl Checker for WhitelistChecker {
    open spec fn checked(&self, ctx: CheckContext, after: Self, verdict: Verdict) -> bool {
        let allowed = self.allowed().contains(ctx.caller_id@);
        &&& after == *self
        &&& verdict == Ok::<(bool, Seq<char>), FrameworkError>((allowed, whitelist_message(allowed)))
    }

    fn name(&self) -> (n: &str)
        ensures
            n@ == "whitelist_checker"@,
    {
        "whitelist_checker"
    }

    fn check(&mut self, ctx: &CheckContext) -> (r: FrameworkResult<CheckResult>) {
        let start = instant_now();
        let allowed = self.allowed_callers.contains_key(ctx.caller_id.as_str());
        let duration = elapsed_since(start);
        if allowed {
            Ok(CheckResult::success(String::from_str("Caller is whitelisted"), duration))
        } else {
            Ok(CheckResult::failure(String::from_str("Caller not in whitelist"), duration))
        }
    }

    open spec fn spec_priority(&self) -> u32 {
        10
    }

    fn priority(&self) -> (p: u32) {
        10
    }
}

/// A call at `t` lies in the window of `window_ms` milliseconds that ends at
/// `now`: it was made less than `window_ms` milliseconds before `now`.  Times
/// are the contexts' timestamps, in whole seconds; a call stamped after `now`
/// counts too.
pub open spec fn in_window(t: i64, now: i64, window_ms: u64) -> bool {
    (now - t) * 1000 < window_ms
}

/// The calls of `calls` that are still inside the window that ends at `now`.
pub open spec fn calls_in_window(calls: Seq<i64>, now: i64, window_ms: u64) -> Seq<i64> {
    calls.filter(|t: i64| in_window(t, now, window_ms))
}

/// Whether a call at `t` lies in the window of `window_ms` milliseconds that
/// ends at `now`.
fn is_in_window(t: i64, now: i64, window_ms: u64) -> (b: bool)
    ensures
        b == in_window(t, now, window_ms),
{
    let elapsed_ms: i128 = (now as i128 - t as i128) * 1000;
    elapsed_ms < window_ms as i128
}

/// The message of a call that the rate limiter refuses.
pub open spec fn rate_exceeded_message(max_calls: usize, window_ms: u64) -> Seq<char> {
    "Rate limit exceeded: "@ + decimal(max_calls as nat) + " calls per "@ + decimal(
        window_ms as nat,
    ) + " ms"@
}

/// Rate limiter: passes at most `max_calls` calls of each caller within a
/// sliding window of `window_ms` milliseconds, measured on the contexts'
/// timestamps.
pub struct RateLimiter {
    max_calls: usize,
    window_ms: u64,
    call_records: StrMap<Vec<i64>>,
}

/// The entries of `calls` in the window of `window_ms` milliseconds that ends
/// at `now`.
fn retain_in_window(calls: &Vec<i64>, now: i64, window_ms: u64) -> (kept: Vec<i64>)
    ensures
        kept@ == calls_in_window(calls@, now, window_ms),
{
    let ghost pred = |t: i64| in_window(t, now, window_ms);
    let mut kept: Vec<i64> = Vec::new();
    let n = calls.len();
    let mut i: usize = 0;
    while i < n
        invariant
            n == calls@.len(),
            i <= n,
            kept@ == calls@.take(i as int).filter(pred),
            pred == (|t: i64| in_window(t, now, window_ms)),
        decreases n - i,
    {
        proof {
            assert(calls@.take(i + 1).drop_last() =~= calls@.take(i as int));
            assert(calls@.take(i + 1).last() == calls@[i as int]);
            reveal_with_fuel(Seq::<_>::filter, 1);
            assert(calls@.take(i + 1).filter(pred) == if pred(calls@[i as int]) {
                calls@.take(i as int).filter(pred).push(calls@[i as int])
            } else {
                calls@.take(i as int).filter(pred)
            });
        }
        if is_in_window(calls[i], now, window_ms) {
            kept.push(calls[i]);
        }
        i = i + 1;
    }
    proof {
        assert(calls@.take(n as int) =~= calls@);
    }
    kept
}

impl RateLimiter {
    /// The most calls a caller may make within a window.
    pub closed spec fn max_calls(&self) -> usize {
        self.max_calls
    }

    /// The length of the window, in milliseconds.
    pub closed spec fn window_ms(&self) -> u64 {
        self.window_ms
    }

    /// The timestamps of the calls that passed, by caller, oldest first.
    pub closed spec fn records(&self) -> Map<Seq<char>, Seq<i64>> {
        self.call_records@.map_values(|v: Vec<i64>| v@)
    }

    /// The calls of `caller` that still count at time `now`.
    pub open spec fn recent_calls(&self, caller: Seq<char>, now: i64) -> Seq<i64> {
        if self.records().contains_key(caller) {
            calls_in_window(self.records()[caller], now, self.window_ms())
        } else {
            Seq::empty()
        }
    }

    /// Whether a call of `caller` at time `now` passes.
    pub open spec fn admits(&self, caller: Seq<char>, now: i64) -> bool {
        self.recent_calls(caller, now).len() < self.max_calls()
    }

    /// The calls recorded for `caller` after a check at time `now`: the ones
    /// still in the window, and this call when it passes.
    pub open spec fn calls_after(&self, caller: Seq<char>, now: i64) -> Seq<i64> {
        if self.admits(caller, now) {
            self.recent_calls(caller, now).push(now)
        } else {
            self.recent_calls(caller, now)
        }
    }

    /// A rate limiter with no calls recorded.
    pub fn new(max_calls: usize, window_ms: u64) -> (r: Self)
        ensures
            r.max_calls() == max_calls,
            r.window_ms() == window_ms,
            r.records() == Map::<Seq<char>, Seq<i64>>::empty(),
    {
        let r = RateLimiter { max_calls, window_ms, call_records: StrMap::new() };
        assert(r.records() =~= Map::<Seq<char>, Seq<i64>>::empty());
        r
    }

    /// Forget the calls of `caller_id` that left the window ending at `now`.
    fn cleanup_old_records(&mut self, caller_id: &str, now: i64)
        ensures
            final(self).max_calls() == old(self).max_calls(),
            final(self).window_ms() == old(self).window_ms(),
            old(self).records().contains_key(caller_id@) ==> final(self).records()
                == old(self).records().insert(
                caller_id@,
                old(self).recent_calls(caller_id@, now),
            ),
            !old(self).records().contains_key(caller_id@) ==> final(self).records()
                == old(self).records(),
    {
        match self.call_records.remove(caller_id) {
            Some(calls) => {
                let kept = retain_in_window(&calls, now, self.window_ms);
                self.call_records.insert(String::from_str(caller_id), kept);
                assert(self.records() =~= old(self).records().insert(
                    caller_id@,
                    old(self).recent_calls(caller_id@, now),
                ));
            },
            None => {
                assert(self.records() =~= old(self).records());
            },
        }
    }
}

impl Checker for RateLimiter {
    open spec fn checked(&self, ctx: CheckContext, after: Self, verdict: Verdict) -> bool {
        let caller = ctx.caller_id@;
        let now = ctx.timestamp;
        &&& after.max_calls() == self.max_calls()
        &&& after.window_ms() == self.window_ms()
        &&& after.records() == self.records().insert(caller, self.calls_after(caller, now))
        &&& verdict == if self.admits(caller, now) {
            Ok::<(bool, Seq<char>), FrameworkError>((true, "Rate limit check passed"@))
        } else {
            Ok::<(bool, Seq<char>), FrameworkError>(
                (false, rate_exceeded_message(self.max_calls(), self.window_ms())),
            )
        }
    }

    fn name(&self) -> (n: &str)
        ensures
            n@ == "rate_limiter"@,
    {
        "rate_limiter"
    }

    fn check(&mut self, ctx: &CheckContext) -> (r: FrameworkResult<CheckResult>) {
        let start = instant_now();
        let now = ctx.timestamp;
        let caller = ctx.caller_id.as_str();
        self.cleanup_old_records(caller, now);
        let ghost cleaned = self.records();
        assert(cleaned.contains_key(caller@) ==> cleaned[caller@] == old(self).recent_calls(caller@, now));
        let ghost stored = self.call_records@;
        let mut calls = match self.call_records.remove(caller) {
            Some(calls) => {
                assert(stored.contains_key(caller@) && stored[caller@] == calls);
                assert(cleaned.contains_key(caller@));
                assert(cleaned[caller@] == calls@);
                calls
            },
            None => {
                assert(!cleaned.contains_key(caller@));
                assert(!old(self).records().contains_key(caller@));
                Vec::new()
            },
        };
        assert(calls@ == old(self).recent_calls(caller@, now));
        assert(self.records() =~= cleaned.remove(caller@));
        let duration = elapsed_since(start);
        if calls.len() >= self.max_calls {
            self.call_records.insert(ctx.caller_id.clone(), calls);
            assert(self.records() =~= old(self).records().insert(
                ctx.caller_id@,
                old(self).calls_after(ctx.caller_id@, now),
            ));
            let mut msg = String::from_str("Rate limit exceeded: ");
            let max_text = u64_to_decimal(self.max_calls as u64);
            msg.append(max_text.as_str());
            msg.append(" calls per ");
            let window_text = u64_to_decimal(self.window_ms);
            msg.append(window_text.as_str());
            msg.append(" ms");
            Ok(CheckResult::failure(msg, duration))
        } else {
            assert(old(self).admits(ctx.caller_id@, now));
            calls.push(now);
            assert(calls@ == old(self).calls_after(ctx.caller_id@, now));
            let ghost new_calls = calls@;
            let ghost removed = self.records();
            self.call_records.insert(ctx.caller_id.clone(), calls);
            assert(self.records() =~= removed.insert(ctx.caller_id@, new_calls));
            assert(self.records() =~= old(self).records().insert(
                ctx.caller_id@,
                old(self).calls_after(ctx.caller_id@, now),
            ));
            Ok(CheckResult::success(String::from_str("Rate limit check passed"), duration))
        }
    }

    open spec fn spec_priority(&self) -> u32 {
        20
    }

    fn priority(&self) -> (p: u32) {
        20
    }
}

/// The first of `required` that is not in `present`, if any.
pub open spec fn first_missing(required: Seq<Seq<char>>, present: Set<Seq<char>>) -> Option<
    Seq<char>,
>
    decreases required.len(),
{
    if required.len() == 0 {
        None
    } else if !present.contains(required[0]) {
        Some(required[0])
    } else {
        first_missing(required.drop_first(), present)
    }
}

/// Nothing is missing exactly when every required name is present.
pub proof fn lemma_first_missing_none(required: Seq<Seq<char>>, present: Set<Seq<char>>)
    ensures
        first_missing(required, present) is None <==> forall|i: int|
            0 <= i < required.len() ==> present.contains(#[trigger] required[i]),
    decreases required.len(),
{
    if required.len() > 0 {
        lemma_first_missing_none(required.drop_first(), present);
        if first_missing(required, present) is None {
            assert forall|i: int| 0 <= i < required.len() implies present.contains(
                #[trigger] required[i],
            ) by {
                if i > 0 {
                    assert(required.drop_first()[i - 1] == required[i]);
                }
            }
        } else if present.contains(required[0]) {
            let i = choose|i: int|
                0 <= i < required.drop_first().len() && !present.contains(
                    #[trigger] required.drop_first()[i],
                );
            assert(required[i + 1] == required.drop_first()[i]);
        }
    }
}

/// Parameter validator: each interface may require parameters to be present.
pub struct ParamValidator {
    required_params: StrMap<Vec<String>>,
}

impl ParamValidator {
    /// The parameters each interface requires, in the order they were added.
    pub closed spec fn required(&self) -> Map<Seq<char>, Seq<Seq<char>>> {
        self.required_params@.map_values(|v: Vec<String>| v@.map_values(|s: String| s@))
    }

    /// The parameters that interface `target` requires.
    pub open spec fn required_for(&self, target: Seq<char>) -> Seq<Seq<char>> {
        if self.required().contains_key(target) {
            self.required()[target]
        } else {
            Seq::empty()
        }
    }

    /// A validator that requires nothing.
    pub fn new() -> (v: Self)
        ensures
            v.required() == Map::<Seq<char>, Seq<Seq<char>>>::empty(),
    {
        let v = ParamValidator { required_params: StrMap::new() };
        assert(v.required() =~= Map::<Seq<char>, Seq<Seq<char>>>::empty());
        v
    }

    /// Require parameter `param` on calls of `interface`.
    pub fn add_required_param(&mut self, interface: &str, param: &str)
        ensures
            final(self).required() == old(self).required().insert(
                interface@,
                old(self).required_for(interface@).push(param@),
            ),
    {
        let ghost stored = self.required_params@;
        let mut params = match self.required_params.remove(interface) {
            Some(v) => {
                assert(stored.contains_key(interface@) && stored[interface@] == v);
                v
            },
            None => Vec::new(),
        };
        let ghost before = params@;
        assert(before.map_values(|s: String| s@) =~= old(self).required_for(interface@));
        let ghost removed = self.required();
        params.push(String::from_str(param));
        proof {
            assert(params@.map_values(|s: String| s@) =~= before.map_values(|s: String| s@).push(
                param@,
            ));
        }
        let ghost new_names = params@.map_values(|s: String| s@);
        self.required_params.insert(String::from_str(interface), params);
        assert(self.required() =~= removed.insert(interface@, new_names));
        assert(self.required() =~= old(self).required().insert(
            interface@,
            old(self).required_for(interface@).push(param@),
        ));
    }
}

impl Default for ParamValidator {
    fn default() -> (v: Self)
        ensures
            v.required() == Map::<Seq<char>, Seq<Seq<char>>>::empty(),
    {
        ParamValidator::new()
    }
}

impl Checker for ParamValidator {
    open spec fn checked(&self, ctx: CheckContext, after: Self, verdict: Verdict) -> bool {
        &&& after == *self
        &&& verdict == match first_missing(
            self.required_for(ctx.target_interface@),
            ctx.params@.dom(),
        ) {
            Some(p) => Ok::<(bool, Seq<char>), FrameworkError>(
                (false, "Missing required parameter: "@ + p),
            ),
            None => Ok::<(bool, Seq<char>), FrameworkError>(
                (true, "Parameter validation passed"@),
            ),
        }
    }

    fn name(&self) -> (n: &str)
        ensures
            n@ == "param_validator"@,
    {
        "param_validator"
    }

    fn check(&mut self, ctx: &CheckContext) -> (r: FrameworkResult<CheckResult>) {
        let start = instant_now();
        let ghost present = ctx.params@.dom();
        match self.required_params.get(ctx.target_interface.as_str()) {
            Some(params) => {
                let ghost names = params@.map_values(|s: String| s@);
                assert(names == self.required_for(ctx.target_interface@));
                let n = params.len();
                let mut i: usize = 0;
                assert(names.skip(0) =~= names);
                while i < n
                    invariant
                        n == params@.len(),
                        i <= n,
                        names == params@.map_values(|s: String| s@),
                        names == old(self).required_for(ctx.target_interface@),
                        *self == *old(self),
                        present == ctx.params@.dom(),
                        first_missing(names, present) == first_missing(names.skip(i as int), present),
                    decreases n - i,
                {
                    assert(names.skip(i as int)[0] == params@[i as int]@);
                    assert(names.skip(i as int).drop_first() =~= names.skip(i + 1));
                    if !ctx.params.contains_key(params[i].as_str()) {
                        assert(!present.contains(names.skip(i as int)[0]));
                        assert(first_missing(names, present) == Some(params@[i as int]@));
                        let duration = elapsed_since(start);
                        let mut msg = String::from_str("Missing required parameter: ");
                        msg.append(params[i].as_str());
                        return Ok(CheckResult::failure(msg, duration));
                    }
                    i = i + 1;
                }
                assert(names.skip(n as int) =~= Seq::<Seq<char>>::empty());
                assert(first_missing(names, present) is None);
            },
            None => {
                assert(self.required_for(ctx.target_interface@) =~= Seq::<Seq<char>>::empty());
            },
        }
        let duration = elapsed_since(start);
        Ok(CheckResult::success(String::from_str("Parameter validation passed"), duration))
    }

    open spec fn spec_priority(&self) -> u32 {
        30
    }

    fn priority(&self) -> (p: u32) {
        30
    }
}

/// The checkers that come with the framework, so that one chain can hold
/// any of them.
pub enum BuiltinChecker {
    Whitelist(WhitelistChecker),
    RateLimit(RateLimiter),
    Params(ParamValidator),
}

impl Checker for BuiltinChecker {
    open spec fn checked(&self, ctx: CheckContext, after: Self, verdict: Verdict) -> bool {
        match (self, after) {
            (BuiltinChecker::Whitelist(c), BuiltinChecker::Whitelist(a)) => c.checked(
                ctx,
                a,
                verdict,
            ),
            (BuiltinChecker::RateLimit(c), BuiltinChecker::RateLimit(a)) => c.checked(
                ctx,
                a,
                verdict,
            ),
            (BuiltinChecker::Params(c), BuiltinChecker::Params(a)) => c.checked(ctx, a, verdict),
            _ => false,
        }
    }

    fn name(&self) -> (n: &str)
        ensures
            n@ == match self {
                BuiltinChecker::Whitelist(_) => "whitelist_checker"@,
                BuiltinChecker::RateLimit(_) => "rate_limiter"@,
                BuiltinChecker::Params(_) => "param_validator"@,
            },
    {
        match self {
            BuiltinChecker::Whitelist(c) => c.name(),
            BuiltinChecker::RateLimit(c) => c.name(),
            BuiltinChecker::Params(c) => c.name(),
        }
    }

    fn check(&mut self, ctx: &CheckContext) -> (r: FrameworkResult<CheckResult>) {
        match self {
            BuiltinChecker::Whitelist(c) => c.check(ctx),
            BuiltinChecker::RateLimit(c) => c.check(ctx),
            BuiltinChecker::Params(c) => c.check(ctx),
        }
    }

    open spec fn spec_priority(&self) -> u32 {
        match self {
            BuiltinChecker::Whitelist(c) => c.spec_priority(),
            BuiltinChecker::RateLimit(c) => c.spec_priority(),
            BuiltinChecker::Params(c) => c.spec_priority(),
        }
    }

    fn priority(&self) -> (p: u32) {
        match self {
            BuiltinChecker::Whitelist(c) => c.priority(),
            BuiltinChecker::RateLimit(c) => c.priority(),
            BuiltinChecker::Params(c) => c.priority(),
        }
    }
}

/// The priorities never decrease along the sequence.
pub open spec fn sorted_by_priority(priorities: Seq<u32>) -> bool {
    forall|i: int, j: int| 0 <= i <= j < priorities.len() ==> priorities[i] <= priorities[j]
}

/// Running the checkers `cs` in order on `ctx` may leave them in states
/// `after` and answer `verdict`: the first checker that does not pass (by
/// failing or by an error) decides, and later ones are not run; when every
/// checker passes, the chain passes with "All checks passed".
pub open spec fn chain_checked<C: Checker>(
    cs: Seq<C>,
    ctx: CheckContext,
    after: Seq<C>,
    verdict: Verdict,
) -> bool
    decreases cs.len(),
{
    if cs.len() == 0 {
        &&& after.len() == 0
        &&& verdict == Ok::<(bool, Seq<char>), FrameworkError>((true, "All checks passed"@))
    } else {
        &&& after.len() == cs.len()
        &&& exists|v: Verdict|
            #[trigger] cs[0].checked(ctx, after[0], v) && match v {
                Ok((true, _)) => chain_checked(cs.drop_first(), ctx, after.drop_first(), verdict),
                _ => after.drop_first() == cs.drop_first() && verdict == v,
            }
    }
}

/// Middleware chain: runs its checkers in order of priority, lowest first.
pub struct MiddlewareChain<C> {
    checkers: Vec<(u32, C)>,
}

impl<C> MiddlewareChain<C> {
    #[verifier::type_invariant]
    closed spec fn in_priority_order(&self) -> bool {
        sorted_by_priority(self.priorities())
    }

    /// The checkers, in the order they run.
    pub closed spec fn checkers(&self) -> Seq<C> {
        Seq::new(self.checkers@.len(), |i: int| self.checkers@[i].1)
    }

    /// The priority each checker had when it was added, in the same order.
    pub closed spec fn priorities(&self) -> Seq<u32> {
        Seq::new(self.checkers@.len(), |i: int| self.checkers@[i].0)
    }
}

impl<C: Checker> MiddlewareChain<C> {
    /// A chain with no checkers.
    pub fn new() -> (chain: Self)
        ensures
            chain.checkers() == Seq::<C>::empty(),
            chain.priorities() == Seq::<u32>::empty(),
    {
        let chain = MiddlewareChain { checkers: Vec::new() };
        assert(chain.checkers() =~= Seq::<C>::empty());
        assert(chain.priorities() =~= Seq::<u32>::empty());
        chain
    }

    /// Add checker: it runs after every checker whose priority is at most its
    /// own, and before those with a greater one.
    pub fn add_checker(&mut self, checker: C)
        ensures
            sorted_by_priority(final(self).priorities()),
            exists|i: int|
                {
                    &&& 0 <= i <= old(self).checkers().len()
                    &&& final(self).checkers() == old(self).checkers().insert(i, checker)
                    &&& final(self).priorities() == old(self).priorities().insert(
                        i,
                        checker.spec_priority(),
                    )
                    &&& forall|j: int|
                        0 <= j < i ==> old(self).priorities()[j] <= checker.spec_priority()
                    &&& forall|j: int|
                        i <= j < old(self).priorities().len() ==> old(self).priorities()[j]
                            > checker.spec_priority()
                },
    {
        proof {
            use_type_invariant(&*self);
        }
        let p = checker.priority();
        let mut entries: Vec<(u32, C)> = Vec::new();
        std::mem::swap(&mut entries, &mut self.checkers);
        let ghost before = entries@;
        let n = entries.len();
        let mut i: usize = 0;
        while i < n && entries[i].0 <= p
            invariant
                n == entries@.len(),
                entries@ == before,
                i <= n,
                forall|j: int| 0 <= j < i ==> before[j].0 <= p,
            decreases n - i,
        {
            i = i + 1;
        }
        entries.insert(i, (p, checker));
        proof {
            let ps = Seq::new(entries@.len(), |k: int| entries@[k].0);
            let old_ps = Seq::new(before.len(), |k: int| before[k].0);
            assert(old_ps == old(self).priorities());
            assert forall|j: int| i <= j < old_ps.len() implies old_ps[j] > p by {
                assert(old_ps[i as int] > p);
            }
            assert(ps =~= old_ps.insert(i as int, p));
            assert(sorted_by_priority(ps));
        }
        self.checkers = entries;
        proof {
            assert(self.checkers() =~= old(self).checkers().insert(i as int, checker));
            assert(self.priorities() =~= old(self).priorities().insert(i as int, p));
        }
    }

    /// Execute inspection chain.
    pub fn check(&mut self, ctx: &CheckContext) -> (r: FrameworkResult<CheckResult>)
        ensures
            final(self).priorities() == old(self).priorities(),
            sorted_by_priority(final(self).priorities()),
            chain_checked(old(self).checkers(), *ctx, final(self).checkers(), verdict_of(r)),
    {
        proof {
            use_type_invariant(&*self);
        }
        let start = instant_now();
        let mut entries: Vec<(u32, C)> = Vec::new();
        std::mem::swap(&mut entries, &mut self.checkers);
        let ghost before = entries@;
        let ghost old_cs = old(self).checkers();
        let n = entries.len();
        let mut i: usize = 0;
        proof {
            assert(old_cs =~= Seq::new(before.len(), |k: int| before[k].1));
            assert(old(self).priorities() =~= Seq::new(before.len(), |k: int| before[k].0));
            assert forall|rest: Seq<C>, v: Verdict|
                #[trigger] chain_checked(old_cs.skip(0), *ctx, rest, v) implies chain_checked(
                    old_cs,
                    *ctx,
                    Seq::new(0, |k: int| entries@[k].1) + rest,
                    v,
                ) by {
                assert(old_cs.skip(0) =~= old_cs);
                assert(Seq::new(0, |k: int| entries@[k].1) + rest =~= rest);
            }
        }
        while i < n
            invariant
                n == entries@.len(),
                n == before.len(),
                old_cs == Seq::new(before.len(), |k: int| before[k].1),
                old_cs == old(self).checkers(),
                old(self).priorities() == Seq::new(before.len(), |k: int| before[k].0),
                sorted_by_priority(old(self).priorities()),
                i <= n,
                forall|k: int| 0 <= k < n ==> (#[trigger] entries@[k]).0 == before[k].0,
                forall|k: int| i <= k < n ==> (#[trigger] entries@[k]).1 == before[k].1,
                forall|rest: Seq<C>, v: Verdict|
                    #[trigger] chain_checked(old_cs.skip(i as int), *ctx, rest, v) ==> chain_checked(
                        old_cs,
                        *ctx,
                        Seq::new(i as nat, |k: int| entries@[k].1) + rest,
                        v,
                    ),
            decreases n - i,
        {
            let ghost cur = entries@;
            let r = entries[i].1.check(ctx);
            let ghost after_i = entries@[i as int].1;
            proof {
                assert(entries@ == cur.update(i as int, (cur[i as int].0, after_i)));
            }
            match r {
                Ok(res) => {
                    if !res.passed {
                        proof {
                            let v = verdict_of(Ok(res));
                            let cs = old_cs.skip(i as int);
                            let rest = seq![after_i] + old_cs.skip(i + 1);
                            assert(cs[0] == before[i as int].1);
                            assert(cs[0].checked(*ctx, rest[0], v));
                            assert(rest.drop_first() =~= cs.drop_first());
                            assert(chain_checked(cs, *ctx, rest, v));
                            let final_cs = Seq::new(n as nat, |k: int| entries@[k].1);
                            assert(final_cs =~= Seq::new(i as nat, |k: int| cur[k].1) + rest);
                        }
                        proof {
                            assert(Seq::new(entries@.len(), |k: int| entries@[k].0)
                                =~= old(self).priorities());
                        }
                        self.checkers = entries;
                        proof {
                            assert(self.priorities() =~= old(self).priorities());
                        }
                        return Ok(res);
                    }
                },
                Err(e) => {
                    proof {
                        let v = verdict_of(Err(e));
                        let cs = old_cs.skip(i as int);
                        let rest = seq![after_i] + old_cs.skip(i + 1);
                        assert(cs[0] == before[i as int].1);
                        assert(cs[0].checked(*ctx, rest[0], v));
                        assert(rest.drop_first() =~= cs.drop_first());
                        assert(chain_checked(cs, *ctx, rest, v));
                        let final_cs = Seq::new(n as nat, |k: int| entries@[k].1);
                        assert(final_cs =~= Seq::new(i as nat, |k: int| cur[k].1) + rest);
                    }
                    proof {
                        assert(Seq::new(entries@.len(), |k: int| entries@[k].0)
                            =~= old(self).priorities());
                    }
                    self.checkers = entries;
                    proof {
                        assert(self.priorities() =~= old(self).priorities());
                    }
                    return Err(e);
                },
            }
            proof {
                let ghost v_i = verdict_of(r);
                assert forall|rest: Seq<C>, v: Verdict|
                    #[trigger] chain_checked(old_cs.skip(i + 1), *ctx, rest, v) implies chain_checked(
                        old_cs,
                        *ctx,
                        Seq::new((i + 1) as nat, |k: int| entries@[k].1) + rest,
                        v,
                    ) by {
                    let cs = old_cs.skip(i as int);
                    let ar = seq![after_i] + rest;
                    assert(cs[0] == before[i as int].1);
                    assert(cs[0].checked(*ctx, ar[0], v_i));
                    assert(ar.drop_first() =~= rest);
                    assert(cs.drop_first() =~= old_cs.skip(i + 1));
                    assert(chain_checked(cs, *ctx, ar, v));
                    assert(Seq::new(i as nat, |k: int| cur[k].1) + ar =~= Seq::new(
                        (i + 1) as nat,
                        |k: int| entries@[k].1,
                    ) + rest);
                }
            }
            i = i + 1;
        }
        proof {
            assert(old_cs.skip(n as int) =~= Seq::<C>::empty());
            assert(chain_checked(
                old_cs.skip(n as int),
                *ctx,
                Seq::<C>::empty(),
                Ok::<(bool, Seq<char>), FrameworkError>((true, "All checks passed"@)),
            ));
            assert(Seq::new(n as nat, |k: int| entries@[k].1) + Seq::<C>::empty() =~= Seq::new(
                n as nat,
                |k: int| entries@[k].1,
            ));
        }
        proof {
            assert(Seq::new(entries@.len(), |k: int| entries@[k].0) =~= old(self).priorities());
        }
        self.checkers = entries;
        proof {
            assert(self.priorities() =~= old(self).priorities());
            assert(self.checkers() =~= Seq::new(n as nat, |k: int| self.checkers@[k].1));
        }
        let duration = elapsed_since(start);
        Ok(CheckResult::success(String::from_str("All checks passed"), duration))
    }

    /// Get checker count.
    pub fn checker_count(&self) -> (n: usize)
        ensures
            n == self.checkers().len(),
    {
        self.checkers.len()
    }
}

impl<C: Checker> Default for MiddlewareChain<C> {
    fn default() -> (chain: Self)
        ensures
            chain.checkers() == Seq::<C>::empty(),
            chain.priorities() == Seq::<u32>::empty(),
    {
        MiddlewareChain::new()
    }
}

/// A whitelist check passes exactly the callers on the list, and changes
/// nothing.
pub proof fn lemma_whitelist_passes_listed(
    w: WhitelistChecker,
    ctx: CheckContext,
    after: WhitelistChecker,
    verdict: Verdict,
)
    requires
        w.checked(ctx, after, verdict),
    ensures
        after == w,
        verdict matches Ok((passed, _)) && passed == w.allowed().contains(ctx.caller_id@),
{
}

/// No caller ever has more calls on record than the limit: a check keeps
/// that bound for every caller.
pub proof fn lemma_rate_records_bounded(
    r: RateLimiter,
    ctx: CheckContext,
    after: RateLimiter,
    verdict: Verdict,
)
    requires
        r.checked(ctx, after, verdict),
        forall|k: Seq<char>| #[trigger] r.records().contains_key(k) ==> r.records()[k].len()
            <= r.max_calls(),
    ensures
        forall|k: Seq<char>| #[trigger] after.records().contains_key(k) ==> after.records()[k].len()
            <= after.max_calls(),
{
    let caller = ctx.caller_id@;
    if r.records().contains_key(caller) {
        r.records()[caller].lemma_filter_len(|t: i64| in_window(t, ctx.timestamp, r.window_ms()));
    }
    assert forall|k: Seq<char>| #[trigger] after.records().contains_key(k) implies after.records()[
        k
    ].len() <= after.max_calls() by {
        if k != caller {
            assert(after.records()[k] == r.records()[k]);
        }
    }
}

/// A call passes the rate limiter exactly when fewer than the limit of the
/// caller's earlier passing calls lie in the window; a passing call is
/// recorded, a refused one is not.
pub proof fn lemma_rate_passes_below_limit(
    r: RateLimiter,
    ctx: CheckContext,
    after: RateLimiter,
    verdict: Verdict,
)
    requires
        r.checked(ctx, after, verdict),
    ensures
        verdict matches Ok((passed, _)) && passed == (r.recent_calls(ctx.caller_id@, ctx.timestamp).len()
            < r.max_calls()),
        after.records()[ctx.caller_id@].len() == if verdict matches Ok((true, _)) {
            r.recent_calls(ctx.caller_id@, ctx.timestamp).len() + 1
        } else {
            r.recent_calls(ctx.caller_id@, ctx.timestamp).len() + 0
        },
{
}

/// A parameter check passes exactly when every parameter that the target
/// interface requires is in the context, and changes nothing.
pub proof fn lemma_params_pass_iff_present(
    p: ParamValidator,
    ctx: CheckContext,
    after: ParamValidator,
    verdict: Verdict,
)
    requires
        p.checked(ctx, after, verdict),
    ensures
        after == p,
        verdict matches Ok((passed, _)) && passed == forall|i: int|
            0 <= i < p.required_for(ctx.target_interface@).len() ==> ctx.params@.contains_key(
                #[trigger] p.required_for(ctx.target_interface@)[i],
            ),
{
    lemma_first_missing_none(p.required_for(ctx.target_interface@), ctx.params@.dom());
}

/// The chain passes only with "All checks passed", after every checker ran
/// and passed; the verdicts the checkers gave are returned.
pub proof fn lemma_chain_passes_only_if_all_pass<C: Checker>(
    cs: Seq<C>,
    ctx: CheckContext,
    after: Seq<C>,
    verdict: Verdict,
) -> (verdicts: Seq<Verdict>)
    requires
        chain_checked(cs, ctx, after, verdict),
        passes(verdict),
    ensures
        verdict == Ok::<(bool, Seq<char>), FrameworkError>((true, "All checks passed"@)),
        after.len() == cs.len(),
        verdicts.len() == cs.len(),
        forall|i: int|
            0 <= i < cs.len() ==> #[trigger] cs[i].checked(ctx, after[i], verdicts[i]) && passes(
                verdicts[i],
            ),
    decreases cs.len(),
{
    if cs.len() == 0 {
        Seq::empty()
    } else {
        let v0 = choose|v: Verdict|
            #[trigger] cs[0].checked(ctx, after[0], v) && match v {
                Ok((true, _)) => chain_checked(cs.drop_first(), ctx, after.drop_first(), verdict),
                _ => after.drop_first() == cs.drop_first() && verdict == v,
            };
        if !passes(v0) {
            assert(verdict == v0);
        }
        let rest = lemma_chain_passes_only_if_all_pass(
            cs.drop_first(),
            ctx,
            after.drop_first(),
            verdict,
        );
        let verdicts = seq![v0] + rest;
        assert forall|i: int| 0 <= i < cs.len() implies #[trigger] cs[i].checked(
            ctx,
            after[i],
            verdicts[i],
        ) && passes(verdicts[i]) by {
            if i > 0 {
                assert(cs.drop_first()[i - 1] == cs[i]);
                assert(after.drop_first()[i - 1] == after[i]);
                assert(verdicts[i] == rest[i - 1]);
            }
        }
        verdicts
    }
}

/// When a checker of the chain refuses a call, the chain refuses it too,
/// with that checker's answer, as long as every checker before it passed.
pub proof fn lemma_chain_stops_at_refusal<C: Checker>(
    cs: Seq<C>,
    ctx: CheckContext,
    after: Seq<C>,
    verdict: Verdict,
    k: int,
)
    requires
        chain_checked(cs, ctx, after, verdict),
        0 <= k < cs.len(),
        forall|i: int, v: Verdict|
            0 <= i < k && #[trigger] cs[i].checked(ctx, after[i], v) ==> passes(v),
        forall|v: Verdict| #[trigger] cs[k].checked(ctx, after[k], v) ==> !passes(v),
    ensures
        !passes(verdict),
        cs[k].checked(ctx, after[k], verdict),
    decreases k,
{
    let v = choose|v: Verdict|
        #[trigger] cs[0].checked(ctx, after[0], v) && match v {
            Ok((true, _)) => chain_checked(cs.drop_first(), ctx, after.drop_first(), verdict),
            _ => after.drop_first() == cs.drop_first() && verdict == v,
        };
    if k > 0 {
        assert(passes(v));
        assert forall|i: int, w: Verdict|
            0 <= i < k - 1 && #[trigger] cs.drop_first()[i].checked(ctx, after.drop_first()[i], w)
                implies passes(w) by {
            assert(cs.drop_first()[i] == cs[i + 1]);
            assert(after.drop_first()[i] == after[i + 1]);
        }
        assert(cs.drop_first()[k - 1] == cs[k]);
        assert(after.drop_first()[k - 1] == after[k]);
        lemma_chain_stops_at_refusal(cs.drop_first(), ctx, after.drop_first(), verdict, k - 1);
    }
}

} // verus!
