//! Port allocation decisions, the command that runs on a reserved port, and
//! a simulated port for tests.
//!
//! Binding sockets, spawning processes and waiting belong to the caller;
//! this module decides which port to try next, what a command line runs,
//! and how allocations are recorded.

use vstd::prelude::*;
use std::collections::HashSet;
use std::time::{Duration, Instant};
use crate::numeric::{decimal, decimal_exec};
use crate::text::{chars_of, split_ws, split_ws_exec, string_of};

verus! {

broadcast use {vstd::string::group_string_axioms, vstd::std_specs::hash::group_hash_axioms};

// ---------------------------------------------------------------------------
// Random numbers
// ---------------------------------------------------------------------------

#[verifier::external_type_specification]
#[verifier::external_body]
pub struct ExThreadRng(rand::rngs::ThreadRng);

/// `rand::thread_rng`: the generator of the current thread.
#[verifier::external_body]
fn new_rng() -> rand::rngs::ThreadRng {
    rand::thread_rng()
}

// ---------------------------------------------------------------------------
// Allocator
// ---------------------------------------------------------------------------

/// How many draws an allocation makes before it gives up.
pub const MAX_ATTEMPTS: u32 = 100;

/// Allocates random ports of a range, never proposing a port that it has
/// already handed out and that was not released.
pub struct PortAllocator {
    used_ports: HashSet<u16>,
    range_start: u16,
    range_end: u16,
}

/// The model of an allocator: the ports handed out, and the range.
pub struct AllocatorModel {
    pub used: Set<u16>,
    pub start: u16,
    pub end: u16,
}

impl View for PortAllocator {
    type V = AllocatorModel;

    closed spec fn view(&self) -> AllocatorModel {
        AllocatorModel { used: self.used_ports@, start: self.range_start, end: self.range_end }
    }
}

/// Whether an allocator may propose `port`: it lies in the range and is
/// not handed out.
pub open spec fn may_propose(a: AllocatorModel, port: u16) -> bool {
    a.start <= port <= a.end && !a.used.contains(port)
}

/// The allocator after `port` was bound and handed out.
pub open spec fn after_bound(a: AllocatorModel, port: u16) -> AllocatorModel {
    AllocatorModel { used: a.used.insert(port), start: a.start, end: a.end }
}

/// The allocator after `port` was released.
pub open spec fn after_release(a: AllocatorModel, port: u16) -> AllocatorModel {
    AllocatorModel { used: a.used.remove(port), start: a.start, end: a.end }
}

/// `Rng::gen_range(range_start..=range_end)` over the allocator's range: a
/// random port of the range, both ends included (the range must not be
/// empty, else it panics).
#[verifier::external_body]
fn random_candidate(rng: &mut rand::rngs::ThreadRng, a: &PortAllocator) -> (r: u16)
    requires
        a@.start <= a@.end,
    ensures
        a@.start <= r <= a@.end,
{
    rand::Rng::gen_range(rng, a.range_start..=a.range_end)
}

impl PortAllocator {
    /// An allocator for the ports `range_start..=range_end` with nothing
    /// handed out.
    pub fn new(range_start: u16, range_end: u16) -> (r: PortAllocator)
        ensures
            r@.used == Set::<u16>::empty(),
            r@.start == range_start,
            r@.end == range_end,
    {
        PortAllocator { used_ports: HashSet::new(), range_start, range_end }
    }

    /// What a draw of `port` gives: the port is proposed when it is not
    /// handed out; otherwise the draw counts as one more attempt.
    pub fn judge_draw(&self, port: u16, attempts: &mut u32) -> (r: bool)
        requires
            *old(attempts) < u32::MAX,
        ensures
            r == !self@.used.contains(port),
            r ==> *final(attempts) == *old(attempts),
            !r ==> *final(attempts) == *old(attempts) + 1,
    {
        if self.used_ports.contains(&port) {
            *attempts = *attempts + 1;
            false
        } else {
            true
        }
    }

    /// The next port to try: draws random ports of the range, counting in
    /// `attempts` each draw that hits a port already handed out, until one
    /// that is free or until `MAX_ATTEMPTS` is reached (`None`). When no
    /// port of the range is handed out and attempts remain, the first draw
    /// is proposed.
    pub fn next_candidate(&self, attempts: &mut u32) -> (r: Option<u16>)
        requires
            self@.start <= self@.end,
        ensures
            match r {
                Some(p) => may_propose(self@, p) && *old(attempts) <= *final(attempts) < MAX_ATTEMPTS,
                None => *final(attempts) == if *old(attempts) >= MAX_ATTEMPTS {
                    *old(attempts)
                } else {
                    MAX_ATTEMPTS
                },
            },
            (forall|p: u16| self@.start <= p <= self@.end ==> !self@.used.contains(p)) && *old(
                attempts,
            ) < MAX_ATTEMPTS ==> r is Some && *final(attempts) == *old(attempts),
    {
        let mut rng = new_rng();
        while *attempts < MAX_ATTEMPTS
            invariant
                self@.start <= self@.end,
                *old(attempts) < MAX_ATTEMPTS ==> *attempts <= MAX_ATTEMPTS,
                *old(attempts) >= MAX_ATTEMPTS ==> *attempts == *old(attempts),
                *old(attempts) <= *attempts,
                (forall|p: u16| self@.start <= p <= self@.end ==> !self@.used.contains(p))
                    ==> *attempts == *old(attempts),
            decreases MAX_ATTEMPTS - *attempts,
        {
            let port = random_candidate(&mut rng, self);
            if self.judge_draw(port, attempts) {
                return Some(port);
            }
        }
        None
    }

    /// Records what binding `port` gave: a bound port is handed out; a
    /// failed bind counts as one more attempt.
    pub fn record_bind(&mut self, port: u16, bound: bool, attempts: &mut u32)
        requires
            *old(attempts) < u32::MAX,
        ensures
            bound ==> final(self)@ == after_bound(old(self)@, port) && *final(attempts)
                == *old(attempts),
            !bound ==> final(self)@ == old(self)@ && *final(attempts) == *old(attempts) + 1,
    {
        if bound {
            self.used_ports.insert(port);
        } else {
            *attempts = *attempts + 1;
        }
    }

    /// Releases a port that was handed out, so that it may be proposed again
    /// (what dropping the guard of an allocated port does).
    pub fn release_port(&mut self, port: u16)
        ensures
            final(self)@ == after_release(old(self)@, port),
    {
        self.used_ports.remove(&port);
    }
}

/// No port is handed out twice: once bound, a port cannot be proposed
/// again, whatever the allocator held.
pub proof fn law_bound_port_not_proposed_again(a: AllocatorModel, port: u16, other: u16)
    requires
        may_propose(after_bound(a, port), other),
    ensures
        other != port,
{
}

/// Releasing a port undoes binding it: an allocator that had not handed
/// the port out is back where it was, and may propose it again if it lies
/// in the range.
pub proof fn law_release_undoes_bind(a: AllocatorModel, port: u16)
    requires
        !a.used.contains(port),
    ensures
        after_release(after_bound(a, port), port) == a,
        a.start <= port <= a.end ==> may_propose(after_release(after_bound(a, port), port), port),
{
    assert(after_release(after_bound(a, port), port).used =~= a.used);
}

/// Every port an allocator proposes lies in its range.
pub proof fn law_proposals_in_range(a: AllocatorModel, port: u16)
    requires
        may_propose(a, port),
    ensures
        a.start <= port <= a.end,
{
}

// ---------------------------------------------------------------------------
// Commands run on a reserved port
// ---------------------------------------------------------------------------

/// A command to run: its program and arguments.
pub struct CommandLine {
    pub program: String,
    pub args: Vec<String>,
}

/// Why a command line cannot be run.
#[derive(Debug, Clone, Copy, PartialEq, Eq, Structural)]
pub enum CommandError {
    /// The command line holds no word.
    EmptyCommand,
}

/// Splits a command line at whitespace: the first word is the program, the
/// others its arguments; a line without words is refused.
pub fn parse_command(command: &str) -> (r: Result<CommandLine, CommandError>)
    ensures
        split_ws(command@).len() == 0 <==> r is Err,
        r matches Ok(c) ==> c.program@ == split_ws(command@)[0] && c.args@.map_values(
            |s: String| s@,
        ) == split_ws(command@).drop_first(),
{
    let chars = chars_of(command);
    let parts = split_ws_exec(chars.as_slice());
    if parts.len() == 0 {
        return Err(CommandError::EmptyCommand);
    }
    let ghost ws = split_ws(command@);
    let program = string_of(parts[0].as_slice());
    let mut args: Vec<String> = Vec::new();
    let n = parts.len();
    assert(ws.drop_first().take(0) =~= Seq::<Seq<char>>::empty());
    for i in 1..n
        invariant
            n == parts@.len() == ws.len(),
            ws == crate::text::views(parts@),
            args@.map_values(|s: String| s@) == ws.drop_first().take(i - 1),
    {
        let ghost prev = args@;
        let a = string_of(parts[i].as_slice());
        args.push(a);
        assert(ws.drop_first().take(i as int) =~= ws.drop_first().take(i - 1).push(ws[i as int]));
        assert(args@.map_values(|s: String| s@) =~= prev.map_values(|s: String| s@).push(ws[i as int]));
    }
    assert(ws.drop_first().take(n - 1) =~= ws.drop_first());
    Ok(CommandLine { program, args })
}

/// The text of a port as handed to a command (`BOUND_PORT`): its decimal
/// notation.
pub fn port_text(port: u16) -> (r: String)
    ensures
        r@ == decimal(port as nat),
{
    string_of(decimal_exec(port as u32).as_slice())
}

// ---------------------------------------------------------------------------
// Simulated ports
// ---------------------------------------------------------------------------

#[verifier::external_type_specification]
#[verifier::external_body]
pub struct ExInstant(std::time::Instant);

/// `Instant::now`: the current time.
#[verifier::external_body]
fn instant_now() -> Instant {
    Instant::now()
}

/// `Instant::elapsed` on the start of a deadline: the time passed since
/// then, read from the clock.
#[verifier::external_body]
fn elapsed_since(d: &Deadline) -> Duration {
    d.start.elapsed()
}

/// The length of a duration in nanoseconds (what `Duration::as_nanos`
/// gives).
pub uninterp spec fn duration_nanos(d: Duration) -> nat;

/// `Duration < Duration`: whether `a` is shorter than `b`. Durations are
/// ordered by their length.
#[verifier::external_body]
fn duration_below(a: &Duration, b: &Duration) -> (r: bool)
    ensures
        r == (duration_nanos(*a) < duration_nanos(*b)),
{
    *a < *b
}

/// When the guards of a simulated port stop being valid: once `after` has
/// passed since `start`.
#[derive(Clone, Copy)]
pub struct Deadline {
    pub start: Instant,
    pub after: Duration,
}

/// A simulated port for tests: binding it succeeds or fails as configured,
/// after an optional delay, and the guard it gives stops being valid at a
/// configured time.
pub struct MockPort {
    pub port: u16,
    pub should_fail: bool,
    pub bind_delay: Option<Duration>,
    pub fail_after: Option<Deadline>,
}

/// The guard of a simulated port.
pub struct MockPortGuard {
    pub port: u16,
    pub fail_after: Option<Deadline>,
}

/// Why a simulated port did not bind.
#[derive(Debug, Clone, Copy, PartialEq, Eq, Structural)]
pub enum MockPortError {
    /// The port was configured to fail.
    ConfiguredToFail(u16),
}

impl MockPort {
    /// A simulated port that binds at once and stays valid.
    pub fn new(port: u16) -> (r: MockPort)
        ensures
            r.port == port,
            !r.should_fail,
            r.bind_delay is None,
            r.fail_after is None,
    {
        MockPort { port, should_fail: false, bind_delay: None, fail_after: None }
    }

    /// The same port, set to fail (or not) when bound.
    pub fn should_fail(self, fail: bool) -> (r: MockPort)
        ensures
            r.port == self.port,
            r.should_fail == fail,
            r.bind_delay == self.bind_delay,
            r.fail_after == self.fail_after,
    {
        MockPort { should_fail: fail, ..self }
    }

    /// The same port, set to take `delay` to bind.
    pub fn with_bind_delay(self, delay: Duration) -> (r: MockPort)
        ensures
            r.port == self.port,
            r.should_fail == self.should_fail,
            r.bind_delay == Some(delay),
            r.fail_after == self.fail_after,
    {
        MockPort { bind_delay: Some(delay), ..self }
    }

    /// The same port, whose guards stop being valid `duration` from now:
    /// the deadline starts at the clock's current time.
    pub fn fail_after(self, duration: Duration) -> (r: MockPort)
        ensures
            r.port == self.port,
            r.should_fail == self.should_fail,
            r.bind_delay == self.bind_delay,
            r.fail_after matches Some(d) && d.after == duration,
    {
        let start = instant_now();
        MockPort { fail_after: Some(Deadline { start, after: duration }), ..self }
    }

    /// The delay the caller waits before the bind outcome applies.
    pub fn bind_delay(&self) -> (r: Option<Duration>)
        ensures
            r == self.bind_delay,
    {
        self.bind_delay
    }

    /// The outcome of binding: an error when configured to fail, else a
    /// guard for the port carrying the deadline.
    pub fn bind_outcome(&self) -> (r: Result<MockPortGuard, MockPortError>)
        ensures
            self.should_fail ==> r == Err::<MockPortGuard, MockPortError>(
                MockPortError::ConfiguredToFail(self.port),
            ),
            !self.should_fail ==> (r matches Ok(g) && g.port == self.port && g.fail_after
                == self.fail_after),
    {
        if self.should_fail {
            Err(MockPortError::ConfiguredToFail(self.port))
        } else {
            Ok(MockPortGuard { port: self.port, fail_after: self.fail_after })
        }
    }
}

impl MockPortGuard {
    /// The port of the guard.
    pub fn port(&self) -> (r: u16)
        ensures
            r == self.port,
    {
        self.port
    }

    /// Whether the guard is valid once `passed` has passed since its
    /// deadline started: always without a deadline, else while `passed` is
    /// shorter than the deadline's length.
    pub fn valid_after(&self, passed: &Duration) -> (r: bool)
        ensures
            r == (self.fail_after is None || (self.fail_after matches Some(d) && duration_nanos(
                *passed,
            ) < duration_nanos(d.after))),
    {
        match &self.fail_after {
            None => true,
            Some(d) => duration_below(passed, &d.after),
        }
    }

    /// Whether the guard is still valid: always without a deadline, else
    /// while less than its length has passed since its start, as the clock
    /// reads now (see `valid_after`); so never when that length is zero.
    pub fn is_valid(&self) -> (r: bool)
        ensures
            self.fail_after is None ==> r,
            self.fail_after matches Some(d) && duration_nanos(d.after) == 0 ==> !r,
    {
        match &self.fail_after {
            None => true,
            Some(deadline) => {
                let passed = elapsed_since(deadline);
                self.valid_after(&passed)
            },
        }
    }
}

/// One setting applied to a simulated port.
pub enum MockSetting {
    /// `MockPort::should_fail`.
    ShouldFail(bool),
    /// `MockPort::with_bind_delay`.
    BindDelay(Duration),
    /// `MockPort::fail_after`.
    FailAfter(Duration),
}

/// Whether `r` is what applying setting `s` to `m` gives: the port and the
/// other settings kept, this one set (a deadline of the given length, from
/// whatever time the clock read).
pub open spec fn mock_step(m: MockPort, s: MockSetting, r: MockPort) -> bool {
    &&& r.port == m.port
    &&& match s {
        MockSetting::ShouldFail(b) => r.should_fail == b && r.bind_delay == m.bind_delay
            && r.fail_after == m.fail_after,
        MockSetting::BindDelay(d) => r.should_fail == m.should_fail && r.bind_delay == Some(d)
            && r.fail_after == m.fail_after,
        MockSetting::FailAfter(d) => r.should_fail == m.should_fail && r.bind_delay
            == m.bind_delay && (r.fail_after matches Some(x) && x.after == d),
    }
}

/// Whether the last `should_fail` among the settings asked for failure
/// (`false` when there is none).
pub open spec fn last_should_fail(ops: Seq<MockSetting>) -> bool
    decreases ops.len(),
{
    if ops.len() == 0 {
        false
    } else {
        match ops.last() {
            MockSetting::ShouldFail(b) => b,
            _ => last_should_fail(ops.drop_last()),
        }
    }
}

/// The delay of the last `with_bind_delay` among the settings.
pub open spec fn last_bind_delay(ops: Seq<MockSetting>) -> Option<Duration>
    decreases ops.len(),
{
    if ops.len() == 0 {
        None
    } else {
        match ops.last() {
            MockSetting::BindDelay(d) => Some(d),
            _ => last_bind_delay(ops.drop_last()),
        }
    }
}

/// The length of the last `fail_after` among the settings.
pub open spec fn last_fail_after(ops: Seq<MockSetting>) -> Option<Duration>
    decreases ops.len(),
{
    if ops.len() == 0 {
        None
    } else {
        match ops.last() {
            MockSetting::FailAfter(d) => Some(d),
            _ => last_fail_after(ops.drop_last()),
        }
    }
}

/// A simulated port made by `MockPort::new(port)` and then given the
/// settings `ops` in turn (`ms[i + 1]` is `ms[i]` with `ops[i]` applied)
/// keeps its port, and of each kind of setting the last one applied holds.
/// So binding it fails exactly when the last `should_fail` asked for it
/// (see `MockPort::bind_outcome`), and otherwise gives a guard for the port
/// whose deadline has the length of the last `fail_after`, or none.
pub proof fn law_last_mock_setting_wins(port: u16, ms: Seq<MockPort>, ops: Seq<MockSetting>)
    requires
        ms.len() == ops.len() + 1,
        ms[0].port == port && !ms[0].should_fail && ms[0].bind_delay is None && ms[0].fail_after is None,
        forall|i: int| 0 <= i < ops.len() ==> mock_step(ms[i], #[trigger] ops[i], ms[i + 1]),
    ensures
        ms.last().port == port,
        ms.last().should_fail == last_should_fail(ops),
        ms.last().bind_delay == last_bind_delay(ops),
        match last_fail_after(ops) {
            None => ms.last().fail_after is None,
            Some(d) => ms.last().fail_after matches Some(x) && x.after == d,
        },
    decreases ops.len(),
{
    if ops.len() > 0 {
        let n = ops.len() - 1;
        assert forall|i: int| 0 <= i < ops.drop_last().len() implies mock_step(
            ms.drop_last()[i],
            #[trigger] ops.drop_last()[i],
            ms.drop_last()[i + 1],
        ) by {
            assert(ops.drop_last()[i] == ops[i]);
            assert(mock_step(ms[i], ops[i], ms[i + 1]));
        }
        law_last_mock_setting_wins(port, ms.drop_last(), ops.drop_last());
        assert(mock_step(ms[n], ops[n], ms[n + 1]));
        assert(ms.drop_last().last() == ms[n]);
    }
}

} // verus!
