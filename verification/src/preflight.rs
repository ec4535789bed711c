//! Preflight readiness report of an execution request, and the coordinator
//! rules that produce it.

use vstd::prelude::*;
use crate::wire::{all_digits, decimal, encode_decimal, lemma_decimal_roundtrip, is_digit};
use crate::plan::ExecutionSessionState;

verus! {

/// Domain categories of preflight checks.
#[derive(Debug, Clone, Copy, PartialEq, Eq, Hash, Structural)]
pub enum PreflightCheckKind {
    Plan,
    Resource,
    Robot,
    Transport,
    Safety,
}

/// Outcome status of an individual check.
#[derive(Debug, Clone, Copy, PartialEq, Eq, Hash, Structural)]
pub enum PreflightStatus {
    Passed,
    Failed,
    Warning,
    Skipped,
}

/// One entry of a preflight report.
#[derive(Debug, PartialEq, Eq)]
pub struct PreflightCheck {
    pub kind: PreflightCheckKind,
    pub status: PreflightStatus,
    pub message: Option<String>,
}

impl PreflightCheck {
    pub fn pass(kind: PreflightCheckKind, message: String) -> (c: Self)
        ensures
            c.kind == kind,
            c.status == PreflightStatus::Passed,
            c.message == Some(message),
    {
        PreflightCheck { kind, status: PreflightStatus::Passed, message: Some(message) }
    }

    pub fn fail(kind: PreflightCheckKind, message: String) -> (c: Self)
        ensures
            c.kind == kind,
            c.status == PreflightStatus::Failed,
            c.message == Some(message),
    {
        PreflightCheck { kind, status: PreflightStatus::Failed, message: Some(message) }
    }

    pub fn skip(kind: PreflightCheckKind, message: String) -> (c: Self)
        ensures
            c.kind == kind,
            c.status == PreflightStatus::Skipped,
            c.message == Some(message),
    {
        PreflightCheck { kind, status: PreflightStatus::Skipped, message: Some(message) }
    }
}

/// Whether any check of `checks` failed.
pub open spec fn any_failed(checks: Seq<PreflightCheck>) -> bool {
    exists|i: int| 0 <= i < checks.len() && (#[trigger] checks[i]).status == PreflightStatus::Failed
}

/// Evaluation report deciding whether a request can be dispatched.
#[derive(Debug, PartialEq, Eq)]
pub struct ExecutionPreflight {
    pub checks: Vec<PreflightCheck>,
    pub can_dispatch: bool,
}

impl ExecutionPreflight {
    /// A report over `checks`; dispatch is allowed unless a check failed.
    pub fn new(checks: Vec<PreflightCheck>) -> (p: Self)
        ensures
            p.checks == checks,
            p.can_dispatch == !any_failed(checks@),
    {
        let n = checks.len();
        let mut failed = false;
        let mut i: usize = 0;
        while i < n
            invariant
                n == checks@.len(),
                i <= n,
                failed == exists|k: int| 0 <= k < i && (#[trigger] checks@[k]).status == PreflightStatus::Failed,
            decreases n - i,
        {
            match checks[i].status {
                PreflightStatus::Failed => {
                    failed = true;
                },
                _ => {},
            }
            i = i + 1;
        }
        ExecutionPreflight { checks, can_dispatch: !failed }
    }
}

/// Where an execution is targeted.
/// Why an execution could not be dispatched or started.
#[derive(Debug, PartialEq, Eq)]
pub enum ExecutionError {
    /// The preflight evaluation refused it.
    PreflightFailed(ExecutionPreflight),
    /// The session was not in a state that allows it.
    InvalidSessionState(ExecutionSessionState),
}

#[derive(Debug, PartialEq, Eq)]
pub enum ExecutionTarget {
    Simulation,
    Hardware { robot_id: String },
}

/// Repetition policy of an execution request.
#[derive(Debug, PartialEq, Eq)]
pub enum ExecutionPolicyMode {
    Once,
    Repeat { count: usize },
    Continuous,
    Until { condition: String },
}

/// Execution policy of a request.
#[derive(Debug, PartialEq, Eq)]
pub struct ExecutionPolicy {
    pub mode: ExecutionPolicyMode,
}

impl Default for ExecutionPolicy {
    fn default() -> (p: Self)
        ensures
            p.mode == ExecutionPolicyMode::Once,
    {
        ExecutionPolicy { mode: ExecutionPolicyMode::Once }
    }
}

/// Text of ASCII bytes.
pub open spec fn ascii_chars(b: Seq<u8>) -> Seq<char> {
    b.map_values(|x: u8| x as char)
}

/// Decimal text of `n`.
pub open spec fn decimal_text(n: nat) -> Seq<char> {
    ascii_chars(decimal(n))
}

/// The one-character text of the decimal digit byte `b`.
fn digit_str(b: u8) -> (r: &'static str)
    requires
        is_digit(b),
    ensures
        r@ == seq![b as char],
{
    proof {
        reveal_strlit("0");
        reveal_strlit("1");
        reveal_strlit("2");
        reveal_strlit("3");
        reveal_strlit("4");
        reveal_strlit("5");
        reveal_strlit("6");
        reveal_strlit("7");
        reveal_strlit("8");
        reveal_strlit("9");
    }
    if b == 48u8 {
        "0"
    } else if b == 49u8 {
        "1"
    } else if b == 50u8 {
        "2"
    } else if b == 51u8 {
        "3"
    } else if b == 52u8 {
        "4"
    } else if b == 53u8 {
        "5"
    } else if b == 54u8 {
        "6"
    } else if b == 55u8 {
        "7"
    } else if b == 56u8 {
        "8"
    } else {
        "9"
    }
}

pub(crate) fn decimal_string(n: u64) -> (r: String)
    ensures
        r@ == decimal_text(n as nat),
{
    let d = encode_decimal(n);
    proof {
        lemma_decimal_roundtrip(n as nat);
    }
    let mut s = String::new();
    let mut i: usize = 0;
    while i < d.len()
        invariant
            i <= d@.len(),
            d@ == decimal(n as nat),
            all_digits(d@),
            s@ == ascii_chars(d@.take(i as int)),
        decreases d@.len() - i,
    {
        let piece = digit_str(d[i]);
        s.append(piece);
        proof {
            assert(ascii_chars(d@.take(i as int + 1)) =~= ascii_chars(d@.take(i as int)) + seq![
                d@[i as int] as char,
            ]);
        }
        i = i + 1;
    }
    proof {
        assert(d@.take(d@.len() as int) =~= d@);
    }
    s
}

pub(crate) fn concat(a: &str, b: &str) -> (r: String)
    ensures
        r@ == a@ + b@,
{
    let mut s = String::from_str(a);
    s.append(b);
    s
}

/// Expected plan check of a request for plan `plan_id`.
pub open spec fn plan_check(plan_id: Seq<char>) -> (PreflightCheckKind, PreflightStatus, Seq<char>) {
    if plan_id.len() == 0 {
        (PreflightCheckKind::Plan, PreflightStatus::Failed, "PlanId cannot be empty"@)
    } else {
        (PreflightCheckKind::Plan, PreflightStatus::Passed, "Plan "@ + plan_id + " is valid"@)
    }
}

/// Expected resource check, from the outcome of resolving the requirements.
pub open spec fn resource_check(resolution: Result<(nat, nat), Seq<char>>) -> (
    PreflightCheckKind,
    PreflightStatus,
    Seq<char>,
) {
    match resolution {
        Ok((m, u)) => (
            PreflightCheckKind::Resource,
            PreflightStatus::Passed,
            "Successfully resolved "@ + decimal_text(m) + " requirements ("@ + decimal_text(u)
                + " optional unresolved)"@,
        ),
        Err(msg) => (
            PreflightCheckKind::Resource,
            PreflightStatus::Failed,
            "Resource resolution failed: "@ + msg,
        ),
    }
}

/// Expected robot check for `target`.
pub open spec fn robot_check(target: ExecutionTarget, robot_connected: bool) -> (
    PreflightCheckKind,
    PreflightStatus,
    Seq<char>,
) {
    match target {
        ExecutionTarget::Hardware { robot_id } => if robot_connected {
            (
                PreflightCheckKind::Robot,
                PreflightStatus::Passed,
                "Robot "@ + robot_id@ + " is connected and ready"@,
            )
        } else {
            (PreflightCheckKind::Robot, PreflightStatus::Failed, "Robot "@ + robot_id@ + " is disconnected"@)
        },
        ExecutionTarget::Simulation => (
            PreflightCheckKind::Robot,
            PreflightStatus::Skipped,
            "Hardware robot connection not required for simulation target"@,
        ),
    }
}

/// Expected transport check for `target`.
pub open spec fn transport_check(target: ExecutionTarget, transport_ready: bool) -> (
    PreflightCheckKind,
    PreflightStatus,
    Seq<char>,
) {
    match target {
        ExecutionTarget::Hardware { .. } => if transport_ready {
            (
                PreflightCheckKind::Transport,
                PreflightStatus::Passed,
                "Hardware communication transport is ready"@,
            )
        } else {
            (
                PreflightCheckKind::Transport,
                PreflightStatus::Failed,
                "Hardware communication transport is unavailable"@,
            )
        },
        ExecutionTarget::Simulation => (
            PreflightCheckKind::Transport,
            PreflightStatus::Skipped,
            "Physical transport not required for simulation target"@,
        ),
    }
}

/// Expected safety check.
pub open spec fn safety_check() -> (PreflightCheckKind, PreflightStatus, Seq<char>) {
    (PreflightCheckKind::Safety, PreflightStatus::Passed, "Safety envelope checks passed"@)
}

/// The checks a preflight evaluation reports, in order.
pub open spec fn expected_checks(
    plan_id: Seq<char>,
    resolution: Result<(nat, nat), Seq<char>>,
    target: ExecutionTarget,
    robot_connected: bool,
    transport_ready: bool,
) -> Seq<(PreflightCheckKind, PreflightStatus, Seq<char>)> {
    seq![
        plan_check(plan_id),
        resource_check(resolution),
        robot_check(target, robot_connected),
        transport_check(target, transport_ready),
        safety_check(),
    ]
}

/// `check` reports exactly `expected`.
pub open spec fn check_is(check: PreflightCheck, expected: (PreflightCheckKind, PreflightStatus, Seq<char>)) -> bool {
    &&& check.kind == expected.0
    &&& check.status == expected.1
    &&& check.message matches Some(m) && m@ == expected.2
}

/// `checks` is exactly the list `expected`.
pub open spec fn checks_are(
    checks: Seq<PreflightCheck>,
    expected: Seq<(PreflightCheckKind, PreflightStatus, Seq<char>)>,
) -> bool {
    &&& checks.len() == expected.len()
    &&& forall|i: int| 0 <= i < checks.len() ==> #[trigger] check_is(checks[i], expected[i])
}

/// Evaluates preflight checks, resolves requirements, reserves resources
/// and dispatches execution sessions.
#[derive(Debug, Default)]
pub struct ExecutionCoordinator;

impl ExecutionCoordinator {
    pub fn new() -> Self {
        ExecutionCoordinator
    }

    /// Preflight evaluation of a request for plan `plan_id` aimed at
    /// `target`. `resolution` is the outcome of resolving the request's
    /// resource requirements at the station: the number of matched
    /// requirements and of unresolved optional ones, or the resolver's error
    /// text. Dispatch is allowed unless a check fails.
    pub fn evaluate_preflight(
        &self,
        plan_id: &str,
        resolution: &Result<(usize, usize), String>,
        target: &ExecutionTarget,
        robot_connected: bool,
        transport_ready: bool,
    ) -> (p: ExecutionPreflight)
        ensures
            checks_are(
                p.checks@,
                expected_checks(
                    plan_id@,
                    match resolution {
                        Ok((m, u)) => Ok((*m as nat, *u as nat)),
                        Err(e) => Err(e@),
                    },
                    *target,
                    robot_connected,
                    transport_ready,
                ),
            ),
            p.can_dispatch == !any_failed(p.checks@),
    {
        let ghost res = match resolution {
            Ok((m, u)) => Ok((*m as nat, *u as nat)),
            Err(e) => Err(e@),
        };
        let plan = if plan_id.is_empty() {
            PreflightCheck::fail(PreflightCheckKind::Plan, String::from_str("PlanId cannot be empty"))
        } else {
            let a = concat("Plan ", plan_id);
            PreflightCheck::pass(PreflightCheckKind::Plan, concat(a.as_str(), " is valid"))
        };
        assert(check_is(plan, plan_check(plan_id@)));
        let resource = match resolution {
            Ok((m, u)) => {
                let a = concat("Successfully resolved ", decimal_string(*m as u64).as_str());
                let b = concat(a.as_str(), " requirements (");
                let c = concat(b.as_str(), decimal_string(*u as u64).as_str());
                PreflightCheck::pass(PreflightCheckKind::Resource, concat(c.as_str(), " optional unresolved)"))
            },
            Err(e) => PreflightCheck::fail(
                PreflightCheckKind::Resource,
                concat("Resource resolution failed: ", e.as_str()),
            ),
        };
        assert(check_is(resource, resource_check(res)));
        let (robot, transport) = match target {
            ExecutionTarget::Hardware { robot_id } => {
                let a = concat("Robot ", robot_id.as_str());
                let robot = if robot_connected {
                    PreflightCheck::pass(PreflightCheckKind::Robot, concat(a.as_str(), " is connected and ready"))
                } else {
                    PreflightCheck::fail(PreflightCheckKind::Robot, concat(a.as_str(), " is disconnected"))
                };
                let transport = if transport_ready {
                    PreflightCheck::pass(
                        PreflightCheckKind::Transport,
                        String::from_str("Hardware communication transport is ready"),
                    )
                } else {
                    PreflightCheck::fail(
                        PreflightCheckKind::Transport,
                        String::from_str("Hardware communication transport is unavailable"),
                    )
                };
                (robot, transport)
            },
            ExecutionTarget::Simulation => (
                PreflightCheck::skip(
                    PreflightCheckKind::Robot,
                    String::from_str("Hardware robot connection not required for simulation target"),
                ),
                PreflightCheck::skip(
                    PreflightCheckKind::Transport,
                    String::from_str("Physical transport not required for simulation target"),
                ),
            ),
        };
        assert(check_is(robot, robot_check(*target, robot_connected)));
        assert(check_is(transport, transport_check(*target, transport_ready)));
        let safety = PreflightCheck::pass(
            PreflightCheckKind::Safety,
            String::from_str("Safety envelope checks passed"),
        );
        let checks = vec![plan, resource, robot, transport, safety];
        proof {
            let exp = expected_checks(plan_id@, res, *target, robot_connected, transport_ready);
            assert(check_is(checks@[0], exp[0]));
            assert(check_is(checks@[1], exp[1]));
            assert(check_is(checks@[2], exp[2]));
            assert(check_is(checks@[3], exp[3]));
            assert(check_is(checks@[4], exp[4]));
        }
        ExecutionPreflight::new(checks)
    }
}

/// Law: a request can be dispatched exactly when its plan identifier is not
/// empty, its resources resolved, and, for a hardware target, the robot is
/// connected and the transport ready.
pub proof fn lemma_dispatch_condition(
    plan_id: Seq<char>,
    resolution: Result<(nat, nat), Seq<char>>,
    target: ExecutionTarget,
    robot_connected: bool,
    transport_ready: bool,
)
    ensures
        ({
            let e = expected_checks(plan_id, resolution, target, robot_connected, transport_ready);
            (exists|i: int| 0 <= i < e.len() && (#[trigger] e[i]).1 == PreflightStatus::Failed)
                <==> (plan_id.len() == 0 || resolution is Err || (target is Hardware && (
            !robot_connected || !transport_ready)))
        }),
{
    let e = expected_checks(plan_id, resolution, target, robot_connected, transport_ready);
    if plan_id.len() == 0 {
        assert(e[0].1 == PreflightStatus::Failed);
    }
    if resolution is Err {
        assert(e[1].1 == PreflightStatus::Failed);
    }
    if target is Hardware && !robot_connected {
        assert(e[2].1 == PreflightStatus::Failed);
    }
    if target is Hardware && !transport_ready {
        assert(e[3].1 == PreflightStatus::Failed);
    }
    assert(e.len() == 5);
}

/// Law: the report allows dispatch exactly when no check failed.
pub proof fn lemma_report_blocks_on_failure(checks: Seq<PreflightCheck>, i: int)
    requires
        0 <= i < checks.len(),
        checks[i].status == PreflightStatus::Failed,
    ensures
        any_failed(checks),
{
}

} // verus!
