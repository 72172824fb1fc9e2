//! The profile applier: turns a profile and an adapter into the ordered plan
//! of configuration commands, and gives the fail-fast meaning of running a
//! plan against the outcomes its commands produce.
//!
//! The pipeline order is: the replacing primary-address operation (carrying
//! the first gateway), one additive operation per further address, one
//! gateway route per further gateway with its position as metric, then the
//! DNS operation. Planning is pure; a subnet that cannot be normalized for
//! the platform fails the whole plan before anything would run. Running is
//! fail-fast: the first fatal failure aborts the remainder, and nothing
//! already applied is rolled back.

use vstd::prelude::*;

use crate::command::add_gateway;
use crate::command::add_ip_addr;
use crate::command::opt_str_view;
use crate::command::set_dns;
use crate::command::set_ip_addr;
use crate::command::spec_add_gateway_steps;
use crate::command::spec_add_ip_steps;
use crate::command::spec_set_dns_steps;
use crate::command::spec_set_ip_steps;
use crate::command::steps_view;
use crate::command::Step;
use crate::command::StepV;
use crate::error::ErrorDetail;
use crate::error::ErrorV;
use crate::platform::Platform;
use crate::profile::NetworkProfile;
use crate::profile::IP;

verus! {

/// The first gateway of the profile, if any; it rides along with the
/// primary address operation.
pub open spec fn spec_first_gateway(profile: NetworkProfile) -> Option<Seq<char>> {
    if profile.gateways@.len() == 0 {
        None
    } else {
        Some(profile.gateways@[0]@)
    }
}

/// The planned steps for the additive address entries `ips[1..hi]`, or the
/// first normalization error among them.
pub open spec fn spec_additional_ip_steps(
    platform: Platform,
    adapter: Seq<char>,
    ips: Seq<IP>,
    hi: int,
) -> Result<Seq<StepV>, ErrorV>
    decreases hi,
{
    if hi <= 1 {
        Ok(Seq::empty())
    } else {
        match spec_additional_ip_steps(platform, adapter, ips, hi - 1) {
            Err(e) => Err(e),
            Ok(pre) => match spec_add_ip_steps(
                platform,
                adapter,
                ips[hi - 1].address@,
                ips[hi - 1].subnet@,
            ) {
                None => Err(ErrorV::InvalidSubnet { input: ips[hi - 1].subnet@ }),
                Some(st) => Ok(pre + st),
            },
        }
    }
}

/// The planned steps for the secondary gateways `gateways[1..hi]`; the
/// gateway at position `j` gets metric `j`, so earlier gateways win.
pub open spec fn spec_secondary_gateway_steps(
    platform: Platform,
    adapter: Seq<char>,
    gateways: Seq<String>,
    hi: int,
) -> Seq<StepV>
    decreases hi,
{
    if hi <= 1 {
        Seq::empty()
    } else {
        spec_secondary_gateway_steps(platform, adapter, gateways, hi - 1) + spec_add_gateway_steps(
            platform,
            adapter,
            gateways[hi - 1]@,
            (hi - 1) as nat,
        )
    }
}

/// The full plan for applying a profile to an adapter: primary address,
/// additive addresses, secondary gateways, DNS — in that order — or the
/// first normalization error.
pub open spec fn spec_load_profile(
    platform: Platform,
    adapter: Seq<char>,
    profile: NetworkProfile,
) -> Result<Seq<StepV>, ErrorV> {
    let ip_part: Result<Seq<StepV>, ErrorV> = if profile.ips@.len() == 0 {
        Ok(Seq::empty())
    } else {
        match spec_set_ip_steps(
            platform,
            adapter,
            profile.ips@[0].address@,
            profile.ips@[0].subnet@,
            spec_first_gateway(profile),
        ) {
            None => Err(ErrorV::InvalidSubnet { input: profile.ips@[0].subnet@ }),
            Some(prim) => match spec_additional_ip_steps(
                platform,
                adapter,
                profile.ips@,
                profile.ips@.len() as int,
            ) {
                Err(e) => Err(e),
                Ok(rest) => Ok(prim + rest),
            },
        }
    };
    match ip_part {
        Err(e) => Err(e),
        Ok(ip_steps) => Ok(
            ip_steps + spec_secondary_gateway_steps(
                platform,
                adapter,
                profile.gateways@,
                profile.gateways@.len() as int,
            ) + spec_set_dns_steps(platform, adapter, profile.dns),
        ),
    }
}

/// The view of a planning result.
pub open spec fn plan_view(r: Result<Vec<Step>, ErrorDetail>) -> Result<Seq<StepV>, ErrorV> {
    match r {
        Ok(v) => Ok(steps_view(v@)),
        Err(e) => Err(e@),
    }
}

/// The view of a step sequence distributes over concatenation.
proof fn lemma_steps_view_concat(a: Seq<Step>, b: Seq<Step>)
    ensures
        steps_view(a + b) == steps_view(a) + steps_view(b),
{
    assert(steps_view(a + b) =~= steps_view(a) + steps_view(b));
}

/// Once one additive address entry fails to normalize, the whole additive
/// part keeps that first error.
proof fn lemma_additional_err_propagates(
    platform: Platform,
    adapter: Seq<char>,
    ips: Seq<IP>,
    i: int,
    hi: int,
)
    requires
        1 <= i < hi,
        spec_additional_ip_steps(platform, adapter, ips, i) is Ok,
        spec_add_ip_steps(platform, adapter, ips[i].address@, ips[i].subnet@) is None,
    ensures
        spec_additional_ip_steps(platform, adapter, ips, hi) == Result::<Seq<StepV>, ErrorV>::Err(
            ErrorV::InvalidSubnet { input: ips[i].subnet@ },
        ),
    decreases hi,
{
    if hi > i + 1 {
        lemma_additional_err_propagates(platform, adapter, ips, i, hi - 1);
    }
}

/// Builds the complete, ordered command plan that applies `profile` to
/// `adapter` on `platform`. The plan is a pure function of its three
/// arguments. It fails, with the offending subnet, exactly when some subnet
/// of the profile cannot be normalized for the platform; the first such
/// subnet in profile order is reported.
pub fn load_profile(profile: &NetworkProfile, adapter: &str, platform: Platform) -> (r: Result<
    Vec<Step>,
    ErrorDetail,
>)
    ensures
        plan_view(r) == spec_load_profile(platform, adapter@, *profile),
{
    let ghost ips = profile.ips@;
    let mut plan: Vec<Step> = Vec::new();
    let ghost mut ip_steps: Seq<StepV> = Seq::empty();
    if profile.ips.len() > 0 {
        let first = &profile.ips[0];
        let first_gateway: Option<&str> = if profile.gateways.len() > 0 {
            Some(profile.gateways[0].as_str())
        } else {
            None
        };
        proof {
            assert(opt_str_view(first_gateway) == spec_first_gateway(*profile));
        }
        let mut prim = match set_ip_addr(
            platform,
            adapter,
            first.address.as_str(),
            first.subnet.as_str(),
            first_gateway,
        ) {
            Ok(v) => v,
            Err(e) => {
                return Err(e);
            },
        };
        let ghost prim_v = steps_view(prim@);
        proof {
            lemma_steps_view_concat(plan@, prim@);
        }
        plan.append(&mut prim);
        let mut i: usize = 1;
        while i < profile.ips.len()
            invariant
                1 <= i <= ips.len(),
                ips == profile.ips@,
                spec_set_ip_steps(
                    platform,
                    adapter@,
                    ips[0].address@,
                    ips[0].subnet@,
                    spec_first_gateway(*profile),
                ) == Some(prim_v),
                spec_additional_ip_steps(platform, adapter@, ips, i as int) matches Ok(rest)
                    && steps_view(plan@) == prim_v + rest,
            decreases ips.len() - i,
        {
            let entry = &profile.ips[i];
            match add_ip_addr(platform, adapter, entry.address.as_str(), entry.subnet.as_str()) {
                Ok(mut v) => {
                    proof {
                        lemma_steps_view_concat(plan@, v@);
                    }
                    plan.append(&mut v);
                },
                Err(e) => {
                    proof {
                        lemma_additional_err_propagates(
                            platform,
                            adapter@,
                            ips,
                            i as int,
                            ips.len() as int,
                        );
                    }
                    return Err(e);
                },
            }
            i += 1;
        }
        proof {
            ip_steps = steps_view(plan@);
        }
    }
    proof {
        assert(spec_load_profile(platform, adapter@, *profile) matches Ok(full) && full
            == ip_steps + spec_secondary_gateway_steps(
            platform,
            adapter@,
            profile.gateways@,
            profile.gateways@.len() as int,
        ) + spec_set_dns_steps(platform, adapter@, profile.dns));
    }
    let mut j: usize = 1;
    while j < profile.gateways.len()
        invariant
            1 <= j,
            profile.gateways@.len() <= 1 ==> j == 1,
            profile.gateways@.len() > 1 ==> j <= profile.gateways@.len(),
            steps_view(plan@) == ip_steps + spec_secondary_gateway_steps(
                platform,
                adapter@,
                profile.gateways@,
                j as int,
            ),
        decreases profile.gateways@.len() - j,
    {
        let mut v = add_gateway(platform, adapter, profile.gateways[j].as_str(), j);
        proof {
            lemma_steps_view_concat(plan@, v@);
        }
        plan.append(&mut v);
        j += 1;
    }
    proof {
        assert(spec_secondary_gateway_steps(
            platform,
            adapter@,
            profile.gateways@,
            profile.gateways@.len() as int,
        ) == spec_secondary_gateway_steps(platform, adapter@, profile.gateways@, j as int));
    }
    let mut dns_steps = set_dns(platform, adapter, &profile.dns);
    proof {
        lemma_steps_view_concat(plan@, dns_steps@);
    }
    plan.append(&mut dns_steps);
    Ok(plan)
}

/// Applying the same profile to the same adapter twice plans the identical
/// command sequence both times: planning holds no hidden state, so a repeat
/// of `load_profile` re-issues exactly the invocations of the first run.
pub proof fn lemma_load_profile_idempotent(
    platform: Platform,
    adapter: Seq<char>,
    profile: NetworkProfile,
    first: Result<Seq<StepV>, ErrorV>,
    second: Result<Seq<StepV>, ErrorV>,
)
    requires
        first == spec_load_profile(platform, adapter, profile),
        second == spec_load_profile(platform, adapter, profile),
    ensures
        first == second,
{
}

/// The adapter an apply may proceed against: the selected one, or the error
/// that no interface is selected.
pub fn resolve_adapter(selected: Option<String>) -> (r: Result<String, ErrorDetail>)
    ensures
        match selected {
            Some(name) => r matches Ok(a) && a@ == name@,
            None => r matches Err(e) && e@ == ErrorV::NoInterfaceSelected,
        },
{
    match selected {
        Some(name) => Ok(name),
        None => Err(ErrorDetail::NoInterfaceSelected),
    }
}

/// What one external invocation came to: the process ran and exited
/// successfully, ran and exited with failure, or could not be started.
#[derive(Debug, Clone, PartialEq, Eq, Hash)]
pub enum ExecOutcome {
    Success,
    Failed { diagnostic: String },
    SpawnFailed { cause: String },
}

/// The mathematical shape of an [`ExecOutcome`].
pub ghost enum OutcomeV {
    Success,
    Failed { diagnostic: Seq<char> },
    SpawnFailed { cause: Seq<char> },
}

impl View for ExecOutcome {
    type V = OutcomeV;

    open spec fn view(&self) -> OutcomeV {
        match self {
            ExecOutcome::Success => OutcomeV::Success,
            ExecOutcome::Failed { diagnostic } => OutcomeV::Failed { diagnostic: diagnostic@ },
            ExecOutcome::SpawnFailed { cause } => OutcomeV::SpawnFailed { cause: cause@ },
        }
    }
}

/// The views of a sequence of outcomes.
pub open spec fn outcomes_view(v: Seq<ExecOutcome>) -> Seq<OutcomeV> {
    Seq::new(v.len(), |i: int| v[i]@)
}

/// What one step's outcome means for the pipeline: `None` to continue,
/// `Some(error)` to abort. Only a fatal step's failure aborts; either way a
/// failure that ran maps to `CommandFailed` with the captured diagnostic and
/// a failure to start maps to `SpawnFailed`.
pub open spec fn spec_step_result(fatal: bool, outcome: OutcomeV) -> Option<ErrorV> {
    match outcome {
        OutcomeV::Success => None,
        OutcomeV::Failed { diagnostic } => if fatal {
            Some(ErrorV::CommandFailed { diagnostic })
        } else {
            None
        },
        OutcomeV::SpawnFailed { cause } => if fatal {
            Some(ErrorV::SpawnFailed { cause })
        } else {
            None
        },
    }
}

/// Decides, after one step's command has run, whether the pipeline goes on:
/// `None` to continue with the next step, `Some(error)` to abort.
pub fn step_result(fatal: bool, outcome: &ExecOutcome) -> (r: Option<ErrorDetail>)
    ensures
        r is Some <==> spec_step_result(fatal, outcome@) is Some,
        r matches Some(e) ==> spec_step_result(fatal, outcome@) == Some(e@),
{
    match outcome {
        ExecOutcome::Success => None,
        ExecOutcome::Failed { diagnostic } => if fatal {
            Some(ErrorDetail::CommandFailed { diagnostic: diagnostic.clone() })
        } else {
            None
        },
        ExecOutcome::SpawnFailed { cause } => if fatal {
            Some(ErrorDetail::SpawnFailed { cause: cause.clone() })
        } else {
            None
        },
    }
}

/// The fail-fast meaning of running a plan whose commands come to the given
/// outcomes: how many commands are issued, and the first fatal error if one
/// occurs. Every command before the aborting one is issued; the aborting
/// command is counted as issued; nothing after it is issued.
pub open spec fn spec_run_plan(plan: Seq<StepV>, outcomes: Seq<OutcomeV>) -> (nat, Option<ErrorV>)
    recommends
        outcomes.len() == plan.len(),
    decreases plan.len(),
{
    if plan.len() == 0 {
        (0, None)
    } else {
        match spec_step_result(plan[0].fatal, outcomes[0]) {
            Some(e) => (1, Some(e)),
            None => {
                let rest = spec_run_plan(plan.skip(1), outcomes.skip(1));
                ((rest.0 + 1) as nat, rest.1)
            },
        }
    }
}

/// Running a plan whose first `i` steps continue is running the rest of the
/// plan, `i` steps further in.
proof fn lemma_run_plan_skip(plan: Seq<StepV>, outcomes: Seq<OutcomeV>, i: int)
    requires
        0 <= i <= plan.len(),
        outcomes.len() == plan.len(),
        forall|k: int| 0 <= k < i ==> spec_step_result(plan[k].fatal, outcomes[k]) is None,
    ensures
        spec_run_plan(plan, outcomes).0 == i + spec_run_plan(plan.skip(i), outcomes.skip(i)).0,
        spec_run_plan(plan, outcomes).1 == spec_run_plan(plan.skip(i), outcomes.skip(i)).1,
    decreases i,
{
    if i == 0 {
        assert(plan.skip(0) =~= plan);
        assert(outcomes.skip(0) =~= outcomes);
    } else {
        let p1 = plan.skip(1);
        let o1 = outcomes.skip(1);
        assert(forall|k: int|
            0 <= k < i - 1 ==> spec_step_result(p1[k].fatal, #[trigger] o1[k]) is None);
        lemma_run_plan_skip(p1, o1, i - 1);
        assert(p1.skip(i - 1) =~= plan.skip(i));
        assert(o1.skip(i - 1) =~= outcomes.skip(i));
    }
}

/// Runs a plan against a full trace of outcomes, one outcome per planned
/// command, and returns how many commands were issued together with the
/// first fatal error, if any. This is the pipeline's fail-fast policy as a
/// pure function: the caller that actually executes commands makes the same
/// decisions step by step through [`step_result`].
pub fn run_plan(plan: &Vec<Step>, outcomes: &Vec<ExecOutcome>) -> (r: (usize, Option<ErrorDetail>))
    requires
        outcomes@.len() == plan@.len(),
    ensures
        ({
            let s = spec_run_plan(steps_view(plan@), outcomes_view(outcomes@));
            &&& r.0 == s.0
            &&& (r.1 is Some <==> s.1 is Some)
            &&& (r.1 matches Some(e) ==> s.1 == Some(e@))
        }),
{
    let ghost pv = steps_view(plan@);
    let ghost ov = outcomes_view(outcomes@);
    let n = plan.len();
    let mut i: usize = 0;
    while i < n
        invariant
            0 <= i <= n,
            n == plan@.len(),
            outcomes@.len() == n,
            pv == steps_view(plan@),
            ov == outcomes_view(outcomes@),
            forall|k: int| 0 <= k < i ==> spec_step_result(pv[k].fatal, #[trigger] ov[k]) is None,
        decreases n - i,
    {
        let step = &plan[i];
        let outcome = &outcomes[i];
        if let Some(e) = step_result(step.fatal, outcome) {
            proof {
                lemma_run_plan_skip(pv, ov, i as int);
                assert(pv.skip(i as int)[0] == pv[i as int]);
                assert(ov.skip(i as int)[0] == ov[i as int]);
            }
            return (i + 1, Some(e));
        }
        i += 1;
    }
    proof {
        lemma_run_plan_skip(pv, ov, n as int);
        assert(pv.skip(n as int).len() == 0);
    }
    (n, None)
}

/// The fail-fast policy, characterized: a run that reports success issued
/// every planned command and every outcome was allowed to continue; a run
/// that reports an error issued some prefix of the plan, the reported error
/// is exactly the judgment of the last issued step, every earlier step was
/// allowed to continue, and nothing past the aborting step was issued.
pub proof fn lemma_run_plan_fail_fast(plan: Seq<StepV>, outcomes: Seq<OutcomeV>)
    requires
        outcomes.len() == plan.len(),
    ensures
        spec_run_plan(plan, outcomes).0 <= plan.len(),
        spec_run_plan(plan, outcomes).1 is None ==> spec_run_plan(plan, outcomes).0 == plan.len()
            && forall|k: int|
            0 <= k < plan.len() ==> spec_step_result(plan[k].fatal, #[trigger] outcomes[k]) is None,
        spec_run_plan(plan, outcomes).1 matches Some(e) ==> {
            let issued = spec_run_plan(plan, outcomes).0;
            &&& 1 <= issued <= plan.len()
            &&& spec_step_result(plan[issued - 1].fatal, outcomes[issued - 1]) == Some(e)
            &&& forall|k: int|
                0 <= k < issued - 1 ==> spec_step_result(
                    plan[k].fatal,
                    #[trigger] outcomes[k],
                ) is None
        },
    decreases plan.len(),
{
    if plan.len() > 0 && spec_step_result(plan[0].fatal, outcomes[0]) is None {
        let p1 = plan.skip(1);
        let o1 = outcomes.skip(1);
        lemma_run_plan_fail_fast(p1, o1);
        assert(forall|k: int| 0 <= k < p1.len() ==> p1[k] == plan[k + 1]);
        assert(forall|k: int| 0 <= k < o1.len() ==> o1[k] == outcomes[k + 1]);
        if spec_run_plan(plan, outcomes).1 is None {
            assert forall|k: int|
                0 <= k < plan.len() implies spec_step_result(
                plan[k].fatal,
                #[trigger] outcomes[k],
            ) is None by {
                if k > 0 {
                    assert(spec_step_result(p1[k - 1].fatal, o1[k - 1]) is None);
                }
            }
        } else {
            let issued = spec_run_plan(plan, outcomes).0;
            assert(spec_run_plan(p1, o1).0 == issued - 1);
            assert forall|k: int|
                0 <= k < issued - 1 implies spec_step_result(
                plan[k].fatal,
                #[trigger] outcomes[k],
            ) is None by {
                if k > 0 {
                    assert(spec_step_result(p1[k - 1].fatal, o1[k - 1]) is None);
                }
            }
        }
    }
}

/// The secondary gateway part of a plan, characterized: one command per
/// gateway past the first, in profile order, and the gateway at position
/// `k + 1` of the profile is applied with metric `k + 1`.
pub proof fn lemma_secondary_gateway_order(
    platform: Platform,
    adapter: Seq<char>,
    gateways: Seq<String>,
    hi: int,
)
    requires
        1 <= hi <= gateways.len(),
    ensures
        spec_secondary_gateway_steps(platform, adapter, gateways, hi).len() == hi - 1,
        forall|k: int|
            0 <= k < hi - 1 ==> spec_secondary_gateway_steps(platform, adapter, gateways, hi)[k]
                == spec_add_gateway_steps(platform, adapter, gateways[k + 1]@, (k + 1) as nat)[0],
    decreases hi,
{
    if hi > 1 {
        lemma_secondary_gateway_order(platform, adapter, gateways, hi - 1);
        assert(spec_add_gateway_steps(platform, adapter, gateways[hi - 1]@, (hi - 1) as nat).len()
            == 1) by {
            match platform {
                Platform::Windows => {},
                Platform::Linux => {},
            }
        }
    }
}

} // verus!

