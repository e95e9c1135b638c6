//! The verdicts of the acceptance table and the acceptance rule with its
//! precedence order.
use vstd::prelude::*;

verus! {

/// The outcome of evaluating one candidate intervention.
#[derive(Debug, Clone, Copy, PartialEq, Eq, Structural)]
pub enum Verdict {
    Accept,
    AcceptWithWarning,
    RejectCollateral,
    RejectCapability,
    RejectNet,
    RejectNull,
    /// Verification-status sentinel for lifted v1 reports, outside the
    /// six-verdict acceptance table. The acceptance rule never yields it.
    Unverified,
}

/// The text by which each verdict is written in reports and records.
pub open spec fn verdict_text(v: Verdict) -> Seq<char> {
    match v {
        Verdict::Accept => "accept"@,
        Verdict::AcceptWithWarning => "accept_with_warning"@,
        Verdict::RejectCollateral => "reject_collateral"@,
        Verdict::RejectCapability => "reject_capability"@,
        Verdict::RejectNet => "reject_net"@,
        Verdict::RejectNull => "reject_null"@,
        Verdict::Unverified => "unverified"@,
    }
}

impl Verdict {
    /// Whether the verdict is one of the four rejections.
    #[verifier::allow_in_spec]
    pub fn is_reject(self) -> bool
        returns
            (self is RejectCollateral || self is RejectCapability || self is RejectNet
                || self is RejectNull),
    {
        match self {
            Verdict::RejectCollateral => true,
            Verdict::RejectCapability => true,
            Verdict::RejectNet => true,
            Verdict::RejectNull => true,
            _ => false,
        }
    }

    /// Whether the verdict may move a frontier: `accept` or
    /// `accept_with_warning`.
    #[verifier::allow_in_spec]
    pub fn advances_frontier(self) -> bool
        returns
            (self is Accept || self is AcceptWithWarning),
    {
        match self {
            Verdict::Accept => true,
            Verdict::AcceptWithWarning => true,
            _ => false,
        }
    }

    /// The verdict as written in reports (`accept`, `reject_null`, ...).
    pub fn as_str(self) -> (s: &'static str)
        ensures
            s@ == verdict_text(self),
    {
        match self {
            Verdict::Accept => "accept",
            Verdict::AcceptWithWarning => "accept_with_warning",
            Verdict::RejectCollateral => "reject_collateral",
            Verdict::RejectCapability => "reject_capability",
            Verdict::RejectNet => "reject_net",
            Verdict::RejectNull => "reject_null",
            Verdict::Unverified => "unverified",
        }
    }
}

/// The acceptance rule, with the protocol's precedence order
/// `reject_null > reject_capability > reject_collateral > reject_net`:
/// - `none_improved`: no target metric improved;
/// - `capability_ok`: the capability gate passed;
/// - `collateral_exceeded`: some collateral metric regressed beyond the
///   warning band;
/// - `net_nonnegative`: the (rounded) `D_ISA` is not negative;
/// - `any_warned`: some collateral metric lies in the warning band.
pub open spec fn acceptance(
    none_improved: bool,
    capability_ok: bool,
    collateral_exceeded: bool,
    net_nonnegative: bool,
    any_warned: bool,
) -> Verdict {
    if none_improved {
        Verdict::RejectNull
    } else if !capability_ok {
        Verdict::RejectCapability
    } else if collateral_exceeded {
        Verdict::RejectCollateral
    } else if net_nonnegative {
        Verdict::RejectNet
    } else if any_warned {
        Verdict::AcceptWithWarning
    } else {
        Verdict::Accept
    }
}

/// The acceptance rule (see `acceptance`).
pub fn acceptance_verdict(
    none_improved: bool,
    capability_ok: bool,
    collateral_exceeded: bool,
    net_nonnegative: bool,
    any_warned: bool,
) -> (v: Verdict)
    ensures
        v == acceptance(
            none_improved,
            capability_ok,
            collateral_exceeded,
            net_nonnegative,
            any_warned,
        ),
{
    if none_improved {
        Verdict::RejectNull
    } else if !capability_ok {
        Verdict::RejectCapability
    } else if collateral_exceeded {
        Verdict::RejectCollateral
    } else if net_nonnegative {
        Verdict::RejectNet
    } else if any_warned {
        Verdict::AcceptWithWarning
    } else {
        Verdict::Accept
    }
}

/// Every verdict but the `unverified` sentinel is either a rejection or
/// one that may advance a frontier, never both; the sentinel is neither.
pub proof fn lemma_verdict_partition(v: Verdict)
    ensures
        v.is_reject() ==> !v.advances_frontier(),
        v != Verdict::Unverified <==> (v.is_reject() || v.advances_frontier()),
{
}

/// A target that did not improve is rejected as `reject_null`, whatever the
/// capability, collateral and net outcomes.
pub proof fn lemma_reject_null_outranks_all(
    capability_ok: bool,
    collateral_exceeded: bool,
    net_nonnegative: bool,
    any_warned: bool,
)
    ensures
        acceptance(true, capability_ok, collateral_exceeded, net_nonnegative, any_warned)
            == Verdict::RejectNull,
{
}

/// When the targets improved, a failed capability gate is rejected as
/// `reject_capability`, whatever the collateral and net outcomes.
pub proof fn lemma_reject_capability_outranks_collateral_and_net(
    collateral_exceeded: bool,
    net_nonnegative: bool,
    any_warned: bool,
)
    ensures
        acceptance(false, false, collateral_exceeded, net_nonnegative, any_warned)
            == Verdict::RejectCapability,
{
}

/// When the targets improved and capability held, a collateral regression
/// beyond the warning band is rejected as `reject_collateral`, whatever
/// `D_ISA` says.
pub proof fn lemma_reject_collateral_outranks_net(net_nonnegative: bool, any_warned: bool)
    ensures
        acceptance(false, true, true, net_nonnegative, any_warned) == Verdict::RejectCollateral,
{
}

/// The acceptance rule never yields the `unverified` sentinel, and it
/// accepts (with or without warning) exactly when the targets improved,
/// capability held, no collateral metric left the warning band and
/// `D_ISA` is negative; the warning is given exactly when some collateral
/// metric lies in the warning band.
pub proof fn lemma_acceptance_gates(
    none_improved: bool,
    capability_ok: bool,
    collateral_exceeded: bool,
    net_nonnegative: bool,
    any_warned: bool,
)
    ensures
        ({
            let v = acceptance(
                none_improved,
                capability_ok,
                collateral_exceeded,
                net_nonnegative,
                any_warned,
            );
            &&& v != Verdict::Unverified
            &&& v.advances_frontier() <==> (!none_improved && capability_ok
                && !collateral_exceeded && !net_nonnegative)
            &&& v.is_reject() <==> !v.advances_frontier()
            &&& (v == Verdict::AcceptWithWarning) <==> (v.advances_frontier() && any_warned)
        }),
{
}

/// Each verdict of the acceptance rule, by the outcomes that give it:
/// `reject_null` exactly when no target improved; `reject_capability`
/// exactly when targets improved and the capability gate failed;
/// `reject_collateral` exactly when, besides, some collateral metric left
/// the warning band; `reject_net` exactly when, besides, none did and
/// `D_ISA` is not negative (whatever the warning band holds); and
/// otherwise `accept_with_warning` exactly when some collateral metric lies
/// in the warning band, else `accept`.
pub proof fn lemma_acceptance_verdicts(
    none_improved: bool,
    capability_ok: bool,
    collateral_exceeded: bool,
    net_nonnegative: bool,
    any_warned: bool,
)
    ensures
        ({
            let v = acceptance(
                none_improved,
                capability_ok,
                collateral_exceeded,
                net_nonnegative,
                any_warned,
            );
            &&& (v == Verdict::RejectNull) <==> none_improved
            &&& (v == Verdict::RejectCapability) <==> (!none_improved && !capability_ok)
            &&& (v == Verdict::RejectCollateral) <==> (!none_improved && capability_ok
                && collateral_exceeded)
            &&& (v == Verdict::RejectNet) <==> (!none_improved && capability_ok
                && !collateral_exceeded && net_nonnegative)
            &&& (v == Verdict::AcceptWithWarning) <==> (!none_improved && capability_ok
                && !collateral_exceeded && !net_nonnegative && any_warned)
            &&& (v == Verdict::Accept) <==> (!none_improved && capability_ok
                && !collateral_exceeded && !net_nonnegative && !any_warned)
        }),
{
}

/// Whether some collateral metric lies in the warning band does not change
/// a rejection: the band decides only between `accept` and
/// `accept_with_warning`.
pub proof fn lemma_warning_band_only_qualifies_acceptance(
    none_improved: bool,
    capability_ok: bool,
    collateral_exceeded: bool,
    net_nonnegative: bool,
)
    ensures
        ({
            let quiet = acceptance(none_improved, capability_ok, collateral_exceeded, net_nonnegative, false);
            let warned = acceptance(none_improved, capability_ok, collateral_exceeded, net_nonnegative, true);
            &&& quiet.is_reject() ==> warned == quiet
            &&& quiet == Verdict::Accept <==> warned == Verdict::AcceptWithWarning
        }),
{
}

} // verus!
