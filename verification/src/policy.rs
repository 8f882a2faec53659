//! Capability policy: the sandbox capabilities a source may use, their defaults,
//! tightening merge and the per-capability check.

use vstd::prelude::*;

verus! {

/// System-level sandbox capabilities (file system, environment, processes).
#[derive(Debug, Clone, Copy, PartialEq, Eq, Default, Structural)]
pub struct SystemCapabilities {
    /// File-system access.
    pub fs: bool,
    /// Environment-variable access.
    pub env: bool,
    /// Process operations.
    pub process: bool,
}

/// Policy capabilities: an installation grant or an execution sandbox boundary.
#[derive(Debug, Clone, Copy, PartialEq, Eq, Default, Structural)]
pub struct PolicyCapabilities {
    /// Network requests.
    pub network: bool,
    /// System-level capabilities.
    pub system: SystemCapabilities,
}

/// The sandbox of a source or of the whole application has the same shape as a policy.
pub type Sandbox = PolicyCapabilities;

/// A capability category.
#[derive(Debug, Clone, Copy, PartialEq, Eq, Structural)]
pub enum Capability {
    /// Network.
    Network,
    /// File system.
    Fs,
    /// Environment variables.
    Env,
    /// Processes.
    Process,
}

/// Error returned when a capability is not allowed.
#[derive(Debug, Clone, Copy, PartialEq, Eq, Structural)]
pub enum CapabilityError {
    /// The capability is blocked.
    Blocked(Capability),
}

/// Whether `caps` allows `cap`.
pub open spec fn allows(caps: PolicyCapabilities, cap: Capability) -> bool {
    match cap {
        Capability::Network => caps.network,
        Capability::Fs => caps.system.fs,
        Capability::Env => caps.system.env,
        Capability::Process => caps.system.process,
    }
}

/// Field-wise intersection of two capability sets.
pub open spec fn intersect(a: PolicyCapabilities, b: PolicyCapabilities) -> PolicyCapabilities {
    PolicyCapabilities {
        network: a.network && b.network,
        system: SystemCapabilities {
            fs: a.system.fs && b.system.fs,
            env: a.system.env && b.system.env,
            process: a.system.process && b.system.process,
        },
    }
}

/// `a` allows nothing that `b` does not allow.
pub open spec fn at_most(a: PolicyCapabilities, b: PolicyCapabilities) -> bool {
    forall|c: Capability| allows(a, c) ==> #[trigger] allows(b, c)
}

/// Default capabilities: network allowed; file system, environment and processes denied.
pub fn default_capabilities() -> (caps: PolicyCapabilities)
    ensures
        caps.network,
        !caps.system.fs,
        !caps.system.env,
        !caps.system.process,
{
    PolicyCapabilities {
        network: true,
        system: SystemCapabilities { fs: false, env: false, process: false },
    }
}

/// Merges global and source capabilities: the source can only tighten, so the result
/// allows exactly what both sides allow.
pub fn merge(global: &PolicyCapabilities, source: &PolicyCapabilities) -> (merged:
    PolicyCapabilities)
    ensures
        merged == intersect(*global, *source),
        forall|c: Capability| #[trigger] allows(merged, c) == (allows(*global, c) && allows(*source, c)),
{
    PolicyCapabilities {
        network: global.network && source.network,
        system: SystemCapabilities {
            fs: global.system.fs && source.system.fs,
            env: global.system.env && source.system.env,
            process: global.system.process && source.system.process,
        },
    }
}

/// Checks that `cap` is allowed by `caps`.
///
/// # Errors
///
/// [`CapabilityError::Blocked`] with the capability when it is not allowed.
pub fn check_capability(caps: &PolicyCapabilities, cap: Capability) -> (result: Result<
    (),
    CapabilityError,
>)
    ensures
        allows(*caps, cap) ==> result is Ok,
        !allows(*caps, cap) ==> result == Err::<(), CapabilityError>(CapabilityError::Blocked(cap)),
{
    let allowed = match cap {
        Capability::Network => caps.network,
        Capability::Fs => caps.system.fs,
        Capability::Env => caps.system.env,
        Capability::Process => caps.system.process,
    };
    if allowed {
        Ok(())
    } else {
        Err(CapabilityError::Blocked(cap))
    }
}

/// Merging is commutative.
pub proof fn law_merge_commutative(a: PolicyCapabilities, b: PolicyCapabilities)
    ensures
        intersect(a, b) == intersect(b, a),
{
}

/// Merging is associative.
pub proof fn law_merge_associative(a: PolicyCapabilities, b: PolicyCapabilities, c: PolicyCapabilities)
    ensures
        intersect(intersect(a, b), c) == intersect(a, intersect(b, c)),
{
}

/// Merging a capability set with itself changes nothing.
pub proof fn law_merge_idempotent(a: PolicyCapabilities)
    ensures
        intersect(a, a) == a,
{
}

/// A source can only tighten: the merge allows nothing that either side denies.
pub proof fn law_merge_only_tightens(global: PolicyCapabilities, source: PolicyCapabilities)
    ensures
        at_most(intersect(global, source), global),
        at_most(intersect(global, source), source),
{
}

/// The merge is the largest set allowed by both sides.
pub proof fn law_merge_is_greatest_lower_bound(
    global: PolicyCapabilities,
    source: PolicyCapabilities,
    other: PolicyCapabilities,
)
    requires
        at_most(other, global),
        at_most(other, source),
    ensures
        at_most(other, intersect(global, source)),
{
    assert forall|c: Capability| allows(other, c) implies #[trigger] allows(
        intersect(global, source),
        c,
    ) by {
        assert(allows(global, c));
        assert(allows(source, c));
    }
}

/// Under the default capabilities only the network check passes.
pub proof fn law_default_allows_only_network()
    ensures
        forall|c: Capability|
            #[trigger] allows(
                PolicyCapabilities {
                    network: true,
                    system: SystemCapabilities { fs: false, env: false, process: false },
                },
                c,
            ) <==> c == Capability::Network,
{
}

} // verus!
