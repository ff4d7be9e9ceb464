//! Resource limits for sandboxed execution.
use vstd::prelude::*;

verus! {

/// Resource limits for sandboxed execution.
#[derive(Debug, Clone, Copy)]
pub struct ResourceLimits {
    /// Maximum memory in bytes.
    pub max_memory_bytes: usize,
    /// Maximum fuel (instruction count proxy).
    pub max_fuel: u64,
    /// Timeout in seconds (via epoch interruption).
    pub timeout_seconds: u64,
    /// Maximum output size in bytes.
    pub max_output_bytes: usize,
}

/// The default limits: 512 MiB of memory, about a billion instructions,
/// 30 seconds, 1 MiB of output.
pub open spec fn default_limits() -> ResourceLimits {
    ResourceLimits {
        max_memory_bytes: 536_870_912usize,
        max_fuel: 1_000_000_000,
        timeout_seconds: 30,
        max_output_bytes: 1_048_576usize,
    }
}

/// The restricted limits: 64 MiB of memory, 100 million instructions,
/// 10 seconds, 256 KiB of output.
pub open spec fn restricted_limits() -> ResourceLimits {
    ResourceLimits {
        max_memory_bytes: 67_108_864usize,
        max_fuel: 100_000_000,
        timeout_seconds: 10,
        max_output_bytes: 262_144usize,
    }
}

impl Default for ResourceLimits {
    /// 512 MiB of memory, about a billion instructions, 30 seconds, 1 MiB of output.
    fn default() -> (r: Self)
        ensures
            r == default_limits(),
    {
        ResourceLimits {
            max_memory_bytes: 512 * 1024 * 1024,
            max_fuel: 1_000_000_000,
            timeout_seconds: 30,
            max_output_bytes: 1024 * 1024,
        }
    }
}

/// `a` allows no more of any resource than `b`.
pub open spec fn at_most(a: ResourceLimits, b: ResourceLimits) -> bool {
    &&& a.max_memory_bytes <= b.max_memory_bytes
    &&& a.max_fuel <= b.max_fuel
    &&& a.timeout_seconds <= b.timeout_seconds
    &&& a.max_output_bytes <= b.max_output_bytes
}

impl ResourceLimits {
    /// Tighter limits: 64 MiB of memory, 100 million instructions, 10 seconds,
    /// 256 KiB of output.
    pub fn restricted() -> (r: Self)
        ensures
            r == restricted_limits(),
    {
        ResourceLimits {
            max_memory_bytes: 64 * 1024 * 1024,
            max_fuel: 100_000_000,
            timeout_seconds: 10,
            max_output_bytes: 256 * 1024,
        }
    }
}

/// The restricted limits allow no more of any resource than the default ones.
pub proof fn restricted_within_default()
    ensures
        at_most(restricted_limits(), default_limits()),
{
}

/// The two sets of limits in numbers: 512 MiB against 64 MiB of memory,
/// 10^9 against 10^8 units of fuel, 30 against 10 seconds, and 1 MiB against
/// 256 KiB of output.
pub proof fn limit_values()
    ensures
        default_limits().max_memory_bytes == 512 * 1024 * 1024,
        default_limits().max_fuel == 1_000_000_000,
        default_limits().timeout_seconds == 30,
        default_limits().max_output_bytes == 1024 * 1024,
        restricted_limits().max_memory_bytes == 64 * 1024 * 1024,
        restricted_limits().max_fuel == 100_000_000,
        restricted_limits().timeout_seconds == 10,
        restricted_limits().max_output_bytes == 256 * 1024,
{
}

} // verus!
