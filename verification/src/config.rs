//! VM configuration.
use vstd::prelude::*;

verus! {

/// Binary size limit and gas prices.
#[derive(Clone, Debug, Eq, PartialEq)]
pub struct VmConfig {
    pub max_binary_size: usize,
    pub call_base_gas: u64,
    pub publish_base_gas: u64,
    pub publish_per_byte_gas: u64,
    pub read_per_byte_gas: u64,
    pub write_per_byte_gas: u64,
}

impl Default for VmConfig {
    fn default() -> (r: Self)
        ensures
            r.max_binary_size == 524_288,
            r.call_base_gas == 5_000,
            r.publish_base_gas == 10_000,
            r.publish_per_byte_gas == 1,
            r.read_per_byte_gas == 1,
            r.write_per_byte_gas == 5,
    {
        VmConfig {
            max_binary_size: 524_288,
            call_base_gas: 5_000,
            publish_base_gas: 10_000,
            publish_per_byte_gas: 1,
            read_per_byte_gas: 1,
            write_per_byte_gas: 5,
        }
    }
}

impl VmConfig {
    /// Smaller limits and base prices for tests.
    pub fn for_testing() -> (r: Self)
        ensures
            r.max_binary_size == 65_536,
            r.call_base_gas == 1_000,
            r.publish_base_gas == 2_000,
            r.publish_per_byte_gas == 1,
            r.read_per_byte_gas == 1,
            r.write_per_byte_gas == 5,
    {
        VmConfig {
            max_binary_size: 65_536,
            call_base_gas: 1_000,
            publish_base_gas: 2_000,
            publish_per_byte_gas: 1,
            read_per_byte_gas: 1,
            write_per_byte_gas: 5,
        }
    }
}

} // verus!
