//! What configurations are for: the pools that can be started, and the circuits that can join them.

use crate::config::{rejects, CircuitConfig, Layout, PoolConfigView};
use crate::error::{is_invalid, is_terminated, is_unsupported, Error, RuntimeError};
use vstd::prelude::*;

verus! {

/// A pool can be started with any number of threads but none, and with as many merger threads as
/// sixteen bits can tell, but not none.
pub proof fn law_pools_need_threads(config: PoolConfigView)
    ensures
        config.startable() <==> config.threads >= 1 && 1 <= config.merger_threads <= 65_535,
{
}

/// The runtime of a pool has the threads, the mergers, the memory and the CPUs that the pool was
/// given, and nothing else.
pub proof fn law_runtimes_are_as_their_pools(circuit: CircuitConfig, config: PoolConfigView)
    requires
        config.startable(),
        circuit.hosts(config),
    ensures
        circuit.layout == (Layout::Solo { n_workers: config.threads }),
        circuit.dev_tweaks.merger_threads is Some,
        circuit.dev_tweaks.merger_threads->0 == config.merger_threads,
        circuit.max_rss_bytes == config.max_rss_bytes,
        circuit.pin_cpus@ == config.pin_cpus,
        circuit.exchange_listener is None,
        circuit.storage is None,
        circuit.dev_tweaks.buffer_cache_strategy is None,
        circuit.dev_tweaks.buffer_max_buckets is None,
        circuit.dev_tweaks.buffer_cache_allocation_strategy is None,
        circuit.dev_tweaks.fbuf_slab_bytes_per_class is None,
{
}

/// A circuit can join a pool exactly if it has one worker on one host, leaves to the pool what is
/// the pool's, and starts from nothing: each single setting of these stands in its way, and no
/// other does.
pub proof fn law_circuits_can_join(config: CircuitConfig)
    ensures
        config.poolable() <==> {
            &&& config.layout == (Layout::Solo { n_workers: 1 })
            &&& config.max_rss_bytes is None
            &&& config.pin_cpus@.len() == 0
            &&& config.exchange_listener is None
            &&& config.dev_tweaks.merger_threads is None
            &&& config.dev_tweaks.buffer_cache_strategy is None
            &&& config.dev_tweaks.buffer_max_buckets is None
            &&& config.dev_tweaks.buffer_cache_allocation_strategy is None
            &&& config.dev_tweaks.fbuf_slab_bytes_per_class is None
            &&& match config.storage {
                None => true,
                Some(storage) => {
                    &&& storage.options.cache_mib is None
                    &&& storage.init_checkpoint is None
                    &&& !storage.defer_restore
                },
            }
        },
{
}

/// What has no bearing on the pool has none on whether a circuit can join: where it spills its
/// state, and from what size on.
pub proof fn law_spilling_is_no_obstacle(config: CircuitConfig, other: CircuitConfig)
    requires
        config.storage is Some,
        other.storage is Some,
        other == (CircuitConfig { storage: other.storage, ..config }),
        other.storage->0.options.cache_mib == config.storage->0.options.cache_mib,
        other.storage->0.init_checkpoint == config.storage->0.init_checkpoint,
        other.storage->0.defer_restore == config.storage->0.defer_restore,
    ensures
        other.poolable() == config.poolable(),
{
}

/// A circuit that cannot join is told the first reason of three: its layout, the resources that
/// are the pool's, and the checkpoint from which it would start.
pub proof fn law_the_first_reason_is_given<E>(config: CircuitConfig, error: Error<E>)
    requires
        rejects(config, error),
        !config.poolable(),
    ensures
        if config.layout != (Layout::Solo { n_workers: 1 }) {
            is_invalid(
                error,
                "pooled circuits require a single-host layout with exactly one worker"@,
            )
        } else if config.max_rss_bytes is Some || config.pin_cpus@.len() > 0
            || config.exchange_listener is Some || config.dev_tweaks.merger_threads is Some
            || config.dev_tweaks.buffer_cache_strategy is Some
            || config.dev_tweaks.buffer_max_buckets is Some
            || config.dev_tweaks.buffer_cache_allocation_strategy is Some
            || config.dev_tweaks.fbuf_slab_bytes_per_class is Some || (config.storage is Some
            && config.storage->0.options.cache_mib is Some) {
            is_invalid(
                error,
                "configure thread, memory, cache and allocator resources on the pool"@,
            )
        } else {
            is_unsupported(error, "checkpoint restore and bootstrap"@)
        },
{
}

/// Errors are told apart: one rejects a configuration, or an operation, or says that the pool has
/// stopped, and not two of these; and it has one reason.
pub proof fn law_errors_are_told_apart<E>(error: Error<E>, text: Seq<char>, other: Seq<char>)
    ensures
        is_invalid(error, text) ==> !is_unsupported(error, other) && !is_terminated(error),
        is_unsupported(error, text) ==> !is_terminated(error),
        is_invalid(error, text) && is_invalid(error, other) ==> text == other,
        is_unsupported(error, text) && is_unsupported(error, other) ==> text == other,
        is_invalid(error, text) ==> error matches Error::Runtime(
            RuntimeError::InvalidPoolConfig(_),
        ),
        is_unsupported(error, text) ==> error matches Error::Runtime(
            RuntimeError::UnsupportedPoolOperation(_),
        ),
        is_terminated(error) ==> error matches Error::Runtime(RuntimeError::Terminated),
{
}

} // verus!
