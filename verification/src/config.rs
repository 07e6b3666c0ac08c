//! Configuration of a pool and of the circuits that join it.

use crate::error::{invalid, is_invalid, is_unsupported, unsupported, Error};
use vstd::prelude::*;

verus! {

/// Physical resources shared by all circuits attached to a pool.
#[derive(Clone, Debug)]
pub struct PoolConfig {
    threads: usize,
    merger_threads: usize,
    cache_mib: usize,
    max_rss_bytes: Option<u64>,
    pin_cpus: Vec<usize>,
}

/// A [`PoolConfig`] as contracts see it.
#[verifier::ext_equal]
pub struct PoolConfigView {
    /// Foreground threads.
    pub threads: usize,
    /// Merger threads.
    pub merger_threads: usize,
    /// Total buffer-cache budget, in MiB.
    pub cache_mib: usize,
    /// Process RSS limit for the memory-pressure monitor.
    pub max_rss_bytes: Option<u64>,
    /// CPUs to which the pool's threads are pinned.
    pub pin_cpus: Seq<usize>,
}

impl View for PoolConfig {
    type V = PoolConfigView;

    closed spec fn view(&self) -> PoolConfigView {
        PoolConfigView {
            threads: self.threads,
            merger_threads: self.merger_threads,
            cache_mib: self.cache_mib,
            max_rss_bytes: self.max_rss_bytes,
            pin_cpus: self.pin_cpus@,
        }
    }
}

impl PoolConfigView {
    /// Whether a pool can be started with this configuration.
    pub open spec fn startable(self) -> bool {
        self.threads > 0 && 0 < self.merger_threads <= u16::MAX
    }
}

impl PoolConfig {
    /// Create a pool configuration with `threads` foreground and merger threads.
    pub fn with_threads(threads: usize) -> (config: Self)
        ensures
            config@ == (PoolConfigView {
                threads,
                merger_threads: threads,
                cache_mib: 256,
                max_rss_bytes: None,
                pin_cpus: Seq::<usize>::empty(),
            }),
    {
        PoolConfig {
            threads,
            merger_threads: threads,
            cache_mib: 256,
            max_rss_bytes: None,
            pin_cpus: Vec::new(),
        }
    }

    /// Set the shared merger thread count.
    pub fn with_merger_threads(self, threads: usize) -> (config: Self)
        ensures
            config@ == (PoolConfigView { merger_threads: threads, ..self@ }),
    {
        let mut config = self;
        config.merger_threads = threads;
        config
    }

    /// Set the total foreground/background buffer-cache budget in MiB.
    pub fn with_cache_mib(self, mib: usize) -> (config: Self)
        ensures
            config@ == (PoolConfigView { cache_mib: mib, ..self@ }),
    {
        let mut config = self;
        config.cache_mib = mib;
        config
    }

    /// Set the process RSS limit used by the shared memory-pressure monitor.
    pub fn with_max_rss_bytes(self, bytes: Option<u64>) -> (config: Self)
        ensures
            config@ == (PoolConfigView { max_rss_bytes: bytes, ..self@ }),
    {
        let mut config = self;
        config.max_rss_bytes = bytes;
        config
    }

    /// Pin physical foreground and merger threads to the given CPUs.
    pub fn with_pin_cpus(self, cpus: Vec<usize>) -> (config: Self)
        ensures
            config@ == (PoolConfigView { pin_cpus: cpus@, ..self@ }),
    {
        let mut config = self;
        config.pin_cpus = cpus;
        config
    }

    /// The number of foreground threads.
    pub(crate) fn threads(&self) -> (threads: usize)
        ensures
            threads == self@.threads,
    {
        self.threads
    }

    /// The number of merger threads.
    pub(crate) fn merger_threads(&self) -> (threads: usize)
        ensures
            threads == self@.merger_threads,
    {
        self.merger_threads
    }

    /// The total buffer-cache budget in MiB.
    pub(crate) fn cache_mib(&self) -> (mib: usize)
        ensures
            mib == self@.cache_mib,
    {
        self.cache_mib
    }

    /// The configuration of a runtime that has these threads and limits, and leaves everything
    /// else open.
    pub(crate) fn circuit(&self) -> (circuit: CircuitConfig)
        requires
            self@.startable(),
        ensures
            circuit.hosts(self@),
    {
        let mut circuit = CircuitConfig::with_workers(self.threads).with_max_rss_bytes(
            self.max_rss_bytes,
        ).with_pin_cpus(self.pin_cpus.clone());
        circuit.dev_tweaks.merger_threads = Some(self.merger_threads as u16);
        circuit
    }
}

/// Where the workers of a circuit run.
#[derive(Clone, Copy, Debug, PartialEq, Eq, Structural)]
pub enum Layout {
    /// All on this host.
    Solo { n_workers: usize },
    /// On several hosts.
    Multihost { n_workers: usize },
}

/// Overrides of the runtime's resource policies. Only `merger_threads` is read by value; of the
/// others it matters whether they are set.
#[derive(Clone, Debug, Default)]
pub struct DevTweaks {
    pub merger_threads: Option<u16>,
    pub buffer_cache_strategy: Option<String>,
    pub buffer_max_buckets: Option<usize>,
    pub buffer_cache_allocation_strategy: Option<String>,
    pub fbuf_slab_bytes_per_class: Option<usize>,
}

/// Options of a storage backend.
#[derive(Clone, Debug, Default)]
pub struct StorageOptions {
    pub cache_mib: Option<usize>,
    pub min_storage_bytes: Option<usize>,
    pub min_step_storage_bytes: Option<usize>,
}

/// Where a circuit spills its state, and from what it starts.
#[derive(Clone, Debug, Default)]
pub struct CircuitStorageConfig {
    pub path: String,
    pub options: StorageOptions,
    /// The checkpoint to restore first.
    pub init_checkpoint: Option<String>,
    /// Restore later, on command.
    pub defer_restore: bool,
}

/// Configuration of one circuit.
#[derive(Clone, Debug)]
pub struct CircuitConfig {
    pub layout: Layout,
    pub max_rss_bytes: Option<u64>,
    pub pin_cpus: Vec<usize>,
    /// The address on which exchange between hosts listens.
    pub exchange_listener: Option<String>,
    pub dev_tweaks: DevTweaks,
    pub storage: Option<CircuitStorageConfig>,
}

impl CircuitConfig {
    /// A configuration for `n_workers` workers on this host, with everything else left open.
    pub fn with_workers(n_workers: usize) -> (config: Self)
        ensures
            config.layout == (Layout::Solo { n_workers }),
            config.pin_cpus@ == Seq::<usize>::empty(),
            config.storage is None,
            !config.claims_pool_resources(),
            config.poolable() <==> n_workers == 1,
    {
        CircuitConfig {
            layout: Layout::Solo { n_workers },
            max_rss_bytes: None,
            pin_cpus: Vec::new(),
            exchange_listener: None,
            dev_tweaks: DevTweaks {
                merger_threads: None,
                buffer_cache_strategy: None,
                buffer_max_buckets: None,
                buffer_cache_allocation_strategy: None,
                fbuf_slab_bytes_per_class: None,
            },
            storage: None,
        }
    }

    /// Set the RSS limit.
    pub fn with_max_rss_bytes(self, bytes: Option<u64>) -> (config: Self)
        ensures
            config == (CircuitConfig { max_rss_bytes: bytes, ..self }),
    {
        let mut config = self;
        config.max_rss_bytes = bytes;
        config
    }

    /// Set the CPUs to pin to.
    pub fn with_pin_cpus(self, cpus: Vec<usize>) -> (config: Self)
        ensures
            config == (CircuitConfig { pin_cpus: cpus, ..self }),
    {
        let mut config = self;
        config.pin_cpus = cpus;
        config
    }

    /// Set the storage.
    pub fn with_storage(self, storage: Option<CircuitStorageConfig>) -> (config: Self)
        ensures
            config == (CircuitConfig { storage, ..self }),
    {
        let mut config = self;
        config.storage = storage;
        config
    }

    /// The runtime has the pool's threads and limits, and nothing else is set.
    pub open spec fn hosts(self, config: PoolConfigView) -> bool {
        &&& self.layout == (Layout::Solo { n_workers: config.threads })
        &&& self.max_rss_bytes == config.max_rss_bytes
        &&& self.pin_cpus@ == config.pin_cpus
        &&& self.exchange_listener is None
        &&& self.dev_tweaks.merger_threads == Some(config.merger_threads as u16)
        &&& self.dev_tweaks.buffer_cache_strategy is None
        &&& self.dev_tweaks.buffer_max_buckets is None
        &&& self.dev_tweaks.buffer_cache_allocation_strategy is None
        &&& self.dev_tweaks.fbuf_slab_bytes_per_class is None
        &&& self.storage is None
    }

    /// One worker, on one host.
    pub open spec fn single_worker(self) -> bool {
        self.layout == (Layout::Solo { n_workers: 1 })
    }

    /// Something is set here that the pool decides for all its circuits: threads, memory, caches
    /// and allocators.
    pub open spec fn claims_pool_resources(self) -> bool {
        ||| self.max_rss_bytes is Some
        ||| self.pin_cpus@.len() > 0
        ||| self.exchange_listener is Some
        ||| self.dev_tweaks.merger_threads is Some
        ||| self.dev_tweaks.buffer_cache_strategy is Some
        ||| self.dev_tweaks.buffer_max_buckets is Some
        ||| self.dev_tweaks.buffer_cache_allocation_strategy is Some
        ||| self.dev_tweaks.fbuf_slab_bytes_per_class is Some
        ||| (self.storage matches Some(storage) && storage.options.cache_mib is Some)
    }

    /// The circuit would start from a checkpoint, now or later.
    pub open spec fn restores(self) -> bool {
        self.storage matches Some(storage) && (storage.init_checkpoint is Some
            || storage.defer_restore)
    }

    /// Whether a circuit so configured can join a pool.
    pub open spec fn poolable(self) -> bool {
        self.single_worker() && !self.claims_pool_resources() && !self.restores()
    }
}

/// Check that a circuit can join a pool.
///
/// Of several reasons against it, the first of these is given: its layout, the resources it
/// claims, the checkpoint it restores.
pub fn validate<E>(config: &CircuitConfig) -> (checked: Result<(), Error<E>>)
    ensures
        checked is Ok <==> config.poolable(),
        checked matches Err(error) ==> rejects(*config, error),
{
    let solo = match config.layout {
        Layout::Solo { n_workers } => n_workers == 1,
        Layout::Multihost { n_workers } => false,
    };
    if !solo {
        return Err(
            invalid("pooled circuits require a single-host layout with exactly one worker"),
        );
    }
    let cache_budget = match &config.storage {
        Some(storage) => storage.options.cache_mib.is_some(),
        None => false,
    };
    let tweaks = &config.dev_tweaks;
    if config.max_rss_bytes.is_some() || config.pin_cpus.len() > 0
        || config.exchange_listener.is_some() || tweaks.merger_threads.is_some()
        || tweaks.buffer_cache_strategy.is_some() || tweaks.buffer_max_buckets.is_some()
        || tweaks.buffer_cache_allocation_strategy.is_some()
        || tweaks.fbuf_slab_bytes_per_class.is_some() || cache_budget {
        return Err(invalid("configure thread, memory, cache and allocator resources on the pool"));
    }
    let restore = match &config.storage {
        Some(storage) => storage.init_checkpoint.is_some() || storage.defer_restore,
        None => false,
    };
    if restore {
        return Err(unsupported("checkpoint restore and bootstrap"));
    }
    Ok(())
}

/// `error` is the reason for which a circuit with this configuration cannot join a pool.
pub open spec fn rejects<E>(config: CircuitConfig, error: Error<E>) -> bool {
    if !config.single_worker() {
        is_invalid(
            error,
            "pooled circuits require a single-host layout with exactly one worker"@,
        )
    } else if config.claims_pool_resources() {
        is_invalid(
            error,
            "configure thread, memory, cache and allocator resources on the pool"@,
        )
    } else {
        is_unsupported(error, "checkpoint restore and bootstrap"@)
    }
}

} // verus!
