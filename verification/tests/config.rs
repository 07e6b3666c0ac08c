use runtime_pool::config::{
    validate, CircuitStorageConfig, DevTweaks, Layout, StorageOptions,
};
use runtime_pool::error::{constructed, invalid, terminated, unsupported};
use runtime_pool::{CircuitConfig, ConstructorError, PoolConfig, RuntimeError, RuntimePool};

type Error = runtime_pool::Error<String>;

const LAYOUT: &str = "pooled circuits require a single-host layout with exactly one worker";
const RESOURCES: &str = "configure thread, memory, cache and allocator resources on the pool";
const RESTORE: &str = "checkpoint restore and bootstrap";
const THREADS: &str =
    "foreground/merger thread counts must be positive and merger threads must fit u16";

fn single() -> CircuitConfig {
    CircuitConfig::with_workers(1)
}

fn tweaked(dev_tweaks: DevTweaks) -> CircuitConfig {
    CircuitConfig { dev_tweaks, ..single() }
}

fn stored(storage: CircuitStorageConfig) -> CircuitConfig {
    single().with_storage(Some(storage))
}

#[test]
fn pool_config_has_defaults_and_setters() {
    let (pool, launch) = RuntimePool::start::<String>(PoolConfig::with_threads(3)).unwrap();
    assert_eq!(pool.stats().foreground_threads, 3);
    assert_eq!(pool.stats().merger_threads, 3);
    assert_eq!(launch.circuit.dev_tweaks.merger_threads, Some(3));
    assert_eq!(launch.cache_mib, 256);
    assert_eq!(launch.circuit.max_rss_bytes, None);
    assert!(launch.circuit.pin_cpus.is_empty());
    let config = PoolConfig::with_threads(3)
        .with_merger_threads(2)
        .with_cache_mib(8)
        .with_max_rss_bytes(Some(1 << 30))
        .with_pin_cpus(vec![4, 5]);
    let (pool, launch) = RuntimePool::start::<String>(config).unwrap();
    assert_eq!(pool.stats().foreground_threads, 3);
    assert_eq!(pool.stats().merger_threads, 2);
    assert_eq!(launch.circuit.dev_tweaks.merger_threads, Some(2));
    assert_eq!(launch.cache_mib, 8);
    assert_eq!(launch.circuit.max_rss_bytes, Some(1 << 30));
    assert_eq!(launch.circuit.pin_cpus, vec![4, 5]);
}

#[test]
fn pools_need_threads_and_mergers_that_fit() {
    for config in [
        PoolConfig::with_threads(0),
        PoolConfig::with_threads(0).with_merger_threads(1),
        PoolConfig::with_threads(1).with_merger_threads(0),
        PoolConfig::with_threads(1).with_merger_threads(65_536),
    ] {
        assert_eq!(RuntimePool::start::<String>(config).err(), Some(invalid(THREADS)));
    }
    let most = PoolConfig::with_threads(1).with_merger_threads(65_535);
    assert!(RuntimePool::start::<String>(most).is_ok());
}

#[test]
fn launch_hands_the_pool_limits_to_its_runtime() {
    let config = PoolConfig::with_threads(2)
        .with_merger_threads(65_535)
        .with_cache_mib(16)
        .with_max_rss_bytes(Some(77))
        .with_pin_cpus(vec![1, 3]);
    let (pool, launch) = RuntimePool::start::<String>(config).unwrap();
    assert_eq!(launch.cache_mib, 16);
    assert_eq!(launch.mailboxes.len(), 2);
    assert_eq!(launch.circuit.layout, Layout::Solo { n_workers: 2 });
    assert_eq!(launch.circuit.max_rss_bytes, Some(77));
    assert_eq!(launch.circuit.pin_cpus, vec![1, 3]);
    assert_eq!(launch.circuit.dev_tweaks.merger_threads, Some(65_535));
    assert!(launch.circuit.storage.is_none());
    assert_eq!(pool.stats().merger_threads, 65_535);
}

#[test]
fn plain_and_spilling_circuits_are_poolable() {
    assert_eq!(validate::<String>(&single()), Ok(()));
    let storage = CircuitStorageConfig {
        path: "state".to_string(),
        options: StorageOptions {
            min_storage_bytes: Some(0),
            min_step_storage_bytes: Some(0),
            cache_mib: None,
        },
        ..CircuitStorageConfig::default()
    };
    assert_eq!(validate::<String>(&stored(storage)), Ok(()));
}

#[test]
fn circuits_need_one_worker_on_one_host() {
    for config in [
        CircuitConfig::with_workers(0),
        CircuitConfig::with_workers(2),
        CircuitConfig { layout: Layout::Multihost { n_workers: 1 }, ..single() },
    ] {
        assert_eq!(validate::<String>(&config), Err(invalid(LAYOUT)));
    }
}

#[test]
fn circuits_leave_resources_to_the_pool() {
    let options = StorageOptions { cache_mib: Some(1), ..StorageOptions::default() };
    for config in [
        single().with_max_rss_bytes(Some(1024)),
        single().with_pin_cpus(vec![0]),
        CircuitConfig { exchange_listener: Some("localhost:1".to_string()), ..single() },
        tweaked(DevTweaks { merger_threads: Some(1), ..DevTweaks::default() }),
        tweaked(DevTweaks {
            buffer_cache_strategy: Some("lru".to_string()),
            ..DevTweaks::default()
        }),
        tweaked(DevTweaks { buffer_max_buckets: Some(1), ..DevTweaks::default() }),
        tweaked(DevTweaks {
            buffer_cache_allocation_strategy: Some("shared".to_string()),
            ..DevTweaks::default()
        }),
        tweaked(DevTweaks { fbuf_slab_bytes_per_class: Some(1), ..DevTweaks::default() }),
        stored(CircuitStorageConfig { options, ..CircuitStorageConfig::default() }),
    ] {
        assert_eq!(validate::<String>(&config), Err(invalid(RESOURCES)));
    }
}

#[test]
fn circuits_do_not_start_from_checkpoints() {
    for storage in [
        CircuitStorageConfig {
            init_checkpoint: Some("c".to_string()),
            ..CircuitStorageConfig::default()
        },
        CircuitStorageConfig { defer_restore: true, ..CircuitStorageConfig::default() },
    ] {
        assert_eq!(validate::<String>(&stored(storage)), Err(unsupported(RESTORE)));
    }
}

#[test]
fn the_first_reason_is_given() {
    let storage = CircuitStorageConfig { defer_restore: true, ..CircuitStorageConfig::default() };
    let restoring = stored(storage).with_max_rss_bytes(Some(1));
    assert_eq!(validate::<String>(&restoring), Err(invalid(RESOURCES)));
    let wide = CircuitConfig { layout: Layout::Solo { n_workers: 2 }, ..restoring };
    assert_eq!(validate::<String>(&wide), Err(invalid(LAYOUT)));
}

#[test]
fn errors_carry_their_reasons() {
    let reason = "because".to_string();
    assert_eq!(
        invalid("because"),
        Error::Runtime(RuntimeError::InvalidPoolConfig(reason.clone()))
    );
    assert_eq!(
        unsupported("because"),
        Error::Runtime(RuntimeError::UnsupportedPoolOperation(reason.clone()))
    );
    assert_eq!(terminated::<String>(), Error::Runtime(RuntimeError::Terminated));
    assert_eq!(constructed::<u8, String>(Some(Ok(3))), Ok(3));
    assert_eq!(
        constructed::<u8, String>(Some(Err(reason.clone()))),
        Err(Error::Constructor(ConstructorError::Failed(reason)))
    );
    let panicked = "circuit constructor panicked; pool terminated".to_string();
    assert_eq!(
        constructed::<u8, String>(None),
        Err(Error::Constructor(ConstructorError::Panicked(panicked)))
    );
}
