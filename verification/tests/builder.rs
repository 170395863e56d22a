use thetadatadx::builder::{HostSelectionPolicy, ReconnectConfig, StreamingClientBuilder, StreamingConfig};

fn streaming_config() -> StreamingConfig {
    StreamingConfig {
        ring_size: 131_072,
        connect_timeout_ms: 2_000,
        timeout_ms: 10_000,
        ping_interval_ms: 100,
        io_read_slice_ms: 50,
        keepalive_idle_secs: 5,
        keepalive_interval_secs: 2,
        keepalive_retries: 2,
        host_selection: HostSelectionPolicy::Shuffled,
        host_shuffle_seed: None,
        consumer_cpu: None,
    }
}

fn reconnect_config() -> ReconnectConfig {
    ReconnectConfig {
        wait_ms: 1_000,
        wait_max_ms: 30_000,
        wait_rate_limited_ms: 130_000,
        wait_server_restart_ms: 5_000,
        replay_burst_size: 64,
        replay_pace_ms: 10,
    }
}

#[test]
fn builder_seeds_timing_defaults_from_production_config() {
    let creds = ("user", "pw");
    let hosts: Vec<(String, u16)> = vec![("nj-a.thetadata.us".to_owned(), 20000)];
    let fpss = streaming_config();
    let reconnect = reconnect_config();
    let args = StreamingClientBuilder::new(&creds, &hosts, &fpss, &reconnect).into_args();
    assert_eq!(args.connect_timeout_ms, fpss.connect_timeout_ms);
    assert_eq!(args.read_timeout_ms, fpss.timeout_ms);
    assert_eq!(args.ping_interval_ms, fpss.ping_interval_ms);
    assert_eq!(args.io_read_slice_ms, fpss.io_read_slice_ms);
    assert_eq!(args.keepalive_idle_secs, fpss.keepalive_idle_secs);
    assert_eq!(args.keepalive_interval_secs, fpss.keepalive_interval_secs);
    assert_eq!(args.keepalive_retries, fpss.keepalive_retries);
    assert_eq!(args.host_selection, fpss.host_selection);
    assert_eq!(args.host_shuffle_seed, fpss.host_shuffle_seed);
    assert_eq!(args.wait_ms, reconnect.wait_ms);
    assert_eq!(args.wait_max_ms, reconnect.wait_max_ms);
    assert_eq!(args.wait_rate_limited_ms, reconnect.wait_rate_limited_ms);
    assert_eq!(args.wait_server_restart_ms, reconnect.wait_server_restart_ms);
    assert_eq!(args.replay_burst_size, reconnect.replay_burst_size);
    assert_eq!(args.replay_pace_ms, reconnect.replay_pace_ms);
    assert_eq!(args.consumer_cpu, fpss.consumer_cpu);
    assert_eq!(args.hosts, &hosts[..]);
    assert_eq!(*args.creds, creds);
}

#[test]
fn builder_ring_size_default_matches_production_config() {
    let creds = ("user", "pw");
    let hosts: Vec<(String, u16)> = vec![("nj-a.thetadata.us".to_owned(), 20000)];
    let fpss = streaming_config();
    let args = StreamingClientBuilder::new(&creds, &hosts, &fpss, &reconnect_config()).into_args();
    assert_eq!(
        args.ring_size, fpss.ring_size,
        "builder default ring size must track production config default"
    );
}

#[test]
fn production_config_threads_timing_knobs_through_builder() {
    let creds = ("user", "pw");
    let hosts: Vec<(String, u16)> = vec![
        ("nj-a.thetadata.us".to_owned(), 20000),
        ("nj-a.thetadata.us".to_owned(), 20001),
    ];
    let streaming = streaming_config();
    let reconnect = reconnect_config();
    let args = StreamingClientBuilder::new(&creds, &hosts, &streaming, &reconnect)
        .ring_size(8_192)
        .reconnect_wait_ms(2_000)
        .reconnect_wait_rate_limited_ms(140_000)
        .connect_timeout_ms(3_000)
        .read_timeout_ms(15_000)
        .ping_interval_ms(250)
        .into_args();
    assert_eq!(args.connect_timeout_ms, 3_000);
    assert_eq!(args.read_timeout_ms, 15_000);
    assert_eq!(args.ping_interval_ms, 250);
    assert_eq!(args.ring_size, 8_192);
    assert_eq!(args.wait_ms, 2_000);
    assert_eq!(args.wait_rate_limited_ms, 140_000);
    // Knobs no setter touched keep their seeded values.
    assert_eq!(args.wait_max_ms, reconnect.wait_max_ms);
    assert_eq!(args.keepalive_idle_secs, streaming.keepalive_idle_secs);
}

#[test]
fn every_setter_replaces_only_its_own_knob() {
    let creds = ();
    let hosts: Vec<(String, u16)> = vec![];
    let args = StreamingClientBuilder::new(&creds, &hosts, &streaming_config(), &reconnect_config())
        .consumer_cpu(Some(3))
        .reconnect_wait_max_ms(1)
        .reconnect_wait_server_restart_ms(2)
        .reconnect_replay_burst_size(3)
        .reconnect_replay_pace_ms(4)
        .io_read_slice_ms(5)
        .keepalive_idle_secs(6)
        .keepalive_interval_secs(7)
        .keepalive_retries(8)
        .host_selection(HostSelectionPolicy::FixedOrder)
        .host_shuffle_seed(Some(9))
        .into_args();
    assert_eq!(args.consumer_cpu, Some(3));
    assert_eq!(args.wait_max_ms, 1);
    assert_eq!(args.wait_server_restart_ms, 2);
    assert_eq!(args.replay_burst_size, 3);
    assert_eq!(args.replay_pace_ms, 4);
    assert_eq!(args.io_read_slice_ms, 5);
    assert_eq!(args.keepalive_idle_secs, 6);
    assert_eq!(args.keepalive_interval_secs, 7);
    assert_eq!(args.keepalive_retries, 8);
    assert_eq!(args.host_selection, HostSelectionPolicy::FixedOrder);
    assert_eq!(args.host_shuffle_seed, Some(9));
    assert_eq!(args.ring_size, 131_072);
    assert_eq!(args.wait_ms, 1_000);
}

#[test]
fn host_selection_defaults_to_shuffled() {
    assert_eq!(HostSelectionPolicy::default(), HostSelectionPolicy::Shuffled);
}

#[test]
fn replay_burst_size_is_clamped_to_at_least_one() {
    let creds = ();
    let hosts: Vec<(String, u16)> = vec![];
    let mut reconnect = reconnect_config();
    reconnect.replay_burst_size = 0;
    let seeded = StreamingClientBuilder::new(&creds, &hosts, &streaming_config(), &reconnect);
    assert_eq!(seeded.clone().into_args().replay_burst_size, 1);
    assert_eq!(seeded.clone().reconnect_replay_burst_size(0).into_args().replay_burst_size, 1);
    assert_eq!(seeded.reconnect_replay_burst_size(7).into_args().replay_burst_size, 7);
}
