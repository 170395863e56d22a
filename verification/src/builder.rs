//! Fluent construction of the streaming client's connection settings.
//!
//! A builder starts from the streaming and reconnect sub-configurations,
//! every optional setter replaces exactly one knob, and the finished
//! settings come out as one [`FpssConnectArgs`] bundle for the connect path.

use vstd::prelude::*;

verus! {

/// Host-ordering policy for connect and failover.
#[derive(Clone, Copy, Debug, PartialEq, Eq, Structural)]
pub enum HostSelectionPolicy {
    /// Keep the declared host order.
    FixedOrder,
    /// Group hosts by hostname, shuffle with a seed, interleave the groups.
    Shuffled,
}

impl Default for HostSelectionPolicy {
    fn default() -> (policy: Self)
        ensures
            policy == HostSelectionPolicy::Shuffled,
    {
        HostSelectionPolicy::Shuffled
    }
}

/// Streaming-transport knobs a builder is seeded from.
#[derive(Clone, Copy, Debug, PartialEq, Eq)]
pub struct StreamingConfig {
    pub ring_size: usize,
    pub connect_timeout_ms: u64,
    pub timeout_ms: u64,
    pub ping_interval_ms: u64,
    pub io_read_slice_ms: u64,
    pub keepalive_idle_secs: u64,
    pub keepalive_interval_secs: u64,
    pub keepalive_retries: u32,
    pub host_selection: HostSelectionPolicy,
    pub host_shuffle_seed: Option<u64>,
    pub consumer_cpu: Option<usize>,
}

/// Reconnect knobs a builder is seeded from.
#[derive(Clone, Copy, Debug, PartialEq, Eq)]
pub struct ReconnectConfig {
    pub wait_ms: u64,
    pub wait_max_ms: u64,
    pub wait_rate_limited_ms: u64,
    pub wait_server_restart_ms: u64,
    pub replay_burst_size: u32,
    pub replay_pace_ms: u64,
}

/// Every connection-side setting, bundled for the connect path.
#[derive(Clone, Debug)]
pub struct FpssConnectArgs<'a, C> {
    pub creds: &'a C,
    pub hosts: &'a [(String, u16)],
    pub ring_size: usize,
    pub wait_ms: u64,
    pub wait_max_ms: u64,
    pub wait_rate_limited_ms: u64,
    pub wait_server_restart_ms: u64,
    pub replay_burst_size: u32,
    pub replay_pace_ms: u64,
    pub connect_timeout_ms: u64,
    pub read_timeout_ms: u64,
    pub ping_interval_ms: u64,
    pub io_read_slice_ms: u64,
    pub keepalive_idle_secs: u64,
    pub keepalive_interval_secs: u64,
    pub keepalive_retries: u32,
    pub host_selection: HostSelectionPolicy,
    pub host_shuffle_seed: Option<u64>,
    pub consumer_cpu: Option<usize>,
}

/// A replay burst of `n` frames, clamped to a minimum of one.
pub open spec fn at_least_one(n: u32) -> u32 {
    if n == 0 {
        1
    } else {
        n
    }
}

/// Clamp a replay burst size to a minimum of one frame.
pub fn clamp_burst(n: u32) -> (r: u32)
    ensures
        r == at_least_one(n),
{
    if n == 0 {
        1
    } else {
        n
    }
}

/// The settings a fresh builder holds: the credentials and hosts as given,
/// each other knob from the sub-configuration that owns it (the replay
/// burst clamped to a minimum of one).
pub open spec fn seeded_args<'a, C>(
    creds: &'a C,
    hosts: &'a [(String, u16)],
    streaming: StreamingConfig,
    reconnect: ReconnectConfig,
) -> FpssConnectArgs<'a, C> {
    FpssConnectArgs {
        creds,
        hosts,
        ring_size: streaming.ring_size,
        wait_ms: reconnect.wait_ms,
        wait_max_ms: reconnect.wait_max_ms,
        wait_rate_limited_ms: reconnect.wait_rate_limited_ms,
        wait_server_restart_ms: reconnect.wait_server_restart_ms,
        replay_burst_size: at_least_one(reconnect.replay_burst_size),
        replay_pace_ms: reconnect.replay_pace_ms,
        connect_timeout_ms: streaming.connect_timeout_ms,
        read_timeout_ms: streaming.timeout_ms,
        ping_interval_ms: streaming.ping_interval_ms,
        io_read_slice_ms: streaming.io_read_slice_ms,
        keepalive_idle_secs: streaming.keepalive_idle_secs,
        keepalive_interval_secs: streaming.keepalive_interval_secs,
        keepalive_retries: streaming.keepalive_retries,
        host_selection: streaming.host_selection,
        host_shuffle_seed: streaming.host_shuffle_seed,
        consumer_cpu: streaming.consumer_cpu,
    }
}

/// Fluent builder for a streaming client's connection settings.
#[derive(Clone, Debug)]
pub struct StreamingClientBuilder<'a, C> {
    args: FpssConnectArgs<'a, C>,
}

impl<'a, C> View for StreamingClientBuilder<'a, C> {
    type V = FpssConnectArgs<'a, C>;

    closed spec fn view(&self) -> FpssConnectArgs<'a, C> {
        self.args
    }
}

impl<'a, C> StreamingClientBuilder<'a, C> {
    /// A builder holding the two required arguments, every other knob
    /// seeded from the streaming and reconnect sub-configurations.
    pub fn new(
        creds: &'a C,
        hosts: &'a [(String, u16)],
        streaming: &StreamingConfig,
        reconnect: &ReconnectConfig,
    ) -> (b: Self)
        ensures
            b@ == seeded_args(creds, hosts, *streaming, *reconnect),
    {
        StreamingClientBuilder {
            args: FpssConnectArgs {
                creds,
                hosts,
                ring_size: streaming.ring_size,
                wait_ms: reconnect.wait_ms,
                wait_max_ms: reconnect.wait_max_ms,
                wait_rate_limited_ms: reconnect.wait_rate_limited_ms,
                wait_server_restart_ms: reconnect.wait_server_restart_ms,
                replay_burst_size: clamp_burst(reconnect.replay_burst_size),
                replay_pace_ms: reconnect.replay_pace_ms,
                connect_timeout_ms: streaming.connect_timeout_ms,
                read_timeout_ms: streaming.timeout_ms,
                ping_interval_ms: streaming.ping_interval_ms,
                io_read_slice_ms: streaming.io_read_slice_ms,
                keepalive_idle_secs: streaming.keepalive_idle_secs,
                keepalive_interval_secs: streaming.keepalive_interval_secs,
                keepalive_retries: streaming.keepalive_retries,
                host_selection: streaming.host_selection,
                host_shuffle_seed: streaming.host_shuffle_seed,
                consumer_cpu: streaming.consumer_cpu,
            },
        }
    }

    /// Event ring size (events).
    pub fn ring_size(self, n: usize) -> (b: Self)
        ensures
            b@ == (FpssConnectArgs { ring_size: n, ..self@ }),
    {
        let mut b = self;
        b.args.ring_size = n;
        b
    }

    /// CPU core the event consumer is pinned to; `None` leaves it to the scheduler.
    pub fn consumer_cpu(self, core: Option<usize>) -> (b: Self)
        ensures
            b@ == (FpssConnectArgs { consumer_cpu: core, ..self@ }),
    {
        let mut b = self;
        b.args.consumer_cpu = core;
        b
    }

    /// Initial delay (ms) of the exponential reconnect ladder.
    pub fn reconnect_wait_ms(self, ms: u64) -> (b: Self)
        ensures
            b@ == (FpssConnectArgs { wait_ms: ms, ..self@ }),
    {
        let mut b = self;
        b.args.wait_ms = ms;
        b
    }

    /// Cap (ms) on the exponential reconnect ladder.
    pub fn reconnect_wait_max_ms(self, ms: u64) -> (b: Self)
        ensures
            b@ == (FpssConnectArgs { wait_max_ms: ms, ..self@ }),
    {
        let mut b = self;
        b.args.wait_max_ms = ms;
        b
    }

    /// Floor delay (ms) before reconnecting after a rate-limit drop.
    pub fn reconnect_wait_rate_limited_ms(self, ms: u64) -> (b: Self)
        ensures
            b@ == (FpssConnectArgs { wait_rate_limited_ms: ms, ..self@ }),
    {
        let mut b = self;
        b.args.wait_rate_limited_ms = ms;
        b
    }

    /// Flat reconnect cadence (ms) while the server restarts.
    pub fn reconnect_wait_server_restart_ms(self, ms: u64) -> (b: Self)
        ensures
            b@ == (FpssConnectArgs { wait_server_restart_ms: ms, ..self@ }),
    {
        let mut b = self;
        b.args.wait_server_restart_ms = ms;
        b
    }

    /// Subscription-replay frames per burst after a reconnect, clamped to a
    /// minimum of one.
    pub fn reconnect_replay_burst_size(self, n: u32) -> (b: Self)
        ensures
            b@ == (FpssConnectArgs { replay_burst_size: at_least_one(n), ..self@ }),
    {
        let mut b = self;
        b.args.replay_burst_size = clamp_burst(n);
        b
    }

    /// Pause (ms) between subscription-replay bursts.
    pub fn reconnect_replay_pace_ms(self, ms: u64) -> (b: Self)
        ensures
            b@ == (FpssConnectArgs { replay_pace_ms: ms, ..self@ }),
    {
        let mut b = self;
        b.args.replay_pace_ms = ms;
        b
    }

    /// Per-server TCP connect timeout (ms).
    pub fn connect_timeout_ms(self, ms: u64) -> (b: Self)
        ensures
            b@ == (FpssConnectArgs { connect_timeout_ms: ms, ..self@ }),
    {
        let mut b = self;
        b.args.connect_timeout_ms = ms;
        b
    }

    /// Read timeout (ms).
    pub fn read_timeout_ms(self, ms: u64) -> (b: Self)
        ensures
            b@ == (FpssConnectArgs { read_timeout_ms: ms, ..self@ }),
    {
        let mut b = self;
        b.args.read_timeout_ms = ms;
        b
    }

    /// Heartbeat ping interval (ms).
    pub fn ping_interval_ms(self, ms: u64) -> (b: Self)
        ensures
            b@ == (FpssConnectArgs { ping_interval_ms: ms, ..self@ }),
    {
        let mut b = self;
        b.args.ping_interval_ms = ms;
        b
    }

    /// Blocking-read slice (ms) of one I/O loop iteration.
    pub fn io_read_slice_ms(self, ms: u64) -> (b: Self)
        ensures
            b@ == (FpssConnectArgs { io_read_slice_ms: ms, ..self@ }),
    {
        let mut b = self;
        b.args.io_read_slice_ms = ms;
        b
    }

    /// TCP keepalive idle time (s) before the first probe.
    pub fn keepalive_idle_secs(self, secs: u64) -> (b: Self)
        ensures
            b@ == (FpssConnectArgs { keepalive_idle_secs: secs, ..self@ }),
    {
        let mut b = self;
        b.args.keepalive_idle_secs = secs;
        b
    }

    /// TCP keepalive probe interval (s).
    pub fn keepalive_interval_secs(self, secs: u64) -> (b: Self)
        ensures
            b@ == (FpssConnectArgs { keepalive_interval_secs: secs, ..self@ }),
    {
        let mut b = self;
        b.args.keepalive_interval_secs = secs;
        b
    }

    /// TCP keepalive probe count before the peer is declared dead.
    pub fn keepalive_retries(self, retries: u32) -> (b: Self)
        ensures
            b@ == (FpssConnectArgs { keepalive_retries: retries, ..self@ }),
    {
        let mut b = self;
        b.args.keepalive_retries = retries;
        b
    }

    /// Host-ordering policy for connect and failover.
    pub fn host_selection(self, policy: HostSelectionPolicy) -> (b: Self)
        ensures
            b@ == (FpssConnectArgs { host_selection: policy, ..self@ }),
    {
        let mut b = self;
        b.args.host_selection = policy;
        b
    }

    /// Seed of the shuffled host order; `None` asks for a fresh one per client.
    pub fn host_shuffle_seed(self, seed: Option<u64>) -> (b: Self)
        ensures
            b@ == (FpssConnectArgs { host_shuffle_seed: seed, ..self@ }),
    {
        let mut b = self;
        b.args.host_shuffle_seed = seed;
        b
    }

    /// The finished settings.
    pub fn into_args(self) -> (args: FpssConnectArgs<'a, C>)
        ensures
            args == self@,
    {
        self.args
    }
}

} // verus!
