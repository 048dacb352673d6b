//! Attaching a volume to a network block device.
use crate::engine::EngineConfig;
use crate::nbd::NbdConfig;
use crate::session::{RetryConfig, VolumeSessionConfig};
use crate::time::Duration;
use vstd::prelude::*;

verus! {

/// The volume, the device, and how both are worked with.
#[derive(Debug)]
pub struct AttachConfig {
    pub frontend_endpoint: String,
    pub namespace: String,
    pub volume_id: String,
    pub device_path: String,
    pub connect_timeout: Duration,
    pub rpc_timeout: Duration,
    pub retry_max_attempts: usize,
    pub retry_initial_backoff: Duration,
    pub retry_max_backoff: Duration,
    pub dirty_high_watermark_blocks: usize,
    pub flush_retry_deadline: Duration,
    pub flush_retry_interval: Duration,
    pub request_queue_capacity: usize,
    pub nbd_timeout_secs: u64,
}

impl Clone for AttachConfig {
    fn clone(&self) -> (r: Self)
        ensures
            r == *self,
    {
        AttachConfig {
            frontend_endpoint: self.frontend_endpoint.clone(),
            namespace: self.namespace.clone(),
            volume_id: self.volume_id.clone(),
            device_path: self.device_path.clone(),
            connect_timeout: self.connect_timeout,
            rpc_timeout: self.rpc_timeout,
            retry_max_attempts: self.retry_max_attempts,
            retry_initial_backoff: self.retry_initial_backoff,
            retry_max_backoff: self.retry_max_backoff,
            dirty_high_watermark_blocks: self.dirty_high_watermark_blocks,
            flush_retry_deadline: self.flush_retry_deadline,
            flush_retry_interval: self.flush_retry_interval,
            request_queue_capacity: self.request_queue_capacity,
            nbd_timeout_secs: self.nbd_timeout_secs,
        }
    }
}

impl AttachConfig {
    /// How to reach the volume.
    pub fn session_config(&self) -> (r: VolumeSessionConfig)
        ensures
            r == (VolumeSessionConfig {
                frontend_endpoint: self.frontend_endpoint,
                namespace: self.namespace,
                volume_id: self.volume_id,
                connect_timeout: self.connect_timeout,
                rpc_timeout: self.rpc_timeout,
                retry: RetryConfig {
                    max_attempts: self.retry_max_attempts,
                    initial_backoff: self.retry_initial_backoff,
                    max_backoff: self.retry_max_backoff,
                },
            }),
    {
        VolumeSessionConfig {
            frontend_endpoint: self.frontend_endpoint.clone(),
            namespace: self.namespace.clone(),
            volume_id: self.volume_id.clone(),
            connect_timeout: self.connect_timeout,
            rpc_timeout: self.rpc_timeout,
            retry: RetryConfig {
                max_attempts: self.retry_max_attempts,
                initial_backoff: self.retry_initial_backoff,
                max_backoff: self.retry_max_backoff,
            },
        }
    }

    /// How writes are staged.
    pub fn engine_config(&self) -> (r: EngineConfig)
        ensures
            r == (EngineConfig {
                dirty_high_watermark_blocks: self.dirty_high_watermark_blocks,
                flush_retry_deadline: self.flush_retry_deadline,
                flush_retry_interval: self.flush_retry_interval,
            }),
    {
        EngineConfig {
            dirty_high_watermark_blocks: self.dirty_high_watermark_blocks,
            flush_retry_deadline: self.flush_retry_deadline,
            flush_retry_interval: self.flush_retry_interval,
        }
    }

    /// How the device is served.
    pub fn nbd_config(&self) -> (r: NbdConfig)
        ensures
            r == (NbdConfig {
                device_path: self.device_path,
                timeout_secs: self.nbd_timeout_secs,
            }),
    {
        NbdConfig { device_path: self.device_path.clone(), timeout_secs: self.nbd_timeout_secs }
    }
}

} // verus!
