//! The logic of a virtual machine monitor's bridges to host hardware.
pub mod bpmp_laws;
pub mod bus;
pub mod bytes;
pub mod dce_events;
pub mod dce_laws;
pub mod error;
pub mod event_laws;
pub mod host_tpm;
pub mod nvidia_bpmp;
pub mod nvidia_dce;
pub mod platform;
pub mod power;
pub mod power_laws;
pub mod property;
pub mod proxy;
pub mod proxy_laws;
pub mod swtpm;
pub mod sysfs;
pub mod text;
pub mod tpm;
pub mod tpm_laws;
pub mod words;
