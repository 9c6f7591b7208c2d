//! The vendor-neutral counter backend: stateless polling of an
//! instantaneous device-enumeration API. Every per-field query is
//! independently fallible, and a failed field degrades to its
//! documented default instead of dropping the device.

use nvml_wrapper::Device;
use nvml_wrapper::Nvml;
use vstd::prelude::*;

use crate::gpu::{all_wf, clamp_pct, GpuInfo};

verus! {

#[verifier::external_type_specification]
#[verifier::external_body]
pub struct ExNvml(Nvml);

#[verifier::external_type_specification]
#[verifier::external_body]
pub struct ExDevice<'nvml>(Device<'nvml>);

/// Relies on nvml_wrapper::Nvml::init: loads and initializes the
/// driver library, failing where none is present. Availability is
/// probed once, at construction.
#[verifier::external_body]
fn nvml_try_init() -> (r: Option<Nvml>) {
    Nvml::init().ok()
}

/// Relies on nvml_wrapper::Nvml::device_count: how many devices the
/// driver reports.
#[verifier::external_body]
fn nvml_device_count(nvml: &Nvml) -> (r: Option<u32>) {
    nvml.device_count().ok()
}

/// Relies on nvml_wrapper::Nvml::device_by_index: the handle for one
/// device index.
#[verifier::external_body]
fn nvml_device_at<'nvml>(nvml: &'nvml Nvml, index: u32) -> (r: Option<Device<'nvml>>) {
    nvml.device_by_index(index).ok()
}

/// Relies on nvml_wrapper::Device::name: the device's product name.
#[verifier::external_body]
fn nvml_device_name(d: &Device<'_>) -> (r: Option<String>) {
    d.name().ok()
}

/// Relies on nvml_wrapper::Device::temperature: the main sensor's
/// reading in whole degrees.
#[verifier::external_body]
fn nvml_device_temperature(d: &Device<'_>) -> (r: Option<u32>) {
    d.temperature(nvml_wrapper::enum_wrappers::device::TemperatureSensor::Gpu).ok()
}

/// Relies on nvml_wrapper::Device::utilization_rates: instantaneous
/// device utilization, already a percentage.
#[verifier::external_body]
fn nvml_device_utilization(d: &Device<'_>) -> (r: Option<u32>) {
    d.utilization_rates().ok().map(|u| u.gpu)
}

/// Relies on nvml_wrapper::Device::memory_info: used and total device
/// memory in bytes.
#[verifier::external_body]
fn nvml_device_memory(d: &Device<'_>) -> (r: Option<(u64, u64)>) {
    d.memory_info().ok().map(|m| (m.used, m.total))
}

/// Relies on nvml_wrapper::Device::fan_speed for fan 0, a percentage.
#[verifier::external_body]
fn nvml_device_fan(d: &Device<'_>) -> (r: Option<u32>) {
    d.fan_speed(0).ok()
}

/// Relies on nvml_wrapper::Device::power_usage: draw in milliwatts.
#[verifier::external_body]
fn nvml_device_power(d: &Device<'_>) -> (r: Option<u32>) {
    d.power_usage().ok()
}

/// Relies on nvml_wrapper::Device::enforced_power_limit: the enforced
/// cap in milliwatts.
#[verifier::external_body]
fn nvml_device_power_limit(d: &Device<'_>) -> (r: Option<u32>) {
    d.enforced_power_limit().ok()
}

/// The stateless counter backend. Its initialization handle is probed
/// once at process start and never retried; without it, every sample
/// is empty and the caller falls back to the other backends.
pub struct CounterBackend {
    nvml: Option<Nvml>,
}

impl CounterBackend {
    /// Whether the underlying API initialized at construction.
    pub closed spec fn available(&self) -> bool {
        self.nvml is Some
    }

    pub fn new() -> Self {
        CounterBackend { nvml: nvml_try_init() }
    }

    /// A backend that never initialized, for hosts known to lack the
    /// API.
    pub fn unavailable() -> (r: Self)
        ensures
            !r.available(),
    {
        CounterBackend { nvml: None }
    }

    pub fn is_available(&self) -> (r: bool)
        ensures
            r == self.available(),
    {
        self.nvml.is_some()
    }

    /// Poll every reported device. Each reading's fields default
    /// individually where a query fails: name "Unknown GPU",
    /// temperature and utilization and memory zero, the optional
    /// fields absent. An uninitialized API or a zero device count
    /// yields an empty list, the caller's signal to fall back.
    pub fn sample(&self) -> (r: Vec<GpuInfo>)
        ensures
            all_wf(r@),
            !self.available() ==> r@.len() == 0,
    {
        let mut r: Vec<GpuInfo> = Vec::new();
        let nvml = match &self.nvml {
            Some(n) => n,
            None => {
                return r;
            },
        };
        let count: u32 = match nvml_device_count(nvml) {
            Some(c) => c,
            None => 0,
        };
        let mut i: u32 = 0;
        while i < count
            invariant
                all_wf(r@),
            decreases count - i,
        {
            match nvml_device_at(nvml, i) {
                Some(device) => {
                    let name: String = match nvml_device_name(&device) {
                        Some(n) => n,
                        None => "Unknown GPU".to_owned(),
                    };
                    let temperature: u32 = match nvml_device_temperature(&device) {
                        Some(t) => t,
                        None => 0,
                    };
                    let utilization: u32 = match nvml_device_utilization(&device) {
                        Some(u) => clamp_pct(u),
                        None => 0,
                    };
                    let (memory_used, memory_total): (u64, u64) = match nvml_device_memory(
                        &device,
                    ) {
                        Some(m) => m,
                        None => (0, 0),
                    };
                    r.push(GpuInfo {
                        name,
                        temperature,
                        utilization,
                        memory_used,
                        memory_total,
                        fan_speed: nvml_device_fan(&device),
                        power_usage: nvml_device_power(&device),
                        power_limit: nvml_device_power_limit(&device),
                    });
                },
                None => {},
            }
            i = i + 1;
        }
        r
    }
}

} // verus!
