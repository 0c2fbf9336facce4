//! The hardware profile: one flat record per machine, and how it is filled from
//! detected values.

use crate::cpu::{generation_code, tokens, without_mark, CpuInfo, ParseError, MODEL_TOKEN};
use crate::memory::{bytes_to_gb, normalized_gb};
use vstd::prelude::*;

verus! {

/// Description of one machine.
#[derive(Debug, Clone)]
pub struct SystemInfo {
    /// Identifier of the operating system, such as `windows`.
    pub os: String,
    pub cpu_vendor: String,
    /// One character, or `Unknown`.
    pub cpu_generation: String,
    pub cpu_model: String,
    pub gpus: Vec<String>,
    /// Memory in gigabytes.
    pub ram: u64,
    pub storage_devices: Vec<String>,
    pub oem_model: String,
    pub ethernet_chipset: String,
    pub wlan_chipset: String,
    pub bluetooth_chipset: String,
}

/// What a `SystemInfo` holds, as plain sequences.
pub ghost struct Profile {
    pub os: Seq<char>,
    pub cpu_vendor: Seq<char>,
    pub cpu_generation: Seq<char>,
    pub cpu_model: Seq<char>,
    pub gpus: Seq<Seq<char>>,
    pub ram: u64,
    pub storage_devices: Seq<Seq<char>>,
    pub oem_model: Seq<char>,
    pub ethernet_chipset: Seq<char>,
    pub wlan_chipset: Seq<char>,
    pub bluetooth_chipset: Seq<char>,
}

/// The contents of a list of strings.
pub open spec fn texts(list: Seq<String>) -> Seq<Seq<char>> {
    Seq::new(list.len(), |i: int| list[i]@)
}

impl View for SystemInfo {
    type V = Profile;

    open spec fn view(&self) -> Profile {
        Profile {
            os: self.os@,
            cpu_vendor: self.cpu_vendor@,
            cpu_generation: self.cpu_generation@,
            cpu_model: self.cpu_model@,
            gpus: texts(self.gpus@),
            ram: self.ram,
            storage_devices: texts(self.storage_devices@),
            oem_model: self.oem_model@,
            ethernet_chipset: self.ethernet_chipset@,
            wlan_chipset: self.wlan_chipset@,
            bluetooth_chipset: self.bluetooth_chipset@,
        }
    }
}

/// What stands in a field that detection cannot fill.
pub open spec fn undetected() -> Seq<char> {
    "Unable to do, ask the user for additional information"@
}

/// What stands for the storage devices, which detection does not list.
pub open spec fn storage_pending() -> Seq<char> {
    "To be implemented"@
}

/// The profile without any entry.
pub open spec fn blank_profile() -> Profile {
    Profile {
        os: Seq::empty(),
        cpu_vendor: Seq::empty(),
        cpu_generation: Seq::empty(),
        cpu_model: Seq::empty(),
        gpus: Seq::empty(),
        ram: 0,
        storage_devices: Seq::empty(),
        oem_model: Seq::empty(),
        ethernet_chipset: Seq::empty(),
        wlan_chipset: Seq::empty(),
        bluetooth_chipset: Seq::empty(),
    }
}

/// The profile that detection gives for a machine with this operating system,
/// CPU brand string and memory in bytes. The brand string has its four tokens.
pub open spec fn detected_profile(os: Seq<char>, brand: Seq<char>, memory: u64) -> Profile {
    Profile {
        os,
        cpu_vendor: without_mark(tokens(brand)[0]),
        cpu_generation: generation_code(tokens(brand)[MODEL_TOKEN as int]),
        cpu_model: tokens(brand)[MODEL_TOKEN as int],
        gpus: seq![Seq::empty()],
        ram: normalized_gb(memory as nat) as u64,
        storage_devices: seq![storage_pending()],
        oem_model: undetected(),
        ethernet_chipset: undetected(),
        wlan_chipset: undetected(),
        bluetooth_chipset: undetected(),
    }
}

impl SystemInfo {
    /// A profile with every text empty, no device and no memory.
    pub fn blank() -> (profile: SystemInfo)
        ensures
            profile@ == blank_profile(),
    {
        let profile = SystemInfo {
            os: String::new(),
            cpu_vendor: String::new(),
            cpu_generation: String::new(),
            cpu_model: String::new(),
            gpus: Vec::new(),
            ram: 0,
            storage_devices: Vec::new(),
            oem_model: String::new(),
            ethernet_chipset: String::new(),
            wlan_chipset: String::new(),
            bluetooth_chipset: String::new(),
        };
        proof {
            assert(texts(profile.gpus@) == Seq::<Seq<char>>::empty());
            assert(texts(profile.storage_devices@) == Seq::<Seq<char>>::empty());
        }
        profile
    }

    /// Builds the profile from what was detected: the operating system's
    /// identifier, the CPU's brand string and the memory in bytes.
    ///
    /// Vendor, model and generation come from the brand string, the memory is
    /// normalised to gigabytes, and what detection does not reach is marked so.
    /// A brand string of fewer than four tokens is malformed.
    pub fn detected(os: String, brand: &str, memory: u64) -> (built: Result<SystemInfo, ParseError>)
        ensures
            built is Ok <==> tokens(brand@).len() > MODEL_TOKEN,
            built is Ok ==> built->Ok_0@ == detected_profile(os@, brand@, memory),
            built is Err ==> built->Err_0 == ParseError::MalformedBrandString,
    {
        let cpu: CpuInfo = match CpuInfo::split_create_struct(brand) {
            Ok(cpu) => cpu,
            Err(e) => {
                return Err(e);
            },
        };
        let cpu_generation: String = cpu.get_generation();
        let mut gpus: Vec<String> = Vec::new();
        gpus.push(String::new());
        let mut storage_devices: Vec<String> = Vec::new();
        storage_devices.push("To be implemented".to_owned());
        let profile = SystemInfo {
            os,
            cpu_vendor: cpu.vendor,
            cpu_generation,
            cpu_model: cpu.model,
            gpus,
            ram: bytes_to_gb(memory),
            storage_devices,
            oem_model: "Unable to do, ask the user for additional information".to_owned(),
            ethernet_chipset: "Unable to do, ask the user for additional information".to_owned(),
            wlan_chipset: "Unable to do, ask the user for additional information".to_owned(),
            bluetooth_chipset: "Unable to do, ask the user for additional information".to_owned(),
        };
        proof {
            assert(texts(profile.gpus@) == seq![Seq::<char>::empty()]);
            assert(texts(profile.storage_devices@) == seq![storage_pending()]);
        }
        Ok(profile)
    }
}

} // verus!
