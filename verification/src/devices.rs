use vstd::prelude::*;

verus! {

/// One enumerated output device: its human-readable name and its position
/// in the host's enumeration order. Names identify devices everywhere in
/// the engine; no persistent identifier survives re-enumeration.
pub struct AudioDeviceInfo {
    pub name: String,
    pub index: usize,
}

/// Pairs each enumerated device name with its enumeration index, in order.
pub fn label_devices(names: Vec<String>) -> (devices: Vec<AudioDeviceInfo>)
    ensures
        devices@.len() == names@.len(),
        forall|i: int|
            0 <= i < names@.len() ==> (#[trigger] devices@[i]).name == names@[i]
                && devices@[i].index == i,
{
    let n = names.len();
    let mut devices: Vec<AudioDeviceInfo> = Vec::new();
    let mut k: usize = 0;
    while k < n
        invariant
            k <= n,
            n == names@.len(),
            devices@.len() == k,
            forall|i: int|
                0 <= i < k ==> (#[trigger] devices@[i]).name == names@[i] && devices@[i].index
                    == i,
        decreases n - k,
    {
        let name = names[k].clone();
        devices.push(AudioDeviceInfo { name, index: k });
        k += 1;
    }
    devices
}

/// The default output device's name as the engine reports it: the host's
/// answer when there is one, and a fixed sentinel when there is none.
pub fn default_device_name(found: Option<String>) -> (name: String)
    ensures
        match found {
            Some(n) => name == n,
            None => name@ == "Unknown"@,
        },
{
    match found {
        Some(n) => n,
        None => "Unknown".to_owned(),
    }
}

} // verus!
