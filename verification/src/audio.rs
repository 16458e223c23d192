//! Choice of the audio device that the bridge attaches to.
use vstd::prelude::*;
use crate::config;
use crate::control::names_contain;

verus! {

/// The name of the device the bridge would attach to: the pinned device when
/// one is pinned and present, otherwise the default device.
pub open spec fn target_name(
    pin_device: Option<Seq<char>>,
    device_names: Seq<Seq<char>>,
    default_name: Option<Seq<char>>,
) -> Option<Seq<char>> {
    match pin_device {
        Some(name) => if device_names.contains(name) {
            Some(name)
        } else {
            None
        },
        None => default_name,
    }
}

/// Friendly name of the device the bridge would attach to: the pinned device
/// when set and among the active output devices `device_names`, otherwise the
/// default output device's name `default_name`.
pub fn target_device_name(
    pin_device: Option<&str>,
    device_names: &Vec<String>,
    default_name: Option<String>,
) -> (r: Option<String>)
    ensures
        config::opt_str_view(r) == target_name(
            match pin_device {
                Some(p) => Some(p@),
                None => None,
            },
            config::names_view(device_names@),
            config::opt_str_view(default_name),
        ),
{
    match pin_device {
        Some(name) => if names_contain(device_names, name) {
            Some(name.to_owned())
        } else {
            None
        },
        None => default_name,
    }
}

} // verus!
