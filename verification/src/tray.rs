//! What the tray icon and its menus show: the icon geometry and which menu
//! entries are checked.
use vstd::prelude::*;

verus! {

/// Width and height of the rendered tray icon, in pixels.
pub const ICON_SIZE: u32 = 32;

/// Height of the volume bar drawn over the bottom of the icon, in pixels.
pub const BAR_HEIGHT: u32 = 4;

/// The entries of the "Max volume" menu: one per preset, checked when it is the
/// current cap.
pub fn volcap_menu_state(cap_presets: &Vec<u32>, volcap_percent: u32) -> (r: Vec<(u32, bool)>)
    ensures
        r.len() == cap_presets.len(),
        forall|i: int|
            0 <= i < cap_presets.len() ==> #[trigger] r@[i] == (
                cap_presets@[i],
                cap_presets@[i] == volcap_percent,
            ),
{
    let mut r: Vec<(u32, bool)> = Vec::new();
    let mut i: usize = 0;
    while i < cap_presets.len()
        invariant
            i <= cap_presets.len(),
            r.len() == i,
            forall|j: int|
                0 <= j < i ==> #[trigger] r@[j] == (cap_presets@[j], cap_presets@[j] == volcap_percent),
        decreases cap_presets.len() - i,
    {
        let pct = cap_presets[i];
        r.push((pct, pct == volcap_percent));
        i += 1;
    }
    r
}

/// The entries of the "Startup volume" menu: "Off" first, then one per preset;
/// the entry equal to the current startup volume is checked.
pub fn startup_volume_menu_state(cap_presets: &Vec<u32>, startup_volume: Option<u32>) -> (r: Vec<
    (Option<u32>, bool),
>)
    ensures
        r.len() == cap_presets.len() + 1,
        r@[0] == (None::<u32>, startup_volume is None),
        forall|i: int|
            0 <= i < cap_presets.len() ==> #[trigger] r@[i + 1] == (
                Some(cap_presets@[i]),
                startup_volume == Some(cap_presets@[i]),
            ),
{
    let mut r: Vec<(Option<u32>, bool)> = Vec::new();
    r.push((None, startup_volume.is_none()));
    let mut i: usize = 0;
    while i < cap_presets.len()
        invariant
            i <= cap_presets.len(),
            r.len() == i + 1,
            r@[0] == (None::<u32>, startup_volume is None),
            forall|j: int|
                0 <= j < i ==> #[trigger] r@[j + 1] == (
                    Some(cap_presets@[j]),
                    startup_volume == Some(cap_presets@[j]),
                ),
        decreases cap_presets.len() - i,
    {
        let pct = cap_presets[i];
        let checked = match startup_volume {
            Some(v) => v == pct,
            None => false,
        };
        r.push((Some(pct), checked));
        i += 1;
    }
    r
}

} // verus!
