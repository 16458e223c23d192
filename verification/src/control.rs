//! The decisions of the tray application's main loop, separated from the
//! Windows calls that carry them out: which devices the bridge may run on,
//! when night mode lowers the cap, and when exclusive mode is announced.
use vstd::prelude::*;
use crate::config;
use crate::config::Config;
use crate::device_map::str_eq;

verus! {

// ---------------------------------------------------------------------------
// Device allow list
// ---------------------------------------------------------------------------

/// `names` without any occurrence of `name`.
pub open spec fn without(names: Seq<Seq<char>>, name: Seq<char>) -> Seq<Seq<char>>
    decreases names.len(),
{
    if names.len() == 0 {
        names
    } else {
        let kept = without(names.drop_last(), name);
        if names.last() == name {
            kept
        } else {
            kept.push(names.last())
        }
    }
}

/// `list` names exactly as many devices as `all` and every one of them.
pub open spec fn covers(list: Seq<Seq<char>>, all: Seq<Seq<char>>) -> bool {
    list.len() == all.len() && forall|d: Seq<char>| all.contains(d) ==> list.contains(d)
}

/// The device list after the user toggles `name` in the menu: a missing list
/// stands for all devices `all`; `name` is removed when listed and appended
/// otherwise; a list that again covers every device becomes missing.
pub open spec fn toggled_devices(
    devices: Option<Seq<Seq<char>>>,
    name: Seq<char>,
    all: Seq<Seq<char>>,
) -> Option<Seq<Seq<char>>> {
    let list = match devices {
        None => all,
        Some(l) => l,
    };
    let next = if list.contains(name) {
        without(list, name)
    } else {
        list.push(name)
    };
    if covers(next, all) {
        None
    } else {
        Some(next)
    }
}

/// `without` drops exactly the occurrences of `name`.
proof fn lemma_without(names: Seq<Seq<char>>, name: Seq<char>)
    ensures
        forall|d: Seq<char>| #[trigger] without(names, name).contains(d) <==> (names.contains(d) && d != name),
    decreases names.len(),
{
    if names.len() > 0 {
        let init = names.drop_last();
        lemma_without(init, name);
        let kept = without(init, name);
        assert forall|d: Seq<char>| #[trigger] without(names, name).contains(d) <==> (names.contains(d) && d != name) by {
            if names.contains(d) && d != name {
                let i = choose|i: int| 0 <= i < names.len() && names[i] == d;
                if i < init.len() {
                    assert(init[i] == d);
                    assert(without(init, name).contains(d));
                    let j = choose|j: int| 0 <= j < kept.len() && kept[j] == d;
                    if names.last() != name {
                        assert(kept.push(names.last())[j] == d);
                    }
                } else {
                    assert(kept.push(names.last())[kept.len() as int] == d);
                }
            }
            if without(names, name).contains(d) {
                let out = without(names, name);
                let i = choose|i: int| 0 <= i < out.len() && out[i] == d;
                if i < kept.len() {
                    assert(kept[i] == d);
                    assert(without(init, name).contains(d));
                    let j = choose|j: int| 0 <= j < init.len() && init[j] == d;
                    assert(names[j] == d);
                } else {
                    assert(names[names.len() - 1] == d);
                }
            }
        }
    }
}

/// Toggling a device that is among all devices flips whether the bridge may
/// run on it.
pub proof fn lemma_toggle_flips_allowed(
    devices: Option<Seq<Seq<char>>>,
    name: Seq<char>,
    all: Seq<Seq<char>>,
)
    requires
        all.contains(name),
    ensures
        config::allows(toggled_devices(devices, name, all), name) == !config::allows(devices, name),
{
    let list = match devices {
        None => all,
        Some(l) => l,
    };
    lemma_without(list, name);
    if list.contains(name) {
        let next = without(list, name);
        assert(!next.contains(name));
        assert(!covers(next, all));
    } else {
        let next = list.push(name);
        assert(next[list.len() as int] == name);
    }
}

/// Whether one of `names` is `name`.
pub fn names_contain(names: &Vec<String>, name: &str) -> (r: bool)
    ensures
        r == config::names_view(names@).contains(name@),
{
    let mut i: usize = 0;
    while i < names.len()
        invariant
            i <= names.len(),
            forall|j: int| 0 <= j < i ==> names@[j]@ != name@,
        decreases names.len() - i,
    {
        if str_eq(names[i].as_str(), name) {
            assert(config::names_view(names@)[i as int] == name@);
            return true;
        }
        i += 1;
    }
    assert forall|j: int| 0 <= j < names.len() implies config::names_view(names@)[j] != name@ by {
        assert(config::names_view(names@)[j] == names@[j]@);
    }
    false
}

/// A copy of `names`.
fn copy_names(names: &Vec<String>) -> (r: Vec<String>)
    ensures
        config::names_view(r@) == config::names_view(names@),
{
    let mut r: Vec<String> = Vec::new();
    let mut i: usize = 0;
    while i < names.len()
        invariant
            i <= names.len(),
            config::names_view(r@) == config::names_view(names@).take(i as int),
        decreases names.len() - i,
    {
        let name = names[i].clone();
        assert(name@ == names@[i as int]@);
        let ghost before = r@;
        r.push(name);
        assert(config::names_view(r@) =~= config::names_view(before).push(names@[i as int]@));
        i += 1;
        assert(config::names_view(r@) =~= config::names_view(names@).take(i as int));
    }
    assert(config::names_view(names@).take(names.len() as int) =~= config::names_view(names@));
    r
}

/// `names` without any occurrence of `name`.
fn names_without(names: &Vec<String>, name: &str) -> (r: Vec<String>)
    ensures
        config::names_view(r@) == without(config::names_view(names@), name@),
{
    let ghost all = config::names_view(names@);
    let mut r: Vec<String> = Vec::new();
    let mut i: usize = 0;
    while i < names.len()
        invariant
            i <= names.len(),
            all == config::names_view(names@),
            config::names_view(r@) == without(all.take(i as int), name@),
        decreases names.len() - i,
    {
        assert(all.take(i + 1).drop_last() =~= all.take(i as int));
        assert(all.take(i + 1).last() == names@[i as int]@);
        if !str_eq(names[i].as_str(), name) {
            r.push(names[i].clone());
            assert(config::names_view(r@) =~= without(all.take(i as int), name@).push(names@[i as int]@));
        }
        i += 1;
    }
    assert(all.take(names.len() as int) =~= all);
    r
}

/// Whether every one of `all` is among `list`.
fn names_cover(list: &Vec<String>, all: &Vec<String>) -> (r: bool)
    ensures
        r == forall|d: Seq<char>|
            config::names_view(all@).contains(d) ==> config::names_view(list@).contains(d),
{
    let mut i: usize = 0;
    while i < all.len()
        invariant
            i <= all.len(),
            forall|j: int| 0 <= j < i ==> config::names_view(list@).contains(#[trigger] all@[j]@),
        decreases all.len() - i,
    {
        if !names_contain(list, all[i].as_str()) {
            assert(config::names_view(all@)[i as int] == all@[i as int]@);
            return false;
        }
        i += 1;
    }
    assert forall|d: Seq<char>| config::names_view(all@).contains(d) implies config::names_view(list@).contains(d) by {
        let j = choose|j: int| 0 <= j < config::names_view(all@).len() && config::names_view(all@)[j] == d;
        assert(all@[j]@ == d);
    }
    true
}

/// Toggle a device in the allow list. `None` means "all devices allowed";
/// toggling expands it to an explicit list of `all` first, and a list that
/// again names every device collapses back to `None`.
pub fn toggle_device(cfg: &mut Config, name: &str, all: &Vec<String>)
    ensures
        final(cfg)@ == (config::ConfigView {
            general: config::GeneralView {
                devices: toggled_devices(old(cfg)@.general.devices, name@, config::names_view(all@)),
                ..old(cfg)@.general
            },
            ..old(cfg)@
        }),
{
    let list = match &cfg.general.devices {
        None => copy_names(all),
        Some(l) => copy_names(l),
    };
    let next = if names_contain(&list, name) {
        names_without(&list, name)
    } else {
        let mut n = list;
        n.push(name.to_owned());
        assert(config::names_view(n@) =~= config::names_view(list@).push(name@));
        n
    };
    let cover = next.len() == all.len() && names_cover(&next, all);
    cfg.general.devices = if cover {
        None
    } else {
        Some(next)
    };
}

/// Output devices with their allow-list check state, for the tray menu.
pub fn device_menu_state(cfg: &Config, names: &Vec<String>) -> (r: Vec<(String, bool)>)
    ensures
        r.len() == names.len(),
        forall|i: int|
            0 <= i < names.len() ==> (#[trigger] r@[i]).0@ == names@[i]@ && r@[i].1
                == config::allows(cfg@.general.devices, names@[i]@),
{
    let mut r: Vec<(String, bool)> = Vec::new();
    let mut i: usize = 0;
    while i < names.len()
        invariant
            i <= names.len(),
            r.len() == i,
            forall|j: int|
                0 <= j < i ==> (#[trigger] r@[j]).0@ == names@[j]@ && r@[j].1
                    == config::allows(cfg@.general.devices, names@[j]@),
        decreases names.len() - i,
    {
        let checked = cfg.device_allowed(names[i].as_str());
        r.push((names[i].clone(), checked));
        i += 1;
    }
    r
}

/// What to do about the audio bridge for the device it would attach to: whether
/// to create it (the device is known and allowed) and whether the device is
/// missing.
pub fn bridge_plan(cfg: &Config, target: Option<&str>) -> (r: (bool, bool))
    ensures
        r == match target {
            Some(t) => (config::allows(cfg@.general.devices, t@), false),
            None => (false, true),
        },
{
    match target {
        Some(t) => (cfg.device_allowed(t), false),
        None => (false, true),
    }
}

// ---------------------------------------------------------------------------
// Night mode
// ---------------------------------------------------------------------------

/// Whether `now` lies in the night window from `start` to `end` (minutes after
/// midnight); a window whose start is after its end runs across midnight.
pub open spec fn in_window(start: u32, end: u32, now: u32) -> bool {
    if start <= end {
        start <= now && now < end
    } else {
        now >= start || now < end
    }
}

/// Whether `now_min` lies in the night window from `start_min` to `end_min`.
pub fn is_night(start_min: u32, end_min: u32, now_min: u32) -> (r: bool)
    ensures
        r == in_window(start_min, end_min, now_min),
{
    if start_min <= end_min {
        now_min >= start_min && now_min < end_min
    } else {
        now_min >= start_min || now_min < end_min
    }
}

/// The outcome of one timer tick of night mode.
#[derive(Debug, Clone, Copy, PartialEq, Eq, Structural)]
pub struct NightStep {
    /// Whether night mode is now in force.
    pub in_night: bool,
    /// The cap to apply now, if it changes.
    pub cap: Option<u32>,
}

/// One timer tick of night mode: entering the window applies the night cap,
/// leaving it (or losing the window) restores the default cap.
pub open spec fn night_step(
    in_night: bool,
    window: Option<(u32, u32)>,
    now_min: u32,
    night_cap: u32,
    default_cap: u32,
) -> NightStep {
    match window {
        Some((start, end)) => {
            let night = in_window(start, end, now_min);
            if night && !in_night {
                NightStep { in_night: true, cap: Some(night_cap) }
            } else if !night && in_night {
                NightStep { in_night: false, cap: Some(default_cap) }
            } else {
                NightStep { in_night, cap: None }
            }
        },
        None => if in_night {
            NightStep { in_night: false, cap: Some(default_cap) }
        } else {
            NightStep { in_night: false, cap: None }
        },
    }
}

/// One timer tick of night mode (see `night_step`).
pub fn night_mode_step(
    in_night: bool,
    window: Option<(u32, u32)>,
    now_min: u32,
    night_cap: u32,
    default_cap: u32,
) -> (r: NightStep)
    ensures
        r == night_step(in_night, window, now_min, night_cap, default_cap),
        r.in_night == match window {
            Some((s, e)) => in_window(s, e, now_min),
            None => false,
        },
        r.cap is Some <==> r.in_night != in_night,
        r.cap matches Some(c) ==> (r.in_night && c == night_cap) || (!r.in_night && c
            == default_cap),
{
    match window {
        Some((start, end)) => {
            let night = is_night(start, end, now_min);
            if night && !in_night {
                NightStep { in_night: true, cap: Some(night_cap) }
            } else if !night && in_night {
                NightStep { in_night: false, cap: Some(default_cap) }
            } else {
                NightStep { in_night, cap: None }
            }
        },
        None => if in_night {
            NightStep { in_night: false, cap: Some(default_cap) }
        } else {
            NightStep { in_night: false, cap: None }
        },
    }
}

/// After a tick, night mode is in force exactly when there is a window and
/// the time lies in it; a second tick at the same time changes no cap.
pub proof fn lemma_night_step_settles(
    in_night: bool,
    window: Option<(u32, u32)>,
    now_min: u32,
    night_cap: u32,
    default_cap: u32,
)
    ensures
        night_step(in_night, window, now_min, night_cap, default_cap).in_night == match window {
            Some((s, e)) => in_window(s, e, now_min),
            None => false,
        },
        night_step(
            night_step(in_night, window, now_min, night_cap, default_cap).in_night,
            window,
            now_min,
            night_cap,
            default_cap,
        ).cap == None::<u32>,
{
}

/// Whether a time lies in the night window: between start and end when the
/// window lies within one day, at or after the start or before the end when it
/// runs across midnight; a window whose start is its end holds no time.
pub proof fn lemma_in_window(start: u32, end: u32, now: u32)
    ensures
        start <= end ==> (in_window(start, end, now) <==> start <= now && now < end),
        start > end ==> (in_window(start, end, now) <==> now >= start || now < end),
        start == end ==> !in_window(start, end, now),
{
}

/// A tick that changes whether night mode is in force applies exactly one cap:
/// the night cap when it enters the window, the default cap passed in when it
/// leaves the window or the window is gone; a tick that changes nothing
/// applies no cap.
pub proof fn lemma_night_step_caps(
    in_night: bool,
    window: Option<(u32, u32)>,
    now_min: u32,
    night_cap: u32,
    default_cap: u32,
)
    ensures
        !in_night && night_step(in_night, window, now_min, night_cap, default_cap).in_night
            ==> night_step(in_night, window, now_min, night_cap, default_cap).cap == Some(night_cap),
        in_night && !night_step(in_night, window, now_min, night_cap, default_cap).in_night
            ==> night_step(in_night, window, now_min, night_cap, default_cap).cap == Some(
            default_cap,
        ),
        night_step(in_night, window, now_min, night_cap, default_cap).in_night == in_night
            ==> night_step(in_night, window, now_min, night_cap, default_cap).cap == None::<u32>,
        forall|s: u32, e: u32|
            window == Some((s, e)) && in_night && !in_window(s, e, now_min) ==> #[trigger] night_step(
                in_night,
                Some((s, e)),
                now_min,
                night_cap,
                default_cap,
            ) == (NightStep { in_night: false, cap: Some(default_cap) }),
        forall|s: u32, e: u32|
            window == Some((s, e)) && !in_night && in_window(s, e, now_min) ==> #[trigger] night_step(
                in_night,
                Some((s, e)),
                now_min,
                night_cap,
                default_cap,
            ) == (NightStep { in_night: true, cap: Some(night_cap) }),
{
}

/// The outcome of turning night mode on or off from the menu.
pub open spec fn night_toggle(enabled: bool, in_night: bool, default_cap: u32) -> (bool, NightStep) {
    let now_enabled = !enabled;
    if !now_enabled && in_night {
        (now_enabled, NightStep { in_night: false, cap: Some(default_cap) })
    } else {
        (now_enabled, NightStep { in_night, cap: None })
    }
}

/// Turning night mode on or off from the menu: turning it off while it is in
/// force restores the default cap.
pub fn night_menu_toggle(enabled: bool, in_night: bool, default_cap: u32) -> (r: (bool, NightStep))
    ensures
        r == night_toggle(enabled, in_night, default_cap),
{
    let now_enabled = !enabled;
    if !now_enabled && in_night {
        (now_enabled, NightStep { in_night: false, cap: Some(default_cap) })
    } else {
        (now_enabled, NightStep { in_night, cap: None })
    }
}

// ---------------------------------------------------------------------------
// Exclusive mode
// ---------------------------------------------------------------------------

/// A change of exclusive mode that the user is told about.
#[derive(Debug, Clone, Copy, PartialEq, Eq, Structural)]
pub enum ExclusiveNotice {
    Started,
    Ended,
}

/// Exclusive mode as last announced and the notice for what was just
/// observed: a notice only when the observation differs from what was announced.
pub open spec fn exclusive_step(active: bool, exclusive: bool) -> (bool, Option<ExclusiveNotice>) {
    if exclusive && !active {
        (true, Some(ExclusiveNotice::Started))
    } else if !exclusive && active {
        (false, Some(ExclusiveNotice::Ended))
    } else {
        (active, None)
    }
}

/// One timer tick of the exclusive-mode check (see `exclusive_step`).
pub fn exclusive_mode_step(active: bool, exclusive: bool) -> (r: (bool, Option<ExclusiveNotice>))
    ensures
        r == exclusive_step(active, exclusive),
{
    if exclusive && !active {
        (true, Some(ExclusiveNotice::Started))
    } else if !exclusive && active {
        (false, Some(ExclusiveNotice::Ended))
    } else {
        (active, None)
    }
}

/// After a tick the announced state is what was observed, and the same
/// observation again is not announced twice.
pub proof fn lemma_exclusive_step_settles(active: bool, exclusive: bool)
    ensures
        exclusive_step(active, exclusive).0 == exclusive,
        exclusive_step(exclusive_step(active, exclusive).0, exclusive).1 == None::<ExclusiveNotice>,
{
}

// ---------------------------------------------------------------------------
// Mouse wheel over the tray icon
// ---------------------------------------------------------------------------

/// How far, in pixels along each axis, the pointer may be from the tray icon's
/// centre and still count as over it.
pub const TRAY_HIT_RADIUS: i32 = 40;

/// The distance between two coordinates.
pub open spec fn distance(a: int, b: int) -> int {
    if a >= b {
        a - b
    } else {
        b - a
    }
}

/// Whether the point `(x, y)` lies within the hit radius of `(cx, cy)`.
pub open spec fn near(x: i32, y: i32, cx: i32, cy: i32) -> bool {
    distance(x as int, cx as int) <= TRAY_HIT_RADIUS && distance(y as int, cy as int) <= TRAY_HIT_RADIUS
}

/// What the low-level mouse hook does with one event.
#[derive(Debug, Clone, Copy, PartialEq, Eq, Structural)]
pub enum HookAction {
    /// Nothing changes.
    Ignore,
    /// The pointer left the tray icon.
    LeaveTray,
    /// One wheel notch over the tray icon: `1` up, `-1` down.
    Scroll(i32),
}

/// The wheel movement that a hook event's mouse data reports: positive when
/// its high word, read as a signed 16-bit number, is positive.
pub open spec fn wheel_up(mouse_data: u32) -> bool {
    let hi = mouse_data / 65536;
    1 <= hi && hi <= 0x7FFF
}

/// What the hook does with an event: a move away from the icon leaves it, a
/// wheel notch near the icon scrolls one step; nothing happens unless the
/// pointer was over the icon.
pub open spec fn hook_action(
    is_move: bool,
    is_wheel: bool,
    over_tray: bool,
    x: i32,
    y: i32,
    cx: i32,
    cy: i32,
    mouse_data: u32,
) -> HookAction {
    if is_move && over_tray {
        if near(x, y, cx, cy) {
            HookAction::Ignore
        } else {
            HookAction::LeaveTray
        }
    } else if is_wheel && over_tray {
        if near(x, y, cx, cy) {
            HookAction::Scroll(if wheel_up(mouse_data) { 1i32 } else { -1i32 })
        } else {
            HookAction::Ignore
        }
    } else {
        HookAction::Ignore
    }
}

/// Whether the point `(x, y)` lies within the hit radius of `(cx, cy)`.
pub fn pointer_near_tray(x: i32, y: i32, cx: i32, cy: i32) -> (r: bool)
    ensures
        r == near(x, y, cx, cy),
        r <==> (cx - 40 <= x <= cx + 40 && cy - 40 <= y <= cy + 40),
{
    let dx: i64 = if x >= cx { x as i64 - cx as i64 } else { cx as i64 - x as i64 };
    let dy: i64 = if y >= cy { y as i64 - cy as i64 } else { cy as i64 - y as i64 };
    dx <= TRAY_HIT_RADIUS as i64 && dy <= TRAY_HIT_RADIUS as i64
}

/// What the low-level mouse hook does with one event (see `hook_action`).
pub fn mouse_hook_action(
    is_move: bool,
    is_wheel: bool,
    over_tray: bool,
    x: i32,
    y: i32,
    cx: i32,
    cy: i32,
    mouse_data: u32,
) -> (r: HookAction)
    ensures
        r == hook_action(is_move, is_wheel, over_tray, x, y, cx, cy, mouse_data),
        r is Scroll ==> is_wheel && over_tray && cx - 40 <= x <= cx + 40 && cy - 40 <= y <= cy
            + 40,
        r is LeaveTray <==> is_move && over_tray && !(cx - 40 <= x <= cx + 40 && cy - 40 <= y
            <= cy + 40),
        r matches HookAction::Scroll(d) ==> (d == 1 <==> wheel_up(mouse_data)) && (d == 1 || d
            == -1),
{
    if is_move && over_tray {
        if pointer_near_tray(x, y, cx, cy) {
            HookAction::Ignore
        } else {
            HookAction::LeaveTray
        }
    } else if is_wheel && over_tray {
        if pointer_near_tray(x, y, cx, cy) {
            let hi = mouse_data / 65536;
            if 1 <= hi && hi <= 0x7FFF {
                HookAction::Scroll(1)
            } else {
                HookAction::Scroll(-1)
            }
        } else {
            HookAction::Ignore
        }
    } else {
        HookAction::Ignore
    }
}

/// The pointer counts as over the tray icon only when it lies within the hit
/// radius of the icon's centre along both axes: a point further than that
/// along either axis is never near, whatever its other coordinate.
pub proof fn lemma_near_both_axes(x: i32, y: i32, cx: i32, cy: i32)
    ensures
        near(x, y, cx, cy) <==> (cx - TRAY_HIT_RADIUS <= x && x <= cx + TRAY_HIT_RADIUS && cy
            - TRAY_HIT_RADIUS <= y && y <= cy + TRAY_HIT_RADIUS),
        (y < cy - TRAY_HIT_RADIUS || y > cy + TRAY_HIT_RADIUS) ==> !near(x, y, cx, cy),
        (x < cx - TRAY_HIT_RADIUS || x > cx + TRAY_HIT_RADIUS) ==> !near(x, y, cx, cy),
{
}

/// A wheel notch scrolls, by one step up or down, exactly when it comes while
/// the pointer is over the tray icon and still within the hit radius along both
/// axes; a move leaves the icon exactly when it goes beyond the radius along
/// some axis.
pub proof fn lemma_hook_action_hits(
    is_move: bool,
    is_wheel: bool,
    over_tray: bool,
    x: i32,
    y: i32,
    cx: i32,
    cy: i32,
    mouse_data: u32,
)
    ensures
        hook_action(is_move, is_wheel, over_tray, x, y, cx, cy, mouse_data) is Scroll <==> (
        !is_move && is_wheel && over_tray && cx - TRAY_HIT_RADIUS <= x && x <= cx
            + TRAY_HIT_RADIUS && cy - TRAY_HIT_RADIUS <= y && y <= cy + TRAY_HIT_RADIUS),
        hook_action(is_move, is_wheel, over_tray, x, y, cx, cy, mouse_data) is LeaveTray <==> (
        is_move && over_tray && !(cx - TRAY_HIT_RADIUS <= x && x <= cx + TRAY_HIT_RADIUS && cy
            - TRAY_HIT_RADIUS <= y && y <= cy + TRAY_HIT_RADIUS)),
        hook_action(is_move, is_wheel, over_tray, x, y, cx, cy, mouse_data) == HookAction::Scroll(
            1i32,
        ) || hook_action(is_move, is_wheel, over_tray, x, y, cx, cy, mouse_data)
            == HookAction::Scroll(-1i32) || !(hook_action(
            is_move,
            is_wheel,
            over_tray,
            x,
            y,
            cx,
            cy,
            mouse_data,
        ) is Scroll),
{
}

} // verus!
