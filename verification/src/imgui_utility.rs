//! The decisions behind the editor's widgets: label strings, integer
//! inputs, and which editor windows are open.
use vstd::prelude::*;

use crate::ecs::Entity;
use crate::editor_windows::{last_flagged, last_flagged_index};

verus! {

/// The widget label `message##uid`: shown as `message`, identified by `uid`.
pub fn imgui_str(message: &str, uid: &str) -> (label: String)
    ensures
        label@ == message@ + seq!['#', '#'] + uid@,
{
    let mut label = String::from_str(message);
    label.append("##");
    proof {
        reveal_strlit("##");
    }
    label.append(uid);
    label
}

/// Applies an edit of an unsigned field through a signed integer input:
/// when the user entered `edited`, a negative entry becomes 0. Returns
/// whether the field was edited.
pub fn input_usize(value: &mut usize, edited: Option<i32>) -> (changed: bool)
    ensures
        changed == edited is Some,
        *final(value) == match edited {
            Some(v) => if v < 0 {
                0usize
            } else {
                v as usize
            },
            None => *old(value),
        },
{
    match edited {
        Some(size_val) => {
            let size_val = if size_val < 0 {
                0
            } else {
                size_val
            };
            *value = size_val as usize;
            true
        },
        None => false,
    }
}

/// Applies an edit of a signed field through an integer input. Returns
/// whether the field was edited.
pub fn input_isize(value: &mut isize, edited: Option<i32>) -> (changed: bool)
    ensures
        changed == edited is Some,
        *final(value) == match edited {
            Some(v) => v as isize,
            None => *old(value),
        },
{
    match edited {
        Some(val) => {
            *value = val as isize;
            true
        },
        None => false,
    }
}

/// What the entity-picking popup chose, given which entity buttons were
/// clicked (`clicked[i]` for `entities[i]`) and whether the "None" button
/// was: `Some(Some(entity))` for the last clicked entity, `Some(None)` for
/// "None" (which wins, as it is handled last), or `None` when nothing was
/// chosen. Also returns whether the popup closes: after a choice, or when
/// Escape was pressed.
pub fn select_entity_option(
    entities: &[Entity],
    clicked: &Vec<bool>,
    clicked_none: bool,
    pressed_escape: bool,
) -> (r: (Option<Option<Entity>>, bool))
    requires
        clicked@.len() == entities@.len(),
    ensures
        r.0 == if clicked_none {
            Some(None)
        } else {
            match last_flagged(clicked@) {
                Some(i) => Some(Some(entities@[i])),
                None => None,
            }
        },
        r.1 == (r.0 is Some || pressed_escape),
{
    let choice = if clicked_none {
        Some(None)
    } else {
        match last_flagged_index(clicked) {
            Some(i) => Some(Some(entities[i])),
            None => None,
        }
    };
    let close_popup = choice.is_some() || pressed_escape;
    (choice, close_popup)
}

/// What the entity-picking popup without a "None" choice picked: the last
/// clicked entity, or nothing (also when "None" was clicked, as it is
/// handled last). Also returns whether the popup closes: after a click of
/// any of its buttons, or when Escape was pressed.
pub fn select_entity(entities: &[Entity], clicked: &Vec<bool>, clicked_none: bool, pressed_escape: bool) -> (r: (
    Option<Entity>,
    bool,
))
    requires
        clicked@.len() == entities@.len(),
    ensures
        r.0 == if clicked_none {
            None
        } else {
            match last_flagged(clicked@) {
                Some(i) => Some(entities@[i]),
                None => None,
            }
        },
        r.1 == (clicked_none || last_flagged(clicked@) is Some || pressed_escape),
{
    let last = last_flagged_index(clicked);
    let choice = if clicked_none {
        None
    } else {
        match last {
            Some(i) => Some(entities[i]),
            None => None,
        }
    };
    let close_popup = clicked_none || last.is_some() || pressed_escape;
    (choice, close_popup)
}

/// Which editor windows and bars are shown, one bit each.
#[derive(Debug, Clone, Copy, PartialEq, Eq, Structural, Hash)]
pub struct ImGuiFlags {
    pub bits: u32,
}

impl ImGuiFlags {
    pub const TIME_KEEPER: u32 = 0b0000_0001;

    pub const SPRITE_RESOURCE: u32 = 0b0000_0010;

    pub const TILEMAP_RESOURCE: u32 = 0b0000_0100;

    pub const ENTITY_VIEWER: u32 = 0b0000_1000;

    pub const SINGLETONS: u32 = 0b0001_0000;

    pub const GAME_CONFIG: u32 = 0b0010_0000;

    pub const PREFAB_INSPECTOR: u32 = 0b0100_0000;

    pub const MAIN_MENU_BAR: u32 = 0b1000_0000;

    /// The flags whose bits are `bits`, as `bitflags` gives them.
    pub fn from_bits(bits: u32) -> (f: ImGuiFlags)
        ensures
            f.bits == bits,
    {
        ImGuiFlags { bits }
    }

    /// No window shown.
    pub fn empty() -> (f: ImGuiFlags)
        ensures
            f.bits == 0,
    {
        ImGuiFlags { bits: 0 }
    }

    /// Every bit of `other` is set in `self`.
    pub open spec fn spec_contains(self, other: ImGuiFlags) -> bool {
        self.bits & other.bits == other.bits
    }

    pub fn contains(&self, other: ImGuiFlags) -> (r: bool)
        ensures
            r == self.spec_contains(other),
    {
        self.bits & other.bits == other.bits
    }

    pub fn insert(&mut self, other: ImGuiFlags)
        ensures
            final(self).bits == old(self).bits | other.bits,
    {
        self.bits = self.bits | other.bits;
    }

    pub fn remove(&mut self, other: ImGuiFlags)
        ensures
            final(self).bits == old(self).bits & !other.bits,
    {
        self.bits = self.bits & !other.bits;
    }

    pub fn toggle(&mut self, other: ImGuiFlags)
        ensures
            final(self).bits == old(self).bits ^ other.bits,
    {
        self.bits = self.bits ^ other.bits;
    }
}

/// Shows the window of `flag` when its flag is set: `window` draws it and
/// tells whether it is still open. A window the user closed has its flag
/// cleared.
pub fn create_window<F: FnOnce() -> bool>(flags: &mut ImGuiFlags, flag: ImGuiFlags, window: F)
    requires
        old(flags).spec_contains(flag) ==> call_requires(window, ()),
    ensures
        !old(flags).spec_contains(flag) ==> *final(flags) == *old(flags),
        old(flags).spec_contains(flag) ==> exists|is_opened: bool|
            call_ensures(window, (), is_opened) && final(flags).bits == if is_opened {
                old(flags).bits
            } else {
                old(flags).bits & !flag.bits
            },
{
    if flags.contains(flag) {
        let is_opened = window();
        if is_opened == false {
            flags.remove(flag);
        }
    }
}

/// A menu entry for `flag`: clicking it toggles the flag.
pub fn menu_option(flag: ImGuiFlags, flags_to_change: &mut ImGuiFlags, clicked: bool)
    ensures
        final(flags_to_change).bits == if clicked {
            old(flags_to_change).bits ^ flag.bits
        } else {
            old(flags_to_change).bits
        },
{
    if clicked {
        flags_to_change.toggle(flag);
    }
}

/// What was clicked in the main menu bar this frame: the scene commands
/// (each button submits the name typed beside it) and the items that open
/// or close a window.
pub struct MainMenuClicks {
    pub switch_scene: bool,
    pub create_scene: bool,
    pub delete_scene: bool,
    pub component_inspector: bool,
    pub singleton_inspector: bool,
    pub sprite_inspector: bool,
    pub tile_set_inspector: bool,
    pub prefab_inspector: bool,
    pub time_keeper: bool,
    pub game_config: bool,
}

/// The scene names typed in the scene menu.
pub struct SceneNames {
    pub switch_scene_name: String,
    pub create_scene: String,
    pub delete_scene_name: String,
}

/// What the main menu bar did: whether it is shown, and the scene to
/// switch to, create and delete, in that order.
pub struct MainMenuOutcome {
    pub shown: bool,
    pub switch_scene: Option<String>,
    pub create_scene: Option<String>,
    pub delete_scene: Option<String>,
}

/// `bits` with `flag` toggled when `clicked`.
pub open spec fn toggled_if(bits: u32, clicked: bool, flag: u32) -> u32 {
    if clicked {
        bits ^ flag
    } else {
        bits
    }
}

/// The flags after the window items of the menu: each clicked item toggles
/// its window.
pub open spec fn menu_items_applied(bits: u32, c: MainMenuClicks) -> u32 {
    toggled_if(
        toggled_if(
            toggled_if(
                toggled_if(
                    toggled_if(
                        toggled_if(
                            toggled_if(bits, c.component_inspector, ImGuiFlags::ENTITY_VIEWER),
                            c.singleton_inspector,
                            ImGuiFlags::SINGLETONS,
                        ),
                        c.sprite_inspector,
                        ImGuiFlags::SPRITE_RESOURCE,
                    ),
                    c.tile_set_inspector,
                    ImGuiFlags::TILEMAP_RESOURCE,
                ),
                c.prefab_inspector,
                ImGuiFlags::PREFAB_INSPECTOR,
            ),
            c.time_keeper,
            ImGuiFlags::TIME_KEEPER,
        ),
        c.game_config,
        ImGuiFlags::GAME_CONFIG,
    )
}

/// The main menu bar: `toggle_main_menu_bar` shows or hides it; while it
/// is shown, its clicked items toggle their windows and its scene buttons
/// ask to switch to, create or delete the scene named beside them.
pub fn main_menu_bar(
    toggle_main_menu_bar: bool,
    flags: &mut ImGuiFlags,
    clicks: &MainMenuClicks,
    names: &SceneNames,
) -> (outcome: MainMenuOutcome)
    ensures
        ({
            let bar = toggled_if(old(flags).bits, toggle_main_menu_bar, ImGuiFlags::MAIN_MENU_BAR);
            &&& outcome.shown == ImGuiFlags { bits: bar }.spec_contains(
                ImGuiFlags { bits: ImGuiFlags::MAIN_MENU_BAR },
            )
            &&& final(flags).bits == if outcome.shown {
                menu_items_applied(bar, *clicks)
            } else {
                bar
            }
        }),
        match outcome.switch_scene {
            Some(n) => outcome.shown && clicks.switch_scene && n@ == names.switch_scene_name@,
            None => !(outcome.shown && clicks.switch_scene),
        },
        match outcome.create_scene {
            Some(n) => outcome.shown && clicks.create_scene && n@ == names.create_scene@,
            None => !(outcome.shown && clicks.create_scene),
        },
        match outcome.delete_scene {
            Some(n) => outcome.shown && clicks.delete_scene && n@ == names.delete_scene_name@,
            None => !(outcome.shown && clicks.delete_scene),
        },
{
    let bar = ImGuiFlags::from_bits(ImGuiFlags::MAIN_MENU_BAR);
    if toggle_main_menu_bar {
        flags.toggle(bar);
    }
    let shown = flags.contains(bar);
    if !shown {
        return MainMenuOutcome { shown, switch_scene: None, create_scene: None, delete_scene: None };
    }
    let switch_scene = if clicks.switch_scene {
        Some(names.switch_scene_name.clone())
    } else {
        None
    };
    let create_scene = if clicks.create_scene {
        Some(names.create_scene.clone())
    } else {
        None
    };
    let delete_scene = if clicks.delete_scene {
        Some(names.delete_scene_name.clone())
    } else {
        None
    };
    menu_option(ImGuiFlags::from_bits(ImGuiFlags::ENTITY_VIEWER), flags, clicks.component_inspector);
    menu_option(ImGuiFlags::from_bits(ImGuiFlags::SINGLETONS), flags, clicks.singleton_inspector);
    menu_option(ImGuiFlags::from_bits(ImGuiFlags::SPRITE_RESOURCE), flags, clicks.sprite_inspector);
    menu_option(ImGuiFlags::from_bits(ImGuiFlags::TILEMAP_RESOURCE), flags, clicks.tile_set_inspector);
    menu_option(ImGuiFlags::from_bits(ImGuiFlags::PREFAB_INSPECTOR), flags, clicks.prefab_inspector);
    menu_option(ImGuiFlags::from_bits(ImGuiFlags::TIME_KEEPER), flags, clicks.time_keeper);
    menu_option(ImGuiFlags::from_bits(ImGuiFlags::GAME_CONFIG), flags, clicks.game_config);
    MainMenuOutcome { shown, switch_scene, create_scene, delete_scene }
}

/// Toggling the same flags twice restores them.
pub proof fn lemma_toggle_twice(bits: u32, flag: u32)
    ensures
        (bits ^ flag) ^ flag == bits,
{
    assert((bits ^ flag) ^ flag == bits) by (bit_vector);
}

/// After inserting a flag the flags contain it, and after removing it they
/// share no bit with it.
pub proof fn lemma_insert_remove(bits: u32, flag: u32)
    ensures
        (ImGuiFlags { bits: bits | flag }).spec_contains((ImGuiFlags { bits: flag })),
        (bits & !flag) & flag == 0,
{
    assert((bits | flag) & flag == flag) by (bit_vector);
    assert((bits & !flag) & flag == 0) by (bit_vector);
}

/// A window whose flag is cleared is shown no more: once `create_window`
/// cleared a flag with a single bit, the flags no longer contain it.
pub proof fn lemma_closed_window_stays_closed(bits: u32, flag: u32)
    requires
        flag != 0,
    ensures
        !(ImGuiFlags { bits: bits & !flag }).spec_contains((ImGuiFlags { bits: flag })),
{
    assert((bits & !flag) & flag == 0) by (bit_vector);
}

/// The first step of an optional-value selector: choosing "Some" on an
/// empty value fills it with the default. Returns whether the value
/// changed, and whether the editor for a present value runs next (it runs
/// whenever the value is present).
pub fn option_selection_some<T: Default>(option: &mut Option<T>, clicky_some: bool) -> (r: (bool, bool))
    ensures
        r.0 == (clicky_some && (*old(option)) is None),
        r.0 ==> (*final(option)) is Some,
        !r.0 ==> *final(option) == *old(option),
        r.1 == (*final(option)) is Some,
{
    let mut changed = false;
    if clicky_some && option.is_none() {
        *option = Some(T::default());
        changed = true;
    }
    (changed, option.is_some())
}

/// The second step of an optional-value selector, after the editor for a
/// present value ran: choosing "None" on a present value empties it.
/// Returns whether the value changed, and whether the editor for an empty
/// value runs next (it runs whenever the value is empty).
pub fn option_selection_none<T>(option: &mut Option<T>, clicky_none: bool) -> (r: (bool, bool))
    ensures
        r.0 == (clicky_none && (*old(option)) is Some),
        r.0 ==> (*final(option)) is None,
        !r.0 ==> *final(option) == *old(option),
        r.1 == (*final(option)) is None,
{
    let mut changed = false;
    if clicky_none && option.is_some() {
        *option = None;
        changed = true;
    }
    (changed, option.is_none())
}

} // verus!
