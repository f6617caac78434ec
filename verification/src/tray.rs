//! The tray icon's bookkeeping and the decoding of its messages and menu.
use vstd::prelude::*;

verus! {

/// Menu ids of the tray menu.
pub const TRAY_TOGGLE_VISIBLE: usize = 1001;
pub const TRAY_AUTOSTART: usize = 1002;
pub const TRAY_SPAWN: usize = 1003;
pub const TRAY_QUIT: usize = 1004;
pub const TRAY_ROLE_BASE: usize = 1100;

/// The notification the tray icon sends on a left double click
/// (`WM_LBUTTONDBLCLK`).
pub const TRAY_LBUTTON_DBLCLK: u32 = 0x0203;

/// The notification the tray icon sends when the right button goes up
/// (`WM_RBUTTONUP`).
pub const TRAY_RBUTTON_UP: u32 = 0x0205;

/// Whether the tray icon was added (and so has to be removed).
pub struct Tray {
    added: bool,
}

impl View for Tray {
    type V = bool;

    closed spec fn view(&self) -> bool {
        self.added
    }
}

impl Tray {
    /// A tray with no icon added.
    pub fn new() -> (t: Tray)
        ensures
            !t@,
    {
        Tray { added: false }
    }

    /// Whether the icon was added.
    pub fn is_added(&self) -> (r: bool)
        ensures
            r == self@,
    {
        self.added
    }

    /// Whether an icon can be added at all: a null icon handle cannot.
    pub fn can_add(icon: isize) -> (r: bool)
        ensures
            r == (icon != 0),
    {
        icon != 0
    }

    /// Records whether adding the icon succeeded.
    pub fn record_add(&mut self, ok: bool)
        ensures
            final(self)@ == ok,
    {
        self.added = ok;
    }

    /// Starts removing the icon: returns whether there is one to remove; it
    /// counts as removed from here on.
    pub fn take_added(&mut self) -> (was: bool)
        ensures
            was == old(self)@,
            !final(self)@,
    {
        let was = self.added;
        self.added = false;
        was
    }
}

impl Default for Tray {
    /// A tray with no icon added.
    fn default() -> (t: Tray)
        ensures
            !t@,
    {
        Tray::new()
    }
}

/// What a click on the tray icon asks for.
pub enum TrayEvent {
    ToggleVisible,
    ShowMenu,
    Nothing,
}

/// Decodes the tray icon's callback message from its `lparam`.
pub fn decode_tray_event(lparam: isize) -> (e: TrayEvent)
    ensures
        e == if (lparam as u64) & 0xFFFF == TRAY_LBUTTON_DBLCLK as u64 {
            TrayEvent::ToggleVisible
        } else if (lparam as u64) & 0xFFFF == TRAY_RBUTTON_UP as u64 {
            TrayEvent::ShowMenu
        } else {
            TrayEvent::Nothing
        },
{
    let low = (lparam as u64) & 0xFFFF;
    if low == TRAY_LBUTTON_DBLCLK as u64 {
        TrayEvent::ToggleVisible
    } else if low == TRAY_RBUTTON_UP as u64 {
        TrayEvent::ShowMenu
    } else {
        TrayEvent::Nothing
    }
}

/// What an entry of the tray menu asks for.
pub enum TrayCommand {
    ToggleVisible,
    ToggleAutostart,
    Spawn,
    Quit,
    SwitchCharacter(usize),
    Nothing,
}

/// Decodes the tray menu command `cmd` when `n_characters` characters are
/// listed.
pub fn decode_tray_command(cmd: usize, n_characters: usize) -> (c: TrayCommand)
    ensures
        c == if cmd == TRAY_TOGGLE_VISIBLE {
            TrayCommand::ToggleVisible
        } else if cmd == TRAY_AUTOSTART {
            TrayCommand::ToggleAutostart
        } else if cmd == TRAY_SPAWN {
            TrayCommand::Spawn
        } else if cmd == TRAY_QUIT {
            TrayCommand::Quit
        } else if TRAY_ROLE_BASE <= cmd < TRAY_ROLE_BASE + 100 && cmd - TRAY_ROLE_BASE
            < n_characters {
            TrayCommand::SwitchCharacter((cmd - TRAY_ROLE_BASE) as usize)
        } else {
            TrayCommand::Nothing
        },
{
    if cmd == TRAY_TOGGLE_VISIBLE {
        TrayCommand::ToggleVisible
    } else if cmd == TRAY_AUTOSTART {
        TrayCommand::ToggleAutostart
    } else if cmd == TRAY_SPAWN {
        TrayCommand::Spawn
    } else if cmd == TRAY_QUIT {
        TrayCommand::Quit
    } else if cmd >= TRAY_ROLE_BASE && cmd < TRAY_ROLE_BASE + 100 && cmd - TRAY_ROLE_BASE
        < n_characters {
        TrayCommand::SwitchCharacter(cmd - TRAY_ROLE_BASE)
    } else {
        TrayCommand::Nothing
    }
}

} // verus!
