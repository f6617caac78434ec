//! The context menu of a pet: its entries, their ids and check marks.
use vstd::prelude::*;

use crate::catalog::Catalog;
use crate::pet::{
    command_of, PetCommand, MID_ACT_BASE, MID_AUTOSTART, MID_CLICK_BASE, MID_CORNER, MID_IDLE,
    MID_MOVE_BASE, MID_NOMOVE, MID_ONTOP, MID_QUIT_PET, MID_SCALE_BASE, MID_SPAWN, MID_TURN,
    SCALE_STEP_COUNT,
};

verus! {

/// One entry of a menu.
pub struct MenuEntry {
    pub id: usize,
    pub label: String,
    pub checked: bool,
}

/// A pet's context menu: four animation submenus, the pet's switches, the
/// size submenu and the spawn and delete entries.
pub struct PetMenu {
    pub idle_turn: Vec<MenuEntry>,
    pub moves: Vec<MenuEntry>,
    pub clicks: Vec<MenuEntry>,
    pub acts: Vec<MenuEntry>,
    pub corner: MenuEntry,
    pub on_top: MenuEntry,
    pub no_move: MenuEntry,
    pub autostart: MenuEntry,
    pub scales: Vec<MenuEntry>,
    pub spawn: MenuEntry,
    pub quit: MenuEntry,
}

/// Whether `entries` lists `names` under the ids `base`, `base + 1`, ...,
/// unchecked.
pub open spec fn lists_names(entries: Seq<MenuEntry>, names: Seq<String>, base: int) -> bool {
    &&& entries.len() == names.len()
    &&& forall|i: int|
        0 <= i < entries.len() ==> {
            &&& #[trigger] entries[i].id == base + i
            &&& entries[i].label@ == names[i]@
            &&& !entries[i].checked
        }
}

fn entry(id: usize, label: &str, checked: bool) -> (e: MenuEntry)
    ensures
        e.id == id,
        e.label@ == label@,
        e.checked == checked,
{
    MenuEntry { id, label: String::from_str(label), checked }
}

fn entries_for(names: &Vec<String>, base: usize) -> (r: Vec<MenuEntry>)
    requires
        base + names@.len() <= usize::MAX,
    ensures
        lists_names(r@, names@, base as int),
{
    let mut r: Vec<MenuEntry> = Vec::new();
    let mut i: usize = 0;
    while i < names.len()
        invariant
            i <= names@.len(),
            base + names@.len() <= usize::MAX,
            r@.len() == i,
            forall|k: int|
                0 <= k < i ==> {
                    &&& #[trigger] r@[k].id == base + k
                    &&& r@[k].label@ == names@[k]@
                    &&& !r@[k].checked
                },
        decreases names@.len() - i,
    {
        r.push(MenuEntry { id: base + i, label: names[i].clone(), checked: false });
        i = i + 1;
    }
    r
}

/// The context menu of a pet with the given switches; the size entries
/// carry the labels and check marks given for them.
pub fn context_menu(
    catalog: &Catalog,
    win_topmost: bool,
    no_move: bool,
    autostart: bool,
    scale_labels: &Vec<String>,
    scale_checked: &Vec<bool>,
) -> (m: PetMenu)
    requires
        scale_labels@.len() == SCALE_STEP_COUNT,
        scale_checked@.len() == SCALE_STEP_COUNT,
        MID_ACT_BASE + catalog.acts@.len() <= usize::MAX,
        MID_MOVE_BASE + catalog.moves@.len() <= usize::MAX,
        MID_CLICK_BASE + catalog.clicks@.len() <= usize::MAX,
    ensures
        m.idle_turn@.len() == 2,
        m.idle_turn@[0].id == MID_IDLE && m.idle_turn@[0].label@ == catalog.idle@
            && !m.idle_turn@[0].checked,
        m.idle_turn@[1].id == MID_TURN && m.idle_turn@[1].label@ == catalog.turn@
            && !m.idle_turn@[1].checked,
        lists_names(m.moves@, catalog.moves@, MID_MOVE_BASE as int),
        lists_names(m.clicks@, catalog.clicks@, MID_CLICK_BASE as int),
        lists_names(m.acts@, catalog.acts@, MID_ACT_BASE as int),
        m.corner.id == MID_CORNER && !m.corner.checked && m.corner.label@ == "回到右下角"@,
        m.on_top.id == MID_ONTOP && m.on_top.checked == win_topmost && m.on_top.label@
            == "窗口置顶"@,
        m.no_move.id == MID_NOMOVE && m.no_move.checked == no_move && m.no_move.label@
            == "不移动"@,
        m.autostart.id == MID_AUTOSTART && m.autostart.checked == autostart
            && m.autostart.label@ == "开机自启"@,
        m.scales@.len() == SCALE_STEP_COUNT,
        forall|i: int|
            0 <= i < SCALE_STEP_COUNT ==> {
                &&& #[trigger] m.scales@[i].id == MID_SCALE_BASE + i
                &&& m.scales@[i].label@ == scale_labels@[i]@
                &&& m.scales@[i].checked == scale_checked@[i]
            },
        m.spawn.id == MID_SPAWN && !m.spawn.checked && m.spawn.label@ == "生成新桌宠"@,
        m.quit.id == MID_QUIT_PET && !m.quit.checked && m.quit.label@ == "删除此桌宠"@,
{
    let mut idle_turn: Vec<MenuEntry> = Vec::new();
    idle_turn.push(MenuEntry { id: MID_IDLE, label: catalog.idle.clone(), checked: false });
    idle_turn.push(MenuEntry { id: MID_TURN, label: catalog.turn.clone(), checked: false });
    let mut scales: Vec<MenuEntry> = Vec::new();
    let mut i: usize = 0;
    while i < SCALE_STEP_COUNT
        invariant
            i <= SCALE_STEP_COUNT,
            scale_labels@.len() == SCALE_STEP_COUNT,
            scale_checked@.len() == SCALE_STEP_COUNT,
            scales@.len() == i,
            forall|k: int|
                0 <= k < i ==> {
                    &&& #[trigger] scales@[k].id == MID_SCALE_BASE + k
                    &&& scales@[k].label@ == scale_labels@[k]@
                    &&& scales@[k].checked == scale_checked@[k]
                },
        decreases SCALE_STEP_COUNT - i,
    {
        let ghost before = scales@;
        let label = scale_labels[i].clone();
        let checked = scale_checked[i];
        scales.push(MenuEntry { id: MID_SCALE_BASE + i, label, checked });
        assert(scales@[i as int].label@ == scale_labels@[i as int]@);
        assert(scales@[i as int].checked == scale_checked@[i as int]);
        assert(forall|k: int| 0 <= k < i ==> scales@[k] == before[k]);
        i = i + 1;
    }
    PetMenu {
        idle_turn,
        moves: entries_for(&catalog.moves, MID_MOVE_BASE),
        clicks: entries_for(&catalog.clicks, MID_CLICK_BASE),
        acts: entries_for(&catalog.acts, MID_ACT_BASE),
        corner: entry(MID_CORNER, "回到右下角", false),
        on_top: entry(MID_ONTOP, "窗口置顶", win_topmost),
        no_move: entry(MID_NOMOVE, "不移动", no_move),
        autostart: entry(MID_AUTOSTART, "开机自启", autostart),
        scales,
        spawn: entry(MID_SPAWN, "生成新桌宠", false),
        quit: entry(MID_QUIT_PET, "删除此桌宠", false),
    }
}

/// Every entry of the context menu does what it says: the command that
/// its id decodes to names that entry's animation, switch or size. This
/// holds as long as the catalog has at most 42 random actions, 3 moves and
/// 3 click responses (the id ranges of the menu).
pub proof fn lemma_menu_commands(acts: nat, moves: nat, clicks: nat)
    requires
        acts <= 42,
        moves <= 3,
        clicks <= 3,
    ensures
        command_of(MID_IDLE, acts, moves, clicks) == PetCommand::Idle,
        command_of(MID_TURN, acts, moves, clicks) == PetCommand::Turn,
        command_of(MID_CORNER, acts, moves, clicks) == PetCommand::Corner,
        command_of(MID_ONTOP, acts, moves, clicks) == PetCommand::ToggleTopmost,
        command_of(MID_NOMOVE, acts, moves, clicks) == PetCommand::ToggleNoMove,
        command_of(MID_AUTOSTART, acts, moves, clicks) == PetCommand::ToggleAutostart,
        command_of(MID_SPAWN, acts, moves, clicks) == PetCommand::Spawn,
        command_of(MID_QUIT_PET, acts, moves, clicks) == PetCommand::QuitPet,
        forall|i: usize|
            i < acts ==> #[trigger] command_of((MID_ACT_BASE + i) as usize, acts, moves, clicks)
                == PetCommand::Act(i),
        forall|i: usize|
            i < moves ==> #[trigger] command_of((MID_MOVE_BASE + i) as usize, acts, moves, clicks)
                == PetCommand::Move(i),
        forall|i: usize|
            i < clicks ==> #[trigger] command_of((MID_CLICK_BASE + i) as usize, acts, moves, clicks)
                == PetCommand::Click(i),
        forall|i: usize|
            i < SCALE_STEP_COUNT ==> #[trigger] command_of(
                (MID_SCALE_BASE + i) as usize,
                acts,
                moves,
                clicks,
            ) == PetCommand::Scale(i),
{
}

} // verus!
