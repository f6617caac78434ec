use dsh_pet::assets::{AssetEntry, AssetPack};
use dsh_pet::catalog::Catalog;
use dsh_pet::config::PetEntry;
use dsh_pet::menu::context_menu;
use dsh_pet::pet::{
    client_pos, decode_command, AnimEnd, MouseMove, PetCommand, PetState, MID_ACT_BASE,
    MID_AUTOSTART, MID_CLICK_BASE, MID_CORNER, MID_IDLE, MID_MOVE_BASE, MID_NOMOVE, MID_ONTOP,
    MID_QUIT_PET, MID_SCALE_BASE, MID_SPAWN, MID_TURN,
};
use dsh_pet::rng::Rng;

const IDLE: &str = "待机呼吸休闲";
const TURN: &str = "东张西望";
const DRAG: &str = "被鼠标拖拽悬空反馈";
const MOVES: [&str; 3] = ["螃蟹走路", "原地漂浮踏步", "原地左转奔跑"];
const CLICKS: [&str; 3] = ["点击回应 - 开心跃动", "点击回应 - 害羞惊讶", "点击回应 - 傲娇生气（侧身展示）"];

fn catalog_with_acts(n: usize) -> Catalog {
    let mut names: Vec<String> = vec![IDLE.into(), TURN.into(), DRAG.into()];
    names.extend(MOVES.iter().map(|s| s.to_string()));
    names.extend(CLICKS.iter().map(|s| s.to_string()));
    for i in 0..n {
        names.push(format!("act{}", i));
    }
    let entries = names
        .iter()
        .map(|n| AssetEntry { name: n.clone(), start: 0, len: 0 })
        .collect();
    Catalog::from_assets(&AssetPack::new(entries, Vec::new()).unwrap())
}

fn idle_pet(c: &Catalog) -> PetState {
    let mut s = PetState::new(&PetEntry::new());
    assert!(s.switch_anim(&c.idle));
    s
}

#[test]
fn new_pet_takes_config_flags() {
    let mut e = PetEntry::new();
    e.facing = "right".into();
    e.no_move = true;
    e.on_top = false;
    let s = PetState::new(&e);
    assert!(s.facing_right && s.no_move && !s.win_topmost && s.visible);
    assert_eq!(s.cur_anim, "");
    let mut back = PetEntry::new();
    s.save_into(&mut back);
    assert_eq!(back.facing, "right");
    assert!(back.no_move && !back.on_top);
}

#[test]
fn switching_to_the_same_animation_changes_nothing() {
    let c = catalog_with_acts(2);
    let mut s = idle_pet(&c);
    s.start_move();
    s.frame_accum_ms = 7;
    assert!(!s.switch_anim(IDLE));
    assert!(s.move_active);
    assert_eq!(s.frame_accum_ms, 7);
    assert!(s.switch_anim(TURN));
    assert!(!s.move_active);
    assert_eq!(s.frame_accum_ms, 0);
    assert_eq!(s.cur_anim, TURN);
}

#[test]
fn frame_clock_advances_when_due() {
    let c = catalog_with_acts(1);
    let mut s = idle_pet(&c);
    assert!(!s.tick_frame(0, 40));
    assert!(!s.tick_frame(30, 40));
    assert_eq!(s.frame_accum_ms, 30);
    assert!(s.tick_frame(10, 40));
    assert_eq!(s.frame_accum_ms, 0);
    assert_eq!(s.tick_move(10), None);
    s.start_move();
    assert_eq!(s.tick_move(0), None);
    assert_eq!(s.tick_move(15), Some(15));
    assert_eq!(s.tick_move(5), Some(20));
}

#[test]
fn end_of_clip_is_handled_once() {
    let c = catalog_with_acts(1);
    let mut s = idle_pet(&c);
    assert!(s.frame_ended());
    assert!(!s.frame_ended());
}

#[test]
fn turn_animation_turns_the_pet() {
    let c = catalog_with_acts(1);
    let mut s = idle_pet(&c);
    s.switch_anim(TURN);
    assert!(matches!(s.on_anim_ended(&c), AnimEnd::ChooseNext));
    assert!(s.facing_right);
    let mut r = Rng::from_state(281848216645);
    assert!(s.finish_anim_ended(&c, TURN, true, &mut r));
    assert_eq!(s.cur_anim, IDLE);
}

#[test]
fn drag_loops_while_dragging_and_clicks_return_to_idle() {
    let c = catalog_with_acts(1);
    let mut s = idle_pet(&c);
    s.switch_anim(DRAG);
    s.dragging = true;
    s.anim_ended_fired = true;
    assert!(matches!(s.on_anim_ended(&c), AnimEnd::Rewind));
    assert!(!s.anim_ended_fired);
    s.dragging = false;
    assert!(matches!(s.on_anim_ended(&c), AnimEnd::BackToIdle(true)));
    assert_eq!(s.cur_anim, IDLE);
    s.switch_anim(CLICKS[1]);
    assert!(matches!(s.on_anim_ended(&c), AnimEnd::BackToIdle(true)));
    assert_eq!(s.cur_anim, IDLE);
}

#[test]
fn click_responds_only_when_idle() {
    let c = catalog_with_acts(1);
    let mut s = idle_pet(&c);
    s.on_lbutton_down();
    let mut r = Rng::from_state(1);
    // 1082269761 % 3 == 0
    assert_eq!(s.on_lbutton_up(&c, &mut r), (false, true));
    assert_eq!(s.cur_anim, CLICKS[0]);
    s.on_lbutton_down();
    let mut r = Rng::from_state(1);
    assert_eq!(s.on_lbutton_up(&c, &mut r), (false, false));
    assert_eq!(s.cur_anim, CLICKS[0]);
    assert_eq!(r.state(), 1);
}

#[test]
fn drag_starts_past_threshold_and_ends_at_idle_then_clicks_respond() {
    let c = catalog_with_acts(1);
    let mut s = idle_pet(&c);
    assert!(matches!(s.on_mouse_move(true, &c), MouseMove::Ignore));
    s.on_lbutton_down();
    assert!(matches!(s.on_mouse_move(false, &c), MouseMove::Ignore));
    assert!(matches!(s.on_mouse_move(true, &c), MouseMove::Drag(true)));
    assert_eq!(s.cur_anim, DRAG);
    assert!(matches!(s.on_mouse_move(false, &c), MouseMove::Drag(false)));
    let mut r = Rng::from_state(1);
    assert_eq!(s.on_lbutton_up(&c, &mut r), (true, true));
    assert_eq!(s.cur_anim, IDLE);
    assert!(!s.pressed && !s.dragging);
    assert_eq!(r.state(), 1);
    s.on_lbutton_down();
    // The first draw from state 1 picks the first click response.
    assert_eq!(s.on_lbutton_up(&c, &mut r), (false, true));
    assert_eq!(s.cur_anim, CLICKS[0]);
    assert!(!s.pressed && !s.dragging && !s.move_active);
}

#[test]
fn chain_restarts_an_animation_picked_again() {
    let c = catalog_with_acts(1);
    let mut s = idle_pet(&c);
    s.frame_accum_ms = 30;
    assert!(s.frame_ended());
    // From state 1 the draw is below the idle threshold: idle follows idle.
    let mut r = Rng::from_state(1);
    assert!(!s.finish_anim_ended(&c, IDLE, true, &mut r));
    assert_eq!(s.cur_anim, IDLE);
    assert!(!s.anim_ended_fired);
    assert_eq!(s.frame_accum_ms, 0);
    assert!(s.frame_ended());
}

#[test]
fn no_move_during_walk_returns_to_idle() {
    let c = catalog_with_acts(1);
    let mut s = idle_pet(&c);
    s.trigger_move(MOVES[0], true);
    assert!(s.move_active);
    assert!(!s.may_plan_move());
    assert!(s.set_no_move(true, &c));
    assert_eq!(s.cur_anim, IDLE);
    assert!(!s.move_active);
    assert!(!s.set_no_move(false, &c));
    assert!(s.may_plan_move());
}

#[test]
fn toggles_flip_flags() {
    let c = catalog_with_acts(1);
    let mut s = idle_pet(&c);
    assert!(!s.toggle_visible());
    assert!(s.toggle_visible());
    s.set_topmost(false);
    assert!(!s.win_topmost);
}

#[test]
fn menu_ids_decode_to_their_commands() {
    let c = catalog_with_acts(42);
    assert!(matches!(decode_command(MID_IDLE, &c), PetCommand::Idle));
    assert!(matches!(decode_command(MID_TURN, &c), PetCommand::Turn));
    assert!(matches!(decode_command(MID_CORNER, &c), PetCommand::Corner));
    assert!(matches!(decode_command(MID_ONTOP, &c), PetCommand::ToggleTopmost));
    assert!(matches!(decode_command(MID_NOMOVE, &c), PetCommand::ToggleNoMove));
    assert!(matches!(decode_command(MID_AUTOSTART, &c), PetCommand::ToggleAutostart));
    assert!(matches!(decode_command(MID_SPAWN, &c), PetCommand::Spawn));
    assert!(matches!(decode_command(MID_QUIT_PET, &c), PetCommand::QuitPet));
    assert!(matches!(decode_command(MID_ACT_BASE + 41, &c), PetCommand::Act(41)));
    assert!(matches!(decode_command(MID_ACT_BASE + 42, &c), PetCommand::Nothing));
    assert!(matches!(decode_command(MID_MOVE_BASE + 2, &c), PetCommand::Move(2)));
    assert!(matches!(decode_command(MID_CLICK_BASE + 1, &c), PetCommand::Click(1)));
    assert!(matches!(decode_command(MID_SCALE_BASE + 3, &c), PetCommand::Scale(3)));
    assert!(matches!(decode_command(MID_SCALE_BASE + 4, &c), PetCommand::Nothing));
    assert!(matches!(decode_command(0, &c), PetCommand::Nothing));
    let few = catalog_with_acts(2);
    assert!(matches!(decode_command(MID_ACT_BASE + 2, &few), PetCommand::Nothing));
}

#[test]
fn apply_command_switches_and_toggles() {
    let c = catalog_with_acts(3);
    let mut s = idle_pet(&c);
    let (cmd, changed) = s.apply_command(MID_ACT_BASE + 2, &c, false);
    assert!(matches!(cmd, PetCommand::Act(2)) && changed);
    assert_eq!(s.cur_anim, "act2");
    let (cmd, changed) = s.apply_command(MID_ONTOP, &c, false);
    assert!(matches!(cmd, PetCommand::ToggleTopmost) && !changed);
    assert!(!s.win_topmost);
    let (cmd, changed) = s.apply_command(MID_CORNER, &c, true);
    assert!(matches!(cmd, PetCommand::Corner) && !changed);
    assert_eq!(s.cur_anim, "act2");
    assert!(!s.move_active);
    let (cmd, changed) = s.apply_command(MID_MOVE_BASE + 1, &c, true);
    assert!(matches!(cmd, PetCommand::Move(1)) && changed);
    assert_eq!(s.cur_anim, MOVES[1]);
    assert!(s.move_active);
    let (cmd, changed) = s.apply_command(MID_MOVE_BASE + 2, &c, false);
    assert!(matches!(cmd, PetCommand::Move(2)) && changed);
    assert_eq!(s.cur_anim, MOVES[2]);
    assert!(!s.move_active);
}

#[test]
fn context_menu_entries_carry_their_ids_and_checks() {
    let c = catalog_with_acts(42);
    let labels: Vec<String> = vec!["320px".into(), "461px".into(), "544px".into(), "640px".into()];
    let checked = vec![false, true, false, false];
    let m = context_menu(&c, true, false, true, &labels, &checked);
    assert_eq!(m.idle_turn[0].id, MID_IDLE);
    assert_eq!(m.idle_turn[1].label, TURN);
    assert_eq!(m.acts.len(), 42);
    assert_eq!(m.acts[41].id, 141);
    assert_eq!(m.moves[2].label, MOVES[2]);
    assert!(m.on_top.checked && !m.no_move.checked && m.autostart.checked);
    assert_eq!(m.corner.label, "回到右下角");
    assert_eq!(m.on_top.label, "窗口置顶");
    assert_eq!(m.no_move.label, "不移动");
    assert_eq!(m.autostart.label, "开机自启");
    assert_eq!(m.spawn.label, "生成新桌宠");
    assert_eq!(m.quit.label, "删除此桌宠");
    assert_eq!(m.scales[1].id, 181);
    assert!(m.scales[1].checked);
    for (i, e) in m.acts.iter().enumerate() {
        match decode_command(e.id, &c) {
            PetCommand::Act(k) => assert_eq!(k, i),
            _ => panic!("act entry {} decodes to another command", i),
        }
    }
}

#[test]
fn lparam_words_are_signed() {
    assert_eq!(client_pos(0x0002_0001), (1, 2));
    assert_eq!(client_pos(0xFFFF_FFFF), (-1, -1));
    assert_eq!(client_pos(0x8000_7FFF), (32767, -32768));
    assert_eq!(client_pos(-1), (-1, -1));
}
