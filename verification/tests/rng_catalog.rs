use dsh_pet::assets::{asset, AssetEntry, AssetPack};
use dsh_pet::catalog::{pick_next, Catalog, T_ACTS, T_IDLE, T_TURN};
use dsh_pet::rng::{init_random, Rng, INITIAL_STATE};

fn xorshift(mut x: u64) -> u64 {
    x ^= x << 13;
    x ^= x >> 7;
    x ^= x << 17;
    x
}

const IDLE: &str = "待机呼吸休闲";
const TURN: &str = "东张西望";
const DRAG: &str = "被鼠标拖拽悬空反馈";
const MOVES: [&str; 3] = ["螃蟹走路", "原地漂浮踏步", "原地左转奔跑"];
const CLICKS: [&str; 3] = ["点击回应 - 开心跃动", "点击回应 - 害羞惊讶", "点击回应 - 傲娇生气（侧身展示）"];

fn pack_of(names: &[&str]) -> AssetPack {
    let mut entries = Vec::new();
    let mut pak = Vec::new();
    for (i, n) in names.iter().enumerate() {
        entries.push(AssetEntry { name: n.to_string(), start: pak.len(), len: 2 });
        pak.push(i as u8);
        pak.push(0xAA);
    }
    AssetPack::new(entries, pak).unwrap()
}

fn sample_catalog() -> Catalog {
    let names = vec![
        IDLE, "a0", TURN, "a1", MOVES[0], "a2", MOVES[1], MOVES[2], CLICKS[0], "a3", CLICKS[1],
        CLICKS[2], DRAG, "a4",
    ];
    Catalog::from_assets(&pack_of(&names))
}

#[test]
fn xorshift_steps_match_reference() {
    let mut r = Rng::from_state(1);
    assert_eq!(r.next_rand(), 0x40822041);
    assert_eq!(r.next_rand(), 0x100041060c011441);
    assert_eq!(r.state(), 0x100041060c011441);
    let mut r = Rng::from_state(1);
    assert_eq!(r.rand_u32(), 1082269761);
    let mut r = Rng::from_state(0x100041060c011441);
    assert_eq!(r.rand_unit53(), 5457771808805060);
    assert_eq!(r.state(), 0x9b1e842f6e862629);
}

#[test]
fn unseeded_generator_starts_from_golden_ratio_constant() {
    let mut r = Rng::new();
    assert_eq!(r.state(), 0x9E3779B97F4A7C15);
    assert_eq!(r.next_rand(), xorshift(0x9E3779B97F4A7C15));
}

#[test]
fn init_random_mixes_the_clock_into_the_state() {
    let mut r = Rng::from_state(5);
    init_random(&mut r, Some(0));
    assert_eq!(r.state(), INITIAL_STATE);
    init_random(&mut r, Some(0xFF));
    assert_eq!(r.state(), 0xFF ^ INITIAL_STATE);
    init_random(&mut r, None);
    assert_eq!(r.state(), 0xFF ^ INITIAL_STATE);
}

#[test]
fn thresholds_match_the_chain_probabilities() {
    let two53 = (1u64 << 53) as f64;
    assert!((T_IDLE as f64 / two53) >= 0.30 && ((T_IDLE - 1) as f64 / two53) < 0.30);
    assert!((T_TURN as f64 / two53) >= 0.40 && ((T_TURN - 1) as f64 / two53) < 0.40);
    assert!((T_ACTS as f64 / two53) >= 0.80 && ((T_ACTS - 1) as f64 / two53) < 0.80);
}

#[test]
fn chain_shares_are_thirty_ten_forty_twenty() {
    let all: i128 = 1i128 << 53;
    let shares = [
        (T_IDLE as i128, 3),
        (T_TURN as i128 - T_IDLE as i128, 1),
        (T_ACTS as i128 - T_TURN as i128, 4),
        (all - T_ACTS as i128, 2),
    ];
    for (count, tenths) in shares {
        assert!((10 * count - tenths * all).abs() < 10);
    }
}

#[test]
fn from_assets_splits_roles_and_random_actions() {
    let c = sample_catalog();
    assert_eq!(c.idle, IDLE);
    assert_eq!(c.turn, TURN);
    assert_eq!(c.drag, DRAG);
    assert_eq!(c.moves, MOVES.iter().map(|s| s.to_string()).collect::<Vec<_>>());
    assert_eq!(c.clicks, CLICKS.iter().map(|s| s.to_string()).collect::<Vec<_>>());
    assert_eq!(c.acts, vec!["a0", "a1", "a2", "a3", "a4"]);
    assert_eq!(c.names.len(), 14);
    assert_eq!(c.names[1], "a0");
}

#[test]
fn pick_from_empty_pool_gives_empty_string_and_keeps_generator() {
    let mut r = Rng::from_state(1);
    let p = Catalog::pick(&[], Some("x"), &mut r);
    assert_eq!(p, "");
    assert_eq!(r.state(), 1);
}

#[test]
fn pick_uses_low_bits_modulo_pool_size() {
    let pool: Vec<String> = vec!["p0".into(), "p1".into(), "p2".into()];
    let mut r = Rng::from_state(1);
    // 1082269761 % 3 == 0
    assert_eq!(Catalog::pick(&pool, None, &mut r), "p0");
    assert_eq!(r.state(), 0x40822041);
}

#[test]
fn pick_skips_excluded_name_to_the_next() {
    let pool: Vec<String> = vec!["p0".into(), "p1".into(), "p2".into()];
    let mut r = Rng::from_state(1);
    assert_eq!(Catalog::pick(&pool, Some("p0"), &mut r), "p1");
    let single: Vec<String> = vec!["only".into()];
    let mut r = Rng::from_state(1);
    assert_eq!(Catalog::pick(&single, Some("only"), &mut r), "only");
}

#[test]
fn pick_next_follows_each_branch_of_the_chain() {
    let c = sample_catalog();
    let mut r = Rng::from_state(281848216645);
    assert_eq!(pick_next(&c, "a0", false, true, &mut r), IDLE);
    assert_eq!(r.state(), 5158943150494261757);
    let mut r = Rng::from_state(487983242827);
    assert_eq!(pick_next(&c, "a0", false, true, &mut r), TURN);
    let mut r = Rng::from_state(394027974809);
    assert_eq!(pick_next(&c, "a0", false, true, &mut r), "a3");
    assert_eq!(r.state(), 15490317342545789250);
    let mut r = Rng::from_state(394027974809);
    assert_eq!(pick_next(&c, "a3", false, true, &mut r), "a4");
    let mut r = Rng::from_state(716142411305);
    assert_eq!(pick_next(&c, "a0", false, true, &mut r), MOVES[2]);
    let mut r = Rng::from_state(716142411305);
    assert_eq!(pick_next(&c, "a0", true, true, &mut r), "a1");
    let mut r = Rng::from_state(716142411305);
    assert_eq!(pick_next(&c, "a0", false, false, &mut r), "a1");
}

#[test]
fn no_move_never_picks_a_walk() {
    let c = sample_catalog();
    let mut r = Rng::from_state(12345);
    for _ in 0..2000 {
        let n = pick_next(&c, "a2", true, true, &mut r);
        assert!(!MOVES.contains(&n.as_str()));
    }
}

#[test]
fn asset_returns_the_first_named_range() {
    let entries = vec![
        AssetEntry { name: "x".into(), start: 0, len: 2 },
        AssetEntry { name: "y".into(), start: 2, len: 3 },
        AssetEntry { name: "x".into(), start: 4, len: 1 },
    ];
    let pack = AssetPack::new(entries, vec![1, 2, 3, 4, 5]).unwrap();
    assert_eq!(asset(&pack, "x"), Some(&[1u8, 2][..]));
    assert_eq!(asset(&pack, "y"), Some(&[3u8, 4, 5][..]));
    assert_eq!(asset(&pack, "z"), None);
    assert_eq!(pack.names(), vec!["x", "y", "x"]);
}

#[test]
fn asset_pack_refuses_ranges_outside_the_blob() {
    let entries = vec![AssetEntry { name: "x".into(), start: 3, len: 3 }];
    assert!(AssetPack::new(entries, vec![0; 5]).is_none());
    let entries = vec![AssetEntry { name: "x".into(), start: usize::MAX, len: 2 }];
    assert!(AssetPack::new(entries, vec![0; 5]).is_none());
    let entries = vec![AssetEntry { name: "x".into(), start: 5, len: 0 }];
    assert!(AssetPack::new(entries, vec![0; 5]).is_some());
}
