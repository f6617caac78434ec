use vstd::prelude::*;

use crate::assets::{entry_names, str_eq, AssetPack};
use crate::rng::{xorshift_step, Rng};

verus! {

/// Milliseconds per animation frame when a clip states none.
pub const FRAME_MS: u32 = 40;

/// A uniform draw `k / 2^53` is below 0.30 exactly when `k` is below this.
pub const T_IDLE: u64 = 2702159776422298;

/// A uniform draw `k / 2^53` is below 0.40 exactly when `k` is below this.
pub const T_TURN: u64 = 3602879701896397;

/// A uniform draw `k / 2^53` is below 0.80 exactly when `k` is below this.
pub const T_ACTS: u64 = 7205759403792794;

pub open spec fn idle_name() -> Seq<char> {
    "待机呼吸休闲"@
}

pub open spec fn turn_name() -> Seq<char> {
    "东张西望"@
}

pub open spec fn drag_name() -> Seq<char> {
    "被鼠标拖拽悬空反馈"@
}

pub open spec fn move_names() -> Seq<Seq<char>> {
    seq!["螃蟹走路"@, "原地漂浮踏步"@, "原地左转奔跑"@]
}

pub open spec fn click_names() -> Seq<Seq<char>> {
    seq!["点击回应 - 开心跃动"@, "点击回应 - 害羞惊讶"@, "点击回应 - 傲娇生气（侧身展示）"@]
}

/// The animations with a fixed role: idle, turn, the moves, the click
/// responses and the drag feedback.
pub open spec fn special_names() -> Seq<Seq<char>> {
    seq![idle_name(), turn_name()] + move_names() + click_names() + seq![drag_name()]
}

/// `names` without the special animations, in their order.
pub open spec fn acts_of(names: Seq<Seq<char>>) -> Seq<Seq<char>>
    decreases names.len(),
{
    if names.len() == 0 {
        seq![]
    } else {
        let rest = acts_of(names.drop_last());
        if special_names().contains(names.last()) {
            rest
        } else {
            rest.push(names.last())
        }
    }
}

/// The animation catalog: the fixed roles and the pool of random actions.
pub struct Catalog {
    pub idle: String,
    pub turn: String,
    pub moves: Vec<String>,
    pub clicks: Vec<String>,
    pub drag: String,
    pub acts: Vec<String>,
    pub names: Vec<String>,
}

/// The characters of an optional string.
pub open spec fn opt_str_view(e: Option<&str>) -> Option<Seq<char>> {
    match e {
        Some(s) => Some(s@),
        None => None,
    }
}

/// The position `pick` takes in a non-empty `pool` for the draw `roll`.
pub open spec fn pick_index(pool: Seq<Seq<char>>, exclude: Option<Seq<char>>, roll: u32) -> int {
    let idx = (roll as int) % (pool.len() as int);
    match exclude {
        Some(e) => if pool.len() > 1 && pool[idx] == e {
            (idx + 1) % (pool.len() as int)
        } else {
            idx
        },
        None => idx,
    }
}

/// What `pick` returns from generator state `s`.
pub open spec fn pick_result(pool: Seq<Seq<char>>, exclude: Option<Seq<char>>, s: u64) -> Seq<char> {
    if pool.len() == 0 {
        Seq::empty()
    } else {
        pool[pick_index(pool, exclude, xorshift_step(s) as u32)]
    }
}

/// The generator state after `pick` from state `s`.
pub open spec fn pick_state(pool: Seq<Seq<char>>, s: u64) -> u64 {
    if pool.len() == 0 {
        s
    } else {
        xorshift_step(s)
    }
}

/// The animation that follows `current` in the chain, from generator state `s`.
pub open spec fn next_anim(
    c: &Catalog,
    current: Seq<char>,
    no_move: bool,
    can_move: bool,
    s: u64,
) -> Seq<char> {
    let s1 = xorshift_step(s);
    let k = s1 >> 11u64;
    if k < T_IDLE {
        c.idle@
    } else if k < T_TURN {
        c.turn@
    } else if k < T_ACTS {
        pick_result(c.acts.deep_view(), Some(current), s1)
    } else if !no_move && can_move {
        pick_result(c.moves.deep_view(), None, s1)
    } else {
        pick_result(c.acts.deep_view(), Some(current), s1)
    }
}

/// The generator state after choosing the next animation from state `s`.
pub open spec fn next_anim_state(c: &Catalog, no_move: bool, can_move: bool, s: u64) -> u64 {
    let s1 = xorshift_step(s);
    let k = s1 >> 11u64;
    if k < T_TURN {
        s1
    } else if k < T_ACTS || no_move || !can_move {
        pick_state(c.acts.deep_view(), s1)
    } else {
        pick_state(c.moves.deep_view(), s1)
    }
}

fn lit(s: &str) -> (r: String)
    ensures
        r@ == s@,
{
    String::from_str(s)
}

fn special_list() -> (r: Vec<String>)
    ensures
        r.deep_view() == special_names(),
{
    let mut r: Vec<String> = Vec::new();
    r.push(lit("待机呼吸休闲"));
    r.push(lit("东张西望"));
    r.push(lit("螃蟹走路"));
    r.push(lit("原地漂浮踏步"));
    r.push(lit("原地左转奔跑"));
    r.push(lit("点击回应 - 开心跃动"));
    r.push(lit("点击回应 - 害羞惊讶"));
    r.push(lit("点击回应 - 傲娇生气（侧身展示）"));
    r.push(lit("被鼠标拖拽悬空反馈"));
    assert(r.deep_view() =~= special_names());
    r
}

/// Whether `list` holds a string equal to `s`.
pub fn contains_string(list: &Vec<String>, s: &String) -> (r: bool)
    ensures
        r == list.deep_view().contains(s@),
{
    let mut i: usize = 0;
    while i < list.len()
        invariant
            i <= list@.len(),
            forall|j: int| 0 <= j < i ==> list.deep_view()[j] != s@,
        decreases list@.len() - i,
    {
        if list[i] == *s {
            assert(list.deep_view()[i as int] == s@);
            return true;
        }
        i = i + 1;
    }
    proof {
        if list.deep_view().contains(s@) {
            let j = choose|j: int| 0 <= j < list.deep_view().len() && list.deep_view()[j] == s@;
            assert(list.deep_view()[j] != s@);
        }
    }
    false
}

impl Catalog {
    /// The catalog of the animations in `pack`: the fixed roles, and as
    /// random actions every animation of the pack that has no fixed role.
    pub fn from_assets(pack: &AssetPack) -> (c: Catalog)
        ensures
            c.idle@ == idle_name(),
            c.turn@ == turn_name(),
            c.drag@ == drag_name(),
            c.moves.deep_view() == move_names(),
            c.clicks.deep_view() == click_names(),
            c.names.deep_view() == entry_names(pack.entries()),
            c.acts.deep_view() == acts_of(entry_names(pack.entries())),
    {
        let names = pack.names();
        let special = special_list();
        let mut acts: Vec<String> = Vec::new();
        let mut i: usize = 0;
        while i < names.len()
            invariant
                i <= names@.len(),
                special.deep_view() == special_names(),
                acts.deep_view() == acts_of(names.deep_view().take(i as int)),
            decreases names@.len() - i,
        {
            let ghost prefix = names.deep_view().take(i as int + 1);
            assert(prefix.drop_last() =~= names.deep_view().take(i as int));
            assert(prefix.last() == names.deep_view()[i as int]);
            if !contains_string(&special, &names[i]) {
                acts.push(names[i].clone());
                assert(acts.deep_view() =~= acts_of(prefix));
            }
            i = i + 1;
        }
        assert(names.deep_view().take(names@.len() as int) =~= names.deep_view());
        let mut moves: Vec<String> = Vec::new();
        moves.push(lit("螃蟹走路"));
        moves.push(lit("原地漂浮踏步"));
        moves.push(lit("原地左转奔跑"));
        let mut clicks: Vec<String> = Vec::new();
        clicks.push(lit("点击回应 - 开心跃动"));
        clicks.push(lit("点击回应 - 害羞惊讶"));
        clicks.push(lit("点击回应 - 傲娇生气（侧身展示）"));
        assert(moves.deep_view() =~= move_names());
        assert(clicks.deep_view() =~= click_names());
        Catalog {
            idle: lit("待机呼吸休闲"),
            turn: lit("东张西望"),
            moves,
            clicks,
            drag: lit("被鼠标拖拽悬空反馈"),
            acts,
            names,
        }
    }

    /// Picks a name from `pool` with the generator; where `exclude` is given,
    /// the pool has more than one name and the draw hits `exclude`, the next
    /// name (cyclically) is taken instead. An empty pool gives the empty
    /// string and leaves the generator as it was.
    pub fn pick(pool: &[String], exclude: Option<&str>, rng: &mut Rng) -> (r: String)
        ensures
            r@ == pick_result(pool.deep_view(), opt_str_view(exclude), old(rng)@),
            final(rng)@ == pick_state(pool.deep_view(), old(rng)@),
    {
        if pool.len() == 0 {
            return String::new();
        }
        let roll = rng.rand_u32();
        let n = pool.len();
        let mut idx = (roll as usize) % n;
        if let Some(e) = exclude {
            if n > 1 && str_eq(pool[idx].as_str(), e) {
                idx = (idx + 1) % n;
            }
        }
        pool[idx].clone()
    }
}

/// The next animation of the chain after `current`: 30% idle, 10% turn,
/// 40% a random action other than `current`, 20% a move; where moving is
/// switched off or impossible the move share goes to the random actions.
pub fn pick_next(catalog: &Catalog, current: &str, no_move: bool, can_move: bool, rng: &mut Rng) -> (r: String)
    ensures
        r@ == next_anim(catalog, current@, no_move, can_move, old(rng)@),
        final(rng)@ == next_anim_state(catalog, no_move, can_move, old(rng)@),
{
    let k = rng.rand_unit53();
    if k < T_IDLE {
        return catalog.idle.clone();
    }
    if k < T_TURN {
        return catalog.turn.clone();
    }
    if k < T_ACTS {
        return Catalog::pick(catalog.acts.as_slice(), Some(current), rng);
    }
    if !no_move && can_move {
        return Catalog::pick(catalog.moves.as_slice(), None, rng);
    }
    Catalog::pick(catalog.acts.as_slice(), Some(current), rng)
}

} // verus!

verus! {

/// The shares of the chain: of the 2^53 equally likely draws of
/// `rand_unit53`, the idle animation takes 30%, the turn 10%, the random
/// actions 40% and the rest (walks, or actions where walking is off) 20%,
/// each to within one draw.
pub proof fn lemma_chain_shares()
    ensures
        0 < T_IDLE < T_TURN < T_ACTS < 0x20_0000_0000_0000,
        -10 < 10 * T_IDLE - 3 * 0x20_0000_0000_0000 < 10,
        -10 < 10 * (T_TURN - T_IDLE) - 0x20_0000_0000_0000 < 10,
        -10 < 10 * (T_ACTS - T_TURN) - 4 * 0x20_0000_0000_0000 < 10,
        -10 < 10 * (0x20_0000_0000_0000 - T_ACTS) - 2 * 0x20_0000_0000_0000 < 10,
{
}

/// A non-empty pool always yields one of its names.
pub proof fn lemma_pick_in_pool(pool: Seq<Seq<char>>, exclude: Option<Seq<char>>, s: u64)
    requires
        pool.len() > 0,
    ensures
        pool.contains(pick_result(pool, exclude, s)),
{
    let i = pick_index(pool, exclude, xorshift_step(s) as u32);
    assert(0 <= i < pool.len());
    assert(pool[i] == pick_result(pool, exclude, s));
}

/// From a pool of more than one distinct name, the excluded name is never
/// picked.
pub proof fn lemma_pick_avoids_excluded(pool: Seq<Seq<char>>, e: Seq<char>, s: u64)
    requires
        pool.len() > 1,
        pool.no_duplicates(),
    ensures
        pick_result(pool, Some(e), s) != e,
{
    let roll = xorshift_step(s) as u32;
    let idx = (roll as int) % (pool.len() as int);
    if pool[idx] == e {
        let n = pool.len() as int;
        let j = (idx + 1) % n;
        if idx + 1 < n {
            vstd::arithmetic::div_mod::lemma_small_mod((idx + 1) as nat, n as nat);
        } else {
            assert(idx + 1 == n);
            vstd::arithmetic::div_mod::lemma_mod_self_0(n);
        }
        assert(j != idx);
        assert(pool[j] != pool[idx]);
    }
}

/// Every random action is an animation of the list and has no fixed role,
/// and every animation of the list without a fixed role is a random action.
pub proof fn lemma_acts_partition(names: Seq<Seq<char>>)
    ensures
        forall|i: int|
            0 <= i < acts_of(names).len() ==> names.contains(#[trigger] acts_of(names)[i])
                && !special_names().contains(acts_of(names)[i]),
        forall|i: int|
            0 <= i < names.len() && !special_names().contains(#[trigger] names[i])
                ==> acts_of(names).contains(names[i]),
    decreases names.len(),
{
    if names.len() > 0 {
        let rest = names.drop_last();
        lemma_acts_partition(rest);
        assert forall|i: int|
            0 <= i < acts_of(names).len() implies names.contains(#[trigger] acts_of(names)[i])
                && !special_names().contains(acts_of(names)[i]) by {
            if i < acts_of(rest).len() {
                assert(acts_of(names)[i] == acts_of(rest)[i]);
                let k = choose|k: int| 0 <= k < rest.len() && rest[k] == acts_of(rest)[i];
                assert(names[k] == rest[k]);
            } else {
                assert(acts_of(names)[i] == names.last());
                assert(names[names.len() - 1] == names.last());
            }
        }
        assert forall|i: int|
            0 <= i < names.len() && !special_names().contains(#[trigger] names[i])
                implies acts_of(names).contains(names[i]) by {
            if i < names.len() - 1 {
                assert(rest[i] == names[i]);
                let k = choose|k: int| 0 <= k < acts_of(rest).len() && acts_of(rest)[k] == rest[i];
                assert(acts_of(names)[k] == acts_of(rest)[k]);
            } else {
                assert(acts_of(names)[acts_of(rest).len() as int] == names[i]);
            }
        }
    }
}

/// The chain only ever moves on to the idle animation, the turn animation, a
/// random action, or (where moving is allowed and possible) a move.
pub proof fn lemma_next_anim_roles(
    c: &Catalog,
    current: Seq<char>,
    no_move: bool,
    can_move: bool,
    s: u64,
)
    requires
        c.acts@.len() > 0,
        c.moves@.len() > 0,
    ensures
        ({
            let r = next_anim(c, current, no_move, can_move, s);
            ||| r == c.idle@
            ||| r == c.turn@
            ||| c.acts.deep_view().contains(r)
            ||| (!no_move && can_move && c.moves.deep_view().contains(r))
        }),
{
    let s1 = xorshift_step(s);
    lemma_pick_in_pool(c.acts.deep_view(), Some(current), s1);
    lemma_pick_in_pool(c.moves.deep_view(), None, s1);
}

} // verus!

verus! {

proof fn lemma_roles_are_not_moves()
    ensures
        !move_names().contains(idle_name()),
        !move_names().contains(turn_name()),
        !move_names().contains(Seq::<char>::empty()),
        forall|i: int| 0 <= i < move_names().len() ==> special_names().contains(#[trigger] move_names()[i]),
{
    reveal_strlit("待机呼吸休闲");
    reveal_strlit("东张西望");
    reveal_strlit("螃蟹走路");
    reveal_strlit("原地漂浮踏步");
    reveal_strlit("原地左转奔跑");
    let m = move_names();
    assert(m[0][0] != idle_name()[0]);
    assert(m[1][0] != idle_name()[0]);
    assert(m[2][0] != idle_name()[0]);
    assert(m[0][0] != turn_name()[0]);
    assert(m[1][0] != turn_name()[0]);
    assert(m[2][0] != turn_name()[0]);
    assert(m[0].len() > 0 && m[1].len() > 0 && m[2].len() > 0);
    assert forall|i: int| 0 <= i < m.len() implies special_names().contains(#[trigger] m[i]) by {
        assert(special_names()[2 + i] == m[i]);
    }
}

/// With walking switched off, a catalog built from the assets never moves
/// on to a walk animation.
pub proof fn lemma_no_move_never_walks(c: &Catalog, current: Seq<char>, can_move: bool, s: u64)
    requires
        c.idle@ == idle_name(),
        c.turn@ == turn_name(),
        c.moves.deep_view() == move_names(),
        c.acts.deep_view() == acts_of(c.names.deep_view()),
    ensures
        !move_names().contains(next_anim(c, current, true, can_move, s)),
{
    lemma_roles_are_not_moves();
    lemma_acts_partition(c.names.deep_view());
    let acts = c.acts.deep_view();
    let r = next_anim(c, current, true, can_move, s);
    if acts.len() > 0 {
        lemma_pick_in_pool(acts, Some(current), xorshift_step(s));
    }
    if move_names().contains(r) && r != c.idle@ && r != c.turn@ && acts.len() > 0 {
        let k = choose|k: int| 0 <= k < acts.len() && acts[k] == r;
        let j = choose|j: int| 0 <= j < move_names().len() && move_names()[j] == r;
        assert(special_names().contains(move_names()[j]));
        assert(!special_names().contains(acts[k]));
    }
}

} // verus!

verus! {

/// A pick by the draw: the pick takes the generator's next state, and the
/// low 32 bits of it, modulo the size of the pool, choose the name; where
/// that name is the excluded one and the pool holds more than one name, the
/// name after it (cyclically) is taken instead. So with no exclusion each
/// name of the pool is the result for the draws that select its position.
pub proof fn lemma_pick_by_draw(pool: Seq<Seq<char>>, exclude: Option<Seq<char>>, s: u64)
    requires
        pool.len() > 0,
    ensures
        ({
            let n = pool.len() as int;
            let i = ((xorshift_step(s) as u32) as int) % n;
            &&& exclude is None ==> pick_result(pool, exclude, s) == pool[i]
            &&& exclude matches Some(e) ==> pick_result(pool, exclude, s) == (if n > 1 && pool[i]
                == e {
                pool[(i + 1) % n]
            } else {
                pool[i]
            })
            &&& pick_state(pool, s) == xorshift_step(s)
        }),
{
}

/// The chain by the draw: with `k` the top 53 bits of the generator's next
/// state, a draw with `k / 2^53` below 0.3 goes to the idle animation, from
/// 0.3 to below 0.4 to the turn, from 0.4 to below 0.8 to a random action
/// (a second draw picks it, passing over `current`), and from 0.8 on to a
/// walk where walking is on and possible, else to a random action too. The
/// generator moves one step for the choice and one more for a pick.
pub proof fn lemma_chain_by_draw(
    c: &Catalog,
    current: Seq<char>,
    no_move: bool,
    can_move: bool,
    s: u64,
)
    ensures
        ({
            let s1 = xorshift_step(s);
            let k = (s1 >> 11u64) as int;
            let two53 = 0x20_0000_0000_0000int;
            let roll = (xorshift_step(s1) as u32) as int;
            let acts = c.acts.deep_view();
            let moves = c.moves.deep_view();
            let r = next_anim(c, current, no_move, can_move, s);
            let act = if acts.len() == 0 {
                Seq::<char>::empty()
            } else {
                let i = roll % (acts.len() as int);
                if acts.len() > 1 && acts[i] == current {
                    acts[(i + 1) % (acts.len() as int)]
                } else {
                    acts[i]
                }
            };
            let walk = if moves.len() == 0 {
                Seq::<char>::empty()
            } else {
                moves[roll % (moves.len() as int)]
            };
            let walks = !no_move && can_move;
            let picked_from = if 10 * k < 8 * two53 || !walks {
                acts
            } else {
                moves
            };
            &&& 10 * k < 3 * two53 ==> r == c.idle@
            &&& 3 * two53 <= 10 * k < 4 * two53 ==> r == c.turn@
            &&& 4 * two53 <= 10 * k < 8 * two53 ==> r == act
            &&& 8 * two53 <= 10 * k ==> r == (if walks {
                walk
            } else {
                act
            })
            &&& next_anim_state(c, no_move, can_move, s) == (if 10 * k < 4 * two53
                || picked_from.len() == 0 {
                s1
            } else {
                xorshift_step(s1)
            })
        }),
{
}

} // verus!
