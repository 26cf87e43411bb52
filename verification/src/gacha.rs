use rand::rngs::SmallRng;
use rand::Rng;
use vstd::prelude::*;

verus! {

broadcast use vstd::seq_lib::group_seq_properties;

/// The random number generator of the banner service.
#[verifier::external_type_specification]
#[verifier::external_body]
pub struct ExSmallRng(SmallRng);

/// `rand::Rng::gen_range(0..upper)` on the banner's generator: a number below
/// `upper`, drawn uniformly, given together with the bound it was drawn below.
/// Which number comes out is left unsaid: it rests on chance.
#[verifier::external_body]
fn gen_below(rng: &mut SmallRng, upper: usize) -> (r: (usize, usize))
    requires
        upper > 0,
    ensures
        r.0 < r.1,
        r.1 == upper,
{
    (rng.gen_range(0..upper), upper)
}

/// A star level is rolled below this bound: its weight is a chance in ten
/// thousand.
pub const STAR_ROLL_BOUND: usize = 10000;

/// The rate-up coin flip is drawn below this bound and won below sixty.
pub const FLIP_BOUND: usize = 100;

/// From `pulls` failed pulls on, a star level is hit with chance `weight` in ten
/// thousand.
#[derive(Debug, Clone, Copy, PartialEq, Eq, Structural)]
pub struct BannerWeight {
    pub pulls: u32,
    pub weight: u32,
}

/// A wish banner's configuration.
#[derive(Debug)]
pub struct GachaBanner {
    pub gacha_type: u32,
    pub rate_up_items_5: Vec<u32>,
    pub rate_up_items_4: Vec<u32>,
    pub fallback_items_5_pool_1: Option<Vec<u32>>,
    pub fallback_items_5_pool_2: Option<Vec<u32>>,
    pub fallback_items_4_pool_1: Option<Vec<u32>>,
    pub fallback_items_4_pool_2: Option<Vec<u32>>,
    pub fallback_items_3: Option<Vec<u32>>,
    pub weights_5: Option<Vec<BannerWeight>>,
    pub weights_4: Option<Vec<BannerWeight>>,
}

/// A player's wish record on a banner.
#[derive(Debug)]
pub struct GachaBin {
    pub fail_5_count: u32,
    pub fail_4_count: u32,
    pub item5_is_up_list: Vec<bool>,
    pub item4_is_up_list: Vec<bool>,
    pub wish_item_id: u32,
}

/// The kind of a material.
#[derive(Debug, Clone, Copy, PartialEq, Eq, Structural)]
pub enum MaterialType {
    Avatar,
    Other,
}

/// A row of the material table.
#[derive(Debug, Clone, Copy, PartialEq, Eq, Structural)]
pub struct MaterialEntry {
    pub id: u32,
    pub material_type: MaterialType,
    pub rank_level: u32,
}

/// A row of the weapon table.
#[derive(Debug, Clone, Copy, PartialEq, Eq, Structural)]
pub struct WeaponEntry {
    pub id: u32,
    pub rank_level: u32,
}

/// The item pools a banner draws from.
#[derive(Debug)]
pub struct GachaPools {
    pub rate_up_5: Vec<u32>,
    pub rate_up_4: Vec<u32>,
    pub fallback_5: Vec<u32>,
    pub fallback_4: Vec<u32>,
    pub fallback_3: Vec<u32>,
}

/// The ids of the avatars of rank `rank`, in table order.
pub open spec fn avatar_ids(s: Seq<MaterialEntry>, rank: u32) -> Seq<u32>
    decreases s.len(),
{
    if s.len() == 0 {
        Seq::empty()
    } else if s.last().material_type == MaterialType::Avatar && s.last().rank_level == rank {
        avatar_ids(s.drop_last(), rank).push(s.last().id)
    } else {
        avatar_ids(s.drop_last(), rank)
    }
}

/// The ids of the weapons of rank `rank`, in table order.
pub open spec fn weapon_ids(s: Seq<WeaponEntry>, rank: u32) -> Seq<u32>
    decreases s.len(),
{
    if s.len() == 0 {
        Seq::empty()
    } else if s.last().rank_level == rank {
        weapon_ids(s.drop_last(), rank).push(s.last().id)
    } else {
        weapon_ids(s.drop_last(), rank)
    }
}

/// The banner type that draws weapons.
pub open spec fn is_weapon_banner(b: GachaBanner) -> bool {
    b.gacha_type == 302
}

/// The ids of an optional pool, none when it is absent.
pub open spec fn pool_or_empty(p: Option<Vec<u32>>) -> Seq<u32> {
    match p {
        Some(v) => v@,
        None => Seq::empty(),
    }
}

/// `s`, or `default` where `s` is empty.
pub open spec fn or_default(s: Seq<u32>, default: Seq<u32>) -> Seq<u32> {
    if s.len() == 0 { default } else { s }
}

/// The five-star rate-up pool: the banner's own, or the five-star avatars (weapons
/// on a weapon banner).
pub open spec fn spec_rate_up_5(b: GachaBanner, m: Seq<MaterialEntry>, w: Seq<WeaponEntry>) -> Seq<u32> {
    or_default(b.rate_up_items_5@, if is_weapon_banner(b) { weapon_ids(w, 5) } else { avatar_ids(m, 5) })
}

/// The four-star rate-up pool: the banner's own, or the four-star avatars (weapons
/// on a weapon banner).
pub open spec fn spec_rate_up_4(b: GachaBanner, m: Seq<MaterialEntry>, w: Seq<WeaponEntry>) -> Seq<u32> {
    or_default(b.rate_up_items_4@, if is_weapon_banner(b) { weapon_ids(w, 4) } else { avatar_ids(m, 4) })
}

/// The five-star pool of a lost coin flip: the banner's own for its kind, or the
/// five-star rate-up pool.
pub open spec fn spec_fallback_5(b: GachaBanner, m: Seq<MaterialEntry>, w: Seq<WeaponEntry>) -> Seq<u32> {
    or_default(
        pool_or_empty(if is_weapon_banner(b) { b.fallback_items_5_pool_2 } else { b.fallback_items_5_pool_1 }),
        spec_rate_up_5(b, m, w),
    )
}

/// The four-star pool of a lost coin flip: the banner's own for its kind, or the
/// four-star rate-up pool.
pub open spec fn spec_fallback_4(b: GachaBanner, m: Seq<MaterialEntry>, w: Seq<WeaponEntry>) -> Seq<u32> {
    or_default(
        pool_or_empty(if is_weapon_banner(b) { b.fallback_items_4_pool_2 } else { b.fallback_items_4_pool_1 }),
        spec_rate_up_4(b, m, w),
    )
}

/// The three-star pool: the banner's own, or the three-star weapons.
pub open spec fn spec_fallback_3(b: GachaBanner, w: Seq<WeaponEntry>) -> Seq<u32> {
    or_default(pool_or_empty(b.fallback_items_3), weapon_ids(w, 3))
}

fn copy_ids(v: &Vec<u32>) -> (r: Vec<u32>)
    ensures
        r@ == v@,
{
    let mut r: Vec<u32> = Vec::new();
    let mut i: usize = 0;
    while i < v.len()
        invariant
            i <= v@.len(),
            r@ == v@.take(i as int),
        decreases v.len() - i,
    {
        r.push(v[i]);
        i = i + 1;
    }
    assert(v@.take(i as int) == v@);
    r
}

fn copy_pool(p: &Option<Vec<u32>>) -> (r: Vec<u32>)
    ensures
        r@ == pool_or_empty(*p),
{
    match p {
        Some(v) => copy_ids(v),
        None => Vec::new(),
    }
}

fn avatars_of_rank(m: &Vec<MaterialEntry>, rank: u32) -> (r: Vec<u32>)
    ensures
        r@ == avatar_ids(m@, rank),
{
    let mut r: Vec<u32> = Vec::new();
    let mut i: usize = 0;
    while i < m.len()
        invariant
            i <= m@.len(),
            r@ == avatar_ids(m@.take(i as int), rank),
        decreases m.len() - i,
    {
        proof {
            assert(m@.take(i as int + 1).drop_last() == m@.take(i as int));
        }
        if m[i].material_type == MaterialType::Avatar && m[i].rank_level == rank {
            r.push(m[i].id);
        }
        i = i + 1;
    }
    assert(m@.take(i as int) == m@);
    r
}

fn weapons_of_rank(w: &Vec<WeaponEntry>, rank: u32) -> (r: Vec<u32>)
    ensures
        r@ == weapon_ids(w@, rank),
{
    let mut r: Vec<u32> = Vec::new();
    let mut i: usize = 0;
    while i < w.len()
        invariant
            i <= w@.len(),
            r@ == weapon_ids(w@.take(i as int), rank),
        decreases w.len() - i,
    {
        proof {
            assert(w@.take(i as int + 1).drop_last() == w@.take(i as int));
        }
        if w[i].rank_level == rank {
            r.push(w[i].id);
        }
        i = i + 1;
    }
    assert(w@.take(i as int) == w@);
    r
}

/// The pools of a banner: its own rate-up items, or else the avatars (weapons on
/// a weapon banner) of that rank; its own fallback pools, or else the rate-up
/// items of that rank; its own three-star pool, or else the three-star weapons.
pub fn gacha_pools(banner: &GachaBanner, materials: &Vec<MaterialEntry>, weapons: &Vec<WeaponEntry>) -> (p: GachaPools)
    ensures
        p@ == pools_of(*banner, materials@, weapons@),
{
    let weapon_banner = banner.gacha_type == 302;
    let mut rate_up_5 = copy_ids(&banner.rate_up_items_5);
    let mut rate_up_4 = copy_ids(&banner.rate_up_items_4);
    if rate_up_5.len() == 0 {
        rate_up_5 = if weapon_banner { weapons_of_rank(weapons, 5) } else { avatars_of_rank(materials, 5) };
    }
    if rate_up_4.len() == 0 {
        rate_up_4 = if weapon_banner { weapons_of_rank(weapons, 4) } else { avatars_of_rank(materials, 4) };
    }
    let mut fallback_5 = if weapon_banner {
        copy_pool(&banner.fallback_items_5_pool_2)
    } else {
        copy_pool(&banner.fallback_items_5_pool_1)
    };
    let mut fallback_4 = if weapon_banner {
        copy_pool(&banner.fallback_items_4_pool_2)
    } else {
        copy_pool(&banner.fallback_items_4_pool_1)
    };
    if fallback_5.len() == 0 {
        fallback_5 = copy_ids(&rate_up_5);
    }
    if fallback_4.len() == 0 {
        fallback_4 = copy_ids(&rate_up_4);
    }
    let mut fallback_3 = copy_pool(&banner.fallback_items_3);
    if fallback_3.len() == 0 {
        fallback_3 = weapons_of_rank(weapons, 3);
    }
    GachaPools { rate_up_5, rate_up_4, fallback_5, fallback_4, fallback_3 }
}

/// The chance, in ten thousand, of a star level after `fail` failed pulls: the
/// weight of the last row whose pull count `fail` has reached, 0 if none.
pub open spec fn star_weight(ws: Seq<BannerWeight>, fail: u32) -> u32
    decreases ws.len(),
{
    if ws.len() == 0 {
        0
    } else if fail >= ws.last().pulls {
        ws.last().weight
    } else {
        star_weight(ws.drop_last(), fail)
    }
}

/// The chance of a star level after `fail` failed pulls, in ten thousand.
pub fn weight_for(weights: &Vec<BannerWeight>, fail: u32) -> (w: u32)
    ensures
        w == star_weight(weights@, fail),
{
    let mut weight: u32 = 0;
    let mut i: usize = 0;
    while i < weights.len()
        invariant
            i <= weights@.len(),
            weight == star_weight(weights@.take(i as int), fail),
        decreases weights.len() - i,
    {
        proof {
            assert(weights@.take(i as int + 1).drop_last() == weights@.take(i as int));
        }
        if fail >= weights[i].pulls {
            weight = weights[i].weight;
        }
        i = i + 1;
    }
    assert(weights@.take(i as int) == weights@);
    weight
}

/// A star level is hit: its weight is ten thousand or more, or the roll falls
/// below it.
pub open spec fn star_hit(weight: u32, roll: int) -> bool {
    weight >= 10000 || roll < weight
}

/// A star level can be hit at all: there is a weight table and its weight is
/// positive.
pub open spec fn star_possible(ws: Option<Vec<BannerWeight>>, fail: u32) -> bool {
    ws is Some && star_weight(ws->0@, fail) > 0
}

/// A star level is hit for sure: there is a weight table and its weight is ten
/// thousand or more.
pub open spec fn star_forced(ws: Option<Vec<BannerWeight>>, fail: u32) -> bool {
    ws is Some && star_weight(ws->0@, fail) >= 10000
}

/// Whether a star level is hit, given its weight and a roll below ten thousand.
pub fn star_roll_hits(weight: u32, roll: usize) -> (hit: bool)
    ensures
        hit == star_hit(weight, roll as int),
{
    weight >= 10000 || roll < weight as usize
}

/// A star level is hit by a roll below ten thousand: there is a weight table, and
/// the roll hits the weight it gives after `fail` failed pulls.
pub open spec fn draw_hits(ws: Option<Vec<BannerWeight>>, fail: u32, roll: int) -> bool {
    ws is Some && star_hit(star_weight(ws->0@, fail), roll)
}

/// A star level is rolled for: there is a weight table and its weight is below
/// ten thousand (at ten thousand or more it is hit without a roll).
pub open spec fn star_rolled(ws: Option<Vec<BannerWeight>>, fail: u32) -> bool {
    ws is Some && star_weight(ws->0@, fail) < 10000
}

/// A draw was made below `bound`: the number drawn and the bound it was drawn
/// below, the number under the bound.
pub open spec fn drawn_below(d: Option<(usize, usize)>, bound: int) -> bool {
    match d {
        Some(x) => x.1 == bound && x.0 < x.1,
        None => false,
    }
}

/// The number of a draw, 0 where none was made.
pub open spec fn draw_value(d: Option<(usize, usize)>) -> int {
    match d {
        Some(x) => x.0 as int,
        None => 0,
    }
}

fn value_of(d: &Option<(usize, usize)>) -> (v: usize)
    ensures
        v == draw_value(*d),
{
    match d {
        Some(x) => x.0,
        None => 0,
    }
}

/// Whether a star level is hit by the roll `roll`, given its weight table.
fn draw_hit(weights: &Option<Vec<BannerWeight>>, fail: u32, roll: usize) -> (hit: bool)
    ensures
        hit == draw_hits(*weights, fail, roll as int),
{
    match weights {
        Some(ws) => star_roll_hits(weight_for(ws, fail), roll),
        None => false,
    }
}

/// Rolls for a star level where it is rolled for, below the star roll bound.
fn star_draw(rng: &mut SmallRng, fail: u32, weights: &Option<Vec<BannerWeight>>) -> (d: Option<(usize, usize)>)
    ensures
        star_rolled(*weights, fail) ==> drawn_below(d, STAR_ROLL_BOUND as int),
        !star_rolled(*weights, fail) ==> d is None,
{
    match weights {
        Some(ws) => {
            if weight_for(ws, fail) < 10000 {
                Some(gen_below(rng, STAR_ROLL_BOUND))
            } else {
                None
            }
        },
        None => None,
    }
}

/// The pools as sequences of item ids.
pub struct PoolsView {
    pub rate_up_5: Seq<u32>,
    pub rate_up_4: Seq<u32>,
    pub fallback_5: Seq<u32>,
    pub fallback_4: Seq<u32>,
    pub fallback_3: Seq<u32>,
}

impl View for GachaPools {
    type V = PoolsView;

    open spec fn view(&self) -> PoolsView {
        PoolsView {
            rate_up_5: self.rate_up_5@,
            rate_up_4: self.rate_up_4@,
            fallback_5: self.fallback_5@,
            fallback_4: self.fallback_4@,
            fallback_3: self.fallback_3@,
        }
    }
}

/// The pools that a banner and the item tables give.
pub open spec fn pools_of(b: GachaBanner, m: Seq<MaterialEntry>, w: Seq<WeaponEntry>) -> PoolsView {
    PoolsView {
        rate_up_5: spec_rate_up_5(b, m, w),
        rate_up_4: spec_rate_up_4(b, m, w),
        fallback_5: spec_fallback_5(b, m, w),
        fallback_4: spec_fallback_4(b, m, w),
        fallback_3: spec_fallback_3(b, w),
    }
}

/// No pool is empty.
pub open spec fn pools_nonempty(p: PoolsView) -> bool {
    &&& p.rate_up_5.len() > 0
    &&& p.rate_up_4.len() > 0
    &&& p.fallback_5.len() > 0
    &&& p.fallback_4.len() > 0
    &&& p.fallback_3.len() > 0
}

/// The last record of a list, true when there is none.
pub open spec fn last_or_true(s: Seq<bool>) -> bool {
    if s.len() == 0 { true } else { s.last() }
}

/// A five-star pull is a rate-up one for sure: the last five-star item was not.
pub open spec fn pity_5(bin: GachaBin) -> bool {
    !last_or_true(bin.item5_is_up_list@)
}

/// A four-star pull is a rate-up one for sure: the last four-star item was not.
pub open spec fn pity_4(bin: GachaBin) -> bool {
    !last_or_true(bin.item4_is_up_list@)
}

/// The pool that a pull draws its item from, once its star level (`is_5`,
/// `is_4`) and its rate-up coin flip (`won`) are known; the wished item of a
/// rate-up five-star pull is drawn from no pool.
pub open spec fn drawn_pool(p: PoolsView, bin: GachaBin, is_5: bool, is_4: bool, won: bool) -> Option<Seq<u32>> {
    if is_5 {
        if pity_5(bin) || won {
            if bin.wish_item_id != 0 { None } else { Some(p.rate_up_5) }
        } else {
            Some(p.fallback_5)
        }
    } else if is_4 {
        if pity_4(bin) || won { Some(p.rate_up_4) } else { Some(p.fallback_4) }
    } else {
        Some(p.fallback_3)
    }
}

/// The index `pick` lies in the pool the pull draws from.
pub open spec fn pick_fits(p: PoolsView, bin: GachaBin, is_5: bool, is_4: bool, won: bool, pick: int) -> bool {
    match drawn_pool(p, bin, is_5, is_4, won) {
        Some(pool) => 0 <= pick < pool.len(),
        None => true,
    }
}

/// A pull's result, once its star level, its rate-up coin flip and its index
/// into the pool are known: the item, then whether it is four-star, five-star,
/// a four-star rate-up item, a five-star rate-up item.
pub open spec fn gacha_outcome(p: PoolsView, bin: GachaBin, is_5: bool, is_4: bool, won: bool, pick: int) -> (u32, bool, bool, bool, bool) {
    if is_5 {
        if pity_5(bin) || won {
            (
                if bin.wish_item_id != 0 { bin.wish_item_id } else { p.rate_up_5[pick] },
                false,
                true,
                false,
                true,
            )
        } else {
            (p.fallback_5[pick], false, true, false, false)
        }
    } else if is_4 {
        if pity_4(bin) || won {
            (p.rate_up_4[pick], true, false, true, false)
        } else {
            (p.fallback_4[pick], true, false, false, false)
        }
    } else {
        (p.fallback_3[pick], false, false, false, false)
    }
}

/// The star levels a pull can hit: a five-star only where the five-star weight is
/// positive, surely where it is ten thousand or more; a four-star likewise, once
/// the five-star is missed.
pub open spec fn stars_admissible(b: GachaBanner, bin: GachaBin, is_5: bool, is_4: bool) -> bool {
    &&& is_5 ==> star_possible(b.weights_5, bin.fail_5_count)
    &&& star_forced(b.weights_5, bin.fail_5_count) ==> is_5
    &&& !is_5 ==> {
        &&& is_4 ==> star_possible(b.weights_4, bin.fail_4_count)
        &&& star_forced(b.weights_4, bin.fail_4_count) ==> is_4
    }
}

/// The result of a pull once its star level, its rate-up coin flip and its index
/// into the pool are known.
pub fn resolve_pull(pools: &GachaPools, bin: &GachaBin, is_5: bool, is_4: bool, won: bool, pick: usize) -> (r: (u32, bool, bool, bool, bool))
    requires
        pick_fits(pools@, *bin, is_5, is_4, won, pick as int),
    ensures
        r == gacha_outcome(pools@, *bin, is_5, is_4, won, pick as int),
{
    if is_5 {
        let pity = bin.item5_is_up_list.len() > 0 && !bin.item5_is_up_list[bin.item5_is_up_list.len() - 1];
        if pity || won {
            let item = if bin.wish_item_id != 0 {
                bin.wish_item_id
            } else {
                pools.rate_up_5[pick]
            };
            return (item, false, true, false, true);
        }
        return (pools.fallback_5[pick], false, true, false, false);
    }
    if is_4 {
        let pity = bin.item4_is_up_list.len() > 0 && !bin.item4_is_up_list[bin.item4_is_up_list.len() - 1];
        if pity || won {
            return (pools.rate_up_4[pick], true, false, true, false);
        }
        return (pools.fallback_4[pick], true, false, false, false);
    }
    (pools.fallback_3[pick], false, false, false, false)
}

/// A pull's result from its draws: the five-star roll `roll5` and the four-star
/// roll `roll4` (each below ten thousand) decide the star level, the coin flip
/// `flip` (below a hundred) is won below sixty, and `pick` indexes the pool.
pub open spec fn pull_outcome(p: PoolsView, b: GachaBanner, bin: GachaBin, roll5: int, roll4: int, flip: int, pick: int) -> (u32, bool, bool, bool, bool) {
    gacha_outcome(
        p,
        bin,
        draw_hits(b.weights_5, bin.fail_5_count, roll5),
        draw_hits(b.weights_4, bin.fail_4_count, roll4),
        flip < 60,
        pick,
    )
}

/// The index `pick` lies in the pool that the draws lead to.
pub open spec fn pick_fits_draws(p: PoolsView, b: GachaBanner, bin: GachaBin, roll5: int, roll4: int, flip: int, pick: int) -> bool {
    pick_fits(
        p,
        bin,
        draw_hits(b.weights_5, bin.fail_5_count, roll5),
        draw_hits(b.weights_4, bin.fail_4_count, roll4),
        flip < 60,
        pick,
    )
}

/// The result of a pull from its draws: the star rolls, the coin flip and the
/// index into the pool.
pub fn pull_from_draws(
    pools: &GachaPools,
    banner: &GachaBanner,
    bin: &GachaBin,
    roll5: usize,
    roll4: usize,
    flip: usize,
    pick: usize,
) -> (r: (u32, bool, bool, bool, bool))
    requires
        pick_fits_draws(pools@, *banner, *bin, roll5 as int, roll4 as int, flip as int, pick as int),
    ensures
        r == pull_outcome(pools@, *banner, *bin, roll5 as int, roll4 as int, flip as int, pick as int),
{
    let is_5 = draw_hit(&banner.weights_5, bin.fail_5_count, roll5);
    let is_4 = draw_hit(&banner.weights_4, bin.fail_4_count, roll4);
    resolve_pull(pools, bin, is_5, is_4, flip < 60, pick)
}

/// The draws of one wish, each as the number drawn and the bound it was drawn
/// below, `None` where it was not drawn: the five-star roll, the four-star roll,
/// the rate-up coin flip, and the index into the pool.
#[derive(Debug, Clone, Copy)]
pub struct WishDraws {
    pub roll5: Option<(usize, usize)>,
    pub roll4: Option<(usize, usize)>,
    pub flip: Option<(usize, usize)>,
    pub pick: Option<(usize, usize)>,
}

/// The draws of a wish follow the rules: the five-star level is rolled below the
/// star roll bound where it is rolled for; on a miss the four-star level
/// likewise; a hit star level without pity flips the coin below the flip bound;
/// and the item is picked below the length of the pool the pull draws from (not
/// at all for the wished item).
pub open spec fn draws_follow_rules(p: PoolsView, b: GachaBanner, bin: GachaBin, d: WishDraws) -> bool {
    let is_5 = draw_hits(b.weights_5, bin.fail_5_count, draw_value(d.roll5));
    let is_4 = !is_5 && draw_hits(b.weights_4, bin.fail_4_count, draw_value(d.roll4));
    let pity = if is_5 { pity_5(bin) } else { pity_4(bin) };
    &&& if star_rolled(b.weights_5, bin.fail_5_count) {
        drawn_below(d.roll5, STAR_ROLL_BOUND as int)
    } else {
        d.roll5 is None
    }
    &&& if !is_5 && star_rolled(b.weights_4, bin.fail_4_count) {
        drawn_below(d.roll4, STAR_ROLL_BOUND as int)
    } else {
        d.roll4 is None
    }
    &&& if (is_5 || is_4) && !pity {
        drawn_below(d.flip, FLIP_BOUND as int)
    } else {
        d.flip is None
    }
    &&& match drawn_pool(p, bin, is_5, is_4, draw_value(d.flip) < 60) {
        Some(pool) => drawn_below(d.pick, pool.len() as int),
        None => d.pick is None,
    }
}

/// The result of a wish from its draws.
pub open spec fn wish_result(p: PoolsView, b: GachaBanner, bin: GachaBin, d: WishDraws) -> (u32, bool, bool, bool, bool) {
    pull_outcome(p, b, bin, draw_value(d.roll5), draw_value(d.roll4), draw_value(d.flip), draw_value(d.pick))
}

/// Draws one wish: rolls the five-star, then (on a miss) the four-star level,
/// then the rate-up coin flip (unless the last item of that level was not a
/// rate-up one), then an item of the pool. Which numbers come out rests on
/// chance; the bound of each draw is fixed.
pub fn roll_wish_draws(rng: &mut SmallRng, pools: &GachaPools, banner: &GachaBanner, bin: &GachaBin) -> (d: WishDraws)
    requires
        pools_nonempty(pools@),
    ensures
        draws_follow_rules(pools@, *banner, *bin, d),
{
    let roll5 = star_draw(rng, bin.fail_5_count, &banner.weights_5);
    let is_5 = draw_hit(&banner.weights_5, bin.fail_5_count, value_of(&roll5));
    let roll4 = if is_5 {
        None
    } else {
        star_draw(rng, bin.fail_4_count, &banner.weights_4)
    };
    let is_4 = !is_5 && draw_hit(&banner.weights_4, bin.fail_4_count, value_of(&roll4));
    let pity = if is_5 {
        bin.item5_is_up_list.len() > 0 && !bin.item5_is_up_list[bin.item5_is_up_list.len() - 1]
    } else {
        bin.item4_is_up_list.len() > 0 && !bin.item4_is_up_list[bin.item4_is_up_list.len() - 1]
    };
    let flip = if (is_5 || is_4) && !pity {
        Some(gen_below(rng, FLIP_BOUND))
    } else {
        None
    };
    let up = pity || value_of(&flip) < 60;
    let pick = if is_5 {
        if up {
            if bin.wish_item_id != 0 {
                None
            } else {
                Some(gen_below(rng, pools.rate_up_5.len()))
            }
        } else {
            Some(gen_below(rng, pools.fallback_5.len()))
        }
    } else if is_4 {
        if up {
            Some(gen_below(rng, pools.rate_up_4.len()))
        } else {
            Some(gen_below(rng, pools.fallback_4.len()))
        }
    } else {
        Some(gen_below(rng, pools.fallback_3.len()))
    };
    WishDraws { roll5, roll4, flip, pick }
}

/// One wish on a banner: its draws follow the rules, and the result is the one
/// those draws give.
pub fn roll_gacha_once_readonly(
    rng: &mut SmallRng,
    banner: &GachaBanner,
    bin: &GachaBin,
    materials: &Vec<MaterialEntry>,
    weapons: &Vec<WeaponEntry>,
) -> (r: (u32, bool, bool, bool, bool))
    requires
        pools_nonempty(pools_of(*banner, materials@, weapons@)),
    ensures
        exists|d: WishDraws|
            #[trigger] draws_follow_rules(pools_of(*banner, materials@, weapons@), *banner, *bin, d)
                && r == wish_result(pools_of(*banner, materials@, weapons@), *banner, *bin, d),
{
    let pools = gacha_pools(banner, materials, weapons);
    let d = roll_wish_draws(rng, &pools, banner, bin);
    let r = pull_from_draws(
        &pools,
        banner,
        bin,
        value_of(&d.roll5),
        value_of(&d.roll4),
        value_of(&d.flip),
        value_of(&d.pick),
    );
    assert(draws_follow_rules(pools@, *banner, *bin, d));
    r
}

/// The material table has an avatar of rank `rank` with id `id`.
pub open spec fn has_avatar(m: Seq<MaterialEntry>, id: u32, rank: u32) -> bool {
    exists|i: int|
        0 <= i < m.len() && #[trigger] m[i].id == id && m[i].material_type == MaterialType::Avatar
            && m[i].rank_level == rank
}

/// The weapon table has a weapon of rank `rank` with id `id`.
pub open spec fn has_weapon(w: Seq<WeaponEntry>, id: u32, rank: u32) -> bool {
    exists|i: int| 0 <= i < w.len() && #[trigger] w[i].id == id && w[i].rank_level == rank
}

proof fn lemma_avatar_ids_contains(m: Seq<MaterialEntry>, rank: u32, id: u32)
    ensures
        avatar_ids(m, rank).contains(id) <==> has_avatar(m, id, rank),
    decreases m.len(),
{
    if m.len() > 0 {
        let d = m.drop_last();
        lemma_avatar_ids_contains(d, rank, id);
        if has_avatar(d, id, rank) {
            let i = choose|i: int|
                0 <= i < d.len() && #[trigger] d[i].id == id && d[i].material_type == MaterialType::Avatar
                    && d[i].rank_level == rank;
            assert(m[i] == d[i]);
        }
        if has_avatar(m, id, rank) {
            let i = choose|i: int|
                0 <= i < m.len() && #[trigger] m[i].id == id && m[i].material_type == MaterialType::Avatar
                    && m[i].rank_level == rank;
            if i < m.len() - 1 {
                assert(d[i] == m[i]);
            }
        }
    }
}

proof fn lemma_weapon_ids_contains(w: Seq<WeaponEntry>, rank: u32, id: u32)
    ensures
        weapon_ids(w, rank).contains(id) <==> has_weapon(w, id, rank),
    decreases w.len(),
{
    if w.len() > 0 {
        let d = w.drop_last();
        lemma_weapon_ids_contains(d, rank, id);
        if has_weapon(d, id, rank) {
            let i = choose|i: int| 0 <= i < d.len() && #[trigger] d[i].id == id && d[i].rank_level == rank;
            assert(w[i] == d[i]);
        }
        if has_weapon(w, id, rank) {
            let i = choose|i: int| 0 <= i < w.len() && #[trigger] w[i].id == id && w[i].rank_level == rank;
            if i < w.len() - 1 {
                assert(d[i] == w[i]);
            }
        }
    }
}

/// The items of a rank that a banner falls back on when it names none: the
/// weapons of that rank on a weapon banner (type 302), the avatars of that rank
/// on any other.
pub open spec fn rank_default(b: GachaBanner, m: Seq<MaterialEntry>, w: Seq<WeaponEntry>, id: u32, rank: u32) -> bool {
    if b.gacha_type == 302 { has_weapon(w, id, rank) } else { has_avatar(m, id, rank) }
}

/// A banner's pools: a banner's own featured items are its rate-up pools, and
/// only a banner that names none draws from every item of that rank in the
/// tables; its own fallback pool for its kind (pool 2 on a weapon banner, pool 1
/// otherwise) is its fallback pool, and only without one does a lost flip draw
/// from the rate-up pool; its own three-star pool is its three-star pool, and
/// only without one are the three-star weapons used.
pub proof fn law_pools_prefer_the_banner_own_items(b: GachaBanner, m: Seq<MaterialEntry>, w: Seq<WeaponEntry>)
    ensures
        ({
            let p = pools_of(b, m, w);
            let own5 = if b.gacha_type == 302 { b.fallback_items_5_pool_2 } else { b.fallback_items_5_pool_1 };
            let own4 = if b.gacha_type == 302 { b.fallback_items_4_pool_2 } else { b.fallback_items_4_pool_1 };
            &&& b.rate_up_items_5@.len() > 0 ==> p.rate_up_5 == b.rate_up_items_5@
            &&& b.rate_up_items_5@.len() == 0 ==> forall|id: u32|
                #[trigger] p.rate_up_5.contains(id) <==> rank_default(b, m, w, id, 5)
            &&& b.rate_up_items_4@.len() > 0 ==> p.rate_up_4 == b.rate_up_items_4@
            &&& b.rate_up_items_4@.len() == 0 ==> forall|id: u32|
                #[trigger] p.rate_up_4.contains(id) <==> rank_default(b, m, w, id, 4)
            &&& own5 is Some && own5->0@.len() > 0 ==> p.fallback_5 == own5->0@
            &&& !(own5 is Some && own5->0@.len() > 0) ==> p.fallback_5 == p.rate_up_5
            &&& own4 is Some && own4->0@.len() > 0 ==> p.fallback_4 == own4->0@
            &&& !(own4 is Some && own4->0@.len() > 0) ==> p.fallback_4 == p.rate_up_4
            &&& b.fallback_items_3 is Some && b.fallback_items_3->0@.len() > 0 ==> p.fallback_3
                == b.fallback_items_3->0@
            &&& !(b.fallback_items_3 is Some && b.fallback_items_3->0@.len() > 0) ==> forall|id: u32|
                #[trigger] p.fallback_3.contains(id) <==> has_weapon(w, id, 3)
        }),
{
    assert forall|id: u32| #[trigger] avatar_ids(m, 5).contains(id) <==> has_avatar(m, id, 5) by {
        lemma_avatar_ids_contains(m, 5, id);
    }
    assert forall|id: u32| #[trigger] avatar_ids(m, 4).contains(id) <==> has_avatar(m, id, 4) by {
        lemma_avatar_ids_contains(m, 4, id);
    }
    assert forall|id: u32| #[trigger] weapon_ids(w, 5).contains(id) <==> has_weapon(w, id, 5) by {
        lemma_weapon_ids_contains(w, 5, id);
    }
    assert forall|id: u32| #[trigger] weapon_ids(w, 4).contains(id) <==> has_weapon(w, id, 4) by {
        lemma_weapon_ids_contains(w, 4, id);
    }
    assert forall|id: u32| #[trigger] weapon_ids(w, 3).contains(id) <==> has_weapon(w, id, 3) by {
        lemma_weapon_ids_contains(w, 3, id);
    }
}

/// Rolls below ten thousand only hit star levels that can be hit, and always hit
/// those that must be.
pub proof fn law_draws_are_admissible(b: GachaBanner, bin: GachaBin, roll5: int, roll4: int)
    requires
        0 <= roll5 < 10000,
        0 <= roll4 < 10000,
    ensures
        stars_admissible(
            b,
            bin,
            draw_hits(b.weights_5, bin.fail_5_count, roll5),
            draw_hits(b.weights_4, bin.fail_4_count, roll4),
        ),
{
}

/// Every pull's flags agree with its star level, and its item comes from the
/// pool those flags name (or is the wished item).
pub proof fn law_pull_item_in_its_pool(p: PoolsView, bin: GachaBin, is_5: bool, is_4: bool, won: bool, pick: int)
    requires
        pick_fits(p, bin, is_5, is_4, won, pick),
    ensures
        ({
            let r = gacha_outcome(p, bin, is_5, is_4, won, pick);
            &&& r.2 == is_5
            &&& r.1 == (!is_5 && is_4)
            &&& r.4 ==> r.2
            &&& r.3 ==> r.1
            &&& r.2 && r.4 && bin.wish_item_id != 0 ==> r.0 == bin.wish_item_id
            &&& r.2 && r.4 && bin.wish_item_id == 0 ==> p.rate_up_5.contains(r.0)
            &&& r.2 && !r.4 ==> p.fallback_5.contains(r.0)
            &&& r.1 && r.3 ==> p.rate_up_4.contains(r.0)
            &&& r.1 && !r.3 ==> p.fallback_4.contains(r.0)
            &&& !r.1 && !r.2 ==> p.fallback_3.contains(r.0)
        }),
{
    let r = gacha_outcome(p, bin, is_5, is_4, won, pick);
    if is_5 {
        if pity_5(bin) || won {
            if bin.wish_item_id == 0 {
                assert(p.rate_up_5[pick] == r.0);
            }
        } else {
            assert(p.fallback_5[pick] == r.0);
        }
    } else if is_4 {
        if pity_4(bin) || won {
            assert(p.rate_up_4[pick] == r.0);
        } else {
            assert(p.fallback_4[pick] == r.0);
        }
    } else {
        assert(p.fallback_3[pick] == r.0);
    }
}

/// After a lost rate-up coin flip, the next item of that star level is a rate-up
/// one, whatever the rolls.
pub proof fn law_lost_flip_guarantees_rate_up(p: PoolsView, bin: GachaBin, is_5: bool, is_4: bool, won: bool, pick: int)
    ensures
        ({
            let r = gacha_outcome(p, bin, is_5, is_4, won, pick);
            &&& pity_5(bin) && r.2 ==> r.4
            &&& pity_4(bin) && r.1 ==> r.3
        }),
{
}

/// A star level whose weight has reached ten thousand is hit for sure, and one
/// without a weight table is never hit.
pub proof fn law_star_weights_bound_the_pull(b: GachaBanner, p: PoolsView, bin: GachaBin, is_5: bool, is_4: bool, won: bool, pick: int)
    requires
        stars_admissible(b, bin, is_5, is_4),
    ensures
        ({
            let r = gacha_outcome(p, bin, is_5, is_4, won, pick);
            &&& star_forced(b.weights_5, bin.fail_5_count) ==> r.2
            &&& b.weights_5 is None ==> !r.2
            &&& !star_forced(b.weights_5, bin.fail_5_count) && star_forced(b.weights_4, bin.fail_4_count) ==> r.1 || r.2
            &&& b.weights_4 is None ==> !r.1
        }),
{
}

} // verus!
