use nod_krai_gi::gacha::{
    gacha_pools, pull_from_draws, resolve_pull, roll_gacha_once_readonly, roll_wish_draws, star_roll_hits, weight_for, BannerWeight, GachaBanner,
    GachaBin, MaterialEntry, MaterialType, WeaponEntry, FLIP_BOUND, STAR_ROLL_BOUND,
};
use rand::rngs::SmallRng;
use rand::SeedableRng;

fn materials() -> Vec<MaterialEntry> {
    vec![
        MaterialEntry { id: 1001, material_type: MaterialType::Avatar, rank_level: 5 },
        MaterialEntry { id: 1002, material_type: MaterialType::Avatar, rank_level: 4 },
        MaterialEntry { id: 1003, material_type: MaterialType::Other, rank_level: 5 },
        MaterialEntry { id: 1004, material_type: MaterialType::Avatar, rank_level: 5 },
    ]
}

fn weapons() -> Vec<WeaponEntry> {
    vec![
        WeaponEntry { id: 2001, rank_level: 5 },
        WeaponEntry { id: 2002, rank_level: 4 },
        WeaponEntry { id: 2003, rank_level: 3 },
    ]
}

fn banner(gacha_type: u32, w5: Option<Vec<BannerWeight>>, w4: Option<Vec<BannerWeight>>) -> GachaBanner {
    GachaBanner {
        gacha_type,
        rate_up_items_5: vec![],
        rate_up_items_4: vec![],
        fallback_items_5_pool_1: Some(vec![3001]),
        fallback_items_5_pool_2: None,
        fallback_items_4_pool_1: None,
        fallback_items_4_pool_2: Some(vec![3002]),
        fallback_items_3: None,
        weights_5: w5,
        weights_4: w4,
    }
}

fn bin(last5: Option<bool>, wish: u32) -> GachaBin {
    GachaBin {
        fail_5_count: 0,
        fail_4_count: 0,
        item5_is_up_list: last5.into_iter().collect(),
        item4_is_up_list: vec![],
        wish_item_id: wish,
    }
}

fn forced() -> Option<Vec<BannerWeight>> {
    Some(vec![BannerWeight { pulls: 0, weight: 10000 }])
}

#[test]
fn pools_fall_back_to_tables() {
    let p = gacha_pools(&banner(301, None, None), &materials(), &weapons());
    assert_eq!(p.rate_up_5, vec![1001, 1004]);
    assert_eq!(p.rate_up_4, vec![1002]);
    assert_eq!(p.fallback_5, vec![3001]);
    assert_eq!(p.fallback_4, vec![1002]);
    assert_eq!(p.fallback_3, vec![2003]);
    let w = gacha_pools(&banner(302, None, None), &materials(), &weapons());
    assert_eq!(w.rate_up_5, vec![2001]);
    assert_eq!(w.rate_up_4, vec![2002]);
    assert_eq!(w.fallback_5, vec![2001]);
    assert_eq!(w.fallback_4, vec![3002]);
}

#[test]
fn weight_is_last_reached_row() {
    let ws = vec![
        BannerWeight { pulls: 0, weight: 60 },
        BannerWeight { pulls: 73, weight: 660 },
        BannerWeight { pulls: 89, weight: 10000 },
    ];
    assert_eq!(weight_for(&ws, 0), 60);
    assert_eq!(weight_for(&ws, 73), 660);
    assert_eq!(weight_for(&ws, 100), 10000);
    assert_eq!(weight_for(&vec![BannerWeight { pulls: 5, weight: 1 }], 4), 0);
    assert!(star_roll_hits(10000, 9999));
    assert!(star_roll_hits(60, 59));
    assert!(!star_roll_hits(60, 60));
}

#[test]
fn resolve_pull_values() {
    let p = gacha_pools(&banner(301, None, None), &materials(), &weapons());
    assert_eq!(resolve_pull(&p, &bin(None, 0), true, false, true, 1), (1004, false, true, false, true));
    assert_eq!(resolve_pull(&p, &bin(None, 77), true, false, true, 0), (77, false, true, false, true));
    assert_eq!(resolve_pull(&p, &bin(None, 0), true, false, false, 0), (3001, false, true, false, false));
    assert_eq!(resolve_pull(&p, &bin(Some(false), 0), true, false, false, 0), (1001, false, true, false, true));
    assert_eq!(resolve_pull(&p, &bin(None, 0), false, true, true, 0), (1002, true, false, true, false));
    assert_eq!(resolve_pull(&p, &bin(None, 0), false, false, false, 0), (2003, false, false, false, false));
}

#[test]
fn forced_five_star_after_lost_flip_is_rate_up() {
    let b = banner(301, forced(), None);
    for seed in 0..50 {
        let mut rng = SmallRng::seed_from_u64(seed);
        let r = roll_gacha_once_readonly(&mut rng, &b, &bin(Some(false), 0), &materials(), &weapons());
        assert!(r.2 && r.4 && !r.1 && !r.3);
        assert!(r.0 == 1001 || r.0 == 1004);
    }
}

#[test]
fn forced_five_star_with_wish_gives_wish_or_fallback() {
    let b = banner(301, forced(), None);
    for seed in 0..50 {
        let mut rng = SmallRng::seed_from_u64(seed);
        let r = roll_gacha_once_readonly(&mut rng, &b, &bin(None, 1004), &materials(), &weapons());
        assert!(r.2);
        if r.4 {
            assert_eq!(r.0, 1004);
        } else {
            assert_eq!(r.0, 3001);
        }
    }
}

#[test]
fn no_weights_gives_three_stars() {
    let b = banner(302, None, None);
    for seed in 0..20 {
        let mut rng = SmallRng::seed_from_u64(seed);
        let r = roll_gacha_once_readonly(&mut rng, &b, &bin(None, 0), &materials(), &weapons());
        assert_eq!(r, (2003, false, false, false, false));
    }
}

#[test]
fn forced_four_star_when_five_star_missed() {
    let b = banner(302, Some(vec![BannerWeight { pulls: 0, weight: 0 }]), forced());
    for seed in 0..20 {
        let mut rng = SmallRng::seed_from_u64(seed);
        let r = roll_gacha_once_readonly(&mut rng, &b, &bin(None, 0), &materials(), &weapons());
        assert!(r.1 && !r.2 && !r.4);
        assert!(if r.3 { r.0 == 2002 } else { r.0 == 3002 });
    }
}

#[test]
fn draws_decide_star_level_and_flip() {
    let w5 = Some(vec![BannerWeight { pulls: 0, weight: 60 }]);
    let w4 = Some(vec![BannerWeight { pulls: 0, weight: 510 }]);
    let b = banner(301, w5, w4);
    let p = gacha_pools(&b, &materials(), &weapons());
    let plain = bin(None, 0);
    // five-star roll below its weight, coin flip won below sixty
    assert_eq!(pull_from_draws(&p, &b, &plain, 59, 9999, 59, 1), (1004, false, true, false, true));
    // the same roll with the flip at sixty loses it
    assert_eq!(pull_from_draws(&p, &b, &plain, 59, 9999, 60, 0), (3001, false, true, false, false));
    // five-star missed, four-star roll below its weight
    assert_eq!(pull_from_draws(&p, &b, &plain, 60, 509, 0, 0), (1002, true, false, true, false));
    assert_eq!(pull_from_draws(&p, &b, &plain, 60, 509, 99, 0), (1002, true, false, false, false));
    // both rolls miss: a three-star item
    assert_eq!(pull_from_draws(&p, &b, &plain, 60, 510, 0, 0), (2003, false, false, false, false));
    // after a lost flip the five-star is a rate-up one whatever the flip
    assert_eq!(pull_from_draws(&p, &b, &bin(Some(false), 0), 0, 0, 99, 0), (1001, false, true, false, true));
}

#[test]
fn wish_draws_use_fixed_bounds_and_give_the_roll() {
    assert_eq!(STAR_ROLL_BOUND, 10000);
    assert_eq!(FLIP_BOUND, 100);
    let w5 = Some(vec![BannerWeight { pulls: 0, weight: 5000 }]);
    let w4 = Some(vec![BannerWeight { pulls: 0, weight: 5000 }]);
    let b = banner(301, w5, w4);
    let p = gacha_pools(&b, &materials(), &weapons());
    let plain = bin(None, 0);
    for seed in 0..40 {
        let mut rng = SmallRng::seed_from_u64(seed);
        let d = roll_wish_draws(&mut rng, &p, &b, &plain);
        let (roll5, bound5) = d.roll5.unwrap();
        assert_eq!(bound5, 10000);
        assert!(roll5 < bound5);
        let is_5 = roll5 < 5000;
        let is_4 = !is_5 && d.roll4.map_or(false, |(r, _)| r < 5000);
        if is_5 {
            assert!(d.roll4.is_none());
        } else {
            assert_eq!(d.roll4.unwrap().1, 10000);
        }
        if is_5 || is_4 {
            let (flip, flip_bound) = d.flip.unwrap();
            assert_eq!(flip_bound, 100);
            assert!(flip < 100);
        } else {
            assert!(d.flip.is_none());
        }
        let (pick, pick_bound) = d.pick.unwrap();
        assert!(pick < pick_bound);
        let up = d.flip.map_or(true, |(f, _)| f < 60);
        assert_eq!(pick_bound, if is_5 && up { 2 } else { 1 });
        let value = |x: Option<(usize, usize)>| x.map_or(0, |(v, _)| v);
        let expected = pull_from_draws(&p, &b, &plain, roll5, value(d.roll4), value(d.flip), pick);
        let mut again = SmallRng::seed_from_u64(seed);
        assert_eq!(roll_gacha_once_readonly(&mut again, &b, &plain, &materials(), &weapons()), expected);
    }
}
