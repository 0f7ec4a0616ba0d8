use lt_ai_coach_exporter::metadata::champion_metadata_export;
use lt_ai_coach_exporter::roles::{champion_traits, derive_role_fit, RoleFit};
use serde_json::Value;

fn json(text: &str) -> Value {
    serde_json::from_str(text).unwrap()
}

fn strings(items: &[&str]) -> Vec<String> {
    items.iter().map(|s| s.to_string()).collect()
}

/// The fit computed with floating-point numbers: top, jungle, mid, bot, support.
fn float_fit(on: [bool; 8]) -> [f64; 5] {
    let [melee, ranged, attack, magic, tank, control, heal, shield] = on;
    let mut scores = [20.0_f64; 5];
    let mut add = |present: bool, worth: [f64; 5]| {
        if present {
            for i in 0..5 {
                scores[i] += worth[i];
            }
        }
    };
    add(melee, [25.0, 20.0, 0.0, 0.0, 0.0]);
    add(ranged, [0.0, 0.0, 15.0, 35.0, 10.0]);
    add(attack, [15.0, 15.0, 0.0, 35.0, 0.0]);
    add(magic, [0.0, 10.0, 35.0, 0.0, 10.0]);
    add(tank, [30.0, 15.0, 0.0, 0.0, 25.0]);
    add(control, [10.0, 25.0, 10.0, 0.0, 25.0]);
    add(heal, [0.0, 0.0, 0.0, 0.0, 45.0]);
    add(shield, [0.0, 0.0, 0.0, 0.0, 45.0]);
    let peak = scores.iter().copied().fold(0.0_f64, f64::max);
    for score in scores.iter_mut() {
        *score = (*score / peak * 1000.0).round() / 10.0;
    }
    scores
}

fn tags_for(on: [bool; 8]) -> Vec<String> {
    let names = ["Melee", "Range", "AD", "AP", "Tank", "CC", "Heal", "Shield"];
    (0..8).filter(|&i| on[i]).map(|i| names[i].to_string()).collect()
}

fn every_combination() -> Vec<[bool; 8]> {
    (0u32..256).map(|n| std::array::from_fn(|i| n & (1 << i) != 0)).collect()
}

#[test]
fn fits_are_those_of_floating_point_arithmetic() {
    for on in every_combination() {
        let fit = derive_role_fit("", &tags_for(on));
        let tenths = [fit.top, fit.jungle, fit.mid, fit.bot, fit.support];
        let percents: Vec<f64> = tenths.iter().map(|&t| f64::from(t) / 10.0).collect();
        assert_eq!(percents, float_fit(on).to_vec(), "{on:?}");
    }
}

#[test]
fn written_fits_are_those_of_floating_point_arithmetic() {
    for on in every_combination() {
        let mut entry = json("{\"category\":\"\",\"tags\":[]}");
        entry["tags"] = Value::from(tags_for(on));
        let mut sheet = json("{}");
        sheet["x"] = entry;
        let document = champion_metadata_export(&sheet, &strings(&["x"]));
        let fit = &document["champions"][0]["roleFit"];
        let expected = float_fit(on);
        for (i, role) in ["top", "jungle", "mid", "bot", "support"].iter().enumerate() {
            assert_eq!(fit[*role], Value::from(expected[i]), "{on:?} {role}");
        }
        assert_eq!(fit.as_object().unwrap().len(), 5);
    }
}

#[test]
fn a_plain_champion_fits_everywhere() {
    let fit = derive_role_fit("Unknown", &vec![]);
    assert_eq!(fit, RoleFit { top: 1000, jungle: 1000, mid: 1000, bot: 1000, support: 1000 });
}

#[test]
fn a_melee_tank_fits_the_top() {
    // 75, 55, 20, 20 and 45 points.
    let fit = derive_role_fit("Melee", &strings(&["Tank"]));
    assert_eq!(fit, RoleFit { top: 1000, jungle: 733, mid: 267, bot: 267, support: 600 });
}

#[test]
fn a_ranged_mage_fits_the_middle() {
    // 20, 30, 70, 55 and 40 points.
    let fit = derive_role_fit("RANGED", &strings(&["magic"]));
    assert_eq!(fit, RoleFit { top: 286, jungle: 429, mid: 1000, bot: 786, support: 571 });
}

#[test]
fn case_repetition_and_order_of_tags_do_not_matter() {
    let fit = derive_role_fit("range", &strings(&["AD", "CC"]));
    assert_eq!(derive_role_fit("x", &strings(&["cc", "RANGE", "ad", "Ad", "other"])), fit);
}

#[test]
fn traits_are_read_from_category_and_tags() {
    let traits = champion_traits("melee", &strings(&["Magic", "heal"]));
    assert!(traits.melee && traits.magic && traits.heal);
    assert!(!traits.ranged && !traits.attack && !traits.tank && !traits.control && !traits.shield);
    assert!(champion_traits("Range", &vec![]).ranged);
    assert!(!champion_traits("rangedd", &vec![]).ranged);
}

#[test]
fn the_best_role_fits_in_full() {
    for on in every_combination() {
        let fit = derive_role_fit("", &tags_for(on));
        let all = [fit.top, fit.jungle, fit.mid, fit.bot, fit.support];
        assert_eq!(all.iter().max(), Some(&1000));
        assert!(all.iter().all(|&t| t > 0));
    }
}

#[test]
fn tenths_are_read_as_the_numbers_they_print() {
    for tenths in 0u32..=1000 {
        let text = format!("{}.{}", tenths / 10, tenths % 10);
        let value = json(&text);
        assert_eq!(value, Value::from(f64::from(tenths) / 10.0));
        assert_eq!(value.to_string(), text);
    }
}

#[test]
fn more_points_never_fit_less() {
    // 45 points for the top, 40 for the jungle, 20 for the others.
    let fit = derive_role_fit("melee", &vec![]);
    assert_eq!(fit, RoleFit { top: 1000, jungle: 889, mid: 444, bot: 444, support: 444 });
    assert!(fit.top >= fit.jungle && fit.jungle >= fit.mid);
}

#[test]
fn case_matters_neither_in_the_category_nor_in_the_tags() {
    let plain = derive_role_fit("Ranged", &strings(&["AP", "Heal"]));
    assert_eq!(derive_role_fit("rANGED", &strings(&["hEAL", "ap", "HEAL"])), plain);
    assert_ne!(derive_role_fit("other", &strings(&["heal", "ap"])), plain);
}
