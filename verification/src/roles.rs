//! How well a champion fits each role, judged by its category and tags.
//!
//! The game has no numbers for this. A small and reviewable prior is derived here;
//! the coach blends it with what is actually played.

use crate::text::{ascii_lower, eq_ignore_ascii_case, same_ignoring_case, texts};
use vstd::prelude::*;

verus! {

/// A number for each role.
#[derive(Debug, Clone, Copy, PartialEq, Eq, Structural)]
pub struct RoleFit {
    pub top: u32,
    pub jungle: u32,
    pub mid: u32,
    pub bot: u32,
    pub support: u32,
}

/// What counts of a champion.
#[derive(Debug, Clone, Copy, PartialEq, Eq, Structural)]
pub struct Traits {
    pub melee: bool,
    pub ranged: bool,
    pub attack: bool,
    pub magic: bool,
    pub tank: bool,
    pub control: bool,
    pub heal: bool,
    pub shield: bool,
}

/// Whether a tag is among the tags, whatever the case of its letters.
pub open spec fn has_tag(tags: Seq<Seq<char>>, tag: Seq<char>) -> bool {
    exists|i: int| 0 <= i < tags.len() && same_ignoring_case(#[trigger] tags[i], tag)
}

/// What counts of a champion of a category and with tags.
pub open spec fn traits_of(category: Seq<char>, tags: Seq<Seq<char>>) -> Traits {
    Traits {
        melee: same_ignoring_case(category, "melee"@) || has_tag(tags, "Melee"@),
        ranged: same_ignoring_case(category, "range"@) || same_ignoring_case(category, "ranged"@)
            || has_tag(tags, "Range"@),
        attack: has_tag(tags, "AD"@),
        magic: has_tag(tags, "AP"@) || has_tag(tags, "Magic"@),
        tank: has_tag(tags, "Tank"@),
        control: has_tag(tags, "CC"@),
        heal: has_tag(tags, "Heal"@),
        shield: has_tag(tags, "Shield"@),
    }
}

/// The points that a trait is worth.
pub open spec fn points(present: bool, worth: int) -> int {
    if present {
        worth
    } else {
        0
    }
}

impl Traits {
    /// The points of the top lane.
    pub open spec fn top_points(self) -> int {
        20 + points(self.melee, 25) + points(self.attack, 15) + points(self.tank, 30) + points(
            self.control,
            10,
        )
    }

    /// The points of the jungle.
    pub open spec fn jungle_points(self) -> int {
        20 + points(self.melee, 20) + points(self.attack, 15) + points(self.magic, 10) + points(
            self.tank,
            15,
        ) + points(self.control, 25)
    }

    /// The points of the middle lane.
    pub open spec fn mid_points(self) -> int {
        20 + points(self.ranged, 15) + points(self.magic, 35) + points(self.control, 10)
    }

    /// The points of the bottom lane.
    pub open spec fn bot_points(self) -> int {
        20 + points(self.ranged, 35) + points(self.attack, 35)
    }

    /// The points of the support.
    pub open spec fn support_points(self) -> int {
        20 + points(self.ranged, 10) + points(self.magic, 10) + points(self.tank, 25) + points(
            self.control,
            25,
        ) + points(self.heal, 45) + points(self.shield, 45)
    }

    /// The points of the role that fits best.
    pub open spec fn peak(self) -> int {
        larger(
            larger(
                larger(larger(self.top_points(), self.jungle_points()), self.mid_points()),
                self.bot_points(),
            ),
            self.support_points(),
        )
    }

    /// The fit of each role, as the share of its points in those of the best role.
    pub open spec fn fit(self) -> RoleFit {
        RoleFit {
            top: share(self.top_points(), self.peak()) as u32,
            jungle: share(self.jungle_points(), self.peak()) as u32,
            mid: share(self.mid_points(), self.peak()) as u32,
            bot: share(self.bot_points(), self.peak()) as u32,
            support: share(self.support_points(), self.peak()) as u32,
        }
    }
}

/// The larger of two numbers.
pub open spec fn larger(a: int, b: int) -> int {
    if a >= b {
        a
    } else {
        b
    }
}

/// A share in tenths of a percent, rounded to the nearest, halves upwards.
pub open spec fn share(score: int, peak: int) -> int {
    (2000 * score + peak) / (2 * peak)
}

/// Whether a tag is among the tags, whatever the case of its letters.
fn has(tags: &Vec<String>, tag: &str) -> (found: bool)
    ensures
        found == has_tag(texts(tags@), tag@),
{
    let mut i: usize = 0;
    while i < tags.len()
        invariant
            i <= tags.len(),
            forall|j: int| 0 <= j < i ==> !same_ignoring_case(#[trigger] tags[j]@, tag@),
        decreases tags.len() - i,
    {
        if eq_ignore_ascii_case(tags[i].as_str(), tag) {
            assert(same_ignoring_case(texts(tags@)[i as int], tag@));
            return true;
        }
        i += 1;
    }
    assert forall|j: int| 0 <= j < texts(tags@).len() implies !same_ignoring_case(
        #[trigger] texts(tags@)[j],
        tag@,
    ) by {
        assert(!same_ignoring_case(tags[j]@, tag@));
    }
    false
}

/// A share of the peak in tenths of a percent.
fn rounded_share(score: u32, peak: u32) -> (tenths: u32)
    requires
        score <= peak,
        0 < peak <= 1000,
    ensures
        tenths == share(score as int, peak as int),
        tenths <= 1000,
{
    proof {
        lemma_share_bounds(score as int, peak as int);
    }
    (2000 * score + peak) / (2 * peak)
}

proof fn lemma_share_bounds(score: int, peak: int)
    requires
        0 <= score <= peak,
        0 < peak,
    ensures
        0 <= share(score, peak) <= 1000,
{
    assert(0 <= (2000 * score + peak) / (2 * peak) <= 1000) by (nonlinear_arith)
        requires
            0 <= score <= peak,
            0 < peak,
    ;
}

/// The points that a trait is worth.
fn worth(present: bool, n: u32) -> (value: u32)
    ensures
        value == points(present, n as int),
        value <= n,
{
    if present {
        n
    } else {
        0
    }
}

fn larger_of(a: u32, b: u32) -> (m: u32)
    ensures
        m == larger(a as int, b as int),
{
    if a >= b {
        a
    } else {
        b
    }
}

/// What counts of a champion of a category and with tags.
pub fn champion_traits(category: &str, tags: &Vec<String>) -> (traits: Traits)
    ensures
        traits == traits_of(category@, texts(tags@)),
{
    Traits {
        melee: eq_ignore_ascii_case(category, "melee") || has(tags, "Melee"),
        ranged: eq_ignore_ascii_case(category, "range") || eq_ignore_ascii_case(category, "ranged")
            || has(tags, "Range"),
        attack: has(tags, "AD"),
        magic: has(tags, "AP") || has(tags, "Magic"),
        tank: has(tags, "Tank"),
        control: has(tags, "CC"),
        heal: has(tags, "Heal"),
        shield: has(tags, "Shield"),
    }
}

/// The points of each role.
fn tally(t: &Traits) -> (scores: RoleFit)
    ensures
        scores.top == t.top_points(),
        scores.jungle == t.jungle_points(),
        scores.mid == t.mid_points(),
        scores.bot == t.bot_points(),
        scores.support == t.support_points(),
        20 <= scores.top <= 200,
        20 <= scores.jungle <= 200,
        20 <= scores.mid <= 200,
        20 <= scores.bot <= 200,
        20 <= scores.support <= 200,
{
    RoleFit {
        top: 20 + worth(t.melee, 25) + worth(t.attack, 15) + worth(t.tank, 30) + worth(
            t.control,
            10,
        ),
        jungle: 20 + worth(t.melee, 20) + worth(t.attack, 15) + worth(t.magic, 10) + worth(
            t.tank,
            15,
        ) + worth(t.control, 25),
        mid: 20 + worth(t.ranged, 15) + worth(t.magic, 35) + worth(t.control, 10),
        bot: 20 + worth(t.ranged, 35) + worth(t.attack, 35),
        support: 20 + worth(t.ranged, 10) + worth(t.magic, 10) + worth(t.tank, 25) + worth(
            t.control,
            25,
        ) + worth(t.heal, 45) + worth(t.shield, 45),
    }
}

/// The fit of a champion for each role, in tenths of a percent: the best role has the
/// full percentage, and the others their share of its points.
pub fn derive_role_fit(category: &str, tags: &Vec<String>) -> (fit: RoleFit)
    ensures
        fit == traits_of(category@, texts(tags@)).fit(),
        fit.top <= 1000,
        fit.jungle <= 1000,
        fit.mid <= 1000,
        fit.bot <= 1000,
        fit.support <= 1000,
{
    let traits = champion_traits(category, tags);
    let scores = tally(&traits);
    let peak = larger_of(
        larger_of(larger_of(larger_of(scores.top, scores.jungle), scores.mid), scores.bot),
        scores.support,
    );
    RoleFit {
        top: rounded_share(scores.top, peak),
        jungle: rounded_share(scores.jungle, peak),
        mid: rounded_share(scores.mid, peak),
        bot: rounded_share(scores.bot, peak),
        support: rounded_share(scores.support, peak),
    }
}

/// Some role fits in full, and every role fits in part and none more than in full.
pub proof fn law_best_role_fits_in_full(traits: Traits)
    ensures
        traits.fit().top == 1000 || traits.fit().jungle == 1000 || traits.fit().mid == 1000
            || traits.fit().bot == 1000 || traits.fit().support == 1000,
        0 < traits.fit().top <= 1000,
        0 < traits.fit().jungle <= 1000,
        0 < traits.fit().mid <= 1000,
        0 < traits.fit().bot <= 1000,
        0 < traits.fit().support <= 1000,
{
    lemma_points(traits);
    lemma_shares(
        traits.top_points(),
        traits.jungle_points(),
        traits.mid_points(),
        traits.bot_points(),
        traits.support_points(),
        traits.peak(),
    );
}

/// Every role has points, and no more than can be given.
proof fn lemma_points(t: Traits)
    ensures
        20 <= t.top_points() <= 200,
        20 <= t.jungle_points() <= 200,
        20 <= t.mid_points() <= 200,
        20 <= t.bot_points() <= 200,
        20 <= t.support_points() <= 200,
{
}

/// The shares of five scores in the largest of them.
proof fn lemma_shares(a: int, b: int, c: int, d: int, e: int, peak: int)
    requires
        20 <= a <= 200,
        20 <= b <= 200,
        20 <= c <= 200,
        20 <= d <= 200,
        20 <= e <= 200,
        peak == larger(larger(larger(larger(a, b), c), d), e),
    ensures
        0 < share(a, peak) <= 1000,
        0 < share(b, peak) <= 1000,
        0 < share(c, peak) <= 1000,
        0 < share(d, peak) <= 1000,
        0 < share(e, peak) <= 1000,
        share(a, peak) == 1000 || share(b, peak) == 1000 || share(c, peak) == 1000 || share(d, peak)
            == 1000 || share(e, peak) == 1000,
{
    lemma_part_of_peak(a, peak);
    lemma_part_of_peak(b, peak);
    lemma_part_of_peak(c, peak);
    lemma_part_of_peak(d, peak);
    lemma_part_of_peak(e, peak);
}

proof fn lemma_part_of_peak(score: int, peak: int)
    requires
        20 <= score <= peak,
        peak <= 1000,
    ensures
        0 < share(score, peak) <= 1000,
        score == peak ==> share(score, peak) == 1000,
{
    lemma_share_bounds(score, peak);
    assert((2000 * score + peak) / (2 * peak) > 0) by (nonlinear_arith)
        requires
            20 <= score,
            score <= peak,
            peak <= 1000,
    ;
    if score == peak {
        assert((2000 * peak + peak) / (2 * peak) == 1000) by (nonlinear_arith)
            requires
                peak > 0,
        ;
    }
}

/// A role with more points never fits less.
pub proof fn law_more_points_never_fit_less(less: int, more: int, peak: int)
    requires
        0 <= less <= more,
        0 < peak,
    ensures
        share(less, peak) <= share(more, peak),
{
    vstd::arithmetic::div_mod::lemma_div_is_ordered(2000 * less + peak, 2000 * more + peak, 2 * peak);
}

/// Neither the order of the tags nor repetition matters, nor the case of ASCII letters in
/// the category and the tags: champions of one category whose tags are the same as a set,
/// case aside, have the same fit.
pub proof fn law_tags_count_as_a_set(
    category: Seq<char>,
    tags: Seq<Seq<char>>,
    other_category: Seq<char>,
    others: Seq<Seq<char>>,
)
    requires
        same_ignoring_case(category, other_category),
        forall|i: int| 0 <= i < tags.len() ==> has_tag(others, #[trigger] tags[i]),
        forall|i: int| 0 <= i < others.len() ==> has_tag(tags, #[trigger] others[i]),
    ensures
        traits_of(category, tags).fit() == traits_of(other_category, others).fit(),
{
    assert forall|tag: Seq<char>| #[trigger] has_tag(tags, tag) == has_tag(others, tag) by {
        if has_tag(tags, tag) {
            lemma_tag_is_found(tags, others, tag);
        }
        if has_tag(others, tag) {
            lemma_tag_is_found(others, tags, tag);
        }
    }
    assert forall|name: Seq<char>| #[trigger]
        same_ignoring_case(category, name) == same_ignoring_case(other_category, name) by {
        if same_ignoring_case(other_category, name) {
            lemma_same_ignoring_case(category, other_category, name);
        }
        if same_ignoring_case(category, name) {
            assert forall|i: int| 0 <= i < other_category.len() implies ascii_lower(
                #[trigger] other_category[i],
            ) == ascii_lower(category[i]) by {
                assert(ascii_lower(category[i]) == ascii_lower(other_category[i]));
            }
            lemma_same_ignoring_case(other_category, category, name);
        }
    }
    assert(traits_of(category, tags) == traits_of(other_category, others));
}

/// Texts that are the same as one text but for the case are so among each other.
proof fn lemma_same_ignoring_case(a: Seq<char>, b: Seq<char>, c: Seq<char>)
    requires
        same_ignoring_case(a, b),
        same_ignoring_case(b, c),
    ensures
        same_ignoring_case(a, c),
{
    assert forall|i: int| 0 <= i < a.len() implies ascii_lower(#[trigger] a[i]) == ascii_lower(
        c[i],
    ) by {
        assert(ascii_lower(b[i]) == ascii_lower(c[i]));
    }
}

/// A tag is found wherever all tags that it is found among are.
proof fn lemma_tag_is_found(tags: Seq<Seq<char>>, others: Seq<Seq<char>>, tag: Seq<char>)
    requires
        has_tag(tags, tag),
        forall|i: int| 0 <= i < tags.len() ==> has_tag(others, #[trigger] tags[i]),
    ensures
        has_tag(others, tag),
{
    let i = choose|i: int| 0 <= i < tags.len() && same_ignoring_case(#[trigger] tags[i], tag);
    let j = choose|j: int|
        0 <= j < others.len() && same_ignoring_case(#[trigger] others[j], tags[i]);
    lemma_same_ignoring_case(others[j], tags[i], tag);
}

/// A champion without tags has what its category says. Each tag, at whatever place, adds
/// what it names, whatever the case of its letters, and takes nothing away.
pub proof fn law_each_tag_counts(category: Seq<char>, tags: Seq<Seq<char>>, tag: Seq<char>)
    ensures
        traits_of(category, Seq::empty()) == (Traits {
            melee: same_ignoring_case(category, "melee"@),
            ranged: same_ignoring_case(category, "range"@) || same_ignoring_case(
                category,
                "ranged"@,
            ),
            attack: false,
            magic: false,
            tank: false,
            control: false,
            heal: false,
            shield: false,
        }),
        ({
            let earlier = traits_of(category, tags);
            traits_of(category, tags.push(tag)) == Traits {
                melee: earlier.melee || same_ignoring_case(tag, "Melee"@),
                ranged: earlier.ranged || same_ignoring_case(tag, "Range"@),
                attack: earlier.attack || same_ignoring_case(tag, "AD"@),
                magic: earlier.magic || same_ignoring_case(tag, "AP"@) || same_ignoring_case(
                    tag,
                    "Magic"@,
                ),
                tank: earlier.tank || same_ignoring_case(tag, "Tank"@),
                control: earlier.control || same_ignoring_case(tag, "CC"@),
                heal: earlier.heal || same_ignoring_case(tag, "Heal"@),
                shield: earlier.shield || same_ignoring_case(tag, "Shield"@),
            }
        }),
{
    lemma_one_more_tag(tags, tag, "Melee"@);
    lemma_one_more_tag(tags, tag, "Range"@);
    lemma_one_more_tag(tags, tag, "AD"@);
    lemma_one_more_tag(tags, tag, "AP"@);
    lemma_one_more_tag(tags, tag, "Magic"@);
    lemma_one_more_tag(tags, tag, "Tank"@);
    lemma_one_more_tag(tags, tag, "CC"@);
    lemma_one_more_tag(tags, tag, "Heal"@);
    lemma_one_more_tag(tags, tag, "Shield"@);
}

/// What is found among tags with one more.
proof fn lemma_one_more_tag(tags: Seq<Seq<char>>, tag: Seq<char>, name: Seq<char>)
    ensures
        has_tag(tags.push(tag), name) <==> has_tag(tags, name) || same_ignoring_case(tag, name),
        !has_tag(Seq::empty(), name),
{
    let all = tags.push(tag);
    if has_tag(tags, name) {
        let i = choose|i: int| 0 <= i < tags.len() && same_ignoring_case(#[trigger] tags[i], name);
        assert(same_ignoring_case(all[i], name));
    }
    if same_ignoring_case(tag, name) {
        assert(same_ignoring_case(all[tags.len() as int], name));
    }
    if has_tag(all, name) {
        let i = choose|i: int| 0 <= i < all.len() && same_ignoring_case(#[trigger] all[i], name);
        if i < tags.len() {
            assert(same_ignoring_case(tags[i], name));
        }
    }
}

/// Whether a champion has more points than another, by so many for each role.
pub open spec fn gains(
    with: Traits,
    without: Traits,
    top: int,
    jungle: int,
    mid: int,
    bot: int,
    support: int,
) -> bool {
    &&& with.top_points() == without.top_points() + top
    &&& with.jungle_points() == without.jungle_points() + jungle
    &&& with.mid_points() == without.mid_points() + mid
    &&& with.bot_points() == without.bot_points() + bot
    &&& with.support_points() == without.support_points() + support
}

/// Every role starts at twenty points, and each trait adds its own points to each role,
/// whatever the other traits.
pub proof fn law_each_trait_has_its_points(t: Traits)
    ensures
        gains(Traits { melee: true, ..t }, Traits { melee: false, ..t }, 25, 20, 0, 0, 0),
        gains(Traits { ranged: true, ..t }, Traits { ranged: false, ..t }, 0, 0, 15, 35, 10),
        gains(Traits { attack: true, ..t }, Traits { attack: false, ..t }, 15, 15, 0, 35, 0),
        gains(Traits { magic: true, ..t }, Traits { magic: false, ..t }, 0, 10, 35, 0, 10),
        gains(Traits { tank: true, ..t }, Traits { tank: false, ..t }, 30, 15, 0, 0, 25),
        gains(Traits { control: true, ..t }, Traits { control: false, ..t }, 10, 25, 10, 0, 25),
        gains(Traits { heal: true, ..t }, Traits { heal: false, ..t }, 0, 0, 0, 0, 45),
        gains(Traits { shield: true, ..t }, Traits { shield: false, ..t }, 0, 0, 0, 0, 45),
        !t.melee && !t.ranged && !t.attack && !t.magic && !t.tank && !t.control && !t.heal
            && !t.shield ==> t.top_points() == 20 && t.jungle_points() == 20 && t.mid_points() == 20
            && t.bot_points() == 20 && t.support_points() == 20,
{
    lemma_melee_points(t);
    lemma_ranged_points(t);
    lemma_attack_points(t);
    lemma_magic_points(t);
    lemma_tank_points(t);
    lemma_control_points(t);
    lemma_heal_points(t);
    lemma_shield_points(t);
}

proof fn lemma_melee_points(t: Traits)
    ensures
        gains(Traits { melee: true, ..t }, Traits { melee: false, ..t }, 25, 20, 0, 0, 0),
{
}

proof fn lemma_ranged_points(t: Traits)
    ensures
        gains(Traits { ranged: true, ..t }, Traits { ranged: false, ..t }, 0, 0, 15, 35, 10),
{
}

proof fn lemma_attack_points(t: Traits)
    ensures
        gains(Traits { attack: true, ..t }, Traits { attack: false, ..t }, 15, 15, 0, 35, 0),
{
}

proof fn lemma_magic_points(t: Traits)
    ensures
        gains(Traits { magic: true, ..t }, Traits { magic: false, ..t }, 0, 10, 35, 0, 10),
{
}

proof fn lemma_tank_points(t: Traits)
    ensures
        gains(Traits { tank: true, ..t }, Traits { tank: false, ..t }, 30, 15, 0, 0, 25),
{
}

proof fn lemma_control_points(t: Traits)
    ensures
        gains(Traits { control: true, ..t }, Traits { control: false, ..t }, 10, 25, 10, 0, 25),
{
}

proof fn lemma_heal_points(t: Traits)
    ensures
        gains(Traits { heal: true, ..t }, Traits { heal: false, ..t }, 0, 0, 0, 0, 45),
{
}

proof fn lemma_shield_points(t: Traits)
    ensures
        gains(Traits { shield: true, ..t }, Traits { shield: false, ..t }, 0, 0, 0, 0, 45),
{
}

/// Whether a number of tenths of a percent is the share of a score in another, to the
/// nearest tenth, halves upwards.
pub open spec fn is_nearest_share(tenths: int, score: int, whole: int) -> bool {
    whole * (2 * tenths - 1) <= 2000 * score < whole * (2 * tenths + 1)
}

/// The fit of a role is the share of its points in those of the role with the most.
pub proof fn law_fits_are_rounded_shares(t: Traits)
    ensures
        t.peak() >= t.top_points() && t.peak() >= t.jungle_points() && t.peak() >= t.mid_points()
            && t.peak() >= t.bot_points() && t.peak() >= t.support_points(),
        t.peak() == t.top_points() || t.peak() == t.jungle_points() || t.peak() == t.mid_points()
            || t.peak() == t.bot_points() || t.peak() == t.support_points(),
        is_nearest_share(t.fit().top as int, t.top_points(), t.peak()),
        is_nearest_share(t.fit().jungle as int, t.jungle_points(), t.peak()),
        is_nearest_share(t.fit().mid as int, t.mid_points(), t.peak()),
        is_nearest_share(t.fit().bot as int, t.bot_points(), t.peak()),
        is_nearest_share(t.fit().support as int, t.support_points(), t.peak()),
{
    lemma_points(t);
    lemma_peak(t);
    lemma_nearest(t.top_points(), t.peak());
    lemma_nearest(t.jungle_points(), t.peak());
    lemma_nearest(t.mid_points(), t.peak());
    lemma_nearest(t.bot_points(), t.peak());
    lemma_nearest(t.support_points(), t.peak());
}

proof fn lemma_peak(t: Traits)
    ensures
        t.peak() >= t.top_points() && t.peak() >= t.jungle_points() && t.peak() >= t.mid_points()
            && t.peak() >= t.bot_points() && t.peak() >= t.support_points(),
        t.peak() == t.top_points() || t.peak() == t.jungle_points() || t.peak() == t.mid_points()
            || t.peak() == t.bot_points() || t.peak() == t.support_points(),
{
}

proof fn lemma_nearest(score: int, peak: int)
    requires
        0 <= score <= peak,
        0 < peak,
    ensures
        is_nearest_share(share(score, peak), score, peak),
        0 <= share(score, peak) <= 1000,
{
    lemma_share_bounds(score, peak);
    let tenths = share(score, peak);
    vstd::arithmetic::div_mod::lemma_fundamental_div_mod(2000 * score + peak, 2 * peak);
    vstd::arithmetic::div_mod::lemma_mod_bound(2000 * score + peak, 2 * peak);
    assert(peak * (2 * tenths - 1) <= 2000 * score < peak * (2 * tenths + 1)) by (nonlinear_arith)
        requires
            2 * peak * tenths <= 2000 * score + peak < 2 * peak * tenths + 2 * peak,
    ;
}

} // verus!
