//! The modules the interface can show, and picking one of them by chance.

use crate::text::same;
use vstd::arithmetic::div_mod::*;
use vstd::arithmetic::mul::*;
use vstd::prelude::*;

verus! {

pub const MODULES: [&'static str; 9] = [
    "default",
    "ent",
    "entD",
    "entF",
    "entG",
    "ncc1031",
    "warpDrive",
    "starbase",
    "dna",
];

/// What the modules are called in the menu, in the same order.
pub const MODULE_LABELS: [&'static str; 9] = [
    "Titan (default)",
    "Enterprise",
    "Enterprise D",
    "Enterprise F",
    "Enterprise G",
    "NCC-1031",
    "Warp drive",
    "Starbase",
    "DNA",
];

/// How far the counter behind [`random_module`] moves on with every pick.
pub const COUNTER_STEP: u64 = 0x9e37_79b9_7f4a_7c15;

/// A cheap hash of a seed.
pub open spec fn mixed(seed: u64) -> u64 {
    let first = seed.wrapping_mul(6364136223846793005).wrapping_add(1442695040888963407);
    let second = (first ^ (first >> 33)).wrapping_mul(0xff51_afd7_ed55_8ccd);
    second ^ (second >> 33)
}

/// The module that a clock reading and a counter pick.
pub open spec fn picked(nanos: u64, counter: u64) -> Seq<char> {
    MODULES@[(mixed(nanos ^ counter) % 9) as int]@
}

/// Whether a name is one of the modules.
pub open spec fn is_module(name: Seq<char>) -> bool {
    exists|i: int| 0 <= i < MODULES@.len() && (#[trigger] MODULES@[i])@ == name
}

/// Picks one of the modules by the clock. The counter, which moves on by
/// [`COUNTER_STEP`] from one pick to the next, keeps consecutive picks apart.
pub fn random_module(nanos: u64, counter: u64) -> (name: String)
    ensures
        name@ == picked(nanos, counter),
        is_module(name@),
{
    let seed: u64 = nanos ^ counter;
    let mut state: u64 = seed.wrapping_mul(6364136223846793005).wrapping_add(1442695040888963407);
    state = state ^ (state >> 33);
    state = state.wrapping_mul(0xff51_afd7_ed55_8ccd);
    state = state ^ (state >> 33);
    let index: usize = (state % 9) as usize;
    assert(MODULES@[index as int]@ == picked(nanos, counter));
    MODULES[index].to_owned()
}

/// The menu label of a module; a name that is none stands for itself.
pub open spec fn label_of(name: Seq<char>) -> Seq<char> {
    label_from(name, 0)
}

pub open spec fn label_from(name: Seq<char>, i: int) -> Seq<char>
    decreases MODULES@.len() - i,
{
    if i < 0 || i >= MODULES@.len() {
        name
    } else if MODULES@[i]@ == name {
        MODULE_LABELS@[i]@
    } else {
        label_from(name, i + 1)
    }
}

pub fn module_label<'a>(name: &'a str) -> (label: &'a str)
    ensures
        label@ == label_of(name@),
{
    let mut i: usize = 0;
    while i < 9
        invariant
            i <= 9,
            label_from(name@, i as int) == label_of(name@),
        decreases 9 - i,
    {
        if same(MODULES[i], name) {
            return MODULE_LABELS[i];
        }
        i += 1;
    }
    name
}

/// Multiplying modulo two to the power of 64 by a number with an inverse loses
/// nothing.
proof fn lemma_multiply_keeps_apart(left: u64, right: u64, factor: u64, inverse: u64)
    requires
        (factor * inverse) % 0x1_0000_0000_0000_0000 == 1,
        left.wrapping_mul(factor) == right.wrapping_mul(factor),
    ensures
        left == right,
{
    let m = 0x1_0000_0000_0000_0000int;
    let (a, b, f, g) = (left as int, right as int, factor as int, inverse as int);
    assert((a * f) % m == (b * f) % m);
    lemma_mul_mod_noop_left(a * f, g, m);
    lemma_mul_mod_noop_left(b * f, g, m);
    assert(((a * f) * g) % m == ((b * f) * g) % m);
    lemma_mul_is_associative(a, f, g);
    lemma_mul_is_associative(b, f, g);
    lemma_mul_mod_noop_right(a, f * g, m);
    lemma_mul_mod_noop_right(b, f * g, m);
    lemma_small_mod(left as nat, m as nat);
    lemma_small_mod(right as nat, m as nat);
}

/// Both factors of the hash have an inverse.
proof fn lemma_inverses()
    ensures
        (0xff51_afd7_ed55_8ccdu64 * 0x4f74_430c_22a5_4005u64) % 0x1_0000_0000_0000_0000 == 1,
        (6364136223846793005u64 * 0xc097_ef87_329e_28a5u64) % 0x1_0000_0000_0000_0000 == 1,
{
}

proof fn lemma_shift_keeps_apart(left: u64, right: u64)
    requires
        left ^ (left >> 33) == right ^ (right >> 33),
    ensures
        left == right,
{
    assert(left ^ (left >> 33) == right ^ (right >> 33) ==> left == right) by (bit_vector);
}

/// Two seeds never come out the same.
pub proof fn mixing_keeps_seeds_apart(left: u64, right: u64)
    requires
        left != right,
    ensures
        mixed(left) != mixed(right),
{
    let a = left.wrapping_mul(6364136223846793005).wrapping_add(1442695040888963407);
    let b = right.wrapping_mul(6364136223846793005).wrapping_add(1442695040888963407);
    let c = (a ^ (a >> 33)).wrapping_mul(0xff51_afd7_ed55_8ccd);
    let d = (b ^ (b >> 33)).wrapping_mul(0xff51_afd7_ed55_8ccd);
    lemma_inverses();
    if mixed(left) == mixed(right) {
        lemma_shift_keeps_apart(c, d);
        lemma_multiply_keeps_apart(
            a ^ (a >> 33),
            b ^ (b >> 33),
            0xff51_afd7_ed55_8ccd,
            0x4f74_430c_22a5_4005,
        );
        lemma_shift_keeps_apart(a, b);
        lemma_multiply_keeps_apart(left, right, 6364136223846793005, 0xc097_ef87_329e_28a5);
    }
}

/// Two picks in a row start from different states, even within one tick of the
/// clock.
pub proof fn consecutive_picks_are_apart(nanos: u64, counter: u64)
    ensures
        mixed(nanos ^ counter) != mixed(nanos ^ counter.wrapping_add(COUNTER_STEP)),
{
    let next = counter.wrapping_add(COUNTER_STEP);
    assert(counter != next);
    assert(counter != next ==> nanos ^ counter != nanos ^ next) by (bit_vector);
    mixing_keeps_seeds_apart(nanos ^ counter, nanos ^ next);
}


proof fn lemma_modules_differ(i: int, j: int)
    requires
        0 <= i < j < 9,
    ensures
        MODULES@[i]@ != MODULES@[j]@,
{
    reveal_strlit("default");
    reveal_strlit("ent");
    reveal_strlit("entD");
    reveal_strlit("entF");
    reveal_strlit("entG");
    reveal_strlit("ncc1031");
    reveal_strlit("warpDrive");
    reveal_strlit("starbase");
    reveal_strlit("dna");
    let (one, two) = (MODULES@[i]@, MODULES@[j]@);
    assert(one.len() != two.len() || one[0] != two[0] || one[3] != two[3]);
}

proof fn lemma_label_from(at: int, i: int)
    requires
        0 <= at <= i < 9,
    ensures
        label_from(MODULES@[i]@, at) == MODULE_LABELS@[i]@,
    decreases i - at,
{
    if at < i {
        lemma_modules_differ(at, i);
        lemma_label_from(at + 1, i);
    }
}

/// Every module has its own label, and a name that is no module's stands for itself.
pub proof fn modules_have_their_labels(i: int, other: Seq<char>)
    requires
        0 <= i < 9,
        !is_module(other),
    ensures
        label_of(MODULES@[i]@) == MODULE_LABELS@[i]@,
        label_of(other) == other,
{
    lemma_label_from(0, i);
    lemma_no_label(other, 0);
}

proof fn lemma_no_label(other: Seq<char>, at: int)
    requires
        0 <= at <= 9,
        !is_module(other),
    ensures
        label_from(other, at) == other,
    decreases 9 - at,
{
    if at < 9 {
        assert(MODULES@[at]@ != other);
        lemma_no_label(other, at + 1);
    }
}

/// How a seed comes out, step by step.
proof fn lemma_mixed(seed: u64, first: u64, spread: u64, second: u64, last: u64)
    requires
        first == seed.wrapping_mul(6364136223846793005).wrapping_add(1442695040888963407),
        first ^ (first >> 33) == spread,
        second == spread.wrapping_mul(0xff51_afd7_ed55_8ccd),
        second ^ (second >> 33) == last,
    ensures
        mixed(seed) == last,
{
}

proof fn lemma_seed_for_the_first()
    ensures
        mixed(10) % 9 == 0,
{
    assert(9743825058228238609u64 ^ (9743825058228238609u64 >> 33) == 9743825057177861040u64)
        by (bit_vector);
    assert(12013764365344295920u64 ^ (12013764365344295920u64 >> 33) == 12013764364492042356u64)
        by (bit_vector);
    lemma_mixed(
        10,
        9743825058228238609,
        9743825057177861040,
        12013764365344295920,
        12013764364492042356,
    );
}

proof fn lemma_seed_for_the_second()
    ensures
        mixed(3) % 9 == 1,
{
    assert(2088359638719790806u64 ^ (2088359638719790806u64 >> 33) == 2088359638555316949u64)
        by (bit_vector);
    assert(15364083576796205201u64 ^ (15364083576796205201u64 >> 33) == 15364083576367073503u64)
        by (bit_vector);
    lemma_mixed(
        3,
        2088359638719790806,
        2088359638555316949,
        15364083576796205201,
        15364083576367073503,
    );
}

proof fn lemma_seed_for_the_third()
    ensures
        mixed(9) % 9 == 2,
{
    assert(3379688834381445604u64 ^ (3379688834381445604u64 >> 33) == 3379688834770628975u64)
        by (bit_vector);
    assert(4720653380586670563u64 ^ (4720653380586670563u64 >> 33) == 4720653381119252861u64)
        by (bit_vector);
    lemma_mixed(
        9,
        3379688834381445604,
        3379688834770628975,
        4720653380586670563,
        4720653381119252861,
    );
}

proof fn lemma_seed_for_the_fourth()
    ensures
        mixed(5) % 9 == 3,
{
    assert(14816632086413376816u64 ^ (14816632086413376816u64 >> 33) == 14816632084706974976u64)
        by (bit_vector);
    assert(17299435753094215936u64 ^ (17299435753094215936u64 >> 33) == 17299435753227846036u64)
        by (bit_vector);
    lemma_mixed(
        5,
        14816632086413376816,
        14816632084706974976,
        17299435753094215936,
        17299435753227846036,
    );
}

proof fn lemma_seed_for_the_fifth()
    ensures
        mixed(7) % 9 == 4,
{
    assert(9098160460397411210u64 ^ (9098160460397411210u64 >> 33) == 9098160460948860884u64)
        by (bit_vector);
    assert(17399659813235948740u64 ^ (17399659813235948740u64 >> 33) == 17399659813900484080u64)
        by (bit_vector);
    lemma_mixed(
        7,
        9098160460397411210,
        9098160460948860884,
        17399659813235948740,
        17399659813900484080,
    );
}

proof fn lemma_seed_for_the_sixth()
    ensures
        mixed(0) % 9 == 5,
{
    assert(1442695040888963407u64 ^ (1442695040888963407u64 >> 33) == 1442695040989478128u64)
        by (bit_vector);
    assert(17747684320464931888u64 ^ (17747684320464931888u64 >> 33) == 17747684320819229789u64)
        by (bit_vector);
    lemma_mixed(
        0,
        1442695040888963407,
        1442695040989478128,
        17747684320464931888,
        17747684320819229789,
    );
}

proof fn lemma_seed_for_the_seventh()
    ensures
        mixed(8) % 9 == 6,
{
    assert(15462296684244204215u64 ^ (15462296684244204215u64 >> 33) == 15462296683628065987u64)
        by (bit_vector);
    assert(10121336871010346023u64 ^ (10121336871010346023u64 >> 33) == 10121336870036684550u64)
        by (bit_vector);
    lemma_mixed(
        8,
        15462296684244204215,
        15462296683628065987,
        10121336871010346023,
        10121336870036684550,
    );
}

proof fn lemma_seed_for_the_eighth()
    ensures
        mixed(2) % 9 == 7,
{
    assert(14170967488582549417u64 ^ (14170967488582549417u64 >> 33) == 14170967490230144581u64)
        by (bit_vector);
    assert(15433051110065695041u64 ^ (15433051110065695041u64 >> 33) == 15433051108271944282u64)
        by (bit_vector);
    lemma_mixed(
        2,
        14170967488582549417,
        14170967490230144581,
        15433051110065695041,
        15433051108271944282,
    );
}

proof fn lemma_seed_for_the_ninth()
    ensures
        mixed(12) % 9 == 8,
{
    assert(4025353432212273003u64 ^ (4025353432212273003u64 >> 33) == 4025353432331649444u64)
        by (bit_vector);
    assert(240978691905421396u64 ^ (240978691905421396u64 >> 33) == 240978691895201855u64)
        by (bit_vector);
    lemma_mixed(
        12,
        4025353432212273003,
        4025353432331649444,
        240978691905421396,
        240978691895201855,
    );
}

/// Every module can come up: whatever the clock says, some state of the counter picks
/// it.
pub proof fn every_module_comes_up(nanos: u64, i: int) -> (counter: u64)
    requires
        0 <= i < 9,
    ensures
        picked(nanos, counter) == MODULES@[i]@,
{
    let seed: u64 = if i == 0 {
        lemma_seed_for_the_first();
        10
    } else if i == 1 {
        lemma_seed_for_the_second();
        3
    } else if i == 2 {
        lemma_seed_for_the_third();
        9
    } else if i == 3 {
        lemma_seed_for_the_fourth();
        5
    } else if i == 4 {
        lemma_seed_for_the_fifth();
        7
    } else if i == 5 {
        lemma_seed_for_the_sixth();
        0
    } else if i == 6 {
        lemma_seed_for_the_seventh();
        8
    } else if i == 7 {
        lemma_seed_for_the_eighth();
        2
    } else {
        lemma_seed_for_the_ninth();
        12
    };
    assert(nanos ^ (nanos ^ seed) == seed) by (bit_vector);
    nanos ^ seed
}

} // verus!
