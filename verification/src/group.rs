//! The multiplicative group modulo `PRIME_32`: each multiplier of the
//! walk generates it, so the walk from any start visits every nonzero
//! value below `PRIME_32` once before it comes back.

use vstd::prelude::*;
use vstd::arithmetic::power::{
    pow, lemma1_pow, lemma_pow0, lemma_pow1, lemma_pow_adds, lemma_pow_distributes,
    lemma_pow_mod_noop, lemma_pow_multiplies,
};
use vstd::arithmetic::div_mod::{
    lemma_fundamental_div_mod, lemma_mul_mod_noop_left, lemma_mul_mod_noop_right, lemma_small_mod,
};
use vstd::set_lib::{lemma_int_range, lemma_map_size, lemma_subset_equality, set_int_range};
use vstd::relations::injective_on;
use crate::permutation::{
    fresh_walk, inverse_of, is_multiplier, lemma_inverse_of, lemma_next_outputs_len,
    lemma_walk_facts, next_outputs, perm_next, perm_start, perm_step, walk, PermState, PRIME_32,
};

verus! {

/// The modulus of the walk, 2^32 + 15, as a mathematical integer.
pub open spec fn modulus() -> int {
    4294967311
}

/// The size of the multiplicative group: `modulus() - 1`, which is
/// 2 * 3^2 * 5 * 131 * 364289.
pub open spec fn group_size() -> nat {
    4294967310
}

/// `b^e mod m` by repeated squaring.
pub open spec fn mexp(b: int, e: nat, m: int) -> int
    decreases e,
{
    if e == 0 {
        1int % m
    } else if e % 2 == 0 {
        let h = mexp(b, e / 2, m);
        (h * h) % m
    } else {
        (b * mexp(b, (e - 1) as nat, m)) % m
    }
}

proof fn lemma_mexp_pow(b: int, e: nat, m: int)
    requires
        m > 0,
    ensures
        mexp(b, e, m) == pow(b, e) % m,
    decreases e,
{
    if e == 0 {
        lemma_pow0(b);
    } else if e % 2 == 0 {
        let h2 = (e / 2) as nat;
        lemma_mexp_pow(b, h2, m);
        let h = pow(b, h2);
        lemma_pow_adds(b, h2, h2);
        assert(h2 + h2 == e);
        lemma_mul_mod_noop_left(h, h % m, m);
        lemma_mul_mod_noop_right(h, h, m);
    } else {
        let e1 = (e - 1) as nat;
        lemma_mexp_pow(b, e1, m);
        lemma_pow_adds(b, 1, e1);
        lemma_pow1(b);
        assert(1 + e1 == e);
        lemma_mul_mod_noop_right(b, pow(b, e1), m);
    }
}

/// The powers of a multiplier that decide its order.
pub open spec fn order_witness(r: int) -> bool {
    &&& pow(r, 4294967310) % modulus() == 1
    &&& pow(r, 2147483655) % modulus() != 1
    &&& pow(r, 1431655770) % modulus() != 1
    &&& pow(r, 858993462) % modulus() != 1
    &&& pow(r, 32786010) % modulus() != 1
    &&& pow(r, 11790) % modulus() != 1
}

/// The powers of 3 that decide its order, each computed by repeated
/// squaring.
#[verifier::spinoff_prover]
proof fn lemma_order_witness_3()
    ensures
        order_witness(3),
{
    assert(mexp(3, 0, 4294967311) == 1);
    assert(mexp(3, 1, 4294967311) == 3);
    assert(mexp(3, 2, 4294967311) == 9);
    assert(mexp(3, 4, 4294967311) == 81);
    assert(mexp(3, 8, 4294967311) == 6561);
    assert(mexp(3, 16, 4294967311) == 43046721);
    assert(mexp(3, 32, 4294967311) == 3787161312);
    assert(mexp(3, 64, 4294967311) == 2960817548);
    assert(mexp(3, 128, 4294967311) == 1176516725);
    assert(mexp(3, 256, 4294967311) == 93247894);
    assert(mexp(3, 512, 4294967311) == 4119348425);
    assert(mexp(3, 1024, 4294967311) == 363315125);
    assert(mexp(3, 2048, 4294967311) == 1144738664);
    assert(mexp(3, 4096, 4294967311) == 3159559037);
    assert(mexp(3, 8192, 4294967311) == 3984249440);
    assert(mexp(3, 16384, 4294967311) == 132383238);
    assert(mexp(3, 32768, 4294967311) == 3943573603);
    assert(mexp(3, 65536, 4294967311) == 2379622170);
    assert(mexp(3, 131072, 4294967311) == 1856824743);
    assert(mexp(3, 262144, 4294967311) == 481598255);
    assert(mexp(3, 524288, 4294967311) == 2950815293);
    assert(mexp(3, 1048576, 4294967311) == 3113557537);
    assert(mexp(3, 2097152, 4294967311) == 3857766064);
    assert(mexp(3, 4194304, 4294967311) == 67588542);
    assert(mexp(3, 8388608, 4294967311) == 2173327255);
    assert(mexp(3, 16777216, 4294967311) == 3817161173);
    assert(mexp(3, 33554432, 4294967311) == 1562112570);
    assert(mexp(3, 67108864, 4294967311) == 628487581);
    assert(mexp(3, 134217728, 4294967311) == 2095987730);
    assert(mexp(3, 268435456, 4294967311) == 2634914581);
    assert(mexp(3, 536870912, 4294967311) == 986911220);
    assert(mexp(3, 536870913, 4294967311) == 2960733660);
    assert(mexp(3, 1073741826, 4294967311) == 1418035659);
    assert(mexp(3, 1073741827, 4294967311) == 4254106977);
    assert(mexp(3, 2147483654, 4294967311) == 1431655770);
    assert(mexp(3, 2147483655, 4294967311) == 4294967310);
    assert(mexp(3, 4294967310, 4294967311) == 1);
    lemma_mexp_pow(3, 4294967310, 4294967311);
    assert(mexp(3, 0, 4294967311) == 1);
    assert(mexp(3, 1, 4294967311) == 3);
    assert(mexp(3, 2, 4294967311) == 9);
    assert(mexp(3, 4, 4294967311) == 81);
    assert(mexp(3, 8, 4294967311) == 6561);
    assert(mexp(3, 16, 4294967311) == 43046721);
    assert(mexp(3, 32, 4294967311) == 3787161312);
    assert(mexp(3, 64, 4294967311) == 2960817548);
    assert(mexp(3, 128, 4294967311) == 1176516725);
    assert(mexp(3, 256, 4294967311) == 93247894);
    assert(mexp(3, 512, 4294967311) == 4119348425);
    assert(mexp(3, 1024, 4294967311) == 363315125);
    assert(mexp(3, 2048, 4294967311) == 1144738664);
    assert(mexp(3, 4096, 4294967311) == 3159559037);
    assert(mexp(3, 8192, 4294967311) == 3984249440);
    assert(mexp(3, 16384, 4294967311) == 132383238);
    assert(mexp(3, 32768, 4294967311) == 3943573603);
    assert(mexp(3, 65536, 4294967311) == 2379622170);
    assert(mexp(3, 131072, 4294967311) == 1856824743);
    assert(mexp(3, 262144, 4294967311) == 481598255);
    assert(mexp(3, 524288, 4294967311) == 2950815293);
    assert(mexp(3, 1048576, 4294967311) == 3113557537);
    assert(mexp(3, 2097152, 4294967311) == 3857766064);
    assert(mexp(3, 4194304, 4294967311) == 67588542);
    assert(mexp(3, 8388608, 4294967311) == 2173327255);
    assert(mexp(3, 16777216, 4294967311) == 3817161173);
    assert(mexp(3, 33554432, 4294967311) == 1562112570);
    assert(mexp(3, 67108864, 4294967311) == 628487581);
    assert(mexp(3, 134217728, 4294967311) == 2095987730);
    assert(mexp(3, 268435456, 4294967311) == 2634914581);
    assert(mexp(3, 536870912, 4294967311) == 986911220);
    assert(mexp(3, 536870913, 4294967311) == 2960733660);
    assert(mexp(3, 1073741826, 4294967311) == 1418035659);
    assert(mexp(3, 1073741827, 4294967311) == 4254106977);
    assert(mexp(3, 2147483654, 4294967311) == 1431655770);
    assert(mexp(3, 2147483655, 4294967311) == 4294967310);
    lemma_mexp_pow(3, 2147483655, 4294967311);
    assert(mexp(3, 0, 4294967311) == 1);
    assert(mexp(3, 1, 4294967311) == 3);
    assert(mexp(3, 2, 4294967311) == 9);
    assert(mexp(3, 4, 4294967311) == 81);
    assert(mexp(3, 5, 4294967311) == 243);
    assert(mexp(3, 10, 4294967311) == 59049);
    assert(mexp(3, 20, 4294967311) == 3486784401);
    assert(mexp(3, 21, 4294967311) == 1870418581);
    assert(mexp(3, 42, 4294967311) == 2025330451);
    assert(mexp(3, 84, 4294967311) == 2810176888);
    assert(mexp(3, 85, 4294967311) == 4135563353);
    assert(mexp(3, 170, 4294967311) == 2508700846);
    assert(mexp(3, 340, 4294967311) == 4168529545);
    assert(mexp(3, 341, 4294967311) == 3915654013);
    assert(mexp(3, 682, 4294967311) == 3504594753);
    assert(mexp(3, 1364, 4294967311) == 1396312774);
    assert(mexp(3, 1365, 4294967311) == 4188938322);
    assert(mexp(3, 2730, 4294967311) == 852342645);
    assert(mexp(3, 5460, 4294967311) == 1906273521);
    assert(mexp(3, 5461, 4294967311) == 1423853252);
    assert(mexp(3, 10922, 4294967311) == 3380113069);
    assert(mexp(3, 21844, 4294967311) == 1370624179);
    assert(mexp(3, 21845, 4294967311) == 4111872537);
    assert(mexp(3, 43690, 4294967311) == 3229968403);
    assert(mexp(3, 87380, 4294967311) == 1380956530);
    assert(mexp(3, 87381, 4294967311) == 4142869590);
    assert(mexp(3, 174762, 4294967311) == 594127823);
    assert(mexp(3, 349524, 4294967311) == 3013687417);
    assert(mexp(3, 349525, 4294967311) == 451127629);
    assert(mexp(3, 699050, 4294967311) == 673660018);
    assert(mexp(3, 1398100, 4294967311) == 3129564490);
    assert(mexp(3, 1398101, 4294967311) == 798758848);
    assert(mexp(3, 2796202, 4294967311) == 4016292260);
    assert(mexp(3, 5592404, 4294967311) == 1903523154);
    assert(mexp(3, 5592405, 4294967311) == 1415602151);
    assert(mexp(3, 11184810, 4294967311) == 134640199);
    assert(mexp(3, 22369620, 4294967311) == 4203823662);
    assert(mexp(3, 22369621, 4294967311) == 4021536364);
    assert(mexp(3, 44739242, 4294967311) == 2519842127);
    assert(mexp(3, 89478484, 4294967311) == 1853151758);
    assert(mexp(3, 89478485, 4294967311) == 1264487963);
    assert(mexp(3, 178956970, 4294967311) == 803069464);
    assert(mexp(3, 178956971, 4294967311) == 2409208392);
    assert(mexp(3, 357913942, 4294967311) == 2127053489);
    assert(mexp(3, 715827884, 4294967311) == 3558709259);
    assert(mexp(3, 715827885, 4294967311) == 2086193155);
    assert(mexp(3, 1431655770, 4294967311) == 2086193154);
    lemma_mexp_pow(3, 1431655770, 4294967311);
    assert(mexp(3, 0, 4294967311) == 1);
    assert(mexp(3, 1, 4294967311) == 3);
    assert(mexp(3, 2, 4294967311) == 9);
    assert(mexp(3, 3, 4294967311) == 27);
    assert(mexp(3, 6, 4294967311) == 729);
    assert(mexp(3, 12, 4294967311) == 531441);
    assert(mexp(3, 24, 4294967311) == 3256661266);
    assert(mexp(3, 25, 4294967311) == 1180049176);
    assert(mexp(3, 50, 4294967311) == 3859196088);
    assert(mexp(3, 51, 4294967311) == 2987653642);
    assert(mexp(3, 102, 4294967311) == 3080109521);
    assert(mexp(3, 204, 4294967311) == 348479229);
    assert(mexp(3, 408, 4294967311) == 3277407467);
    assert(mexp(3, 409, 4294967311) == 1242287779);
    assert(mexp(3, 818, 4294967311) == 1670008777);
    assert(mexp(3, 819, 4294967311) == 715059020);
    assert(mexp(3, 1638, 4294967311) == 3339646144);
    assert(mexp(3, 3276, 4294967311) == 490912713);
    assert(mexp(3, 6552, 4294967311) == 3040376001);
    assert(mexp(3, 6553, 4294967311) == 531193381);
    assert(mexp(3, 13106, 4294967311) == 716986515);
    assert(mexp(3, 13107, 4294967311) == 2150959545);
    assert(mexp(3, 26214, 4294967311) == 1138512195);
    assert(mexp(3, 52428, 4294967311) == 3374286204);
    assert(mexp(3, 104856, 4294967311) == 259809333);
    assert(mexp(3, 104857, 4294967311) == 779427999);
    assert(mexp(3, 209714, 4294967311) == 2064096032);
    assert(mexp(3, 209715, 4294967311) == 1897320785);
    assert(mexp(3, 419430, 4294967311) == 968103296);
    assert(mexp(3, 838860, 4294967311) == 2058677312);
    assert(mexp(3, 1677720, 4294967311) == 2714235046);
    assert(mexp(3, 1677721, 4294967311) == 3847737827);
    assert(mexp(3, 3355442, 4294967311) == 1752232349);
    assert(mexp(3, 3355443, 4294967311) == 961729736);
    assert(mexp(3, 6710886, 4294967311) == 1349648637);
    assert(mexp(3, 13421772, 4294967311) == 2250585946);
    assert(mexp(3, 26843544, 4294967311) == 630657419);
    assert(mexp(3, 26843545, 4294967311) == 1891972257);
    assert(mexp(3, 53687090, 4294967311) == 24548341);
    assert(mexp(3, 53687091, 4294967311) == 73645023);
    assert(mexp(3, 107374182, 4294967311) == 3476587882);
    assert(mexp(3, 214748364, 4294967311) == 1004306678);
    assert(mexp(3, 214748365, 4294967311) == 3012920034);
    assert(mexp(3, 429496730, 4294967311) == 1213331126);
    assert(mexp(3, 429496731, 4294967311) == 3639993378);
    assert(mexp(3, 858993462, 4294967311) == 239247313);
    lemma_mexp_pow(3, 858993462, 4294967311);
    assert(mexp(3, 0, 4294967311) == 1);
    assert(mexp(3, 1, 4294967311) == 3);
    assert(mexp(3, 2, 4294967311) == 9);
    assert(mexp(3, 3, 4294967311) == 27);
    assert(mexp(3, 6, 4294967311) == 729);
    assert(mexp(3, 7, 4294967311) == 2187);
    assert(mexp(3, 14, 4294967311) == 4782969);
    assert(mexp(3, 15, 4294967311) == 14348907);
    assert(mexp(3, 30, 4294967311) == 3284107242);
    assert(mexp(3, 31, 4294967311) == 1262387104);
    assert(mexp(3, 62, 4294967311) == 2237854088);
    assert(mexp(3, 124, 4294967311) == 226622049);
    assert(mexp(3, 125, 4294967311) == 679866147);
    assert(mexp(3, 250, 4294967311) == 3918033621);
    assert(mexp(3, 500, 4294967311) == 1950446494);
    assert(mexp(3, 1000, 4294967311) == 42508036);
    assert(mexp(3, 2000, 4294967311) == 1722133797);
    assert(mexp(3, 2001, 4294967311) == 871434080);
    assert(mexp(3, 4002, 4294967311) == 2229375486);
    assert(mexp(3, 8004, 4294967311) == 3642804383);
    assert(mexp(3, 16008, 4294967311) == 2291656374);
    assert(mexp(3, 32016, 4294967311) == 358962355);
    assert(mexp(3, 32017, 4294967311) == 1076887065);
    assert(mexp(3, 64034, 4294967311) == 3623560667);
    assert(mexp(3, 64035, 4294967311) == 2280747379);
    assert(mexp(3, 128070, 4294967311) == 3690245490);
    assert(mexp(3, 256140, 4294967311) == 268904517);
    assert(mexp(3, 512280, 4294967311) == 3406705700);
    assert(mexp(3, 512281, 4294967311) == 1630182478);
    assert(mexp(3, 1024562, 4294967311) == 2614321356);
    assert(mexp(3, 2049124, 4294967311) == 773909674);
    assert(mexp(3, 2049125, 4294967311) == 2321729022);
    assert(mexp(3, 4098250, 4294967311) == 2776453825);
    assert(mexp(3, 4098251, 4294967311) == 4034394164);
    assert(mexp(3, 8196502, 4294967311) == 4106967900);
    assert(mexp(3, 16393004, 4294967311) == 2907854467);
    assert(mexp(3, 16393005, 4294967311) == 133628779);
    assert(mexp(3, 32786010, 4294967311) == 1859000016);
    lemma_mexp_pow(3, 32786010, 4294967311);
    assert(mexp(3, 0, 4294967311) == 1);
    assert(mexp(3, 1, 4294967311) == 3);
    assert(mexp(3, 2, 4294967311) == 9);
    assert(mexp(3, 4, 4294967311) == 81);
    assert(mexp(3, 5, 4294967311) == 243);
    assert(mexp(3, 10, 4294967311) == 59049);
    assert(mexp(3, 11, 4294967311) == 177147);
    assert(mexp(3, 22, 4294967311) == 1316288432);
    assert(mexp(3, 23, 4294967311) == 3948865296);
    assert(mexp(3, 46, 4294967311) == 843008713);
    assert(mexp(3, 92, 4294967311) == 3570863356);
    assert(mexp(3, 184, 4294967311) == 3516356701);
    assert(mexp(3, 368, 4294967311) == 675745296);
    assert(mexp(3, 736, 4294967311) == 1855424333);
    assert(mexp(3, 1472, 4294967311) == 1135984605);
    assert(mexp(3, 1473, 4294967311) == 3407953815);
    assert(mexp(3, 2946, 4294967311) == 2097903650);
    assert(mexp(3, 2947, 4294967311) == 1998743639);
    assert(mexp(3, 5894, 4294967311) == 2214835550);
    assert(mexp(3, 5895, 4294967311) == 2349539339);
    assert(mexp(3, 11790, 4294967311) == 1338913740);
    lemma_mexp_pow(3, 11790, 4294967311);
}

/// The powers of 13 that decide its order, each computed by repeated
/// squaring.
#[verifier::spinoff_prover]
proof fn lemma_order_witness_13()
    ensures
        order_witness(13),
{
    assert(mexp(13, 0, 4294967311) == 1);
    assert(mexp(13, 1, 4294967311) == 13);
    assert(mexp(13, 2, 4294967311) == 169);
    assert(mexp(13, 4, 4294967311) == 28561);
    assert(mexp(13, 8, 4294967311) == 815730721);
    assert(mexp(13, 16, 4294967311) == 3749551905);
    assert(mexp(13, 32, 4294967311) == 3632172501);
    assert(mexp(13, 64, 4294967311) == 2717467477);
    assert(mexp(13, 128, 4294967311) == 4124278199);
    assert(mexp(13, 256, 4294967311) == 3935101307);
    assert(mexp(13, 512, 4294967311) == 2846470104);
    assert(mexp(13, 1024, 4294967311) == 1028839166);
    assert(mexp(13, 2048, 4294967311) == 2666325286);
    assert(mexp(13, 4096, 4294967311) == 1799481072);
    assert(mexp(13, 8192, 4294967311) == 337758449);
    assert(mexp(13, 16384, 4294967311) == 4229693723);
    assert(mexp(13, 32768, 4294967311) == 3653110567);
    assert(mexp(13, 65536, 4294967311) == 3529006290);
    assert(mexp(13, 131072, 4294967311) == 1502299938);
    assert(mexp(13, 262144, 4294967311) == 551538718);
    assert(mexp(13, 524288, 4294967311) == 2116157447);
    assert(mexp(13, 1048576, 4294967311) == 1101640776);
    assert(mexp(13, 2097152, 4294967311) == 425922971);
    assert(mexp(13, 4194304, 4294967311) == 3209983807);
    assert(mexp(13, 8388608, 4294967311) == 435186407);
    assert(mexp(13, 16777216, 4294967311) == 2488764554);
    assert(mexp(13, 33554432, 4294967311) == 2638152108);
    assert(mexp(13, 67108864, 4294967311) == 568044169);
    assert(mexp(13, 134217728, 4294967311) == 1188344965);
    assert(mexp(13, 268435456, 4294967311) == 295442780);
    assert(mexp(13, 536870912, 4294967311) == 276269773);
    assert(mexp(13, 536870913, 4294967311) == 3591507049);
    assert(mexp(13, 1073741826, 4294967311) == 3460125035);
    assert(mexp(13, 1073741827, 4294967311) == 2031952345);
    assert(mexp(13, 2147483654, 4294967311) == 1982292605);
    assert(mexp(13, 2147483655, 4294967311) == 4294967310);
    assert(mexp(13, 4294967310, 4294967311) == 1);
    lemma_mexp_pow(13, 4294967310, 4294967311);
    assert(mexp(13, 0, 4294967311) == 1);
    assert(mexp(13, 1, 4294967311) == 13);
    assert(mexp(13, 2, 4294967311) == 169);
    assert(mexp(13, 4, 4294967311) == 28561);
    assert(mexp(13, 8, 4294967311) == 815730721);
    assert(mexp(13, 16, 4294967311) == 3749551905);
    assert(mexp(13, 32, 4294967311) == 3632172501);
    assert(mexp(13, 64, 4294967311) == 2717467477);
    assert(mexp(13, 128, 4294967311) == 4124278199);
    assert(mexp(13, 256, 4294967311) == 3935101307);
    assert(mexp(13, 512, 4294967311) == 2846470104);
    assert(mexp(13, 1024, 4294967311) == 1028839166);
    assert(mexp(13, 2048, 4294967311) == 2666325286);
    assert(mexp(13, 4096, 4294967311) == 1799481072);
    assert(mexp(13, 8192, 4294967311) == 337758449);
    assert(mexp(13, 16384, 4294967311) == 4229693723);
    assert(mexp(13, 32768, 4294967311) == 3653110567);
    assert(mexp(13, 65536, 4294967311) == 3529006290);
    assert(mexp(13, 131072, 4294967311) == 1502299938);
    assert(mexp(13, 262144, 4294967311) == 551538718);
    assert(mexp(13, 524288, 4294967311) == 2116157447);
    assert(mexp(13, 1048576, 4294967311) == 1101640776);
    assert(mexp(13, 2097152, 4294967311) == 425922971);
    assert(mexp(13, 4194304, 4294967311) == 3209983807);
    assert(mexp(13, 8388608, 4294967311) == 435186407);
    assert(mexp(13, 16777216, 4294967311) == 2488764554);
    assert(mexp(13, 33554432, 4294967311) == 2638152108);
    assert(mexp(13, 67108864, 4294967311) == 568044169);
    assert(mexp(13, 134217728, 4294967311) == 1188344965);
    assert(mexp(13, 268435456, 4294967311) == 295442780);
    assert(mexp(13, 536870912, 4294967311) == 276269773);
    assert(mexp(13, 536870913, 4294967311) == 3591507049);
    assert(mexp(13, 1073741826, 4294967311) == 3460125035);
    assert(mexp(13, 1073741827, 4294967311) == 2031952345);
    assert(mexp(13, 2147483654, 4294967311) == 1982292605);
    assert(mexp(13, 2147483655, 4294967311) == 4294967310);
    lemma_mexp_pow(13, 2147483655, 4294967311);
    assert(mexp(13, 0, 4294967311) == 1);
    assert(mexp(13, 1, 4294967311) == 13);
    assert(mexp(13, 2, 4294967311) == 169);
    assert(mexp(13, 4, 4294967311) == 28561);
    assert(mexp(13, 5, 4294967311) == 371293);
    assert(mexp(13, 10, 4294967311) == 419537897);
    assert(mexp(13, 20, 4294967311) == 237026231);
    assert(mexp(13, 21, 4294967311) == 3081341003);
    assert(mexp(13, 42, 4294967311) == 3172763025);
    assert(mexp(13, 84, 4294967311) == 1743328942);
    assert(mexp(13, 85, 4294967311) == 1188439691);
    assert(mexp(13, 170, 4294967311) == 1412324416);
    assert(mexp(13, 340, 4294967311) == 2835691037);
    assert(mexp(13, 341, 4294967311) == 2504244993);
    assert(mexp(13, 682, 4294967311) == 2576451664);
    assert(mexp(13, 1364, 4294967311) == 3982485077);
    assert(mexp(13, 1365, 4294967311) == 232698269);
    assert(mexp(13, 2730, 4294967311) == 1849744875);
    assert(mexp(13, 5460, 4294967311) == 3785257659);
    assert(mexp(13, 5461, 4294967311) == 1963709146);
    assert(mexp(13, 10922, 4294967311) == 3987553463);
    assert(mexp(13, 21844, 4294967311) == 96667866);
    assert(mexp(13, 21845, 4294967311) == 1256682258);
    assert(mexp(13, 43690, 4294967311) == 4252356793);
    assert(mexp(13, 87380, 4294967311) == 1763176184);
    assert(mexp(13, 87381, 4294967311) == 1446453837);
    assert(mexp(13, 174762, 4294967311) == 3391501186);
    assert(mexp(13, 349524, 4294967311) == 579890631);
    assert(mexp(13, 349525, 4294967311) == 3243610892);
    assert(mexp(13, 699050, 4294967311) == 2219747386);
    assert(mexp(13, 1398100, 4294967311) == 3224504486);
    assert(mexp(13, 1398101, 4294967311) == 3263852519);
    assert(mexp(13, 2796202, 4294967311) == 1214937087);
    assert(mexp(13, 5592404, 4294967311) == 3559269238);
    assert(mexp(13, 5592405, 4294967311) == 3320826984);
    assert(mexp(13, 11184810, 4294967311) == 1707198606);
    assert(mexp(13, 22369620, 4294967311) == 2961504993);
    assert(mexp(13, 22369621, 4294967311) == 4139826421);
    assert(mexp(13, 44739242, 4294967311) == 3881827181);
    assert(mexp(13, 89478484, 4294967311) == 118328616);
    assert(mexp(13, 89478485, 4294967311) == 1538272008);
    assert(mexp(13, 178956970, 4294967311) == 4121357072);
    assert(mexp(13, 178956971, 4294967311) == 2038034204);
    assert(mexp(13, 357913942, 4294967311) == 4280936360);
    assert(mexp(13, 715827884, 4294967311) == 3464297405);
    assert(mexp(13, 715827885, 4294967311) == 2086193155);
    assert(mexp(13, 1431655770, 4294967311) == 2086193154);
    lemma_mexp_pow(13, 1431655770, 4294967311);
    assert(mexp(13, 0, 4294967311) == 1);
    assert(mexp(13, 1, 4294967311) == 13);
    assert(mexp(13, 2, 4294967311) == 169);
    assert(mexp(13, 3, 4294967311) == 2197);
    assert(mexp(13, 6, 4294967311) == 4826809);
    assert(mexp(13, 12, 4294967311) == 2182427617);
    assert(mexp(13, 24, 4294967311) == 837701455);
    assert(mexp(13, 25, 4294967311) == 2300184293);
    assert(mexp(13, 50, 4294967311) == 861046459);
    assert(mexp(13, 51, 4294967311) == 2603669345);
    assert(mexp(13, 102, 4294967311) == 1818582828);
    assert(mexp(13, 204, 4294967311) == 2879674654);
    assert(mexp(13, 408, 4294967311) == 2738573181);
    assert(mexp(13, 409, 4294967311) == 1241712865);
    assert(mexp(13, 818, 4294967311) == 144606283);
    assert(mexp(13, 819, 4294967311) == 1879881679);
    assert(mexp(13, 1638, 4294967311) == 4290421668);
    assert(mexp(13, 3276, 4294967311) == 4077517539);
    assert(mexp(13, 6552, 4294967311) == 114486746);
    assert(mexp(13, 6553, 4294967311) == 1488327698);
    assert(mexp(13, 13106, 4294967311) == 504204255);
    assert(mexp(13, 13107, 4294967311) == 2259688004);
    assert(mexp(13, 26214, 4294967311) == 692153535);
    assert(mexp(13, 52428, 4294967311) == 829776702);
    assert(mexp(13, 104856, 4294967311) == 164678597);
    assert(mexp(13, 104857, 4294967311) == 2140821761);
    assert(mexp(13, 209714, 4294967311) == 2014846395);
    assert(mexp(13, 209715, 4294967311) == 423199269);
    assert(mexp(13, 419430, 4294967311) == 1264278607);
    assert(mexp(13, 838860, 4294967311) == 3199663648);
    assert(mexp(13, 1677720, 4294967311) == 2123720749);
    assert(mexp(13, 1677721, 4294967311) == 1838565871);
    assert(mexp(13, 3355442, 4294967311) == 2143440254);
    assert(mexp(13, 3355443, 4294967311) == 2094919436);
    assert(mexp(13, 6710886, 4294967311) == 2824546598);
    assert(mexp(13, 13421772, 4294967311) == 2866581765);
    assert(mexp(13, 26843544, 4294967311) == 2284678886);
    assert(mexp(13, 26843545, 4294967311) == 3931021652);
    assert(mexp(13, 53687090, 4294967311) == 3021023783);
    assert(mexp(13, 53687091, 4294967311) == 618603380);
    assert(mexp(13, 107374182, 4294967311) == 425208215);
    assert(mexp(13, 214748364, 4294967311) == 4142835164);
    assert(mexp(13, 214748365, 4294967311) == 2317249400);
    assert(mexp(13, 429496730, 4294967311) == 1601527894);
    assert(mexp(13, 429496731, 4294967311) == 3639993378);
    assert(mexp(13, 858993462, 4294967311) == 239247313);
    lemma_mexp_pow(13, 858993462, 4294967311);
    assert(mexp(13, 0, 4294967311) == 1);
    assert(mexp(13, 1, 4294967311) == 13);
    assert(mexp(13, 2, 4294967311) == 169);
    assert(mexp(13, 3, 4294967311) == 2197);
    assert(mexp(13, 6, 4294967311) == 4826809);
    assert(mexp(13, 7, 4294967311) == 62748517);
    assert(mexp(13, 14, 4294967311) == 3758045838);
    assert(mexp(13, 15, 4294967311) == 1609955473);
    assert(mexp(13, 30, 4294967311) == 961810432);
    assert(mexp(13, 31, 4294967311) == 3913600994);
    assert(mexp(13, 62, 4294967311) == 143149728);
    assert(mexp(13, 124, 4294967311) == 1534909865);
    assert(mexp(13, 125, 4294967311) == 2773959001);
    assert(mexp(13, 250, 4294967311) == 4082919860);
    assert(mexp(13, 500, 4294967311) == 1322555626);
    assert(mexp(13, 1000, 4294967311) == 3402176510);
    assert(mexp(13, 2000, 4294967311) == 496900910);
    assert(mexp(13, 2001, 4294967311) == 2164744519);
    assert(mexp(13, 4002, 4294967311) == 895110701);
    assert(mexp(13, 8004, 4294967311) == 179942546);
    assert(mexp(13, 16008, 4294967311) == 3684966149);
    assert(mexp(13, 32016, 4294967311) == 1165559912);
    assert(mexp(13, 32017, 4294967311) == 2267376923);
    assert(mexp(13, 64034, 4294967311) == 69113584);
    assert(mexp(13, 64035, 4294967311) == 898476592);
    assert(mexp(13, 128070, 4294967311) == 569922076);
    assert(mexp(13, 256140, 4294967311) == 620267642);
    assert(mexp(13, 512280, 4294967311) == 3037411118);
    assert(mexp(13, 512281, 4294967311) == 831638735);
    assert(mexp(13, 1024562, 4294967311) == 1415543761);
    assert(mexp(13, 2049124, 4294967311) == 2816638909);
    assert(mexp(13, 2049125, 4294967311) == 2256567329);
    assert(mexp(13, 4098250, 4294967311) == 3308165131);
    assert(mexp(13, 4098251, 4294967311) == 56473593);
    assert(mexp(13, 8196502, 4294967311) == 74840800);
    assert(mexp(13, 16393004, 4294967311) == 1164953302);
    assert(mexp(13, 16393005, 4294967311) == 2259490993);
    assert(mexp(13, 32786010, 4294967311) == 2262476624);
    lemma_mexp_pow(13, 32786010, 4294967311);
    assert(mexp(13, 0, 4294967311) == 1);
    assert(mexp(13, 1, 4294967311) == 13);
    assert(mexp(13, 2, 4294967311) == 169);
    assert(mexp(13, 4, 4294967311) == 28561);
    assert(mexp(13, 5, 4294967311) == 371293);
    assert(mexp(13, 10, 4294967311) == 419537897);
    assert(mexp(13, 11, 4294967311) == 1159025350);
    assert(mexp(13, 22, 4294967311) == 1402727240);
    assert(mexp(13, 23, 4294967311) == 1055584876);
    assert(mexp(13, 46, 4294967311) == 2064429547);
    assert(mexp(13, 92, 4294967311) == 2223032318);
    assert(mexp(13, 184, 4294967311) == 2239823590);
    assert(mexp(13, 368, 4294967311) == 3413631770);
    assert(mexp(13, 736, 4294967311) == 2917454986);
    assert(mexp(13, 1472, 4294967311) == 3732058570);
    assert(mexp(13, 1473, 4294967311) == 1272120989);
    assert(mexp(13, 2946, 4294967311) == 2484720379);
    assert(mexp(13, 2947, 4294967311) == 2236593750);
    assert(mexp(13, 5894, 4294967311) == 1436519671);
    assert(mexp(13, 5895, 4294967311) == 1494886479);
    assert(mexp(13, 11790, 4294967311) == 1395970050);
    lemma_mexp_pow(13, 11790, 4294967311);
}

/// The powers of 15 that decide its order, each computed by repeated
/// squaring.
#[verifier::spinoff_prover]
proof fn lemma_order_witness_15()
    ensures
        order_witness(15),
{
    assert(mexp(15, 0, 4294967311) == 1);
    assert(mexp(15, 1, 4294967311) == 15);
    assert(mexp(15, 2, 4294967311) == 225);
    assert(mexp(15, 4, 4294967311) == 50625);
    assert(mexp(15, 8, 4294967311) == 2562890625);
    assert(mexp(15, 16, 4294967311) == 3869661796);
    assert(mexp(15, 32, 4294967311) == 3698615816);
    assert(mexp(15, 64, 4294967311) == 1077829775);
    assert(mexp(15, 128, 4294967311) == 2010830794);
    assert(mexp(15, 256, 4294967311) == 3157729330);
    assert(mexp(15, 512, 4294967311) == 769219300);
    assert(mexp(15, 1024, 4294967311) == 3818984878);
    assert(mexp(15, 2048, 4294967311) == 4272420838);
    assert(mexp(15, 4096, 4294967311) == 3998711702);
    assert(mexp(15, 8192, 4294967311) == 3741583785);
    assert(mexp(15, 16384, 4294967311) == 1500302554);
    assert(mexp(15, 32768, 4294967311) == 994816927);
    assert(mexp(15, 65536, 4294967311) == 959317278);
    assert(mexp(15, 131072, 4294967311) == 1934576976);
    assert(mexp(15, 262144, 4294967311) == 2745438419);
    assert(mexp(15, 524288, 4294967311) == 543685557);
    assert(mexp(15, 1048576, 4294967311) == 2241463442);
    assert(mexp(15, 2097152, 4294967311) == 501215833);
    assert(mexp(15, 4194304, 4294967311) == 305059521);
    assert(mexp(15, 8388608, 4294967311) == 4062441477);
    assert(mexp(15, 16777216, 4294967311) == 2330978928);
    assert(mexp(15, 33554432, 4294967311) == 3904889187);
    assert(mexp(15, 67108864, 4294967311) == 570425346);
    assert(mexp(15, 134217728, 4294967311) == 1145307140);
    assert(mexp(15, 268435456, 4294967311) == 286331153);
    assert(mexp(15, 536870912, 4294967311) == 1985229336);
    assert(mexp(15, 536870913, 4294967311) == 4008636174);
    assert(mexp(15, 1073741826, 4294967311) == 1412567318);
    assert(mexp(15, 1073741827, 4294967311) == 4008640526);
    assert(mexp(15, 2147483654, 4294967311) == 286331154);
    assert(mexp(15, 2147483655, 4294967311) == 4294967310);
    assert(mexp(15, 4294967310, 4294967311) == 1);
    lemma_mexp_pow(15, 4294967310, 4294967311);
    assert(mexp(15, 0, 4294967311) == 1);
    assert(mexp(15, 1, 4294967311) == 15);
    assert(mexp(15, 2, 4294967311) == 225);
    assert(mexp(15, 4, 4294967311) == 50625);
    assert(mexp(15, 8, 4294967311) == 2562890625);
    assert(mexp(15, 16, 4294967311) == 3869661796);
    assert(mexp(15, 32, 4294967311) == 3698615816);
    assert(mexp(15, 64, 4294967311) == 1077829775);
    assert(mexp(15, 128, 4294967311) == 2010830794);
    assert(mexp(15, 256, 4294967311) == 3157729330);
    assert(mexp(15, 512, 4294967311) == 769219300);
    assert(mexp(15, 1024, 4294967311) == 3818984878);
    assert(mexp(15, 2048, 4294967311) == 4272420838);
    assert(mexp(15, 4096, 4294967311) == 3998711702);
    assert(mexp(15, 8192, 4294967311) == 3741583785);
    assert(mexp(15, 16384, 4294967311) == 1500302554);
    assert(mexp(15, 32768, 4294967311) == 994816927);
    assert(mexp(15, 65536, 4294967311) == 959317278);
    assert(mexp(15, 131072, 4294967311) == 1934576976);
    assert(mexp(15, 262144, 4294967311) == 2745438419);
    assert(mexp(15, 524288, 4294967311) == 543685557);
    assert(mexp(15, 1048576, 4294967311) == 2241463442);
    assert(mexp(15, 2097152, 4294967311) == 501215833);
    assert(mexp(15, 4194304, 4294967311) == 305059521);
    assert(mexp(15, 8388608, 4294967311) == 4062441477);
    assert(mexp(15, 16777216, 4294967311) == 2330978928);
    assert(mexp(15, 33554432, 4294967311) == 3904889187);
    assert(mexp(15, 67108864, 4294967311) == 570425346);
    assert(mexp(15, 134217728, 4294967311) == 1145307140);
    assert(mexp(15, 268435456, 4294967311) == 286331153);
    assert(mexp(15, 536870912, 4294967311) == 1985229336);
    assert(mexp(15, 536870913, 4294967311) == 4008636174);
    assert(mexp(15, 1073741826, 4294967311) == 1412567318);
    assert(mexp(15, 1073741827, 4294967311) == 4008640526);
    assert(mexp(15, 2147483654, 4294967311) == 286331154);
    assert(mexp(15, 2147483655, 4294967311) == 4294967310);
    lemma_mexp_pow(15, 2147483655, 4294967311);
    assert(mexp(15, 0, 4294967311) == 1);
    assert(mexp(15, 1, 4294967311) == 15);
    assert(mexp(15, 2, 4294967311) == 225);
    assert(mexp(15, 4, 4294967311) == 50625);
    assert(mexp(15, 5, 4294967311) == 759375);
    assert(mexp(15, 10, 4294967311) == 1124770951);
    assert(mexp(15, 20, 4294967311) == 3874400479);
    assert(mexp(15, 21, 4294967311) == 2281432142);
    assert(mexp(15, 42, 4294967311) == 2232451187);
    assert(mexp(15, 84, 4294967311) == 3210408444);
    assert(mexp(15, 85, 4294967311) == 911486239);
    assert(mexp(15, 170, 4294967311) == 190422295);
    assert(mexp(15, 340, 4294967311) == 2362891535);
    assert(mexp(15, 341, 4294967311) == 1083634537);
    assert(mexp(15, 682, 4294967311) == 2987075702);
    assert(mexp(15, 1364, 4294967311) == 1461997453);
    assert(mexp(15, 1365, 4294967311) == 455125240);
    assert(mexp(15, 2730, 4294967311) == 3530021678);
    assert(mexp(15, 5460, 4294967311) == 1890676483);
    assert(mexp(15, 5461, 4294967311) == 2590343379);
    assert(mexp(15, 10922, 4294967311) == 1317765552);
    assert(mexp(15, 21844, 4294967311) == 3981915995);
    assert(mexp(15, 21845, 4294967311) == 3894164882);
    assert(mexp(15, 43690, 4294967311) == 3523145565);
    assert(mexp(15, 87380, 4294967311) == 2658729412);
    assert(mexp(15, 87381, 4294967311) == 1226235381);
    assert(mexp(15, 174762, 4294967311) == 1737109288);
    assert(mexp(15, 349524, 4294967311) == 2611505766);
    assert(mexp(15, 349525, 4294967311) == 517880691);
    assert(mexp(15, 699050, 4294967311) == 3849166578);
    assert(mexp(15, 1398100, 4294967311) == 2760644085);
    assert(mexp(15, 1398101, 4294967311) == 2754955476);
    assert(mexp(15, 2796202, 4294967311) == 2962176496);
    assert(mexp(15, 5592404, 4294967311) == 2762867844);
    assert(mexp(15, 5592405, 4294967311) == 2788311861);
    assert(mexp(15, 11184810, 4294967311) == 3152703993);
    assert(mexp(15, 22369620, 4294967311) == 1054640767);
    assert(mexp(15, 22369621, 4294967311) == 2934709572);
    assert(mexp(15, 44739242, 4294967311) == 1742811943);
    assert(mexp(15, 89478484, 4294967311) == 3732781346);
    assert(mexp(15, 89478485, 4294967311) == 157145147);
    assert(mexp(15, 178956970, 4294967311) == 4066221971);
    assert(mexp(15, 178956971, 4294967311) == 863787211);
    assert(mexp(15, 357913942, 4294967311) == 1780644959);
    assert(mexp(15, 715827884, 4294967311) == 1570735314);
    assert(mexp(15, 715827885, 4294967311) == 2086193155);
    assert(mexp(15, 1431655770, 4294967311) == 2086193154);
    lemma_mexp_pow(15, 1431655770, 4294967311);
    assert(mexp(15, 0, 4294967311) == 1);
    assert(mexp(15, 1, 4294967311) == 15);
    assert(mexp(15, 2, 4294967311) == 225);
    assert(mexp(15, 3, 4294967311) == 3375);
    assert(mexp(15, 6, 4294967311) == 11390625);
    assert(mexp(15, 12, 4294967311) == 3965359937);
    assert(mexp(15, 24, 4294967311) == 3252057938);
    assert(mexp(15, 25, 4294967311) == 1536228649);
    assert(mexp(15, 50, 4294967311) == 53744952);
    assert(mexp(15, 51, 4294967311) == 806174280);
    assert(mexp(15, 102, 4294967311) == 3677121465);
    assert(mexp(15, 204, 4294967311) == 3158357033);
    assert(mexp(15, 408, 4294967311) == 2932291743);
    assert(mexp(15, 409, 4294967311) == 1034703035);
    assert(mexp(15, 818, 4294967311) == 3554661325);
    assert(mexp(15, 819, 4294967311) == 1780312143);
    assert(mexp(15, 1638, 4294967311) == 2761738800);
    assert(mexp(15, 3276, 4294967311) == 1450498862);
    assert(mexp(15, 6552, 4294967311) == 2405362524);
    assert(mexp(15, 6553, 4294967311) == 1720699372);
    assert(mexp(15, 13106, 4294967311) == 3700751544);
    assert(mexp(15, 13107, 4294967311) == 3971665428);
    assert(mexp(15, 26214, 4294967311) == 659415624);
    assert(mexp(15, 52428, 4294967311) == 2093931699);
    assert(mexp(15, 104856, 4294967311) == 3315622666);
    assert(mexp(15, 104857, 4294967311) == 2489699569);
    assert(mexp(15, 209714, 4294967311) == 4158849421);
    assert(mexp(15, 209715, 4294967311) == 2253198961);
    assert(mexp(15, 419430, 4294967311) == 2904145297);
    assert(mexp(15, 838860, 4294967311) == 2969595030);
    assert(mexp(15, 1677720, 4294967311) == 1851202564);
    assert(mexp(15, 1677721, 4294967311) == 1998234594);
    assert(mexp(15, 3355442, 4294967311) == 2409556162);
    assert(mexp(15, 3355443, 4294967311) == 1783603942);
    assert(mexp(15, 6710886, 4294967311) == 3546363837);
    assert(mexp(15, 13421772, 4294967311) == 2639248427);
    assert(mexp(15, 26843544, 4294967311) == 3235232533);
    assert(mexp(15, 26843545, 4294967311) == 1283847574);
    assert(mexp(15, 53687090, 4294967311) == 3528934732);
    assert(mexp(15, 53687091, 4294967311) == 1394413248);
    assert(mexp(15, 107374182, 4294967311) == 1134017835);
    assert(mexp(15, 214748364, 4294967311) == 718200045);
    assert(mexp(15, 214748365, 4294967311) == 2183066053);
    assert(mexp(15, 429496730, 4294967311) == 3261914766);
    assert(mexp(15, 429496731, 4294967311) == 1684081069);
    assert(mexp(15, 858993462, 4294967311) == 789859822);
    lemma_mexp_pow(15, 858993462, 4294967311);
    assert(mexp(15, 0, 4294967311) == 1);
    assert(mexp(15, 1, 4294967311) == 15);
    assert(mexp(15, 2, 4294967311) == 225);
    assert(mexp(15, 3, 4294967311) == 3375);
    assert(mexp(15, 6, 4294967311) == 11390625);
    assert(mexp(15, 7, 4294967311) == 170859375);
    assert(mexp(15, 14, 4294967311) == 3147752448);
    assert(mexp(15, 15, 4294967311) == 4266613610);
    assert(mexp(15, 30, 4294967311) == 379124421);
    assert(mexp(15, 31, 4294967311) == 1391899004);
    assert(mexp(15, 62, 4294967311) == 1913664715);
    assert(mexp(15, 124, 4294967311) == 1978566785);
    assert(mexp(15, 125, 4294967311) == 3908697909);
    assert(mexp(15, 250, 4294967311) == 388598079);
    assert(mexp(15, 500, 4294967311) == 1918051463);
    assert(mexp(15, 1000, 4294967311) == 4075548262);
    assert(mexp(15, 2000, 4294967311) == 3818534686);
    assert(mexp(15, 2001, 4294967311) == 1443445247);
    assert(mexp(15, 4002, 4294967311) == 3277359787);
    assert(mexp(15, 8004, 4294967311) == 1723642528);
    assert(mexp(15, 16008, 4294967311) == 3979294395);
    assert(mexp(15, 32016, 4294967311) == 2182521015);
    assert(mexp(15, 32017, 4294967311) == 2673044048);
    assert(mexp(15, 64034, 4294967311) == 2896395975);
    assert(mexp(15, 64035, 4294967311) == 496266515);
    assert(mexp(15, 128070, 4294967311) == 1730984429);
    assert(mexp(15, 256140, 4294967311) == 3066369075);
    assert(mexp(15, 512280, 4294967311) == 4140157969);
    assert(mexp(15, 512281, 4294967311) == 1972827181);
    assert(mexp(15, 1024562, 4294967311) == 91218186);
    assert(mexp(15, 2049124, 4294967311) == 1321412899);
    assert(mexp(15, 2049125, 4294967311) == 2641324241);
    assert(mexp(15, 4098250, 4294967311) == 3185369415);
    assert(mexp(15, 4098251, 4294967311) == 535900804);
    assert(mexp(15, 8196502, 4294967311) == 3803662811);
    assert(mexp(15, 16393004, 4294967311) == 2494474654);
    assert(mexp(15, 16393005, 4294967311) == 3057381322);
    assert(mexp(15, 32786010, 4294967311) == 98280216);
    lemma_mexp_pow(15, 32786010, 4294967311);
    assert(mexp(15, 0, 4294967311) == 1);
    assert(mexp(15, 1, 4294967311) == 15);
    assert(mexp(15, 2, 4294967311) == 225);
    assert(mexp(15, 4, 4294967311) == 50625);
    assert(mexp(15, 5, 4294967311) == 759375);
    assert(mexp(15, 10, 4294967311) == 1124770951);
    assert(mexp(15, 11, 4294967311) == 3986662332);
    assert(mexp(15, 22, 4294967311) == 4156710953);
    assert(mexp(15, 23, 4294967311) == 2221121941);
    assert(mexp(15, 46, 4294967311) == 71520221);
    assert(mexp(15, 92, 4294967311) == 3448212970);
    assert(mexp(15, 184, 4294967311) == 341043850);
    assert(mexp(15, 368, 4294967311) == 1680230427);
    assert(mexp(15, 736, 4294967311) == 1218592805);
    assert(mexp(15, 1472, 4294967311) == 3653730753);
    assert(mexp(15, 1473, 4294967311) == 3266353563);
    assert(mexp(15, 2946, 4294967311) == 3495468258);
    assert(mexp(15, 2947, 4294967311) == 892416138);
    assert(mexp(15, 5894, 4294967311) == 473889072);
    assert(mexp(15, 5895, 4294967311) == 2813368769);
    assert(mexp(15, 11790, 4294967311) == 605159288);
    lemma_mexp_pow(15, 11790, 4294967311);
}

/// The powers of 21 that decide its order, each computed by repeated
/// squaring.
#[verifier::spinoff_prover]
proof fn lemma_order_witness_21()
    ensures
        order_witness(21),
{
    assert(mexp(21, 0, 4294967311) == 1);
    assert(mexp(21, 1, 4294967311) == 21);
    assert(mexp(21, 2, 4294967311) == 441);
    assert(mexp(21, 4, 4294967311) == 194481);
    assert(mexp(21, 8, 4294967311) == 3463120873);
    assert(mexp(21, 16, 4294967311) == 3631097985);
    assert(mexp(21, 32, 4294967311) == 3432868198);
    assert(mexp(21, 64, 4294967311) == 1834486191);
    assert(mexp(21, 128, 4294967311) == 4062213123);
    assert(mexp(21, 256, 4294967311) == 1983783198);
    assert(mexp(21, 512, 4294967311) == 2207824796);
    assert(mexp(21, 1024, 4294967311) == 67649629);
    assert(mexp(21, 2048, 4294967311) == 4245340079);
    assert(mexp(21, 4096, 4294967311) == 3345802405);
    assert(mexp(21, 8192, 4294967311) == 589377546);
    assert(mexp(21, 16384, 4294967311) == 3746062563);
    assert(mexp(21, 32768, 4294967311) == 3039257375);
    assert(mexp(21, 65536, 4294967311) == 2901947106);
    assert(mexp(21, 131072, 4294967311) == 1995715791);
    assert(mexp(21, 262144, 4294967311) == 1281502977);
    assert(mexp(21, 524288, 4294967311) == 1200141984);
    assert(mexp(21, 1048576, 4294967311) == 544415086);
    assert(mexp(21, 2097152, 4294967311) == 3062064258);
    assert(mexp(21, 4194304, 4294967311) == 1018135365);
    assert(mexp(21, 8388608, 4294967311) == 1004310709);
    assert(mexp(21, 16777216, 4294967311) == 2766994692);
    assert(mexp(21, 33554432, 4294967311) == 1604939514);
    assert(mexp(21, 67108864, 4294967311) == 704378035);
    assert(mexp(21, 134217728, 4294967311) == 2946472931);
    assert(mexp(21, 268435456, 4294967311) == 1302895653);
    assert(mexp(21, 536870912, 4294967311) == 812526259);
    assert(mexp(21, 536870913, 4294967311) == 4178149506);
    assert(mexp(21, 1073741826, 4294967311) == 4222745036);
    assert(mexp(21, 1073741827, 4294967311) == 2778299536);
    assert(mexp(21, 2147483654, 4294967311) == 2045222529);
    assert(mexp(21, 2147483655, 4294967311) == 4294967310);
    assert(mexp(21, 4294967310, 4294967311) == 1);
    lemma_mexp_pow(21, 4294967310, 4294967311);
    assert(mexp(21, 0, 4294967311) == 1);
    assert(mexp(21, 1, 4294967311) == 21);
    assert(mexp(21, 2, 4294967311) == 441);
    assert(mexp(21, 4, 4294967311) == 194481);
    assert(mexp(21, 8, 4294967311) == 3463120873);
    assert(mexp(21, 16, 4294967311) == 3631097985);
    assert(mexp(21, 32, 4294967311) == 3432868198);
    assert(mexp(21, 64, 4294967311) == 1834486191);
    assert(mexp(21, 128, 4294967311) == 4062213123);
    assert(mexp(21, 256, 4294967311) == 1983783198);
    assert(mexp(21, 512, 4294967311) == 2207824796);
    assert(mexp(21, 1024, 4294967311) == 67649629);
    assert(mexp(21, 2048, 4294967311) == 4245340079);
    assert(mexp(21, 4096, 4294967311) == 3345802405);
    assert(mexp(21, 8192, 4294967311) == 589377546);
    assert(mexp(21, 16384, 4294967311) == 3746062563);
    assert(mexp(21, 32768, 4294967311) == 3039257375);
    assert(mexp(21, 65536, 4294967311) == 2901947106);
    assert(mexp(21, 131072, 4294967311) == 1995715791);
    assert(mexp(21, 262144, 4294967311) == 1281502977);
    assert(mexp(21, 524288, 4294967311) == 1200141984);
    assert(mexp(21, 1048576, 4294967311) == 544415086);
    assert(mexp(21, 2097152, 4294967311) == 3062064258);
    assert(mexp(21, 4194304, 4294967311) == 1018135365);
    assert(mexp(21, 8388608, 4294967311) == 1004310709);
    assert(mexp(21, 16777216, 4294967311) == 2766994692);
    assert(mexp(21, 33554432, 4294967311) == 1604939514);
    assert(mexp(21, 67108864, 4294967311) == 704378035);
    assert(mexp(21, 134217728, 4294967311) == 2946472931);
    assert(mexp(21, 268435456, 4294967311) == 1302895653);
    assert(mexp(21, 536870912, 4294967311) == 812526259);
    assert(mexp(21, 536870913, 4294967311) == 4178149506);
    assert(mexp(21, 1073741826, 4294967311) == 4222745036);
    assert(mexp(21, 1073741827, 4294967311) == 2778299536);
    assert(mexp(21, 2147483654, 4294967311) == 2045222529);
    assert(mexp(21, 2147483655, 4294967311) == 4294967310);
    lemma_mexp_pow(21, 2147483655, 4294967311);
    assert(mexp(21, 0, 4294967311) == 1);
    assert(mexp(21, 1, 4294967311) == 21);
    assert(mexp(21, 2, 4294967311) == 441);
    assert(mexp(21, 4, 4294967311) == 194481);
    assert(mexp(21, 5, 4294967311) == 4084101);
    assert(mexp(21, 10, 4294967311) == 2522909588);
    assert(mexp(21, 20, 4294967311) == 1041946165);
    assert(mexp(21, 21, 4294967311) == 406032910);
    assert(mexp(21, 42, 4294967311) == 43405866);
    assert(mexp(21, 84, 4294967311) == 187860897);
    assert(mexp(21, 85, 4294967311) == 3945078837);
    assert(mexp(21, 170, 4294967311) == 4186542607);
    assert(mexp(21, 340, 4294967311) == 2496759009);
    assert(mexp(21, 341, 4294967311) == 892331457);
    assert(mexp(21, 682, 4294967311) == 1867503656);
    assert(mexp(21, 1364, 4294967311) == 4180965174);
    assert(mexp(21, 1365, 4294967311) == 1900922434);
    assert(mexp(21, 2730, 4294967311) == 822599528);
    assert(mexp(21, 5460, 4294967311) == 1036657107);
    assert(mexp(21, 5461, 4294967311) == 294962692);
    assert(mexp(21, 10922, 4294967311) == 61717682);
    assert(mexp(21, 21844, 4294967311) == 3202281176);
    assert(mexp(21, 21845, 4294967311) == 2823395031);
    assert(mexp(21, 43690, 4294967311) == 336896508);
    assert(mexp(21, 87380, 4294967311) == 4265507720);
    assert(mexp(21, 87381, 4294967311) == 3676315900);
    assert(mexp(21, 174762, 4294967311) == 1842359740);
    assert(mexp(21, 349524, 4294967311) == 2937556665);
    assert(mexp(21, 349525, 4294967311) == 1559147611);
    assert(mexp(21, 699050, 4294967311) == 1178174812);
    assert(mexp(21, 1398100, 4294967311) == 3615235417);
    assert(mexp(21, 1398101, 4294967311) == 2905499470);
    assert(mexp(21, 2796202, 4294967311) == 3630406581);
    assert(mexp(21, 5592404, 4294967311) == 2232882161);
    assert(mexp(21, 5592405, 4294967311) == 3940852271);
    assert(mexp(21, 11184810, 4294967311) == 2509373219);
    assert(mexp(21, 22369620, 4294967311) == 2736496965);
    assert(mexp(21, 22369621, 4294967311) == 1631861222);
    assert(mexp(21, 44739242, 4294967311) == 4042301424);
    assert(mexp(21, 89478484, 4294967311) == 4235144960);
    assert(mexp(21, 89478485, 4294967311) == 3038697940);
    assert(mexp(21, 178956970, 4294967311) == 216236006);
    assert(mexp(21, 178956971, 4294967311) == 245988815);
    assert(mexp(21, 357913942, 4294967311) == 4035520458);
    assert(mexp(21, 715827884, 4294967311) == 508387037);
    assert(mexp(21, 715827885, 4294967311) == 2086193155);
    assert(mexp(21, 1431655770, 4294967311) == 2086193154);
    lemma_mexp_pow(21, 1431655770, 4294967311);
    assert(mexp(21, 0, 4294967311) == 1);
    assert(mexp(21, 1, 4294967311) == 21);
    assert(mexp(21, 2, 4294967311) == 441);
    assert(mexp(21, 3, 4294967311) == 9261);
    assert(mexp(21, 6, 4294967311) == 85766121);
    assert(mexp(21, 12, 4294967311) == 206594759);
    assert(mexp(21, 24, 4294967311) == 2174382385);
    assert(mexp(21, 25, 4294967311) == 2712356975);
    assert(mexp(21, 50, 4294967311) == 2069055712);
    assert(mexp(21, 51, 4294967311) == 500496842);
    assert(mexp(21, 102, 4294967311) == 975530186);
    assert(mexp(21, 204, 4294967311) == 925772086);
    assert(mexp(21, 408, 4294967311) == 1470190843);
    assert(mexp(21, 409, 4294967311) == 809236526);
    assert(mexp(21, 818, 4294967311) == 226165137);
    assert(mexp(21, 819, 4294967311) == 454500566);
    assert(mexp(21, 1638, 4294967311) == 3819562423);
    assert(mexp(21, 3276, 4294967311) == 3335112056);
    assert(mexp(21, 6552, 4294967311) == 1129504116);
    assert(mexp(21, 6553, 4294967311) == 2244749881);
    assert(mexp(21, 13106, 4294967311) == 1927289983);
    assert(mexp(21, 13107, 4294967311) == 1818383844);
    assert(mexp(21, 26214, 4294967311) == 2400349595);
    assert(mexp(21, 52428, 4294967311) == 324368251);
    assert(mexp(21, 104856, 4294967311) == 3146423581);
    assert(mexp(21, 104857, 4294967311) == 1650385536);
    assert(mexp(21, 209714, 4294967311) == 3882254194);
    assert(mexp(21, 209715, 4294967311) == 4217926476);
    assert(mexp(21, 419430, 4294967311) == 1915982038);
    assert(mexp(21, 838860, 4294967311) == 2735207522);
    assert(mexp(21, 1677720, 4294967311) == 4249354273);
    assert(mexp(21, 1677721, 4294967311) == 3337093513);
    assert(mexp(21, 3355442, 4294967311) == 2787296858);
    assert(mexp(21, 3355443, 4294967311) == 2698658975);
    assert(mexp(21, 6710886, 4294967311) == 3307826442);
    assert(mexp(21, 13421772, 4294967311) == 2582758688);
    assert(mexp(21, 26843544, 4294967311) == 2439972607);
    assert(mexp(21, 26843545, 4294967311) == 3994784326);
    assert(mexp(21, 53687090, 4294967311) == 1549452217);
    assert(mexp(21, 53687091, 4294967311) == 2473725380);
    assert(mexp(21, 107374182, 4294967311) == 1635173130);
    assert(mexp(21, 214748364, 4294967311) == 3375891735);
    assert(mexp(21, 214748365, 4294967311) == 2174249459);
    assert(mexp(21, 429496730, 4294967311) == 173333018);
    assert(mexp(21, 429496731, 4294967311) == 3639993378);
    assert(mexp(21, 858993462, 4294967311) == 239247313);
    lemma_mexp_pow(21, 858993462, 4294967311);
    assert(mexp(21, 0, 4294967311) == 1);
    assert(mexp(21, 1, 4294967311) == 21);
    assert(mexp(21, 2, 4294967311) == 441);
    assert(mexp(21, 3, 4294967311) == 9261);
    assert(mexp(21, 6, 4294967311) == 85766121);
    assert(mexp(21, 7, 4294967311) == 1801088541);
    assert(mexp(21, 14, 4294967311) == 913975188);
    assert(mexp(21, 15, 4294967311) == 2013609704);
    assert(mexp(21, 30, 4294967311) == 3095096385);
    assert(mexp(21, 31, 4294967311) == 572514420);
    assert(mexp(21, 62, 4294967311) == 2896688838);
    assert(mexp(21, 124, 4294967311) == 562374267);
    assert(mexp(21, 125, 4294967311) == 3219924985);
    assert(mexp(21, 250, 4294967311) == 3641980487);
    assert(mexp(21, 500, 4294967311) == 460911651);
    assert(mexp(21, 1000, 4294967311) == 4285116205);
    assert(mexp(21, 2000, 4294967311) == 3797998502);
    assert(mexp(21, 2001, 4294967311) == 2448556944);
    assert(mexp(21, 4002, 4294967311) == 4232048878);
    assert(mexp(21, 8004, 4294967311) == 2006051746);
    assert(mexp(21, 16008, 4294967311) == 481299230);
    assert(mexp(21, 32016, 4294967311) == 2843925297);
    assert(mexp(21, 32017, 4294967311) == 3887856194);
    assert(mexp(21, 64034, 4294967311) == 1653163714);
    assert(mexp(21, 64035, 4294967311) == 356699506);
    assert(mexp(21, 128070, 4294967311) == 757816247);
    assert(mexp(21, 256140, 4294967311) == 3469314326);
    assert(mexp(21, 512280, 4294967311) == 745410882);
    assert(mexp(21, 512281, 4294967311) == 2768726589);
    assert(mexp(21, 1024562, 4294967311) == 1638281084);
    assert(mexp(21, 2049124, 4294967311) == 1726505531);
    assert(mexp(21, 2049125, 4294967311) == 1896877663);
    assert(mexp(21, 4098250, 4294967311) == 3182090767);
    assert(mexp(21, 4098251, 4294967311) == 2399396442);
    assert(mexp(21, 8196502, 4294967311) == 4090425326);
    assert(mexp(21, 16393004, 4294967311) == 1022400651);
    assert(mexp(21, 16393005, 4294967311) == 4290544427);
    assert(mexp(21, 32786010, 4294967311) == 2621743162);
    lemma_mexp_pow(21, 32786010, 4294967311);
    assert(mexp(21, 0, 4294967311) == 1);
    assert(mexp(21, 1, 4294967311) == 21);
    assert(mexp(21, 2, 4294967311) == 441);
    assert(mexp(21, 4, 4294967311) == 194481);
    assert(mexp(21, 5, 4294967311) == 4084101);
    assert(mexp(21, 10, 4294967311) == 2522909588);
    assert(mexp(21, 11, 4294967311) == 1441493616);
    assert(mexp(21, 22, 4294967311) == 4231723799);
    assert(mexp(21, 23, 4294967311) == 2966853559);
    assert(mexp(21, 46, 4294967311) == 2005459431);
    assert(mexp(21, 92, 4294967311) == 1234155139);
    assert(mexp(21, 184, 4294967311) == 3781648811);
    assert(mexp(21, 368, 4294967311) == 2984621435);
    assert(mexp(21, 736, 4294967311) == 106785652);
    assert(mexp(21, 1472, 4294967311) == 2902621616);
    assert(mexp(21, 1473, 4294967311) == 825511582);
    assert(mexp(21, 2946, 4294967311) == 4135103963);
    assert(mexp(21, 2947, 4294967311) == 937837003);
    assert(mexp(21, 5894, 4294967311) == 3432349815);
    assert(mexp(21, 5895, 4294967311) == 3359869139);
    assert(mexp(21, 11790, 4294967311) == 1772289130);
    lemma_mexp_pow(21, 11790, 4294967311);
}

/// The powers of 24 that decide its order, each computed by repeated
/// squaring.
#[verifier::spinoff_prover]
proof fn lemma_order_witness_24()
    ensures
        order_witness(24),
{
    assert(mexp(24, 0, 4294967311) == 1);
    assert(mexp(24, 1, 4294967311) == 24);
    assert(mexp(24, 2, 4294967311) == 576);
    assert(mexp(24, 4, 4294967311) == 331776);
    assert(mexp(24, 8, 4294967311) == 2701131401);
    assert(mexp(24, 16, 4294967311) == 1664303443);
    assert(mexp(24, 32, 4294967311) == 153289536);
    assert(mexp(24, 64, 4294967311) == 1587960516);
    assert(mexp(24, 128, 4294967311) == 3111358687);
    assert(mexp(24, 256, 4294967311) == 3911853430);
    assert(mexp(24, 512, 4294967311) == 2863996984);
    assert(mexp(24, 1024, 4294967311) == 1203907722);
    assert(mexp(24, 2048, 4294967311) == 3878716094);
    assert(mexp(24, 4096, 4294967311) == 4064594091);
    assert(mexp(24, 8192, 4294967311) == 352838394);
    assert(mexp(24, 16384, 4294967311) == 486535151);
    assert(mexp(24, 32768, 4294967311) == 4122695628);
    assert(mexp(24, 65536, 4294967311) == 134379560);
    assert(mexp(24, 131072, 4294967311) == 2504209736);
    assert(mexp(24, 262144, 4294967311) == 2774095765);
    assert(mexp(24, 524288, 4294967311) == 3549971958);
    assert(mexp(24, 1048576, 4294967311) == 1809647744);
    assert(mexp(24, 2097152, 4294967311) == 59933936);
    assert(mexp(24, 4194304, 4294967311) == 2248733801);
    assert(mexp(24, 8388608, 4294967311) == 4282364074);
    assert(mexp(24, 16777216, 4294967311) == 806815456);
    assert(mexp(24, 33554432, 4294967311) == 3035471445);
    assert(mexp(24, 67108864, 4294967311) == 2503858311);
    assert(mexp(24, 134217728, 4294967311) == 4100609193);
    assert(mexp(24, 268435456, 4294967311) == 3013631279);
    assert(mexp(24, 536870912, 4294967311) == 4095371677);
    assert(mexp(24, 536870913, 4294967311) == 3799639406);
    assert(mexp(24, 1073741826, 4294967311) == 708721929);
    assert(mexp(24, 1073741827, 4294967311) == 4124424363);
    assert(mexp(24, 2147483654, 4294967311) == 1252698799);
    assert(mexp(24, 2147483655, 4294967311) == 4294967310);
    assert(mexp(24, 4294967310, 4294967311) == 1);
    lemma_mexp_pow(24, 4294967310, 4294967311);
    assert(mexp(24, 0, 4294967311) == 1);
    assert(mexp(24, 1, 4294967311) == 24);
    assert(mexp(24, 2, 4294967311) == 576);
    assert(mexp(24, 4, 4294967311) == 331776);
    assert(mexp(24, 8, 4294967311) == 2701131401);
    assert(mexp(24, 16, 4294967311) == 1664303443);
    assert(mexp(24, 32, 4294967311) == 153289536);
    assert(mexp(24, 64, 4294967311) == 1587960516);
    assert(mexp(24, 128, 4294967311) == 3111358687);
    assert(mexp(24, 256, 4294967311) == 3911853430);
    assert(mexp(24, 512, 4294967311) == 2863996984);
    assert(mexp(24, 1024, 4294967311) == 1203907722);
    assert(mexp(24, 2048, 4294967311) == 3878716094);
    assert(mexp(24, 4096, 4294967311) == 4064594091);
    assert(mexp(24, 8192, 4294967311) == 352838394);
    assert(mexp(24, 16384, 4294967311) == 486535151);
    assert(mexp(24, 32768, 4294967311) == 4122695628);
    assert(mexp(24, 65536, 4294967311) == 134379560);
    assert(mexp(24, 131072, 4294967311) == 2504209736);
    assert(mexp(24, 262144, 4294967311) == 2774095765);
    assert(mexp(24, 524288, 4294967311) == 3549971958);
    assert(mexp(24, 1048576, 4294967311) == 1809647744);
    assert(mexp(24, 2097152, 4294967311) == 59933936);
    assert(mexp(24, 4194304, 4294967311) == 2248733801);
    assert(mexp(24, 8388608, 4294967311) == 4282364074);
    assert(mexp(24, 16777216, 4294967311) == 806815456);
    assert(mexp(24, 33554432, 4294967311) == 3035471445);
    assert(mexp(24, 67108864, 4294967311) == 2503858311);
    assert(mexp(24, 134217728, 4294967311) == 4100609193);
    assert(mexp(24, 268435456, 4294967311) == 3013631279);
    assert(mexp(24, 536870912, 4294967311) == 4095371677);
    assert(mexp(24, 536870913, 4294967311) == 3799639406);
    assert(mexp(24, 1073741826, 4294967311) == 708721929);
    assert(mexp(24, 1073741827, 4294967311) == 4124424363);
    assert(mexp(24, 2147483654, 4294967311) == 1252698799);
    assert(mexp(24, 2147483655, 4294967311) == 4294967310);
    lemma_mexp_pow(24, 2147483655, 4294967311);
    assert(mexp(24, 0, 4294967311) == 1);
    assert(mexp(24, 1, 4294967311) == 24);
    assert(mexp(24, 2, 4294967311) == 576);
    assert(mexp(24, 4, 4294967311) == 331776);
    assert(mexp(24, 5, 4294967311) == 7962624);
    assert(mexp(24, 10, 4294967311) == 1073520394);
    assert(mexp(24, 20, 4294967311) == 2056700675);
    assert(mexp(24, 21, 4294967311) == 2116175779);
    assert(mexp(24, 42, 4294967311) == 3944833904);
    assert(mexp(24, 84, 4294967311) == 3255899149);
    assert(mexp(24, 85, 4294967311) == 832167978);
    assert(mexp(24, 170, 4294967311) == 978683489);
    assert(mexp(24, 340, 4294967311) == 2945496806);
    assert(mexp(24, 341, 4294967311) == 1972446368);
    assert(mexp(24, 682, 4294967311) == 2560329137);
    assert(mexp(24, 1364, 4294967311) == 93298201);
    assert(mexp(24, 1365, 4294967311) == 2239156824);
    assert(mexp(24, 2730, 4294967311) == 4064170209);
    assert(mexp(24, 5460, 4294967311) == 1009075544);
    assert(mexp(24, 5461, 4294967311) == 2742976501);
    assert(mexp(24, 10922, 4294967311) == 350617351);
    assert(mexp(24, 21844, 4294967311) == 1056819452);
    assert(mexp(24, 21845, 4294967311) == 3888830293);
    assert(mexp(24, 43690, 4294967311) == 2703785744);
    assert(mexp(24, 87380, 4294967311) == 574977012);
    assert(mexp(24, 87381, 4294967311) == 914546355);
    assert(mexp(24, 174762, 4294967311) == 3312114802);
    assert(mexp(24, 349524, 4294967311) == 3567225101);
    assert(mexp(24, 349525, 4294967311) == 4009023515);
    assert(mexp(24, 699050, 4294967311) == 3425632186);
    assert(mexp(24, 1398100, 4294967311) == 3413639387);
    assert(mexp(24, 1398101, 4294967311) == 322966379);
    assert(mexp(24, 2796202, 4294967311) == 2202170100);
    assert(mexp(24, 5592404, 4294967311) == 1072307553);
    assert(mexp(24, 5592405, 4294967311) == 4260544717);
    assert(mexp(24, 11184810, 4294967311) == 2216060912);
    assert(mexp(24, 22369620, 4294967311) == 2301119505);
    assert(mexp(24, 22369621, 4294967311) == 3687260388);
    assert(mexp(24, 44739242, 4294967311) == 813385279);
    assert(mexp(24, 89478484, 4294967311) == 2853674500);
    assert(mexp(24, 89478485, 4294967311) == 4063678335);
    assert(mexp(24, 178956970, 4294967311) == 3761474907);
    assert(mexp(24, 178956971, 4294967311) == 81084237);
    assert(mexp(24, 357913942, 4294967311) == 3429539589);
    assert(mexp(24, 715827884, 4294967311) == 2055451399);
    assert(mexp(24, 715827885, 4294967311) == 2086193155);
    assert(mexp(24, 1431655770, 4294967311) == 2086193154);
    lemma_mexp_pow(24, 1431655770, 4294967311);
    assert(mexp(24, 0, 4294967311) == 1);
    assert(mexp(24, 1, 4294967311) == 24);
    assert(mexp(24, 2, 4294967311) == 576);
    assert(mexp(24, 3, 4294967311) == 13824);
    assert(mexp(24, 6, 4294967311) == 191102976);
    assert(mexp(24, 12, 4294967311) == 4167421471);
    assert(mexp(24, 24, 4294967311) == 991613675);
    assert(mexp(24, 25, 4294967311) == 2323891645);
    assert(mexp(24, 50, 4294967311) == 1475834520);
    assert(mexp(24, 51, 4294967311) == 1060289992);
    assert(mexp(24, 102, 4294967311) == 885700694);
    assert(mexp(24, 204, 4294967311) == 3106341309);
    assert(mexp(24, 408, 4294967311) == 3639346485);
    assert(mexp(24, 409, 4294967311) == 1444969420);
    assert(mexp(24, 818, 4294967311) == 2352614714);
    assert(mexp(24, 819, 4294967311) == 628178093);
    assert(mexp(24, 1638, 4294967311) == 1324785801);
    assert(mexp(24, 3276, 4294967311) == 4204743195);
    assert(mexp(24, 6552, 4294967311) == 2124489204);
    assert(mexp(24, 6553, 4294967311) == 3743100475);
    assert(mexp(24, 13106, 4294967311) == 775276763);
    assert(mexp(24, 13107, 4294967311) == 1426773068);
    assert(mexp(24, 26214, 4294967311) == 372969758);
    assert(mexp(24, 52428, 4294967311) == 4026788613);
    assert(mexp(24, 104856, 4294967311) == 2322725908);
    assert(mexp(24, 104857, 4294967311) == 4205814060);
    assert(mexp(24, 209714, 4294967311) == 1298393913);
    assert(mexp(24, 209715, 4294967311) == 1096682735);
    assert(mexp(24, 419430, 4294967311) == 3821918830);
    assert(mexp(24, 838860, 4294967311) == 3252080766);
    assert(mexp(24, 1677720, 4294967311) == 2665541434);
    assert(mexp(24, 1677721, 4294967311) == 3843452062);
    assert(mexp(24, 3355442, 4294967311) == 2183974385);
    assert(mexp(24, 3355443, 4294967311) == 875777508);
    assert(mexp(24, 6710886, 4294967311) == 551663164);
    assert(mexp(24, 13421772, 4294967311) == 2547468704);
    assert(mexp(24, 26843544, 4294967311) == 956396482);
    assert(mexp(24, 26843545, 4294967311) == 1478679013);
    assert(mexp(24, 53687090, 4294967311) == 1126324419);
    assert(mexp(24, 53687091, 4294967311) == 1261982190);
    assert(mexp(24, 107374182, 4294967311) == 449953640);
    assert(mexp(24, 214748364, 4294967311) == 214381899);
    assert(mexp(24, 214748365, 4294967311) == 850198265);
    assert(mexp(24, 429496730, 4294967311) == 1242730161);
    assert(mexp(24, 429496731, 4294967311) == 4055719998);
    assert(mexp(24, 858993462, 4294967311) == 2610886242);
    lemma_mexp_pow(24, 858993462, 4294967311);
    assert(mexp(24, 0, 4294967311) == 1);
    assert(mexp(24, 1, 4294967311) == 24);
    assert(mexp(24, 2, 4294967311) == 576);
    assert(mexp(24, 3, 4294967311) == 13824);
    assert(mexp(24, 6, 4294967311) == 191102976);
    assert(mexp(24, 7, 4294967311) == 291504113);
    assert(mexp(24, 14, 4294967311) == 3843007758);
    assert(mexp(24, 15, 4294967311) == 2037872661);
    assert(mexp(24, 30, 4294967311) == 1431921898);
    assert(mexp(24, 31, 4294967311) == 6387064);
    assert(mexp(24, 62, 4294967311) == 987020218);
    assert(mexp(24, 124, 4294967311) == 4075617178);
    assert(mexp(24, 125, 4294967311) == 3325531430);
    assert(mexp(24, 250, 4294967311) == 923982963);
    assert(mexp(24, 500, 4294967311) == 1984509445);
    assert(mexp(24, 1000, 4294967311) == 1114538818);
    assert(mexp(24, 2000, 4294967311) == 359600710);
    assert(mexp(24, 2001, 4294967311) == 40482418);
    assert(mexp(24, 4002, 4294967311) == 4080203076);
    assert(mexp(24, 8004, 4294967311) == 1207469670);
    assert(mexp(24, 16008, 4294967311) == 279838580);
    assert(mexp(24, 32016, 4294967311) == 2976063409);
    assert(mexp(24, 32017, 4294967311) == 2706044840);
    assert(mexp(24, 64034, 4294967311) == 2019485887);
    assert(mexp(24, 64035, 4294967311) == 1223020867);
    assert(mexp(24, 128070, 4294967311) == 2240629581);
    assert(mexp(24, 256140, 4294967311) == 4125257742);
    assert(mexp(24, 512280, 4294967311) == 4282140698);
    assert(mexp(24, 512281, 4294967311) == 3987128599);
    assert(mexp(24, 1024562, 4294967311) == 2754804935);
    assert(mexp(24, 2049124, 4294967311) == 2207244465);
    assert(mexp(24, 2049125, 4294967311) == 1434259428);
    assert(mexp(24, 4098250, 4294967311) == 1097609844);
    assert(mexp(24, 4098251, 4294967311) == 572832390);
    assert(mexp(24, 8196502, 4294967311) == 1363695604);
    assert(mexp(24, 16393004, 4294967311) == 2086198056);
    assert(mexp(24, 16393005, 4294967311) == 2824112923);
    assert(mexp(24, 32786010, 4294967311) == 2299281361);
    lemma_mexp_pow(24, 32786010, 4294967311);
    assert(mexp(24, 0, 4294967311) == 1);
    assert(mexp(24, 1, 4294967311) == 24);
    assert(mexp(24, 2, 4294967311) == 576);
    assert(mexp(24, 4, 4294967311) == 331776);
    assert(mexp(24, 5, 4294967311) == 7962624);
    assert(mexp(24, 10, 4294967311) == 1073520394);
    assert(mexp(24, 11, 4294967311) == 4289652901);
    assert(mexp(24, 22, 4294967311) == 3543578275);
    assert(mexp(24, 23, 4294967311) == 3441499691);
    assert(mexp(24, 46, 4294967311) == 119619785);
    assert(mexp(24, 92, 4294967311) == 3208418797);
    assert(mexp(24, 184, 4294967311) == 3859403550);
    assert(mexp(24, 368, 4294967311) == 1368499282);
    assert(mexp(24, 736, 4294967311) == 3967998409);
    assert(mexp(24, 1472, 4294967311) == 3016990272);
    assert(mexp(24, 1473, 4294967311) == 3688289552);
    assert(mexp(24, 2946, 4294967311) == 944281943);
    assert(mexp(24, 2947, 4294967311) == 1187930077);
    assert(mexp(24, 5894, 4294967311) == 567220979);
    assert(mexp(24, 5895, 4294967311) == 728401563);
    assert(mexp(24, 11790, 4294967311) == 1655717556);
    lemma_mexp_pow(24, 11790, 4294967311);
}

/// The powers of 29 that decide its order, each computed by repeated
/// squaring.
#[verifier::spinoff_prover]
proof fn lemma_order_witness_29()
    ensures
        order_witness(29),
{
    assert(mexp(29, 0, 4294967311) == 1);
    assert(mexp(29, 1, 4294967311) == 29);
    assert(mexp(29, 2, 4294967311) == 841);
    assert(mexp(29, 4, 4294967311) == 707281);
    assert(mexp(29, 8, 4294967311) == 2030204885);
    assert(mexp(29, 16, 4294967311) == 392804323);
    assert(mexp(29, 32, 4294967311) == 103666380);
    assert(mexp(29, 64, 4294967311) == 1460576085);
    assert(mexp(29, 128, 4294967311) == 3663892840);
    assert(mexp(29, 256, 4294967311) == 3686967037);
    assert(mexp(29, 512, 4294967311) == 1419630852);
    assert(mexp(29, 1024, 4294967311) == 3814212620);
    assert(mexp(29, 2048, 4294967311) == 1306629792);
    assert(mexp(29, 4096, 4294967311) == 4202277156);
    assert(mexp(29, 8192, 4294967311) == 1203561309);
    assert(mexp(29, 16384, 4294967311) == 586893716);
    assert(mexp(29, 32768, 4294967311) == 1705644164);
    assert(mexp(29, 65536, 4294967311) == 3133556255);
    assert(mexp(29, 131072, 4294967311) == 2602711134);
    assert(mexp(29, 262144, 4294967311) == 1463577187);
    assert(mexp(29, 524288, 4294967311) == 2528532456);
    assert(mexp(29, 1048576, 4294967311) == 3374753071);
    assert(mexp(29, 2097152, 4294967311) == 4290511072);
    assert(mexp(29, 4194304, 4294967311) == 2432146368);
    assert(mexp(29, 8388608, 4294967311) == 467772321);
    assert(mexp(29, 16777216, 4294967311) == 3523990629);
    assert(mexp(29, 33554432, 4294967311) == 2345027936);
    assert(mexp(29, 67108864, 4294967311) == 1556741455);
    assert(mexp(29, 134217728, 4294967311) == 2419602671);
    assert(mexp(29, 268435456, 4294967311) == 1355596048);
    assert(mexp(29, 536870912, 4294967311) == 3297769132);
    assert(mexp(29, 536870913, 4294967311) == 1146023986);
    assert(mexp(29, 1073741826, 4294967311) == 3194966708);
    assert(mexp(29, 1073741827, 4294967311) == 2459721001);
    assert(mexp(29, 2147483654, 4294967311) == 2221534816);
    assert(mexp(29, 2147483655, 4294967311) == 4294967310);
    assert(mexp(29, 4294967310, 4294967311) == 1);
    lemma_mexp_pow(29, 4294967310, 4294967311);
    assert(mexp(29, 0, 4294967311) == 1);
    assert(mexp(29, 1, 4294967311) == 29);
    assert(mexp(29, 2, 4294967311) == 841);
    assert(mexp(29, 4, 4294967311) == 707281);
    assert(mexp(29, 8, 4294967311) == 2030204885);
    assert(mexp(29, 16, 4294967311) == 392804323);
    assert(mexp(29, 32, 4294967311) == 103666380);
    assert(mexp(29, 64, 4294967311) == 1460576085);
    assert(mexp(29, 128, 4294967311) == 3663892840);
    assert(mexp(29, 256, 4294967311) == 3686967037);
    assert(mexp(29, 512, 4294967311) == 1419630852);
    assert(mexp(29, 1024, 4294967311) == 3814212620);
    assert(mexp(29, 2048, 4294967311) == 1306629792);
    assert(mexp(29, 4096, 4294967311) == 4202277156);
    assert(mexp(29, 8192, 4294967311) == 1203561309);
    assert(mexp(29, 16384, 4294967311) == 586893716);
    assert(mexp(29, 32768, 4294967311) == 1705644164);
    assert(mexp(29, 65536, 4294967311) == 3133556255);
    assert(mexp(29, 131072, 4294967311) == 2602711134);
    assert(mexp(29, 262144, 4294967311) == 1463577187);
    assert(mexp(29, 524288, 4294967311) == 2528532456);
    assert(mexp(29, 1048576, 4294967311) == 3374753071);
    assert(mexp(29, 2097152, 4294967311) == 4290511072);
    assert(mexp(29, 4194304, 4294967311) == 2432146368);
    assert(mexp(29, 8388608, 4294967311) == 467772321);
    assert(mexp(29, 16777216, 4294967311) == 3523990629);
    assert(mexp(29, 33554432, 4294967311) == 2345027936);
    assert(mexp(29, 67108864, 4294967311) == 1556741455);
    assert(mexp(29, 134217728, 4294967311) == 2419602671);
    assert(mexp(29, 268435456, 4294967311) == 1355596048);
    assert(mexp(29, 536870912, 4294967311) == 3297769132);
    assert(mexp(29, 536870913, 4294967311) == 1146023986);
    assert(mexp(29, 1073741826, 4294967311) == 3194966708);
    assert(mexp(29, 1073741827, 4294967311) == 2459721001);
    assert(mexp(29, 2147483654, 4294967311) == 2221534816);
    assert(mexp(29, 2147483655, 4294967311) == 4294967310);
    lemma_mexp_pow(29, 2147483655, 4294967311);
    assert(mexp(29, 0, 4294967311) == 1);
    assert(mexp(29, 1, 4294967311) == 29);
    assert(mexp(29, 2, 4294967311) == 841);
    assert(mexp(29, 4, 4294967311) == 707281);
    assert(mexp(29, 5, 4294967311) == 20511149);
    assert(mexp(29, 10, 4294967311) == 2300285818);
    assert(mexp(29, 20, 4294967311) == 3073863728);
    assert(mexp(29, 21, 4294967311) == 3242701892);
    assert(mexp(29, 42, 4294967311) == 2009187899);
    assert(mexp(29, 84, 4294967311) == 270498637);
    assert(mexp(29, 85, 4294967311) == 3549493162);
    assert(mexp(29, 170, 4294967311) == 2351768131);
    assert(mexp(29, 340, 4294967311) == 3637439586);
    assert(mexp(29, 341, 4294967311) == 2406532530);
    assert(mexp(29, 682, 4294967311) == 3134699001);
    assert(mexp(29, 1364, 4294967311) == 1283018);
    assert(mexp(29, 1365, 4294967311) == 37207522);
    assert(mexp(29, 2730, 4294967311) == 2880025854);
    assert(mexp(29, 5460, 4294967311) == 212586489);
    assert(mexp(29, 5461, 4294967311) == 1870040870);
    assert(mexp(29, 10922, 4294967311) == 1662717996);
    assert(mexp(29, 21844, 4294967311) == 852255532);
    assert(mexp(29, 21845, 4294967311) == 3240573873);
    assert(mexp(29, 43690, 4294967311) == 2513591980);
    assert(mexp(29, 87380, 4294967311) == 2314756542);
    assert(mexp(29, 87381, 4294967311) == 2703430053);
    assert(mexp(29, 174762, 4294967311) == 1827694018);
    assert(mexp(29, 349524, 4294967311) == 3973244203);
    assert(mexp(29, 349525, 4294967311) == 3554931801);
    assert(mexp(29, 699050, 4294967311) == 2925026044);
    assert(mexp(29, 1398100, 4294967311) == 1217314774);
    assert(mexp(29, 1398101, 4294967311) == 942389958);
    assert(mexp(29, 2796202, 4294967311) == 770238322);
    assert(mexp(29, 5592404, 4294967311) == 3898560501);
    assert(mexp(29, 5592405, 4294967311) == 1389104443);
    assert(mexp(29, 11184810, 4294967311) == 1359525094);
    assert(mexp(29, 22369620, 4294967311) == 3648165175);
    assert(mexp(29, 22369621, 4294967311) == 2717574611);
    assert(mexp(29, 44739242, 4294967311) == 320079788);
    assert(mexp(29, 89478484, 4294967311) == 2781293316);
    assert(mexp(29, 89478485, 4294967311) == 3348094566);
    assert(mexp(29, 178956970, 4294967311) == 2913616903);
    assert(mexp(29, 178956971, 4294967311) == 2890511278);
    assert(mexp(29, 357913942, 4294967311) == 4229562054);
    assert(mexp(29, 715827884, 4294967311) == 71937695);
    assert(mexp(29, 715827885, 4294967311) == 2086193155);
    assert(mexp(29, 1431655770, 4294967311) == 2086193154);
    lemma_mexp_pow(29, 1431655770, 4294967311);
    assert(mexp(29, 0, 4294967311) == 1);
    assert(mexp(29, 1, 4294967311) == 29);
    assert(mexp(29, 2, 4294967311) == 841);
    assert(mexp(29, 3, 4294967311) == 24389);
    assert(mexp(29, 6, 4294967311) == 594823321);
    assert(mexp(29, 12, 4294967311) == 1805082988);
    assert(mexp(29, 24, 4294967311) == 3023346545);
    assert(mexp(29, 25, 4294967311) == 1777703585);
    assert(mexp(29, 50, 4294967311) == 3585422935);
    assert(mexp(29, 51, 4294967311) == 898049651);
    assert(mexp(29, 102, 4294967311) == 2301477037);
    assert(mexp(29, 204, 4294967311) == 691531563);
    assert(mexp(29, 408, 4294967311) == 106879693);
    assert(mexp(29, 409, 4294967311) == 3099511097);
    assert(mexp(29, 818, 4294967311) == 1860986762);
    assert(mexp(29, 819, 4294967311) == 2429008366);
    assert(mexp(29, 1638, 4294967311) == 2329564845);
    assert(mexp(29, 3276, 4294967311) == 3595228734);
    assert(mexp(29, 6552, 4294967311) == 3027348153);
    assert(mexp(29, 6553, 4294967311) == 1893750217);
    assert(mexp(29, 13106, 4294967311) == 838020420);
    assert(mexp(29, 13107, 4294967311) == 2827755625);
    assert(mexp(29, 26214, 4294967311) == 3328650983);
    assert(mexp(29, 52428, 4294967311) == 402733276);
    assert(mexp(29, 104856, 4294967311) == 2627046682);
    assert(mexp(29, 104857, 4294967311) == 3169909491);
    assert(mexp(29, 209714, 4294967311) == 971317197);
    assert(mexp(29, 209715, 4294967311) == 2398394847);
    assert(mexp(29, 419430, 4294967311) == 1680100965);
    assert(mexp(29, 838860, 4294967311) == 3234852891);
    assert(mexp(29, 1677720, 4294967311) == 713827199);
    assert(mexp(29, 1677721, 4294967311) == 3521119527);
    assert(mexp(29, 3355442, 4294967311) == 2641449433);
    assert(mexp(29, 3355443, 4294967311) == 3587589270);
    assert(mexp(29, 6710886, 4294967311) == 3789697665);
    assert(mexp(29, 13421772, 4294967311) == 1242808345);
    assert(mexp(29, 26843544, 4294967311) == 1179919828);
    assert(mexp(29, 26843545, 4294967311) == 4152903835);
    assert(mexp(29, 53687090, 4294967311) == 1293650131);
    assert(mexp(29, 53687091, 4294967311) == 3156115311);
    assert(mexp(29, 107374182, 4294967311) == 199439510);
    assert(mexp(29, 214748364, 4294967311) == 680105311);
    assert(mexp(29, 214748365, 4294967311) == 2543184775);
    assert(mexp(29, 429496730, 4294967311) == 58071761);
    assert(mexp(29, 429496731, 4294967311) == 1684081069);
    assert(mexp(29, 858993462, 4294967311) == 789859822);
    lemma_mexp_pow(29, 858993462, 4294967311);
    assert(mexp(29, 0, 4294967311) == 1);
    assert(mexp(29, 1, 4294967311) == 29);
    assert(mexp(29, 2, 4294967311) == 841);
    assert(mexp(29, 3, 4294967311) == 24389);
    assert(mexp(29, 6, 4294967311) == 594823321);
    assert(mexp(29, 7, 4294967311) == 70007065);
    assert(mexp(29, 14, 4294967311) == 1951332125);
    assert(mexp(29, 15, 4294967311) == 754056582);
    assert(mexp(29, 30, 4294967311) == 3942709192);
    assert(mexp(29, 31, 4294967311) == 2669416482);
    assert(mexp(29, 62, 4294967311) == 4179243563);
    assert(mexp(29, 124, 4294967311) == 2897561600);
    assert(mexp(29, 125, 4294967311) == 2424907491);
    assert(mexp(29, 250, 4294967311) == 1020227374);
    assert(mexp(29, 500, 4294967311) == 3019935077);
    assert(mexp(29, 1000, 4294967311) == 3952919495);
    assert(mexp(29, 2000, 4294967311) == 3582393858);
    assert(mexp(29, 2001, 4294967311) == 810206418);
    assert(mexp(29, 4002, 4294967311) == 2551472552);
    assert(mexp(29, 8004, 4294967311) == 2622855873);
    assert(mexp(29, 16008, 4294967311) == 3249021798);
    assert(mexp(29, 32016, 4294967311) == 2975122457);
    assert(mexp(29, 32017, 4294967311) == 379205033);
    assert(mexp(29, 64034, 4294967311) == 2292475358);
    assert(mexp(29, 64035, 4294967311) == 2057275717);
    assert(mexp(29, 128070, 4294967311) == 541473527);
    assert(mexp(29, 256140, 4294967311) == 3483393090);
    assert(mexp(29, 512280, 4294967311) == 1373151456);
    assert(mexp(29, 512281, 4294967311) == 1166686425);
    assert(mexp(29, 1024562, 4294967311) == 893034726);
    assert(mexp(29, 2049124, 4294967311) == 3813958143);
    assert(mexp(29, 2049125, 4294967311) == 3230603372);
    assert(mexp(29, 4098250, 4294967311) == 3462666453);
    assert(mexp(29, 4098251, 4294967311) == 1633078984);
    assert(mexp(29, 8196502, 4294967311) == 4198170720);
    assert(mexp(29, 16393004, 4294967311) == 1466092006);
    assert(mexp(29, 16393005, 4294967311) == 3861962375);
    assert(mexp(29, 32786010, 4294967311) == 2806821427);
    lemma_mexp_pow(29, 32786010, 4294967311);
    assert(mexp(29, 0, 4294967311) == 1);
    assert(mexp(29, 1, 4294967311) == 29);
    assert(mexp(29, 2, 4294967311) == 841);
    assert(mexp(29, 4, 4294967311) == 707281);
    assert(mexp(29, 5, 4294967311) == 20511149);
    assert(mexp(29, 10, 4294967311) == 2300285818);
    assert(mexp(29, 11, 4294967311) == 2283779057);
    assert(mexp(29, 22, 4294967311) == 3844041337);
    assert(mexp(29, 23, 4294967311) == 4103015998);
    assert(mexp(29, 46, 4294967311) == 1772071293);
    assert(mexp(29, 92, 4294967311) == 4123712018);
    assert(mexp(29, 184, 4294967311) == 2118790665);
    assert(mexp(29, 368, 4294967311) == 3673598572);
    assert(mexp(29, 736, 4294967311) == 4022085488);
    assert(mexp(29, 1472, 4294967311) == 3943067375);
    assert(mexp(29, 1473, 4294967311) == 2679803789);
    assert(mexp(29, 2946, 4294967311) == 947369449);
    assert(mexp(29, 2947, 4294967311) == 1703910155);
    assert(mexp(29, 5894, 4294967311) == 3855672635);
    assert(mexp(29, 5895, 4294967311) == 145356329);
    assert(mexp(29, 11790, 4294967311) == 2054086458);
    lemma_mexp_pow(29, 11790, 4294967311);
}

proof fn lemma_multiplier_witness(r: int)
    requires
        r == 3 || r == 13 || r == 15 || r == 21 || r == 24 || r == 29,
    ensures
        order_witness(r),
{
    if r == 3 {
        lemma_order_witness_3();
    } else if r == 13 {
        lemma_order_witness_13();
    } else if r == 15 {
        lemma_order_witness_15();
    } else if r == 21 {
        lemma_order_witness_21();
    } else if r == 24 {
        lemma_order_witness_24();
    } else {
        lemma_order_witness_29();
    }
}

proof fn lemma_pow_of_one_mod(x: int, j: nat)
    requires
        x % modulus() == 1,
    ensures
        pow(x, j) % modulus() == 1,
{
    lemma_pow_mod_noop(x, j, modulus());
    lemma1_pow(j);
}

/// `x * y` is `y` modulo the modulus when `x` is 1 modulo it.
proof fn lemma_mul_one_mod(x: int, y: int)
    requires
        x % modulus() == 1,
    ensures
        (x * y) % modulus() == y % modulus(),
{
    lemma_mul_mod_noop_left(x, y, modulus());
}

/// If `r^k` is 1 then so is `r^d` for some divisor `d <= k` of the group
/// size.
proof fn lemma_descent(r: int, k: nat) -> (d: nat)
    requires
        1 <= k <= group_size(),
        pow(r, k) % modulus() == 1,
        pow(r, group_size()) % modulus() == 1,
    ensures
        1 <= d <= k,
        group_size() % d == 0,
        pow(r, d) % modulus() == 1,
    decreases k,
{
    let n = group_size() as int;
    let j = (n / (k as int)) as nat;
    let b = (n % (k as int)) as nat;
    lemma_fundamental_div_mod(n, k as int);
    assert(n == k * j + b);
    assert(k * j >= 0) by (nonlinear_arith)
        requires
            k >= 1,
            j >= 0,
    ;
    let kj = (k * j) as nat;
    lemma_pow_adds(r, kj, b);
    lemma_pow_multiplies(r, k, j);
    lemma_pow_of_one_mod(pow(r, k), j);
    lemma_mul_one_mod(pow(r, kj), pow(r, b));
    assert(kj + b == group_size());
    if b == 0 {
        k
    } else {
        lemma_descent(r, b)
    }
}

proof fn lemma_cancel_mod(a: int, inv: int, b: int, q: int)
    requires
        q > 0,
        (a * inv) % q == 1,
        (a * b) % q == 0,
        0 <= b < q,
    ensures
        b == 0,
{
    lemma_small_mod(b as nat, q as nat);
    lemma_mul_mod_noop_right(b, a * inv, q);
    assert(b * ((a * inv) % q) == b);
    assert((b * (a * inv)) % q == b);
    assert(b * (a * inv) == (a * b) * inv) by (nonlinear_arith);
    lemma_mul_mod_noop_left(a * b, inv, q);
    assert(((a * b) % q) * inv == 0);
    assert(0int % q == 0);
}

/// A prime factor `q` of `t * d` that does not divide `t` divides `d`
/// (for the small prime factors of the group size).
proof fn lemma_prime_divides(q: int, t: int, d: int)
    requires
        q == 2 || q == 3 || q == 5 || q == 131,
        t >= 0,
        d >= 0,
        (t * d) % q == 0,
        t % q != 0,
    ensures
        d % q == 0,
{
    let a = t % q;
    let b = d % q;
    lemma_mul_mod_noop_left(t, d, q);
    lemma_mul_mod_noop_right(a, d, q);
    assert((a * b) % q == 0);
    assert(1 <= a < q && 0 <= b < q);
    if q == 2 {
        assert(a == 1);
        lemma_cancel_mod(1, 1, b, 2);
    } else if q == 3 {
        if a == 1 {
            lemma_cancel_mod(1, 1, b, 3);
        } else {
            lemma_cancel_mod(2, 2, b, 3);
        }
    } else if q == 5 {
        if a == 1 {
            lemma_cancel_mod(1, 1, b, 5);
        } else if a == 2 {
            lemma_cancel_mod(2, 3, b, 5);
        } else if a == 3 {
            lemma_cancel_mod(3, 2, b, 5);
        } else {
            lemma_cancel_mod(4, 4, b, 5);
        }
    } else {
        if a == 1 {
            lemma_cancel_mod(1, 1, b, 131);
        } else if a == 2 {
            lemma_cancel_mod(2, 66, b, 131);
        } else if a == 3 {
            lemma_cancel_mod(3, 44, b, 131);
        } else if a == 4 {
            lemma_cancel_mod(4, 33, b, 131);
        } else if a == 5 {
            lemma_cancel_mod(5, 105, b, 131);
        } else if a == 6 {
            lemma_cancel_mod(6, 22, b, 131);
        } else if a == 7 {
            lemma_cancel_mod(7, 75, b, 131);
        } else if a == 8 {
            lemma_cancel_mod(8, 82, b, 131);
        } else if a == 9 {
            lemma_cancel_mod(9, 102, b, 131);
        } else if a == 10 {
            lemma_cancel_mod(10, 118, b, 131);
        } else if a == 11 {
            lemma_cancel_mod(11, 12, b, 131);
        } else if a == 12 {
            lemma_cancel_mod(12, 11, b, 131);
        } else if a == 13 {
            lemma_cancel_mod(13, 121, b, 131);
        } else if a == 14 {
            lemma_cancel_mod(14, 103, b, 131);
        } else if a == 15 {
            lemma_cancel_mod(15, 35, b, 131);
        } else if a == 16 {
            lemma_cancel_mod(16, 41, b, 131);
        } else if a == 17 {
            lemma_cancel_mod(17, 54, b, 131);
        } else if a == 18 {
            lemma_cancel_mod(18, 51, b, 131);
        } else if a == 19 {
            lemma_cancel_mod(19, 69, b, 131);
        } else if a == 20 {
            lemma_cancel_mod(20, 59, b, 131);
        } else if a == 21 {
            lemma_cancel_mod(21, 25, b, 131);
        } else if a == 22 {
            lemma_cancel_mod(22, 6, b, 131);
        } else if a == 23 {
            lemma_cancel_mod(23, 57, b, 131);
        } else if a == 24 {
            lemma_cancel_mod(24, 71, b, 131);
        } else if a == 25 {
            lemma_cancel_mod(25, 21, b, 131);
        } else if a == 26 {
            lemma_cancel_mod(26, 126, b, 131);
        } else if a == 27 {
            lemma_cancel_mod(27, 34, b, 131);
        } else if a == 28 {
            lemma_cancel_mod(28, 117, b, 131);
        } else if a == 29 {
            lemma_cancel_mod(29, 122, b, 131);
        } else if a == 30 {
            lemma_cancel_mod(30, 83, b, 131);
        } else if a == 31 {
            lemma_cancel_mod(31, 93, b, 131);
        } else if a == 32 {
            lemma_cancel_mod(32, 86, b, 131);
        } else if a == 33 {
            lemma_cancel_mod(33, 4, b, 131);
        } else if a == 34 {
            lemma_cancel_mod(34, 27, b, 131);
        } else if a == 35 {
            lemma_cancel_mod(35, 15, b, 131);
        } else if a == 36 {
            lemma_cancel_mod(36, 91, b, 131);
        } else if a == 37 {
            lemma_cancel_mod(37, 85, b, 131);
        } else if a == 38 {
            lemma_cancel_mod(38, 100, b, 131);
        } else if a == 39 {
            lemma_cancel_mod(39, 84, b, 131);
        } else if a == 40 {
            lemma_cancel_mod(40, 95, b, 131);
        } else if a == 41 {
            lemma_cancel_mod(41, 16, b, 131);
        } else if a == 42 {
            lemma_cancel_mod(42, 78, b, 131);
        } else if a == 43 {
            lemma_cancel_mod(43, 64, b, 131);
        } else if a == 44 {
            lemma_cancel_mod(44, 3, b, 131);
        } else if a == 45 {
            lemma_cancel_mod(45, 99, b, 131);
        } else if a == 46 {
            lemma_cancel_mod(46, 94, b, 131);
        } else if a == 47 {
            lemma_cancel_mod(47, 92, b, 131);
        } else if a == 48 {
            lemma_cancel_mod(48, 101, b, 131);
        } else if a == 49 {
            lemma_cancel_mod(49, 123, b, 131);
        } else if a == 50 {
            lemma_cancel_mod(50, 76, b, 131);
        } else if a == 51 {
            lemma_cancel_mod(51, 18, b, 131);
        } else if a == 52 {
            lemma_cancel_mod(52, 63, b, 131);
        } else if a == 53 {
            lemma_cancel_mod(53, 89, b, 131);
        } else if a == 54 {
            lemma_cancel_mod(54, 17, b, 131);
        } else if a == 55 {
            lemma_cancel_mod(55, 81, b, 131);
        } else if a == 56 {
            lemma_cancel_mod(56, 124, b, 131);
        } else if a == 57 {
            lemma_cancel_mod(57, 23, b, 131);
        } else if a == 58 {
            lemma_cancel_mod(58, 61, b, 131);
        } else if a == 59 {
            lemma_cancel_mod(59, 20, b, 131);
        } else if a == 60 {
            lemma_cancel_mod(60, 107, b, 131);
        } else if a == 61 {
            lemma_cancel_mod(61, 58, b, 131);
        } else if a == 62 {
            lemma_cancel_mod(62, 112, b, 131);
        } else if a == 63 {
            lemma_cancel_mod(63, 52, b, 131);
        } else if a == 64 {
            lemma_cancel_mod(64, 43, b, 131);
        } else if a == 65 {
            lemma_cancel_mod(65, 129, b, 131);
        } else if a == 66 {
            lemma_cancel_mod(66, 2, b, 131);
        } else if a == 67 {
            lemma_cancel_mod(67, 88, b, 131);
        } else if a == 68 {
            lemma_cancel_mod(68, 79, b, 131);
        } else if a == 69 {
            lemma_cancel_mod(69, 19, b, 131);
        } else if a == 70 {
            lemma_cancel_mod(70, 73, b, 131);
        } else if a == 71 {
            lemma_cancel_mod(71, 24, b, 131);
        } else if a == 72 {
            lemma_cancel_mod(72, 111, b, 131);
        } else if a == 73 {
            lemma_cancel_mod(73, 70, b, 131);
        } else if a == 74 {
            lemma_cancel_mod(74, 108, b, 131);
        } else if a == 75 {
            lemma_cancel_mod(75, 7, b, 131);
        } else if a == 76 {
            lemma_cancel_mod(76, 50, b, 131);
        } else if a == 77 {
            lemma_cancel_mod(77, 114, b, 131);
        } else if a == 78 {
            lemma_cancel_mod(78, 42, b, 131);
        } else if a == 79 {
            lemma_cancel_mod(79, 68, b, 131);
        } else if a == 80 {
            lemma_cancel_mod(80, 113, b, 131);
        } else if a == 81 {
            lemma_cancel_mod(81, 55, b, 131);
        } else if a == 82 {
            lemma_cancel_mod(82, 8, b, 131);
        } else if a == 83 {
            lemma_cancel_mod(83, 30, b, 131);
        } else if a == 84 {
            lemma_cancel_mod(84, 39, b, 131);
        } else if a == 85 {
            lemma_cancel_mod(85, 37, b, 131);
        } else if a == 86 {
            lemma_cancel_mod(86, 32, b, 131);
        } else if a == 87 {
            lemma_cancel_mod(87, 128, b, 131);
        } else if a == 88 {
            lemma_cancel_mod(88, 67, b, 131);
        } else if a == 89 {
            lemma_cancel_mod(89, 53, b, 131);
        } else if a == 90 {
            lemma_cancel_mod(90, 115, b, 131);
        } else if a == 91 {
            lemma_cancel_mod(91, 36, b, 131);
        } else if a == 92 {
            lemma_cancel_mod(92, 47, b, 131);
        } else if a == 93 {
            lemma_cancel_mod(93, 31, b, 131);
        } else if a == 94 {
            lemma_cancel_mod(94, 46, b, 131);
        } else if a == 95 {
            lemma_cancel_mod(95, 40, b, 131);
        } else if a == 96 {
            lemma_cancel_mod(96, 116, b, 131);
        } else if a == 97 {
            lemma_cancel_mod(97, 104, b, 131);
        } else if a == 98 {
            lemma_cancel_mod(98, 127, b, 131);
        } else if a == 99 {
            lemma_cancel_mod(99, 45, b, 131);
        } else if a == 100 {
            lemma_cancel_mod(100, 38, b, 131);
        } else if a == 101 {
            lemma_cancel_mod(101, 48, b, 131);
        } else if a == 102 {
            lemma_cancel_mod(102, 9, b, 131);
        } else if a == 103 {
            lemma_cancel_mod(103, 14, b, 131);
        } else if a == 104 {
            lemma_cancel_mod(104, 97, b, 131);
        } else if a == 105 {
            lemma_cancel_mod(105, 5, b, 131);
        } else if a == 106 {
            lemma_cancel_mod(106, 110, b, 131);
        } else if a == 107 {
            lemma_cancel_mod(107, 60, b, 131);
        } else if a == 108 {
            lemma_cancel_mod(108, 74, b, 131);
        } else if a == 109 {
            lemma_cancel_mod(109, 125, b, 131);
        } else if a == 110 {
            lemma_cancel_mod(110, 106, b, 131);
        } else if a == 111 {
            lemma_cancel_mod(111, 72, b, 131);
        } else if a == 112 {
            lemma_cancel_mod(112, 62, b, 131);
        } else if a == 113 {
            lemma_cancel_mod(113, 80, b, 131);
        } else if a == 114 {
            lemma_cancel_mod(114, 77, b, 131);
        } else if a == 115 {
            lemma_cancel_mod(115, 90, b, 131);
        } else if a == 116 {
            lemma_cancel_mod(116, 96, b, 131);
        } else if a == 117 {
            lemma_cancel_mod(117, 28, b, 131);
        } else if a == 118 {
            lemma_cancel_mod(118, 10, b, 131);
        } else if a == 119 {
            lemma_cancel_mod(119, 120, b, 131);
        } else if a == 120 {
            lemma_cancel_mod(120, 119, b, 131);
        } else if a == 121 {
            lemma_cancel_mod(121, 13, b, 131);
        } else if a == 122 {
            lemma_cancel_mod(122, 29, b, 131);
        } else if a == 123 {
            lemma_cancel_mod(123, 49, b, 131);
        } else if a == 124 {
            lemma_cancel_mod(124, 56, b, 131);
        } else if a == 125 {
            lemma_cancel_mod(125, 109, b, 131);
        } else if a == 126 {
            lemma_cancel_mod(126, 26, b, 131);
        } else if a == 127 {
            lemma_cancel_mod(127, 98, b, 131);
        } else if a == 128 {
            lemma_cancel_mod(128, 87, b, 131);
        } else if a == 129 {
            lemma_cancel_mod(129, 65, b, 131);
        } else {
            lemma_cancel_mod(130, 130, b, 131);
        }
    }
}

/// Whether no integer from `lo` to `hi` divides `n`.
spec fn no_divisor_in(n: int, lo: int, hi: int) -> bool
    decreases hi - lo + 1,
{
    if lo > hi {
        true
    } else {
        n % lo != 0 && no_divisor_in(n, lo + 1, hi)
    }
}

proof fn lemma_no_divisor_in(n: int, lo: int, hi: int, c: int)
    requires
        no_divisor_in(n, lo, hi),
        lo <= c <= hi,
    ensures
        n % c != 0,
    decreases c - lo,
{
    if c > lo {
        lemma_no_divisor_in(n, lo + 1, hi, c);
    }
}

proof fn lemma_no_small_divisor_364289()
    ensures
        no_divisor_in(364289, 2, 603),
{
    assert(no_divisor_in(364289, 604, 603));
    assert(no_divisor_in(364289, 603, 603));
    assert(no_divisor_in(364289, 602, 603));
    assert(no_divisor_in(364289, 601, 603));
    assert(no_divisor_in(364289, 600, 603));
    assert(no_divisor_in(364289, 599, 603));
    assert(no_divisor_in(364289, 598, 603));
    assert(no_divisor_in(364289, 597, 603));
    assert(no_divisor_in(364289, 596, 603));
    assert(no_divisor_in(364289, 595, 603));
    assert(no_divisor_in(364289, 594, 603));
    assert(no_divisor_in(364289, 593, 603));
    assert(no_divisor_in(364289, 592, 603));
    assert(no_divisor_in(364289, 591, 603));
    assert(no_divisor_in(364289, 590, 603));
    assert(no_divisor_in(364289, 589, 603));
    assert(no_divisor_in(364289, 588, 603));
    assert(no_divisor_in(364289, 587, 603));
    assert(no_divisor_in(364289, 586, 603));
    assert(no_divisor_in(364289, 585, 603));
    assert(no_divisor_in(364289, 584, 603));
    assert(no_divisor_in(364289, 583, 603));
    assert(no_divisor_in(364289, 582, 603));
    assert(no_divisor_in(364289, 581, 603));
    assert(no_divisor_in(364289, 580, 603));
    assert(no_divisor_in(364289, 579, 603));
    assert(no_divisor_in(364289, 578, 603));
    assert(no_divisor_in(364289, 577, 603));
    assert(no_divisor_in(364289, 576, 603));
    assert(no_divisor_in(364289, 575, 603));
    assert(no_divisor_in(364289, 574, 603));
    assert(no_divisor_in(364289, 573, 603));
    assert(no_divisor_in(364289, 572, 603));
    assert(no_divisor_in(364289, 571, 603));
    assert(no_divisor_in(364289, 570, 603));
    assert(no_divisor_in(364289, 569, 603));
    assert(no_divisor_in(364289, 568, 603));
    assert(no_divisor_in(364289, 567, 603));
    assert(no_divisor_in(364289, 566, 603));
    assert(no_divisor_in(364289, 565, 603));
    assert(no_divisor_in(364289, 564, 603));
    assert(no_divisor_in(364289, 563, 603));
    assert(no_divisor_in(364289, 562, 603));
    assert(no_divisor_in(364289, 561, 603));
    assert(no_divisor_in(364289, 560, 603));
    assert(no_divisor_in(364289, 559, 603));
    assert(no_divisor_in(364289, 558, 603));
    assert(no_divisor_in(364289, 557, 603));
    assert(no_divisor_in(364289, 556, 603));
    assert(no_divisor_in(364289, 555, 603));
    assert(no_divisor_in(364289, 554, 603));
    assert(no_divisor_in(364289, 553, 603));
    assert(no_divisor_in(364289, 552, 603));
    assert(no_divisor_in(364289, 551, 603));
    assert(no_divisor_in(364289, 550, 603));
    assert(no_divisor_in(364289, 549, 603));
    assert(no_divisor_in(364289, 548, 603));
    assert(no_divisor_in(364289, 547, 603));
    assert(no_divisor_in(364289, 546, 603));
    assert(no_divisor_in(364289, 545, 603));
    assert(no_divisor_in(364289, 544, 603));
    assert(no_divisor_in(364289, 543, 603));
    assert(no_divisor_in(364289, 542, 603));
    assert(no_divisor_in(364289, 541, 603));
    assert(no_divisor_in(364289, 540, 603));
    assert(no_divisor_in(364289, 539, 603));
    assert(no_divisor_in(364289, 538, 603));
    assert(no_divisor_in(364289, 537, 603));
    assert(no_divisor_in(364289, 536, 603));
    assert(no_divisor_in(364289, 535, 603));
    assert(no_divisor_in(364289, 534, 603));
    assert(no_divisor_in(364289, 533, 603));
    assert(no_divisor_in(364289, 532, 603));
    assert(no_divisor_in(364289, 531, 603));
    assert(no_divisor_in(364289, 530, 603));
    assert(no_divisor_in(364289, 529, 603));
    assert(no_divisor_in(364289, 528, 603));
    assert(no_divisor_in(364289, 527, 603));
    assert(no_divisor_in(364289, 526, 603));
    assert(no_divisor_in(364289, 525, 603));
    assert(no_divisor_in(364289, 524, 603));
    assert(no_divisor_in(364289, 523, 603));
    assert(no_divisor_in(364289, 522, 603));
    assert(no_divisor_in(364289, 521, 603));
    assert(no_divisor_in(364289, 520, 603));
    assert(no_divisor_in(364289, 519, 603));
    assert(no_divisor_in(364289, 518, 603));
    assert(no_divisor_in(364289, 517, 603));
    assert(no_divisor_in(364289, 516, 603));
    assert(no_divisor_in(364289, 515, 603));
    assert(no_divisor_in(364289, 514, 603));
    assert(no_divisor_in(364289, 513, 603));
    assert(no_divisor_in(364289, 512, 603));
    assert(no_divisor_in(364289, 511, 603));
    assert(no_divisor_in(364289, 510, 603));
    assert(no_divisor_in(364289, 509, 603));
    assert(no_divisor_in(364289, 508, 603));
    assert(no_divisor_in(364289, 507, 603));
    assert(no_divisor_in(364289, 506, 603));
    assert(no_divisor_in(364289, 505, 603));
    assert(no_divisor_in(364289, 504, 603));
    assert(no_divisor_in(364289, 503, 603));
    assert(no_divisor_in(364289, 502, 603));
    assert(no_divisor_in(364289, 501, 603));
    assert(no_divisor_in(364289, 500, 603));
    assert(no_divisor_in(364289, 499, 603));
    assert(no_divisor_in(364289, 498, 603));
    assert(no_divisor_in(364289, 497, 603));
    assert(no_divisor_in(364289, 496, 603));
    assert(no_divisor_in(364289, 495, 603));
    assert(no_divisor_in(364289, 494, 603));
    assert(no_divisor_in(364289, 493, 603));
    assert(no_divisor_in(364289, 492, 603));
    assert(no_divisor_in(364289, 491, 603));
    assert(no_divisor_in(364289, 490, 603));
    assert(no_divisor_in(364289, 489, 603));
    assert(no_divisor_in(364289, 488, 603));
    assert(no_divisor_in(364289, 487, 603));
    assert(no_divisor_in(364289, 486, 603));
    assert(no_divisor_in(364289, 485, 603));
    assert(no_divisor_in(364289, 484, 603));
    assert(no_divisor_in(364289, 483, 603));
    assert(no_divisor_in(364289, 482, 603));
    assert(no_divisor_in(364289, 481, 603));
    assert(no_divisor_in(364289, 480, 603));
    assert(no_divisor_in(364289, 479, 603));
    assert(no_divisor_in(364289, 478, 603));
    assert(no_divisor_in(364289, 477, 603));
    assert(no_divisor_in(364289, 476, 603));
    assert(no_divisor_in(364289, 475, 603));
    assert(no_divisor_in(364289, 474, 603));
    assert(no_divisor_in(364289, 473, 603));
    assert(no_divisor_in(364289, 472, 603));
    assert(no_divisor_in(364289, 471, 603));
    assert(no_divisor_in(364289, 470, 603));
    assert(no_divisor_in(364289, 469, 603));
    assert(no_divisor_in(364289, 468, 603));
    assert(no_divisor_in(364289, 467, 603));
    assert(no_divisor_in(364289, 466, 603));
    assert(no_divisor_in(364289, 465, 603));
    assert(no_divisor_in(364289, 464, 603));
    assert(no_divisor_in(364289, 463, 603));
    assert(no_divisor_in(364289, 462, 603));
    assert(no_divisor_in(364289, 461, 603));
    assert(no_divisor_in(364289, 460, 603));
    assert(no_divisor_in(364289, 459, 603));
    assert(no_divisor_in(364289, 458, 603));
    assert(no_divisor_in(364289, 457, 603));
    assert(no_divisor_in(364289, 456, 603));
    assert(no_divisor_in(364289, 455, 603));
    assert(no_divisor_in(364289, 454, 603));
    assert(no_divisor_in(364289, 453, 603));
    assert(no_divisor_in(364289, 452, 603));
    assert(no_divisor_in(364289, 451, 603));
    assert(no_divisor_in(364289, 450, 603));
    assert(no_divisor_in(364289, 449, 603));
    assert(no_divisor_in(364289, 448, 603));
    assert(no_divisor_in(364289, 447, 603));
    assert(no_divisor_in(364289, 446, 603));
    assert(no_divisor_in(364289, 445, 603));
    assert(no_divisor_in(364289, 444, 603));
    assert(no_divisor_in(364289, 443, 603));
    assert(no_divisor_in(364289, 442, 603));
    assert(no_divisor_in(364289, 441, 603));
    assert(no_divisor_in(364289, 440, 603));
    assert(no_divisor_in(364289, 439, 603));
    assert(no_divisor_in(364289, 438, 603));
    assert(no_divisor_in(364289, 437, 603));
    assert(no_divisor_in(364289, 436, 603));
    assert(no_divisor_in(364289, 435, 603));
    assert(no_divisor_in(364289, 434, 603));
    assert(no_divisor_in(364289, 433, 603));
    assert(no_divisor_in(364289, 432, 603));
    assert(no_divisor_in(364289, 431, 603));
    assert(no_divisor_in(364289, 430, 603));
    assert(no_divisor_in(364289, 429, 603));
    assert(no_divisor_in(364289, 428, 603));
    assert(no_divisor_in(364289, 427, 603));
    assert(no_divisor_in(364289, 426, 603));
    assert(no_divisor_in(364289, 425, 603));
    assert(no_divisor_in(364289, 424, 603));
    assert(no_divisor_in(364289, 423, 603));
    assert(no_divisor_in(364289, 422, 603));
    assert(no_divisor_in(364289, 421, 603));
    assert(no_divisor_in(364289, 420, 603));
    assert(no_divisor_in(364289, 419, 603));
    assert(no_divisor_in(364289, 418, 603));
    assert(no_divisor_in(364289, 417, 603));
    assert(no_divisor_in(364289, 416, 603));
    assert(no_divisor_in(364289, 415, 603));
    assert(no_divisor_in(364289, 414, 603));
    assert(no_divisor_in(364289, 413, 603));
    assert(no_divisor_in(364289, 412, 603));
    assert(no_divisor_in(364289, 411, 603));
    assert(no_divisor_in(364289, 410, 603));
    assert(no_divisor_in(364289, 409, 603));
    assert(no_divisor_in(364289, 408, 603));
    assert(no_divisor_in(364289, 407, 603));
    assert(no_divisor_in(364289, 406, 603));
    assert(no_divisor_in(364289, 405, 603));
    assert(no_divisor_in(364289, 404, 603));
    assert(no_divisor_in(364289, 403, 603));
    assert(no_divisor_in(364289, 402, 603));
    assert(no_divisor_in(364289, 401, 603));
    assert(no_divisor_in(364289, 400, 603));
    assert(no_divisor_in(364289, 399, 603));
    assert(no_divisor_in(364289, 398, 603));
    assert(no_divisor_in(364289, 397, 603));
    assert(no_divisor_in(364289, 396, 603));
    assert(no_divisor_in(364289, 395, 603));
    assert(no_divisor_in(364289, 394, 603));
    assert(no_divisor_in(364289, 393, 603));
    assert(no_divisor_in(364289, 392, 603));
    assert(no_divisor_in(364289, 391, 603));
    assert(no_divisor_in(364289, 390, 603));
    assert(no_divisor_in(364289, 389, 603));
    assert(no_divisor_in(364289, 388, 603));
    assert(no_divisor_in(364289, 387, 603));
    assert(no_divisor_in(364289, 386, 603));
    assert(no_divisor_in(364289, 385, 603));
    assert(no_divisor_in(364289, 384, 603));
    assert(no_divisor_in(364289, 383, 603));
    assert(no_divisor_in(364289, 382, 603));
    assert(no_divisor_in(364289, 381, 603));
    assert(no_divisor_in(364289, 380, 603));
    assert(no_divisor_in(364289, 379, 603));
    assert(no_divisor_in(364289, 378, 603));
    assert(no_divisor_in(364289, 377, 603));
    assert(no_divisor_in(364289, 376, 603));
    assert(no_divisor_in(364289, 375, 603));
    assert(no_divisor_in(364289, 374, 603));
    assert(no_divisor_in(364289, 373, 603));
    assert(no_divisor_in(364289, 372, 603));
    assert(no_divisor_in(364289, 371, 603));
    assert(no_divisor_in(364289, 370, 603));
    assert(no_divisor_in(364289, 369, 603));
    assert(no_divisor_in(364289, 368, 603));
    assert(no_divisor_in(364289, 367, 603));
    assert(no_divisor_in(364289, 366, 603));
    assert(no_divisor_in(364289, 365, 603));
    assert(no_divisor_in(364289, 364, 603));
    assert(no_divisor_in(364289, 363, 603));
    assert(no_divisor_in(364289, 362, 603));
    assert(no_divisor_in(364289, 361, 603));
    assert(no_divisor_in(364289, 360, 603));
    assert(no_divisor_in(364289, 359, 603));
    assert(no_divisor_in(364289, 358, 603));
    assert(no_divisor_in(364289, 357, 603));
    assert(no_divisor_in(364289, 356, 603));
    assert(no_divisor_in(364289, 355, 603));
    assert(no_divisor_in(364289, 354, 603));
    assert(no_divisor_in(364289, 353, 603));
    assert(no_divisor_in(364289, 352, 603));
    assert(no_divisor_in(364289, 351, 603));
    assert(no_divisor_in(364289, 350, 603));
    assert(no_divisor_in(364289, 349, 603));
    assert(no_divisor_in(364289, 348, 603));
    assert(no_divisor_in(364289, 347, 603));
    assert(no_divisor_in(364289, 346, 603));
    assert(no_divisor_in(364289, 345, 603));
    assert(no_divisor_in(364289, 344, 603));
    assert(no_divisor_in(364289, 343, 603));
    assert(no_divisor_in(364289, 342, 603));
    assert(no_divisor_in(364289, 341, 603));
    assert(no_divisor_in(364289, 340, 603));
    assert(no_divisor_in(364289, 339, 603));
    assert(no_divisor_in(364289, 338, 603));
    assert(no_divisor_in(364289, 337, 603));
    assert(no_divisor_in(364289, 336, 603));
    assert(no_divisor_in(364289, 335, 603));
    assert(no_divisor_in(364289, 334, 603));
    assert(no_divisor_in(364289, 333, 603));
    assert(no_divisor_in(364289, 332, 603));
    assert(no_divisor_in(364289, 331, 603));
    assert(no_divisor_in(364289, 330, 603));
    assert(no_divisor_in(364289, 329, 603));
    assert(no_divisor_in(364289, 328, 603));
    assert(no_divisor_in(364289, 327, 603));
    assert(no_divisor_in(364289, 326, 603));
    assert(no_divisor_in(364289, 325, 603));
    assert(no_divisor_in(364289, 324, 603));
    assert(no_divisor_in(364289, 323, 603));
    assert(no_divisor_in(364289, 322, 603));
    assert(no_divisor_in(364289, 321, 603));
    assert(no_divisor_in(364289, 320, 603));
    assert(no_divisor_in(364289, 319, 603));
    assert(no_divisor_in(364289, 318, 603));
    assert(no_divisor_in(364289, 317, 603));
    assert(no_divisor_in(364289, 316, 603));
    assert(no_divisor_in(364289, 315, 603));
    assert(no_divisor_in(364289, 314, 603));
    assert(no_divisor_in(364289, 313, 603));
    assert(no_divisor_in(364289, 312, 603));
    assert(no_divisor_in(364289, 311, 603));
    assert(no_divisor_in(364289, 310, 603));
    assert(no_divisor_in(364289, 309, 603));
    assert(no_divisor_in(364289, 308, 603));
    assert(no_divisor_in(364289, 307, 603));
    assert(no_divisor_in(364289, 306, 603));
    assert(no_divisor_in(364289, 305, 603));
    assert(no_divisor_in(364289, 304, 603));
    assert(no_divisor_in(364289, 303, 603));
    assert(no_divisor_in(364289, 302, 603));
    assert(no_divisor_in(364289, 301, 603));
    assert(no_divisor_in(364289, 300, 603));
    assert(no_divisor_in(364289, 299, 603));
    assert(no_divisor_in(364289, 298, 603));
    assert(no_divisor_in(364289, 297, 603));
    assert(no_divisor_in(364289, 296, 603));
    assert(no_divisor_in(364289, 295, 603));
    assert(no_divisor_in(364289, 294, 603));
    assert(no_divisor_in(364289, 293, 603));
    assert(no_divisor_in(364289, 292, 603));
    assert(no_divisor_in(364289, 291, 603));
    assert(no_divisor_in(364289, 290, 603));
    assert(no_divisor_in(364289, 289, 603));
    assert(no_divisor_in(364289, 288, 603));
    assert(no_divisor_in(364289, 287, 603));
    assert(no_divisor_in(364289, 286, 603));
    assert(no_divisor_in(364289, 285, 603));
    assert(no_divisor_in(364289, 284, 603));
    assert(no_divisor_in(364289, 283, 603));
    assert(no_divisor_in(364289, 282, 603));
    assert(no_divisor_in(364289, 281, 603));
    assert(no_divisor_in(364289, 280, 603));
    assert(no_divisor_in(364289, 279, 603));
    assert(no_divisor_in(364289, 278, 603));
    assert(no_divisor_in(364289, 277, 603));
    assert(no_divisor_in(364289, 276, 603));
    assert(no_divisor_in(364289, 275, 603));
    assert(no_divisor_in(364289, 274, 603));
    assert(no_divisor_in(364289, 273, 603));
    assert(no_divisor_in(364289, 272, 603));
    assert(no_divisor_in(364289, 271, 603));
    assert(no_divisor_in(364289, 270, 603));
    assert(no_divisor_in(364289, 269, 603));
    assert(no_divisor_in(364289, 268, 603));
    assert(no_divisor_in(364289, 267, 603));
    assert(no_divisor_in(364289, 266, 603));
    assert(no_divisor_in(364289, 265, 603));
    assert(no_divisor_in(364289, 264, 603));
    assert(no_divisor_in(364289, 263, 603));
    assert(no_divisor_in(364289, 262, 603));
    assert(no_divisor_in(364289, 261, 603));
    assert(no_divisor_in(364289, 260, 603));
    assert(no_divisor_in(364289, 259, 603));
    assert(no_divisor_in(364289, 258, 603));
    assert(no_divisor_in(364289, 257, 603));
    assert(no_divisor_in(364289, 256, 603));
    assert(no_divisor_in(364289, 255, 603));
    assert(no_divisor_in(364289, 254, 603));
    assert(no_divisor_in(364289, 253, 603));
    assert(no_divisor_in(364289, 252, 603));
    assert(no_divisor_in(364289, 251, 603));
    assert(no_divisor_in(364289, 250, 603));
    assert(no_divisor_in(364289, 249, 603));
    assert(no_divisor_in(364289, 248, 603));
    assert(no_divisor_in(364289, 247, 603));
    assert(no_divisor_in(364289, 246, 603));
    assert(no_divisor_in(364289, 245, 603));
    assert(no_divisor_in(364289, 244, 603));
    assert(no_divisor_in(364289, 243, 603));
    assert(no_divisor_in(364289, 242, 603));
    assert(no_divisor_in(364289, 241, 603));
    assert(no_divisor_in(364289, 240, 603));
    assert(no_divisor_in(364289, 239, 603));
    assert(no_divisor_in(364289, 238, 603));
    assert(no_divisor_in(364289, 237, 603));
    assert(no_divisor_in(364289, 236, 603));
    assert(no_divisor_in(364289, 235, 603));
    assert(no_divisor_in(364289, 234, 603));
    assert(no_divisor_in(364289, 233, 603));
    assert(no_divisor_in(364289, 232, 603));
    assert(no_divisor_in(364289, 231, 603));
    assert(no_divisor_in(364289, 230, 603));
    assert(no_divisor_in(364289, 229, 603));
    assert(no_divisor_in(364289, 228, 603));
    assert(no_divisor_in(364289, 227, 603));
    assert(no_divisor_in(364289, 226, 603));
    assert(no_divisor_in(364289, 225, 603));
    assert(no_divisor_in(364289, 224, 603));
    assert(no_divisor_in(364289, 223, 603));
    assert(no_divisor_in(364289, 222, 603));
    assert(no_divisor_in(364289, 221, 603));
    assert(no_divisor_in(364289, 220, 603));
    assert(no_divisor_in(364289, 219, 603));
    assert(no_divisor_in(364289, 218, 603));
    assert(no_divisor_in(364289, 217, 603));
    assert(no_divisor_in(364289, 216, 603));
    assert(no_divisor_in(364289, 215, 603));
    assert(no_divisor_in(364289, 214, 603));
    assert(no_divisor_in(364289, 213, 603));
    assert(no_divisor_in(364289, 212, 603));
    assert(no_divisor_in(364289, 211, 603));
    assert(no_divisor_in(364289, 210, 603));
    assert(no_divisor_in(364289, 209, 603));
    assert(no_divisor_in(364289, 208, 603));
    assert(no_divisor_in(364289, 207, 603));
    assert(no_divisor_in(364289, 206, 603));
    assert(no_divisor_in(364289, 205, 603));
    assert(no_divisor_in(364289, 204, 603));
    assert(no_divisor_in(364289, 203, 603));
    assert(no_divisor_in(364289, 202, 603));
    assert(no_divisor_in(364289, 201, 603));
    assert(no_divisor_in(364289, 200, 603));
    assert(no_divisor_in(364289, 199, 603));
    assert(no_divisor_in(364289, 198, 603));
    assert(no_divisor_in(364289, 197, 603));
    assert(no_divisor_in(364289, 196, 603));
    assert(no_divisor_in(364289, 195, 603));
    assert(no_divisor_in(364289, 194, 603));
    assert(no_divisor_in(364289, 193, 603));
    assert(no_divisor_in(364289, 192, 603));
    assert(no_divisor_in(364289, 191, 603));
    assert(no_divisor_in(364289, 190, 603));
    assert(no_divisor_in(364289, 189, 603));
    assert(no_divisor_in(364289, 188, 603));
    assert(no_divisor_in(364289, 187, 603));
    assert(no_divisor_in(364289, 186, 603));
    assert(no_divisor_in(364289, 185, 603));
    assert(no_divisor_in(364289, 184, 603));
    assert(no_divisor_in(364289, 183, 603));
    assert(no_divisor_in(364289, 182, 603));
    assert(no_divisor_in(364289, 181, 603));
    assert(no_divisor_in(364289, 180, 603));
    assert(no_divisor_in(364289, 179, 603));
    assert(no_divisor_in(364289, 178, 603));
    assert(no_divisor_in(364289, 177, 603));
    assert(no_divisor_in(364289, 176, 603));
    assert(no_divisor_in(364289, 175, 603));
    assert(no_divisor_in(364289, 174, 603));
    assert(no_divisor_in(364289, 173, 603));
    assert(no_divisor_in(364289, 172, 603));
    assert(no_divisor_in(364289, 171, 603));
    assert(no_divisor_in(364289, 170, 603));
    assert(no_divisor_in(364289, 169, 603));
    assert(no_divisor_in(364289, 168, 603));
    assert(no_divisor_in(364289, 167, 603));
    assert(no_divisor_in(364289, 166, 603));
    assert(no_divisor_in(364289, 165, 603));
    assert(no_divisor_in(364289, 164, 603));
    assert(no_divisor_in(364289, 163, 603));
    assert(no_divisor_in(364289, 162, 603));
    assert(no_divisor_in(364289, 161, 603));
    assert(no_divisor_in(364289, 160, 603));
    assert(no_divisor_in(364289, 159, 603));
    assert(no_divisor_in(364289, 158, 603));
    assert(no_divisor_in(364289, 157, 603));
    assert(no_divisor_in(364289, 156, 603));
    assert(no_divisor_in(364289, 155, 603));
    assert(no_divisor_in(364289, 154, 603));
    assert(no_divisor_in(364289, 153, 603));
    assert(no_divisor_in(364289, 152, 603));
    assert(no_divisor_in(364289, 151, 603));
    assert(no_divisor_in(364289, 150, 603));
    assert(no_divisor_in(364289, 149, 603));
    assert(no_divisor_in(364289, 148, 603));
    assert(no_divisor_in(364289, 147, 603));
    assert(no_divisor_in(364289, 146, 603));
    assert(no_divisor_in(364289, 145, 603));
    assert(no_divisor_in(364289, 144, 603));
    assert(no_divisor_in(364289, 143, 603));
    assert(no_divisor_in(364289, 142, 603));
    assert(no_divisor_in(364289, 141, 603));
    assert(no_divisor_in(364289, 140, 603));
    assert(no_divisor_in(364289, 139, 603));
    assert(no_divisor_in(364289, 138, 603));
    assert(no_divisor_in(364289, 137, 603));
    assert(no_divisor_in(364289, 136, 603));
    assert(no_divisor_in(364289, 135, 603));
    assert(no_divisor_in(364289, 134, 603));
    assert(no_divisor_in(364289, 133, 603));
    assert(no_divisor_in(364289, 132, 603));
    assert(no_divisor_in(364289, 131, 603));
    assert(no_divisor_in(364289, 130, 603));
    assert(no_divisor_in(364289, 129, 603));
    assert(no_divisor_in(364289, 128, 603));
    assert(no_divisor_in(364289, 127, 603));
    assert(no_divisor_in(364289, 126, 603));
    assert(no_divisor_in(364289, 125, 603));
    assert(no_divisor_in(364289, 124, 603));
    assert(no_divisor_in(364289, 123, 603));
    assert(no_divisor_in(364289, 122, 603));
    assert(no_divisor_in(364289, 121, 603));
    assert(no_divisor_in(364289, 120, 603));
    assert(no_divisor_in(364289, 119, 603));
    assert(no_divisor_in(364289, 118, 603));
    assert(no_divisor_in(364289, 117, 603));
    assert(no_divisor_in(364289, 116, 603));
    assert(no_divisor_in(364289, 115, 603));
    assert(no_divisor_in(364289, 114, 603));
    assert(no_divisor_in(364289, 113, 603));
    assert(no_divisor_in(364289, 112, 603));
    assert(no_divisor_in(364289, 111, 603));
    assert(no_divisor_in(364289, 110, 603));
    assert(no_divisor_in(364289, 109, 603));
    assert(no_divisor_in(364289, 108, 603));
    assert(no_divisor_in(364289, 107, 603));
    assert(no_divisor_in(364289, 106, 603));
    assert(no_divisor_in(364289, 105, 603));
    assert(no_divisor_in(364289, 104, 603));
    assert(no_divisor_in(364289, 103, 603));
    assert(no_divisor_in(364289, 102, 603));
    assert(no_divisor_in(364289, 101, 603));
    assert(no_divisor_in(364289, 100, 603));
    assert(no_divisor_in(364289, 99, 603));
    assert(no_divisor_in(364289, 98, 603));
    assert(no_divisor_in(364289, 97, 603));
    assert(no_divisor_in(364289, 96, 603));
    assert(no_divisor_in(364289, 95, 603));
    assert(no_divisor_in(364289, 94, 603));
    assert(no_divisor_in(364289, 93, 603));
    assert(no_divisor_in(364289, 92, 603));
    assert(no_divisor_in(364289, 91, 603));
    assert(no_divisor_in(364289, 90, 603));
    assert(no_divisor_in(364289, 89, 603));
    assert(no_divisor_in(364289, 88, 603));
    assert(no_divisor_in(364289, 87, 603));
    assert(no_divisor_in(364289, 86, 603));
    assert(no_divisor_in(364289, 85, 603));
    assert(no_divisor_in(364289, 84, 603));
    assert(no_divisor_in(364289, 83, 603));
    assert(no_divisor_in(364289, 82, 603));
    assert(no_divisor_in(364289, 81, 603));
    assert(no_divisor_in(364289, 80, 603));
    assert(no_divisor_in(364289, 79, 603));
    assert(no_divisor_in(364289, 78, 603));
    assert(no_divisor_in(364289, 77, 603));
    assert(no_divisor_in(364289, 76, 603));
    assert(no_divisor_in(364289, 75, 603));
    assert(no_divisor_in(364289, 74, 603));
    assert(no_divisor_in(364289, 73, 603));
    assert(no_divisor_in(364289, 72, 603));
    assert(no_divisor_in(364289, 71, 603));
    assert(no_divisor_in(364289, 70, 603));
    assert(no_divisor_in(364289, 69, 603));
    assert(no_divisor_in(364289, 68, 603));
    assert(no_divisor_in(364289, 67, 603));
    assert(no_divisor_in(364289, 66, 603));
    assert(no_divisor_in(364289, 65, 603));
    assert(no_divisor_in(364289, 64, 603));
    assert(no_divisor_in(364289, 63, 603));
    assert(no_divisor_in(364289, 62, 603));
    assert(no_divisor_in(364289, 61, 603));
    assert(no_divisor_in(364289, 60, 603));
    assert(no_divisor_in(364289, 59, 603));
    assert(no_divisor_in(364289, 58, 603));
    assert(no_divisor_in(364289, 57, 603));
    assert(no_divisor_in(364289, 56, 603));
    assert(no_divisor_in(364289, 55, 603));
    assert(no_divisor_in(364289, 54, 603));
    assert(no_divisor_in(364289, 53, 603));
    assert(no_divisor_in(364289, 52, 603));
    assert(no_divisor_in(364289, 51, 603));
    assert(no_divisor_in(364289, 50, 603));
    assert(no_divisor_in(364289, 49, 603));
    assert(no_divisor_in(364289, 48, 603));
    assert(no_divisor_in(364289, 47, 603));
    assert(no_divisor_in(364289, 46, 603));
    assert(no_divisor_in(364289, 45, 603));
    assert(no_divisor_in(364289, 44, 603));
    assert(no_divisor_in(364289, 43, 603));
    assert(no_divisor_in(364289, 42, 603));
    assert(no_divisor_in(364289, 41, 603));
    assert(no_divisor_in(364289, 40, 603));
    assert(no_divisor_in(364289, 39, 603));
    assert(no_divisor_in(364289, 38, 603));
    assert(no_divisor_in(364289, 37, 603));
    assert(no_divisor_in(364289, 36, 603));
    assert(no_divisor_in(364289, 35, 603));
    assert(no_divisor_in(364289, 34, 603));
    assert(no_divisor_in(364289, 33, 603));
    assert(no_divisor_in(364289, 32, 603));
    assert(no_divisor_in(364289, 31, 603));
    assert(no_divisor_in(364289, 30, 603));
    assert(no_divisor_in(364289, 29, 603));
    assert(no_divisor_in(364289, 28, 603));
    assert(no_divisor_in(364289, 27, 603));
    assert(no_divisor_in(364289, 26, 603));
    assert(no_divisor_in(364289, 25, 603));
    assert(no_divisor_in(364289, 24, 603));
    assert(no_divisor_in(364289, 23, 603));
    assert(no_divisor_in(364289, 22, 603));
    assert(no_divisor_in(364289, 21, 603));
    assert(no_divisor_in(364289, 20, 603));
    assert(no_divisor_in(364289, 19, 603));
    assert(no_divisor_in(364289, 18, 603));
    assert(no_divisor_in(364289, 17, 603));
    assert(no_divisor_in(364289, 16, 603));
    assert(no_divisor_in(364289, 15, 603));
    assert(no_divisor_in(364289, 14, 603));
    assert(no_divisor_in(364289, 13, 603));
    assert(no_divisor_in(364289, 12, 603));
    assert(no_divisor_in(364289, 11, 603));
    assert(no_divisor_in(364289, 10, 603));
    assert(no_divisor_in(364289, 9, 603));
    assert(no_divisor_in(364289, 8, 603));
    assert(no_divisor_in(364289, 7, 603));
    assert(no_divisor_in(364289, 6, 603));
    assert(no_divisor_in(364289, 5, 603));
    assert(no_divisor_in(364289, 4, 603));
    assert(no_divisor_in(364289, 3, 603));
    assert(no_divisor_in(364289, 2, 603));
}

/// 364289 is prime: it is no product of two factors from 2 up.
proof fn lemma_364289_prime(t: int, e: int)
    requires
        2 <= t < 364289,
    ensures
        t * e != 364289,
{
    if t * e == 364289 {
        lemma_364289_no_factors(t, e);
    }
}

proof fn lemma_364289_no_factors(t: int, e: int)
    requires
        t * e == 364289,
        2 <= t < 364289,
    ensures
        t * e != 364289,
{
    assert(e >= 2) by (nonlinear_arith)
        requires
            t * e == 364289,
            2 <= t < 364289,
    ;
    assert(t <= 603 || e <= 603) by (nonlinear_arith)
        requires
            t * e == 364289,
            t >= 2,
            e >= 2,
    ;
    lemma_no_small_divisor_364289();
    if t <= 603 {
        assert(364289int % t == 0) by (nonlinear_arith)
            requires
                t * e == 364289,
                t >= 2,
                e >= 2,
        {
            vstd::arithmetic::div_mod::lemma_mod_multiples_basic(e, t);
        }
        lemma_no_divisor_in(364289, 2, 603, t);
    } else {
        assert(364289int % e == 0) by (nonlinear_arith)
            requires
                t * e == 364289,
                t >= 2,
                e >= 2,
        {
            vstd::arithmetic::div_mod::lemma_mod_multiples_basic(t, e);
        }
        lemma_no_divisor_in(364289, 2, 603, e);
    }
}

/// A proper divisor `d` of the group size divides the group size divided
/// by one of its prime factors.
proof fn lemma_cofactor(d: int) -> (res: (int, int))
    requires
        1 <= d < group_size(),
        (group_size() as int) % d == 0,
    ensures
        res.0 == 2 || res.0 == 3 || res.0 == 5 || res.0 == 131 || res.0 == 364289,
        res.1 >= 1,
        (group_size() as int) / res.0 == d * res.1,
{
    let n = group_size() as int;
    let t = n / d;
    lemma_fundamental_div_mod(n, d);
    assert(n == d * t);
    assert(t >= 2) by (nonlinear_arith)
        requires
            n == d * t,
            1 <= d < n,
    ;
    assert(t * d == n) by (nonlinear_arith)
        requires
            n == d * t,
    ;
    if t % 2 == 0 {
        let j = t / 2;
        assert(n / 2 == d * j) by (nonlinear_arith)
            requires
                n == d * t,
                t == 2 * j,
        ;
        return (2, j);
    }
    lemma_prime_divides(2, t, d);
    let d1 = d / 2;
    assert(t * d1 == 2147483655) by (nonlinear_arith)
        requires
            t * d == 4294967310,
            d == 2 * d1,
    ;
    if t % 3 == 0 {
        let j = t / 3;
        assert(n / 3 == d * j) by (nonlinear_arith)
            requires
                n == d * t,
                t == 3 * j,
                n == 4294967310,
        ;
        return (3, j);
    }
    assert((t * d1) % 3 == 0);
    lemma_prime_divides(3, t, d1);
    let d2 = d1 / 3;
    assert(t * d2 == 715827885) by (nonlinear_arith)
        requires
            t * d1 == 2147483655,
            d1 == 3 * d2,
    ;
    assert((t * d2) % 3 == 0);
    lemma_prime_divides(3, t, d2);
    let d3 = d2 / 3;
    assert(t * d3 == 238609295) by (nonlinear_arith)
        requires
            t * d2 == 715827885,
            d2 == 3 * d3,
    ;
    if t % 5 == 0 {
        let j = t / 5;
        assert(n / 5 == d * j) by (nonlinear_arith)
            requires
                n == d * t,
                t == 5 * j,
                n == 4294967310,
        ;
        return (5, j);
    }
    assert((t * d3) % 5 == 0);
    lemma_prime_divides(5, t, d3);
    let d4 = d3 / 5;
    assert(t * d4 == 47721859) by (nonlinear_arith)
        requires
            t * d3 == 238609295,
            d3 == 5 * d4,
    ;
    if t % 131 == 0 {
        let j = t / 131;
        assert(n / 131 == d * j) by (nonlinear_arith)
            requires
                n == d * t,
                t == 131 * j,
                n == 4294967310,
        ;
        return (131, j);
    }
    assert((t * d4) % 131 == 0);
    lemma_prime_divides(131, t, d4);
    let d5 = d4 / 131;
    assert(t * d5 == 364289) by (nonlinear_arith)
        requires
            t * d4 == 47721859,
            d4 == 131 * d5,
    ;
    if t % 364289 == 0 {
        let j = t / 364289;
        assert(n / 364289 == d * j) by (nonlinear_arith)
            requires
                n == d * t,
                t == 364289 * j,
                n == 4294967310,
        ;
        return (364289, j);
    }
    assert(t < 364289) by (nonlinear_arith)
        requires
            t * d5 == 364289,
            t % 364289 != 0,
            t >= 2,
    ;
    lemma_364289_prime(t, d5);
    (2, 1)
}

/// Each multiplier generates the group: no power of it below the group
/// size is 1.
pub proof fn lemma_multiplier_order(r: int, k: nat)
    requires
        r == 3 || r == 13 || r == 15 || r == 21 || r == 24 || r == 29,
        1 <= k < group_size(),
    ensures
        pow(r, k) % modulus() != 1,
{
    lemma_multiplier_witness(r);
    if pow(r, k) % modulus() == 1 {
        let d = lemma_descent(r, k);
        let (q, j) = lemma_cofactor(d as int);
        let e = ((group_size() as int) / q) as nat;
        lemma_pow_multiplies(r, d, j as nat);
        lemma_pow_of_one_mod(pow(r, d), j as nat);
        assert(d * (j as nat) == e);
        assert(pow(r, e) % modulus() == 1);
        if q == 2 {
            assert(e == 2147483655);
        } else if q == 3 {
            assert(e == 1431655770);
        } else if q == 5 {
            assert(e == 858993462);
        } else if q == 131 {
            assert(e == 32786010);
        } else {
            assert(e == 11790);
        }
    }
}

/// A unit cancels: if `a * inv` is 1 and `a * b` equals `a * c`, all
/// modulo the modulus, then `b` equals `c` modulo it.
proof fn lemma_cancel_unit(a: int, inv: int, b: int, c: int)
    requires
        (a * inv) % modulus() == 1,
        (a * b) % modulus() == (a * c) % modulus(),
    ensures
        b % modulus() == c % modulus(),
{
    let m = modulus();
    lemma_mul_mod_noop_left(a * b, inv, m);
    lemma_mul_mod_noop_left(a * c, inv, m);
    assert((a * b) * inv == (a * inv) * b) by (nonlinear_arith);
    assert((a * c) * inv == (a * inv) * c) by (nonlinear_arith);
    lemma_mul_one_mod(a * inv, b);
    lemma_mul_one_mod(a * inv, c);
}

/// Powers of a multiplier are units: `r^k` times `inverse^k` is 1.
proof fn lemma_power_unit(r: u64, k: nat)
    requires
        is_multiplier(r),
    ensures
        (pow(r as int, k) * pow(inverse_of(r), k)) % modulus() == 1,
{
    lemma_inverse_of(r);
    lemma_pow_distributes(r as int, inverse_of(r), k);
    lemma_pow_of_one_mod(r * inverse_of(r), k);
}

/// Every nonzero value below the modulus is a power `r^k` of a multiplier
/// with `1 <= k <= group_size()`.
pub proof fn lemma_powers_cover(r: u64, x: int)
    requires
        is_multiplier(r),
        1 <= x < modulus(),
    ensures
        exists|k: nat| 1 <= k <= group_size() && #[trigger] (pow(r as int, k) % modulus()) == x,
{
    let m = modulus();
    let n = group_size() as int;
    let f = |k: int| pow(r as int, k as nat) % m;
    let dom = set_int_range(1, n + 1);
    let range = set_int_range(1, m);
    lemma_int_range(1, n + 1);
    lemma_int_range(1, m);
    assert(injective_on(f, dom)) by {
        assert forall|i: int, j: int|
            dom.contains(i) && dom.contains(j) && #[trigger] f(i) == #[trigger] f(j) implies i == j by {
            if i != j {
                let (lo, hi) = if i < j { (i, j) } else { (j, i) };
                let a = pow(r as int, lo as nat);
                let d = (hi - lo) as nat;
                lemma_pow_adds(r as int, lo as nat, d);
                assert(lo as nat + d == hi as nat);
                lemma_power_unit(r, lo as nat);
                assert((a * pow(r as int, d)) % m == (a * 1) % m);
                lemma_cancel_unit(a, pow(inverse_of(r), lo as nat), pow(r as int, d), 1);
                lemma_multiplier_order(r as int, d);
            }
        }
    }
    let img = dom.map(f);
    lemma_map_size(dom, img, f);
    assert(img.subset_of(range)) by {
        assert forall|y: int| img.contains(y) implies range.contains(y) by {
            let k = choose|k: int| dom.contains(k) && y == f(k);
            lemma_power_unit(r, k as nat);
            assert(y == pow(r as int, k as nat) % m);
            assert(0 <= y < m);
            if y == 0 {
                lemma_mul_mod_noop_left(pow(r as int, k as nat), pow(inverse_of(r), k as nat), m);
                assert(0 * pow(inverse_of(r), k as nat) == 0);
                assert(0int % m == 0);
            }
        }
    }
    lemma_subset_equality(img, range);
    assert(range.contains(x));
    assert(img.contains(x));
    let k = choose|k: int| dom.contains(k) && x == f(k);
    assert(pow(r as int, k as nat) % m == x);
}

/// The value of a walk after `k` steps: its start times `r^k`.
proof fn lemma_walk_value(g0: PermState, k: nat)
    requires
        fresh_walk(g0),
        k <= group_size(),
    ensures
        walk(g0, k).current == (g0.start * pow(g0.root as int, k)) % modulus(),
    decreases k,
{
    let m = modulus();
    let r = g0.root as int;
    if k == 0 {
        lemma_pow0(r);
        lemma_small_mod(g0.start as nat, m as nat);
    } else {
        let k1 = (k - 1) as nat;
        lemma_walk_value(g0, k1);
        lemma_walk_facts(g0, k);
        let x = g0.start * pow(r, k1);
        lemma_mul_mod_noop_left(x, r, m);
        lemma_pow_adds(r, k1, 1);
        lemma_pow1(r);
        assert(k1 + 1 == k);
        assert(x * r == g0.start * pow(r, k)) by (nonlinear_arith)
            requires
                x == g0.start * pow(r, k1),
                pow(r, k) == pow(r, k1) * r,
        ;
    }
}

/// Whether the walk from `g0` takes the value `x` within `group_size()`
/// steps.
pub open spec fn walk_reaches(g0: PermState, x: int) -> bool {
    exists|k: nat| 1 <= k <= group_size() && #[trigger] walk(g0, k).current == x
}

/// The walk from any start is a full cycle of the group: it comes back to
/// its start first after `group_size()` steps, and on the way it takes
/// every nonzero value below the modulus.
pub proof fn lemma_walk_cycle(g0: PermState)
    requires
        fresh_walk(g0),
    ensures
        forall|k: nat| 1 <= k < group_size() ==> #[trigger] walk(g0, k).current != g0.start,
        walk(g0, group_size()).current == g0.start,
        forall|x: int| 1 <= x < modulus() ==> #[trigger] walk_reaches(g0, x),
{
    let m = modulus();
    let n = group_size();
    let r = g0.root;
    let ri = r as int;
    lemma_powers_cover(r, g0.start as int);
    let a = choose|a: nat| 1 <= a <= n && #[trigger] (pow(ri, a) % m) == g0.start as int;
    let pa = pow(ri, a);
    // the walk after k steps is r^(a + k)
    assert forall|k: nat| k <= n implies #[trigger] walk(g0, k).current == (pa * pow(ri, k)) % m by {
        lemma_walk_value(g0, k);
        lemma_mul_mod_noop_left(pa, pow(ri, k), m);
    }
    lemma_power_unit(r, a);
    assert forall|k: nat| 1 <= k < n implies #[trigger] walk(g0, k).current != g0.start by {
        assert(walk(g0, k).current == (pa * pow(ri, k)) % m);
        if walk(g0, k).current == g0.start {
            assert((pa * pow(ri, k)) % m == (pa * 1) % m);
            lemma_cancel_unit(pa, pow(inverse_of(r), a), pow(ri, k), 1);
            lemma_multiplier_order(ri, k);
        }
    }
    lemma_multiplier_witness(ri);
    assert(walk(g0, n).current == (pa * pow(ri, n)) % m);
    lemma_mul_mod_noop_right(pa, pow(ri, n), m);
    assert(pa * (pow(ri, n) % m) == pa);
    assert forall|x: int| 1 <= x < m implies #[trigger] walk_reaches(g0, x) by {
        lemma_powers_cover(r, x);
        let b = choose|b: nat| 1 <= b <= n && #[trigger] (pow(ri, b) % m) == x;
        if b > a {
            let k = (b - a) as nat;
            lemma_pow_adds(ri, a, k);
            assert(a + k == b);
            assert(walk(g0, k).current == (pa * pow(ri, k)) % m);
            assert(walk(g0, k).current == x);
        } else {
            let k = (b + n - a) as nat;
            lemma_pow_adds(ri, a, k);
            lemma_pow_adds(ri, b, n);
            assert(a + k == b + n);
            lemma_mul_mod_noop_right(pow(ri, b), pow(ri, n), m);
            assert(pow(ri, b) * (pow(ri, n) % m) == pow(ri, b));
            assert(walk(g0, k).current == (pa * pow(ri, k)) % m);
            assert(walk(g0, k).current == x);
        }
    }
}

/// From a step before the walk's return to its start, one call of `next`
/// yields the first address the walk reaches after that step.
pub(crate) proof fn lemma_next_finds(g0: PermState, k: nat, m: nat) -> (m2: nat)
    requires
        fresh_walk(g0),
        forall|j: nat| 1 <= j < group_size() ==> #[trigger] walk(g0, j).current != g0.start,
        k < m <= group_size(),
        1 <= walk(g0, m).current <= 0xffff_ffff,
    ensures
        k < m2 <= m,
        1 <= walk(g0, m2).current <= 0xffff_ffff,
        perm_next(walk(g0, k)) == (walk(g0, m2), Some(walk(g0, m2).current as u32)),
    decreases m - k,
{
    lemma_walk_facts(g0, k);
    lemma_walk_facts(g0, k + 1);
    let g = walk(g0, k);
    assert(perm_step(g) == walk(g0, k + 1));
    if k > 0 {
        assert(walk(g0, k).current != g0.start);
    }
    let c = walk(g0, k + 1).current;
    if c == 0 || c > 0xffff_ffff {
        lemma_next_finds(g0, k + 1, m)
    } else {
        k + 1
    }
}

/// Successive calls of `next` from a step before the walk's return reach
/// every address the walk takes before it returns.
proof fn lemma_yields(g0: PermState, k: nat, m: nat, n: nat) -> (i: int)
    requires
        fresh_walk(g0),
        forall|j: nat| 1 <= j < group_size() ==> #[trigger] walk(g0, j).current != g0.start,
        k < m <= group_size(),
        1 <= walk(g0, m).current <= 0xffff_ffff,
        n >= m - k,
    ensures
        0 <= i < m - k,
        next_outputs(walk(g0, k), n)[i] == Some(walk(g0, m).current as u32),
        forall|j: int| 0 <= j < i ==> (#[trigger] next_outputs(walk(g0, k), n)[j]) is Some,
    decreases m - k,
{
    let m2 = lemma_next_finds(g0, k, m);
    let outs = next_outputs(walk(g0, k), n);
    let rest = next_outputs(walk(g0, m2), (n - 1) as nat);
    lemma_next_outputs_len(walk(g0, k), n);
    lemma_next_outputs_len(walk(g0, m2), (n - 1) as nat);
    assert(outs == seq![perm_next(walk(g0, k)).1] + rest);
    if m2 == m {
        0
    } else {
        let i2 = lemma_yields(g0, m2, m, (n - 1) as nat);
        assert(outs[i2 + 1] == rest[i2]);
        assert forall|j: int| 0 <= j < i2 + 1 implies (#[trigger] outs[j]) is Some by {
            if j > 0 {
                assert(outs[j] == rest[j - 1]);
            }
        }
        i2 + 1
    }
}

/// The randomised order is a permutation of the address space: before
/// `next` first reports the end of the walk, it yields every nonzero
/// address (and, by `lemma_walk_never_repeats`, each only once; by
/// `lemma_walk_ends`, the end comes within `PRIME_32` calls).
pub proof fn lemma_walk_covers_addresses(seed: u64, a: u32)
    requires
        a != 0,
    ensures
        exists|i: int|
            0 <= i < PRIME_32 && #[trigger] next_outputs(perm_start(seed), PRIME_32 as nat)[i]
                == Some(a) && forall|j: int|
                0 <= j < i ==> (#[trigger] next_outputs(perm_start(seed), PRIME_32 as nat)[j]) is Some,
{
    let g0 = perm_start(seed);
    assert(fresh_walk(g0));
    lemma_walk_cycle(g0);
    assert(walk_reaches(g0, a as int));
    let m = choose|m: nat| 1 <= m <= group_size() && #[trigger] walk(g0, m).current == a as int;
    assert(walk(g0, 0) == g0);
    let i = lemma_yields(g0, 0, m, PRIME_32 as nat);
    assert(next_outputs(perm_start(seed), PRIME_32 as nat)[i] == Some(a));
}

} // verus!
