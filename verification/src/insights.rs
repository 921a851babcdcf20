//! The tips and trivia shown while a scan runs, in a shuffled order.

use vstd::prelude::*;

verus! {

broadcast use vstd::seq_lib::group_to_multiset_ensures;

/// Declares the random number generator of `rand` that the shuffles draw from.
#[verifier::external_type_specification]
#[verifier::external_body]
pub struct ExThreadRng(rand::rngs::ThreadRng);

/// A handle to the thread-local generator (`rand::rng`); nothing is promised
/// of its state.
#[verifier::external_body]
fn thread_rng() -> rand::rngs::ThreadRng {
    rand::rng()
}

/// Shuffles the messages in place (`SliceRandom::shuffle`): the result is a
/// permutation of the messages; which one is left to chance.
#[verifier::external_body]
fn shuffle(v: &mut Vec<&'static str>, rng: &mut rand::rngs::ThreadRng)
    ensures
        final(v)@.to_multiset() == old(v)@.to_multiset(),
        final(v)@.len() == old(v)@.len(),
{
    rand::seq::SliceRandom::shuffle(v.as_mut_slice(), rng);
}

/// A fair coin (`Rng::random_ratio(1, 2)`); its outcome is left to chance.
#[verifier::external_body]
fn fair_coin(rng: &mut rand::rngs::ThreadRng) -> bool {
    rand::Rng::random_ratio(rng, 1, 2)
}

/// Operational tips about the scanner.
pub open spec fn spec_scanner_tips() -> Seq<&'static str> {
    seq![
        "Press 'q' to stop and print results",
        "Running with root enables faster raw socket scanning",
        "Ranges (e.g. 5-11ms) show min/max RTT latency",
        "Timings with ~ are averages of consistent RTT results",
        "High RTT (500ms+) on local scans suggests mobile/IoT",
        "The '--redact' flag is your friend for output sharing",
    ]
}

/// Networking trivia.
pub open spec fn spec_tech_trivia() -> Seq<&'static str> {
    seq![
        "The first 'bug' was a literal moth in a Harvard Mark II",
        "1.1.1.1 is actually owned by APNIC, not Cloudflare",
        "Ping is named after the sound of a submarine's sonar",
        "RFC 1149: Standard for Avian IP (actual pigeons)",
    ]
}

/// Developer humor.
pub open spec fn spec_dev_humor() -> Seq<&'static str> {
    seq![
        "UDP: I'd tell you a joke, but you might not get it",
        "TCP: I'll tell you a joke. Do you want to hear a joke?",
        "The scan works on my machine though",
        "The 'S' in IoT stands for Security",
        "Hardware is the part you kick when the software fails",
    ]
}

/// Every message that can be shown.
pub open spec fn spec_all_insights() -> Seq<&'static str> {
    spec_scanner_tips() + spec_tech_trivia() + spec_dev_humor()
}

fn scanner_tips() -> (v: Vec<&'static str>)
    ensures
        v@ == spec_scanner_tips(),
{
    let mut v: Vec<&'static str> = Vec::new();
    v.push("Press 'q' to stop and print results");
    v.push("Running with root enables faster raw socket scanning");
    v.push("Ranges (e.g. 5-11ms) show min/max RTT latency");
    v.push("Timings with ~ are averages of consistent RTT results");
    v.push("High RTT (500ms+) on local scans suggests mobile/IoT");
    v.push("The '--redact' flag is your friend for output sharing");
    assert(v@ =~= spec_scanner_tips());
    v
}

fn flavor_texts() -> (v: Vec<&'static str>)
    ensures
        v@ == spec_tech_trivia() + spec_dev_humor(),
{
    let mut v: Vec<&'static str> = Vec::new();
    v.push("The first 'bug' was a literal moth in a Harvard Mark II");
    v.push("1.1.1.1 is actually owned by APNIC, not Cloudflare");
    v.push("Ping is named after the sound of a submarine's sonar");
    v.push("RFC 1149: Standard for Avian IP (actual pigeons)");
    v.push("UDP: I'd tell you a joke, but you might not get it");
    v.push("TCP: I'll tell you a joke. Do you want to hear a joke?");
    v.push("The scan works on my machine though");
    v.push("The 'S' in IoT stands for Security");
    v.push("Hardware is the part you kick when the software fails");
    assert(v@ =~= spec_tech_trivia() + spec_dev_humor());
    v
}
/// The merge of `a` and `b` by the coins `coins`: while both lists have
/// elements, slot `k` takes the next element of `a` when `coins[k]` is true
/// and the next element of `b` otherwise (a slot without a coin takes from
/// `b`); once one list is used up, the rest of the other follows in order.
pub open spec fn spec_merge(a: Seq<&'static str>, b: Seq<&'static str>, coins: Seq<bool>) -> Seq<&'static str>
    decreases a.len() + b.len(),
{
    if a.len() == 0 {
        b
    } else if b.len() == 0 {
        a
    } else {
        let tail = if coins.len() > 0 {
            coins.drop_first()
        } else {
            coins
        };
        if coins.len() > 0 && coins[0] {
            seq![a[0]] + spec_merge(a.drop_first(), b, tail)
        } else {
            seq![b[0]] + spec_merge(a, b.drop_first(), tail)
        }
    }
}

/// A merge holds every element of both lists, each as often as in them.
pub proof fn lemma_merge_contents(a: Seq<&'static str>, b: Seq<&'static str>, coins: Seq<bool>)
    ensures
        spec_merge(a, b, coins).len() == a.len() + b.len(),
        spec_merge(a, b, coins).to_multiset() == a.to_multiset().add(b.to_multiset()),
    decreases a.len() + b.len(),
{
    if a.len() == 0 {
        assert(a =~= Seq::<&'static str>::empty());
        assert(a.to_multiset().add(b.to_multiset()) =~= b.to_multiset());
    } else if b.len() == 0 {
        assert(b =~= Seq::<&'static str>::empty());
        assert(a.to_multiset().add(b.to_multiset()) =~= a.to_multiset());
    } else {
        let tail = if coins.len() > 0 {
            coins.drop_first()
        } else {
            coins
        };
        if coins.len() > 0 && coins[0] {
            let rest = a.drop_first();
            lemma_merge_contents(rest, b, tail);
            let m = spec_merge(rest, b, tail);
            vstd::seq_lib::lemma_multiset_commutative(seq![a[0]], m);
            vstd::seq_lib::lemma_multiset_commutative(seq![a[0]], rest);
            assert(seq![a[0]] + rest =~= a);
            assert(seq![a[0]].to_multiset() =~= vstd::multiset::Multiset::<&'static str>::empty().insert(a[0]));
            assert(spec_merge(a, b, coins).to_multiset() =~= a.to_multiset().add(b.to_multiset()));
        } else {
            let rest = b.drop_first();
            lemma_merge_contents(a, rest, tail);
            let m = spec_merge(a, rest, tail);
            vstd::seq_lib::lemma_multiset_commutative(seq![b[0]], m);
            vstd::seq_lib::lemma_multiset_commutative(seq![b[0]], rest);
            assert(seq![b[0]] + rest =~= b);
            assert(seq![b[0]].to_multiset() =~= vstd::multiset::Multiset::<&'static str>::empty().insert(b[0]));
            assert(spec_merge(a, b, coins).to_multiset() =~= a.to_multiset().add(b.to_multiset()));
        }
    }
}

/// Merges the tips and the other messages by the coins: while both lists
/// have elements, slot `k` takes the next tip when `coins[k]` is true and the
/// next other message otherwise (a slot without a coin takes the other
/// message); then the rest of the list that is left follows in order.
pub fn merge_by_coins(tips: Vec<&'static str>, flavor: Vec<&'static str>, coins: &Vec<bool>) -> (out: Vec<&'static str>)
    ensures
        out@ == spec_merge(tips@, flavor@, coins@),
{
    let mut out: Vec<&'static str> = Vec::new();
    let mut ia: usize = 0;
    let mut ib: usize = 0;
    let mut kc: usize = 0;
    assert(tips@.skip(0) =~= tips@);
    assert(flavor@.skip(0) =~= flavor@);
    assert(coins@.skip(0) =~= coins@);
    assert(out@ + spec_merge(tips@, flavor@, coins@) =~= spec_merge(tips@, flavor@, coins@));
    while ia < tips.len() && ib < flavor.len()
        invariant
            ia <= tips@.len(),
            ib <= flavor@.len(),
            kc <= coins@.len(),
            out@ + spec_merge(tips@.skip(ia as int), flavor@.skip(ib as int), coins@.skip(kc as int))
                == spec_merge(tips@, flavor@, coins@),
        decreases tips@.len() + flavor@.len() - ia - ib,
    {
        let ghost a = tips@.skip(ia as int);
        let ghost b = flavor@.skip(ib as int);
        let ghost c = coins@.skip(kc as int);
        let ghost o = out@;
        let coin = kc < coins.len() && coins[kc];
        if kc < coins.len() {
            assert(c.drop_first() =~= coins@.skip(kc + 1));
            kc = kc + 1;
        }
        if coin {
            assert(a.drop_first() =~= tips@.skip(ia + 1));
            out.push(tips[ia]);
            ia = ia + 1;
        } else {
            assert(b.drop_first() =~= flavor@.skip(ib + 1));
            out.push(flavor[ib]);
            ib = ib + 1;
        }
        assert(out@ + spec_merge(tips@.skip(ia as int), flavor@.skip(ib as int), coins@.skip(kc as int))
            =~= o + spec_merge(a, b, c));
    }
    let ghost mid = out@;
    let ghost rest_a = tips@.skip(ia as int);
    let ghost rest_b = flavor@.skip(ib as int);
    assert(spec_merge(rest_a, rest_b, coins@.skip(kc as int)) =~= rest_a + rest_b) by {
        if ia == tips@.len() {
            assert(rest_a =~= Seq::<&'static str>::empty());
        } else {
            assert(rest_b =~= Seq::<&'static str>::empty());
        }
    }
    let ia0 = ia;
    while ia < tips.len()
        invariant
            ia0 <= ia <= tips@.len(),
            out@ == mid + tips@.subrange(ia0 as int, ia as int),
        decreases tips@.len() - ia,
    {
        out.push(tips[ia]);
        ia = ia + 1;
        assert(out@ =~= mid + tips@.subrange(ia0 as int, ia as int));
    }
    let ghost mid2 = out@;
    let ib0 = ib;
    while ib < flavor.len()
        invariant
            ib0 <= ib <= flavor@.len(),
            out@ == mid2 + flavor@.subrange(ib0 as int, ib as int),
        decreases flavor@.len() - ib,
    {
        out.push(flavor[ib]);
        ib = ib + 1;
        assert(out@ =~= mid2 + flavor@.subrange(ib0 as int, ib as int));
    }
    assert(tips@.subrange(ia0 as int, tips@.len() as int) =~= rest_a);
    assert(flavor@.subrange(ib0 as int, flavor@.len() as int) =~= rest_b);
    assert(out@ =~= mid + (rest_a + rest_b));
    out
}

/// Tosses `n` fair coins.
fn draw_coins(rng: &mut rand::rngs::ThreadRng, n: usize) -> (coins: Vec<bool>)
    ensures
        coins@.len() == n,
{
    let mut coins: Vec<bool> = Vec::new();
    let mut i: usize = 0;
    while i < n
        invariant
            i <= n,
            coins@.len() == i,
        decreases n - i,
    {
        coins.push(fair_coin(rng));
        i = i + 1;
    }
    coins
}

/// The messages shown while a scan runs: each tip and each piece of trivia
/// or humor exactly once; the tips and the other messages are each shuffled,
/// then merged by fair coins (`merge_by_coins`), one per slot, while both
/// lists last.
pub fn get_shuffled_insights() -> (out: Vec<&'static str>)
    ensures
        out@.len() == spec_all_insights().len(),
        out@.to_multiset() == spec_all_insights().to_multiset(),
        exists|tips: Seq<&'static str>, flavor: Seq<&'static str>, coins: Seq<bool>|
            tips.to_multiset() == spec_scanner_tips().to_multiset() && flavor.to_multiset() == (
            spec_tech_trivia() + spec_dev_humor()).to_multiset() && coins.len() == spec_all_insights().len()
                && out@ == spec_merge(tips, flavor, coins),
{
    let mut rng = thread_rng();
    let mut tips = scanner_tips();
    shuffle(&mut tips, &mut rng);
    let mut flavor = flavor_texts();
    shuffle(&mut flavor, &mut rng);
    let total = tips.len() + flavor.len();
    let coins = draw_coins(&mut rng, total);
    let ghost tv = tips@;
    let ghost fv = flavor@;
    let out = merge_by_coins(tips, flavor, &coins);
    proof {
        lemma_merge_contents(tv, fv, coins@);
        vstd::seq_lib::lemma_multiset_commutative(spec_scanner_tips(), spec_tech_trivia() + spec_dev_humor());
        assert(spec_all_insights() =~= spec_scanner_tips() + (spec_tech_trivia() + spec_dev_humor()));
    }
    out
}

} // verus!
