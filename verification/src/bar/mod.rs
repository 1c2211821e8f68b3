//! The bar: what its segments show, and which outputs have one.

use vstd::prelude::*;

pub mod battery;
pub mod board;
pub mod clock;
pub mod decision;
pub mod hazards;
pub mod media;
pub mod pins;
pub mod popover;
pub mod presence;
pub mod start;
pub mod task;
pub mod tray;
pub mod workspaces;

verus! {

/// Those that are in a list.
pub open spec fn within(list: Seq<u64>) -> spec_fn(u64) -> bool {
    |m: u64| list.contains(m)
}

/// Those that are not in a list.
pub open spec fn outside(list: Seq<u64>) -> spec_fn(u64) -> bool {
    |m: u64| !list.contains(m)
}

/// The list, each of its members once, at the place of its first mention.
pub open spec fn firsts(list: Seq<u64>) -> Seq<u64>
    decreases list.len(),
{
    if list.len() == 0 {
        Seq::empty()
    } else {
        let before = firsts(list.drop_last());
        if before.contains(list.last()) {
            before
        } else {
            before.push(list.last())
        }
    }
}

/// Which bars go and which come when the outputs change.
#[derive(Debug, PartialEq, Eq)]
pub struct Reconcile {
    pub destroy: Vec<u64>,
    pub build: Vec<u64>,
}

/// Keeps one bar for each connected output. A bar is bound to its output: one
/// whose output vanished is destroyed, a new output gets a fresh one.
#[derive(Debug)]
pub struct BarManager {
    bars: Vec<u64>,
}

impl View for BarManager {
    type V = Seq<u64>;

    closed spec fn view(&self) -> Seq<u64> {
        self.bars@
    }
}

fn lists(list: &Vec<u64>, m: u64) -> (r: bool)
    ensures
        r == list@.contains(m),
{
    let mut i: usize = 0;
    while i < list.len()
        invariant
            i <= list@.len(),
            forall|j: int| 0 <= j < i ==> list@[j] != m,
        decreases list@.len() - i,
    {
        if list[i] == m {
            return true;
        }
        i += 1;
    }
    false
}

proof fn lemma_firsts(list: Seq<u64>)
    ensures
        forall|m: u64| firsts(list).contains(m) <==> list.contains(m),
        firsts(list).no_duplicates(),
    decreases list.len(),
{
    if list.len() > 0 {
        let before = list.drop_last();
        lemma_firsts(before);
        assert forall|m: u64| firsts(list).contains(m) <==> list.contains(m) by {
            if list.contains(m) && m != list.last() {
                let i = choose|i: int| 0 <= i < list.len() && list[i] == m;
                assert(before[i] == m);
            }
            if before.contains(m) {
                let i = choose|i: int| 0 <= i < before.len() && before[i] == m;
                assert(list[i] == m);
            }
            assert(list[list.len() - 1] == list.last());
            if !firsts(before).contains(list.last()) {
                let f = firsts(before);
                assert(firsts(list) == f.push(list.last()));
                assert(f.push(list.last())[f.len() as int] == list.last());
                if f.contains(m) {
                    let i = choose|i: int| 0 <= i < f.len() && f[i] == m;
                    assert(f.push(list.last())[i] == m);
                }
            }
        }
    }
}

impl BarManager {
    /// No bars yet.
    pub fn new() -> (r: BarManager)
        ensures
            r@.len() == 0,
    {
        BarManager { bars: Vec::new() }
    }

    /// Follows the outputs that are connected now.
    pub fn sync(&mut self, current: &Vec<u64>) -> (r: Reconcile)
        ensures
            r.destroy@ == old(self)@.filter(outside(current@)),
            r.build@ == firsts(current@).filter(outside(old(self)@)),
            final(self)@ == old(self)@.filter(within(current@)) + r.build@,
    {
        let mut destroy: Vec<u64> = Vec::new();
        let mut kept: Vec<u64> = Vec::new();
        let bars = &self.bars;
        let mut i: usize = 0;
        proof {
            reveal(Seq::filter);
            assert(destroy@ =~= bars@.take(0).filter(outside(current@)));
            assert(kept@ =~= bars@.take(0).filter(within(current@)));
        }
        while i < bars.len()
            invariant
                i <= bars@.len(),
                destroy@ == bars@.take(i as int).filter(outside(current@)),
                kept@ == bars@.take(i as int).filter(within(current@)),
            decreases bars@.len() - i,
        {
            assert(bars@.take(i + 1).drop_last() =~= bars@.take(i as int));
            proof {
                reveal(Seq::filter);
            }
            if lists(current, bars[i]) {
                kept.push(bars[i]);
            } else {
                destroy.push(bars[i]);
            }
            i += 1;
        }
        assert(bars@.take(bars@.len() as int) =~= bars@);
        let mut build: Vec<u64> = Vec::new();
        let mut j: usize = 0;
        proof {
            assert(build@ =~= firsts(current@.take(0)).filter(outside(bars@)));
        }
        while j < current.len()
            invariant
                j <= current@.len(),
                build@ == firsts(current@.take(j as int)).filter(outside(bars@)),
            decreases current@.len() - j,
        {
            let ghost seen = firsts(current@.take(j as int));
            let ghost m = current@[j as int];
            assert(current@.take(j + 1).drop_last() =~= current@.take(j as int));
            proof {
                reveal(Seq::filter);
                if !seen.contains(m) {
                    assert(seen.push(m).drop_last() =~= seen);
                }
                if build@.contains(m) {
                    let k = choose|k: int| 0 <= k < build@.len() && build@[k] == m;
                    seen.lemma_filter_pred(outside(bars@), k);
                    seen.lemma_filter_contains_rev(outside(bars@), m);
                }
                if seen.contains(m) && !bars@.contains(m) {
                    let k = choose|k: int| 0 <= k < seen.len() && seen[k] == m;
                    seen.lemma_filter_contains(outside(bars@), k);
                }
            }
            if !lists(bars, current[j]) && !lists(&build, current[j]) {
                build.push(current[j]);
            }
            j += 1;
        }
        assert(current@.take(current@.len() as int) =~= current@);
        let ghost held = kept@;
        let mut bars: Vec<u64> = kept;
        let mut k: usize = 0;
        while k < build.len()
            invariant
                k <= build@.len(),
                bars@ == held + build@.take(k as int),
            decreases build@.len() - k,
        {
            bars.push(build[k]);
            assert(build@.take(k + 1) =~= build@.take(k as int).push(build@[k as int]));
            assert(bars@ =~= held + build@.take(k + 1));
            k += 1;
        }
        assert(build@.take(build@.len() as int) =~= build@);
        self.bars = bars;
        Reconcile { destroy, build }
    }
}

/// The bars after the outputs changed.
pub open spec fn synced(bars: Seq<u64>, current: Seq<u64>) -> Seq<u64> {
    bars.filter(within(current)) + firsts(current).filter(outside(bars))
}

/// After the outputs changed every connected output has exactly one bar, and
/// no other has one.
pub proof fn law_one_bar_for_each_output(bars: Seq<u64>, current: Seq<u64>, m: u64)
    requires
        bars.no_duplicates(),
    ensures
        synced(bars, current).contains(m) <==> current.contains(m),
        synced(bars, current).no_duplicates(),
{
    let kept = bars.filter(within(current));
    let built = firsts(current).filter(outside(bars));
    lemma_firsts(current);
    lemma_filtered(bars, within(current));
    lemma_filtered(firsts(current), outside(bars));
    let all = synced(bars, current);
    assert forall|i: int, j: int| 0 <= i < j < all.len() implies all[i] != all[j] by {
        if i < kept.len() && j >= kept.len() {
            assert(kept.contains(all[i]));
            assert(built[j - kept.len()] == all[j]);
            assert(built.contains(all[j]));
        } else if i >= kept.len() {
            assert(built[i - kept.len()] == all[i]);
            assert(built[j - kept.len()] == all[j]);
        }
    }
    if all.contains(m) {
        let i = choose|i: int| 0 <= i < all.len() && all[i] == m;
        if i < kept.len() {
            assert(kept.contains(m));
        } else {
            assert(built[i - kept.len()] == m);
            assert(built.contains(m));
        }
    }
    if kept.contains(m) {
        let i = choose|i: int| 0 <= i < kept.len() && kept[i] == m;
        assert(all[i] == m);
    }
    if built.contains(m) {
        let i = choose|i: int| 0 <= i < built.len() && built[i] == m;
        assert(all[kept.len() + i] == m);
    }
}

/// Filtering keeps exactly the members that pass, and repeats none.
proof fn lemma_filtered(list: Seq<u64>, keep: spec_fn(u64) -> bool)
    ensures
        forall|m: u64| #[trigger] list.filter(keep).contains(m) <==> list.contains(m) && keep(m),
        list.no_duplicates() ==> list.filter(keep).no_duplicates(),
    decreases list.len(),
{
    reveal(Seq::filter);
    if list.len() > 0 {
        let head = list.drop_last();
        let f = head.filter(keep);
        let x = list.last();
        lemma_filtered(head, keep);
        assert forall|m: u64| #[trigger]
            list.filter(keep).contains(m) <==> list.contains(m) && keep(m) by {
            assert(list[list.len() - 1] == x);
            if list.contains(m) && m != x {
                let i = choose|i: int| 0 <= i < list.len() && list[i] == m;
                assert(head[i] == m);
            }
            if head.contains(m) {
                let i = choose|i: int| 0 <= i < head.len() && head[i] == m;
                assert(list[i] == m);
            }
            if keep(x) {
                assert(f.push(x)[f.len() as int] == x);
                if f.contains(m) {
                    let i = choose|i: int| 0 <= i < f.len() && f[i] == m;
                    assert(f.push(x)[i] == m);
                }
            }
        }
        if list.no_duplicates() {
            assert(!f.contains(x)) by {
                if f.contains(x) {
                    let i = choose|i: int| 0 <= i < head.len() && head[i] == x;
                    assert(list[i] == list[list.len() - 1]);
                }
            }
        }
    }
}

/// A bar goes exactly where its output is gone, and one comes exactly where an
/// output has none; the bars that stay keep their order, and stand first.
pub proof fn law_which_bars_go_and_come(bars: Seq<u64>, current: Seq<u64>, m: u64)
    ensures
        bars.filter(outside(current)).contains(m) <==> bars.contains(m) && !current.contains(m),
        firsts(current).filter(outside(bars)).contains(m) <==> current.contains(m)
            && !bars.contains(m),
        firsts(current).filter(outside(bars)).no_duplicates(),
        bars.filter(within(current)).contains(m) <==> bars.contains(m) && current.contains(m),
        synced(bars, current).len() == bars.filter(within(current)).len() + firsts(current).filter(
            outside(bars),
        ).len(),
        synced(bars, current).take(bars.filter(within(current)).len() as int) == bars.filter(
            within(current),
        ),
{
    lemma_firsts(current);
    lemma_filtered(bars, within(current));
    lemma_filtered(bars, outside(current));
    lemma_filtered(firsts(current), outside(bars));
    assert(synced(bars, current).take(bars.filter(within(current)).len() as int) =~= bars.filter(
        within(current),
    ));
}

/// Outputs that are listed once each are taken in the order they are listed.
pub proof fn law_bars_come_in_the_order_of_the_outputs(current: Seq<u64>)
    requires
        current.no_duplicates(),
    ensures
        firsts(current) == current,
    decreases current.len(),
{
    if current.len() > 0 {
        let head = current.drop_last();
        assert(head.no_duplicates());
        law_bars_come_in_the_order_of_the_outputs(head);
        assert(!head.contains(current.last())) by {
            if head.contains(current.last()) {
                let i = choose|i: int| 0 <= i < head.len() && head[i] == current.last();
                assert(current[i] == current[current.len() - 1]);
            }
        }
        assert(head.push(current.last()) =~= current);
    } else {
        assert(current =~= Seq::empty());
    }
}

} // verus!
