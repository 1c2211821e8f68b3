//! The items of the tray, in a stable order.

use vstd::prelude::*;
use vstd::string::*;
use crate::bar::tray::icon::IconSource;
use crate::bar::tray::menu::MenuItem;
use crate::order::{
    alphabetic, alphabetically, is_stable_sort, lemma_alphabetic_antisymmetric,
    lemma_alphabetic_total, lemma_alphabetic_transitive, lemma_filter_none, lemma_sorted_exists,
    lemma_stable_sort_is_unique, peers, sort, sorted, Ranked,
};
use crate::text::same;

verus! {

/// How long an item may take to be activated, in seconds.
pub const ACTIVATE_TIMEOUT: u64 = 2;

/// How long an item may take to be told that its menu is about to show, in
/// seconds.
pub const ABOUT_TO_SHOW_TIMEOUT: u64 = 1;

/// One item of the tray.
#[derive(Debug, PartialEq, Eq)]
pub struct TrayItem {
    /// Its address on the bus.
    pub address: String,
    /// The id its application chose, stable across restarts.
    pub id: String,
    pub title: Option<String>,
    /// The title of its tooltip.
    pub tooltip: Option<String>,
    pub icon: IconSource,
    /// It has a menu and nothing else.
    pub item_is_menu: bool,
    /// Where its menu is found.
    pub menu_path: Option<String>,
    /// Its menu, once it was fetched.
    pub menu: Option<Vec<MenuItem>>,
}

impl Ranked for TrayItem {
    /// By id, then by address.
    open spec fn leq(&self, other: &Self) -> bool {
        if self.id@ != other.id@ {
            alphabetic(self.id@, other.id@)
        } else {
            alphabetic(self.address@, other.address@)
        }
    }

    proof fn total(a: &Self, b: &Self) {
        lemma_alphabetic_total(a.id@, b.id@);
        lemma_alphabetic_total(a.address@, b.address@);
    }

    proof fn transitive(a: &Self, b: &Self, c: &Self) {
        if a.id@ == b.id@ && b.id@ == c.id@ {
            lemma_alphabetic_transitive(a.address@, b.address@, c.address@);
        } else if a.id@ != b.id@ && b.id@ != c.id@ {
            if a.id@ == c.id@ {
                lemma_alphabetic_antisymmetric(a.id@, b.id@);
            } else {
                lemma_alphabetic_transitive(a.id@, b.id@, c.id@);
            }
        }
    }

    fn no_later(&self, other: &Self) -> (r: bool) {
        if same(self.id.as_str(), other.id.as_str()) {
            alphabetically(self.address.as_str(), other.address.as_str())
        } else {
            alphabetically(self.id.as_str(), other.id.as_str())
        }
    }
}

/// The items in the order of the bar: by id, then by address.
pub fn snapshot(items: Vec<TrayItem>) -> (r: Vec<TrayItem>)
    ensures
        is_stable_sort(r@, items@),
        r@ == sorted(items@),
{
    sort(items)
}

/// The first item with an address.
pub open spec fn at_address(items: Seq<TrayItem>, address: Seq<char>) -> Option<TrayItem>
    decreases items.len(),
{
    if items.len() == 0 {
        None
    } else if items[0].address@ == address {
        Some(items[0])
    } else {
        at_address(items.drop_first(), address)
    }
}

/// The item with an address.
pub fn item<'a>(items: &'a Vec<TrayItem>, address: &str) -> (r: Option<&'a TrayItem>)
    ensures
        match r {
            Some(i) => at_address(items@, address@) == Some(*i),
            None => at_address(items@, address@) is None,
        },
{
    let mut i: usize = 0;
    assert(items@.skip(0) =~= items@);
    while i < items.len()
        invariant
            i <= items@.len(),
            at_address(items@, address@) == at_address(items@.skip(i as int), address@),
        decreases items@.len() - i,
    {
        assert(items@.skip(i as int).drop_first() =~= items@.skip(i + 1));
        if same(items[i].address.as_str(), address) {
            return Some(&items[i]);
        }
        i += 1;
    }
    None
}

/// No two items share id and address.
pub open spec fn distinct(items: Seq<TrayItem>) -> bool {
    forall|i: int, j: int|
        #![trigger items[i], items[j]]
        0 <= i < j < items.len() ==> items[i].id@ != items[j].id@ || items[i].address@
            != items[j].address@
}

/// The order of the bar does not depend on the order in which the items were
/// handed over, as long as no two share id and address.
pub proof fn law_the_order_is_stable(a: Seq<TrayItem>, b: Seq<TrayItem>)
    requires
        a.to_multiset() == b.to_multiset(),
        distinct(a),
    ensures
        sorted(a) == sorted(b),
{
    lemma_distinct_passes_on(a, b);
    lemma_sorted_exists(a);
    let out = sorted(a);
    assert forall|x: TrayItem| #[trigger] out.filter(peers(x)) == b.filter(peers(x)) by {
        assert(out.filter(peers(x)) == a.filter(peers(x)));
        if exists|i: int| 0 <= i < a.len() && peers(x)(#[trigger] a[i]) {
            let i = choose|i: int| 0 <= i < a.len() && peers(x)(#[trigger] a[i]);
            lemma_same_members(a, b, a[i]);
            let j = choose|j: int| 0 <= j < b.len() && b[j] == a[i];
            lemma_single_peer(a, x, i);
            lemma_single_peer(b, x, j);
        } else {
            assert forall|j: int| 0 <= j < b.len() implies !peers(x)(#[trigger] b[j]) by {
                lemma_same_members(a, b, b[j]);
                if a.contains(b[j]) {
                    let i = choose|i: int| 0 <= i < a.len() && a[i] == b[j];
                    assert(!peers(x)(a[i]));
                }
            }
            lemma_filter_none(a, peers(x));
            lemma_filter_none(b, peers(x));
        }
    }
    assert(is_stable_sort(out, b));
    lemma_stable_sort_is_unique(out, b);
}

proof fn lemma_same_members(a: Seq<TrayItem>, b: Seq<TrayItem>, x: TrayItem)
    requires
        a.to_multiset() == b.to_multiset(),
    ensures
        a.contains(x) <==> b.contains(x),
{
    a.to_multiset_ensures();
    b.to_multiset_ensures();
    assert(a.to_multiset().count(x) > 0 <==> a.contains(x));
    assert(b.to_multiset().count(x) > 0 <==> b.contains(x));
}

proof fn lemma_distinct_passes_on(a: Seq<TrayItem>, b: Seq<TrayItem>)
    requires
        a.to_multiset() == b.to_multiset(),
        distinct(a),
    ensures
        distinct(b),
{
    assert(a.no_duplicates());
    a.lemma_multiset_has_no_duplicates();
    b.lemma_multiset_has_no_duplicates_conv();
    assert forall|i: int, j: int|
        #![trigger b[i], b[j]]
        0 <= i < j < b.len() implies b[i].id@ != b[j].id@ || b[i].address@ != b[j].address@ by {
        lemma_same_members(a, b, b[i]);
        lemma_same_members(a, b, b[j]);
        assert(b.contains(b[i]) && b.contains(b[j]));
        let k = choose|k: int| 0 <= k < a.len() && a[k] == b[i];
        let m = choose|m: int| 0 <= m < a.len() && a[m] == b[j];
        assert(b[i] != b[j]);
        assert(a[k] != a[m]);
    }
}

proof fn lemma_single_peer(s: Seq<TrayItem>, x: TrayItem, i: int)
    requires
        distinct(s),
        0 <= i < s.len(),
        peers(x)(s[i]),
    ensures
        s.filter(peers(x)) == seq![s[i]],
    decreases s.len(),
{
    reveal(Seq::filter);
    assert forall|j: int| 0 <= j < s.len() && j != i implies !peers(x)(#[trigger] s[j]) by {
        if peers(x)(s[j]) {
            TrayItem::transitive(&s[i], &x, &s[j]);
            TrayItem::transitive(&s[j], &x, &s[i]);
            if s[i].id@ != s[j].id@ {
                lemma_alphabetic_antisymmetric(s[i].id@, s[j].id@);
            } else {
                lemma_alphabetic_antisymmetric(s[i].address@, s[j].address@);
            }
            assert(i < j || j < i);
        }
    }
    let head = s.drop_last();
    if i == s.len() - 1 {
        assert forall|j: int| 0 <= j < head.len() implies !peers(x)(#[trigger] head[j]) by {
            assert(head[j] == s[j]);
        }
        lemma_filter_none(head, peers(x));
        assert(s.filter(peers(x)) =~= seq![s[i]]);
    } else {
        assert(head[i] == s[i]);
        assert(distinct(head)) by {
            assert forall|p: int, q: int|
                #![trigger head[p], head[q]]
                0 <= p < q < head.len() implies head[p].id@ != head[q].id@ || head[p].address@
                != head[q].address@ by {
                assert(head[p] == s[p] && head[q] == s[q]);
            }
        }
        lemma_single_peer(head, x, i);
        assert(!peers(x)(s[s.len() - 1]));
    }
}

/// The bar has exactly the items that were handed over, by id in the order of
/// the alphabet and by address where the id is the same.
pub proof fn law_items_stand_by_id_then_address(items: Seq<TrayItem>, i: int, j: int)
    requires
        0 <= i < j < sorted(items).len(),
    ensures
        ({
            let a = sorted(items)[i];
            let b = sorted(items)[j];
            &&& a.id@ != b.id@ ==> alphabetic(a.id@, b.id@)
            &&& a.id@ == b.id@ ==> alphabetic(a.address@, b.address@)
        }),
        sorted(items).len() == items.len(),
{
    lemma_sorted_exists(items);
    assert(is_stable_sort(sorted(items), items));
    sorted(items).to_multiset_ensures();
    items.to_multiset_ensures();
    assert(sorted(items).len() == sorted(items).to_multiset().len());
}

/// The item found at an address is the first that has it, and none is found
/// only where none has.
pub proof fn law_the_first_item_at_an_address(items: Seq<TrayItem>, address: Seq<char>, k: int)
    ensures
        0 <= k < items.len() && items[k].address@ == address && (forall|j: int|
            0 <= j < k ==> (#[trigger] items[j]).address@ != address) ==> at_address(items, address)
            == Some(items[k]),
        (forall|j: int| 0 <= j < items.len() ==> (#[trigger] items[j]).address@ != address)
            ==> at_address(items, address) is None,
    decreases items.len(),
{
    if items.len() > 0 && items[0].address@ != address {
        let rest = items.drop_first();
        assert(forall|j: int| 0 <= j < rest.len() ==> #[trigger] rest[j] == items[j + 1]);
        law_the_first_item_at_an_address(rest, address, k - 1);
        if 0 < k < items.len() {
            assert(rest[k - 1] == items[k]);
        }
    }
}

} // verus!
