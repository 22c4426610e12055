//! Vertical placement: the cache of what has been laid out, the anchor rule
//! and the order in which linked elements are drawn.

use vstd::prelude::*;
use crate::deep_print_schema::Element;
use crate::draw::opt_text;
use crate::graph::{drawing_order, has_cycle, lemma_drawing_order_puts_anchors_first, links_wf};
use crate::text::same_text;
use crate::units::{clamp, sat_add};

verus! {

/// Where an element was drawn and how high it turned out.
pub struct Placement {
    pub id: String,
    pub y: i64,
    pub height: i64,
}

/// The latest placement under `id` among the first `k` entries, as its top
/// and its height.
pub open spec fn latest(entries: Seq<Placement>, id: Seq<char>, k: int) -> Option<(i64, i64)>
    decreases k,
{
    if k <= 0 || k > entries.len() {
        None
    } else if entries[k - 1].id@ == id {
        Some((entries[k - 1].y, entries[k - 1].height))
    } else {
        latest(entries, id, k - 1)
    }
}

/// The placements of one rendering, by element id.
pub struct LayoutCache {
    pub entries: Vec<Placement>,
}

impl View for LayoutCache {
    type V = Map<Seq<char>, (i64, i64)>;

    open spec fn view(&self) -> Map<Seq<char>, (i64, i64)> {
        Map::new(
            |id: Seq<char>| latest(self.entries@, id, self.entries@.len() as int) is Some,
            |id: Seq<char>| latest(self.entries@, id, self.entries@.len() as int).unwrap(),
        )
    }
}

impl LayoutCache {
    /// A cache without placements.
    pub fn new() -> (cache: LayoutCache)
        ensures
            cache@ == Map::<Seq<char>, (i64, i64)>::empty(),
    {
        let cache = LayoutCache { entries: Vec::new() };
        assert(cache@ =~= Map::<Seq<char>, (i64, i64)>::empty());
        cache
    }

    /// The placement recorded under `id`.
    pub fn get(&self, id: &str) -> (r: Option<(i64, i64)>)
        ensures
            match r {
                Some(p) => self@.contains_key(id@) && self@[id@] == p,
                None => !self@.contains_key(id@),
            },
    {
        let mut k: usize = self.entries.len();
        while k > 0
            invariant
                k <= self.entries.len(),
                latest(self.entries@, id@, self.entries@.len() as int) == latest(
                    self.entries@,
                    id@,
                    k as int,
                ),
            decreases k,
        {
            if same_text(self.entries[k - 1].id.as_str(), id) {
                return Some((self.entries[k - 1].y, self.entries[k - 1].height));
            }
            k -= 1;
        }
        None
    }

    /// Records a placement under `id`, in place of an earlier one.
    pub fn insert(&mut self, id: String, y: i64, height: i64)
        ensures
            final(self)@ == old(self)@.insert(id@, (y, height)),
    {
        let ghost key = id@;
        self.entries.push(Placement { id, y, height });
        assert(self.entries@.drop_last() =~= old(self).entries@);
        assert forall|other: Seq<char>|
            latest(self.entries@, other, self.entries@.len() as int) == (if other == key {
                Some((y, height))
            } else {
                latest(old(self).entries@, other, old(self).entries@.len() as int)
            }) by {
            if other != key {
                lemma_latest_prefix(
                    self.entries@,
                    old(self).entries@,
                    other,
                    old(self).entries@.len() as int,
                );
            }
        }
        assert(self@ =~= old(self)@.insert(key, (y, height)));
    }
}

/// `latest` looks at the first `k` entries only.
pub proof fn lemma_latest_prefix(a: Seq<Placement>, b: Seq<Placement>, id: Seq<char>, k: int)
    requires
        0 <= k <= a.len(),
        k <= b.len(),
        forall|i: int| 0 <= i < k ==> a[i] == b[i],
    ensures
        latest(a, id, k) == latest(b, id, k),
    decreases k,
{
    if k > 0 {
        lemma_latest_prefix(a, b, id, k - 1);
    }
}

/// The top of an element: below the bottom of its anchor by the element's
/// own `y` where the anchor has been placed, and at the element's own `y`
/// from the top of the canvas where it has no anchor or the anchor is not
/// in the cache.
pub open spec fn anchored_y(
    own_y: i64,
    linked_to: Option<Seq<char>>,
    cache: Map<Seq<char>, (i64, i64)>,
) -> int {
    match linked_to {
        Some(target) => if cache.contains_key(target) {
            clamp(clamp(cache[target].0 + cache[target].1) + own_y)
        } else {
            own_y as int
        },
        None => own_y as int,
    }
}

/// The bottom of the anchor, zero where there is none.
pub open spec fn anchor_bottom(
    linked_to: Option<Seq<char>>,
    cache: Map<Seq<char>, (i64, i64)>,
) -> int {
    match linked_to {
        Some(target) => if cache.contains_key(target) {
            clamp(cache[target].0 + cache[target].1)
        } else {
            0
        },
        None => 0,
    }
}

/// The top of a linked element is the top of its anchor, plus the height of
/// the anchor, plus the element's own `y`, as long as those sums are lengths
/// that can be held.
pub proof fn lemma_anchor_arithmetic(
    own_y: i64,
    target: Seq<char>,
    cache: Map<Seq<char>, (i64, i64)>,
)
    requires
        cache.contains_key(target),
        i64::MIN <= cache[target].0 + cache[target].1 <= i64::MAX,
        i64::MIN <= cache[target].0 + cache[target].1 + own_y <= i64::MAX,
    ensures
        anchored_y(own_y, Some(target), cache) == cache[target].0 + cache[target].1 + own_y,
{
}

/// An element without a link, or with a link to an id that has not been
/// placed, stands at its own `y`.
pub proof fn lemma_unanchored_is_absolute(
    own_y: i64,
    linked_to: Option<Seq<char>>,
    cache: Map<Seq<char>, (i64, i64)>,
)
    requires
        match linked_to {
            Some(target) => !cache.contains_key(target),
            None => true,
        },
    ensures
        anchored_y(own_y, linked_to, cache) == own_y,
{
}

/// Reads the top of an element off the cache, with the bottom of its anchor.
pub fn place(own_y: i64, linked_to: &Option<String>, cache: &LayoutCache) -> (r: (i64, i64))
    ensures
        r.0 == anchored_y(own_y, opt_text(*linked_to), cache@),
        r.1 == anchor_bottom(opt_text(*linked_to), cache@),
{
    match linked_to {
        Some(target) => match cache.get(target.as_str()) {
            Some((target_y, target_h)) => {
                let bottom = sat_add(target_y, target_h);
                (sat_add(bottom, own_y), bottom)
            },
            None => (own_y, 0),
        },
        None => (own_y, 0),
    }
}

/// The position of the first element from `from` on whose id is `id`.
pub open spec fn index_of_id(elems: Seq<Element>, id: Seq<char>, from: int) -> Option<usize>
    decreases elems.len() - from,
{
    if from < 0 || from >= elems.len() {
        None
    } else if elems[from].id@ == id {
        Some(from as usize)
    } else {
        index_of_id(elems, id, from + 1)
    }
}

/// The position of the element that element `i` is linked to. An element
/// without a link, or with a link to an id that no element has, has none.
pub open spec fn anchor_of(elems: Seq<Element>, i: int) -> Option<usize> {
    match elems[i].linked_to {
        Some(target) => index_of_id(elems, target@, 0),
        None => None,
    }
}

/// The linkage graph of the elements.
pub open spec fn anchor_links(elems: Seq<Element>) -> Seq<Option<usize>> {
    Seq::new(elems.len(), |i: int| anchor_of(elems, i))
}

/// A position that `index_of_id` gives is that of an element with the id.
pub proof fn lemma_index_of_id(elems: Seq<Element>, id: Seq<char>, from: int)
    requires
        elems.len() <= usize::MAX,
    ensures
        match index_of_id(elems, id, from) {
            Some(j) => from <= j < elems.len() && elems[j as int].id@ == id,
            None => true,
        },
    decreases elems.len() - from,
{
    if 0 <= from < elems.len() && elems[from].id@ != id {
        lemma_index_of_id(elems, id, from + 1);
    }
}

/// Every link of the linkage graph leads to an element.
pub proof fn lemma_anchor_links_wf(elems: Seq<Element>)
    requires
        elems.len() <= usize::MAX,
    ensures
        links_wf(anchor_links(elems)),
{
    let links = anchor_links(elems);
    assert forall|i: int| 0 <= i < links.len() implies match #[trigger] links[i] {
        Some(t) => t < links.len(),
        None => true,
    } by {
        match elems[i].linked_to {
            Some(target) => {
                lemma_index_of_id(elems, target@, 0);
            },
            None => {},
        }
    }
}

/// Where the links lead in no circle, an element that is linked to another
/// stands after it in the drawing order.
pub proof fn lemma_anchor_is_drawn_first(elems: Seq<Element>, a: int, b: int)
    requires
        elems.len() <= usize::MAX,
        !has_cycle(anchor_links(elems)),
        0 <= a < elems.len(),
        0 <= b < elems.len(),
        anchor_of(elems, a) == Some(b as usize),
    ensures
        exists|p: int, q: int|
            0 <= q < p < drawing_order(anchor_links(elems)).len() && #[trigger] drawing_order(
                anchor_links(elems),
            )[p] == a && #[trigger] drawing_order(anchor_links(elems))[q] == b,
{
    let links = anchor_links(elems);
    let order = drawing_order(links);
    lemma_anchor_links_wf(elems);
    lemma_drawing_order_puts_anchors_first(links);
    assert(order.contains(a as usize));
    let p = choose|p: int| 0 <= p < order.len() && order[p] == a as usize;
    assert(links[order[p] as int] == Some(b as usize));
    let q = choose|q: int| 0 <= q < p && order[q] == b as usize;
    assert(order[p] == a && order[q] == b);
}

/// The position of the first element whose id is `id`.
pub fn find_id(elements: &Vec<Element>, id: &str) -> (r: Option<usize>)
    ensures
        r == index_of_id(elements@, id@, 0),
        match r {
            Some(j) => j < elements.len(),
            None => true,
        },
{
    let mut j: usize = 0;
    while j < elements.len()
        invariant
            j <= elements.len(),
            index_of_id(elements@, id@, 0) == index_of_id(elements@, id@, j as int),
        decreases elements.len() - j,
    {
        if same_text(elements[j].id.as_str(), id) {
            return Some(j);
        }
        j += 1;
    }
    None
}

/// Builds the linkage graph of the elements.
pub fn links_of(elements: &Vec<Element>) -> (links: Vec<Option<usize>>)
    ensures
        links@ == anchor_links(elements@),
        links_wf(links@),
{
    let mut links: Vec<Option<usize>> = Vec::new();
    let mut i: usize = 0;
    while i < elements.len()
        invariant
            i <= elements.len(),
            links@.len() == i,
            forall|j: int| 0 <= j < i ==> #[trigger] links@[j] == anchor_of(elements@, j),
            forall|j: int|
                0 <= j < i ==> match #[trigger] links@[j] {
                    Some(t) => t < elements.len(),
                    None => true,
                },
        decreases elements.len() - i,
    {
        let link = match &elements[i].linked_to {
            Some(target) => find_id(elements, target.as_str()),
            None => None,
        };
        links.push(link);
        i += 1;
    }
    assert(links@ =~= anchor_links(elements@));
    links
}

/// What keeps a template from being laid out.
#[derive(Debug, PartialEq, Eq)]
pub enum LayoutError {
    /// The links lead in a circle; the id is that of an element on it.
    Cycle(String),
}

} // verus!
