use vstd::prelude::*;
use crate::geometry::Point;
use crate::map::{EntityId, TileMap};

verus! {

/// The cells an entity covers; big entities cover several.
#[derive(Clone, PartialEq, Eq, Debug)]
pub struct Position {
    pub ps: Vec<Point>,
}

impl Position {
    /// The entity's first cell, or the invalid point when it covers none.
    pub fn any_point(&self) -> (p: Point)
        ensures
            self.ps@.len() > 0 ==> p == self.ps@[0],
            self.ps@.len() == 0 ==> p == Point::invalid_point_spec(),
    {
        if self.ps.len() > 0 {
            self.ps[0]
        } else {
            Point::invalid_point()
        }
    }

    /// The map index of each covered cell.
    pub fn idxes(&self, map: &TileMap) -> (r: Vec<usize>)
        requires
            map.wf(),
            forall|i: int| 0 <= i < self.ps@.len() ==> map.point_in_bounds(#[trigger] self.ps@[i]),
        ensures
            r@.len() == self.ps@.len(),
            forall|i: int| 0 <= i < r@.len() ==> r@[i] == map.spec_point_idx(#[trigger] self.ps@[i]),
    {
        let mut r: Vec<usize> = Vec::new();
        let mut i: usize = 0;
        while i < self.ps.len()
            invariant
                i <= self.ps@.len(),
                map.wf(),
                forall|k: int| 0 <= k < self.ps@.len() ==> map.point_in_bounds(#[trigger] self.ps@[k]),
                r@.len() == i,
                forall|k: int| 0 <= k < i ==> r@[k] == map.spec_point_idx(#[trigger] self.ps@[k]),
            decreases self.ps.len() - i,
        {
            r.push(map.point_idx(self.ps[i]));
            i = i + 1;
        }
        r
    }
}

impl Point {
    pub open spec fn invalid_point_spec() -> Point {
        Point { x: 0, y: 0 }
    }
}

/// What an entity sees.
#[derive(Clone, PartialEq, Eq, Debug)]
pub struct Viewshed {
    pub visible_tiles: Vec<Point>,
    pub range: i32,
    pub dirty: bool,
}

impl Viewshed {
    /// Whether the cell `p` is in sight.
    pub fn is_visible(&self, p: Point) -> (r: bool)
        ensures
            r == self.visible_tiles@.contains(p),
    {
        let mut i: usize = 0;
        while i < self.visible_tiles.len()
            invariant
                i <= self.visible_tiles@.len(),
                forall|k: int| 0 <= k < i ==> self.visible_tiles@[k] != p,
            decreases self.visible_tiles.len() - i,
        {
            let q = self.visible_tiles[i];
            if q.x == p.x && q.y == p.y {
                return true;
            }
            i = i + 1;
        }
        false
    }
}

/// The kinds of items.
#[derive(Clone, Copy, PartialEq, Eq, Structural, Debug)]
pub enum ItemType {
    Log,
    Shield,
    Weapon,
    Potion,
    Scroll,
    Fish,
}

/// The item kind of every entity that is an item.
pub struct ItemTypes {
    pub entries: Vec<(EntityId, ItemType)>,
}

/// The kind of item `e` is, by the first entry that names it.
pub open spec fn spec_item_type(entries: Seq<(EntityId, ItemType)>, e: EntityId) -> Option<ItemType>
    decreases entries.len(),
{
    if entries.len() == 0 {
        None
    } else if entries[0].0 == e {
        Some(entries[0].1)
    } else {
        spec_item_type(entries.drop_first(), e)
    }
}

impl ItemTypes {
    /// The kind of item `e` is, if it is an item.
    pub fn get(&self, e: EntityId) -> (r: Option<ItemType>)
        ensures
            r == spec_item_type(self.entries@, e),
    {
        let mut i: usize = 0;
        assert(self.entries@.skip(0) =~= self.entries@);
        while i < self.entries.len()
            invariant
                i <= self.entries@.len(),
                spec_item_type(self.entries@, e) == spec_item_type(self.entries@.skip(i as int), e),
            decreases self.entries.len() - i,
        {
            assert(self.entries@.skip(i as int).drop_first() =~= self.entries@.skip(i + 1));
            if self.entries[i].0 == e {
                return Some(self.entries[i].1);
            }
            i = i + 1;
        }
        None
    }
}

/// How many of `items` are items of kind `t`.
pub open spec fn spec_count_type(items: Seq<EntityId>, kinds: Seq<(EntityId, ItemType)>, t: ItemType) -> nat
    decreases items.len(),
{
    if items.len() == 0 {
        0
    } else {
        spec_count_type(items.drop_last(), kinds, t) + if spec_item_type(kinds, items.last())
            == Some(t) {
            1nat
        } else {
            0nat
        }
    }
}

/// What an entity carries, and how much it can carry.
#[derive(Clone, PartialEq, Eq, Debug)]
pub struct Inventory {
    pub capacity: i32,
    pub items: Vec<EntityId>,
}

impl Inventory {
    /// How many carried items are of kind `item_type`.
    pub fn count_type(&self, kinds: &ItemTypes, item_type: ItemType) -> (r: usize)
        ensures
            r == spec_count_type(self.items@, kinds.entries@, item_type),
    {
        let mut count: usize = 0;
        let mut i: usize = 0;
        while i < self.items.len()
            invariant
                i <= self.items@.len(),
                count == spec_count_type(self.items@.take(i as int), kinds.entries@, item_type),
                count <= i,
            decreases self.items.len() - i,
        {
            assert(self.items@.take(i + 1).drop_last() =~= self.items@.take(i as int));
            if let Some(t) = kinds.get(self.items[i]) {
                if t == item_type {
                    count = count + 1;
                }
            }
            i = i + 1;
        }
        assert(self.items@.take(self.items.len() as int) =~= self.items@);
        count
    }

    /// Puts `target` in the inventory. The pick-up goes on (the item
    /// leaves the ground) only when no item is then carried twice.
    pub fn pick_up(&mut self, target: EntityId) -> (proceed: bool)
        ensures
            final(self).items@ == old(self).items@.push(target),
            final(self).capacity == old(self).capacity,
            proceed == final(self).items@.no_duplicates(),
    {
        self.items.push(target);
        let n = self.items.len();
        let mut i: usize = 0;
        while i < n
            invariant
                n == self.items@.len(),
                self.items@ == old(self).items@.push(target),
                self.capacity == old(self).capacity,
                i <= n,
                forall|a: int, b: int| 0 <= a < b < n && a < i ==> self.items@[a] != self.items@[b],
            decreases n - i,
        {
            let mut j: usize = i + 1;
            while j < n
                invariant
                    n == self.items@.len(),
                    self.items@ == old(self).items@.push(target),
                    self.capacity == old(self).capacity,
                    i < n,
                    i + 1 <= j <= n,
                    forall|a: int, b: int| 0 <= a < b < n && a < i ==> self.items@[a] != self.items@[b],
                    forall|b: int| i < b < j ==> self.items@[i as int] != self.items@[b],
                decreases n - j,
            {
                if self.items[i] == self.items[j] {
                    assert(!self.items@.no_duplicates()) by {
                        assert(self.items@[i as int] == self.items@[j as int]);
                    }
                    return false;
                }
                j = j + 1;
            }
            i = i + 1;
        }
        assert forall|a: int, b: int|
            0 <= a < self.items@.len() && 0 <= b < self.items@.len() && a != b implies self.items@[a]
            != self.items@[b] by {
            if a > b {
                assert(self.items@[b] != self.items@[a]);
            }
        }
        true
    }

    /// Takes the first copy of `target` out of the inventory, if it is
    /// there.
    pub fn drop_item(&mut self, target: EntityId)
        ensures
            final(self).capacity == old(self).capacity,
            final(self).items@ == spec_remove_first(old(self).items@, target),
    {
        let mut i: usize = 0;
        while i < self.items.len()
            invariant
                i <= self.items@.len(),
                self.items@ == old(self).items@,
                self.capacity == old(self).capacity,
                forall|k: int| 0 <= k < i ==> self.items@[k] != target,
            decreases self.items.len() - i,
        {
            if self.items[i] == target {
                let ghost before = self.items@;
                assert(before == old(self).items@);
                self.items.remove(i);
                assert(self.items@ == before.remove(i as int));
                proof {
                    lemma_remove_first_at(before, target, i as int);
                }
                return;
            }
            i = i + 1;
        }
        proof {
            assert(!old(self).items@.contains(target)) by {
                if old(self).items@.contains(target) {
                    let k = choose|k: int|
                        0 <= k < old(self).items@.len() && old(self).items@[k] == target;
                    assert(self.items@[k] != target);
                }
            }
            lemma_remove_first_absent(old(self).items@, target);
        }
    }
}

/// `s` without its first copy of `x` (unchanged when `x` is absent).
pub open spec fn spec_remove_first(s: Seq<EntityId>, x: EntityId) -> Seq<EntityId>
    decreases s.len(),
{
    if s.len() == 0 {
        s
    } else if s[0] == x {
        s.drop_first()
    } else {
        seq![s[0]] + spec_remove_first(s.drop_first(), x)
    }
}

proof fn lemma_remove_first_at(s: Seq<EntityId>, x: EntityId, i: int)
    requires
        0 <= i < s.len(),
        s[i] == x,
        forall|k: int| 0 <= k < i ==> s[k] != x,
    ensures
        spec_remove_first(s, x) == s.remove(i),
    decreases s.len(),
{
    if i == 0 {
        assert(s.drop_first() =~= s.remove(0));
    } else {
        lemma_remove_first_at(s.drop_first(), x, i - 1);
        assert(seq![s[0]] + s.drop_first().remove(i - 1) =~= s.remove(i));
    }
}

proof fn lemma_remove_first_absent(s: Seq<EntityId>, x: EntityId)
    requires
        !s.contains(x),
    ensures
        spec_remove_first(s, x) == s,
    decreases s.len(),
{
    if s.len() > 0 {
        assert(s[0] != x);
        assert(!s.drop_first().contains(x)) by {
            if s.drop_first().contains(x) {
                let k = choose|k: int| 0 <= k < s.drop_first().len() && s.drop_first()[k] == x;
                assert(s[k + 1] == x);
            }
        }
        lemma_remove_first_absent(s.drop_first(), x);
        assert(seq![s[0]] + s.drop_first() =~= s);
    }
}

/// Dropping an item right after picking it up gives back the inventory
/// the carrier had, when the item was not carried before.
pub proof fn lemma_drop_undoes_pick_up(items: Seq<EntityId>, target: EntityId)
    requires
        !items.contains(target),
    ensures
        spec_remove_first(items.push(target), target) == items,
    decreases items.len(),
{
    if items.len() == 0 {
        assert(items.push(target).drop_first() =~= items);
    } else {
        assert(items[0] != target);
        assert(!items.drop_first().contains(target)) by {
            if items.drop_first().contains(target) {
                let k = choose|k: int|
                    0 <= k < items.drop_first().len() && items.drop_first()[k] == target;
                assert(items[k + 1] == target);
            }
        }
        lemma_drop_undoes_pick_up(items.drop_first(), target);
        assert(items.push(target).drop_first() =~= items.drop_first().push(target));
        assert(seq![items[0]] + items.drop_first() =~= items);
    }
}

/// Picking up an item that is not yet carried goes on exactly when the
/// inventory had no item twice.
pub proof fn lemma_pick_up_fresh(items: Seq<EntityId>, target: EntityId)
    requires
        !items.contains(target),
    ensures
        items.push(target).no_duplicates() == items.no_duplicates(),
{
    let s = items.push(target);
    if items.no_duplicates() {
        assert forall|a: int, b: int| 0 <= a < s.len() && 0 <= b < s.len() && a != b implies s[a]
            != s[b] by {
            if b == items.len() as int {
                assert(s[a] == items[a]);
            } else if a == items.len() as int {
                assert(s[b] == items[b]);
            } else {
                assert(s[a] == items[a] && s[b] == items[b]);
            }
        }
    }
    if s.no_duplicates() {
        assert forall|a: int, b: int|
            0 <= a < items.len() && 0 <= b < items.len() && a != b implies items[a] != items[b] by {
            assert(s[a] == items[a] && s[b] == items[b]);
        }
    }
}

} // verus!
