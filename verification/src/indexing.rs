//! The spatial index: for every tile, what stands on it and what can be
//! done to it. It is derived from the entity store, rebuilt from nothing
//! every turn, and only read in between.

use vstd::prelude::*;
use crate::components::Entity;
use crate::components::Position;
use crate::components::ToolType;
use crate::store::Components;
use crate::store::Store;
use crate::tile_map::tile_at;
use crate::tile_map::tile_index;

verus! {

/// The tile on which the entity of a slot stands: none for an empty slot,
/// for an entity without a position, and for a position off the grid.
pub open spec fn tile_of(slot: Option<Components>, width: int, height: int) -> Option<int> {
    match slot {
        Some(c) => match c.position {
            Some(pos) => tile_at(pos, width, height),
            None => None,
        },
        None => None,
    }
}

/// Whether one of the first `n` slots holds a blocking entity on tile `t`.
pub open spec fn blocked_at(
    slots: Seq<Option<Components>>,
    width: int,
    height: int,
    t: int,
    n: int,
) -> bool
    decreases n,
{
    if n <= 0 {
        false
    } else {
        blocked_at(slots, width, height, t, n - 1) || (tile_of(slots[n - 1], width, height)
            == Some(t) && slots[n - 1].unwrap().blocking.is_some())
    }
}

/// Whether one of the first `n` slots holds a fishable entity on tile `t`.
pub open spec fn fishable_at(
    slots: Seq<Option<Components>>,
    width: int,
    height: int,
    t: int,
    n: int,
) -> bool
    decreases n,
{
    if n <= 0 {
        false
    } else {
        fishable_at(slots, width, height, t, n - 1) || (tile_of(slots[n - 1], width, height)
            == Some(t) && slots[n - 1].unwrap().fishable.is_some())
    }
}

/// The tool that breaks tile `t`, going by the first `n` slots: that of the
/// breakable entity on the tile, of the one in the highest slot where there
/// are several, and none where there is no such entity.
pub open spec fn tool_at(
    slots: Seq<Option<Components>>,
    width: int,
    height: int,
    t: int,
    n: int,
) -> Option<ToolType>
    decreases n,
{
    if n <= 0 {
        None
    } else if tile_of(slots[n - 1], width, height) == Some(t) && slots[n
        - 1].unwrap().breakable.is_some() {
        Some(slots[n - 1].unwrap().breakable.unwrap().by)
    } else {
        tool_at(slots, width, height, t, n - 1)
    }
}

/// The entities of the first `n` slots that stand on tile `t`, in the order
/// of their slots.
pub open spec fn occupants(
    slots: Seq<Option<Components>>,
    width: int,
    height: int,
    t: int,
    n: int,
) -> Seq<Entity>
    decreases n,
{
    if n <= 0 {
        Seq::empty()
    } else if tile_of(slots[n - 1], width, height) == Some(t) {
        occupants(slots, width, height, t, n - 1).push(Entity { index: (n - 1) as usize })
    } else {
        occupants(slots, width, height, t, n - 1)
    }
}

/// The contents of a spatial index, tile by tile.
pub struct IndexView {
    pub blocked: Seq<bool>,
    pub breakable: Seq<Option<ToolType>>,
    pub fishable: Seq<bool>,
    pub tile_entities: Seq<Seq<Entity>>,
}

/// The index that a store gives on a grid of the given size.
pub open spec fn index_of(slots: Seq<Option<Components>>, width: int, height: int) -> IndexView {
    let tiles = (width * height) as nat;
    let n = slots.len() as int;
    IndexView {
        blocked: Seq::new(tiles, |t: int| blocked_at(slots, width, height, t, n)),
        breakable: Seq::new(tiles, |t: int| tool_at(slots, width, height, t, n)),
        fishable: Seq::new(tiles, |t: int| fishable_at(slots, width, height, t, n)),
        tile_entities: Seq::new(tiles, |t: int| occupants(slots, width, height, t, n)),
    }
}

/// The derived read-model of one turn.
#[derive(Debug)]
pub struct SpatialIndex {
    pub width: usize,
    pub height: usize,
    /// Tiles that hold at least one entity that blocks movement.
    pub blocked: Vec<bool>,
    /// For each tile that can be broken now, the tool that breaks it.
    pub breakable: Vec<Option<ToolType>>,
    /// Tiles on which fishing may be started.
    pub fishable: Vec<bool>,
    /// For each tile, the entities that stand on it.
    pub tile_entities: Vec<Vec<Entity>>,
}

impl SpatialIndex {
    /// Each of the four structures has one entry per tile.
    pub open spec fn wf(&self) -> bool {
        &&& self.width * self.height <= usize::MAX
        &&& self.blocked@.len() == self.width * self.height
        &&& self.breakable@.len() == self.width * self.height
        &&& self.fishable@.len() == self.width * self.height
        &&& self.tile_entities@.len() == self.width * self.height
    }

    /// What the index holds, tile by tile.
    pub open spec fn view(&self) -> IndexView {
        IndexView {
            blocked: self.blocked@,
            breakable: self.breakable@,
            fishable: self.fishable@,
            tile_entities: Seq::new(
                self.tile_entities@.len(),
                |t: int| self.tile_entities@[t]@,
            ),
        }
    }

    /// Whether the index holds exactly what the store gives.
    pub open spec fn reflects(&self, slots: Seq<Option<Components>>) -> bool {
        self.wf() && self@ == index_of(slots, self.width as int, self.height as int)
    }

    /// An index over a grid of the given size, with nothing on any tile.
    pub fn new(width: usize, height: usize) -> (r: Self)
        requires
            width * height <= usize::MAX,
        ensures
            r.wf(),
            r.width == width,
            r.height == height,
            r.reflects(Seq::empty()),
    {
        let tiles: usize = width * height;
        let mut blocked: Vec<bool> = Vec::new();
        let mut breakable: Vec<Option<ToolType>> = Vec::new();
        let mut fishable: Vec<bool> = Vec::new();
        let mut tile_entities: Vec<Vec<Entity>> = Vec::new();
        let mut t: usize = 0;
        while t < tiles
            invariant
                t <= tiles,
                blocked@.len() == t,
                breakable@.len() == t,
                fishable@.len() == t,
                tile_entities@.len() == t,
                forall|u: int| 0 <= u < t ==> !(#[trigger] blocked@[u]),
                forall|u: int| 0 <= u < t ==> (#[trigger] breakable@[u]).is_none(),
                forall|u: int| 0 <= u < t ==> !(#[trigger] fishable@[u]),
                forall|u: int| 0 <= u < t ==> (#[trigger] tile_entities@[u])@.len() == 0,
            decreases tiles - t,
        {
            blocked.push(false);
            breakable.push(None);
            fishable.push(false);
            tile_entities.push(Vec::new());
            t = t + 1;
        }
        let r = SpatialIndex { width, height, blocked, breakable, fishable, tile_entities };
        proof {
            let want = index_of(Seq::<Option<Components>>::empty(), width as int, height as int);
            assert(r@.blocked =~= want.blocked);
            assert(r@.breakable =~= want.breakable);
            assert(r@.fishable =~= want.fishable);
            assert forall|u: int| 0 <= u < tiles implies r@.tile_entities[u]
                == want.tile_entities[u] by {
                assert(r.tile_entities@[u]@ =~= Seq::<Entity>::empty());
            }
            assert(r@.tile_entities =~= want.tile_entities);
        }
        r
    }

    /// Empties the four structures.
    pub fn clear(&mut self)
        requires
            old(self).wf(),
        ensures
            final(self).width == old(self).width,
            final(self).height == old(self).height,
            final(self).reflects(Seq::empty()),
    {
        let tiles: usize = self.blocked.len();
        let mut t: usize = 0;
        while t < tiles
            invariant
                t <= tiles,
                tiles == self.width * self.height,
                self.wf(),
                self.width == old(self).width,
                self.height == old(self).height,
                forall|u: int| 0 <= u < t ==> !(#[trigger] self.blocked@[u]),
                forall|u: int| 0 <= u < t ==> (#[trigger] self.breakable@[u]).is_none(),
                forall|u: int| 0 <= u < t ==> !(#[trigger] self.fishable@[u]),
                forall|u: int| 0 <= u < t ==> (#[trigger] self.tile_entities@[u])@.len() == 0,
            decreases tiles - t,
        {
            self.blocked.set(t, false);
            self.breakable.set(t, None);
            self.fishable.set(t, false);
            self.tile_entities[t].clear();
            t = t + 1;
        }
        proof {
            let want = index_of(
                Seq::<Option<Components>>::empty(),
                self.width as int,
                self.height as int,
            );
            assert(self@.blocked =~= want.blocked);
            assert(self@.breakable =~= want.breakable);
            assert(self@.fishable =~= want.fishable);
            assert forall|u: int| 0 <= u < tiles implies self@.tile_entities[u]
                == want.tile_entities[u] by {
                assert(self.tile_entities@[u]@ =~= Seq::<Entity>::empty());
            }
            assert(self@.tile_entities =~= want.tile_entities);
        }
    }

    /// Rebuilds the index from the store: whatever it held before is thrown
    /// away, and afterwards it holds exactly what the store gives.
    pub fn rebuild(&mut self, store: &Store)
        requires
            old(self).wf(),
        ensures
            final(self).width == old(self).width,
            final(self).height == old(self).height,
            final(self).reflects(store@),
    {
        self.clear();
        let ghost slots = store@;
        let ghost w = self.width as int;
        let ghost h = self.height as int;
        let width: usize = self.width;
        let height: usize = self.height;
        let n: usize = store.slots.len();
        let mut i: usize = 0;
        proof {
            let nothing = index_of(Seq::<Option<Components>>::empty(), w, h);
            assert forall|t: int| 0 <= t < w * h implies (#[trigger] self.tile_entities@[t])@
                == occupants(slots, w, h, t, 0) by {
                assert(self@.tile_entities[t] == self.tile_entities@[t]@);
                assert(nothing.tile_entities[t] == Seq::<Entity>::empty());
            }
            assert forall|t: int| 0 <= t < w * h implies #[trigger] self.blocked@[t]
                == blocked_at(slots, w, h, t, 0) by {
                assert(nothing.blocked[t] == false);
            }
            assert forall|t: int| 0 <= t < w * h implies #[trigger] self.breakable@[t]
                == tool_at(slots, w, h, t, 0) by {
                assert(nothing.breakable[t].is_none());
            }
            assert forall|t: int| 0 <= t < w * h implies #[trigger] self.fishable@[t]
                == fishable_at(slots, w, h, t, 0) by {
                assert(nothing.fishable[t] == false);
            }
        }
        while i < n
            invariant
                i <= n,
                n == slots.len(),
                slots == store@,
                self.wf(),
                self.width == old(self).width,
                self.height == old(self).height,
                width == self.width,
                height == self.height,
                w == self.width as int,
                h == self.height as int,
                forall|t: int|
                    0 <= t < w * h ==> #[trigger] self.blocked@[t] == blocked_at(
                        slots,
                        w,
                        h,
                        t,
                        i as int,
                    ),
                forall|t: int|
                    0 <= t < w * h ==> #[trigger] self.breakable@[t] == tool_at(
                        slots,
                        w,
                        h,
                        t,
                        i as int,
                    ),
                forall|t: int|
                    0 <= t < w * h ==> #[trigger] self.fishable@[t] == fishable_at(
                        slots,
                        w,
                        h,
                        t,
                        i as int,
                    ),
                forall|t: int|
                    0 <= t < w * h ==> (#[trigger] self.tile_entities@[t])@ == occupants(
                        slots,
                        w,
                        h,
                        t,
                        i as int,
                    ),
            decreases n - i,
        {
            match &store.slots[i] {
                Some(c) => {
                    match &c.position {
                        Some(pos) => {
                            match tile_index(pos, width, height) {
                                Some(idx) => {
                                    self.tile_entities[idx].push(Entity { index: i });
                                    if c.blocking.is_some() {
                                        self.blocked.set(idx, true);
                                    }
                                    match &c.breakable {
                                        Some(breakable) => {
                                            self.breakable.set(idx, Some(breakable.by));
                                        },
                                        None => {},
                                    }
                                    if c.fishable.is_some() {
                                        self.fishable.set(idx, true);
                                    }
                                },
                                None => {},
                            }
                        },
                        None => {},
                    }
                },
                None => {},
            }
            i = i + 1;
        }
        proof {
            let want = index_of(slots, w, h);
            assert(self@.blocked =~= want.blocked);
            assert(self@.breakable =~= want.breakable);
            assert(self@.fishable =~= want.fishable);
            assert(self@.tile_entities =~= want.tile_entities);
        }
    }

    /// Whether the index has a tile for `pos`.
    pub fn covers(&self, pos: &Position) -> (r: bool)
        ensures
            r == tile_at(*pos, self.width as int, self.height as int).is_some(),
    {
        pos.x < self.width && pos.y < self.height
    }

    /// Whether something on the tile at `pos` blocks movement. Nothing
    /// stands off the grid.
    pub fn is_blocked(&self, pos: &Position) -> (r: bool)
        requires
            self.wf(),
        ensures
            r == match tile_at(*pos, self.width as int, self.height as int) {
                Some(t) => self@.blocked[t],
                None => false,
            },
    {
        match tile_index(pos, self.width, self.height) {
            Some(idx) => self.blocked[idx],
            None => false,
        }
    }

    /// The tool that breaks the tile at `pos`, if the tile can be broken.
    pub fn required_tool(&self, pos: &Position) -> (r: Option<ToolType>)
        requires
            self.wf(),
        ensures
            r == match tile_at(*pos, self.width as int, self.height as int) {
                Some(t) => self@.breakable[t],
                None => None,
            },
    {
        match tile_index(pos, self.width, self.height) {
            Some(idx) => self.breakable[idx],
            None => None,
        }
    }

    /// Whether fishing may be started on the tile at `pos`.
    pub fn is_fishable(&self, pos: &Position) -> (r: bool)
        requires
            self.wf(),
        ensures
            r == match tile_at(*pos, self.width as int, self.height as int) {
                Some(t) => self@.fishable[t],
                None => false,
            },
    {
        match tile_index(pos, self.width, self.height) {
            Some(idx) => self.fishable[idx],
            None => false,
        }
    }

    /// The entities on the tile at `pos`, or nothing where `pos` lies off
    /// the grid.
    pub fn entities_at(&self, pos: &Position) -> (r: Option<&Vec<Entity>>)
        requires
            self.wf(),
        ensures
            match tile_at(*pos, self.width as int, self.height as int) {
                Some(t) => r.is_some() && r.unwrap()@ == self@.tile_entities[t],
                None => r.is_none(),
            },
    {
        match tile_index(pos, self.width, self.height) {
            Some(idx) => Some(&self.tile_entities[idx]),
            None => None,
        }
    }
}

/// Rebuilding is idempotent: two indices over the same grid that were
/// rebuilt from the same store hold the same, whatever either held before.
pub proof fn lemma_rebuild_idempotent(
    first: SpatialIndex,
    second: SpatialIndex,
    slots: Seq<Option<Components>>,
)
    requires
        first.reflects(slots),
        second.reflects(slots),
        first.width == second.width,
        first.height == second.height,
    ensures
        first@ == second@,
{
}

/// A tile is listed as blocked exactly if a blocking entity stands on it.
pub proof fn lemma_blocked_at(slots: Seq<Option<Components>>, width: int, height: int, t: int, n: int)
    requires
        0 <= n <= slots.len(),
    ensures
        blocked_at(slots, width, height, t, n) <==> exists|i: int|
            0 <= i < n && tile_of(#[trigger] slots[i], width, height) == Some(t)
                && slots[i].unwrap().blocking.is_some(),
    decreases n,
{
    if n > 0 {
        lemma_blocked_at(slots, width, height, t, n - 1);
        if blocked_at(slots, width, height, t, n) {
            if blocked_at(slots, width, height, t, n - 1) {
                let i = choose|i: int|
                    0 <= i < n - 1 && tile_of(#[trigger] slots[i], width, height) == Some(t)
                        && slots[i].unwrap().blocking.is_some();
                assert(0 <= i < n && tile_of(slots[i], width, height) == Some(t)
                    && slots[i].unwrap().blocking.is_some());
            } else {
                assert(tile_of(slots[n - 1], width, height) == Some(t));
            }
        }
    }
}

/// A tile is listed as fishable exactly if a fishable entity stands on it.
pub proof fn lemma_fishable_at(slots: Seq<Option<Components>>, width: int, height: int, t: int, n: int)
    requires
        0 <= n <= slots.len(),
    ensures
        fishable_at(slots, width, height, t, n) <==> exists|i: int|
            0 <= i < n && tile_of(#[trigger] slots[i], width, height) == Some(t)
                && slots[i].unwrap().fishable.is_some(),
    decreases n,
{
    if n > 0 {
        lemma_fishable_at(slots, width, height, t, n - 1);
        if fishable_at(slots, width, height, t, n) {
            if fishable_at(slots, width, height, t, n - 1) {
                let i = choose|i: int|
                    0 <= i < n - 1 && tile_of(#[trigger] slots[i], width, height) == Some(t)
                        && slots[i].unwrap().fishable.is_some();
                assert(0 <= i < n && tile_of(slots[i], width, height) == Some(t)
                    && slots[i].unwrap().fishable.is_some());
            } else {
                assert(tile_of(slots[n - 1], width, height) == Some(t));
            }
        }
    }
}

/// A tile is listed as breakable exactly if a breakable entity stands on
/// it, and the tool listed is that of such an entity.
pub proof fn lemma_tool_at(slots: Seq<Option<Components>>, width: int, height: int, t: int, n: int)
    requires
        0 <= n <= slots.len(),
    ensures
        match tool_at(slots, width, height, t, n) {
            Some(tool) => exists|i: int|
                0 <= i < n && tile_of(#[trigger] slots[i], width, height) == Some(t)
                    && slots[i].unwrap().breakable.is_some()
                    && slots[i].unwrap().breakable.unwrap().by == tool,
            None => forall|i: int|
                0 <= i < n && tile_of(#[trigger] slots[i], width, height) == Some(t)
                    ==> slots[i].unwrap().breakable.is_none(),
        },
    decreases n,
{
    if n > 0 {
        lemma_tool_at(slots, width, height, t, n - 1);
        if tile_of(slots[n - 1], width, height) == Some(t) && slots[n
            - 1].unwrap().breakable.is_some() {
        } else {
            match tool_at(slots, width, height, t, n - 1) {
                Some(tool) => {
                    let i = choose|i: int|
                        0 <= i < n - 1 && tile_of(#[trigger] slots[i], width, height) == Some(t)
                            && slots[i].unwrap().breakable.is_some()
                            && slots[i].unwrap().breakable.unwrap().by == tool;
                    assert(0 <= i < n && tile_of(slots[i], width, height) == Some(t));
                },
                None => {},
            }
        }
    }
}

/// The entities listed on a tile are exactly those that stand on it, each
/// once, in the order of their slots.
pub proof fn lemma_occupants(slots: Seq<Option<Components>>, width: int, height: int, t: int, n: int)
    requires
        0 <= n <= slots.len() <= usize::MAX,
    ensures
        forall|k: int|
            0 <= k < occupants(slots, width, height, t, n).len() ==> {
                let e = #[trigger] occupants(slots, width, height, t, n)[k];
                0 <= e.index < n && tile_of(slots[e.index as int], width, height) == Some(t)
            },
        forall|k: int, l: int|
            0 <= k < l < occupants(slots, width, height, t, n).len() ==> (#[trigger] occupants(
                slots,
                width,
                height,
                t,
                n,
            )[k]).index < (#[trigger] occupants(slots, width, height, t, n)[l]).index,
        forall|i: int|
            0 <= i < n && tile_of(#[trigger] slots[i], width, height) == Some(t) ==> occupants(
                slots,
                width,
                height,
                t,
                n,
            ).contains(Entity { index: i as usize }),
    decreases n,
{
    if n > 0 {
        lemma_occupants(slots, width, height, t, n - 1);
        let earlier = occupants(slots, width, height, t, n - 1);
        let now = occupants(slots, width, height, t, n);
        assert forall|k: int| 0 <= k < now.len() implies {
            let e = #[trigger] now[k];
            0 <= e.index < n && tile_of(slots[e.index as int], width, height) == Some(t)
        } by {
            if k < earlier.len() {
                assert(now[k] == earlier[k]);
            }
        }
        assert forall|k: int, l: int| 0 <= k < l < now.len() implies (#[trigger] now[k]).index < (
        #[trigger] now[l]).index by {
            assert(now[k] == earlier[k]);
            if l < earlier.len() {
                assert(now[l] == earlier[l]);
            }
        }
        assert forall|i: int|
            0 <= i < n && tile_of(#[trigger] slots[i], width, height) == Some(t) implies now.contains(
            Entity { index: i as usize },
        ) by {
            if i < n - 1 {
                let e = Entity { index: i as usize };
                assert(earlier.contains(e));
                let k = choose|k: int| 0 <= k < earlier.len() && earlier[k] == e;
                assert(now[k] == e);
            } else {
                assert(now[now.len() - 1] == Entity { index: i as usize });
            }
        }
    }
}

} // verus!
