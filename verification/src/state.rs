use vstd::prelude::*;
use vstd::string::StringExecFns;

use crate::dimension::{
    is_demo_dimension, is_demo_object, is_new_dimension, Dimension, DEMO_LINK_INDEX, DEMO_OBJECT_COUNT,
};
use crate::error::HyperspaceError;
use crate::geometry::F32_ZERO;
use crate::ids::{DimensionId, SmartObjectId};
use crate::object::{is_random_id, SmartObject};

verus! {

/// Position of the first occurrence of `id` in `ids`, if it occurs.
pub open spec fn first_position(ids: Seq<u128>, id: u128) -> Option<int> {
    if exists|i: int| 0 <= i < ids.len() && ids[i] == id {
        Some(
            choose|i: int|
                0 <= i < ids.len() && ids[i] == id && forall|j: int| 0 <= j < i ==> ids[j] != id,
        )
    } else {
        None
    }
}

/// `i` is the first position of `id` in `ids`.
pub open spec fn is_first_position(ids: Seq<u128>, id: u128, i: int) -> bool {
    0 <= i < ids.len() && ids[i] == id && forall|j: int| 0 <= j < i ==> ids[j] != id
}

proof fn lemma_first_exists(ids: Seq<u128>, id: u128, w: int)
    requires
        0 <= w < ids.len(),
        ids[w] == id,
    ensures
        exists|i: int| is_first_position(ids, id, i),
    decreases w,
{
    if exists|j: int| 0 <= j < w && ids[j] == id {
        let j = choose|j: int| 0 <= j < w && ids[j] == id;
        lemma_first_exists(ids, id, j);
    } else {
        assert(is_first_position(ids, id, w));
    }
}

/// `first_position` finds the first occurrence, and only misses an absent identifier.
pub proof fn lemma_first_position(ids: Seq<u128>, id: u128)
    ensures
        match first_position(ids, id) {
            Some(i) => is_first_position(ids, id, i),
            None => forall|i: int| 0 <= i < ids.len() ==> ids[i] != id,
        },
{
    if exists|i: int| 0 <= i < ids.len() && ids[i] == id {
        let w = choose|i: int| 0 <= i < ids.len() && ids[i] == id;
        lemma_first_exists(ids, id, w);
    }
}

proof fn lemma_first_position_unique(ids: Seq<u128>, id: u128, i: int)
    requires
        is_first_position(ids, id, i),
    ensures
        first_position(ids, id) == Some(i),
{
    lemma_first_position(ids, id);
    let k = first_position(ids, id)->0;
    if k < i {
        assert(ids[k] != id);
    } else if k > i {
        assert(ids[i] != id);
    }
}

/// The identifiers of some dimensions, in order.
pub open spec fn dimension_ids(dims: Seq<Dimension>) -> Seq<u128> {
    dims.map_values(|d: Dimension| d.id)
}

/// The identifiers of some objects, in order.
pub open spec fn object_ids(objects: Seq<SmartObject>) -> Seq<u128> {
    objects.map_values(|o: SmartObject| o.id)
}

/// The first dimension with identifier `id`, if any.
pub open spec fn lookup_dimension(dims: Seq<Dimension>, id: DimensionId) -> Option<Dimension> {
    match first_position(dimension_ids(dims), id) {
        Some(i) => Some(dims[i]),
        None => None,
    }
}

/// Keeps the objects whose identifier is not `object_id`.
pub open spec fn keeps_object(object_id: SmartObjectId) -> spec_fn(SmartObject) -> bool {
    |o: SmartObject| o.id != object_id
}

/// `after` is `before` with every object whose identifier is `object_id` taken out,
/// the other objects kept in order.
pub open spec fn is_without_object(after: Dimension, before: Dimension, object_id: SmartObjectId) -> bool {
    &&& after.id == before.id
    &&& after.name == before.name
    &&& after.viewport == before.viewport
    &&& after.objects@ == before.objects@.filter(keeps_object(object_id))
}

/// `after` is `before` with its `i`-th dimension replaced by `d`.
pub open spec fn replaces_dimension(after: Seq<Dimension>, before: Seq<Dimension>, i: int, d: Dimension) -> bool {
    &&& after.len() == before.len()
    &&& after[i] == d
    &&& forall|j: int| 0 <= j < before.len() && j != i ==> after[j] == before[j]
}

/// `after` is `before` with its objects changed to `objects`.
pub open spec fn has_objects(after: Dimension, before: Dimension, objects: Seq<SmartObject>) -> bool {
    &&& after.id == before.id
    &&& after.name == before.name
    &&& after.viewport == before.viewport
    &&& after.objects@ == objects
}

/// Bit pattern of `1200.0f32`, the horizontal pan of the demo Work dimension.
pub const WORK_PAN_X: u32 = 0x4496_0000;

/// Bit pattern of `-400.0f32`, the vertical pan of the demo Work dimension.
pub const WORK_PAN_Y: u32 = 0xc3c8_0000;

/// `state` is the demo workspace: a Home dimension whose "Link to Work" leads to Work,
/// then a Work dimension panned to (1200, -400) whose Link has no target, with Home active.
pub open spec fn is_demo_state(state: HyperspaceState) -> bool {
    &&& state.dimensions@.len() == 2
    &&& is_demo_dimension(
        state.dimensions@[0],
        "Home"@,
        (F32_ZERO, F32_ZERO),
        Some(state.dimensions@[1].id),
    )
    &&& is_demo_dimension(state.dimensions@[1], "Work"@, (WORK_PAN_X, WORK_PAN_Y), None)
    &&& state.active_dimension == state.dimensions@[0].id
}

/// `after` is `before` with every object `object_id` taken out of the first dimension
/// `dimension_id`; `removed` tells whether there was such an object. Without such a
/// dimension nothing changes.
pub open spec fn is_object_removal(
    after: HyperspaceState,
    before: HyperspaceState,
    dimension_id: DimensionId,
    object_id: SmartObjectId,
    removed: bool,
) -> bool {
    &&& after.active_dimension == before.active_dimension
    &&& match first_position(dimension_ids(before.dimensions@), dimension_id) {
        Some(i) => {
            &&& replaces_dimension(after.dimensions@, before.dimensions@, i, after.dimensions@[i])
            &&& is_without_object(after.dimensions@[i], before.dimensions@[i], object_id)
            &&& removed == object_ids(before.dimensions@[i].objects@).contains(object_id)
        },
        None => !removed && after == before,
    }
}

/// Root workspace state: several dimensions, one of them active.
#[derive(Debug, Clone)]
pub struct HyperspaceState {
    pub dimensions: Vec<Dimension>,
    pub active_dimension: DimensionId,
}

/// Position of the first object with identifier `id` in `objects`, if any.
/// The objects of `objects` whose identifier is not `id`, in order.
fn objects_without(objects: &Vec<SmartObject>, id: SmartObjectId) -> (r: Vec<SmartObject>)
    ensures
        r@ == objects@.filter(keeps_object(id)),
        (r@.len() < objects@.len()) == object_ids(objects@).contains(id),
{
    let mut r: Vec<SmartObject> = Vec::new();
    let mut i: usize = 0;
    while i < objects.len()
        invariant
            i <= objects@.len(),
            r@ == objects@.take(i as int).filter(keeps_object(id)),
            r@.len() <= i,
            (r@.len() == i) == (forall|j: int| 0 <= j < i ==> objects@[j].id != id),
        decreases objects@.len() - i,
    {
        let keep = objects[i].id != id;
        proof {
            reveal(Seq::filter);
            assert(objects@.take(i + 1).drop_last() =~= objects@.take(i as int));
        }
        if keep {
            r.push(objects[i].duplicate());
        }
        i = i + 1;
    }
    assert(objects@.take(objects@.len() as int) =~= objects@);
    proof {
        if object_ids(objects@).contains(id) {
            let k = choose|k: int| 0 <= k < object_ids(objects@).len() && object_ids(objects@)[k] == id;
            assert(objects@[k].id == id);
        }
        if r@.len() < objects@.len() {
            let k = choose|k: int| 0 <= k < objects@.len() && objects@[k].id == id;
            assert(object_ids(objects@)[k] == id);
        }
    }
    r
}

pub(crate) fn position_of_object(objects: &Vec<SmartObject>, id: SmartObjectId) -> (r: Option<usize>)
    ensures
        match r {
            Some(i) => i < objects@.len() && first_position(object_ids(objects@), id) == Some(i as int),
            None => first_position(object_ids(objects@), id) is None,
        },
{
    let ghost ids = object_ids(objects@);
    let mut i: usize = 0;
    while i < objects.len()
        invariant
            i <= objects@.len(),
            ids == object_ids(objects@),
            forall|j: int| 0 <= j < i ==> ids[j] != id,
        decreases objects@.len() - i,
    {
        if objects[i].id == id {
            proof {
                lemma_first_position_unique(ids, id, i as int);
            }
            return Some(i);
        }
        i = i + 1;
    }
    proof {
        lemma_first_position(ids, id);
    }
    None
}

impl HyperspaceState {
    /// Position of the first dimension with identifier `id`, if any.
    pub fn position_of_dimension(&self, id: DimensionId) -> (r: Option<usize>)
        ensures
            match r {
                Some(i) => i < self.dimensions@.len() && first_position(dimension_ids(self.dimensions@), id)
                    == Some(i as int),
                None => first_position(dimension_ids(self.dimensions@), id) is None,
            },
    {
        let ghost ids = dimension_ids(self.dimensions@);
        let mut i: usize = 0;
        while i < self.dimensions.len()
            invariant
                i <= self.dimensions@.len(),
                ids == dimension_ids(self.dimensions@),
                forall|j: int| 0 <= j < i ==> ids[j] != id,
            decreases self.dimensions@.len() - i,
        {
            if self.dimensions[i].id == id {
                proof {
                    lemma_first_position_unique(ids, id, i as int);
                }
                return Some(i);
            }
            i = i + 1;
        }
        proof {
            lemma_first_position(ids, id);
        }
        None
    }

    /// The first dimension with identifier `id`.
    pub fn dimension_by_id(&self, id: DimensionId) -> (r: Option<&Dimension>)
        ensures
            match lookup_dimension(self.dimensions@, id) {
                Some(d) => r matches Some(x) && *x == d,
                None => r is None,
            },
    {
        match self.position_of_dimension(id) {
            Some(i) => Some(&self.dimensions[i]),
            None => None,
        }
    }

    /// The active dimension (the first one with the active identifier).
    pub fn active_dimension(&self) -> (r: Option<&Dimension>)
        ensures
            match lookup_dimension(self.dimensions@, self.active_dimension) {
                Some(d) => r matches Some(x) && *x == d,
                None => r is None,
            },
    {
        self.dimension_by_id(self.active_dimension)
    }

    /// Mutable access to the first dimension with identifier `id`.
    pub fn dimension_by_id_mut(&mut self, id: DimensionId) -> (r: Option<&mut Dimension>)
        ensures
            match first_position(dimension_ids(old(self).dimensions@), id) {
                Some(i) => r matches Some(x) && {
                    &&& *x == old(self).dimensions@[i]
                    &&& final(self).dimensions@ == old(self).dimensions@.update(i, *final(x))
                    &&& final(self).active_dimension == old(self).active_dimension
                },
                None => r is None && *final(self) == *old(self),
            },
    {
        match self.position_of_dimension(id) {
            Some(i) => Some(&mut self.dimensions[i]),
            None => None,
        }
    }

    /// Mutable access to the active dimension.
    pub fn active_dimension_mut(&mut self) -> (r: Option<&mut Dimension>)
        ensures
            match first_position(dimension_ids(old(self).dimensions@), old(self).active_dimension) {
                Some(i) => r matches Some(x) && {
                    &&& *x == old(self).dimensions@[i]
                    &&& final(self).dimensions@ == old(self).dimensions@.update(i, *final(x))
                    &&& final(self).active_dimension == old(self).active_dimension
                },
                None => r is None && *final(self) == *old(self),
            },
    {
        let id = self.active_dimension;
        self.dimension_by_id_mut(id)
    }

    /// Creates an empty dimension called `name` with a random identifier, appends it and
    /// makes it the active dimension. Returns its identifier.
    pub fn add_dimension(&mut self, name: String) -> (id: DimensionId)
        ensures
            is_random_id(id),
            final(self).active_dimension == id,
            final(self).dimensions@ == old(self).dimensions@.push(final(self).dimensions@.last()),
            is_new_dimension(final(self).dimensions@.last(), id, name@),
    {
        let dimension = Dimension::new(name);
        let id = dimension.id;
        self.dimensions.push(dimension);
        self.active_dimension = id;
        id
    }

    /// Removes every object with identifier `object_id` from the first dimension with
    /// identifier `dimension_id`. Returns whether an object was removed.
    pub fn remove_object(&mut self, dimension_id: DimensionId, object_id: SmartObjectId) -> (removed: bool)
        ensures
            is_object_removal(*final(self), *old(self), dimension_id, object_id, removed),
    {
        match self.position_of_dimension(dimension_id) {
            Some(i) => {
                let dimension = &mut self.dimensions[i];
                let before = dimension.objects.len();
                let kept = objects_without(&dimension.objects, object_id);
                dimension.objects = kept;
                dimension.objects.len() < before
            },
            None => false,
        }
    }

    /// Mutable access to the first object with identifier `object_id` in the first
    /// dimension with identifier `dimension_id`.
    pub fn find_object_mut(&mut self, dimension_id: DimensionId, object_id: SmartObjectId) -> (r: Option<&mut SmartObject>)
        ensures
            final(self).active_dimension == old(self).active_dimension,
            match first_position(dimension_ids(old(self).dimensions@), dimension_id) {
                Some(i) => match first_position(object_ids(old(self).dimensions@[i].objects@), object_id) {
                    Some(j) => r matches Some(x) && {
                        &&& *x == old(self).dimensions@[i].objects@[j]
                        &&& replaces_dimension(
                            final(self).dimensions@,
                            old(self).dimensions@,
                            i,
                            final(self).dimensions@[i],
                        )
                        &&& has_objects(
                            final(self).dimensions@[i],
                            old(self).dimensions@[i],
                            old(self).dimensions@[i].objects@.update(j, *final(x)),
                        )
                    },
                    None => r is None && *final(self) == *old(self),
                },
                None => r is None && *final(self) == *old(self),
            },
    {
        match self.position_of_dimension(dimension_id) {
            Some(i) => match position_of_object(&self.dimensions[i].objects, object_id) {
                Some(j) => Some(&mut self.dimensions[i].objects[j]),
                None => None,
            },
            None => None,
        }
    }

    /// The demo workspace: Home (active) and Work dimensions, each with the demo objects.
    pub fn with_demo_content() -> (state: Self)
        ensures
            is_demo_state(state),
            lookup_dimension(state.dimensions@, state.active_dimension) == Some(state.dimensions@[0]),
    {
        let mut home = Dimension::demo(String::from_str("Home"), (F32_ZERO, F32_ZERO));
        let work = Dimension::demo(String::from_str("Work"), (WORK_PAN_X, WORK_PAN_Y));
        let ghost plain_home = home;
        let mut link = home.objects[DEMO_LINK_INDEX].duplicate();
        link.link_target = Some(work.id);
        home.objects.set(DEMO_LINK_INDEX, link);
        assert forall|i: int| 0 <= i < DEMO_OBJECT_COUNT implies #[trigger] is_demo_object(
            home.objects@[i],
            i,
            Some(work.id),
        ) by {
            assert(is_demo_object(plain_home.objects@[i], i, None));
        }
        let active_dimension = home.id;
        let state = HyperspaceState { dimensions: vec![home, work], active_dimension };
        proof {
            lemma_first_position_unique(dimension_ids(state.dimensions@), active_dimension, 0);
        }
        state
    }
}

/// The identifier and name of each dimension.
pub open spec fn tabs_of(dims: Seq<Dimension>) -> Seq<(DimensionId, String)> {
    dims.map_values(|d: Dimension| (d.id, d.name))
}

/// Keeps the dimensions whose identifier is not `id`.
pub open spec fn other_than(id: DimensionId) -> spec_fn(Dimension) -> bool {
    |d: Dimension| d.id != id
}

/// The link targets offered beside dimension `active` are exactly the other dimensions:
/// every dimension whose identifier is not `active` is listed with its name, whatever it
/// holds, and everything listed is such a dimension.
pub proof fn lemma_other_dimensions_are_all_others(dims: Seq<Dimension>, active: DimensionId)
    ensures
        forall|i: int|
            0 <= i < dims.len() && dims[i].id != active ==> #[trigger] tabs_of(
                dims.filter(other_than(active)),
            ).contains((dims[i].id, dims[i].name)),
        forall|k: int|
            0 <= k < tabs_of(dims.filter(other_than(active))).len() ==> {
                let (id, name) = #[trigger] tabs_of(dims.filter(other_than(active)))[k];
                &&& id != active
                &&& exists|i: int| 0 <= i < dims.len() && dims[i].id == id && dims[i].name == name
            },
{
    let kept = dims.filter(other_than(active));
    let tabs = tabs_of(kept);
    assert forall|i: int| 0 <= i < dims.len() && dims[i].id != active implies #[trigger] tabs_of(
        dims.filter(other_than(active)),
    ).contains((dims[i].id, dims[i].name)) by {
        dims.lemma_filter_contains(other_than(active), i);
        let k = choose|k: int| 0 <= k < kept.len() && kept[k] == dims[i];
        assert(tabs[k] == (dims[i].id, dims[i].name));
    }
    assert forall|k: int| 0 <= k < tabs_of(dims.filter(other_than(active))).len() implies {
        let (id, name) = #[trigger] tabs_of(dims.filter(other_than(active)))[k];
        &&& id != active
        &&& exists|i: int| 0 <= i < dims.len() && dims[i].id == id && dims[i].name == name
    } by {
        dims.lemma_filter_pred(other_than(active), k);
        assert(kept.contains(kept[k]));
        dims.lemma_filter_contains_rev(other_than(active), kept[k]);
        let i = choose|i: int| 0 <= i < dims.len() && dims[i] == kept[k];
        assert(dims[i].id == tabs[k].0 && dims[i].name == tabs[k].1);
    }
}

impl HyperspaceState {
    /// Identifier and name of every dimension, in order (the shell's workspace tabs).
    pub fn dimension_tabs(&self) -> (tabs: Vec<(DimensionId, String)>)
        ensures
            tabs@ == tabs_of(self.dimensions@),
            tabs@.len() == self.dimensions@.len(),
            forall|i: int|
                0 <= i < tabs@.len() ==> #[trigger] tabs@[i] == (self.dimensions@[i].id, self.dimensions@[i].name),
    {
        let mut tabs: Vec<(DimensionId, String)> = Vec::new();
        let mut i: usize = 0;
        while i < self.dimensions.len()
            invariant
                i <= self.dimensions@.len(),
                tabs@ == tabs_of(self.dimensions@.take(i as int)),
            decreases self.dimensions@.len() - i,
        {
            let d = &self.dimensions[i];
            tabs.push((d.id, d.name.clone()));
            assert(tabs_of(self.dimensions@.take(i + 1)) =~= tabs_of(self.dimensions@.take(i as int)).push(
                (d.id, d.name),
            ));
            i = i + 1;
        }
        assert(self.dimensions@.take(self.dimensions@.len() as int) =~= self.dimensions@);
        tabs
    }

    /// Identifier and name of every dimension other than the active one, in order (the
    /// targets a Link can be pointed at).
    pub fn other_dimensions(&self) -> (others: Vec<(DimensionId, String)>)
        ensures
            others@ == tabs_of(self.dimensions@.filter(other_than(self.active_dimension))),
            forall|i: int|
                0 <= i < self.dimensions@.len() && self.dimensions@[i].id != self.active_dimension
                    ==> #[trigger] others@.contains((self.dimensions@[i].id, self.dimensions@[i].name)),
            forall|k: int| 0 <= k < others@.len() ==> (#[trigger] others@[k]).0 != self.active_dimension,
    {
        proof {
            lemma_other_dimensions_are_all_others(self.dimensions@, self.active_dimension);
        }
        let active = self.active_dimension;
        let mut others: Vec<(DimensionId, String)> = Vec::new();
        let mut i: usize = 0;
        while i < self.dimensions.len()
            invariant
                i <= self.dimensions@.len(),
                active == self.active_dimension,
                others@ == tabs_of(self.dimensions@.take(i as int).filter(other_than(active))),
            decreases self.dimensions@.len() - i,
        {
            let d = &self.dimensions[i];
            proof {
                reveal(Seq::filter);
                assert(self.dimensions@.take(i + 1).drop_last() =~= self.dimensions@.take(i as int));
            }
            if d.id != active {
                others.push((d.id, d.name.clone()));
                assert(tabs_of(self.dimensions@.take(i + 1).filter(other_than(active))) =~= tabs_of(
                    self.dimensions@.take(i as int).filter(other_than(active)),
                ).push((d.id, d.name)));
            }
            i = i + 1;
        }
        assert(self.dimensions@.take(self.dimensions@.len() as int) =~= self.dimensions@);
        others
    }
}

/// A dimension appended under an identifier that no dimension had yet is what a lookup
/// of that identifier finds (so a newly added dimension becomes the active one).
pub proof fn lemma_added_dimension_is_found(dims: Seq<Dimension>, d: Dimension)
    requires
        first_position(dimension_ids(dims), d.id) is None,
    ensures
        lookup_dimension(dims.push(d), d.id) == Some(d),
{
    lemma_first_position(dimension_ids(dims), d.id);
    let ids = dimension_ids(dims.push(d));
    assert forall|j: int| 0 <= j < dims.len() implies ids[j] != d.id by {
        assert(ids[j] == dimension_ids(dims)[j]);
    }
    lemma_first_position_unique(ids, d.id, dims.len() as int);
}

/// After the objects with an identifier are removed, no object with it is left, and
/// removing it again removes nothing.
pub proof fn lemma_removed_object_is_gone(objects: Seq<SmartObject>, object_id: SmartObjectId)
    ensures
        !object_ids(objects.filter(keeps_object(object_id))).contains(object_id),
        objects.filter(keeps_object(object_id)).filter(keeps_object(object_id)) == objects.filter(
            keeps_object(object_id),
        ),
{
    let kept = objects.filter(keeps_object(object_id));
    if object_ids(kept).contains(object_id) {
        let k = choose|k: int| 0 <= k < object_ids(kept).len() && object_ids(kept)[k] == object_id;
        objects.lemma_filter_pred(keeps_object(object_id), k);
    }
    lemma_filter_keeps_all(kept, keeps_object(object_id));
}

/// Filtering a sequence all of whose elements pass the predicate changes nothing.
proof fn lemma_filter_keeps_all(s: Seq<SmartObject>, pred: spec_fn(SmartObject) -> bool)
    requires
        forall|i: int| 0 <= i < s.len() ==> pred(#[trigger] s[i]),
    ensures
        s.filter(pred) == s,
    decreases s.len(),
{
    reveal(Seq::filter);
    if s.len() > 0 {
        lemma_filter_keeps_all(s.drop_last(), pred);
        assert(s.drop_last().push(s.last()) =~= s);
    }
}

} // verus!
