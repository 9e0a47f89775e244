//! The relational store holding the two tables, with its abstract view and
//! the invariants every repository operation preserves.
//!
//! The store owns both tables in insertion order. Its well-formedness
//! predicate states the relational constraints: brand ids are unique,
//! brand-model ids are unique, and every brand-model references an existing
//! brand (the foreign key).

use vstd::prelude::*;

use crate::brand::Brands;
use crate::brand_model::BrandModels;

verus! {

/// Abstract value of one brand row.
pub struct BrandRow {
    pub id: u128,
    pub name: Seq<char>,
    pub is_active: bool,
}

/// Abstract value of one brand-model row.
pub struct ModelRow {
    pub id: u128,
    pub name: Seq<char>,
    pub is_active: bool,
    pub brand_id: u128,
}

/// Abstract state of the store: both tables, each in insertion order.
pub struct StoreView {
    pub brands: Seq<BrandRow>,
    pub brand_models: Seq<ModelRow>,
}

impl StoreView {
    /// Some brand row carries `id`.
    pub open spec fn has_brand(self, id: u128) -> bool {
        exists|i: int| 0 <= i < self.brands.len() && self.brands[i].id == id
    }

    /// Index of the brand row carrying `id` (meaningful when `has_brand(id)`).
    pub open spec fn brand_index(self, id: u128) -> int {
        choose|i: int| 0 <= i < self.brands.len() && self.brands[i].id == id
    }

    /// The brand row carrying `id` (meaningful when `has_brand(id)`).
    pub open spec fn brand_with(self, id: u128) -> BrandRow {
        self.brands[self.brand_index(id)]
    }

    /// Some brand-model row carries `id` and belongs to `brand_id`.
    pub open spec fn has_brand_model(self, brand_id: u128, id: u128) -> bool {
        exists|i: int|
            0 <= i < self.brand_models.len() && self.brand_models[i].id == id
                && self.brand_models[i].brand_id == brand_id
    }

    /// Some brand-model row carries `id`, under whatever brand.
    pub open spec fn has_model_id(self, id: u128) -> bool {
        exists|i: int| 0 <= i < self.brand_models.len() && self.brand_models[i].id == id
    }

    /// Index of the brand-model row matching the `(brand_id, id)` pair
    /// (meaningful when `has_brand_model(brand_id, id)`).
    pub open spec fn model_index(self, brand_id: u128, id: u128) -> int {
        choose|i: int|
            0 <= i < self.brand_models.len() && self.brand_models[i].id == id
                && self.brand_models[i].brand_id == brand_id
    }

    /// The brand-model row matching the `(brand_id, id)` pair.
    pub open spec fn model_with(self, brand_id: u128, id: u128) -> ModelRow {
        self.brand_models[self.model_index(brand_id, id)]
    }

    /// All brand-model rows belonging to `brand_id`, in insertion order.
    pub open spec fn models_of(self, brand_id: u128) -> Seq<ModelRow> {
        models_matching(self.brand_models, brand_id)
    }

    /// Some brand-model row belongs to `brand_id`.
    pub open spec fn brand_has_models(self, brand_id: u128) -> bool {
        exists|i: int| 0 <= i < self.brand_models.len() && self.brand_models[i].brand_id == brand_id
    }

    /// The relational constraints: unique brand ids, unique brand-model ids,
    /// and every brand-model's `brand_id` references an existing brand.
    pub open spec fn wf(self) -> bool {
        &&& forall|i: int, j: int|
            #![trigger self.brands[i].id, self.brands[j].id]
            0 <= i < self.brands.len() && 0 <= j < self.brands.len() && i != j
                ==> self.brands[i].id != self.brands[j].id
        &&& forall|i: int, j: int|
            #![trigger self.brand_models[i].id, self.brand_models[j].id]
            0 <= i < self.brand_models.len() && 0 <= j < self.brand_models.len() && i != j
                ==> self.brand_models[i].id != self.brand_models[j].id
        &&& forall|i: int|
            0 <= i < self.brand_models.len() ==> self.has_brand(
                #[trigger] self.brand_models[i].brand_id,
            )
    }
}

/// The brand-model rows of `rows` belonging to `brand_id`, in order.
pub open spec fn models_matching(rows: Seq<ModelRow>, brand_id: u128) -> Seq<ModelRow> {
    rows.filter(|m: ModelRow| m.brand_id == brand_id)
}

/// One step of walking a table while keeping the rows of one brand: taking
/// one row more extends the kept rows by that row exactly when it belongs
/// to the brand.
pub proof fn lemma_models_matching_step(rows: Seq<ModelRow>, brand_id: u128, i: int)
    requires
        0 <= i < rows.len(),
    ensures
        models_matching(rows.take(i + 1), brand_id) == if rows[i].brand_id == brand_id {
            models_matching(rows.take(i), brand_id).push(rows[i])
        } else {
            models_matching(rows.take(i), brand_id)
        },
{
    reveal(Seq::filter);
    let t1 = rows.take(i + 1);
    assert(t1.drop_last() =~= rows.take(i));
    assert(t1.last() == rows[i]);
}

/// If the brand at index `i` carries `id`, that index is the one every
/// id-based lookup resolves to (ids are unique in a well-formed store).
pub proof fn lemma_brand_lookup(s: StoreView, i: int, id: u128)
    requires
        s.wf(),
        0 <= i < s.brands.len(),
        s.brands[i].id == id,
    ensures
        s.has_brand(id),
        s.brand_index(id) == i,
        s.brand_with(id) == s.brands[i],
{
    assert(s.has_brand(id));
    let j = s.brand_index(id);
    assert(s.brands[j].id == id);
}

/// The model lookup counterpart of [`lemma_brand_lookup`].
pub proof fn lemma_model_lookup(s: StoreView, i: int, brand_id: u128, id: u128)
    requires
        s.wf(),
        0 <= i < s.brand_models.len(),
        s.brand_models[i].id == id,
        s.brand_models[i].brand_id == brand_id,
    ensures
        s.has_brand_model(brand_id, id),
        s.model_index(brand_id, id) == i,
        s.model_with(brand_id, id) == s.brand_models[i],
{
    assert(s.has_brand_model(brand_id, id));
    let j = s.model_index(brand_id, id);
    assert(s.brand_models[j].id == id);
}

/// Appending a brand with a fresh id keeps the store well-formed.
pub proof fn lemma_wf_push_brand(s: StoreView, b: BrandRow)
    requires
        s.wf(),
        !s.has_brand(b.id),
    ensures
        (StoreView { brands: s.brands.push(b), brand_models: s.brand_models }).wf(),
{
    let s2 = StoreView { brands: s.brands.push(b), brand_models: s.brand_models };
    assert forall|i: int, j: int|
        0 <= i < s2.brands.len() && 0 <= j < s2.brands.len() && i != j implies #[trigger] s2.brands[i].id
        != #[trigger] s2.brands[j].id by {
        if i < s.brands.len() && j < s.brands.len() {
        } else if i < s.brands.len() {
            assert(s.brands[i].id != b.id);
        } else {
            assert(s.brands[j].id != b.id);
        }
    }
    assert forall|i: int| 0 <= i < s2.brand_models.len() implies s2.has_brand(
        #[trigger] s2.brand_models[i].brand_id,
    ) by {
        let w = s.brand_index(s.brand_models[i].brand_id);
        assert(s2.brands[w].id == s.brand_models[i].brand_id);
    }
}

/// Replacing the brand at index `i` by a row with the same id keeps the
/// store well-formed.
pub proof fn lemma_wf_update_brand(s: StoreView, i: int, b: BrandRow)
    requires
        s.wf(),
        0 <= i < s.brands.len(),
        b.id == s.brands[i].id,
    ensures
        (StoreView { brands: s.brands.update(i, b), brand_models: s.brand_models }).wf(),
{
    let s2 = StoreView { brands: s.brands.update(i, b), brand_models: s.brand_models };
    assert forall|k: int| 0 <= k < s2.brand_models.len() implies s2.has_brand(
        #[trigger] s2.brand_models[k].brand_id,
    ) by {
        let w = s.brand_index(s.brand_models[k].brand_id);
        assert(s2.brands[w].id == s.brand_models[k].brand_id);
    }
}

/// Removing a brand no brand-model references keeps the store well-formed.
pub proof fn lemma_wf_remove_brand(s: StoreView, i: int)
    requires
        s.wf(),
        0 <= i < s.brands.len(),
        !s.brand_has_models(s.brands[i].id),
    ensures
        (StoreView { brands: s.brands.remove(i), brand_models: s.brand_models }).wf(),
{
    let s2 = StoreView { brands: s.brands.remove(i), brand_models: s.brand_models };
    assert forall|k: int| 0 <= k < s2.brand_models.len() implies s2.has_brand(
        #[trigger] s2.brand_models[k].brand_id,
    ) by {
        let target = s.brand_models[k].brand_id;
        let w = s.brand_index(target);
        assert(s.brands[w].id == target);
        assert(w != i);
        if w < i {
            assert(s2.brands[w].id == target);
        } else {
            assert(s2.brands[w - 1].id == target);
        }
    }
}

/// Appending a brand-model with a fresh id whose brand exists keeps the
/// store well-formed.
pub proof fn lemma_wf_push_model(s: StoreView, m: ModelRow)
    requires
        s.wf(),
        !s.has_model_id(m.id),
        s.has_brand(m.brand_id),
    ensures
        (StoreView { brands: s.brands, brand_models: s.brand_models.push(m) }).wf(),
{
    let s2 = StoreView { brands: s.brands, brand_models: s.brand_models.push(m) };
    assert forall|i: int, j: int|
        0 <= i < s2.brand_models.len() && 0 <= j < s2.brand_models.len() && i != j implies #[trigger] s2.brand_models[i].id
        != #[trigger] s2.brand_models[j].id by {
        if i < s.brand_models.len() && j < s.brand_models.len() {
        } else if i < s.brand_models.len() {
            assert(s.brand_models[i].id != m.id);
        } else {
            assert(s.brand_models[j].id != m.id);
        }
    }
    assert forall|i: int| 0 <= i < s2.brand_models.len() implies s2.has_brand(
        #[trigger] s2.brand_models[i].brand_id,
    ) by {
        if i < s.brand_models.len() {
            assert(s.has_brand(s.brand_models[i].brand_id));
            let w = s.brand_index(s.brand_models[i].brand_id);
            assert(s2.brands[w].id == s2.brand_models[i].brand_id);
        } else {
            let w = s.brand_index(m.brand_id);
            assert(s2.brands[w].id == s2.brand_models[i].brand_id);
        }
    }
}

/// Replacing the brand-model at index `i` by a row with the same id whose
/// brand exists keeps the store well-formed.
pub proof fn lemma_wf_update_model(s: StoreView, i: int, m: ModelRow)
    requires
        s.wf(),
        0 <= i < s.brand_models.len(),
        m.id == s.brand_models[i].id,
        s.has_brand(m.brand_id),
    ensures
        (StoreView { brands: s.brands, brand_models: s.brand_models.update(i, m) }).wf(),
{
    let s2 = StoreView { brands: s.brands, brand_models: s.brand_models.update(i, m) };
    assert forall|k: int, l: int|
        0 <= k < s2.brand_models.len() && 0 <= l < s2.brand_models.len() && k != l implies #[trigger] s2.brand_models[k].id
        != #[trigger] s2.brand_models[l].id by {
        assert(s.brand_models[k].id != s.brand_models[l].id);
    }
    assert forall|k: int| 0 <= k < s2.brand_models.len() implies s2.has_brand(
        #[trigger] s2.brand_models[k].brand_id,
    ) by {
        if k != i {
            assert(s.has_brand(s.brand_models[k].brand_id));
            let w = s.brand_index(s.brand_models[k].brand_id);
            assert(s2.brands[w].id == s2.brand_models[k].brand_id);
        } else {
            let w = s.brand_index(m.brand_id);
            assert(s2.brands[w].id == s2.brand_models[k].brand_id);
        }
    }
}

/// Removing a brand-model keeps the store well-formed.
pub proof fn lemma_wf_remove_model(s: StoreView, i: int)
    requires
        s.wf(),
        0 <= i < s.brand_models.len(),
    ensures
        (StoreView { brands: s.brands, brand_models: s.brand_models.remove(i) }).wf(),
{
    let s2 = StoreView { brands: s.brands, brand_models: s.brand_models.remove(i) };
    assert forall|k: int, l: int|
        0 <= k < s2.brand_models.len() && 0 <= l < s2.brand_models.len() && k != l implies #[trigger] s2.brand_models[k].id
        != #[trigger] s2.brand_models[l].id by {
        let k0 = if k < i { k } else { k + 1 };
        let l0 = if l < i { l } else { l + 1 };
        assert(s2.brand_models[k] == s.brand_models[k0]);
        assert(s2.brand_models[l] == s.brand_models[l0]);
    }
    assert forall|k: int| 0 <= k < s2.brand_models.len() implies s2.has_brand(
        #[trigger] s2.brand_models[k].brand_id,
    ) by {
        let k0 = if k < i { k } else { k + 1 };
        assert(s2.brand_models[k] == s.brand_models[k0]);
        assert(s.has_brand(s.brand_models[k0].brand_id));
        let w = s.brand_index(s.brand_models[k0].brand_id);
        assert(s2.brands[w].id == s2.brand_models[k].brand_id);
    }
}

/// The abstract value of a brand table: each row's view, in order.
pub open spec fn brand_views(rows: Seq<Brands>) -> Seq<BrandRow> {
    rows.map_values(|b: Brands| b@)
}

/// The abstract value of a brand-model table: each row's view, in order.
pub open spec fn model_views(rows: Seq<BrandModels>) -> Seq<ModelRow> {
    rows.map_values(|m: BrandModels| m@)
}

/// The store: both tables, as the repository operations manipulate them.
pub struct Store {
    pub brands: Vec<Brands>,
    pub brand_models: Vec<BrandModels>,
}

impl View for Store {
    type V = StoreView;

    open spec fn view(&self) -> StoreView {
        StoreView {
            brands: brand_views(self.brands@),
            brand_models: model_views(self.brand_models@),
        }
    }
}

impl Store {
    /// Shorthand for well-formedness of the abstract state.
    pub open spec fn wf(self) -> bool {
        self@.wf()
    }

    /// An empty store: no brands, no brand-models.
    pub fn new() -> (store: Store)
        ensures
            store@.brands == Seq::<BrandRow>::empty(),
            store@.brand_models == Seq::<ModelRow>::empty(),
            store.wf(),
    {
        let store = Store { brands: Vec::new(), brand_models: Vec::new() };
        proof {
            assert(store@.brands =~= Seq::<BrandRow>::empty());
            assert(store@.brand_models =~= Seq::<ModelRow>::empty());
        }
        store
    }

    /// Index of the brand row carrying `id`, if any.
    pub fn find_brand(&self, id: u128) -> (r: Option<usize>)
        ensures
            match r {
                Some(i) => i < self.brands.len() && self@.brands[i as int].id == id,
                None => !self@.has_brand(id),
            },
    {
        let mut i: usize = 0;
        while i < self.brands.len()
            invariant
                i <= self.brands.len(),
                forall|j: int| 0 <= j < i ==> self@.brands[j].id != id,
            decreases self.brands.len() - i,
        {
            if self.brands[i].id == id {
                return Some(i);
            }
            i += 1;
        }
        None
    }

    /// Index of the brand-model row matching the `(brand_id, id)` pair, if any.
    pub fn find_brand_model(&self, brand_id: u128, id: u128) -> (r: Option<usize>)
        ensures
            match r {
                Some(i) => i < self.brand_models.len() && self@.brand_models[i as int].id == id
                    && self@.brand_models[i as int].brand_id == brand_id,
                None => !self@.has_brand_model(brand_id, id),
            },
    {
        let mut i: usize = 0;
        while i < self.brand_models.len()
            invariant
                i <= self.brand_models.len(),
                forall|j: int|
                    0 <= j < i ==> !(self@.brand_models[j].id == id && self@.brand_models[j].brand_id
                        == brand_id),
            decreases self.brand_models.len() - i,
        {
            if self.brand_models[i].id == id && self.brand_models[i].brand_id == brand_id {
                return Some(i);
            }
            i += 1;
        }
        None
    }

    /// Whether some brand-model row carries `id`, under whatever brand.
    pub fn model_id_in_use(&self, id: u128) -> (r: bool)
        ensures
            r == self@.has_model_id(id),
    {
        let mut i: usize = 0;
        while i < self.brand_models.len()
            invariant
                i <= self.brand_models.len(),
                forall|j: int| 0 <= j < i ==> self@.brand_models[j].id != id,
            decreases self.brand_models.len() - i,
        {
            if self.brand_models[i].id == id {
                proof {
                    assert(self@.brand_models[i as int].id == id);
                }
                return true;
            }
            i += 1;
        }
        false
    }

    /// Whether some brand-model row belongs to `brand_id`.
    pub fn brand_has_models(&self, brand_id: u128) -> (r: bool)
        ensures
            r == self@.brand_has_models(brand_id),
    {
        let mut i: usize = 0;
        while i < self.brand_models.len()
            invariant
                i <= self.brand_models.len(),
                forall|j: int| 0 <= j < i ==> self@.brand_models[j].brand_id != brand_id,
            decreases self.brand_models.len() - i,
        {
            if self.brand_models[i].brand_id == brand_id {
                proof {
                    assert(self@.brand_models[i as int].brand_id == brand_id);
                }
                return true;
            }
            i += 1;
        }
        false
    }
}

} // verus!
