//! Laws relating the repository operations, proved over the abstract store.

use vstd::prelude::*;

use crate::store::{lemma_brand_lookup, lemma_model_lookup, lemma_wf_push_brand,
    lemma_wf_push_model, BrandRow, ModelRow, StoreView};

verus! {

/// A brand just created is found again unchanged: creating appends the row,
/// and a subsequent lookup of its id resolves to exactly that row (its id,
/// name and status as created).
pub proof fn lemma_retrieve_after_create_brand(s: StoreView, b: BrandRow)
    requires
        s.wf(),
        !s.has_brand(b.id),
    ensures
        ({
            let s2 = StoreView { brands: s.brands.push(b), brand_models: s.brand_models };
            &&& s2.wf()
            &&& s2.has_brand(b.id)
            &&& s2.brand_with(b.id) == b
        }),
{
    let s2 = StoreView { brands: s.brands.push(b), brand_models: s.brand_models };
    lemma_wf_push_brand(s, b);
    assert(s2.brands[s.brands.len() as int] == b);
    lemma_brand_lookup(s2, s.brands.len() as int, b.id);
}

/// A brand-model just created is found again unchanged under its
/// `(brand_id, id)` pair.
pub proof fn lemma_retrieve_after_create_model(s: StoreView, m: ModelRow)
    requires
        s.wf(),
        !s.has_model_id(m.id),
        s.has_brand(m.brand_id),
    ensures
        ({
            let s2 = StoreView { brands: s.brands, brand_models: s.brand_models.push(m) };
            &&& s2.wf()
            &&& s2.has_brand_model(m.brand_id, m.id)
            &&& s2.model_with(m.brand_id, m.id) == m
        }),
{
    let s2 = StoreView { brands: s.brands, brand_models: s.brand_models.push(m) };
    lemma_wf_push_model(s, m);
    assert(s2.brand_models[s.brand_models.len() as int] == m);
    lemma_model_lookup(s2, s.brand_models.len() as int, m.brand_id, m.id);
}

/// Creating a brand-model extends exactly its own brand's listing, by that
/// model at the end, and leaves every other brand's listing unchanged.
pub proof fn lemma_list_after_create_model(s: StoreView, m: ModelRow, other: u128)
    requires
        s.wf(),
    ensures
        ({
            let s2 = StoreView { brands: s.brands, brand_models: s.brand_models.push(m) };
            &&& s2.models_of(m.brand_id) == s.models_of(m.brand_id).push(m)
            &&& other != m.brand_id ==> s2.models_of(other) == s.models_of(other)
        }),
{
    let s2 = StoreView { brands: s.brands, brand_models: s.brand_models.push(m) };
    reveal(Seq::filter);
    assert(s2.brand_models.drop_last() =~= s.brand_models);
    assert(s2.brand_models.last() == m);
}

/// A brand-model is visible only under its own brand: when its id is stored
/// under one brand, looking the id up under any other brand finds nothing,
/// because brand-model ids are unique across the whole table.
pub proof fn lemma_model_scoped_to_brand(s: StoreView, brand_a: u128, brand_b: u128, id: u128)
    requires
        s.wf(),
        s.has_brand_model(brand_b, id),
        brand_a != brand_b,
    ensures
        !s.has_brand_model(brand_a, id),
{
    if s.has_brand_model(brand_a, id) {
        let i = s.model_index(brand_a, id);
        let j = s.model_index(brand_b, id);
        assert(s.brand_models[i].id == id);
        assert(s.brand_models[j].id == id);
        assert(i == j);
        assert(false);
    }
}

} // verus!
