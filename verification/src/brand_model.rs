//! The brand-model entity and its repository operations. Every operation is
//! scoped by the parent brand: a row is addressed by the `(brand_id, id)`
//! pair, never by its id alone.

use vstd::prelude::*;

use crate::error_handler::CustomError;
use crate::ident::generate_id;
use crate::store::{lemma_model_lookup, lemma_models_matching_step, lemma_wf_push_model,
    lemma_wf_remove_model, lemma_wf_update_model, model_views, models_matching, ModelRow, Store};

verus! {

/// Payload of a create or replace request for a brand-model. The `brand_id`
/// a creation payload may carry is ignored: the row is filed under the brand
/// addressed by the request path.
#[derive(Debug)]
pub struct BrandModel {
    pub name: String,
    pub is_active: bool,
    pub brand_id: Option<u128>,
}

/// A stored brand-model row.
#[derive(Debug)]
pub struct BrandModels {
    pub id: u128,
    pub name: String,
    pub is_active: bool,
    pub brand_id: u128,
}

impl View for BrandModels {
    type V = ModelRow;

    open spec fn view(&self) -> ModelRow {
        ModelRow {
            id: self.id,
            name: self.name@,
            is_active: self.is_active,
            brand_id: self.brand_id,
        }
    }
}

impl Clone for BrandModels {
    fn clone(&self) -> (r: Self)
        ensures
            r@ == self@,
    {
        BrandModels {
            id: self.id,
            name: self.name.clone(),
            is_active: self.is_active,
            brand_id: self.brand_id,
        }
    }
}

impl BrandModels {
    /// All brand-models belonging to `brand_id`, in insertion order; empty
    /// when the brand has none (or does not exist). Never fails: the store
    /// is at hand.
    pub fn retrieve_brand_models(store: &Store, brand_id: u128) -> (r: Result<
        Vec<BrandModels>,
        CustomError,
    >)
        ensures
            r matches Ok(list) && model_views(list@) == store@.models_of(brand_id),
    {
        let mut list: Vec<BrandModels> = Vec::new();
        let mut i: usize = 0;
        while i < store.brand_models.len()
            invariant
                i <= store.brand_models.len(),
                model_views(list@) == models_matching(
                    store@.brand_models.take(i as int),
                    brand_id,
                ),
            decreases store.brand_models.len() - i,
        {
            proof {
                lemma_models_matching_step(store@.brand_models, brand_id, i as int);
            }
            let ghost prev = list@;
            if store.brand_models[i].brand_id == brand_id {
                let m = store.brand_models[i].clone();
                proof {
                    assert(m@ == store@.brand_models[i as int]);
                }
                list.push(m);
                proof {
                    assert(list@ == prev.push(m));
                    assert(model_views(list@) =~= model_views(prev).push(m@));
                }
            }
            i += 1;
        }
        proof {
            assert(store@.brand_models.take(store.brand_models.len() as int)
                =~= store@.brand_models);
        }
        Ok(list)
    }

    /// The brand-model matching the `(brand_id, id)` pair; `NotFound`
    /// exactly when no row matches both. A row whose id exists under a
    /// different brand is not visible here.
    pub fn retrieve_brand_model(store: &Store, brand_id: u128, model_id: u128) -> (r: Result<
        BrandModels,
        CustomError,
    >)
        requires
            store.wf(),
        ensures
            match r {
                Ok(m) => store@.has_brand_model(brand_id, model_id) && m@ == store@.model_with(
                    brand_id,
                    model_id,
                ),
                Err(e) => e == CustomError::NotFound && !store@.has_brand_model(
                    brand_id,
                    model_id,
                ),
            },
    {
        match store.find_brand_model(brand_id, model_id) {
            Some(i) => {
                proof {
                    lemma_model_lookup(store@, i as int, brand_id, model_id);
                }
                Ok(store.brand_models[i].clone())
            },
            None => Err(CustomError::NotFound),
        }
    }

    /// Create a brand-model under `brand_id` with a freshly drawn id. Any
    /// `brand_id` the payload carries is ignored: the row is filed under
    /// the parent given here. `NotFound` with the store unchanged exactly
    /// when that parent brand does not exist (the foreign key); the drawn
    /// id colliding with a stored one is reported as `InternalError`.
    pub fn create_brand_model(store: &mut Store, brand_model: BrandModel, brand_id: u128) -> (r:
        Result<BrandModels, CustomError>)
        requires
            old(store).wf(),
        ensures
            final(store).wf(),
            !old(store)@.has_brand(brand_id) ==> r is Err,
            match r {
                Ok(m) => {
                    &&& old(store)@.has_brand(brand_id)
                    &&& !old(store)@.has_model_id(m@.id)
                    &&& m@.name == brand_model.name@
                    &&& m@.is_active == brand_model.is_active
                    &&& m@.brand_id == brand_id
                    &&& final(store)@.brand_models == old(store)@.brand_models.push(m@)
                    &&& final(store)@.brands == old(store)@.brands
                },
                Err(e) => {
                    &&& final(store)@ == old(store)@
                    &&& (e == CustomError::NotFound <==> !old(store)@.has_brand(brand_id))
                    &&& (e == CustomError::InternalError ==> old(store)@.has_brand(brand_id))
                },
            },
    {
        let id = generate_id();
        Self::create_brand_model_with_id(store, id, brand_model, brand_id)
    }

    /// The insertion step of [`BrandModels::create_brand_model`], for a
    /// caller that has the id in hand: succeeds exactly when the parent
    /// brand exists and `id` is not yet a stored brand-model id.
    pub fn create_brand_model_with_id(
        store: &mut Store,
        id: u128,
        brand_model: BrandModel,
        brand_id: u128,
    ) -> (r: Result<BrandModels, CustomError>)
        requires
            old(store).wf(),
        ensures
            final(store).wf(),
            match r {
                Ok(m) => {
                    &&& old(store)@.has_brand(brand_id)
                    &&& !old(store)@.has_model_id(id)
                    &&& m@ == (ModelRow {
                        id,
                        name: brand_model.name@,
                        is_active: brand_model.is_active,
                        brand_id,
                    })
                    &&& final(store)@.brand_models == old(store)@.brand_models.push(m@)
                    &&& final(store)@.brands == old(store)@.brands
                },
                Err(e) => {
                    &&& final(store)@ == old(store)@
                    &&& (e == CustomError::NotFound <==> !old(store)@.has_brand(brand_id))
                    &&& (e == CustomError::InternalError <==> old(store)@.has_brand(brand_id)
                        && old(store)@.has_model_id(id))
                },
            },
    {
        match store.find_brand(brand_id) {
            None => Err(CustomError::NotFound),
            Some(b) => {
                proof {
                    assert(store@.brands[b as int].id == brand_id);
                    assert(store@.has_brand(brand_id));
                }
                if store.model_id_in_use(id) {
                    Err(CustomError::InternalError)
                } else {
                    let row = BrandModels {
                        id,
                        name: brand_model.name,
                        is_active: brand_model.is_active,
                        brand_id,
                    };
                    let created = row.clone();
                    proof {
                        lemma_wf_push_model(store@, row@);
                    }
                    store.brand_models.push(row);
                    proof {
                        assert(store@.brand_models =~= old(store)@.brand_models.push(created@));
                        assert(store@.brands =~= old(store)@.brands);
                    }
                    Ok(created)
                }
            },
        }
    }

    /// Replace the row matching the `(brand_id, id)` pair with the payload's
    /// fields, its `brand_id` included: the payload may re-file the row
    /// under another existing brand. `NotFound` with the store unchanged
    /// exactly when no row matches the pair; a payload `brand_id` that
    /// references no brand violates the foreign key and is rejected as
    /// `InternalError`, store unchanged.
    pub fn update_brand_model(
        store: &mut Store,
        brand_id: u128,
        model_id: u128,
        brand_model: BrandModels,
    ) -> (r: Result<BrandModels, CustomError>)
        requires
            old(store).wf(),
        ensures
            final(store).wf(),
            match r {
                Ok(m) => {
                    &&& old(store)@.has_brand_model(brand_id, model_id)
                    &&& old(store)@.has_brand(brand_model.brand_id)
                    &&& m@ == (ModelRow {
                        id: model_id,
                        name: brand_model.name@,
                        is_active: brand_model.is_active,
                        brand_id: brand_model.brand_id,
                    })
                    &&& final(store)@.brand_models == old(store)@.brand_models.update(
                        old(store)@.model_index(brand_id, model_id),
                        m@,
                    )
                    &&& final(store)@.brands == old(store)@.brands
                },
                Err(e) => {
                    &&& final(store)@ == old(store)@
                    &&& (e == CustomError::NotFound <==> !old(store)@.has_brand_model(
                        brand_id,
                        model_id,
                    ))
                    &&& (e == CustomError::InternalError <==> old(store)@.has_brand_model(
                        brand_id,
                        model_id,
                    ) && !old(store)@.has_brand(brand_model.brand_id))
                },
            },
    {
        match store.find_brand_model(brand_id, model_id) {
            None => Err(CustomError::NotFound),
            Some(i) => {
                proof {
                    lemma_model_lookup(store@, i as int, brand_id, model_id);
                }
                match store.find_brand(brand_model.brand_id) {
                    None => Err(CustomError::InternalError),
                    Some(b) => {
                        proof {
                            assert(store@.brands[b as int].id == brand_model.brand_id);
                            assert(store@.has_brand(brand_model.brand_id));
                        }
                        let row = BrandModels {
                            id: model_id,
                            name: brand_model.name,
                            is_active: brand_model.is_active,
                            brand_id: brand_model.brand_id,
                        };
                        let updated = row.clone();
                        proof {
                            lemma_wf_update_model(store@, i as int, row@);
                        }
                        store.brand_models[i] = row;
                        proof {
                            assert(store@.brand_models =~= old(store)@.brand_models.update(
                                i as int,
                                updated@,
                            ));
                            assert(store@.brands =~= old(store)@.brands);
                        }
                        Ok(updated)
                    },
                }
            },
        }
    }

    /// Remove the row matching the `(brand_id, id)` pair, reporting how many
    /// rows went (one); `NotFound` with the store unchanged exactly when no
    /// row matches both.
    pub fn delete_brand_model(store: &mut Store, brand_id: u128, model_id: u128) -> (r: Result<
        Option<usize>,
        CustomError,
    >)
        requires
            old(store).wf(),
        ensures
            final(store).wf(),
            match r {
                Ok(n) => {
                    &&& old(store)@.has_brand_model(brand_id, model_id)
                    &&& n == Some(1usize)
                    &&& final(store)@.brand_models == old(store)@.brand_models.remove(
                        old(store)@.model_index(brand_id, model_id),
                    )
                    &&& final(store)@.brands == old(store)@.brands
                },
                Err(e) => {
                    &&& e == CustomError::NotFound
                    &&& !old(store)@.has_brand_model(brand_id, model_id)
                    &&& final(store)@ == old(store)@
                },
            },
    {
        match store.find_brand_model(brand_id, model_id) {
            None => Err(CustomError::NotFound),
            Some(i) => {
                proof {
                    lemma_model_lookup(store@, i as int, brand_id, model_id);
                    lemma_wf_remove_model(store@, i as int);
                }
                store.brand_models.remove(i);
                proof {
                    assert(store@.brand_models =~= old(store)@.brand_models.remove(i as int));
                    assert(store@.brands =~= old(store)@.brands);
                }
                Ok(Some(1))
            },
        }
    }
}

} // verus!
