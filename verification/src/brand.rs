//! The brand entity and its repository operations.

use vstd::prelude::*;

use crate::error_handler::CustomError;
use crate::ident::generate_id;
use crate::store::{brand_views, lemma_brand_lookup, lemma_wf_push_brand, lemma_wf_remove_brand,
    lemma_wf_update_brand, BrandRow, Store};

verus! {

/// Payload of a create or replace request: the client-settable fields.
/// `is_active` may be omitted.
#[derive(Debug)]
pub struct Brand {
    pub name: String,
    pub is_active: Option<bool>,
}

impl Brand {
    /// The status a create stores: the given one, or `true` when omitted.
    pub open spec fn status_or_default(self) -> bool {
        match self.is_active {
            Some(b) => b,
            None => true,
        }
    }
}

/// A stored brand row: server-generated id plus the client-settable fields.
#[derive(Debug)]
pub struct Brands {
    pub id: u128,
    pub name: String,
    pub is_active: bool,
}

impl View for Brands {
    type V = BrandRow;

    open spec fn view(&self) -> BrandRow {
        BrandRow { id: self.id, name: self.name@, is_active: self.is_active }
    }
}

impl Clone for Brands {
    fn clone(&self) -> (r: Self)
        ensures
            r@ == self@,
    {
        Brands { id: self.id, name: self.name.clone(), is_active: self.is_active }
    }
}

impl Brands {
    /// All brands, in insertion order. Never fails: the store is at hand.
    pub fn retrieve_brands(store: &Store) -> (r: Result<Vec<Brands>, CustomError>)
        ensures
            r matches Ok(list) && brand_views(list@) == store@.brands,
    {
        let mut list: Vec<Brands> = Vec::new();
        let mut i: usize = 0;
        while i < store.brands.len()
            invariant
                i <= store.brands.len(),
                brand_views(list@) == store@.brands.take(i as int),
            decreases store.brands.len() - i,
        {
            let b = store.brands[i].clone();
            let ghost prev = list@;
            list.push(b);
            proof {
                assert(brand_views(prev) == store@.brands.take(i as int));
                assert(brand_views(prev).len() == prev.len());
                assert(store@.brands.take(i as int).len() == i as int);
                assert(prev.len() == i as int);
                assert(list@ == prev.push(b));
                assert forall|j: int| 0 <= j < i as int + 1 implies brand_views(list@)[j]
                    == store@.brands.take(i as int + 1)[j] by {
                    if j < i as int {
                        assert(brand_views(list@)[j] == brand_views(prev)[j]);
                        assert(brand_views(prev)[j] == store@.brands.take(i as int)[j]);
                    } else {
                        assert(list@[j] == b);
                        assert(b@ == store@.brands[i as int]);
                    }
                }
                assert(brand_views(list@) =~= store@.brands.take(i as int + 1));
            }
            i += 1;
        }
        proof {
            assert(store@.brands.take(store.brands.len() as int) =~~= store@.brands);
        }
        Ok(list)
    }

    /// The brand carrying `id`; `NotFound` exactly when no row carries it.
    pub fn retrieve_brand(store: &Store, id: u128) -> (r: Result<Brands, CustomError>)
        requires
            store.wf(),
        ensures
            match r {
                Ok(b) => store@.has_brand(id) && b@ == store@.brand_with(id),
                Err(e) => e == CustomError::NotFound && !store@.has_brand(id),
            },
    {
        match store.find_brand(id) {
            Some(i) => {
                proof {
                    lemma_brand_lookup(store@, i as int, id);
                }
                Ok(store.brands[i].clone())
            },
            None => Err(CustomError::NotFound),
        }
    }

    /// Create a brand under a freshly drawn id: a new row is appended, its
    /// status defaulting to `true` when omitted. The drawn id is random, so
    /// the one failure left is a collision with a stored id, reported as
    /// `InternalError` with the store unchanged (the key constraint).
    pub fn create_brand(store: &mut Store, brand: Brand) -> (r: Result<Brands, CustomError>)
        requires
            old(store).wf(),
        ensures
            final(store).wf(),
            match r {
                Ok(b) => {
                    &&& !old(store)@.has_brand(b@.id)
                    &&& b@.name == brand.name@
                    &&& b@.is_active == brand.status_or_default()
                    &&& final(store)@.brands == old(store)@.brands.push(b@)
                    &&& final(store)@.brand_models == old(store)@.brand_models
                },
                Err(e) => {
                    &&& e == CustomError::InternalError
                    &&& final(store)@ == old(store)@
                },
            },
    {
        let id = generate_id();
        Self::create_brand_with_id(store, id, brand)
    }

    /// The insertion step of [`Brands::create_brand`], for a caller that has
    /// the id in hand: succeeds exactly when `id` is not yet a stored brand
    /// id, appending the row; otherwise `InternalError`, store unchanged.
    pub fn create_brand_with_id(store: &mut Store, id: u128, brand: Brand) -> (r: Result<
        Brands,
        CustomError,
    >)
        requires
            old(store).wf(),
        ensures
            final(store).wf(),
            match r {
                Ok(b) => {
                    &&& !old(store)@.has_brand(id)
                    &&& b@ == (BrandRow { id, name: brand.name@, is_active: brand.status_or_default() })
                    &&& final(store)@.brands == old(store)@.brands.push(b@)
                    &&& final(store)@.brand_models == old(store)@.brand_models
                },
                Err(e) => {
                    &&& e == CustomError::InternalError
                    &&& old(store)@.has_brand(id)
                    &&& final(store)@ == old(store)@
                },
            },
    {
        match store.find_brand(id) {
            Some(i) => {
                proof {
                    lemma_brand_lookup(store@, i as int, id);
                }
                Err(CustomError::InternalError)
            },
            None => {
                let is_active = match brand.is_active {
                    Some(b) => b,
                    None => true,
                };
                let row = Brands { id, name: brand.name, is_active };
                let created = row.clone();
                proof {
                    lemma_wf_push_brand(store@, row@);
                }
                store.brands.push(row);
                proof {
                    assert(store@.brands =~= old(store)@.brands.push(created@));
                    assert(store@.brand_models =~= old(store)@.brand_models);
                }
                Ok(created)
            },
        }
    }

    /// Replace the row carrying `id` with the given fields; `NotFound` with
    /// the store unchanged exactly when no row carries `id`. An omitted
    /// `is_active` leaves the stored status untouched (the update writes
    /// only the fields the payload carries).
    pub fn update_brand(store: &mut Store, id: u128, brand: Brand) -> (r: Result<
        Brands,
        CustomError,
    >)
        requires
            old(store).wf(),
        ensures
            final(store).wf(),
            match r {
                Ok(b) => {
                    &&& old(store)@.has_brand(id)
                    &&& b@ == (BrandRow {
                        id,
                        name: brand.name@,
                        is_active: match brand.is_active {
                            Some(v) => v,
                            None => old(store)@.brand_with(id).is_active,
                        },
                    })
                    &&& final(store)@.brands == old(store)@.brands.update(
                        old(store)@.brand_index(id),
                        b@,
                    )
                    &&& final(store)@.brand_models == old(store)@.brand_models
                },
                Err(e) => {
                    &&& e == CustomError::NotFound
                    &&& !old(store)@.has_brand(id)
                    &&& final(store)@ == old(store)@
                },
            },
    {
        match store.find_brand(id) {
            Some(i) => {
                proof {
                    lemma_brand_lookup(store@, i as int, id);
                }
                let is_active = match brand.is_active {
                    Some(v) => v,
                    None => store.brands[i].is_active,
                };
                let row = Brands { id, name: brand.name, is_active };
                let updated = row.clone();
                proof {
                    lemma_wf_update_brand(store@, i as int, row@);
                }
                store.brands[i] = row;
                proof {
                    assert(store@.brands =~= old(store)@.brands.update(i as int, updated@));
                    assert(store@.brand_models =~= old(store)@.brand_models);
                }
                Ok(updated)
            },
            None => Err(CustomError::NotFound),
        }
    }

    /// Set only the status of the row carrying `id`; `NotFound` with the
    /// store unchanged exactly when no row carries `id`.
    pub fn update_brand_status(store: &mut Store, id: u128, is_active: bool) -> (r: Result<
        Brands,
        CustomError,
    >)
        requires
            old(store).wf(),
        ensures
            final(store).wf(),
            match r {
                Ok(b) => {
                    &&& old(store)@.has_brand(id)
                    &&& b@ == (BrandRow {
                        id,
                        name: old(store)@.brand_with(id).name,
                        is_active,
                    })
                    &&& final(store)@.brands == old(store)@.brands.update(
                        old(store)@.brand_index(id),
                        b@,
                    )
                    &&& final(store)@.brand_models == old(store)@.brand_models
                },
                Err(e) => {
                    &&& e == CustomError::NotFound
                    &&& !old(store)@.has_brand(id)
                    &&& final(store)@ == old(store)@
                },
            },
    {
        match store.find_brand(id) {
            Some(i) => {
                proof {
                    lemma_brand_lookup(store@, i as int, id);
                }
                let row = Brands { id, name: store.brands[i].name.clone(), is_active };
                let updated = row.clone();
                proof {
                    lemma_wf_update_brand(store@, i as int, row@);
                }
                store.brands[i] = row;
                proof {
                    assert(store@.brands =~= old(store)@.brands.update(i as int, updated@));
                    assert(store@.brand_models =~= old(store)@.brand_models);
                }
                Ok(updated)
            },
            None => Err(CustomError::NotFound),
        }
    }

    /// Remove the row carrying `id`, reporting how many rows went (one).
    /// `NotFound` exactly when no row carries `id`; a brand that still has
    /// brand-models is kept and the delete is rejected as `InternalError`
    /// (the foreign key restricts the delete rather than cascading). On any
    /// error the store is unchanged.
    pub fn delete_brand(store: &mut Store, id: u128) -> (r: Result<Option<usize>, CustomError>)
        requires
            old(store).wf(),
        ensures
            final(store).wf(),
            match r {
                Ok(n) => {
                    &&& old(store)@.has_brand(id)
                    &&& !old(store)@.brand_has_models(id)
                    &&& n == Some(1usize)
                    &&& final(store)@.brands == old(store)@.brands.remove(
                        old(store)@.brand_index(id),
                    )
                    &&& final(store)@.brand_models == old(store)@.brand_models
                },
                Err(e) => {
                    &&& final(store)@ == old(store)@
                    &&& (e == CustomError::NotFound <==> !old(store)@.has_brand(id))
                    &&& (e == CustomError::InternalError <==> old(store)@.has_brand(id)
                        && old(store)@.brand_has_models(id))
                },
            },
    {
        match store.find_brand(id) {
            Some(i) => {
                proof {
                    lemma_brand_lookup(store@, i as int, id);
                }
                if store.brand_has_models(id) {
                    Err(CustomError::InternalError)
                } else {
                    proof {
                        lemma_wf_remove_brand(store@, i as int);
                    }
                    store.brands.remove(i);
                    proof {
                        assert(store@.brands =~= old(store)@.brands.remove(i as int));
                        assert(store@.brand_models =~= old(store)@.brand_models);
                    }
                    Ok(Some(1))
                }
            },
            None => Err(CustomError::NotFound),
        }
    }
}

} // verus!
