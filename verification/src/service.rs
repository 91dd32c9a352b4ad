//! The application service: validation, persistence calls, response
//! shaping, and the laws that tie its operations together.

use vstd::prelude::*;

use crate::domain::{
    money_cents_of, valid_name, valid_price, DomainError, Money, ProductId, ProductName,
    StockQuantity,
};
use crate::dtos::{
    response_model_of, response_models_of, responses_of_vec, CreateProductRequest,
    ProductResponse, ResponseModel, SearchProductsQuery, UpdateProductRequest,
};
use crate::product::Product;
use crate::repository::{
    has_id, index_of_id, matches_query, ProductRepository, RepositoryError,
};
use crate::text::{trim_spec, trim_str};

verus! {

/// Application-level failures; the two lower tiers are wrapped, never
/// swallowed. The last three variants are part of the contract surface
/// but unused by the current flows.
#[derive(Debug)]
pub enum ApplicationError {
    ProductNotFound,
    DomainError(DomainError),
    RepositoryError(RepositoryError),
    ValidationError(String),
    AuthorizationError(String),
    InternalError(String),
}

impl ApplicationError {
    pub fn validation(message: String) -> (r: ApplicationError)
        ensures
            r == ApplicationError::ValidationError(message),
    {
        ApplicationError::ValidationError(message)
    }

    pub fn authorization(message: String) -> (r: ApplicationError)
        ensures
            r == ApplicationError::AuthorizationError(message),
    {
        ApplicationError::AuthorizationError(message)
    }

    pub fn internal(message: String) -> (r: ApplicationError)
        ensures
            r == ApplicationError::InternalError(message),
    {
        ApplicationError::InternalError(message)
    }
}

/// What listing all products yields: every row, newest-created first,
/// shaped as responses.
pub open spec fn all_products_result(rows: Seq<Product>) -> Seq<ResponseModel> {
    response_models_of(rows.reverse())
}

/// What a search yields: with a non-blank term, the matching rows,
/// newest-created first; otherwise the full listing.
pub open spec fn search_products_result(rows: Seq<Product>, query: Option<Seq<char>>) -> Seq<
    ResponseModel,
> {
    match query {
        Some(q) => if trim_spec(q).len() > 0 {
            response_models_of(rows.reverse().filter(|p: Product| matches_query(p, q)))
        } else {
            all_products_result(rows)
        },
        None => all_products_result(rows),
    }
}

/// Whether a search request carries no usable term: none at all, or
/// one that is empty once trimmed. Callers that orchestrate their own
/// store fall back to the full listing exactly when this holds.
pub fn query_is_blank(query: &Option<String>) -> (r: bool)
    ensures
        r == (match *query {
            Some(s) => trim_spec(s@).len() == 0,
            None => true,
        }),
{
    match query {
        Some(s) => {
            let trimmed = trim_str(s.as_str());
            trimmed.as_str().unicode_len() == 0
        },
        None => true,
    }
}

/// Searching without a term, or with a blank one, yields exactly what
/// listing all products yields: the same set in the same order.
pub proof fn lemma_search_blank_is_all(rows: Seq<Product>, query: Option<Seq<char>>)
    requires
        match query {
            Some(q) => trim_spec(q).len() == 0,
            None => true,
        },
    ensures
        search_products_result(rows, query) == all_products_result(rows),
{
}

/// Orchestrates product operations over a store that meets the
/// repository contract.
pub struct ProductService<R: ProductRepository> {
    repository: R,
}

impl<R: ProductRepository> ProductService<R> {
    /// The stored products, oldest first.
    pub closed spec fn rows(&self) -> Seq<Product> {
        self.repository.rows()
    }

    /// The identity the store will assign next.
    pub closed spec fn next_ident(&self) -> int {
        self.repository.next_ident()
    }

    /// The store's invariant, carried through every operation.
    pub closed spec fn inv(&self) -> bool {
        self.repository.inv()
    }

    pub fn new(repository: R) -> (r: ProductService<R>)
        ensures
            r.rows() == repository.rows(),
            r.next_ident() == repository.next_ident(),
            r.inv() == repository.inv(),
    {
        ProductService { repository }
    }

    /// Validates the request, persists a new product, and returns its
    /// response shape. The store assigns the identity and stamps the
    /// timestamps; validation failures leave the store untouched.
    pub fn create_product(&mut self, request: CreateProductRequest) -> (r: Result<
        ProductResponse,
        ApplicationError,
    >)
        requires
            old(self).inv(),
            old(self).next_ident() < i64::MAX,
        ensures
            final(self).inv(),
            !valid_name(request.name@) ==> (r matches Err(e) && e matches
                ApplicationError::DomainError(d) && d is InvalidProductName && final(self).rows()
                == old(self).rows() && final(self).next_ident() == old(self).next_ident()),
            valid_name(request.name@) && !valid_price(request.price@) ==> (r matches Err(e)
                && e matches ApplicationError::DomainError(d) && d is InvalidMoney && final(self).rows() == old(self).rows() && final(self).next_ident() == old(self).next_ident()),
            valid_name(request.name@) && valid_price(request.price@) && request.stock < 0 ==> (
            r matches Err(e) && e matches ApplicationError::DomainError(d) && d is InvalidStock
                && final(self).rows() == old(self).rows() && final(self).next_ident() == old(self).next_ident()),
            valid_name(request.name@) && valid_price(request.price@) && request.stock >= 0 ==> (
            r matches Ok(resp) && {
                let saved = final(self).rows().last();
                &&& final(self).rows() == old(self).rows().push(saved)
                &&& final(self).next_ident() == old(self).next_ident() + 1
                &&& saved@.id == old(self).next_ident()
                &&& saved@.name == trim_spec(request.name@)
                &&& saved@.description == request.description.deep_view()
                &&& saved@.price == money_cents_of(request.price@)
                &&& saved@.stock == request.stock
                &&& saved.wf()
                &&& resp@ == response_model_of(saved@)
            }),
    {
        let name = match ProductName::new(request.name) {
            Ok(v) => v,
            Err(e) => {
                return Err(ApplicationError::DomainError(e));
            },
        };
        let price = match Money::from_decimal_str(request.price.as_str()) {
            Ok(v) => v,
            Err(e) => {
                return Err(ApplicationError::DomainError(e));
            },
        };
        let stock = match StockQuantity::new(request.stock) {
            Ok(v) => v,
            Err(e) => {
                return Err(ApplicationError::DomainError(e));
            },
        };
        let id = match self.repository.next_id() {
            Ok(v) => v,
            Err(e) => {
                proof {
                    assert(false);
                }
                return Err(ApplicationError::RepositoryError(e));
            },
        };
        let product = Product::new(id, name, request.description, price, stock);
        let saved = match self.repository.save(product) {
            Ok(v) => v,
            Err(e) => {
                proof {
                    assert(false);
                }
                return Err(ApplicationError::RepositoryError(e));
            },
        };
        let response = ProductResponse::from_product(&saved);
        proof {
            assert(final(self).rows().last() == saved);
        }
        Ok(response)
    }

    /// Every product, newest-created first, shaped as responses.
    pub fn get_all_products(&self) -> (r: Result<Vec<ProductResponse>, ApplicationError>)
        requires
            self.inv(),
        ensures
            (r matches Ok(v) && v@.map_values(|x: ProductResponse| x@) == all_products_result(
                self.rows(),
            )),
    {
        let products = match self.repository.find_all() {
            Ok(v) => v,
            Err(e) => {
                proof {
                    assert(false);
                }
                return Err(ApplicationError::RepositoryError(e));
            },
        };
        Ok(responses_of_vec(&products))
    }

    /// The product carrying `id`; `ProductNotFound` when no row does.
    pub fn get_product_by_id(&self, id: i64) -> (r: Result<ProductResponse, ApplicationError>)
        requires
            self.inv(),
        ensures
            id <= 0 ==> (r matches Err(e) && e matches ApplicationError::DomainError(d)
                && d is InvalidProductId),
            id > 0 && !has_id(self.rows(), id as int) ==> (r matches Err(e)
                && e is ProductNotFound),
            id > 0 && has_id(self.rows(), id as int) ==> (r matches Ok(resp) && resp@
                == response_model_of(self.rows()[index_of_id(self.rows(), id as int)]@)),
    {
        let product_id = match ProductId::new(id) {
            Ok(v) => v,
            Err(e) => {
                return Err(ApplicationError::DomainError(e));
            },
        };
        match self.repository.find_by_id(&product_id) {
            Ok(Some(p)) => Ok(ProductResponse::from_product(&p)),
            Ok(None) => Err(ApplicationError::ProductNotFound),
            Err(e) => {
                proof {
                    assert(false);
                }
                Err(ApplicationError::RepositoryError(e))
            },
        }
    }

    /// Loads the product carrying `id`, validates the fields the request
    /// carries, applies them and persists the result. The description is
    /// always replaced by the request's, absent meaning cleared: the
    /// surrounding layers always treat it as present. A missing product
    /// fails with `ProductNotFound` whatever the request carries.
    pub fn update_product(&mut self, id: i64, request: UpdateProductRequest) -> (r: Result<
        ProductResponse,
        ApplicationError,
    >)
        requires
            old(self).inv(),
        ensures
            final(self).inv(),
            final(self).next_ident() == old(self).next_ident(),
            id <= 0 ==> (r matches Err(e) && e matches ApplicationError::DomainError(d)
                && d is InvalidProductId && final(self).rows() == old(self).rows()),
            id > 0 && !has_id(old(self).rows(), id as int) ==> (r matches Err(e)
                && e is ProductNotFound && final(self).rows() == old(self).rows()),
            id > 0 && has_id(old(self).rows(), id as int) && (request.name matches Some(nm)
                && !valid_name(nm@)) ==> (r matches Err(e) && e matches
            ApplicationError::DomainError(d) && d is InvalidProductName && final(self).rows()
                == old(self).rows()),
            id > 0 && has_id(old(self).rows(), id as int) && (match request.name {
                Some(nm) => valid_name(nm@),
                None => true,
            }) && (request.price matches Some(pr) && !valid_price(pr@)) ==> (r matches Err(e)
                && e matches ApplicationError::DomainError(d) && d is InvalidMoney && final(self).rows() == old(self).rows()),
            id > 0 && has_id(old(self).rows(), id as int) && (match request.name {
                Some(nm) => valid_name(nm@),
                None => true,
            }) && (match request.price {
                Some(pr) => valid_price(pr@),
                None => true,
            }) && (request.stock matches Some(st) && st < 0) ==> (r matches Err(e) && e matches
                ApplicationError::DomainError(d) && d is InvalidStock && final(self).rows()
                == old(self).rows()),
            id > 0 && has_id(old(self).rows(), id as int) && (match request.name {
                Some(nm) => valid_name(nm@),
                None => true,
            }) && (match request.price {
                Some(pr) => valid_price(pr@),
                None => true,
            }) && (match request.stock {
                Some(st) => st >= 0,
                None => true,
            }) ==> (r matches Ok(resp) && {
                let at = index_of_id(old(self).rows(), id as int);
                let updated = final(self).rows()[at];
                &&& final(self).rows() == old(self).rows().update(at, updated)
                &&& updated@.id == id
                &&& updated@.name == (match request.name {
                    Some(nm) => trim_spec(nm@),
                    None => old(self).rows()[at]@.name,
                })
                &&& updated@.description == request.description.deep_view()
                &&& updated@.price == (match request.price {
                    Some(pr) => money_cents_of(pr@),
                    None => old(self).rows()[at]@.price,
                })
                &&& updated@.stock == (match request.stock {
                    Some(st) => st as int,
                    None => old(self).rows()[at]@.stock,
                })
                &&& updated@.created_at == old(self).rows()[at]@.created_at
                &&& updated@.updated_at >= old(self).rows()[at]@.updated_at
                &&& updated.wf()
                &&& resp@ == response_model_of(updated@)
            }),
    {
        let product_id = match ProductId::new(id) {
            Ok(v) => v,
            Err(e) => {
                return Err(ApplicationError::DomainError(e));
            },
        };
        proof {
            self.repository.lemma_inv();
        }
        let mut product = match self.repository.find_by_id(&product_id) {
            Ok(Some(p)) => p,
            Ok(None) => {
                return Err(ApplicationError::ProductNotFound);
            },
            Err(e) => {
                proof {
                    assert(false);
                }
                return Err(ApplicationError::RepositoryError(e));
            },
        };
        let name = match request.name {
            Some(s) => match ProductName::new(s) {
                Ok(v) => Some(v),
                Err(e) => {
                    return Err(ApplicationError::DomainError(e));
                },
            },
            None => None,
        };
        let price = match request.price {
            Some(s) => match Money::from_decimal_str(s.as_str()) {
                Ok(v) => Some(v),
                Err(e) => {
                    return Err(ApplicationError::DomainError(e));
                },
            },
            None => None,
        };
        let stock = match request.stock {
            Some(v) => match StockQuantity::new(v) {
                Ok(q) => Some(q),
                Err(e) => {
                    return Err(ApplicationError::DomainError(e));
                },
            },
            None => None,
        };
        if let Err(e) = product.update(name, Some(request.description), price, stock) {
            proof {
                assert(false);
            }
            return Err(ApplicationError::DomainError(e));
        }
        let updated = match self.repository.update(product) {
            Ok(v) => v,
            Err(e) => {
                proof {
                    assert(false);
                }
                return Err(ApplicationError::RepositoryError(e));
            },
        };
        Ok(ProductResponse::from_product(&updated))
    }

    /// Removes the product carrying `id`; `ProductNotFound` when no row
    /// carried it at the time of the call.
    pub fn delete_product(&mut self, id: i64) -> (r: Result<bool, ApplicationError>)
        requires
            old(self).inv(),
        ensures
            final(self).inv(),
            final(self).next_ident() == old(self).next_ident(),
            id <= 0 ==> (r matches Err(e) && e matches ApplicationError::DomainError(d)
                && d is InvalidProductId && final(self).rows() == old(self).rows()),
            id > 0 && !has_id(old(self).rows(), id as int) ==> (r matches Err(e)
                && e is ProductNotFound && final(self).rows() == old(self).rows()),
            id > 0 && has_id(old(self).rows(), id as int) ==> (r matches Ok(b) && b == true
                && final(self).rows() == old(self).rows().remove(
                index_of_id(old(self).rows(), id as int),
            )),
    {
        let product_id = match ProductId::new(id) {
            Ok(v) => v,
            Err(e) => {
                return Err(ApplicationError::DomainError(e));
            },
        };
        let present = match self.repository.exists_by_id(&product_id) {
            Ok(b) => b,
            Err(e) => {
                proof {
                    assert(false);
                }
                return Err(ApplicationError::RepositoryError(e));
            },
        };
        if !present {
            return Err(ApplicationError::ProductNotFound);
        }
        match self.repository.delete(&product_id) {
            Ok(b) => Ok(b),
            Err(e) => {
                proof {
                    assert(false);
                }
                Err(ApplicationError::RepositoryError(e))
            },
        }
    }

    /// With a non-blank term, the matching products; otherwise the full
    /// listing, exactly as `get_all_products` returns it.
    pub fn search_products(&self, query: SearchProductsQuery) -> (r: Result<
        Vec<ProductResponse>,
        ApplicationError,
    >)
        requires
            self.inv(),
        ensures
            (r matches Ok(v) && v@.map_values(|x: ProductResponse| x@) == search_products_result(
                self.rows(),
                query.query.deep_view(),
            )),
    {
        let blank = query_is_blank(&query.query);
        match query.query {
            Some(term) => {
                if !blank {
                    let products = match self.repository.search_by_name(term.as_str()) {
                        Ok(v) => v,
                        Err(e) => {
                            proof {
                                assert(false);
                            }
                            return Err(ApplicationError::RepositoryError(e));
                        },
                    };
                    Ok(responses_of_vec(&products))
                } else {
                    let products = match self.repository.find_all() {
                        Ok(v) => v,
                        Err(e) => {
                            proof {
                                assert(false);
                            }
                            return Err(ApplicationError::RepositoryError(e));
                        },
                    };
                    Ok(responses_of_vec(&products))
                }
            },
            None => {
                let products = match self.repository.find_all() {
                    Ok(v) => v,
                    Err(e) => {
                        proof {
                            assert(false);
                        }
                        return Err(ApplicationError::RepositoryError(e));
                    },
                };
                Ok(responses_of_vec(&products))
            },
        }
    }

    /// Whether a product carrying `id` is stored.
    pub fn product_exists(&self, id: i64) -> (r: Result<bool, ApplicationError>)
        requires
            self.inv(),
        ensures
            id <= 0 ==> (r matches Err(e) && e matches ApplicationError::DomainError(d)
                && d is InvalidProductId),
            id > 0 ==> (r matches Ok(b) && b == has_id(self.rows(), id as int)),
    {
        let product_id = match ProductId::new(id) {
            Ok(v) => v,
            Err(e) => {
                return Err(ApplicationError::DomainError(e));
            },
        };
        match self.repository.exists_by_id(&product_id) {
            Ok(b) => Ok(b),
            Err(e) => {
                proof {
                    assert(false);
                }
                Err(ApplicationError::RepositoryError(e))
            },
        }
    }
}

} // verus!
