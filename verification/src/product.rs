//! The `Product` aggregate: value objects plus lifecycle timestamps.

use vstd::prelude::*;

use crate::domain::{DomainError, Money, ProductId, ProductName, StockQuantity};
use crate::text::trim_spec;
use crate::timefmt::now_unix_millis;

verus! {

/// Mathematical model of a product: the plain values behind the value
/// objects, with instants in milliseconds since the Unix epoch.
pub struct ProductModel {
    pub id: int,
    pub name: Seq<char>,
    pub description: Option<Seq<char>>,
    pub price: int,
    pub stock: int,
    pub created_at: int,
    pub updated_at: int,
}

/// A catalog entry: identity, name, optional description, price, stock
/// and the two lifecycle timestamps, all kept under one invariant.
#[derive(Debug)]
pub struct Product {
    id: ProductId,
    name: ProductName,
    description: Option<String>,
    price: Money,
    stock: StockQuantity,
    created_at: i64,
    updated_at: i64,
}

impl Clone for Product {
    fn clone(&self) -> (r: Self)
        ensures
            r == *self,
    {
        Product {
            id: self.id,
            name: self.name.clone(),
            description: match &self.description {
                Some(d) => Some(d.clone()),
                None => None,
            },
            price: self.price,
            stock: self.stock,
            created_at: self.created_at,
            updated_at: self.updated_at,
        }
    }
}

impl View for Product {
    type V = ProductModel;

    closed spec fn view(&self) -> ProductModel {
        ProductModel {
            id: self.id@,
            name: self.name@,
            description: self.description.deep_view(),
            price: self.price@,
            stock: self.stock@,
            created_at: self.created_at as int,
            updated_at: self.updated_at as int,
        }
    }
}

impl Product {
    /// Invariant: every component obeys its value object's rule and the
    /// entity was never updated before it was created.
    pub open spec fn wf(&self) -> bool {
        &&& self@.id > 0
        &&& self@.name == trim_spec(self@.name)
        &&& 0 < self@.name.len() <= 255
        &&& 0 <= self@.price <= 99999999
        &&& self@.stock >= 0
        &&& self@.created_at <= self@.updated_at
    }

    /// Builds a fresh product and stamps both timestamps with the same
    /// clock reading.
    pub fn new(
        id: ProductId,
        name: ProductName,
        description: Option<String>,
        price: Money,
        stock: StockQuantity,
    ) -> (r: Product)
        requires
            id.wf(),
            name.wf(),
            price.wf(),
            stock.wf(),
        ensures
            r@.id == id@,
            r@.name == name@,
            r@.description == description.deep_view(),
            r@.price == price@,
            r@.stock == stock@,
            r@.created_at == r@.updated_at,
            r.wf(),
    {
        let now = now_unix_millis();
        Product { id, name, description, price, stock, created_at: now, updated_at: now }
    }

    /// Rebuilds a product from stored values, keeping the stored
    /// timestamps; a stored update instant earlier than the creation
    /// instant is clamped up to it so the invariant holds.
    pub fn restore(
        id: ProductId,
        name: ProductName,
        description: Option<String>,
        price: Money,
        stock: StockQuantity,
        created_at: i64,
        updated_at: i64,
    ) -> (r: Product)
        requires
            id.wf(),
            name.wf(),
            price.wf(),
            stock.wf(),
        ensures
            r@.id == id@,
            r@.name == name@,
            r@.description == description.deep_view(),
            r@.price == price@,
            r@.stock == stock@,
            r@.created_at == created_at,
            r@.updated_at == if updated_at < created_at { created_at as int } else {
                updated_at as int
            },
            r.wf(),
    {
        let kept = if updated_at < created_at {
            created_at
        } else {
            updated_at
        };
        Product { id, name, description, price, stock, created_at, updated_at: kept }
    }

    /// Replaces each provided field and refreshes the update instant
    /// from the clock; the reading is clamped up to the previous update
    /// instant, so the instant never moves backwards even when the
    /// clock does. An absent `description` leaves the description
    /// unchanged, `Some(None)` clears it. Never fails; the `Result` is
    /// kept for the callers' sake.
    pub fn update(
        &mut self,
        name: Option<ProductName>,
        description: Option<Option<String>>,
        price: Option<Money>,
        stock: Option<StockQuantity>,
    ) -> (r: Result<(), DomainError>)
        requires
            old(self).wf(),
            name matches Some(n) ==> n.wf(),
            price matches Some(p) ==> p.wf(),
            stock matches Some(q) ==> q.wf(),
        ensures
            r is Ok,
            final(self)@.id == old(self)@.id,
            final(self)@.name == (match name {
                Some(n) => n@,
                None => old(self)@.name,
            }),
            final(self)@.description == (match description {
                Some(d) => d.deep_view(),
                None => old(self)@.description,
            }),
            final(self)@.price == (match price {
                Some(p) => p@,
                None => old(self)@.price,
            }),
            final(self)@.stock == (match stock {
                Some(q) => q@,
                None => old(self)@.stock,
            }),
            final(self)@.created_at == old(self)@.created_at,
            final(self)@.updated_at >= old(self)@.updated_at,
            final(self)@.updated_at >= final(self)@.created_at,
            final(self).wf(),
    {
        if let Some(n) = name {
            self.name = n;
        }
        if let Some(d) = description {
            self.description = d;
        }
        if let Some(p) = price {
            self.price = p;
        }
        if let Some(q) = stock {
            self.stock = q;
        }
        let now = now_unix_millis();
        self.updated_at = if now < self.updated_at {
            self.updated_at
        } else {
            now
        };
        Ok(())
    }

    /// The same product under a store-assigned identity, with both
    /// timestamps set to one fresh clock reading, as the store stamps a
    /// row it inserts.
    pub fn stamped_with_id(self, id: ProductId) -> (r: Product)
        requires
            id.wf(),
            self.wf(),
        ensures
            r@.id == id@,
            r@.name == self@.name,
            r@.description == self@.description,
            r@.price == self@.price,
            r@.stock == self@.stock,
            r@.created_at == r@.updated_at,
            r.wf(),
    {
        let now = now_unix_millis();
        Product { id, created_at: now, updated_at: now, ..self }
    }

    /// The same product carrying the stored creation instant and a
    /// fresh update instant, as the store stamps a row it rewrites; the
    /// reading is clamped up to the row's previous update instant, so
    /// the stored instant never moves backwards even when the clock
    /// does.
    pub fn with_update_stamp(self, created_at: i64, last_updated_at: i64) -> (r: Product)
        requires
            self.wf(),
            created_at <= last_updated_at,
        ensures
            r@.id == self@.id,
            r@.name == self@.name,
            r@.description == self@.description,
            r@.price == self@.price,
            r@.stock == self@.stock,
            r@.created_at == created_at,
            r@.updated_at >= last_updated_at,
            r.wf(),
    {
        let now = now_unix_millis();
        let stamped = if now < last_updated_at {
            last_updated_at
        } else {
            now
        };
        Product { created_at, updated_at: stamped, ..self }
    }

    pub fn id(&self) -> (r: &ProductId)
        ensures
            r@ == self@.id,
    {
        &self.id
    }

    pub fn name(&self) -> (r: &ProductName)
        ensures
            r@ == self@.name,
    {
        &self.name
    }

    pub fn description(&self) -> (r: &Option<String>)
        ensures
            r.deep_view() == self@.description,
    {
        &self.description
    }

    pub fn price(&self) -> (r: &Money)
        ensures
            r@ == self@.price,
    {
        &self.price
    }

    pub fn stock(&self) -> (r: &StockQuantity)
        ensures
            r@ == self@.stock,
    {
        &self.stock
    }

    pub fn created_at(&self) -> (r: i64)
        ensures
            r == self@.created_at,
    {
        self.created_at
    }

    pub fn updated_at(&self) -> (r: i64)
        ensures
            r == self@.updated_at,
    {
        self.updated_at
    }
}

/// Domain events a catalog may emit; kept for the contract surface.
#[derive(Debug, Clone)]
pub enum ProductEvent {
    ProductCreated { product_id: ProductId, name: ProductName, price: Money },
    ProductUpdated { product_id: ProductId, changes: Vec<String> },
    ProductDeleted { product_id: ProductId },
    StockChanged { product_id: ProductId, old_stock: StockQuantity, new_stock: StockQuantity },
}

} // verus!
