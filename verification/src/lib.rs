//! Verified core of a small product catalog.
//!
//! The library contains the domain value objects (`ProductId`, `ProductName`,
//! `Money`, `StockQuantity`), the `Product` aggregate, the repository
//! contract together with an in-memory store that satisfies it, and the
//! application service that orchestrates validation, persistence and
//! response shaping. Everything here is verified; the surrounding web
//! handlers and the SQL store live outside the library and talk to it
//! through plain values.

pub mod domain;
pub mod dtos;
pub mod product;
pub mod repository;
pub mod service;
pub mod text;
pub mod timefmt;
