//! The repository contract over `Product`, an in-memory store that
//! satisfies it, and the row-mapping step the SQL store shares.

use vstd::prelude::*;

use crate::domain::{DomainError, Money, ProductId, ProductName, StockQuantity};
use crate::product::Product;
use crate::text::{contains_ci, contains_ci_str, trim_spec};
use crate::timefmt::{parse_rfc3339, rfc3339_millis_of};

verus! {

/// Store-level failures. The verified in-memory store raises only
/// `NotFound`; the others describe what an outside store can do and are
/// mapped onto this type at the boundary.
#[derive(Debug, Clone)]
pub enum RepositoryError {
    ConnectionFailed(String),
    QueryFailed(String),
    NotFound,
    ConstraintViolation(String),
    ConcurrentModification,
    DomainError(DomainError),
    Internal(String),
}

/// Every stored product obeys the entity invariant.
pub open spec fn all_wf(rows: Seq<Product>) -> bool {
    forall|i: int| 0 <= i < rows.len() ==> (#[trigger] rows[i]).wf()
}

/// No two stored products share an identity.
pub open spec fn unique_ids(rows: Seq<Product>) -> bool {
    forall|i: int, j: int|
        0 <= i < j < rows.len() ==> (#[trigger] rows[i])@.id != (#[trigger] rows[j])@.id
}

/// Whether some stored product carries the identity `id`.
pub open spec fn has_id(rows: Seq<Product>, id: int) -> bool {
    exists|i: int| 0 <= i < rows.len() && (#[trigger] rows[i])@.id == id
}

/// The position of the product carrying `id`; meaningful under
/// `unique_ids` when `has_id` holds.
pub open spec fn index_of_id(rows: Seq<Product>, id: int) -> int {
    choose|i: int| 0 <= i < rows.len() && (#[trigger] rows[i])@.id == id
}

/// Under unique identities, a row found at `i` is the row `index_of_id`
/// names.
pub proof fn lemma_index_of_id(rows: Seq<Product>, id: int, i: int)
    requires
        unique_ids(rows),
        0 <= i < rows.len(),
        rows[i]@.id == id,
    ensures
        has_id(rows, id),
        index_of_id(rows, id) == i,
{
    assert(has_id(rows, id));
    let j = index_of_id(rows, id);
    assert(0 <= j < rows.len() && rows[j]@.id == id);
}

/// A product just saved is found again under its store-assigned
/// identity: the row appended by `save` is exactly the row `find_by_id`
/// names afterwards, so the round trip yields the same name, price and
/// stock that `save` promised to keep.
pub proof fn lemma_save_then_find(rows: Seq<Product>, saved: Product)
    requires
        unique_ids(rows.push(saved)),
    ensures
        has_id(rows.push(saved), saved@.id),
        index_of_id(rows.push(saved), saved@.id) == rows.len(),
        rows.push(saved)[index_of_id(rows.push(saved), saved@.id)] == saved,
{
    lemma_index_of_id(rows.push(saved), saved@.id, rows.len() as int);
}

/// After a successful delete of `id` no row carries `id` any more, so a
/// second delete of the same identity finds nothing (and the service
/// then fails with ProductNotFound).
pub proof fn lemma_delete_then_gone(rows: Seq<Product>, id: int)
    requires
        unique_ids(rows),
        has_id(rows, id),
    ensures
        !has_id(rows.remove(index_of_id(rows, id)), id),
{
    let at = index_of_id(rows, id);
    assert(0 <= at < rows.len() && rows[at]@.id == id);
    let rest = rows.remove(at);
    assert forall|i: int| 0 <= i < rest.len() implies (#[trigger] rest[i])@.id != id by {
        let pi: int = if i < at {
            i
        } else {
            i + 1
        };
        assert(rest[i] == rows[pi]);
        assert(rows[pi]@.id != rows[at]@.id);
    }
}

/// Whether a product answers a search term: the term occurs in its name
/// or in its description, case-insensitively.
pub open spec fn matches_query(p: Product, q: Seq<char>) -> bool {
    ||| contains_ci(p@.name, q)
    ||| (p@.description matches Some(d) && contains_ci(d, q))
}

/// Whether `p` answers the search term `q`.
pub fn matches_query_exec(p: &Product, q: &str) -> (r: bool)
    ensures
        r == matches_query(*p, q@),
{
    if contains_ci_str(p.name().value(), q) {
        return true;
    }
    match p.description() {
        Some(d) => contains_ci_str(d.as_str(), q),
        None => false,
    }
}

/// The persistence contract for products. A store holds a sequence of
/// rows, oldest first, and a counter for the next identity it will
/// assign. The verified in-memory store below meets this contract
/// exactly; outside stores live behind the same interface in the
/// surrounding application.
pub trait ProductRepository: Sized {
    /// The stored products, in insertion (that is, creation) order.
    spec fn rows(&self) -> Seq<Product>;

    /// The identity the store will assign to the next inserted row.
    spec fn next_ident(&self) -> int;

    /// The store's invariant: well-formed rows, unique identities, and
    /// identities below the counter.
    spec fn inv(&self) -> bool;

    /// All products, newest-created first.
    fn find_all(&self) -> (r: Result<Vec<Product>, RepositoryError>)
        requires
            self.inv(),
        ensures
            (r matches Ok(v) && v@ == self.rows().reverse()),
    ;

    /// The product carrying `id`, if any.
    fn find_by_id(&self, id: &ProductId) -> (r: Result<Option<Product>, RepositoryError>)
        requires
            self.inv(),
        ensures
            !has_id(self.rows(), id@) ==> (r matches Ok(o) && o is None),
            has_id(self.rows(), id@) ==> (r matches Ok(o) && o matches Some(p)
                && p == self.rows()[index_of_id(self.rows(), id@)] && p@.id == id@),
    ;

    /// The products whose name or description contains the term,
    /// newest-created first.
    fn search_by_name(&self, query: &str) -> (r: Result<Vec<Product>, RepositoryError>)
        requires
            self.inv(),
        ensures
            (r matches Ok(v) && v@ == self.rows().reverse().filter(
                |p: Product| matches_query(p, query@),
            )),
    ;

    /// Inserts a new row: the store assigns the identity and stamps both
    /// timestamps; the given product's identity is ignored.
    fn save(&mut self, product: Product) -> (r: Result<Product, RepositoryError>)
        requires
            old(self).inv(),
            product.wf(),
            old(self).next_ident() < i64::MAX,
        ensures
            final(self).inv(),
            final(self).next_ident() == old(self).next_ident() + 1,
            (r matches Ok(saved) && {
                &&& saved@.id == old(self).next_ident()
                &&& saved@.name == product@.name
                &&& saved@.description == product@.description
                &&& saved@.price == product@.price
                &&& saved@.stock == product@.stock
                &&& saved@.created_at == saved@.updated_at
                &&& saved.wf()
                &&& final(self).rows() == old(self).rows().push(saved)
            }),
    ;

    /// Rewrites the row carrying the product's identity, keeping the
    /// stored creation instant and stamping a fresh update instant;
    /// `NotFound` when no row carries it.
    fn update(&mut self, product: Product) -> (r: Result<Product, RepositoryError>)
        requires
            old(self).inv(),
            product.wf(),
        ensures
            final(self).inv(),
            final(self).next_ident() == old(self).next_ident(),
            !has_id(old(self).rows(), product@.id) ==> (r matches Err(e) && e is NotFound
                && final(self).rows() == old(self).rows()),
            has_id(old(self).rows(), product@.id) ==> (r matches Ok(updated) && {
                let at = index_of_id(old(self).rows(), product@.id);
                &&& updated@.id == product@.id
                &&& updated@.name == product@.name
                &&& updated@.description == product@.description
                &&& updated@.price == product@.price
                &&& updated@.stock == product@.stock
                &&& updated@.created_at == old(self).rows()[at]@.created_at
                &&& updated@.updated_at >= old(self).rows()[at]@.updated_at
                &&& updated@.updated_at >= updated@.created_at
                &&& updated.wf()
                &&& final(self).rows() == old(self).rows().update(at, updated)
            }),
    ;

    /// Removes the row carrying `id`; reports whether one was removed.
    fn delete(&mut self, id: &ProductId) -> (r: Result<bool, RepositoryError>)
        requires
            old(self).inv(),
        ensures
            final(self).inv(),
            final(self).next_ident() == old(self).next_ident(),
            (r matches Ok(b) && b == has_id(old(self).rows(), id@)),
            !has_id(old(self).rows(), id@) ==> final(self).rows() == old(self).rows(),
            has_id(old(self).rows(), id@) ==> final(self).rows() == old(self).rows().remove(
                index_of_id(old(self).rows(), id@),
            ),
    ;

    /// Whether a row carries `id`.
    fn exists_by_id(&self, id: &ProductId) -> (r: Result<bool, RepositoryError>)
        requires
            self.inv(),
        ensures
            (r matches Ok(b) && b == has_id(self.rows(), id@)),
    ;

    /// A placeholder identity for stores that assign the real one at
    /// insertion; never authoritative.
    fn next_id(&self) -> (r: Result<ProductId, RepositoryError>)
        requires
            self.inv(),
        ensures
            (r matches Ok(id) && id@ == 1 && id.wf()),
    ;

    /// What the invariant says of the store's contents.
    proof fn lemma_inv(&self)
        requires
            self.inv(),
        ensures
            all_wf(self.rows()),
            unique_ids(self.rows()),
            1 <= self.next_ident(),
            forall|i: int|
                0 <= i < self.rows().len() ==> (#[trigger] self.rows()[i])@.id
                    < self.next_ident(),
    ;
}

/// A store kept entirely in memory: the verified implementation of the
/// repository contract, and the stand-in for the SQL store in tests.
#[derive(Debug)]
pub struct InMemoryProductRepository {
    products: Vec<Product>,
    next: i64,
}

impl InMemoryProductRepository {
    /// An empty store that will assign identities from 1 up.
    pub fn new() -> (r: InMemoryProductRepository)
        ensures
            r.inv(),
            r.rows() == Seq::<Product>::empty(),
            r.next_ident() == 1,
    {
        let r = InMemoryProductRepository { products: Vec::new(), next: 1 };
        proof {
            assert(r.rows() =~= Seq::<Product>::empty());
        }
        r
    }

    /// Validates one seed row and inserts it.
    fn seed_one(
        &mut self,
        name_text: &str,
        description: Option<String>,
        cents: i64,
        qty: i32,
    ) -> (r: Result<(), RepositoryError>)
        requires
            old(self).inv(),
            old(self).next_ident() < i64::MAX,
            0 < trim_spec(name_text@).len() <= 255,
            0 <= cents <= 99999999,
            qty >= 0,
        ensures
            final(self).inv(),
            r is Ok,
            final(self).next_ident() == old(self).next_ident() + 1,
            final(self).rows().len() == old(self).rows().len() + 1,
            final(self).rows() == old(self).rows().push(final(self).rows().last()),
            ({
                let p = final(self).rows().last();
                &&& p@.id == old(self).next_ident()
                &&& p@.name == trim_spec(name_text@)
                &&& p@.description == description.deep_view()
                &&& p@.price == cents
                &&& p@.stock == qty
                &&& p@.created_at == p@.updated_at
            }),
    {
        let name = match ProductName::new(String::from_str(name_text)) {
            Ok(v) => v,
            Err(e) => {
                proof {
                    assert(false);
                }
                return Err(RepositoryError::DomainError(e));
            },
        };
        let price = match Money::new(cents) {
            Ok(v) => v,
            Err(e) => {
                proof {
                    assert(false);
                }
                return Err(RepositoryError::DomainError(e));
            },
        };
        let stock = match StockQuantity::new(qty) {
            Ok(v) => v,
            Err(e) => {
                proof {
                    assert(false);
                }
                return Err(RepositoryError::DomainError(e));
            },
        };
        let fresh = Product::new(ProductId::from_positive(1), name, description, price, stock);
        match self.save(fresh) {
            Ok(_) => Ok(()),
            Err(e) => {
                proof {
                    assert(false);
                }
                Err(e)
            },
        }
    }

    /// Ensures the store has data: when it is empty, inserts the fixed
    /// seed set of five products; otherwise leaves it untouched.
    pub fn initialize(&mut self) -> (r: Result<(), RepositoryError>)
        requires
            old(self).inv(),
            old(self).next_ident() + 5 <= i64::MAX,
        ensures
            final(self).inv(),
            r is Ok,
            old(self).rows().len() > 0 ==> *final(self) == *old(self),
            old(self).rows().len() == 0 ==> {
                &&& final(self).rows().len() == 5
                &&& final(self).next_ident() == old(self).next_ident() + 5
                &&& forall|k: int|
                    0 <= k < 5 ==> (#[trigger] final(self).rows()[k])@.id == old(
                        self,
                    ).next_ident() + k
                &&& forall|k: int|
                    0 <= k < 5 ==> (#[trigger] final(self).rows()[k])@.created_at == final(self).rows()[k]@.updated_at
                &&& final(self).rows()[0]@.name == "MacBook Pro 16\""@
                &&& final(self).rows()[0]@.description == Some("Apple MacBook Pro with M2 chip"@)
                &&& final(self).rows()[0]@.price == 249999
                &&& final(self).rows()[0]@.stock == 10
                &&& final(self).rows()[1]@.name == "iPhone 15 Pro"@
                &&& final(self).rows()[1]@.description == Some(
                    "Latest iPhone with titanium design"@,
                )
                &&& final(self).rows()[1]@.price == 99999
                &&& final(self).rows()[1]@.stock == 25
                &&& final(self).rows()[2]@.name == "AirPods Pro"@
                &&& final(self).rows()[2]@.description == Some(
                    "Wireless earbuds with noise cancellation"@,
                )
                &&& final(self).rows()[2]@.price == 24999
                &&& final(self).rows()[2]@.stock == 50
                &&& final(self).rows()[3]@.name == "iPad Air"@
                &&& final(self).rows()[3]@.description == Some(
                    "Lightweight tablet for creativity"@,
                )
                &&& final(self).rows()[3]@.price == 59999
                &&& final(self).rows()[3]@.stock == 15
                &&& final(self).rows()[4]@.name == "Apple Watch Ultra"@
                &&& final(self).rows()[4]@.description == Some("Adventure-ready smartwatch"@)
                &&& final(self).rows()[4]@.price == 79999
                &&& final(self).rows()[4]@.stock == 8
            },
    {
        if self.products.len() > 0 {
            return Ok(());
        }
        proof {
            reveal_strlit("MacBook Pro 16\"");
            reveal_strlit("iPhone 15 Pro");
            reveal_strlit("AirPods Pro");
            reveal_strlit("iPad Air");
            reveal_strlit("Apple Watch Ultra");
            assert(trim_spec("MacBook Pro 16\""@) =~= "MacBook Pro 16\""@);
            assert(trim_spec("iPhone 15 Pro"@) =~= "iPhone 15 Pro"@);
            assert(trim_spec("AirPods Pro"@) =~= "AirPods Pro"@);
            assert(trim_spec("iPad Air"@) =~= "iPad Air"@);
            assert(trim_spec("Apple Watch Ultra"@) =~= "Apple Watch Ultra"@);
        }
        let r1 = self.seed_one(
            "MacBook Pro 16\"",
            Some(String::from_str("Apple MacBook Pro with M2 chip")),
            249999,
            10,
        );
        if let Err(e) = r1 {
            proof {
                assert(false);
            }
            return Err(e);
        }
        let r2 = self.seed_one(
            "iPhone 15 Pro",
            Some(String::from_str("Latest iPhone with titanium design")),
            99999,
            25,
        );
        if let Err(e) = r2 {
            proof {
                assert(false);
            }
            return Err(e);
        }
        let r3 = self.seed_one(
            "AirPods Pro",
            Some(String::from_str("Wireless earbuds with noise cancellation")),
            24999,
            50,
        );
        if let Err(e) = r3 {
            proof {
                assert(false);
            }
            return Err(e);
        }
        let r4 = self.seed_one(
            "iPad Air",
            Some(String::from_str("Lightweight tablet for creativity")),
            59999,
            15,
        );
        if let Err(e) = r4 {
            proof {
                assert(false);
            }
            return Err(e);
        }
        let r5 = self.seed_one(
            "Apple Watch Ultra",
            Some(String::from_str("Adventure-ready smartwatch")),
            79999,
            8,
        );
        if let Err(e) = r5 {
            proof {
                assert(false);
            }
            return Err(e);
        }
        Ok(())
    }
}

impl ProductRepository for InMemoryProductRepository {
    closed spec fn rows(&self) -> Seq<Product> {
        self.products@
    }

    closed spec fn next_ident(&self) -> int {
        self.next as int
    }

    closed spec fn inv(&self) -> bool {
        &&& all_wf(self.products@)
        &&& unique_ids(self.products@)
        &&& 1 <= self.next
        &&& forall|i: int|
            0 <= i < self.products@.len() ==> (#[trigger] self.products@[i])@.id < self.next
    }

    fn find_all(&self) -> (r: Result<Vec<Product>, RepositoryError>) {
        let n = self.products.len();
        let mut out: Vec<Product> = Vec::new();
        let mut k: usize = 0;
        while k < n
            invariant
                0 <= k <= n,
                n == self.products@.len(),
                out@.len() == k,
                forall|m: int| 0 <= m < k ==> out@[m] == self.products@[n - 1 - m],
            decreases n - k,
        {
            out.push(self.products[n - 1 - k].clone());
            k = k + 1;
        }
        proof {
            assert(out@ =~= self.products@.reverse());
        }
        Ok(out)
    }

    fn find_by_id(&self, id: &ProductId) -> (r: Result<Option<Product>, RepositoryError>) {
        let n = self.products.len();
        let mut k: usize = 0;
        while k < n
            invariant
                0 <= k <= n,
                n == self.products@.len(),
                self.inv(),
                forall|m: int| 0 <= m < k ==> (#[trigger] self.products@[m])@.id != id@,
            decreases n - k,
        {
            if self.products[k].id().value() == id.value() {
                proof {
                    lemma_index_of_id(self.products@, id@, k as int);
                }
                return Ok(Some(self.products[k].clone()));
            }
            k = k + 1;
        }
        proof {
            assert(!has_id(self.rows(), id@));
        }
        Ok(None)
    }

    fn search_by_name(&self, query: &str) -> (r: Result<Vec<Product>, RepositoryError>) {
        let ghost pred = |p: Product| matches_query(p, query@);
        let ghost rev = self.products@.reverse();
        let n = self.products.len();
        let mut out: Vec<Product> = Vec::new();
        let mut k: usize = 0;
        proof {
            reveal(Seq::filter);
            assert(rev.subrange(0, 0) =~= Seq::<Product>::empty());
        }
        while k < n
            invariant
                0 <= k <= n,
                n == self.products@.len(),
                rev == self.products@.reverse(),
                pred == (|p: Product| matches_query(p, query@)),
                out@ == rev.subrange(0, k as int).filter(pred),
            decreases n - k,
        {
            let candidate = &self.products[n - 1 - k];
            proof {
                reveal(Seq::filter);
                assert(rev[k as int] == self.products@[n - 1 - k]);
                assert(rev.subrange(0, k + 1).drop_last() =~= rev.subrange(0, k as int));
                assert(rev.subrange(0, k + 1).last() == rev[k as int]);
            }
            if matches_query_exec(candidate, query) {
                out.push(candidate.clone());
            }
            k = k + 1;
        }
        proof {
            assert(rev.subrange(0, n as int) =~= rev);
        }
        Ok(out)
    }

    fn save(&mut self, product: Product) -> (r: Result<Product, RepositoryError>) {
        let id = ProductId::from_positive(self.next);
        let saved = product.stamped_with_id(id);
        self.products.push(saved.clone());
        self.next = self.next + 1;
        proof {
            let rows = self.products@;
            assert forall|i: int, j: int| 0 <= i < j < rows.len() implies (#[trigger] rows[i])@.id
                != (#[trigger] rows[j])@.id by {
                if j == rows.len() - 1 {
                    assert(rows[i] == old(self).products@[i]);
                }
            }
        }
        Ok(saved)
    }

    fn update(&mut self, product: Product) -> (r: Result<Product, RepositoryError>) {
        let n = self.products.len();
        let mut k: usize = 0;
        while k < n
            invariant
                0 <= k <= n,
                n == self.products@.len(),
                self.inv(),
                *self == *old(self),
                product.wf(),
                forall|m: int|
                    0 <= m < k ==> (#[trigger] self.products@[m])@.id != product@.id,
            decreases n - k,
        {
            if self.products[k].id().value() == product.id().value() {
                proof {
                    lemma_index_of_id(self.products@, product@.id, k as int);
                }
                let created = self.products[k].created_at();
                let last_updated = self.products[k].updated_at();
                let fresh = product.with_update_stamp(created, last_updated);
                self.products.remove(k);
                self.products.insert(k, fresh.clone());
                proof {
                    let rows = self.products@;
                    let before = old(self).products@;
                    assert(rows =~= before.update(k as int, fresh));
                    assert forall|i: int, j: int|
                        0 <= i < j < rows.len() implies (#[trigger] rows[i])@.id
                        != (#[trigger] rows[j])@.id by {
                        assert(before[i]@.id != before[j]@.id);
                    }
                    assert forall|i: int| 0 <= i < rows.len() implies (#[trigger] rows[i]).wf()
                        by {
                        assert(before[i].wf());
                    }
                }
                return Ok(fresh);
            }
            k = k + 1;
        }
        proof {
            assert(!has_id(old(self).rows(), product@.id));
        }
        Err(RepositoryError::NotFound)
    }

    fn delete(&mut self, id: &ProductId) -> (r: Result<bool, RepositoryError>) {
        let n = self.products.len();
        let mut k: usize = 0;
        while k < n
            invariant
                0 <= k <= n,
                n == self.products@.len(),
                self.inv(),
                *self == *old(self),
                forall|m: int| 0 <= m < k ==> (#[trigger] self.products@[m])@.id != id@,
            decreases n - k,
        {
            if self.products[k].id().value() == id.value() {
                proof {
                    lemma_index_of_id(self.products@, id@, k as int);
                }
                self.products.remove(k);
                proof {
                    let rows = self.products@;
                    let before = old(self).products@;
                    assert forall|i: int, j: int|
                        0 <= i < j < rows.len() implies (#[trigger] rows[i])@.id
                        != (#[trigger] rows[j])@.id by {
                        let pi: int = if i < k { i } else { i + 1 };
                        let pj: int = if j < k { j } else { j + 1 };
                        assert(rows[i] == before[pi]);
                        assert(rows[j] == before[pj]);
                        assert(before[pi]@.id != before[pj]@.id);
                    }
                    assert forall|i: int| 0 <= i < rows.len() implies (#[trigger] rows[i]).wf()
                        by {
                        let pi: int = if i < k { i } else { i + 1 };
                        assert(rows[i] == before[pi]);
                        assert(before[pi].wf());
                    }
                    assert forall|i: int| 0 <= i < rows.len() implies (#[trigger] rows[i])@.id
                        < self.next by {
                        let pi: int = if i < k { i } else { i + 1 };
                        assert(rows[i] == before[pi]);
                    }
                }
                return Ok(true);
            }
            k = k + 1;
        }
        proof {
            assert(!has_id(old(self).rows(), id@));
        }
        Ok(false)
    }

    fn exists_by_id(&self, id: &ProductId) -> (r: Result<bool, RepositoryError>) {
        let n = self.products.len();
        let mut k: usize = 0;
        while k < n
            invariant
                0 <= k <= n,
                n == self.products@.len(),
                self.inv(),
                forall|m: int| 0 <= m < k ==> (#[trigger] self.products@[m])@.id != id@,
            decreases n - k,
        {
            if self.products[k].id().value() == id.value() {
                proof {
                    lemma_index_of_id(self.products@, id@, k as int);
                }
                return Ok(true);
            }
            k = k + 1;
        }
        Ok(false)
    }

    fn next_id(&self) -> (r: Result<ProductId, RepositoryError>) {
        Ok(ProductId::from_positive(1))
    }

    proof fn lemma_inv(&self) {
    }
}

/// The instant a parse yielded, or zero when it yielded none; only read
/// under the branch where it yielded one.
pub open spec fn millis_value(o: Option<i64>) -> int {
    match o {
        Some(v) => v as int,
        None => 0,
    }
}

/// Rebuilds a product from one stored row's column values, validating
/// every column through its value object. The stored timestamps are
/// kept on the rebuilt entity.
pub fn row_to_product(
    id: i64,
    name: String,
    description: Option<String>,
    price_cents: i64,
    stock: i32,
    created_at: &str,
    updated_at: &str,
) -> (r: Result<Product, RepositoryError>)
    ensures
        rfc3339_millis_of(created_at@) is None ==> (r matches Err(e) && e is Internal),
        rfc3339_millis_of(created_at@) is Some && rfc3339_millis_of(updated_at@) is None ==> (
        r matches Err(e) && e is Internal),
        rfc3339_millis_of(created_at@) is Some && rfc3339_millis_of(updated_at@) is Some ==> {
            let c = millis_value(rfc3339_millis_of(created_at@));
            let u = millis_value(rfc3339_millis_of(updated_at@));
            let t = trim_spec(name@);
            &&& id <= 0 ==> (r matches Err(e) && e matches RepositoryError::DomainError(d)
                && d is InvalidProductId)
            &&& id > 0 && !(0 < t.len() <= 255) ==> (r matches Err(e) && e matches
                RepositoryError::DomainError(d) && d is InvalidProductName)
            &&& id > 0 && 0 < t.len() <= 255 && !(0 <= price_cents <= 99999999) ==> (r matches
                Err(e) && e matches RepositoryError::DomainError(d) && d is InvalidMoney)
            &&& id > 0 && 0 < t.len() <= 255 && 0 <= price_cents <= 99999999 && stock < 0 ==> (
                r matches Err(e) && e matches RepositoryError::DomainError(d)
                && d is InvalidStock)
            &&& id > 0 && 0 < t.len() <= 255 && 0 <= price_cents <= 99999999 && stock >= 0 ==> (
                r matches Ok(p) && {
                    &&& p@.id == id
                    &&& p@.name == t
                    &&& p@.description == description.deep_view()
                    &&& p@.price == price_cents
                    &&& p@.stock == stock
                    &&& p@.created_at == c
                    &&& p@.updated_at == if u < c { c } else { u }
                    &&& p.wf()
                })
        },
{
    let c = match parse_rfc3339(created_at) {
        Some(v) => v,
        None => {
            return Err(RepositoryError::Internal("Invalid created_at".to_owned()));
        },
    };
    let u = match parse_rfc3339(updated_at) {
        Some(v) => v,
        None => {
            return Err(RepositoryError::Internal("Invalid updated_at".to_owned()));
        },
    };
    let product_id = match ProductId::new(id) {
        Ok(v) => v,
        Err(e) => {
            return Err(RepositoryError::DomainError(e));
        },
    };
    let product_name = match ProductName::new(name) {
        Ok(v) => v,
        Err(e) => {
            return Err(RepositoryError::DomainError(e));
        },
    };
    let money = match Money::new(price_cents) {
        Ok(v) => v,
        Err(e) => {
            return Err(RepositoryError::DomainError(e));
        },
    };
    let quantity = match StockQuantity::new(stock) {
        Ok(v) => v,
        Err(e) => {
            return Err(RepositoryError::DomainError(e));
        },
    };
    Ok(Product::restore(product_id, product_name, description, money, quantity, c, u))
}

/// The fixed rows the store is seeded with when it starts empty: name,
/// description, price in cents, and stock.
pub fn seed_entries() -> (r: Vec<(String, Option<String>, i64, i32)>)
    ensures
        r@.len() == 5,
        r@[0].0@ == "MacBook Pro 16\""@ && r@[0].1.deep_view() == Some(
            "Apple MacBook Pro with M2 chip"@,
        ) && r@[0].2 == 249999 && r@[0].3 == 10,
        r@[1].0@ == "iPhone 15 Pro"@ && r@[1].1.deep_view() == Some(
            "Latest iPhone with titanium design"@,
        ) && r@[1].2 == 99999 && r@[1].3 == 25,
        r@[2].0@ == "AirPods Pro"@ && r@[2].1.deep_view() == Some(
            "Wireless earbuds with noise cancellation"@,
        ) && r@[2].2 == 24999 && r@[2].3 == 50,
        r@[3].0@ == "iPad Air"@ && r@[3].1.deep_view() == Some(
            "Lightweight tablet for creativity"@,
        ) && r@[3].2 == 59999 && r@[3].3 == 15,
        r@[4].0@ == "Apple Watch Ultra"@ && r@[4].1.deep_view() == Some(
            "Adventure-ready smartwatch"@,
        ) && r@[4].2 == 79999 && r@[4].3 == 8,
{
    let mut v: Vec<(String, Option<String>, i64, i32)> = Vec::new();
    v.push(
        (
            String::from_str("MacBook Pro 16\""),
            Some(String::from_str("Apple MacBook Pro with M2 chip")),
            249999i64,
            10i32,
        ),
    );
    v.push(
        (
            String::from_str("iPhone 15 Pro"),
            Some(String::from_str("Latest iPhone with titanium design")),
            99999i64,
            25i32,
        ),
    );
    v.push(
        (
            String::from_str("AirPods Pro"),
            Some(String::from_str("Wireless earbuds with noise cancellation")),
            24999i64,
            50i32,
        ),
    );
    v.push(
        (
            String::from_str("iPad Air"),
            Some(String::from_str("Lightweight tablet for creativity")),
            59999i64,
            15i32,
        ),
    );
    v.push(
        (
            String::from_str("Apple Watch Ultra"),
            Some(String::from_str("Adventure-ready smartwatch")),
            79999i64,
            8i32,
        ),
    );
    v
}

} // verus!
