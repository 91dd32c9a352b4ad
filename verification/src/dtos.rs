//! Request and response shapes at the application service boundary.

use vstd::prelude::*;

use crate::product::{Product, ProductModel};
use crate::timefmt::{format_rfc3339_or_empty, rfc3339_or_empty};

verus! {

/// Request to create a product. The price arrives as a decimal literal
/// such as `"19.99"`; the service reads and rounds it to cents.
#[derive(Debug)]
pub struct CreateProductRequest {
    pub name: String,
    pub description: Option<String>,
    pub price: String,
    pub stock: i32,
}

/// Request to change a product; absent fields stay as they are, except
/// the description, which the service always replaces (see
/// `ProductService::update_product`).
#[derive(Debug)]
pub struct UpdateProductRequest {
    pub name: Option<String>,
    pub description: Option<String>,
    pub price: Option<String>,
    pub stock: Option<i32>,
}

/// Search parameters; only the term is read by the current flows.
#[derive(Debug)]
pub struct SearchProductsQuery {
    pub query: Option<String>,
    pub limit: Option<usize>,
    pub offset: Option<usize>,
}

/// Mathematical model of a response: plain values, with the instants
/// rendered as RFC 3339 text.
pub struct ResponseModel {
    pub id: int,
    pub name: Seq<char>,
    pub description: Option<Seq<char>>,
    pub price_cents: int,
    pub stock: int,
    pub created_at: Seq<char>,
    pub updated_at: Seq<char>,
}

/// What one product looks like to a caller of the service.
#[derive(Debug, PartialEq)]
pub struct ProductResponse {
    pub id: i64,
    pub name: String,
    pub description: Option<String>,
    pub price_cents: i64,
    pub stock: i32,
    pub created_at: String,
    pub updated_at: String,
}

impl View for ProductResponse {
    type V = ResponseModel;

    open spec fn view(&self) -> ResponseModel {
        ResponseModel {
            id: self.id as int,
            name: self.name@,
            description: self.description.deep_view(),
            price_cents: self.price_cents as int,
            stock: self.stock as int,
            created_at: self.created_at@,
            updated_at: self.updated_at@,
        }
    }
}

/// The response a stored product maps to.
pub open spec fn response_model_of(p: ProductModel) -> ResponseModel {
    ResponseModel {
        id: p.id,
        name: p.name,
        description: p.description,
        price_cents: p.price,
        stock: p.stock,
        created_at: rfc3339_or_empty(p.created_at as i64),
        updated_at: rfc3339_or_empty(p.updated_at as i64),
    }
}

/// The responses a sequence of stored products maps to, in order.
pub open spec fn response_models_of(products: Seq<Product>) -> Seq<ResponseModel> {
    products.map_values(|p: Product| response_model_of(p@))
}

impl ProductResponse {
    /// Shapes one stored product for a caller.
    pub fn from_product(p: &Product) -> (r: ProductResponse)
        ensures
            r@ == response_model_of(p@),
    {
        ProductResponse {
            id: p.id().value(),
            name: String::from_str(p.name().value()),
            description: match p.description() {
                Some(d) => Some(d.clone()),
                None => None,
            },
            price_cents: p.price().value(),
            stock: p.stock().value(),
            created_at: format_rfc3339_or_empty(p.created_at()),
            updated_at: format_rfc3339_or_empty(p.updated_at()),
        }
    }
}

/// Shapes a whole listing, keeping its order.
pub(crate) fn responses_of_vec(products: &Vec<Product>) -> (r: Vec<ProductResponse>)
    ensures
        r@.map_values(|x: ProductResponse| x@) == response_models_of(products@),
{
    let n = products.len();
    let mut out: Vec<ProductResponse> = Vec::new();
    let mut k: usize = 0;
    while k < n
        invariant
            0 <= k <= n,
            n == products@.len(),
            out@.len() == k,
            forall|m: int| 0 <= m < k ==> (#[trigger] out@[m])@ == response_model_of(
                products@[m]@,
            ),
        decreases n - k,
    {
        out.push(ProductResponse::from_product(&products[k]));
        k = k + 1;
    }
    proof {
        assert(out@.map_values(|x: ProductResponse| x@) =~= response_models_of(products@));
    }
    out
}

/// The generic success/error envelope the surrounding layers return.
#[derive(Debug)]
pub struct ApiResponse<T> {
    pub success: bool,
    pub data: Option<T>,
    pub message: Option<String>,
    pub errors: Option<Vec<String>>,
}

impl<T> ApiResponse<T> {
    pub fn success(data: T) -> (r: ApiResponse<T>)
        ensures
            r.success == true,
            r.data == Some(data),
            r.message is None,
            r.errors is None,
    {
        ApiResponse { success: true, data: Some(data), message: None, errors: None }
    }

    pub fn error(message: String) -> (r: ApiResponse<T>)
        ensures
            r.success == false,
            r.data is None,
            r.message == Some(message),
            r.errors is None,
    {
        ApiResponse { success: false, data: None, message: Some(message), errors: None }
    }

    pub fn validation_error(errors: Vec<String>) -> (r: ApiResponse<T>)
        ensures
            r.success == false,
            r.data is None,
            (r.message matches Some(m) && m@ == "Validation failed"@),
            r.errors == Some(errors),
    {
        ApiResponse {
            success: false,
            data: None,
            message: Some(String::from_str("Validation failed")),
            errors: Some(errors),
        }
    }
}

/// A page of items together with its position in the whole listing.
#[derive(Debug)]
pub struct PaginatedResponse<T> {
    pub items: Vec<T>,
    pub total: usize,
    pub page: usize,
    pub per_page: usize,
    pub has_next: bool,
    pub has_prev: bool,
}

impl<T> PaginatedResponse<T> {
    pub fn new(items: Vec<T>, total: usize, page: usize, per_page: usize) -> (r: PaginatedResponse<
        T,
    >)
        requires
            page * per_page <= usize::MAX,
        ensures
            r.items == items,
            r.total == total,
            r.page == page,
            r.per_page == per_page,
            r.has_next == (page * per_page < total),
            r.has_prev == (page > 1),
    {
        let has_next = page * per_page < total;
        let has_prev = page > 1;
        PaginatedResponse { items, total, page, per_page, has_next, has_prev }
    }
}

} // verus!
