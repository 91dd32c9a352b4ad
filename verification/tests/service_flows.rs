use product_catalog::domain::DomainError;
use product_catalog::dtos::{
    ApiResponse, CreateProductRequest, PaginatedResponse, SearchProductsQuery,
    UpdateProductRequest,
};
use product_catalog::repository::{
    row_to_product, seed_entries, InMemoryProductRepository, ProductRepository, RepositoryError,
};
use product_catalog::service::{query_is_blank, ApplicationError, ProductService};

fn fresh_service() -> ProductService<InMemoryProductRepository> {
    ProductService::new(InMemoryProductRepository::new())
}

fn seeded_service() -> ProductService<InMemoryProductRepository> {
    let mut repo = InMemoryProductRepository::new();
    repo.initialize().unwrap();
    ProductService::new(repo)
}

fn create_request(name: &str, price: &str, stock: i32) -> CreateProductRequest {
    CreateProductRequest {
        name: name.to_string(),
        description: None,
        price: price.to_string(),
        stock,
    }
}

fn no_change_request() -> UpdateProductRequest {
    UpdateProductRequest { name: None, description: None, price: None, stock: None }
}

#[test]
fn create_then_find_round_trip() {
    let mut service = fresh_service();
    let created = service.create_product(create_request("Widget", "9.99", 3)).unwrap();
    assert_eq!(created.name, "Widget");
    assert_eq!(created.price_cents, 999);
    assert_eq!(created.stock, 3);
    let fetched = service.get_product_by_id(created.id).unwrap();
    assert_eq!(fetched.name, created.name);
    assert_eq!(fetched.price_cents, created.price_cents);
    assert_eq!(fetched.stock, created.stock);
    assert_eq!(fetched.created_at, created.created_at);
    assert_eq!(fetched.updated_at, created.updated_at);
}

#[test]
fn create_stamps_both_timestamps_alike() {
    let mut service = fresh_service();
    let created = service.create_product(create_request("Widget", "1.00", 1)).unwrap();
    assert_eq!(created.created_at, created.updated_at);
    assert!(chrono::DateTime::parse_from_rfc3339(&created.created_at).is_ok());
}

#[test]
fn create_rejects_invalid_fields_in_order() {
    let mut service = fresh_service();
    assert!(matches!(
        service.create_product(create_request("  ", "1.00", 1)),
        Err(ApplicationError::DomainError(DomainError::InvalidProductName(_)))
    ));
    assert!(matches!(
        service.create_product(create_request("Widget", "not-a-price", 1)),
        Err(ApplicationError::DomainError(DomainError::InvalidMoney(_)))
    ));
    assert!(matches!(
        service.create_product(create_request("Widget", "1.00", -1)),
        Err(ApplicationError::DomainError(DomainError::InvalidStock(_)))
    ));
    assert!(service.get_all_products().unwrap().is_empty());
}

#[test]
fn get_all_returns_newest_first() {
    let mut service = fresh_service();
    let first = service.create_product(create_request("First", "1.00", 1)).unwrap();
    let second = service.create_product(create_request("Second", "2.00", 2)).unwrap();
    let all = service.get_all_products().unwrap();
    assert_eq!(all.len(), 2);
    assert_eq!(all[0].id, second.id);
    assert_eq!(all[1].id, first.id);
}

#[test]
fn get_product_by_id_not_found_and_invalid() {
    let service = fresh_service();
    assert!(matches!(
        service.get_product_by_id(12),
        Err(ApplicationError::ProductNotFound)
    ));
    assert!(matches!(
        service.get_product_by_id(0),
        Err(ApplicationError::DomainError(DomainError::InvalidProductId))
    ));
}

#[test]
fn update_product_missing_id_fails_for_every_field_combination() {
    let mut service = fresh_service();
    let requests = [
        no_change_request(),
        UpdateProductRequest {
            name: Some("New".to_string()),
            description: None,
            price: None,
            stock: None,
        },
        UpdateProductRequest {
            name: None,
            description: Some("d".to_string()),
            price: None,
            stock: None,
        },
        UpdateProductRequest {
            name: None,
            description: None,
            price: Some("3.50".to_string()),
            stock: None,
        },
        UpdateProductRequest { name: None, description: None, price: None, stock: Some(9) },
        UpdateProductRequest {
            name: Some("New".to_string()),
            description: Some("d".to_string()),
            price: Some("3.50".to_string()),
            stock: Some(9),
        },
    ];
    for request in requests {
        assert!(matches!(
            service.update_product(99, request),
            Err(ApplicationError::ProductNotFound)
        ));
    }
}

#[test]
fn update_product_replaces_given_fields_and_keeps_created_at() {
    let mut service = fresh_service();
    let created = service.create_product(create_request("Widget", "9.99", 3)).unwrap();
    let updated = service
        .update_product(
            created.id,
            UpdateProductRequest {
                name: Some("  Gadget ".to_string()),
                description: Some("Improved".to_string()),
                price: Some("19.999".to_string()),
                stock: None,
            },
        )
        .unwrap();
    assert_eq!(updated.id, created.id);
    assert_eq!(updated.name, "Gadget");
    assert_eq!(updated.description.as_deref(), Some("Improved"));
    assert_eq!(updated.price_cents, 2000);
    assert_eq!(updated.stock, 3);
    assert_eq!(updated.created_at, created.created_at);
}

#[test]
fn update_product_always_replaces_the_description() {
    // The surrounding layers hand the description through
    // unconditionally, so omitting it clears a stored description
    // rather than leaving it unchanged.
    let mut service = fresh_service();
    let created = service
        .create_product(CreateProductRequest {
            name: "Widget".to_string(),
            description: Some("Original".to_string()),
            price: "1.00".to_string(),
            stock: 1,
        })
        .unwrap();
    assert_eq!(created.description.as_deref(), Some("Original"));
    let updated = service.update_product(created.id, no_change_request()).unwrap();
    assert_eq!(updated.description, None);
}

#[test]
fn update_product_rejects_invalid_fields() {
    let mut service = fresh_service();
    let created = service.create_product(create_request("Widget", "1.00", 1)).unwrap();
    assert!(matches!(
        service.update_product(
            created.id,
            UpdateProductRequest {
                name: Some("   ".to_string()),
                description: None,
                price: None,
                stock: None,
            },
        ),
        Err(ApplicationError::DomainError(DomainError::InvalidProductName(_)))
    ));
    assert!(matches!(
        service.update_product(
            created.id,
            UpdateProductRequest {
                name: None,
                description: None,
                price: Some("1000000.00".to_string()),
                stock: None,
            },
        ),
        Err(ApplicationError::DomainError(DomainError::InvalidMoney(_)))
    ));
    assert!(matches!(
        service.update_product(
            created.id,
            UpdateProductRequest {
                name: None,
                description: None,
                price: None,
                stock: Some(-2),
            },
        ),
        Err(ApplicationError::DomainError(DomainError::InvalidStock(_)))
    ));
}

#[test]
fn delete_product_twice_reports_not_found_the_second_time() {
    let mut service = fresh_service();
    let created = service.create_product(create_request("Widget", "1.00", 1)).unwrap();
    assert_eq!(service.delete_product(created.id).unwrap(), true);
    assert!(matches!(
        service.delete_product(created.id),
        Err(ApplicationError::ProductNotFound)
    ));
    assert!(matches!(
        service.get_product_by_id(created.id),
        Err(ApplicationError::ProductNotFound)
    ));
}

#[test]
fn delete_product_rejects_invalid_id() {
    let mut service = fresh_service();
    assert!(matches!(
        service.delete_product(-1),
        Err(ApplicationError::DomainError(DomainError::InvalidProductId))
    ));
}

#[test]
fn search_without_term_equals_get_all() {
    let service = seeded_service();
    let all = service.get_all_products().unwrap();
    let searched = service
        .search_products(SearchProductsQuery { query: None, limit: None, offset: None })
        .unwrap();
    assert_eq!(searched, all);
    let blank = service
        .search_products(SearchProductsQuery {
            query: Some("   ".to_string()),
            limit: None,
            offset: None,
        })
        .unwrap();
    assert_eq!(blank, all);
}

#[test]
fn search_mac_finds_exactly_the_macbook() {
    let service = seeded_service();
    let hits = service
        .search_products(SearchProductsQuery {
            query: Some("mac".to_string()),
            limit: None,
            offset: None,
        })
        .unwrap();
    assert_eq!(hits.len(), 1);
    assert_eq!(hits[0].name, "MacBook Pro 16\"");
    assert_eq!(hits[0].price_cents, 249999);
    assert_eq!(hits[0].stock, 10);
}

#[test]
fn search_is_case_insensitive_and_covers_descriptions() {
    let service = seeded_service();
    let upper = service
        .search_products(SearchProductsQuery {
            query: Some("MAC".to_string()),
            limit: None,
            offset: None,
        })
        .unwrap();
    let lower = service
        .search_products(SearchProductsQuery {
            query: Some("mac".to_string()),
            limit: None,
            offset: None,
        })
        .unwrap();
    assert_eq!(upper, lower);
    let by_description = service
        .search_products(SearchProductsQuery {
            query: Some("titanium".to_string()),
            limit: None,
            offset: None,
        })
        .unwrap();
    assert_eq!(by_description.len(), 1);
    assert_eq!(by_description[0].name, "iPhone 15 Pro");
}

#[test]
fn seeding_runs_once_and_fills_five_products() {
    let mut repo = InMemoryProductRepository::new();
    repo.initialize().unwrap();
    repo.initialize().unwrap();
    let service = ProductService::new(repo);
    let all = service.get_all_products().unwrap();
    assert_eq!(all.len(), 5);
    assert_eq!(all[0].name, "Apple Watch Ultra");
    assert_eq!(all[4].name, "MacBook Pro 16\"");
}

#[test]
fn seed_entries_lists_the_five_fixed_rows() {
    let entries = seed_entries();
    assert_eq!(entries.len(), 5);
    assert_eq!(entries[0].0, "MacBook Pro 16\"");
    assert_eq!(entries[0].2, 249999);
    assert_eq!(entries[0].3, 10);
    assert_eq!(entries[4].0, "Apple Watch Ultra");
}

#[test]
fn product_exists_follows_the_store() {
    let mut service = fresh_service();
    let created = service.create_product(create_request("Widget", "1.00", 1)).unwrap();
    assert_eq!(service.product_exists(created.id).unwrap(), true);
    assert_eq!(service.product_exists(created.id + 1).unwrap(), false);
    assert!(matches!(
        service.product_exists(0),
        Err(ApplicationError::DomainError(DomainError::InvalidProductId))
    ));
}

#[test]
fn repository_assigns_consecutive_identities() {
    let mut repo = InMemoryProductRepository::new();
    let a = row_to_product(
        7,
        "Widget".to_string(),
        None,
        999,
        3,
        "2024-01-02T03:04:05+00:00",
        "2024-01-02T03:04:05+00:00",
    )
    .unwrap();
    let saved1 = repo.save(a.clone()).unwrap();
    let saved2 = repo.save(a).unwrap();
    assert_eq!(saved1.id().value(), 1);
    assert_eq!(saved2.id().value(), 2);
    assert_eq!(repo.next_id().unwrap().value(), 1);
}

#[test]
fn row_to_product_keeps_stored_timestamps() {
    let product = row_to_product(
        1,
        "Widget".to_string(),
        Some("desc".to_string()),
        999,
        3,
        "2024-01-02T03:04:05+00:00",
        "2024-02-03T04:05:06+00:00",
    )
    .unwrap();
    assert_eq!(product.created_at(), 1704164645000);
    assert_eq!(product.updated_at(), 1706933106000);
    assert_eq!(product.name().value(), "Widget");
    assert_eq!(product.price().value(), 999);
    assert_eq!(product.stock().value(), 3);
}

#[test]
fn row_to_product_rejects_bad_columns() {
    let ok_ts = "2024-01-02T03:04:05+00:00";
    assert!(matches!(
        row_to_product(1, "W".to_string(), None, 1, 1, "yesterday", ok_ts),
        Err(RepositoryError::Internal(_))
    ));
    assert!(matches!(
        row_to_product(0, "W".to_string(), None, 1, 1, ok_ts, ok_ts),
        Err(RepositoryError::DomainError(DomainError::InvalidProductId))
    ));
    assert!(matches!(
        row_to_product(1, "  ".to_string(), None, 1, 1, ok_ts, ok_ts),
        Err(RepositoryError::DomainError(DomainError::InvalidProductName(_)))
    ));
    assert!(matches!(
        row_to_product(1, "W".to_string(), None, 100000000, 1, ok_ts, ok_ts),
        Err(RepositoryError::DomainError(DomainError::InvalidMoney(_)))
    ));
    assert!(matches!(
        row_to_product(1, "W".to_string(), None, 1, -1, ok_ts, ok_ts),
        Err(RepositoryError::DomainError(DomainError::InvalidStock(_)))
    ));
}

#[test]
fn api_response_envelopes() {
    let ok: ApiResponse<i32> = ApiResponse::success(5);
    assert!(ok.success);
    assert_eq!(ok.data, Some(5));
    assert_eq!(ok.message, None);
    assert_eq!(ok.errors, None);

    let err: ApiResponse<i32> = ApiResponse::error("boom".to_string());
    assert!(!err.success);
    assert_eq!(err.data, None);
    assert_eq!(err.message.as_deref(), Some("boom"));

    let invalid: ApiResponse<i32> = ApiResponse::validation_error(vec!["bad".to_string()]);
    assert!(!invalid.success);
    assert_eq!(invalid.message.as_deref(), Some("Validation failed"));
    assert_eq!(invalid.errors, Some(vec!["bad".to_string()]));
}

#[test]
fn paginated_response_flags() {
    let mid: PaginatedResponse<i32> = PaginatedResponse::new(vec![1, 2], 30, 2, 10);
    assert!(mid.has_next);
    assert!(mid.has_prev);
    let last: PaginatedResponse<i32> = PaginatedResponse::new(vec![1, 2], 30, 3, 10);
    assert!(!last.has_next);
    assert!(last.has_prev);
    let first: PaginatedResponse<i32> = PaginatedResponse::new(vec![1, 2], 30, 1, 10);
    assert!(first.has_next);
    assert!(!first.has_prev);
}

#[test]
fn seeded_rows_have_equal_timestamps() {
    let service = seeded_service();
    let all = service.get_all_products().unwrap();
    assert_eq!(all.len(), 5);
    for product in &all {
        assert_eq!(product.created_at, product.updated_at);
    }
}

#[test]
fn search_treats_wildcard_characters_as_literals() {
    let mut service = fresh_service();
    service.create_product(create_request("100% Cotton Shirt", "25.00", 4)).unwrap();
    service.create_product(create_request("Wool Sweater", "40.00", 2)).unwrap();
    let percent = service
        .search_products(SearchProductsQuery {
            query: Some("%".to_string()),
            limit: None,
            offset: None,
        })
        .unwrap();
    assert_eq!(percent.len(), 1);
    assert_eq!(percent[0].name, "100% Cotton Shirt");
    let underscore = service
        .search_products(SearchProductsQuery {
            query: Some("_".to_string()),
            limit: None,
            offset: None,
        })
        .unwrap();
    assert!(underscore.is_empty());
}

#[test]
fn blank_query_detection() {
    assert!(query_is_blank(&None));
    assert!(query_is_blank(&Some(String::new())));
    assert!(query_is_blank(&Some("  \t ".to_string())));
    assert!(!query_is_blank(&Some("mac".to_string())));
}
