use eprice::services::product_service::ProductService;

#[test]
fn test_product_creation_success() {
    let mut service = ProductService::new();

    let result = service.create_product(
        "Test Product".to_string(),
        "Electronics".to_string(),
        "A test product".to_string(),
        Some("1234567890123".to_string()),
        vec!["test".to_string()],
    );

    assert!(result.is_ok());
    let product = result.unwrap();
    assert_eq!(product.name, "Test Product");
    assert_eq!(product.category, "Electronics");
    assert_eq!(product.barcode, Some("1234567890123".to_string()));
}

#[test]
fn test_product_creation_invalid_category() {
    let mut service = ProductService::new();

    let result = service.create_product(
        "Test Product".to_string(),
        "InvalidCategory".to_string(),
        "A test product".to_string(),
        None,
        vec![],
    );

    assert!(result.is_err());
}

#[test]
fn test_product_creation_duplicate_barcode() {
    let mut service = ProductService::new();

    service
        .create_product(
            "Product 1".to_string(),
            "Electronics".to_string(),
            "First product".to_string(),
            Some("1234567890123".to_string()),
            vec![],
        )
        .unwrap();

    let result = service.create_product(
        "Product 2".to_string(),
        "Electronics".to_string(),
        "Second product".to_string(),
        Some("1234567890123".to_string()),
        vec![],
    );

    assert!(result.is_err());
}

#[test]
fn test_get_product_by_id() {
    let mut service = ProductService::new();

    let product = service
        .create_product(
            "Test Product".to_string(),
            "Electronics".to_string(),
            "A test product".to_string(),
            None,
            vec![],
        )
        .unwrap();

    let result = service.get_product(&product.id);
    assert!(result.is_ok());
    assert_eq!(result.unwrap().name, "Test Product");
}

#[test]
fn test_get_product_by_barcode() {
    let mut service = ProductService::new();

    service
        .create_product(
            "Test Product".to_string(),
            "Electronics".to_string(),
            "A test product".to_string(),
            Some("1234567890123".to_string()),
            vec![],
        )
        .unwrap();

    let result = service.get_product_by_barcode("1234567890123");
    assert!(result.is_ok());
    assert!(result.unwrap().is_some());

    let result = service.get_product_by_barcode("nonexistent");
    assert!(result.is_ok());
    assert!(result.unwrap().is_none());
}

#[test]
fn test_update_product() {
    let mut service = ProductService::new();

    let product = service
        .create_product(
            "Test Product".to_string(),
            "Electronics".to_string(),
            "A test product".to_string(),
            None,
            vec![],
        )
        .unwrap();

    let result = service.update_product(
        &product.id,
        Some("Updated Product".to_string()),
        None,
        Some("Updated description".to_string()),
        Some(vec!["updated".to_string()]),
    );

    assert!(result.is_ok());
    let updated_product = result.unwrap();
    assert_eq!(updated_product.name, "Updated Product");
    assert_eq!(updated_product.description, "Updated description");
    assert_eq!(updated_product.tags, vec!["updated".to_string()]);
}

#[test]
fn test_delete_product() {
    let mut service = ProductService::new();

    let product = service
        .create_product(
            "Test Product".to_string(),
            "Electronics".to_string(),
            "A test product".to_string(),
            None,
            vec![],
        )
        .unwrap();

    let result = service.delete_product(&product.id);
    assert!(result.is_ok());

    let result = service.get_product(&product.id);
    assert!(result.is_err());
}

#[test]
fn test_search_products() {
    let mut service = ProductService::new();

    service
        .create_product(
            "iPhone 15".to_string(),
            "Electronics".to_string(),
            "Latest iPhone model".to_string(),
            None,
            vec!["apple".to_string(), "smartphone".to_string()],
        )
        .unwrap();

    service
        .create_product(
            "Samsung Galaxy".to_string(),
            "Electronics".to_string(),
            "Android smartphone".to_string(),
            None,
            vec!["samsung".to_string(), "android".to_string()],
        )
        .unwrap();

    let results = service.search_products("iPhone", None).unwrap();
    assert_eq!(results.len(), 1);
    assert_eq!(results[0].name, "iPhone 15");

    let results = service.search_products("smartphone", None).unwrap();
    assert_eq!(results.len(), 2);

    let results = service.search_products("", Some("Electronics")).unwrap();
    assert_eq!(results.len(), 2);
}

#[test]
fn test_get_products_by_category() {
    let mut service = ProductService::new();

    service
        .create_product(
            "iPhone".to_string(),
            "Electronics".to_string(),
            "Smartphone".to_string(),
            None,
            vec![],
        )
        .unwrap();

    service
        .create_product("Chips".to_string(), "Food".to_string(), "Snack".to_string(), None, vec![])
        .unwrap();

    let electronics = service.get_products_by_category("Electronics").unwrap();
    assert_eq!(electronics.len(), 1);

    let food = service.get_products_by_category("Food").unwrap();
    assert_eq!(food.len(), 1);
}

#[test]
fn test_category_management() {
    let mut service = ProductService::new();

    let categories = service.get_categories();
    let initial_count = categories.len();

    let result = service.add_category("NewCategory".to_string());
    assert!(result.is_ok());

    let categories = service.get_categories();
    assert_eq!(categories.len(), initial_count + 1);
    assert!(categories.contains(&"NewCategory".to_string()));

    let result = service.add_category("NewCategory".to_string());
    assert!(result.is_err());
}

#[test]
fn test_product_stats() {
    let mut service = ProductService::new();

    service
        .create_product(
            "Product 1".to_string(),
            "Electronics".to_string(),
            "Description 1".to_string(),
            None,
            vec![],
        )
        .unwrap();

    service
        .create_product(
            "Product 2".to_string(),
            "Food".to_string(),
            "Description 2".to_string(),
            None,
            vec![],
        )
        .unwrap();

    let stats = service.get_product_stats().unwrap();
    assert_eq!(stats.total_products, 2);
    assert!(stats.category_counts.iter().any(|(c, _)| c == "Electronics"));
    assert!(stats.category_counts.iter().any(|(c, _)| c == "Food"));
}
