use eprice::scanner::barcode_decoder;
use eprice::scanner::product_matcher;
use eprice::scanner::barcode_decoder::{
    barcode_from_hash, confidence_string, hash_image, pattern_confidence_of, BarcodeDecoder,
};
use eprice::scanner::camera_manager::CameraManager;
use eprice::scanner::models::{BarcodeType, CameraConfig};
use eprice::scanner::product_matcher::{calculate_similarity, ProductMatcher};
use eprice::scanner::{ScannerError, ScannerService};

#[test]
fn kinds_of_codes_by_text() {
    assert_eq!(product_matcher::determine_barcode_type("4901234567890"), BarcodeType::Ean13);
    assert_eq!(product_matcher::determine_barcode_type("12345678"), BarcodeType::Ean8);
    assert_eq!(product_matcher::determine_barcode_type("https://example.com/p/1"), BarcodeType::QrCode);
    assert_eq!(product_matcher::determine_barcode_type("a://b"), BarcodeType::QrCode);
    assert_eq!(product_matcher::determine_barcode_type("PROD123"), BarcodeType::Code128);
    assert_eq!(product_matcher::determine_barcode_type("ab"), BarcodeType::Unknown);
    assert_eq!(product_matcher::determine_barcode_type("490123456789X"), BarcodeType::Code128);
}

#[test]
fn kinds_of_codes_by_image_size() {
    assert_eq!(barcode_decoder::determine_barcode_type(400_000), BarcodeType::Ean13);
    assert_eq!(barcode_decoder::determine_barcode_type(307_201), BarcodeType::Ean13);
    assert_eq!(barcode_decoder::determine_barcode_type(307_200), BarcodeType::QrCode);
    assert_eq!(barcode_decoder::determine_barcode_type(1000), BarcodeType::QrCode);
}

#[test]
fn similarity_scores() {
    assert_eq!(calculate_similarity("4901234567890", "Coca Cola", "4901234567890"), 1000);
    assert_eq!(calculate_similarity("COCA COLA 500ML", "Coca Cola 500ml", "1"), 950);
    assert_eq!(calculate_similarity("cola", "Coca Cola 500ml", "1"), 800);
    assert_eq!(calculate_similarity("coca cola 500ml bottle", "Coca Cola 500ml", "1"), 750);
    assert_eq!(calculate_similarity("456", "Water", "123456"), 700);
    assert_eq!(calculate_similarity("fresh water bottle", "Mineral Water 330ml", "9"), 333);
    assert_eq!(calculate_similarity("xyz", "Mineral Water", "9"), 0);
}

#[test]
fn matcher_finds_known_and_made_up_products() {
    let m = ProductMatcher::new();
    assert_eq!(m.cache_size(), 3);
    let p = m.find_product_by_barcode("4901234567890").unwrap().unwrap();
    assert_eq!(p.name, "Coca Cola 500ml");
    assert_eq!(p.category, "Beverages");
    let p = m.find_product_by_barcode("PROD42").unwrap().unwrap();
    assert_eq!(p.name, "Product 42");
    assert_eq!(p.category, "Manufactured");
    assert_eq!(p.barcode, Some("PROD42".to_string()));
    let p = m.find_product_by_barcode("1234567890128").unwrap().unwrap();
    assert_eq!(p.name, "Beverage 45678");
    assert_eq!(p.category, "Drinks");
    assert!(m.find_product_by_barcode("4901234567899").unwrap().is_none());
    assert!(m.find_product_by_barcode("").unwrap().is_none());
}

#[test]
fn matcher_cache_changes() {
    let mut m = ProductMatcher::new().with_similarity_threshold(5000);
    let removed = m.remove_product("12345678");
    assert_eq!(removed.map(|p| p.name), Some("Mineral Water 330ml".to_string()));
    assert_eq!(m.cache_size(), 2);
    assert!(m.remove_product("12345678").is_none());
    m.clear_cache();
    assert_eq!(m.cache_size(), 0);
}

#[test]
fn matcher_search_ranks_by_similarity() {
    let m = ProductMatcher::new();
    let hits = m.search_products("cola").unwrap();
    assert_eq!(hits.len(), 1);
    assert_eq!(hits[0].product.name, "Coca Cola 500ml");
    assert_eq!(hits[0].similarity, 800);
    let none = m.search_products("zzz").unwrap();
    assert!(none.is_empty());
}

#[test]
fn codes_from_hashes() {
    assert_eq!(barcode_from_hash(0, BarcodeType::Ean13), "0000000000000");
    assert_eq!(barcode_from_hash(123, BarcodeType::Code128), "PROD000123");
    assert_eq!(barcode_from_hash(123456, BarcodeType::QrCode), "https://product.example.com/id/23456");
    assert_eq!(barcode_from_hash(12345, BarcodeType::Unknown), "UNK2345");
    assert_eq!(hash_image(&[1, 2]), 33);
    assert_eq!(hash_image(&[]), 0);
}

#[test]
fn confidences() {
    assert_eq!(confidence_string(725), "0.72");
    assert_eq!(confidence_string(1000), "1.00");
    assert_eq!(confidence_string(5), "0.00");
    assert_eq!(pattern_confidence_of(10, 100), 500);
    assert_eq!(pattern_confidence_of(10, 60_000), 600);
    assert_eq!(pattern_confidence_of(30, 60_000), 1000);
}

#[test]
fn decoder_outcomes() {
    let d = BarcodeDecoder::new();
    match d.decode(&[]) {
        Err(ScannerError::BarcodeDetection(m)) => assert_eq!(m, "Empty image data"),
        other => panic!("unexpected {:?}", other),
    }
    match d.decode(&[0u8; 50]) {
        Err(ScannerError::BarcodeDetection(m)) => assert_eq!(m, "No barcode detected in image"),
        other => panic!("unexpected {:?}", other),
    }
    let s = d.decode(&[0u8; 1000]).unwrap();
    assert_eq!(s.barcode, "4901234567890");
    assert_eq!(s.barcode_type, BarcodeType::Ean13);
    assert_eq!(s.confidence, 720);
    let strict = BarcodeDecoder::new().with_confidence_threshold(900);
    match strict.decode(&[0u8; 1000]) {
        Err(ScannerError::BarcodeDetection(m)) => {
            assert_eq!(m, "Low confidence barcode detected: 0.72 < 0.90")
        }
        other => panic!("unexpected {:?}", other),
    }
    assert!(d.decode_multiple(&[]).unwrap().is_empty());
    assert_eq!(d.decode_multiple(&[0u8; 1000]).unwrap().len(), 1);
}

#[test]
fn decoder_validation_patterns() {
    let d = BarcodeDecoder::new();
    assert!(d.validate_barcode("4901234567890", BarcodeType::Ean13));
    assert!(!d.validate_barcode("490123", BarcodeType::Ean13));
    assert!(d.validate_barcode("12345678", BarcodeType::Ean8));
    assert!(d.validate_barcode("ABC-12.3", BarcodeType::Code128));
    assert!(!d.validate_barcode("abc!", BarcodeType::Code128));
    assert!(d.validate_barcode("anything", BarcodeType::QrCode));
    assert!(!d.validate_barcode("x", BarcodeType::Unknown));
    assert_eq!(
        d.supported_types(),
        vec![BarcodeType::Ean13, BarcodeType::Ean8, BarcodeType::Code128, BarcodeType::QrCode]
    );
}

#[test]
fn camera_life_cycle() {
    let mut c = CameraManager::new();
    assert!(!c.is_running());
    assert!(matches!(c.capture_frame(None), Err(ScannerError::CameraAccess(_))));
    assert!(c.start_camera().is_ok());
    match c.start_camera() {
        Err(ScannerError::CameraAccess(m)) => assert_eq!(m, "Camera is already running"),
        other => panic!("unexpected {:?}", other),
    }
    let cfg = CameraConfig { width: 1280, height: 720, fps: 60 };
    assert!(c.update_config(cfg).is_err());
    assert_eq!(c.capture_frame(Some(vec![1, 2, 3])).unwrap(), vec![1, 2, 3]);
    let frame = c.capture_frame(None).unwrap();
    assert_eq!(frame.len(), 640 * 480);
    assert_eq!(frame[0], 200);
    assert_eq!(frame[50], 100);
    assert_eq!(frame[640 * 50], 100);
    assert_eq!(frame[640 * 50 + 50], 200);
    assert!(c.stop_camera().is_ok());
    assert!(c.update_config(cfg).is_ok());
    assert_eq!(*c.get_config(), cfg);
    let cams = CameraManager::list_cameras(None);
    assert_eq!(cams.len(), 1);
    assert_eq!(cams[0].name, "Mock Camera 1");
    assert_eq!(cams[0].supported_resolutions, vec![(640, 480), (1280, 720), (1920, 1080)]);
}

#[test]
fn scanner_service_scans_and_matches() {
    let mut s = ScannerService::new();
    match s.scan_and_match(None) {
        Err(ScannerError::CameraAccess(m)) => {
            assert_eq!(m, "Camera access failed: Camera is not running")
        }
        other => panic!("unexpected {:?}", other),
    }
    s.start_camera().unwrap();
    assert!(s.is_camera_running());
    let p = s.scan_and_match(Some(vec![0u8; 1000])).unwrap().unwrap();
    assert_eq!(p.name, "Coca Cola 500ml");
    match s.scan_and_match(Some(vec![])) {
        Err(ScannerError::BarcodeDetection(m)) => {
            assert_eq!(m, "Barcode detection failed: Empty image data")
        }
        other => panic!("unexpected {:?}", other),
    }
    s.stop_camera().unwrap();
    assert!(!s.is_camera_running());
}

#[test]
fn scanner_error_texts() {
    assert_eq!(ScannerError::NoCameraAvailable.message(), "No camera available");
    assert_eq!(
        ScannerError::UnsupportedBarcodeType("X".to_string()).message(),
        "Unsupported barcode type: X"
    );
}
