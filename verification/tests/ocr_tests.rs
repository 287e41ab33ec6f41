use eprice::models::{Product, ReceiptItem};
use eprice::ocr::image_processor::ImageProcessor;
use eprice::ocr::receipt_parser::{
    amount_of, calculate_match_score, classify_item_category, parse_receipt_date, MatchType, ReceiptParser,
};
use eprice::ocr::text_extractor::{TextExtractionResult, TextExtractor};
use eprice::ocr::OcrError;

fn reading(text: &str) -> TextExtractionResult {
    TextExtractionResult {
        text: text.to_string(),
        confidence: 900,
        language_detected: "eng".to_string(),
        word_confidences: Vec::new(),
        line_count: 0,
        processing_time_ms: 0,
        layout_preserved: true,
    }
}

fn product(name: &str) -> Product {
    Product::new(
        name.to_string(),
        "Food".to_string(),
        String::new(),
        None,
        Vec::new(),
        Vec::new(),
    )
}

#[test]
fn amounts_in_hundredths() {
    assert_eq!(amount_of("1,234.5"), Some(123450));
    assert_eq!(amount_of("12.345"), Some(1234));
    assert_eq!(amount_of("150"), Some(15000));
    assert_eq!(amount_of(".5"), Some(50));
    assert_eq!(amount_of(""), None);
    assert_eq!(amount_of("1.2.3"), None);
    assert_eq!(amount_of("abc"), None);
}

#[test]
fn item_categories() {
    assert_eq!(classify_item_category("Diet COLA"), "飲料");
    assert_eq!(classify_item_category("Potato Chips"), "スナック");
    assert_eq!(classify_item_category("Mineral Water"), "飲料");
    assert_eq!(classify_item_category("Bread"), "その他");
}

#[test]
fn match_scores() {
    assert_eq!(calculate_match_score("Cola", "COLA"), 1000);
    assert_eq!(calculate_match_score("Cola", "Coca Cola 500ml"), 800);
    assert_eq!(calculate_match_score("green tea", "tea green bottle"), 800);
    assert_eq!(calculate_match_score("green tea", "green apple"), 500);
    assert_eq!(calculate_match_score("bread", "milk"), 0);
}

#[test]
fn parse_english_receipt() {
    let p = ReceiptParser::new();
    let text = "FamilyMart Tokyo\nCola 150\nPotato Chips ¥1,200\nSubtotal 1,350\nTax 135\nTotal 1,485\n2024/01/15";
    let r = p.parse_receipt_at(&reading(text), 7).unwrap();
    assert_eq!(r.store_info.name, "FamilyMart");
    assert_eq!(r.store_info.branch, Some("Main Branch".to_string()));
    let names: Vec<&str> = r.items.iter().map(|i| i.name.as_str()).collect();
    assert_eq!(names, vec!["Cola", "Potato Chips", "Tax"]);
    let prices: Vec<i64> = r.items.iter().map(|i| i.price).collect();
    assert_eq!(prices, vec![15000, 120000, 13500]);
    assert_eq!(r.items[0].category, Some("飲料".to_string()));
    assert_eq!(r.items[1].category, Some("スナック".to_string()));
    assert!(r.items.iter().all(|i| i.quantity == 1));
    assert_eq!(r.totals.subtotal, Some(135000));
    assert_eq!(r.totals.tax, Some(13500));
    assert_eq!(r.totals.total, Some(148500));
    assert_eq!(r.totals.discount, None);
    assert_eq!(r.datetime, Some(1705276800));
    assert_eq!(r.raw_text, text);
    assert_eq!(r.confidence, 900);
    assert_eq!(r.parsing_confidence, 1000);
}

#[test]
fn parse_receipt_without_shop_or_date() {
    let p = ReceiptParser::new();
    let r = p.parse_receipt_at(&reading("  Corner Deli  \nhello"), 42).unwrap();
    assert_eq!(r.store_info.name, "Corner Deli");
    assert_eq!(r.store_info.branch, None);
    assert!(r.items.is_empty());
    assert_eq!(r.totals.total, None);
    assert_eq!(r.datetime, Some(42));
    assert_eq!(r.parsing_confidence, 800);
    let r = p.parse_receipt_at(&reading(""), 42).unwrap();
    assert_eq!(r.store_info.name, "Unknown Store");
}

#[test]
fn whole_pipeline_on_stand_in_receipt() {
    let ip = ImageProcessor::new();
    let img = ip.process_image_file("scans/receipt.JPG").unwrap();
    assert_eq!(img.confidence, 850);
    assert_eq!(img.dimensions(), (800, 600));
    assert_eq!(img.processed_data.len(), 1024);
    assert_eq!(
        img.get_preprocessing_summary(),
        "noise_reduction, contrast_enhancement, grayscale_conversion, binarization"
    );
    let te = TextExtractor::new();
    let x = te.extract_text(&img).unwrap();
    assert_eq!(x.confidence, 765);
    assert_eq!(x.line_count, 16);
    assert_eq!(x.processing_time_ms, 150);
    let r = ReceiptParser::new().parse_receipt_at(&x, 0).unwrap();
    assert_eq!(r.store_info.name, "FamilyMart");
    let names: Vec<&str> = r.items.iter().map(|i| i.name.as_str()).collect();
    assert_eq!(names, vec!["コカコーラ 330ml", "ポテトチップス", "おにぎり ツナマヨ", "現金", "お釣り"]);
    let prices: Vec<i64> = r.items.iter().map(|i| i.price).collect();
    assert_eq!(prices, vec![15000, 12000, 11000, 50000, 8200]);
    assert_eq!(r.totals.subtotal, Some(38000));
    assert_eq!(r.totals.tax, Some(3800));
    assert_eq!(r.totals.total, Some(41800));
    assert_eq!(r.datetime, Some(1725753600));
    assert_eq!(r.parsing_confidence, 1000);
}

#[test]
fn image_processor_refusals() {
    let ip = ImageProcessor::with_config(500, false, true);
    match ip.process_image_file("noext") {
        Err(OcrError::ImageProcessing(m)) => assert_eq!(m, "Unable to determine file extension"),
        other => panic!("unexpected {:?}", other.map(|p| p.original_path)),
    }
    match ip.process_image_file("a.gif") {
        Err(OcrError::UnsupportedFormat(m)) => assert_eq!(m, "gif"),
        other => panic!("unexpected {:?}", other.map(|p| p.original_path)),
    }
    let img = ip.process_image_file("a.png").unwrap();
    assert_eq!(img.get_preprocessing_summary(), "none, contrast_enhancement, grayscale_conversion, binarization");
    assert!(img.is_quality_sufficient(850));
    assert!(!img.is_quality_sufficient(851));
    assert!(ip.is_supported_format("WEBP"));
    assert!(!ip.is_supported_format("gif"));
    let d = ip.process_image_data(&[1, 2, 3], "Png").unwrap();
    assert_eq!(d.original_path, "memory");
    assert_eq!(d.processed_data, vec![1, 2, 3]);
    assert_eq!(d.confidence, 800);
    assert!(ip.process_image_data(&[1], "gif").is_err());
    assert_eq!(ip.detect_rotation(&[1, 2]).unwrap(), 0);
    assert_eq!(ip.correct_rotation(&[4, 5], 90).unwrap(), vec![4, 5]);
    assert_eq!(
        OcrError::UnsupportedFormat("gif".to_string()).message(),
        "Unsupported image format: gif"
    );
}

#[test]
fn extractor_tables_and_statistics() {
    let mut te = TextExtractor::new();
    assert!(te.is_language_supported("jpn"));
    assert!(!te.is_language_supported("fra"));
    assert_eq!(te.get_supported_languages(), vec!["eng", "jpn", "chi_sim", "chi_tra", "kor"]);
    te.set_confidence_threshold(5000);
    assert_eq!(te.confidence_threshold, 1000);
    te.set_language("jpn".to_string());
    let x = te.extract_text_from_data(&[0u8; 4], "png").unwrap();
    assert_eq!(x.confidence, 820);
    assert_eq!(x.language_detected, "jpn");
    assert_eq!(x.line_count, 4);
    assert!(x.is_confident(820));
    assert!(!x.is_confident(821));
    let r = reading("ab ab 12 abcdefgh");
    let r = TextExtractionResult {
        word_confidences: vec![("ab".to_string(), 900), ("12".to_string(), 950), ("abcdefgh".to_string(), 850)],
        ..r
    };
    assert_eq!(r.average_word_confidence(), 900);
    assert_eq!(r.get_low_confidence_words(900), vec!["abcdefgh".to_string()]);
    let s = r.get_statistics();
    assert_eq!(s.word_count, 4);
    assert_eq!(s.non_whitespace_count, 14);
    assert_eq!(s.average_word_length, 3500);
    assert_eq!(s.character_count, 17);
}

#[test]
fn receipt_items_match_products() {
    let p = ReceiptParser::new();
    let items = vec![
        ReceiptItem { name: "Cola".to_string(), price: 150, quantity: 1, category: None },
        ReceiptItem { name: "green tea".to_string(), price: 100, quantity: 1, category: None },
        ReceiptItem { name: "bread".to_string(), price: 100, quantity: 1, category: None },
    ];
    let products = vec![product("Coca Cola 500ml"), product("Cola"), product("green apple")];
    let m = p.match_products(&items, &products).unwrap();
    assert_eq!(m.len(), 3);
    assert_eq!(m[0].confidence, 1000);
    assert_eq!(m[0].match_type, MatchType::Exact);
    assert_eq!(m[0].matched_product.as_ref().map(|p| p.name.as_str()), Some("Cola"));
    assert_eq!(m[1].confidence, 500);
    assert_eq!(m[1].match_type, MatchType::NoMatch);
    assert_eq!(m[1].matched_product.as_ref().map(|p| p.name.as_str()), Some("green apple"));
    assert_eq!(m[2].confidence, 0);
    assert!(m[2].matched_product.is_none());
}

#[test]
fn receipt_dates_read_as_midnight_utc() {
    assert_eq!(parse_receipt_date("2024/01/15"), Some(1_705_276_800));
    assert_eq!(parse_receipt_date("1970/01/01"), Some(0));
    assert_eq!(parse_receipt_date("2024/13/01"), None);
    assert_eq!(parse_receipt_date("not a date"), None);
}
