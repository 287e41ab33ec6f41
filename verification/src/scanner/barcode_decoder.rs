//! Reading a barcode out of image bytes: pattern analysis, a code derived
//! from the image's hash, a fallback code from its byte sum, and a
//! confidence in thousandths.
use vstd::prelude::*;
use crate::scanner::models::BarcodeType;
use crate::scanner::ScannerError;
use crate::text::owned;
use crate::utils::numbers::{all_digit_chars, check_digit, digit_char, nat_decimal, weighted_sum};
use crate::utils::validation::{regex_compiles, regex_is_match, regex_matches};

verus! {

broadcast use vstd::string::group_string_axioms;

/// A decoded code with its kind and the confidence in thousandths.
#[derive(Debug, Clone)]
pub struct ScanResult {
    pub barcode: String,
    pub barcode_type: BarcodeType,
    pub confidence: u32,
}

/// What a kind of barcode looks like.
#[derive(Debug, Clone)]
pub struct BarcodePattern {
    pub name: String,
    pub validation_pattern: String,
    pub typical_length: usize,
    pub check_digit: bool,
}

/// The validation pattern of each known kind.
pub open spec fn pattern_of(t: BarcodeType) -> Option<Seq<char>> {
    match t {
        BarcodeType::Ean13 => Some("^\\d{13}$"@),
        BarcodeType::Ean8 => Some("^\\d{8}$"@),
        BarcodeType::Code128 => Some("^[A-Za-z0-9\\s\\-\\.\\$\\/\\+\\%]+$"@),
        BarcodeType::QrCode => Some("^.+$"@),
        BarcodeType::Unknown => None,
    }
}

/// The kinds known, in the order they are listed.
pub open spec fn known_types() -> Seq<BarcodeType> {
    seq![BarcodeType::Ean13, BarcodeType::Ean8, BarcodeType::Code128, BarcodeType::QrCode]
}

/// The hash of an image: `h * 31 + byte`, wrapping at 64 bits, over the
/// first 1002 bytes.
pub open spec fn image_hash(data: Seq<u8>) -> nat
    decreases data.len(),
{
    if data.len() == 0 {
        0
    } else if data.len() > 1002 {
        image_hash(data.subrange(0, 1002))
    } else {
        ((image_hash(data.drop_last()) * 31 + data.last()) % 0x1_0000_0000_0000_0000) as nat
    }
}

/// Sum of ten bytes from position `i`.
pub open spec fn window_sum(data: Seq<u8>, i: int) -> int {
    data[i] + data[i + 1] + data[i + 2] + data[i + 3] + data[i + 4] + data[i + 5] + data[i + 6] + data[i + 7]
        + data[i + 8] + data[i + 9]
}

/// Distance of a byte from an average.
pub open spec fn dist(b: int, avg: int) -> int {
    if b >= avg {
        b - avg
    } else {
        avg - b
    }
}

/// Spread of the ten bytes from position `i` around their (rounded down)
/// average.
pub open spec fn window_spread(data: Seq<u8>, i: int) -> int {
    let avg = window_sum(data, i) / 10;
    dist(data[i] as int, avg) + dist(data[i + 1] as int, avg) + dist(data[i + 2] as int, avg) + dist(data[i + 3] as int, avg)
        + dist(data[i + 4] as int, avg) + dist(data[i + 5] as int, avg) + dist(data[i + 6] as int, avg) + dist(
        data[i + 7] as int,
        avg,
    ) + dist(data[i + 8] as int, avg) + dist(data[i + 9] as int, avg)
}

/// Number of windows of ten bytes among the first `n` window positions
/// whose spread exceeds 500.
pub open spec fn busy_windows(data: Seq<u8>, n: int) -> int
    decreases n,
{
    if n <= 0 {
        0
    } else {
        busy_windows(data, n - 1) + if window_spread(data, n - 1) > 500 {
            1int
        } else {
            0
        }
    }
}

/// The bar patterns found: busy windows, counted only in images of at
/// least 100 bytes.
pub open spec fn pattern_count(data: Seq<u8>) -> int {
    if data.len() >= 100 {
        busy_windows(data, data.len() - 9)
    } else {
        0
    }
}

/// The kind an image's size suggests.
pub open spec fn kind_for_size(len: int) -> BarcodeType {
    if len > 640 * 480 {
        if len > 100000 {
            BarcodeType::Ean13
        } else {
            BarcodeType::Ean8
        }
    } else {
        BarcodeType::QrCode
    }
}

/// `n` written in decimal with leading zeros to at least `width` digits.
pub open spec fn padded(n: nat, width: nat) -> Seq<char> {
    let d = nat_decimal(n);
    if d.len() >= width {
        d
    } else {
        Seq::new((width - d.len()) as nat, |i: int| '0') + d
    }
}

/// The code derived from an image hash for a kind.
pub open spec fn code_from_hash(hash: nat, t: BarcodeType) -> Seq<char> {
    match t {
        BarcodeType::Ean13 => {
            let base = padded(hash % 1000000000000, 12);
            base.push(digit_char(check_digit(weighted_sum(base, 1, 3))))
        },
        BarcodeType::Ean8 => {
            let base = padded(hash % 10000000, 7);
            base.push(digit_char(check_digit(weighted_sum(base, 3, 1))))
        },
        BarcodeType::Code128 => "PROD"@ + padded(hash % 1000000, 6),
        BarcodeType::QrCode => "https://product.example.com/id/"@ + nat_decimal(hash % 100000),
        BarcodeType::Unknown => "UNK"@ + nat_decimal(hash % 10000),
    }
}

/// The confidence, in thousandths, of a reading from bar patterns: one
/// twentieth per pattern, a tenth more for images over 50000 bytes, at
/// most one.
pub open spec fn pattern_confidence(patterns: int, size: int) -> int {
    let base = if patterns * 1000 / 20 > 1000 {
        1000
    } else {
        patterns * 1000 / 20
    };
    let total = base + if size > 50000 {
        100int
    } else {
        0
    };
    if total > 1000 {
        1000
    } else {
        total
    }
}

/// Sum of the bytes.
pub open spec fn byte_sum(data: Seq<u8>) -> int
    decreases data.len(),
{
    if data.len() == 0 {
        0
    } else {
        byte_sum(data.drop_last()) + data.last()
    }
}

/// Sum of the differences between neighbouring bytes.
pub open spec fn neighbour_diffs(data: Seq<u8>) -> int
    decreases data.len(),
{
    if data.len() < 2 {
        0
    } else {
        neighbour_diffs(data.drop_last()) + dist(data[data.len() - 2] as int, data.last() as int)
    }
}

/// The noise of an image in thousandths: the average neighbour difference
/// over 255, for images of at least 100 bytes.
pub open spec fn noise(data: Seq<u8>) -> int {
    if data.len() < 100 {
        0
    } else {
        let v = neighbour_diffs(data) * 1000 / (255 * (data.len() - 1));
        if v > 1000 {
            1000
        } else {
            v
        }
    }
}

/// The confidence, in thousandths, of the fallback reading.
pub open spec fn fallback_confidence(data: Seq<u8>) -> int {
    let s = data.len() * 1000 / 100000;
    let size = if s < 100 {
        100
    } else if s > 1000 {
        1000
    } else {
        s
    };
    let total = 700 + size * 200 / 1000 + noise(data) * 100 / 1000;
    if total > 1000 {
        1000
    } else {
        total
    }
}

/// The fallback reading of an image of at least 1000 bytes, by its byte
/// sum.
pub open spec fn fallback_code(sum: nat) -> (Seq<char>, BarcodeType) {
    if sum % 4 == 0 {
        (padded(4901234567890 + sum % 1000, 13), BarcodeType::Ean13)
    } else if sum % 4 == 1 {
        (padded(12345678 + sum % 100, 8), BarcodeType::Ean8)
    } else if sum % 4 == 2 {
        ("CODE"@ + padded(sum % 1000000, 6), BarcodeType::Code128)
    } else {
        ("PRODUCT_"@ + nat_decimal(sum % 10000), BarcodeType::QrCode)
    }
}

/// Confidence in thousandths written with two decimals, rounded down.
pub open spec fn confidence_text(c: int) -> Seq<char> {
    nat_decimal((c / 1000) as nat) + seq!['.', digit_char((c % 1000) / 100), digit_char((c % 100) / 10)]
}

/// What decoding an image gives.
pub open spec fn decode_outcome(data: Seq<u8>, threshold: int) -> Result<(Seq<char>, BarcodeType, int), Seq<char>> {
    if data.len() == 0 {
        Err("Empty image data"@)
    } else {
        let p = pattern_count(data);
        let first: Option<(Seq<char>, BarcodeType, int)> = if p > 5 && pattern_confidence(p, data.len() as int) > 0 {
            let t = kind_for_size(data.len() as int);
            Some((code_from_hash(image_hash(data), t), t, pattern_confidence(p, data.len() as int)))
        } else {
            None
        };
        let best_conf = match first {
            Some(f) => f.2,
            None => 0,
        };
        let best = if (first is None || best_conf < threshold) && data.len() >= 1000 && fallback_confidence(data)
            > best_conf {
            let (code, t) = fallback_code(byte_sum(data) as nat);
            Some((code, t, fallback_confidence(data)))
        } else {
            first
        };
        match best {
            Some(b) => if b.2 >= threshold {
                Ok(b)
            } else {
                Err("Low confidence barcode detected: "@ + confidence_text(b.2) + " < "@ + confidence_text(threshold))
            },
            None => Err("No barcode detected in image"@),
        }
    }
}


/// Ten to the power `k`.
pub open spec fn ten_pow(k: nat) -> nat
    decreases k,
{
    if k == 0 {
        1
    } else {
        10 * ten_pow((k - 1) as nat)
    }
}

/// Decimal spellings of numbers below `10^k` have at most `k` digits.
proof fn lemma_decimal_len(n: nat, k: nat)
    requires
        k >= 1,
        n < ten_pow(k),
    ensures
        nat_decimal(n).len() <= k,
    decreases k,
{
    if n >= 10 {
        assert(k >= 2) by {
            if k == 1 {
                reveal_with_fuel(ten_pow, 2);
            }
        }
        assert(n / 10 < ten_pow((k - 1) as nat));
        lemma_decimal_len(n / 10, (k - 1) as nat);
    }
}

/// `n` in decimal, with leading zeros to `width` digits.
fn padded_digits(n: u64, width: usize) -> (r: Vec<char>)
    requires
        width <= 20,
    ensures
        r@ == padded(n as nat, width as nat),
        all_digit_chars(r@),
        r@.len() >= width,
        r@.len() <= 20,
{
    let d = crate::utils::numbers::u64_decimal(n);
    proof {
        crate::utils::numbers::lemma_nat_decimal(n as nat);
        assert(ten_pow(20) == 100000000000000000000) by {
            reveal_with_fuel(ten_pow, 21);
        }
        lemma_decimal_len(n as nat, 20);
    }
    if d.len() >= width {
        return d;
    }
    let mut out: Vec<char> = Vec::new();
    let zeros = width - d.len();
    let mut i: usize = 0;
    while i < zeros
        invariant
            i <= zeros,
            out@ == Seq::new(i as nat, |k: int| '0'),
        decreases zeros - i,
    {
        out.push('0');
        assert(out@ =~= Seq::new((i + 1) as nat, |k: int| '0'));
        i = i + 1;
    }
    let ghost z = out@;
    let mut j: usize = 0;
    while j < d.len()
        invariant
            j <= d@.len(),
            out@ == z + d@.subrange(0, j as int),
        decreases d.len() - j,
    {
        out.push(d[j]);
        assert(out@ =~= z + d@.subrange(0, j + 1));
        j = j + 1;
    }
    assert(d@.subrange(0, d@.len() as int) =~= d@);
    assert forall|k: int| 0 <= k < out@.len() implies crate::text::is_digit_spec(#[trigger] out@[k]) by {
        if k >= z.len() {
            assert(out@[k] == d@[k - z.len()]);
        }
    }
    out
}

/// Append characters to a string.
fn append_chars(s: &mut String, v: &Vec<char>)
    ensures
        final(s)@ == old(s)@ + v@,
{
    let mut i: usize = 0;
    while i < v.len()
        invariant
            i <= v@.len(),
            s@ == old(s)@ + v@.subrange(0, i as int),
        decreases v.len() - i,
    {
        crate::text::push_char(s, v[i]);
        assert(s@ =~= old(s)@ + v@.subrange(0, i + 1));
        i = i + 1;
    }
    assert(v@.subrange(0, v@.len() as int) =~= v@);
}

/// The hash of an image.
pub fn hash_image(data: &[u8]) -> (h: u64)
    ensures
        h == image_hash(data@),
{
    let n: usize = if data.len() > 1002 {
        1002
    } else {
        data.len()
    };
    let mut h: u64 = 0;
    let mut i: usize = 0;
    while i < n
        invariant
            n <= data@.len(),
            n <= 1002,
            i <= n,
            h == image_hash(data@.subrange(0, i as int)),
        decreases n - i,
    {
        assert(data@.subrange(0, i + 1).drop_last() =~= data@.subrange(0, i as int));
        h = (((h as u128) * 31 + (data[i] as u128)) % 0x1_0000_0000_0000_0000) as u64;
        i = i + 1;
    }
    if data.len() > 1002 {
        assert(image_hash(data@) == image_hash(data@.subrange(0, 1002)));
    } else {
        assert(data@.subrange(0, data@.len() as int) =~= data@);
    }
    h
}

/// The number of bar patterns in an image.
pub fn count_patterns(data: &[u8]) -> (c: usize)
    ensures
        c == pattern_count(data@),
{
    if data.len() < 100 {
        return 0;
    }
    let n = data.len() - 9;
    let mut c: usize = 0;
    let mut i: usize = 0;
    while i < n
        invariant
            n == data@.len() - 9,
            data@.len() >= 100,
            data@.len() <= usize::MAX,
            i <= n,
            c == busy_windows(data@, i as int),
            c <= i,
        decreases n - i,
    {
        let mut sum: u32 = 0;
        let mut k: usize = 0;
        while k < 10
            invariant
                i < n,
                data@.len() >= 100,
                data@.len() <= usize::MAX,
                n == data@.len() - 9,
                k <= 10,
                sum <= 255 * k,
                sum == partial_sum(data@, i as int, k as int),
            decreases 10 - k,
        {
            sum = sum + data[i + k] as u32;
            k = k + 1;
        }
        assert(partial_sum(data@, i as int, 10) == window_sum(data@, i as int)) by {
            reveal_with_fuel(partial_sum, 11);
        }
        let avg = sum / 10;
        let mut spread: u32 = 0;
        let mut k2: usize = 0;
        while k2 < 10
            invariant
                i < n,
                data@.len() >= 100,
                data@.len() <= usize::MAX,
                n == data@.len() - 9,
                k2 <= 10,
                avg == window_sum(data@, i as int) / 10,
                avg <= 255,
                spread <= 255 * k2,
                spread == partial_spread(data@, i as int, k2 as int, avg as int),
            decreases 10 - k2,
        {
            let b = data[i + k2] as u32;
            let d = if b >= avg {
                b - avg
            } else {
                avg - b
            };
            spread = spread + d;
            k2 = k2 + 1;
        }
        assert(partial_spread(data@, i as int, 10, avg as int) == window_spread(data@, i as int)) by {
            reveal_with_fuel(partial_spread, 11);
        }
        if spread > 500 {
            c = c + 1;
        }
        i = i + 1;
    }
    c
}

/// Sum of `k` bytes from position `i`.
pub open spec fn partial_sum(data: Seq<u8>, i: int, k: int) -> int
    decreases k,
{
    if k <= 0 {
        0
    } else {
        partial_sum(data, i, k - 1) + data[i + k - 1]
    }
}

/// Spread of `k` bytes from position `i` around `avg`.
pub open spec fn partial_spread(data: Seq<u8>, i: int, k: int, avg: int) -> int
    decreases k,
{
    if k <= 0 {
        0
    } else {
        partial_spread(data, i, k - 1, avg) + dist(data[i + k - 1] as int, avg)
    }
}


/// Sum of the bytes of an image.
fn sum_bytes(data: &[u8]) -> (s: u128)
    ensures
        s == byte_sum(data@),
{
    let mut s: u128 = 0;
    let mut i: usize = 0;
    while i < data.len()
        invariant
            i <= data@.len(),
            s == byte_sum(data@.subrange(0, i as int)),
            s <= 255 * i,
        decreases data.len() - i,
    {
        assert(data@.subrange(0, i + 1).drop_last() =~= data@.subrange(0, i as int));
        s = s + data[i] as u128;
        i = i + 1;
    }
    assert(data@.subrange(0, data@.len() as int) =~= data@);
    s
}

/// Sum of the differences between neighbouring bytes.
fn sum_diffs(data: &[u8]) -> (s: u128)
    ensures
        s == neighbour_diffs(data@),
        s <= 255 * data@.len(),
{
    let mut s: u128 = 0;
    if data.len() < 2 {
        return 0;
    }
    let mut i: usize = 1;
    while i < data.len()
        invariant
            1 <= i <= data@.len(),
            s == neighbour_diffs(data@.subrange(0, i as int)),
            s <= 255 * i,
        decreases data.len() - i,
    {
        let ghost pre = data@.subrange(0, i + 1);
        assert(pre.drop_last() =~= data@.subrange(0, i as int));
        assert(pre[pre.len() - 2] == data@[i - 1]);
        let a = data[i - 1];
        let b = data[i];
        let d: u128 = if a >= b {
            (a - b) as u128
        } else {
            (b - a) as u128
        };
        s = s + d;
        i = i + 1;
    }
    assert(data@.subrange(0, data@.len() as int) =~= data@);
    s
}

/// The confidence of the fallback reading.
pub fn fallback_confidence_of(data: &[u8]) -> (c: u32)
    ensures
        c == fallback_confidence(data@),
{
    let len = data.len() as u128;
    let sp = len * 1000 / 100000;
    let size: u128 = if sp < 100 {
        100
    } else if sp > 1000 {
        1000
    } else {
        sp
    };
    let nz: u128 = if data.len() < 100 {
        0
    } else {
        let sd = sum_diffs(data);
        assert(sd * 1000 <= 255000 * len) by (nonlinear_arith)
            requires
                sd <= 255 * len,
        ;
        let v = sd * 1000 / (255 * (len - 1));
        if v > 1000 {
            1000
        } else {
            v
        }
    };
    let total = 700 + size * 200 / 1000 + nz * 100 / 1000;
    let c = if total > 1000 {
        1000
    } else {
        total
    };
    c as u32
}

/// The confidence of a reading from bar patterns.
pub fn pattern_confidence_of(patterns: usize, size: usize) -> (c: u32)
    ensures
        c == pattern_confidence(patterns as int, size as int),
{
    let p = (patterns as u128) * 1000 / 20;
    let base: u128 = if p > 1000 {
        1000
    } else {
        p
    };
    let total = base + if size > 50000 {
        100
    } else {
        0
    };
    let c = if total > 1000 {
        1000
    } else {
        total
    };
    c as u32
}

/// The kind an image's size suggests.
pub fn determine_barcode_type(len: usize) -> (t: BarcodeType)
    ensures
        t == kind_for_size(len as int),
{
    if len > 640 * 480 {
        if len > 100000 {
            BarcodeType::Ean13
        } else {
            BarcodeType::Ean8
        }
    } else {
        BarcodeType::QrCode
    }
}

/// A string of characters.
fn text_of(prefix: &str, v: &Vec<char>) -> (s: String)
    ensures
        s@ == prefix@ + v@,
{
    let mut s = owned(prefix);
    append_chars(&mut s, v);
    s
}

/// The code derived from an image hash.
pub fn barcode_from_hash(hash: u64, t: BarcodeType) -> (s: String)
    ensures
        s@ == code_from_hash(hash as nat, t),
{
    proof {
        reveal_strlit("");
    }
    match t {
        BarcodeType::Ean13 => {
            let mut base = padded_digits(hash % 1000000000000, 12);
            let d = crate::utils::numbers::weighted_check(&base, 1, 3);
            base.push(crate::utils::numbers::digit_to_char(d as u32));
            text_of("", &base)
        },
        BarcodeType::Ean8 => {
            let mut base = padded_digits(hash % 10000000, 7);
            let d = crate::utils::numbers::weighted_check(&base, 3, 1);
            base.push(crate::utils::numbers::digit_to_char(d as u32));
            text_of("", &base)
        },
        BarcodeType::Code128 => {
            let base = padded_digits(hash % 1000000, 6);
            text_of("PROD", &base)
        },
        BarcodeType::QrCode => {
            let base = crate::utils::numbers::u64_decimal(hash % 100000);
            text_of("https://product.example.com/id/", &base)
        },
        BarcodeType::Unknown => {
            let base = crate::utils::numbers::u64_decimal(hash % 10000);
            text_of("UNK", &base)
        },
    }
}

/// The fallback reading for a byte sum.
pub fn fallback_barcode(sum: u128) -> (r: (String, BarcodeType))
    ensures
        (r.0@, r.1) == fallback_code(sum as nat),
{
    proof {
        reveal_strlit("");
    }
    let m = sum % 4;
    if m == 0 {
        let v = padded_digits((4901234567890 + sum % 1000) as u64, 13);
        (text_of("", &v), BarcodeType::Ean13)
    } else if m == 1 {
        let v = padded_digits((12345678 + sum % 100) as u64, 8);
        (text_of("", &v), BarcodeType::Ean8)
    } else if m == 2 {
        let v = padded_digits((sum % 1000000) as u64, 6);
        (text_of("CODE", &v), BarcodeType::Code128)
    } else {
        let v = crate::utils::numbers::u64_decimal((sum % 10000) as u64);
        (text_of("PRODUCT_", &v), BarcodeType::QrCode)
    }
}

/// A confidence in thousandths, written with two decimals.
pub fn confidence_string(c: u32) -> (s: String)
    ensures
        s@ == confidence_text(c as int),
{
    proof {
        reveal_strlit("");
    }
    let d = crate::utils::numbers::u64_decimal((c / 1000) as u64);
    let mut s = text_of("", &d);
    crate::text::push_char(&mut s, '.');
    crate::text::push_char(&mut s, crate::utils::numbers::digit_to_char((c % 1000) / 100));
    crate::text::push_char(&mut s, crate::utils::numbers::digit_to_char((c % 100) / 10));
    s
}

/// Barcode kinds with their patterns, and the confidence a reading needs,
/// in thousandths.
pub struct BarcodeDecoder {
    barcode_patterns: Vec<(BarcodeType, BarcodePattern)>,
    confidence_threshold: u32,
}

impl BarcodeDecoder {
    /// The confidence a reading needs.
    pub closed spec fn threshold(&self) -> u32 {
        self.confidence_threshold
    }

    /// The kinds known with their patterns.
    pub closed spec fn patterns(&self) -> Seq<(BarcodeType, Seq<char>)> {
        self.barcode_patterns@.map_values(|e: (BarcodeType, BarcodePattern)| (e.0, e.1.validation_pattern@))
    }

    /// A decoder for EAN-13, EAN-8, Code 128 and QR codes, needing a
    /// confidence of 0.7.
    pub fn new() -> (r: Self)
        ensures
            r.threshold() == 700,
            r.patterns().map_values(|e: (BarcodeType, Seq<char>)| e.0) == known_types(),
            forall|i: int| 0 <= i < r.patterns().len() ==> Some((#[trigger] r.patterns()[i]).1) == pattern_of(r.patterns()[i].0),
    {
        let mut v: Vec<(BarcodeType, BarcodePattern)> = Vec::new();
        v.push((BarcodeType::Ean13, BarcodePattern {
            name: owned("EAN-13"),
            validation_pattern: owned("^\\d{13}$"),
            typical_length: 13,
            check_digit: true,
        }));
        v.push((BarcodeType::Ean8, BarcodePattern {
            name: owned("EAN-8"),
            validation_pattern: owned("^\\d{8}$"),
            typical_length: 8,
            check_digit: true,
        }));
        v.push((BarcodeType::Code128, BarcodePattern {
            name: owned("Code 128"),
            validation_pattern: owned("^[A-Za-z0-9\\s\\-\\.\\$\\/\\+\\%]+$"),
            typical_length: 0,
            check_digit: true,
        }));
        v.push((BarcodeType::QrCode, BarcodePattern {
            name: owned("QR Code"),
            validation_pattern: owned("^.+$"),
            typical_length: 0,
            check_digit: false,
        }));
        let r = BarcodeDecoder { barcode_patterns: v, confidence_threshold: 700 };
        assert(r.patterns().map_values(|e: (BarcodeType, Seq<char>)| e.0) =~= known_types());
        r
    }

    /// The same decoder needing another confidence, clamped to 0..=1000.
    pub fn with_confidence_threshold(self, threshold: u32) -> (r: Self)
        ensures
            r.threshold() == (if threshold > 1000 { 1000 } else { threshold }),
            r.patterns() == self.patterns(),
    {
        let t = if threshold > 1000 {
            1000
        } else {
            threshold
        };
        BarcodeDecoder { confidence_threshold: t, ..self }
    }

    /// Read the barcode in an image.
    pub fn decode(&self, image_data: &[u8]) -> (r: Result<ScanResult, ScannerError>)
        ensures
            match decode_outcome(image_data@, self.threshold() as int) {
                Ok(b) => r matches Ok(s) && s.barcode@ == b.0 && s.barcode_type == b.1 && s.confidence == b.2,
                Err(m) => r matches Err(ScannerError::BarcodeDetection(x)) && x@ == m,
            },
    {
        if image_data.len() == 0 {
            return Err(ScannerError::BarcodeDetection(owned("Empty image data")));
        }
        let threshold = self.confidence_threshold;
        let patterns = count_patterns(image_data);
        let mut best: Option<ScanResult> = None;
        let mut best_conf: u32 = 0;
        if patterns > 5 {
            let conf = pattern_confidence_of(patterns, image_data.len());
            if conf > 0 {
                let t = determine_barcode_type(image_data.len());
                let code = barcode_from_hash(hash_image(image_data), t);
                best = Some(ScanResult { barcode: code, barcode_type: t, confidence: conf });
                best_conf = conf;
            }
        }
        if (best.is_none() || best_conf < threshold) && image_data.len() >= 1000 {
            let fc = fallback_confidence_of(image_data);
            if fc > best_conf {
                let (code, t) = fallback_barcode(sum_bytes(image_data));
                best = Some(ScanResult { barcode: code, barcode_type: t, confidence: fc });
            }
        }
        match best {
            Some(b) => {
                if b.confidence >= threshold {
                    Ok(b)
                } else {
                    let mut m = owned("Low confidence barcode detected: ");
                    m.append(confidence_string(b.confidence).as_str());
                    m.append(" < ");
                    m.append(confidence_string(threshold).as_str());
                    Err(ScannerError::BarcodeDetection(m))
                }
            },
            None => Err(ScannerError::BarcodeDetection(owned("No barcode detected in image"))),
        }
    }

    /// Every barcode in an image: the one `decode` reads, or none.
    pub fn decode_multiple(&self, image_data: &[u8]) -> (r: Result<Vec<ScanResult>, ScannerError>)
        ensures
            match decode_outcome(image_data@, self.threshold() as int) {
                Ok(b) => r matches Ok(v) && v@.len() == 1 && v@[0].barcode@ == b.0 && v@[0].barcode_type == b.1
                    && v@[0].confidence == b.2,
                Err(_) => r matches Ok(v) && v@.len() == 0,
            },
    {
        match self.decode(image_data) {
            Ok(s) => {
                let mut v = Vec::new();
                v.push(s);
                Ok(v)
            },
            Err(_) => Ok(Vec::new()),
        }
    }

    /// Whether a code matches the validation pattern of its kind; false for
    /// an unknown kind.
    pub fn validate_barcode(&self, barcode: &str, barcode_type: BarcodeType) -> (b: bool)
        requires
            forall|i: int| 0 <= i < self.patterns().len() ==> Some((#[trigger] self.patterns()[i]).1) == pattern_of(self.patterns()[i].0),
        ensures
            b == ((exists|i: int| 0 <= i < self.patterns().len() && (#[trigger] self.patterns()[i]).0 == barcode_type)
                && (pattern_of(barcode_type) matches Some(p) && regex_compiles(p) && regex_matches(p, barcode@))),
    {
        let mut i: usize = 0;
        while i < self.barcode_patterns.len()
            invariant
                i <= self.barcode_patterns@.len(),
                forall|k: int| 0 <= k < i ==> (#[trigger] self.barcode_patterns@[k]).0 != barcode_type,
                forall|k: int| 0 <= k < self.patterns().len() ==> Some((#[trigger] self.patterns()[k]).1) == pattern_of(self.patterns()[k].0),
            decreases self.barcode_patterns.len() - i,
        {
            if self.barcode_patterns[i].0 == barcode_type {
                assert(self.patterns()[i as int].0 == barcode_type);
                assert(self.patterns()[i as int].1 == self.barcode_patterns@[i as int].1.validation_pattern@);
                let vp = self.barcode_patterns[i].1.validation_pattern.as_str();
                assert(pattern_of(barcode_type) == Some(vp@));
                let r = regex_is_match(vp, barcode);
                return match r {
                    Some(m) => m,
                    None => false,
                };
            }
            i = i + 1;
        }
        assert forall|k: int| 0 <= k < self.patterns().len() implies (#[trigger] self.patterns()[k]).0 != barcode_type by {
            assert(self.patterns()[k].0 == self.barcode_patterns@[k].0);
        }
        false
    }

    /// The kinds known, in order.
    pub fn supported_types(&self) -> (r: Vec<BarcodeType>)
        ensures
            r@ == self.patterns().map_values(|e: (BarcodeType, Seq<char>)| e.0),
    {
        let mut out: Vec<BarcodeType> = Vec::new();
        let mut i: usize = 0;
        while i < self.barcode_patterns.len()
            invariant
                i <= self.barcode_patterns@.len(),
                out@ == self.patterns().map_values(|e: (BarcodeType, Seq<char>)| e.0).subrange(0, i as int),
            decreases self.barcode_patterns.len() - i,
        {
            out.push(self.barcode_patterns[i].0);
            assert(out@ =~= self.patterns().map_values(|e: (BarcodeType, Seq<char>)| e.0).subrange(0, i + 1));
            i = i + 1;
        }
        assert(self.patterns().map_values(|e: (BarcodeType, Seq<char>)| e.0).subrange(0, self.barcode_patterns@.len() as int)
            =~= self.patterns().map_values(|e: (BarcodeType, Seq<char>)| e.0));
        out
    }
}

impl Default for BarcodeDecoder {
    fn default() -> (r: Self)
        ensures
            r.threshold() == 700,
    {
        Self::new()
    }
}

} // verus!
