//! Text extraction from prepared images, with a confidence per word.
//! Confidences are in thousandths.
use vstd::prelude::*;
use crate::ocr::image_processor::ProcessedImage;
use crate::ocr::OcrError;
use crate::search::engine::{word_strings, words};
use crate::table::{distinct_strings, first_appearances, views_of};
use crate::text::{
    byte_len, chars_of, contains_seq, is_digit, is_digit_spec, is_whitespace, lines_of, owned, str_contains,
    str_eq, text_lines, unicode_whitespace, utf8_len,
};

verus! {

broadcast use vstd::string::group_string_axioms;

/// The languages that can be read.
pub open spec fn supported_languages() -> Seq<Seq<char>> {
    seq!["eng"@, "jpn"@, "chi_sim"@, "chi_tra"@, "kor"@]
}

/// The text read from a receipt or bill image.
pub open spec fn receipt_text() -> Seq<char> {
    "FamilyMart\n東京駅店\n\nコカコーラ 330ml    ¥150\nポテトチップス      ¥120\nおにぎり ツナマヨ   ¥110\n\n小計            ¥380\n消費税           ¥38\n合計            ¥418\n\n現金            ¥500\nお釣り           ¥82\n\n2024/09/08 14:30\nありがとうございました"@
}

/// The text read from any other image file.
pub open spec fn sample_text() -> Seq<char> {
    "Sample OCR text extracted from image\nLine 2 of extracted content\nPrice: ¥100"@
}

/// The text read from raw image bytes.
pub open spec fn data_text() -> Seq<char> {
    "Sample receipt text\nProduct: Cola - ¥3.50\nProduct: Chips - ¥2.00\nTotal: ¥5.50"@
}

/// The text read from the image at a path.
pub open spec fn text_for_path(path: Seq<char>) -> Seq<char> {
    if contains_seq(path, "receipt"@) || contains_seq(path, "bill"@) {
        receipt_text()
    } else {
        sample_text()
    }
}

/// Some character of `w` is an ASCII digit.
pub open spec fn has_ascii_digit(w: Seq<char>) -> bool {
    exists|i: int| 0 <= i < w.len() && is_digit_spec(#[trigger] w[i])
}

/// The confidence of a word: 0.95 with a digit, 0.85 when longer than six
/// bytes, else 0.9.
pub open spec fn word_confidence(w: Seq<char>) -> u32 {
    if has_ascii_digit(w) {
        950
    } else if utf8_len(w) > 6 {
        850
    } else {
        900
    }
}

/// Each distinct word of a text once, in order of first appearance, with
/// its confidence.
pub open spec fn confidence_table(text: Seq<char>) -> Seq<(Seq<char>, u32)> {
    first_appearances(words(text)).map_values(|w: Seq<char>| (w, word_confidence(w)))
}

/// Word confidences as plain values.
pub open spec fn table_view(t: Seq<(String, u32)>) -> Seq<(Seq<char>, u32)> {
    t.map_values(|e: (String, u32)| (e.0@, e.1))
}

/// Sum of the confidences of a table.
pub open spec fn confidence_sum(t: Seq<(Seq<char>, u32)>) -> int
    decreases t.len(),
{
    if t.len() == 0 {
        0
    } else {
        confidence_sum(t.drop_last()) + t.last().1
    }
}

/// The words of a table below a threshold, in order.
pub open spec fn below(t: Seq<(Seq<char>, u32)>, threshold: int) -> Seq<Seq<char>>
    decreases t.len(),
{
    if t.len() == 0 {
        Seq::empty()
    } else if t.last().1 < threshold {
        below(t.drop_last(), threshold).push(t.last().0)
    } else {
        below(t.drop_last(), threshold)
    }
}

/// How many characters of `s` are not white space.
pub open spec fn non_ws_count(s: Seq<char>) -> int
    decreases s.len(),
{
    if s.len() == 0 {
        0
    } else {
        non_ws_count(s.drop_last()) + if unicode_whitespace(s.last()) {
            0int
        } else {
            1
        }
    }
}

/// Reading settings: language, confidence needed and whether the layout is
/// kept.
#[derive(Debug, Clone)]
pub struct TextExtractor {
    pub language: String,
    pub confidence_threshold: u32,
    pub preserve_layout: bool,
}

/// What was read from an image.
#[derive(Debug, Clone)]
pub struct TextExtractionResult {
    pub text: String,
    pub confidence: u32,
    pub language_detected: String,
    pub word_confidences: Vec<(String, u32)>,
    pub line_count: usize,
    pub processing_time_ms: u64,
    pub layout_preserved: bool,
}

/// Counts over a read text; the average word length is in thousandths of a
/// character.
#[derive(Debug, Clone)]
pub struct TextStatistics {
    pub character_count: usize,
    pub word_count: usize,
    pub line_count: usize,
    pub non_whitespace_count: usize,
    pub average_word_length: u128,
}

impl Default for TextExtractor {
    fn default() -> (r: Self)
        ensures
            r.language@ == "eng"@,
            r.confidence_threshold == 600,
            r.preserve_layout,
    {
        TextExtractor { language: owned("eng"), confidence_threshold: 600, preserve_layout: true }
    }
}

/// The confidence table of a text.
fn word_confidences_of(text: &str) -> (r: Vec<(String, u32)>)
    ensures
        table_view(r@) == confidence_table(text@),
{
    let all = word_strings(text);
    let ws = distinct_strings(&all);
    let ghost fa = first_appearances(words(text@));
    let mut out: Vec<(String, u32)> = Vec::new();
    let mut i: usize = 0;
    while i < ws.len()
        invariant
            views_of(ws@) == fa,
            fa == first_appearances(words(text@)),
            i <= ws@.len(),
            table_view(out@) == fa.subrange(0, i as int).map_values(|w: Seq<char>| (w, word_confidence(w))),
        decreases ws.len() - i,
    {
        let c = confidence_of_word(ws[i].as_str());
        let ghost before = out@;
        out.push((ws[i].clone(), c));
        assert(fa[i as int] == ws@[i as int]@);
        assert(table_view(out@) =~= table_view(before).push((fa[i as int], word_confidence(fa[i as int]))));
        assert(fa.subrange(0, i + 1).map_values(|w: Seq<char>| (w, word_confidence(w))) =~= fa.subrange(
            0,
            i as int,
        ).map_values(|w: Seq<char>| (w, word_confidence(w))).push((fa[i as int], word_confidence(fa[i as int]))));
        i = i + 1;
    }
    assert(fa.subrange(0, fa.len() as int) =~= fa);
    out
}

/// The confidence of one word.
fn confidence_of_word(w: &str) -> (c: u32)
    ensures
        c == word_confidence(w@),
{
    let cs = chars_of(w);
    let mut i: usize = 0;
    while i < cs.len()
        invariant
            cs@ == w@,
            i <= cs@.len(),
            forall|k: int| 0 <= k < i ==> !is_digit_spec(#[trigger] w@[k]),
        decreases cs.len() - i,
    {
        if is_digit(cs[i]) {
            return 950;
        }
        i = i + 1;
    }
    if byte_len(w) > 6 {
        850
    } else {
        900
    }
}

impl TextExtractor {
    /// English, confidence 0.6, layout kept.
    pub fn new() -> (r: Self)
        ensures
            r.language@ == "eng"@,
            r.confidence_threshold == 600,
            r.preserve_layout,
    {
        Self::default()
    }

    /// Settings from their parts.
    pub fn with_config(language: String, confidence_threshold: u32, preserve_layout: bool) -> (r: Self)
        ensures
            r.language == language,
            r.confidence_threshold == confidence_threshold,
            r.preserve_layout == preserve_layout,
    {
        TextExtractor { language, confidence_threshold, preserve_layout }
    }

    /// Read a prepared image: the text for its path, nine tenths of its
    /// confidence, the word table and line count, in 150 ms.
    pub fn extract_text(&self, processed_image: &ProcessedImage) -> (r: Result<TextExtractionResult, OcrError>)
        ensures
            r matches Ok(x) && x.text@ == text_for_path(processed_image.original_path@) && x.confidence
                == processed_image.confidence * 9 / 10 && x.language_detected@ == self.language@ && table_view(
                x.word_confidences@,
            ) == confidence_table(x.text@) && x.line_count == text_lines(x.text@).len() && x.processing_time_ms
                == 150 && x.layout_preserved == self.preserve_layout,
    {
        let text = if str_contains(processed_image.original_path.as_str(), "receipt") || str_contains(
            processed_image.original_path.as_str(),
            "bill",
        ) {
            owned(
                "FamilyMart\n東京駅店\n\nコカコーラ 330ml    ¥150\nポテトチップス      ¥120\nおにぎり ツナマヨ   ¥110\n\n小計            ¥380\n消費税           ¥38\n合計            ¥418\n\n現金            ¥500\nお釣り           ¥82\n\n2024/09/08 14:30\nありがとうございました",
            )
        } else {
            owned("Sample OCR text extracted from image\nLine 2 of extracted content\nPrice: ¥100")
        };
        let confidence = ((processed_image.confidence as u64) * 9 / 10) as u32;
        let table = word_confidences_of(text.as_str());
        let lines = lines_of(text.as_str());
        Ok(TextExtractionResult {
            text,
            confidence,
            language_detected: self.language.clone(),
            word_confidences: table,
            line_count: lines.len(),
            processing_time_ms: 150,
            layout_preserved: self.preserve_layout,
        })
    }

    /// Read raw image bytes: a fixed text with confidence 0.82, in 200 ms.
    pub fn extract_text_from_data(&self, image_data: &[u8], format: &str) -> (r: Result<TextExtractionResult, OcrError>)
        ensures
            r matches Ok(x) && x.text@ == data_text() && x.confidence == 820 && x.language_detected@ == self.language@
                && table_view(x.word_confidences@) == confidence_table(x.text@) && x.line_count == text_lines(
                x.text@,
            ).len() && x.processing_time_ms == 200 && x.layout_preserved == self.preserve_layout,
    {
        let text = owned("Sample receipt text\nProduct: Cola - ¥3.50\nProduct: Chips - ¥2.00\nTotal: ¥5.50");
        let table = word_confidences_of(text.as_str());
        let lines = lines_of(text.as_str());
        Ok(TextExtractionResult {
            text,
            confidence: 820,
            language_detected: self.language.clone(),
            word_confidences: table,
            line_count: lines.len(),
            processing_time_ms: 200,
            layout_preserved: self.preserve_layout,
        })
    }

    /// Change the language.
    pub fn set_language(&mut self, language: String)
        ensures
            final(self).language == language,
            final(self).confidence_threshold == old(self).confidence_threshold,
            final(self).preserve_layout == old(self).preserve_layout,
    {
        self.language = language;
    }

    /// Change the confidence needed, clamped to 0..=1000.
    pub fn set_confidence_threshold(&mut self, threshold: u32)
        ensures
            final(self).confidence_threshold == (if threshold > 1000 { 1000 } else { threshold }),
            final(self).language == old(self).language,
            final(self).preserve_layout == old(self).preserve_layout,
    {
        self.confidence_threshold = if threshold > 1000 {
            1000
        } else {
            threshold
        };
    }

    /// Whether a language can be read.
    pub fn is_language_supported(&self, language: &str) -> (b: bool)
        ensures
            b == supported_languages().contains(language@),
    {
        let b = str_eq(language, "eng") || str_eq(language, "jpn") || str_eq(language, "chi_sim") || str_eq(
            language,
            "chi_tra",
        ) || str_eq(language, "kor");
        proof {
            if language@ == "eng"@ {
                assert(supported_languages()[0] == language@);
            }
            if language@ == "jpn"@ {
                assert(supported_languages()[1] == language@);
            }
            if language@ == "chi_sim"@ {
                assert(supported_languages()[2] == language@);
            }
            if language@ == "chi_tra"@ {
                assert(supported_languages()[3] == language@);
            }
            if language@ == "kor"@ {
                assert(supported_languages()[4] == language@);
            }
        }
        b
    }

    /// The languages that can be read.
    pub fn get_supported_languages(&self) -> (r: Vec<String>)
        ensures
            views_of(r@) == supported_languages(),
    {
        let mut v: Vec<String> = Vec::new();
        v.push(owned("eng"));
        v.push(owned("jpn"));
        v.push(owned("chi_sim"));
        v.push(owned("chi_tra"));
        v.push(owned("kor"));
        assert(views_of(v@) =~= supported_languages());
        v
    }
}

impl TextExtractionResult {
    /// Whether the reading is at least as confident as a threshold.
    pub fn is_confident(&self, threshold: u32) -> (b: bool)
        ensures
            b == (self.confidence >= threshold),
    {
        self.confidence >= threshold
    }

    /// The average word confidence (rounded down), or 0 without words.
    pub fn average_word_confidence(&self) -> (r: u32)
        ensures
            table_view(self.word_confidences@).len() == 0 ==> r == 0,
            table_view(self.word_confidences@).len() > 0 ==> r == confidence_sum(table_view(self.word_confidences@))
                / table_view(self.word_confidences@).len() as int,
    {
        let ghost t = table_view(self.word_confidences@);
        let n = self.word_confidences.len();
        if n == 0 {
            return 0;
        }
        let mut sum: u128 = 0;
        let mut i: usize = 0;
        while i < n
            invariant
                t == table_view(self.word_confidences@),
                n == t.len(),
                i <= n,
                sum == confidence_sum(t.subrange(0, i as int)),
                sum <= 0xffff_ffff * i,
            decreases n - i,
        {
            assert(t.subrange(0, i + 1).drop_last() =~= t.subrange(0, i as int));
            sum = sum + self.word_confidences[i].1 as u128;
            i = i + 1;
        }
        assert(t.subrange(0, n as int) =~= t);
        assert(sum / (n as u128) <= 0xffff_ffff) by (nonlinear_arith)
            requires
                sum <= 0xffff_ffff * n,
                n > 0,
        ;
        (sum / (n as u128)) as u32
    }

    /// The words below a confidence threshold, in table order.
    pub fn get_low_confidence_words(&self, threshold: u32) -> (r: Vec<String>)
        ensures
            views_of(r@) == below(table_view(self.word_confidences@), threshold as int),
    {
        let ghost t = table_view(self.word_confidences@);
        let mut out: Vec<String> = Vec::new();
        let mut i: usize = 0;
        while i < self.word_confidences.len()
            invariant
                t == table_view(self.word_confidences@),
                i <= t.len(),
                views_of(out@) == below(t.subrange(0, i as int), threshold as int),
            decreases self.word_confidences.len() - i,
        {
            assert(t.subrange(0, i + 1).drop_last() =~= t.subrange(0, i as int));
            if self.word_confidences[i].1 < threshold {
                let ghost before = out@;
                out.push(self.word_confidences[i].0.clone());
                assert(views_of(out@) =~= views_of(before).push(t[i as int].0));
            }
            i = i + 1;
        }
        assert(t.subrange(0, t.len() as int) =~= t);
        out
    }

    /// Character, word, line and non-blank counts, and the average word
    /// length in thousandths (0 without words).
    pub fn get_statistics(&self) -> (r: TextStatistics)
        ensures
            r.character_count == utf8_len(self.text@),
            r.word_count == words(self.text@).len(),
            r.line_count == self.line_count,
            r.non_whitespace_count == non_ws_count(self.text@),
            r.average_word_length == (if r.word_count > 0 {
                r.non_whitespace_count * 1000 / r.word_count as int
            } else {
                0
            }),
    {
        let ws = word_strings(self.text.as_str());
        let cs = chars_of(self.text.as_str());
        let mut nw: usize = 0;
        let mut i: usize = 0;
        while i < cs.len()
            invariant
                cs@ == self.text@,
                i <= cs@.len(),
                nw == non_ws_count(cs@.subrange(0, i as int)),
                nw <= i,
            decreases cs.len() - i,
        {
            assert(cs@.subrange(0, i + 1).drop_last() =~= cs@.subrange(0, i as int));
            if !is_whitespace(cs[i]) {
                nw = nw + 1;
            }
            i = i + 1;
        }
        assert(cs@.subrange(0, cs@.len() as int) =~= cs@);
        let wc = ws.len();
        assert(wc == words(self.text@).len()) by {
            assert(views_of(ws@).len() == ws@.len());
        }
        let avg: u128 = if wc > 0 {
            (nw as u128) * 1000 / (wc as u128)
        } else {
            0
        };
        TextStatistics {
            character_count: byte_len(self.text.as_str()),
            word_count: wc,
            line_count: self.line_count,
            non_whitespace_count: nw,
            average_word_length: avg,
        }
    }
}

} // verus!
