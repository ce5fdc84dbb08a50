//! Choosing the target language from the script of the text.
use vstd::prelude::*;
use crate::config::Config;
use crate::text::chars_of;

verus! {

/// A character of the Japanese writing system: Hiragana (U+3040–U+309F),
/// Katakana (U+30A0–U+30FF) or a CJK unified ideograph (U+4E00–U+9FFF).
pub open spec fn is_japanese_char(c: char) -> bool {
    ||| ('\u{3040}' <= c && c <= '\u{309f}')
    ||| ('\u{30a0}' <= c && c <= '\u{30ff}')
    ||| ('\u{4e00}' <= c && c <= '\u{9fff}')
}

/// The text holds at least one Japanese character.
pub open spec fn has_japanese(s: Seq<char>) -> bool {
    exists|k: int| 0 <= k < s.len() && is_japanese_char(#[trigger] s[k])
}

/// The language a text is translated into: `target_lang_ja` for text with
/// Japanese in it, `target_lang_en` for any other.
pub open spec fn target_lang_for(s: Seq<char>, config: Config) -> Seq<char> {
    if has_japanese(s) {
        config.target_lang_ja@
    } else {
        config.target_lang_en@
    }
}

/// Law: a text holds Japanese exactly when one of its parts does, so the
/// target language of joined texts follows from the parts; a text with no
/// character of the three Japanese blocks is translated into `target_lang_en`.
pub proof fn law_japanese_detection_is_by_character(a: Seq<char>, b: Seq<char>, config: Config)
    ensures
        has_japanese(a + b) == (has_japanese(a) || has_japanese(b)),
        (forall|k: int| 0 <= k < a.len() ==> !is_japanese_char(#[trigger] a[k]))
            ==> target_lang_for(a, config) == config.target_lang_en@,
        (exists|k: int| 0 <= k < a.len() && is_japanese_char(#[trigger] a[k]))
            ==> target_lang_for(a, config) == config.target_lang_ja@,
{
    let s = a + b;
    if has_japanese(s) {
        let k = choose|k: int| 0 <= k < s.len() && is_japanese_char(#[trigger] s[k]);
        if k < a.len() {
            assert(s[k] == a[k]);
        } else {
            assert(s[k] == b[k - a.len()]);
        }
    }
    if has_japanese(a) {
        let k = choose|k: int| 0 <= k < a.len() && is_japanese_char(#[trigger] a[k]);
        assert(s[k] == a[k]);
    }
    if has_japanese(b) {
        let k = choose|k: int| 0 <= k < b.len() && is_japanese_char(#[trigger] b[k]);
        assert(s[k + a.len()] == b[k]);
    }
}

/// Whether `c` is a Japanese character.
pub fn char_is_japanese(c: char) -> (r: bool)
    ensures
        r == is_japanese_char(c),
{
    ('\u{3040}' <= c && c <= '\u{309f}') || ('\u{30a0}' <= c && c <= '\u{30ff}') || ('\u{4e00}'
        <= c && c <= '\u{9fff}')
}

/// Whether `text` holds a Japanese character.
pub fn contains_japanese(text: &str) -> (r: bool)
    ensures
        r == has_japanese(text@),
{
    let cs = chars_of(text);
    let n = cs.len();
    let mut i: usize = 0;
    while i < n
        invariant
            n == cs@.len(),
            cs@ == text@,
            i <= n,
            forall|k: int| 0 <= k < i ==> !is_japanese_char(#[trigger] cs@[k]),
        decreases n - i,
    {
        if char_is_japanese(cs[i]) {
            return true;
        }
        i = i + 1;
    }
    false
}

/// Detects the language of `text` and returns the target language set for
/// it in `config`.
pub fn detect_target_lang(text: &str, config: &Config) -> (r: String)
    ensures
        r@ == target_lang_for(text@, *config),
{
    if contains_japanese(text) {
        config.target_lang_ja.clone()
    } else {
        config.target_lang_en.clone()
    }
}

} // verus!
