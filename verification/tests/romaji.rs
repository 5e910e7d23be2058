use jmdict_indexer::romaji::{is_romanizable, transliterate};

#[test]
fn transliterate_hiragana_reading() {
    assert_eq!(transliterate("にほん"), "nihon");
}

#[test]
fn transliterate_keeps_reading_with_stray_sound_mark() {
    assert!(!is_romanizable("\u{FF9E}"));
    assert_eq!(transliterate("\u{FF9E}"), "\u{FF9E}");
}

#[test]
fn transliterate_halfwidth_voiced_kana() {
    assert!(is_romanizable("ｸﾞｯﾄﾞ"));
    assert_eq!(transliterate("ｸﾞｯﾄﾞ"), "guddo");
}

#[test]
fn transliterate_examples() {
    assert_eq!(transliterate("ひらがな　カタカナ"), "hiragana katakana");
    assert_eq!(transliterate("スーパー"), "suupaa");
    assert_eq!(transliterate("きんにくまん"), "kinnikuman");
    assert_eq!(transliterate("おんよみ"), "on'yomi");
    assert_eq!(transliterate(""), "");
    assert_eq!(transliterate("abc 日本"), "abc 日本");
}

#[test]
fn sound_marks_attach_only_to_their_bases() {
    assert!(is_romanizable("ｳﾞ"));
    assert!(is_romanizable("ｶﾞ"));
    assert!(is_romanizable("ﾄﾞ"));
    assert!(is_romanizable("ﾊﾞ"));
    assert!(is_romanizable("ﾎﾟ"));
    assert!(!is_romanizable("ｱﾞ"));
    assert!(!is_romanizable("ﾅﾞ"));
    assert!(!is_romanizable("ｶﾟ"));
    assert!(!is_romanizable("ﾞｶ"));
    assert!(!is_romanizable("ｶﾞﾞ"));
    assert!(!is_romanizable("ﾊﾞﾟ"));
    assert!(!is_romanizable("かﾞ"));
    assert!(is_romanizable("ﾊﾟﾊﾞ"));
}

#[test]
fn transliterate_handles_every_kana_with_a_mark_or_a_long_vowel() {
    let mut tried = 0;
    let ranges = [0x3000u32..0x3100, 0xFF00..0xFFF0];
    for range in ranges {
        for code in range {
            let Some(c) = char::from_u32(code) else { continue };
            for other in ['\u{FF9E}', '\u{FF9F}', 'ー', 'ｰ', 'っ', 'ｯ', 'ん'] {
                for text in [
                    format!("{c}"),
                    format!("{c}{other}"),
                    format!("{other}{c}"),
                    format!("{c}{other}{c}{other}"),
                    format!("あ{c}{other}"),
                ] {
                    let out = transliterate(&text);
                    if is_romanizable(&text) {
                        tried += 1;
                    } else {
                        assert_eq!(out, text);
                    }
                }
            }
        }
    }
    assert!(tried > 1000);
}
