use pawtal::api::feed::{escape_xml, trim_trailing_slashes};
use pawtal::auth::middleware::cookie_value;
use pawtal::services::articles::estimate_reading_time;
use pawtal::services::media::sanitize_filename;
use pawtal::text::{
    char_ascii_lower, char_is_ascii_alnum, char_is_letter_or_number, char_is_whitespace, chars_of,
    str_eq, trim,
};

fn all_chars() -> Vec<char> {
    (0u32..=0x10FFFF).filter_map(char::from_u32).collect()
}

const SAMPLES: [&str; 14] = [
    "",
    " ",
    "plain text",
    "<p>Hello <b>World</b></p>",
    "a<b",
    "a>b<c>d",
    "Tom & \"Jerry\" <cat@mouse>",
    "  spaced\tout\n lines \u{a0} here ",
    "../../etc/passwd",
    "C:\\Windows\\System 32\\Foö.TXT",
    "Ünïcode—Dash.PNG",
    "pawtal_session=abc; other = x ;; y=",
    "///",
    "mixed /\\ seps\\and/more.tar.gz",
];

#[test]
fn white_space_agrees_with_the_unicode_property() {
    for c in all_chars() {
        assert_eq!(char_is_whitespace(c), c.is_whitespace(), "U+{:04X}", c as u32);
    }
}

#[test]
fn ascii_classes_agree_with_std() {
    for c in all_chars() {
        assert_eq!(char_is_ascii_alnum(c), c.is_ascii_alphanumeric());
        assert_eq!(char_ascii_lower(c), c.to_ascii_lowercase());
    }
}

#[test]
fn chars_of_lists_the_characters() {
    for s in SAMPLES {
        assert_eq!(chars_of(s), s.chars().collect::<Vec<char>>());
    }
}

#[test]
fn trim_agrees_with_std() {
    for s in SAMPLES {
        assert_eq!(trim(s), s.trim());
    }
}

#[test]
fn trailing_slashes_agree_with_std() {
    for s in SAMPLES {
        assert_eq!(trim_trailing_slashes(s), s.trim_end_matches('/'));
    }
    assert_eq!(trim_trailing_slashes("https://example.org//"), "https://example.org");
}

#[test]
fn escape_xml_agrees_with_replacing_in_turn() {
    for s in SAMPLES {
        let expected = s
            .replace('&', "&amp;")
            .replace('<', "&lt;")
            .replace('>', "&gt;")
            .replace('"', "&quot;");
        assert_eq!(escape_xml(s), expected);
    }
}

#[test]
fn sanitize_filename_agrees_with_mapping_the_last_component() {
    for s in SAMPLES {
        let base = s.rsplit(['/', '\\']).next().unwrap_or(s);
        let expected: String = base
            .chars()
            .map(|c| {
                if c.is_alphanumeric() || c == '.' || c == '-' || c == '_' {
                    c.to_ascii_lowercase()
                } else {
                    '_'
                }
            })
            .collect();
        assert_eq!(sanitize_filename(s), expected);
    }
}

fn reading_time_by_counting(html: &str) -> i32 {
    let mut in_tag = false;
    let mut text = String::new();
    for c in html.chars() {
        match c {
            '<' => in_tag = true,
            '>' => {
                in_tag = false;
                text.push(' ');
            }
            _ if !in_tag => text.push(c),
            _ => {}
        }
    }
    let words = text.split_whitespace().count();
    ((words as f64) / 200.0).ceil().max(1.0) as i32
}

#[test]
fn reading_time_agrees_with_counting_split_words() {
    for s in SAMPLES {
        assert_eq!(estimate_reading_time(s), reading_time_by_counting(s));
    }
    for n in [0usize, 1, 199, 200, 201, 399, 400, 401, 1000, 12_345] {
        let text = vec!["<i>w</i> x\u{2003}"; n].join("");
        assert_eq!(estimate_reading_time(&text), reading_time_by_counting(&text));
    }
}

fn cookie_by_splitting(header: &str, name: &str) -> Option<String> {
    for pair in header.split(';') {
        let pair = pair.trim();
        if let Some((n, value)) = pair.split_once('=') {
            if n.trim() == name {
                return Some(value.trim().to_string());
            }
        }
    }
    None
}

#[test]
fn cookie_value_agrees_with_splitting_the_header() {
    let headers = [
        "",
        "a=1",
        "a=1; b=2",
        " a = 1 ;b=2",
        "a;b=2",
        "a==1",
        "=1; a=2",
        "a=1;a=2",
        ";; a = x y ;",
        "b=1; ab=2; a=3",
        "a\u{a0}=\u{2003}v\u{3000}",
    ];
    for header in headers {
        for name in ["a", "b", "ab", "", "c"] {
            assert_eq!(cookie_value(header, name), cookie_by_splitting(header, name));
        }
    }
}

#[test]
fn letters_and_numbers_agree_with_std_on_every_character() {
    for c in all_chars() {
        assert_eq!(char_is_letter_or_number(c), c.is_alphanumeric(), "U+{:04X}", c as u32);
    }
}

#[test]
fn str_eq_agrees_with_comparing_the_strings() {
    for a in SAMPLES {
        for b in SAMPLES {
            assert_eq!(str_eq(a, b), a == b);
        }
        assert!(str_eq(a, &a.to_owned()));
    }
    assert!(!str_eq("abc", "abd"));
    assert!(!str_eq("abc", "ab"));
    assert!(!str_eq("e\u{301}", "\u{e9}"));
}
