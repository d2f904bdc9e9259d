use class_scheduler::text::{
    chars_of, float_text_ok, float_text_to_i32, i64_text, normalize_header, parse_i32, split_name_list, trim_chars,
    trim_string,
};

fn cs(s: &str) -> Vec<char> {
    s.chars().collect()
}

#[test]
fn chars_of_a_string() {
    let v = chars_of("Grade 10 - Section A");
    assert_eq!(v.len(), 20);
    assert_eq!(v.iter().collect::<String>(), "Grade 10 - Section A");
    assert_eq!(chars_of("çé"), vec!['ç', 'é']);
}

#[test]
fn trims_unicode_white_space() {
    assert_eq!(trim_string("  Alice \t\n"), "Alice");
    assert_eq!(trim_string("\u{3000}Bob\u{a0}"), "Bob");
    assert_eq!(trim_string("   "), "");
    assert_eq!(trim_string("a b"), "a b");
}

#[test]
fn trims_like_std() {
    let samples = ["\u{180e}x\u{200b}", "\u{85}x\u{2029}", "\t\r\n x \u{b}\u{c}", "\u{2000}\u{200a}\u{202f}y\u{205f}", "z"];
    for t in samples {
        assert_eq!(trim_string(t), t.trim(), "text {:?}", t);
        assert_eq!(trim_chars(&cs(t)), cs(t.trim()));
    }
}

#[test]
fn headers_are_lowercased() {
    assert_eq!(normalize_header("MAX Daily"), "max_daily");
    assert_eq!(normalize_header("ÉCOLE"), "école");
}

#[test]
fn normalizes_headers() {
    assert_eq!(normalize_header(" Max Daily-Periods "), "max_daily_periods");
    assert_eq!(normalize_header("Grade Level"), "grade_level");
    assert_eq!(normalize_header("name"), "name");
}

#[test]
fn splits_subject_lists() {
    assert_eq!(split_name_list("Math, Physics ,, ,Chemistry"), vec!["Math", "Physics", "Chemistry"]);
    assert_eq!(split_name_list(""), Vec::<String>::new());
    assert_eq!(split_name_list(" , "), Vec::<String>::new());
    assert_eq!(split_name_list("Arabic"), vec!["Arabic"]);
}

#[test]
fn parses_i32_like_std() {
    for s in ["0", "42", "-42", "+7", "007", "2147483647", "-2147483648", "", "-", "+", " 5", "5 ", "2147483648",
        "-2147483649", "12a", "99999999999999999999", "+-1", "١٢"] {
        assert_eq!(parse_i32(&cs(s)), s.parse::<i32>().ok(), "text {:?}", s);
    }
}

#[test]
fn writes_i64_in_decimal() {
    for v in [0i64, 7, 10, -1, 123456789, i64::MAX, i64::MIN] {
        assert_eq!(i64_text(v).iter().collect::<String>(), v.to_string());
    }
}

#[test]
fn recognizes_f64_text_like_std() {
    for s in ["0", "1.5", "-0.25", "+3", ".5", "5.", ".", "", "1e10", "1E-3", "2.5e+7", "e5", "1e", "1e+", "inf",
        "-INF", "Infinity", "nan", "NaN", "infin", "1.2.3", " 1", "1 ", "0x10", "1_000", "--1", "+.e1", "1.e5"] {
        assert_eq!(float_text_ok(&cs(s)), s.parse::<f64>().is_ok(), "text {:?}", s);
    }
}

#[test]
fn truncates_float_display_text_like_as_cast() {
    for f in [0.0f64, -0.0, 1.9, -1.9, 0.5, -0.5, 123.0, 2147483647.9, 2147483648.0, -2147483649.5, 1e300, -1e300,
        f64::NAN, f64::INFINITY, f64::NEG_INFINITY, 42.75] {
        assert_eq!(float_text_to_i32(&cs(&f.to_string())), f as i32, "float {}", f);
    }
}

#[test]
fn trimming_twice_is_trimming_once() {
    for t in ["  a b  ", "\u{3000}", "x", "\t-Grade Level-\n"] {
        let once = trim_string(t);
        assert_eq!(trim_string(&once), once);
        assert_eq!(normalize_header(&once), normalize_header(t));
    }
}

#[test]
fn listed_names_are_clean() {
    for raw in ["a, b ,c", " ,x,, y ", "\u{a0}Math\u{a0},Art", ",,,"] {
        for n in split_name_list(raw) {
            assert!(!n.is_empty());
            assert!(!n.contains(','));
            assert_eq!(n.trim(), n);
        }
    }
}
