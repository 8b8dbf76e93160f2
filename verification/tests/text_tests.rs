use zim_dsp::text::{
    chars_of, find_in, is_whitespace, rfind_in, same, slice, split_in_two, string_from, string_of,
    trimmed, words_of,
};

fn chars(s: &str) -> Vec<char> {
    s.chars().collect()
}

fn text(v: &[char]) -> String {
    v.iter().collect()
}

const SAMPLES: [&str; 16] = [
    "",
    " ",
    "a",
    "  a  ",
    "\ta b\n",
    "vco: osc  sine 440",
    " lfo.sine * 2000 + 1000 ",
    "a <- b <- c",
    "x # y # z",
    "\u{a0}wide\u{3000}",
    "é.è + ü",
    "....",
    " + ",
    "import  a as b",
    "a\r\n",
    "  patchbay:  ",
];

#[test]
fn whitespace_is_what_the_standard_library_calls_it() {
    for code in 0..0x11000u32 {
        if let Some(c) = char::from_u32(code) {
            assert_eq!(is_whitespace(c), c.is_whitespace(), "U+{code:04X}");
        }
    }
}

#[test]
fn strings_and_characters_convert_both_ways() {
    for s in SAMPLES {
        let v = chars_of(s);
        assert_eq!(v, chars(s));
        assert_eq!(string_from(&v), s);
        assert_eq!(string_of(&v, 0, v.len()), s);
        assert!(same(&v, &chars(s)));
        if !v.is_empty() {
            assert_eq!(text(&slice(&v, 1, v.len())), text(&v[1..]));
            assert!(!same(&v, &slice(&v, 1, v.len())));
        }
    }
}

#[test]
fn trimming_and_splitting_follow_the_standard_library() {
    for s in SAMPLES {
        assert_eq!(text(&trimmed(&chars(s))), s.trim(), "{s:?}");
        let words: Vec<String> = words_of(&chars(s)).iter().map(|w| text(w)).collect();
        let expected: Vec<&str> = s.split_whitespace().collect();
        assert_eq!(words, expected, "{s:?}");
    }
}

#[test]
fn searching_follows_the_standard_library() {
    for s in SAMPLES {
        for pat in [" ", ".", "<-", " + ", " #", ":", "a", "é", " as "] {
            let char_index = |byte: Option<usize>| byte.map(|b| s[..b].chars().count());
            assert_eq!(find_in(&chars(s), &chars(pat)), char_index(s.find(pat)), "{s:?} {pat:?}");
            assert_eq!(rfind_in(&chars(s), &chars(pat)), char_index(s.rfind(pat)), "{s:?} {pat:?}");
            let parts: Vec<&str> = s.split(pat).collect();
            let split = split_in_two(&chars(s), &chars(pat));
            if parts.len() == 2 {
                let (left, right) = split.unwrap();
                assert_eq!((text(&left), text(&right)), (parts[0].to_string(), parts[1].to_string()));
            } else {
                assert!(split.is_none(), "{s:?} {pat:?}");
            }
        }
    }
}
