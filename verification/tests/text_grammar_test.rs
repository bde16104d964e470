use kine_rs::text::{is_float_literal_chars, parse_usize_chars, split_bounds, trim_bounds, Separator};

fn chars(s: &str) -> Vec<char> {
    s.chars().collect()
}

fn is_float(s: &str) -> bool {
    is_float_literal_chars(&chars(s))
}

#[test]
fn float_literal_grammar_agrees_with_std() {
    let samples = [
        "0", "45", "-30", "+10", "0.40", ".5", "5.", ".", "", "-", "+", "1e5", "1E-3", "2.5e+10",
        "1e", "e5", "1.e5", "1..2", "1.2.3", "inf", "-Infinity", "NaN", "nan1", "infinit", "0x10",
        "1_000", " 1", "1 ", "75%", "15deg", "0.5rad", "١", "--1", "+-1", "1e5e3", "1ee5",
    ];
    for s in samples {
        assert_eq!(is_float(s), s.parse::<f64>().is_ok(), "literal {:?}", s);
    }
}

#[test]
fn usize_parsing_agrees_with_std() {
    let samples = [
        "0", "7", "+7", "-7", "", "+", "12a", "18446744073709551615", "18446744073709551616",
        "007", " 1", "١",
    ];
    for s in samples {
        assert_eq!(parse_usize_chars(&chars(s)), s.parse::<usize>().ok(), "number {:?}", s);
    }
}

#[test]
fn trimming_and_splitting_agree_with_std() {
    let samples = ["  a  b\tc ", "", "   ", "x", "\u{3000}joint\u{a0}1 45\n", "a,b, c,,d"];
    for s in samples {
        let cs = chars(s);
        let (a, b) = trim_bounds(&cs);
        let trimmed: String = cs[a..b].iter().collect();
        assert_eq!(trimmed, s.trim());
        let words: Vec<String> = split_bounds(&cs, Separator::Whitespace)
            .iter()
            .map(|&(p, q)| cs[p..q].iter().collect())
            .collect();
        let expected: Vec<String> = s.split_whitespace().map(|w| w.to_string()).collect();
        assert_eq!(words, expected);
        let pieces: Vec<String> = split_bounds(&cs, Separator::CommaOrSpace)
            .iter()
            .map(|&(p, q)| cs[p..q].iter().collect())
            .collect();
        let expected: Vec<String> = s
            .split(|c| c == ',' || c == ' ')
            .filter(|p| !p.is_empty())
            .map(|p| p.to_string())
            .collect();
        assert_eq!(pieces, expected);
    }
}
