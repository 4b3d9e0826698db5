use audio_bench::text::{chars_of, first_two_lines, split_chars, trim_chars};
use audio_bench::visqol_csv::{classify_header_cell, parse_visqol_csv, BandMetric, CsvLayoutError};

fn s(v: &[char]) -> String {
    v.iter().collect()
}

fn all(v: &[Vec<char>]) -> Vec<String> {
    v.iter().map(|c| s(c)).collect()
}

#[test]
fn parses_visqol_results_layout() {
    let content = "reference,degraded,moslqo,fvnsim0,fvnsim1,fvnsim10_0,fvnsim10_1,fstdnsim0,fvdegenergy0\n\
                   ref.wav,deg.wav, 4.25 ,0.9,0.8,0.7,0.6,0.05,1.1\n";
    let f = parse_visqol_csv(content).unwrap();
    assert_eq!(f.moslqo_column, 2);
    assert_eq!(s(f.moslqo.as_ref().unwrap()), "4.25");
    assert_eq!(all(&f.fvnsim), vec!["0.9", "0.8"]);
    assert_eq!(all(&f.fvnsim10), vec!["0.7", "0.6"]);
    assert_eq!(all(&f.fstdnsim), vec!["0.05"]);
    assert_eq!(all(&f.fvdegenergy), vec!["1.1"]);
    assert_eq!(f.header.len(), 9);
    assert_eq!(f.values.len(), 9);
    assert_eq!(s(&f.values[2]), " 4.25 ");
}

#[test]
fn header_names_are_trimmed_and_crlf_lines_accepted() {
    let content = "a, moslqo ,fvnsim0\r\nx,3.5,0.5\r\n";
    let f = parse_visqol_csv(content).unwrap();
    assert_eq!(f.moslqo_column, 1);
    assert_eq!(s(f.moslqo.as_ref().unwrap()), "3.5");
    assert_eq!(all(&f.fvnsim), vec!["0.5"]);
}

#[test]
fn band_ten_mean_is_a_mean_column() {
    // `fvnsim10` is the mean of band 10; percentiles are `fvnsim10_<band>`.
    let content = "reference,degraded,moslqo,fvnsim0,fvnsim10,fvnsim10_0\nr.wav,d.wav,4.1,0.9,0.8,0.7";
    let f = parse_visqol_csv(content).unwrap();
    assert_eq!(s(f.moslqo.as_ref().unwrap()), "4.1");
    assert_eq!(all(&f.fvnsim), vec!["0.9", "0.8"]);
    assert_eq!(all(&f.fvnsim10), vec!["0.7"]);
}

#[test]
fn too_few_lines() {
    assert!(matches!(parse_visqol_csv(""), Err(CsvLayoutError::TooFewLines)));
    assert!(matches!(parse_visqol_csv("moslqo,fvnsim0"), Err(CsvLayoutError::TooFewLines)));
    assert!(matches!(parse_visqol_csv("moslqo,fvnsim0\n"), Err(CsvLayoutError::TooFewLines)));
}

#[test]
fn missing_moslqo_column() {
    match parse_visqol_csv("a,b\n1,2\n") {
        Err(CsvLayoutError::NoMoslqoColumn { header }) => assert_eq!(all(&header), vec!["a", "b"]),
        other => panic!("unexpected {:?}", other),
    }
}

#[test]
fn short_values_row() {
    let f = parse_visqol_csv("x,y,moslqo,fvnsim0\n1\n").unwrap();
    assert_eq!(f.moslqo_column, 2);
    assert!(f.moslqo.is_none());
    assert!(f.fvnsim.is_empty());
}

#[test]
fn first_moslqo_column_wins() {
    let f = parse_visqol_csv("moslqo,moslqo\n1,2\n").unwrap();
    assert_eq!(f.moslqo_column, 0);
    assert_eq!(s(f.moslqo.as_ref().unwrap()), "1");
}

#[test]
fn classify_headers() {
    let c = |t: &str| classify_header_cell(&chars_of(t));
    assert!(matches!(c("fvnsim3"), Some(BandMetric::Fvnsim)));
    assert!(matches!(c("fvnsim10_3"), Some(BandMetric::Fvnsim10)));
    assert!(matches!(c("fvnsim10"), Some(BandMetric::Fvnsim)));
    assert!(c("fvnsim").is_none());
    assert!(c("fvnsim10_").is_none());
    assert!(c("fvnsim3x").is_none());
    assert!(matches!(c("fstdnsim0"), Some(BandMetric::Fstdnsim)));
    assert!(matches!(c("fvdegenergy7"), Some(BandMetric::Fvdegenergy)));
    assert!(c("moslqo").is_none());
    assert!(c("fvnsi").is_none());
    // `fvnsim` followed by something that is not a band number
    assert!(c("fvnsim_110").is_none());
}

#[test]
fn trim_and_split_and_lines() {
    assert_eq!(s(&trim_chars(&chars_of("\u{3000} a b \t\r"))), "a b");
    assert_eq!(s(&trim_chars(&chars_of("   "))), "");
    assert_eq!(all(&split_chars(&chars_of("a,,b,"), ',')), vec!["a", "", "b", ""]);
    assert_eq!(all(&split_chars(&chars_of(""), ',')), vec![""]);
    let (a, b) = first_two_lines(&chars_of("one\r\ntwo\r")).unwrap();
    assert_eq!(s(&a), "one");
    assert_eq!(s(&b), "two\r");
    let (a, b) = first_two_lines(&chars_of("\n\nx")).unwrap();
    assert_eq!(s(&a), "");
    assert_eq!(s(&b), "");
    assert!(first_two_lines(&chars_of("only\n")).is_none());
}
