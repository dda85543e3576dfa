use mini_grep::Config;
use mini_grep::GrepError;
use mini_grep::format_record;
use mini_grep::grep;
use mini_grep::u64_to_dec;

fn to_lines(contents: &str) -> Vec<String> {
    contents.lines().map(|l| l.to_string()).collect()
}

fn build(query: &str, ignore_case: bool) -> Config {
    let file_path = "poem.txt".to_string();
    let query = query.to_string();
    Config::build(&file_path, &query, ignore_case).unwrap()
}

#[test]
fn build_rejects_empty_query() {
    let file_path = "poem.txt".to_string();
    let query = "".to_string();
    let result = Config::build(&file_path, &query, false);
    match result {
        Err(GrepError::ConfigError(m)) => assert_eq!(m, "query must not be empty"),
        _ => panic!("empty query must be rejected with a ConfigError"),
    }
}

#[test]
fn build_succeeds_on_any_nonempty_query() {
    for q in ["a", " ", "query", "UPPER", "não"] {
        let file_path = "poem.txt".to_string();
        let query = q.to_string();
        let config = Config::build(&file_path, &query, true).unwrap();
        assert_eq!(config.query, q);
        assert_eq!(config.file_path, "poem.txt");
        assert!(config.ignore_case);
    }
}

#[test]
fn build_keeps_case_flag() {
    let config = build("query", false);
    assert!(!config.ignore_case);
    let config = build("query", true);
    assert!(config.ignore_case);
}

#[test]
fn error_messages() {
    let config_err = GrepError::ConfigError("query must not be empty".to_string());
    assert_eq!(
        config_err.message(),
        "Error de Configuração: query must not be empty"
    );
    let io_err = GrepError::IoError("file not found".to_string());
    assert_eq!(io_err.message(), "Error de IO: file not found");
}

#[test]
fn scan_is_idempotent() {
    let lines = to_lines("linha um\nlinha dois com query\nquery no fim");
    let config = build("query", false);
    let first = grep(&config, &lines);
    let second = grep(&config, &lines);
    assert_eq!(first, second);
    assert_eq!(first, "[LINHA 2]: linha dois com query\n[LINHA 3]: query no fim\n");
}

#[test]
fn scan_preserves_file_order() {
    let lines = to_lines("alvo um\noutra\nalvo dois\noutra\nalvo tres");
    let config = build("alvo", false);
    let output = grep(&config, &lines);
    assert_eq!(
        output,
        "[LINHA 1]: alvo um\n[LINHA 3]: alvo dois\n[LINHA 5]: alvo tres\n"
    );
}

#[test]
fn scan_numbers_every_line_when_all_match() {
    let mut contents = String::new();
    for i in 1..=12 {
        contents.push_str(&format!("linha {i} com query\n"));
    }
    let lines = to_lines(&contents);
    let config = build("query", false);
    let output = grep(&config, &lines);
    let mut expected = String::new();
    for i in 1..=12 {
        expected.push_str(&format!("[LINHA {i}]: linha {i} com query\n"));
    }
    assert_eq!(output, expected);
}

#[test]
fn scan_of_no_lines_is_empty() {
    let lines: Vec<String> = Vec::new();
    let config = build("query", false);
    assert_eq!(grep(&config, &lines), "");
}

#[test]
fn uppercase_query_matches_lowercase_line_when_ignoring_case() {
    let lines = to_lines("linha com query\nnada aqui");
    let config = build("QUERY", true);
    let output = grep(&config, &lines);
    assert_eq!(output, "[LINHA 1]: linha com query\n");
}

#[test]
fn query_longer_than_line_does_not_match() {
    let lines = to_lines("ab\nabc");
    let config = build("abc", false);
    let output = grep(&config, &lines);
    assert_eq!(output, "[LINHA 2]: abc\n");
}

#[test]
fn one_record_per_line_despite_repeated_hits() {
    let lines = to_lines("query query query");
    let config = build("query", false);
    let output = grep(&config, &lines);
    assert_eq!(output, "[LINHA 1]: query query query\n");
}

#[test]
fn matches_at_line_start_and_end() {
    let lines = to_lines("query no inicio\nno fim query");
    let config = build("query", false);
    let output = grep(&config, &lines);
    assert_eq!(output, "[LINHA 1]: query no inicio\n[LINHA 2]: no fim query\n");
}

#[test]
fn decimal_rendering_is_exact() {
    assert_eq!(u64_to_dec(0), "0");
    assert_eq!(u64_to_dec(7), "7");
    assert_eq!(u64_to_dec(10), "10");
    assert_eq!(u64_to_dec(105), "105");
    assert_eq!(u64_to_dec(u64::MAX), "18446744073709551615");
}

#[test]
fn record_shape_is_exact() {
    assert_eq!(format_record(2, "linha dois"), "[LINHA 2]: linha dois\n");
    assert_eq!(format_record(31, ""), "[LINHA 31]: \n");
}
