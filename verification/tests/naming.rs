use cinode_extract::naming::{
    invented_name, join, name_from_header, name_from_search, name_from_token, text_name,
    trim_title, NameError, FILENAME_PATTERN,
};

#[test]
fn title_is_cut_at_the_first_full_stop() {
    assert_eq!(trim_title("Phase 1. Discovery and setup"), "Phase 1");
}

#[test]
fn title_without_full_stop_stays_whole() {
    assert_eq!(trim_title("Migration"), "Migration");
    assert_eq!(trim_title(""), "");
}

#[test]
fn title_that_starts_with_a_full_stop_gives_nothing() {
    assert_eq!(trim_title(".hidden. really"), "");
}

#[test]
fn name_without_extension_gets_pdf() {
    let header = "content-disposition: attachment; filename=\"report\";";
    assert_eq!(name_from_header(header), Ok("report.pdf".to_string()));
}

#[test]
fn name_with_extension_keeps_it() {
    let header = "content-disposition: attachment; filename=\"data.csv\";";
    assert_eq!(name_from_header(header), Ok("data.csv".to_string()));
}

#[test]
fn name_from_a_bare_header_value() {
    assert_eq!(name_from_header("attachment; filename=cv.docx;"), Ok("cv.docx".to_string()));
}

#[test]
fn token_ends_at_the_first_semicolon() {
    let header = "attachment; filename=\"a.txt\"; size=3;";
    assert_eq!(name_from_header(header), Ok("a.txt".to_string()));
    let header = "attachment; filename=report; size=3; creation-date=today;";
    assert_eq!(name_from_header(header), Ok("report.pdf".to_string()));
}

#[test]
fn first_token_of_the_header_is_taken() {
    let header = "filename=one.txt; filename=two.txt;";
    assert_eq!(name_from_header(header), Ok("one.txt".to_string()));
}

#[test]
fn semicolon_on_the_next_line_ends_no_token() {
    assert_eq!(name_from_header("filename=one.txt\n;"), Err(NameError::NoFileName));
}

#[test]
fn match_stays_on_its_line() {
    let header = "filename=one.txt;\nx-other: two;";
    assert_eq!(name_from_header(header), Ok("one.txt".to_string()));
}

#[test]
fn header_without_token_gives_no_name() {
    assert_eq!(name_from_header("attachment"), Err(NameError::NoFileName));
    assert_eq!(name_from_header("attachment; filename=\"report\""), Err(NameError::NoFileName));
    assert_eq!(name_from_header(""), Err(NameError::NoFileName));
}

#[test]
fn search_outcomes_become_names_or_reasons() {
    assert_eq!(
        name_from_search(Ok(Some("filename=\"report\";".to_string()))),
        Ok("report.pdf".to_string())
    );
    assert_eq!(name_from_search(Ok(None)), Err(NameError::NoFileName));
    let refused = regex::Regex::new("filename=(").unwrap_err();
    assert_eq!(name_from_search(Err(refused)), Err(NameError::PatternRefused));
}

#[test]
fn names_are_free_of_quoting_and_have_an_extension() {
    for token in ["filename=\"a\";", "filename=\"\";\";\"", ";;;", "", "filename=x.y;"] {
        let name = name_from_token(token);
        assert!(name.contains('.'));
        assert!(!name.contains('"'));
        assert!(!name.contains(';'));
    }
}

#[test]
fn pattern_is_the_filename_token() {
    assert_eq!(FILENAME_PATTERN, "filename=[^;\\n]*;");
}

#[test]
fn token_is_stripped_of_word_quotes_and_semicolons() {
    assert_eq!(name_from_token("filename=\"report\";"), "report.pdf");
    assert_eq!(name_from_token("filename=\"data.csv\";"), "data.csv");
    assert_eq!(name_from_token("filename=;"), ".pdf");
    assert_eq!(name_from_token("filename=\"a;b\";filename=c;"), "abc.pdf");
    assert_eq!(name_from_token("plain.txt"), "plain.txt");
}

#[test]
fn word_that_forms_when_a_quote_goes_is_kept() {
    assert_eq!(name_from_token("file\"name=x;"), "filename=x.pdf");
    assert_eq!(name_from_token("filename=file\"name=y.txt;"), "filename=y.txt");
}

#[test]
fn text_name_appends_txt() {
    assert_eq!(text_name("note"), "note.txt");
    assert_eq!(text_name(""), ".txt");
}

#[test]
fn join_puts_a_slash_between() {
    assert_eq!(join("One Agency/Acme", "report.pdf"), "One Agency/Acme/report.pdf");
    assert_eq!(join("", ""), "/");
}

#[test]
fn invented_name_is_a_hyphenated_id_with_txt() {
    let name = invented_name();
    let chars: Vec<char> = name.chars().collect();
    assert_eq!(chars.len(), 40);
    assert!(name.ends_with(".txt"));
    for (i, c) in chars[..36].iter().enumerate() {
        if i == 8 || i == 13 || i == 18 || i == 23 {
            assert_eq!(*c, '-');
        } else {
            assert!(matches!(*c, '0'..='9' | 'a'..='f'));
        }
    }
}

#[test]
fn invented_names_differ() {
    assert_ne!(invented_name(), invented_name());
}
