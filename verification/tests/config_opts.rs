use soda_fuzz::config::{Fuzz, FuzzError, SodaArgs};

fn args() -> SodaArgs {
    SodaArgs {
        url: "http://x/".to_string(),
        wordlist: "words.txt".to_string(),
        fuzz: Fuzz::DirectoryPath,
        debug: false,
        verbose: false,
        htmlbody: false,
        no_timeout_errs: false,
        ext: None,
        output: None,
        status_codes: None,
        ignore_len: None,
        timeout: 300,
        threads: 10,
    }
}

#[test]
fn status_codes_parsed() {
    let mut a = args();
    a.status_codes = Some("200,404,500".to_string());
    assert_eq!(a.get_status_codes(), Ok(vec![200, 404, 500]));
}

#[test]
fn status_codes_default_empty() {
    let a = args();
    assert_eq!(a.get_status_codes(), Ok(vec![]));
    let mut b = args();
    b.status_codes = Some("".to_string());
    assert_eq!(b.get_status_codes(), Ok(vec![]));
}

#[test]
fn status_codes_out_of_range_dropped() {
    let mut a = args();
    a.status_codes = Some("99,200,1000".to_string());
    assert_eq!(a.get_status_codes(), Ok(vec![200]));
}

#[test]
fn status_codes_unparsable_is_fatal() {
    let mut a = args();
    a.status_codes = Some("20x".to_string());
    assert_eq!(a.get_status_codes(), Err(FuzzError::BadStatusCode));
    let mut b = args();
    b.status_codes = Some("200,".to_string());
    assert_eq!(b.get_status_codes(), Err(FuzzError::BadStatusCode));
}

#[test]
fn length_values_parsed() {
    let mut a = args();
    a.ignore_len = Some("0,1234".to_string());
    assert_eq!(a.get_length_values(), Ok(vec![0, 1234]));
    assert_eq!(args().get_length_values(), Ok(vec![]));
}

#[test]
fn length_values_unparsable_is_fatal() {
    let mut a = args();
    a.ignore_len = Some("x".to_string());
    assert_eq!(a.get_length_values(), Err(FuzzError::BadLengthValue));
}

#[test]
fn extension_list_split() {
    let mut a = args();
    a.ext = Some("php,html,js".to_string());
    assert_eq!(
        a.extension_list(),
        vec!["php".to_string(), "html".to_string(), "js".to_string()]
    );
    assert_eq!(args().extension_list(), Vec::<String>::new());
    let mut b = args();
    b.ext = Some("".to_string());
    assert_eq!(b.extension_list(), Vec::<String>::new());
}

#[test]
fn url_scheme_checked() {
    let mut a = args();
    a.url = "ftp://x/".to_string();
    assert_eq!(a.normalize_url(), Err(FuzzError::BadUrlScheme));
    let mut b = args();
    b.url = "https://x/".to_string();
    assert_eq!(b.normalize_url(), Ok("https://x/".to_string()));
}

#[test]
fn url_trailing_slash_added_in_directory_mode() {
    let mut a = args();
    a.url = "http://x".to_string();
    assert_eq!(a.normalize_url(), Ok("http://x/".to_string()));
    assert_eq!(args().normalize_url(), Ok("http://x/".to_string()));
}

#[test]
fn url_placeholder_required_in_parameter_mode() {
    let mut a = args();
    a.fuzz = Fuzz::Parameter;
    a.url = "http://x/?u=v".to_string();
    assert_eq!(a.normalize_url(), Err(FuzzError::MissingPlaceholder));
    let mut b = args();
    b.fuzz = Fuzz::Parameter;
    b.url = "http://x/?u={!}".to_string();
    assert_eq!(b.normalize_url(), Ok("http://x/?u={!}".to_string()));
}

#[test]
fn split_probe() {
    let a = args();
    assert!(a.check_correct_split("a\r\nb".to_string(), "\r\n"));
    assert!(!a.check_correct_split("ab".to_string(), "\r\n"));
    assert!(a.check_correct_split("a,b".to_string(), ","));
}
