use indeed_scraper::scraper::IndeedScraper;
use indeed_scraper::urlenc::{encode_component, percent_decode_bytes, percent_encode_bytes};

#[test]
fn test_build_url() {
    let url = IndeedScraper::build_url("Software Engineer", "San Francisco, CA");
    assert_eq!(
        url,
        "https://www.indeed.com/jobs?q=Software%20Engineer&l=San%20Francisco%2C%20CA"
    );
}

#[test]
fn build_url_is_deterministic() {
    let a = IndeedScraper::build_url("data analyst", "Berlin");
    let b = IndeedScraper::build_url("data analyst", "Berlin");
    assert_eq!(a, b);
}

#[test]
fn built_url_has_no_literal_space_or_comma() {
    let url = IndeedScraper::build_url("software engineer, backend", "san francisco, ca");
    assert!(!url.contains(' '));
    assert!(!url.contains(','));
}

#[test]
fn encoded_segments_decode_back_exactly() {
    for input in ["software engineer", "san francisco, ca", "Ünïcode ✓ text", "a&b=c?d"] {
        let encoded = encode_component(input);
        let decoded = percent_decode_bytes(&encoded.as_bytes().to_vec());
        assert_eq!(String::from_utf8(decoded).unwrap(), input);
    }
}

#[test]
fn encode_component_matches_reference_encoder() {
    for input in ["hello world", "a,b/c?d=e&f", "Ünïcode ✓", "", "plain", "100% sure"] {
        assert_eq!(encode_component(input), urlencoding::encode(input).into_owned());
    }
}

#[test]
fn percent_encode_bytes_spells_uppercase_hex() {
    let out = percent_encode_bytes(&vec![b' ', b',', b'a', 0xFF]);
    assert_eq!(out, b"%20%2Ca%FF".to_vec());
}

#[test]
fn percent_decode_leaves_plain_bytes_alone() {
    let out = percent_decode_bytes(&b"abc%20d%2C-%zz%1".to_vec());
    assert_eq!(out, b"abc d,-%zz%1".to_vec());
}

#[test]
fn end_to_end_query_parameters_decode_to_inputs() {
    let url = IndeedScraper::build_url("software engineer", "san francisco, ca");
    let query = url.strip_prefix("https://www.indeed.com/jobs?q=").unwrap();
    let (q, l) = query.split_once("&l=").unwrap();
    assert_eq!(urlencoding::decode(q).unwrap(), "software engineer");
    assert_eq!(urlencoding::decode(l).unwrap(), "san francisco, ca");
}
