use mwdump::args::SearchArgs;
use mwdump::config::GrepConfig;
use mwdump::model::ScanError;
use mwdump::scanner::grep;
use mwdump::sink::{CollectedMatches, NoProgress};
use mwdump::xml::Tokenizer;

fn cfg(query: &str) -> GrepConfig {
    GrepConfig {
        query: query.to_string(),
        case_insensitive: false,
        pagename: false,
        namespaces: None,
        invert_namespaces: None,
    }
}

fn run_grep(
    config: &GrepConfig,
    xml: &str,
) -> Result<(u32, Vec<(String, usize, usize, u32)>), ScanError> {
    let mut tk = Tokenizer::new(xml.as_bytes());
    let mut sink = CollectedMatches::new();
    let mut progress = NoProgress {};
    match grep(config, &mut progress, &mut sink, &mut tk) {
        Ok(n) => Ok((n, sink.items)),
        Err(e) => Err(e),
    }
}

const TWO_PAGES: &str = "<mediawiki>\
<page><title>Cat</title><ns>0</ns><revision><text>a cat sat</text></revision></page>\
<page><title>Dog</title><ns>0</ns><revision><text>a dog ran</text></revision></page>\
</mediawiki>";

#[test]
fn end_to_end_two_pages() {
    let (n, items) = run_grep(&cfg("cat"), TWO_PAGES).unwrap();
    assert_eq!(n, 1);
    assert_eq!(items.len(), 1);
    assert_eq!(items[0].0, "Cat");
    assert_eq!(items[0].1, 2);
    assert_eq!(items[0].2, 5);
    assert_eq!(items[0].3, 1);
}

#[test]
fn match_count_equals_invocations() {
    let (n, items) = run_grep(&cfg("a"), TWO_PAGES).unwrap();
    assert_eq!(n as usize, items.len());
    assert_eq!(n, 2);
}

#[test]
fn running_counts_are_sequential() {
    let (n, items) = run_grep(&cfg("a"), TWO_PAGES).unwrap();
    assert_eq!(n, 2);
    for (i, item) in items.iter().enumerate() {
        assert_eq!(item.3 as usize, i + 1);
    }
    assert_eq!(items[0].0, "Cat");
    assert_eq!(items[1].0, "Dog");
}

#[test]
fn scan_twice_identical() {
    let first = run_grep(&cfg("a"), TWO_PAGES).unwrap();
    let second = run_grep(&cfg("a"), TWO_PAGES).unwrap();
    assert_eq!(first, second);
}

const NS_TWO: &str = "<mediawiki>\
<page><title>Talk</title><ns>2</ns><revision><text>xxx</text></revision></page>\
</mediawiki>";

#[test]
fn namespace_filter_skips() {
    let mut c = cfg("x");
    c.namespaces = Some(vec![0, 1]);
    c.invert_namespaces = Some(false);
    let (n, items) = run_grep(&c, NS_TWO).unwrap();
    assert_eq!(n, 0);
    assert!(items.is_empty());
}

#[test]
fn namespace_filter_inverted_keeps() {
    let mut c = cfg("x");
    c.namespaces = Some(vec![0, 1]);
    c.invert_namespaces = Some(true);
    let (n, items) = run_grep(&c, NS_TWO).unwrap();
    assert_eq!(n, 1);
    assert_eq!(items[0].0, "Talk");
}

#[test]
fn namespace_set_alone_filters_with_include_polarity() {
    let mut c = cfg("x");
    c.namespaces = Some(vec![0, 1]);
    c.invert_namespaces = None;
    let (n, _) = run_grep(&c, NS_TWO).unwrap();
    assert_eq!(n, 0);
    c.namespaces = Some(vec![2]);
    let (n, _) = run_grep(&c, NS_TWO).unwrap();
    assert_eq!(n, 1);
}

#[test]
fn namespace_persists_to_next_page() {
    let xml = "<mediawiki>\
<page><title>A</title><ns>2</ns><revision><text>zzz</text></revision></page>\
<page><title>B</title><revision><text>zzz</text></revision></page>\
</mediawiki>";
    let mut c = cfg("z");
    c.namespaces = Some(vec![0, 1]);
    c.invert_namespaces = Some(false);
    let (n, _) = run_grep(&c, xml).unwrap();
    assert_eq!(n, 0);
}

const FOO_BAR: &str = "<mediawiki>\
<page><title>Foo</title><ns>0</ns><revision><text>say Foo now</text></revision></page>\
<page><title>Bar</title><ns>0</ns><revision><text>say Foo now</text></revision></page>\
</mediawiki>";

#[test]
fn pagename_substitution_per_page() {
    let mut c = cfg("<<PAGENAME>>");
    c.pagename = true;
    let (n, items) = run_grep(&c, FOO_BAR).unwrap();
    assert_eq!(n, 1);
    assert_eq!(items[0].0, "Foo");
    assert_eq!(items[0].1, 4);
    assert_eq!(items[0].2, 7);
    assert_eq!(items[0].3, 1);
}

#[test]
fn pagename_does_not_leak_between_fields() {
    let xml = "<mediawiki>\
<page><title>T</title>junk<ns>0</ns><revision><text>xTx</text></revision></page>\
</mediawiki>";
    let mut c = cfg("<<PAGENAME>>");
    c.pagename = true;
    let (n, items) = run_grep(&c, xml).unwrap();
    assert_eq!(n, 1);
    assert_eq!(items[0].0, "T");
}

const UPPER_BODY: &str = "<mediawiki>\
<page><title>U</title><ns>0</ns><revision><text>xxABCxx</text></revision></page>\
</mediawiki>";

#[test]
fn case_insensitive_matches() {
    let mut c = cfg("abc");
    c.case_insensitive = true;
    let (n, items) = run_grep(&c, UPPER_BODY).unwrap();
    assert_eq!(n, 1);
    assert_eq!(items[0].1, 2);
    assert_eq!(items[0].2, 5);
}

#[test]
fn case_sensitive_does_not_match() {
    let (n, items) = run_grep(&cfg("abc"), UPPER_BODY).unwrap();
    assert_eq!(n, 0);
    assert!(items.is_empty());
}

#[test]
fn empty_body_never_matches_nonempty_pattern() {
    let xml = "<mediawiki>\
<page><title>E</title><ns>0</ns><revision><text></text></revision></page>\
</mediawiki>";
    let (n, _) = run_grep(&cfg("cat"), xml).unwrap();
    assert_eq!(n, 0);
}

#[test]
fn empty_pattern_matches_every_page_at_start() {
    let (n, items) = run_grep(&cfg(""), TWO_PAGES).unwrap();
    assert_eq!(n, 2);
    assert_eq!(items[0], ("Cat".to_string(), 0, 0, 1));
    assert_eq!(items[1], ("Dog".to_string(), 0, 0, 2));
}

#[test]
fn malformed_namespace_is_fatal() {
    let xml = "<mediawiki>\
<page><title>A</title><ns>abc</ns><revision><text>zzz</text></revision></page>\
</mediawiki>";
    let err = run_grep(&cfg("z"), xml).unwrap_err();
    assert!(matches!(err, ScanError::BadNamespace(t) if t == "abc"));
}

#[test]
fn bad_pattern_aborts_before_output() {
    let err = run_grep(&cfg("("), TWO_PAGES).unwrap_err();
    assert!(matches!(err, ScanError::BadPattern));
}

#[test]
fn bad_template_pattern_aborts_at_page() {
    let mut c = cfg("(<<PAGENAME>>");
    c.pagename = true;
    let err = run_grep(&c, TWO_PAGES).unwrap_err();
    assert!(matches!(err, ScanError::BadPattern));
}

#[test]
fn malformed_xml_is_fatal() {
    let err = run_grep(&cfg("z"), "<page><title>x</wrong>").unwrap_err();
    assert!(matches!(err, ScanError::MalformedXml(_)));
}

#[test]
fn body_fragments_concatenate() {
    let xml = "<mediawiki>\
<page><title>F</title><ns>0</ns><revision><text>ab<!-- gap -->cd</text></revision></page>\
</mediawiki>";
    let (n, items) = run_grep(&cfg("abcd"), xml).unwrap();
    assert_eq!(n, 1);
    assert_eq!(items[0].1, 0);
    assert_eq!(items[0].2, 4);
}

#[test]
fn entity_references_are_decoded_in_bodies() {
    let xml = "<mediawiki>\
<page><title>R</title><ns>0</ns><revision><text>R&amp;D dept</text></revision></page>\
</mediawiki>";
    let (n, items) = run_grep(&cfg("R&D"), xml).unwrap();
    assert_eq!(n, 1);
    assert_eq!(items[0].1, 0);
    assert_eq!(items[0].2, 3);
}

#[test]
fn character_references_are_decoded() {
    let xml = "<mediawiki>\
<page><title>C</title><ns>0</ns><revision><text>x&#65;y &lt;tag&gt;</text></revision></page>\
</mediawiki>";
    let (n, items) = run_grep(&cfg("xAy <tag>"), xml).unwrap();
    assert_eq!(n, 1);
    assert_eq!(items[0].1, 0);
    assert_eq!(items[0].2, 9);
}

#[test]
fn entity_references_are_decoded_in_titles() {
    let xml = "<mediawiki>\
<page><title>A&amp;B</title><ns>0</ns><revision><text>z</text></revision></page>\
</mediawiki>";
    let (n, items) = run_grep(&cfg("z"), xml).unwrap();
    assert_eq!(n, 1);
    assert_eq!(items[0].0, "A&B");
}

#[test]
fn unknown_entity_is_fatal() {
    let xml = "<mediawiki>\
<page><title>U</title><ns>0</ns><revision><text>x&bogus;y</text></revision></page>\
</mediawiki>";
    let err = run_grep(&cfg("x"), xml).unwrap_err();
    assert!(matches!(err, ScanError::MalformedXml(t) if t == "bogus"));
}

#[test]
fn entity_in_namespace_is_fatal() {
    let xml = "<mediawiki>\
<page><title>N</title><ns>&amp;</ns><revision><text>z</text></revision></page>\
</mediawiki>";
    let err = run_grep(&cfg("z"), xml).unwrap_err();
    assert!(matches!(err, ScanError::BadNamespace(t) if t == "amp"));
}

#[test]
fn parse_u32_accepts_plain_and_signed() {
    assert_eq!(mwdump::numparse::parse_u32("0"), Some(0));
    assert_eq!(mwdump::numparse::parse_u32("+7"), Some(7));
    assert_eq!(mwdump::numparse::parse_u32("4294967295"), Some(u32::MAX));
    assert_eq!(mwdump::numparse::parse_u32("000000000000000042"), Some(42));
}

#[test]
fn parse_u32_rejects_bad_input() {
    assert_eq!(mwdump::numparse::parse_u32(""), None);
    assert_eq!(mwdump::numparse::parse_u32("+"), None);
    assert_eq!(mwdump::numparse::parse_u32("12a"), None);
    assert_eq!(mwdump::numparse::parse_u32("abc"), None);
    assert_eq!(mwdump::numparse::parse_u32("4294967296"), None);
    assert_eq!(mwdump::numparse::parse_u32("-1"), None);
}

#[test]
fn parse_u32_agrees_with_std() {
    for s in ["0", "+7", "007", "4294967295", "4294967296", "", "+", "  5", "5 ", "1e3"] {
        assert_eq!(mwdump::numparse::parse_u32(s), s.parse::<u32>().ok(), "input {:?}", s);
    }
}

#[test]
fn replace_template_substitutes_all_occurrences() {
    assert_eq!(
        mwdump::strutil::replace_template("a<<PAGENAME>>b<<PAGENAME>>", "X"),
        "aXbX"
    );
    assert_eq!(mwdump::strutil::replace_template("<<PAGENAME>", "X"), "<<PAGENAME>");
    assert_eq!(mwdump::strutil::replace_template("<<<PAGENAME>>", "X"), "<X");
    assert_eq!(
        mwdump::strutil::replace_template("a<<PAGENAME>>b", "X"),
        "a<<PAGENAME>>b".replace("<<PAGENAME>>", "X")
    );
}

#[test]
fn grep_config_polarity_follows_flag() {
    let args = SearchArgs {
        query: "q".to_string(),
        count: false,
        case_insensitive: true,
        disable_progress: true,
        file: "f".to_string(),
        flush_rate: 500,
        format: "$1".to_string(),
        invert_namespaces: false,
        namespaces: Some(vec![4, 5]),
        output: None,
        pagename: false,
    };
    let c = args.grep_config();
    assert_eq!(c.invert_namespaces, None);
    assert_eq!(c.namespaces, Some(vec![4, 5]));
    assert!(c.case_insensitive);
    let args = SearchArgs { invert_namespaces: true, ..args };
    assert_eq!(args.grep_config().invert_namespaces, Some(true));
}
