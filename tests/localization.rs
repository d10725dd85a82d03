use rust_send::bundle::{canonical_form, is_safe_resource_text, Bundle};
use rust_send::config::default_servername;
use rust_send::locale::{preferred_tag, LoadError, LoadWarning, LocaleFactory, LocaleSource};
use rust_send::paths::create_path_map;
use rust_send::texts::{TextError, TextMapBuilder};

const EN: &str = "greeting = Hello, { $name }!\ntitle = Send\n";
const FR: &str = "greeting = Bonjour, { $name } !\ntitle = Envoyer\n";

fn dir(name: &str, content: &str) -> LocaleSource {
    LocaleSource::Dir { name: Some(name.to_string()), content: Some(content.to_string()) }
}

fn s(x: &str) -> String {
    x.to_string()
}

fn en_bundle() -> Bundle {
    Bundle::compile("en-US", s(EN)).expect("resource parses")
}

#[test]
fn store_skips_invalid_tag_and_resolves() {
    let entries = vec![dir("en-US", EN), dir("xx-BOGUS!!", EN), dir("fr", FR)];
    let (store, warnings) = LocaleFactory::new(entries).expect("default locale loads");
    assert!(store.contains(&s("en-US")));
    assert!(store.contains(&s("fr")));
    assert!(!store.contains(&s("xx-BOGUS!!")));
    assert!(!store.contains(&s("de")));
    assert_eq!(warnings.len(), 1);
    assert!(matches!(warnings[0], LoadWarning::UnexpectedName));
    assert_eq!(store.resolve(Some("fr")).locale(), "fr");
    assert_eq!(store.resolve(Some("de")).locale(), "en-US");
    assert_eq!(store.resolve(None).locale(), "en-US");
    assert_eq!(store.resolve(Some("not a tag!")).locale(), "en-US");
}

#[test]
fn store_key_is_canonical_form_of_directory_name() {
    let entries = vec![dir("en-US", EN), dir("fr-fr", FR)];
    let (store, _) = LocaleFactory::new(entries).expect("default locale loads");
    assert!(store.contains(&s("fr-FR")));
    assert_eq!(store.resolve(Some("fr-FR")).locale(), "fr-FR");
    assert_eq!(store.resolve(Some("FR-fr")).locale(), "fr-FR");
}

#[test]
fn store_warns_for_each_skipped_entry() {
    let entries = vec![
        LocaleSource::Unreadable,
        LocaleSource::Dir { name: None, content: Some(s(EN)) },
        LocaleSource::Dir { name: Some(s("de")), content: None },
        dir("it", "this is { not fluent"),
        dir("en-US", EN),
    ];
    let (store, warnings) = LocaleFactory::new(entries).expect("default locale loads");
    assert_eq!(warnings.len(), 4);
    assert!(matches!(warnings[0], LoadWarning::UnreadableEntry));
    assert!(matches!(warnings[1], LoadWarning::UnexpectedName));
    assert!(matches!(&warnings[2], LoadWarning::UnreadableFile { tag } if tag == "de"));
    assert!(matches!(&warnings[3], LoadWarning::UnparsableResource { tag } if tag == "it"));
    assert!(!store.contains(&s("de")));
    assert!(!store.contains(&s("it")));
    assert!(store.contains(&s("en-US")));
}

#[test]
fn store_without_default_locale_is_refused() {
    let entries = vec![dir("fr", FR), dir("de", EN)];
    assert!(matches!(LocaleFactory::new(entries), Err(LoadError::MissingDefaultLocale { .. })));
}

#[test]
fn store_with_broken_default_resource_is_refused() {
    let entries = vec![dir("en-US", "broken { resource"), dir("fr", FR)];
    match LocaleFactory::new(entries) {
        Err(LoadError::MissingDefaultLocale { warnings }) => {
            assert_eq!(warnings.len(), 1);
            assert!(
                matches!(&warnings[0], LoadWarning::UnparsableResource { tag } if tag == "en-US")
            );
        }
        Ok(_) => panic!("a store without its default locale was built"),
    }
    assert!(matches!(
        LocaleFactory::new(Vec::new()),
        Err(LoadError::MissingDefaultLocale { .. })
    ));
}

#[test]
fn store_later_duplicate_replaces_earlier() {
    let entries = vec![dir("en-US", "title = One\n"), dir("en-us", "title = Two\n")];
    let (store, _) = LocaleFactory::new(entries).expect("default locale loads");
    let bundle = store.resolve(None);
    let mut builder = TextMapBuilder::new(bundle);
    builder.add_text(s("title"), None);
    let (texts, errors) = builder.build();
    assert_eq!(texts, vec![(s("title"), s("Two"))]);
    assert!(errors.is_empty());
}

#[test]
fn middleware_picks_bundle_of_header() {
    let entries = vec![dir("en-US", EN), dir("fr", FR)];
    let (store, _) = LocaleFactory::new(entries).expect("default locale loads");
    let middleware = store.new_transform(7u32);
    assert_eq!(middleware.service, 7);
    assert_eq!(middleware.bundle_for(Some("fr")).locale(), "fr");
    assert_eq!(middleware.bundle_for(Some("es")).locale(), "en-US");
}

#[test]
fn preferred_tag_falls_back_to_default() {
    assert_eq!(preferred_tag(None), "en-US");
    assert_eq!(preferred_tag(Some("!!")), "en-US");
    assert_eq!(preferred_tag(Some("de-at")), "de-AT");
}

#[test]
fn canonical_form_normalizes_case() {
    assert_eq!(canonical_form("en-us"), Some(s("en-US")));
    assert_eq!(canonical_form("EN"), Some(s("en")));
    assert_eq!(canonical_form("xx-BOGUS!!"), None);
}

#[test]
fn text_map_renders_argument() {
    let bundle = en_bundle();
    let mut builder = TextMapBuilder::new(&bundle);
    builder.add_text(s("greeting"), Some(vec![(s("name"), s("Ann"))]));
    let (texts, errors) = builder.build();
    assert_eq!(texts, vec![(s("greeting"), s("Hello, Ann!"))]);
    assert!(errors.is_empty());
}

#[test]
fn text_map_missing_argument_is_degraded() {
    let bundle = en_bundle();
    let mut builder = TextMapBuilder::new(&bundle);
    builder.add_text(s("greeting"), Some(Vec::new()));
    let (texts, errors) = builder.build();
    assert_eq!(texts.len(), 1);
    assert_eq!(texts[0].0, "greeting");
    assert!(!errors.is_empty());
    assert!(matches!(&errors[0], TextError::Format { id, .. } if id == "greeting"));
}

#[test]
fn text_map_missing_message_renders_id() {
    let bundle = en_bundle();
    let mut builder = TextMapBuilder::new(&bundle);
    builder.add_text(s("title"), None);
    builder.add_text(s("nowhere"), None);
    let (texts, errors) = builder.build();
    assert_eq!(texts, vec![(s("title"), s("Send")), (s("nowhere"), s("nowhere"))]);
    assert_eq!(errors.len(), 1);
    assert!(matches!(&errors[0], TextError::MissingMessage { id } if id == "nowhere"));
}

#[test]
fn text_map_keys_are_distinct_ids_last_wins() {
    let bundle = en_bundle();
    let mut builder = TextMapBuilder::new(&bundle);
    builder.add_text(s("greeting"), Some(vec![(s("name"), s("Ann"))]));
    builder.add_text(s("title"), None);
    builder.add_text(s("greeting"), Some(vec![(s("name"), s("Bob"))]));
    let (texts, errors) = builder.build();
    assert_eq!(texts, vec![(s("greeting"), s("Hello, Bob!")), (s("title"), s("Send"))]);
    assert!(errors.is_empty());
}

#[test]
fn text_map_build_is_repeatable() {
    let bundle = en_bundle();
    let render = || {
        let mut builder = TextMapBuilder::new(&bundle);
        builder.add_text(s("greeting"), Some(vec![(s("name"), s("Ann"))]));
        builder.add_text(s("missing"), None);
        builder.build()
    };
    let (first, first_errors) = render();
    let (second, second_errors) = render();
    assert_eq!(first, second);
    assert_eq!(first_errors.len(), second_errors.len());
}

#[test]
fn bundle_refuses_unparsable_resource() {
    assert!(Bundle::compile("en-US", s("= no id")).is_none());
    let b = Bundle::compile("de-at", s("title = Senden\n")).expect("parses");
    assert_eq!(b.locale(), "de-AT");
}

#[test]
fn path_map_lists_static_assets() {
    let map = create_path_map();
    assert_eq!(map.len(), 11);
    assert_eq!(map[0], (s("addfiles.svg"), s("/static/addfiles.svg")));
    assert_eq!(map[10], (s("wordmark.svg"), s("/static/wordmark.svg")));
    assert!(map.iter().all(|(name, path)| *path == format!("/static/{}", name)));
}

#[test]
fn servername_default() {
    assert_eq!(default_servername(), "example.com");
}

#[test]
fn index_page_declares_its_texts() {
    let bundle = Bundle::compile("en-US", s("orClickWithSize = or click, up to { $size }\n"))
        .expect("parses");
    let (texts, errors) = rust_send::pages::index_texts(&bundle).build();
    assert_eq!(texts.len(), 14);
    assert_eq!(texts[0], (s("javascriptRequired"), s("javascriptRequired")));
    assert_eq!(texts[5], (s("orClickWithSize"), s("or click, up to 1111")));
    assert_eq!(texts[13].0, "footerLinkSource");
    assert_eq!(errors.len(), 13);
}

#[test]
fn bundle_refuses_bad_tag() {
    assert!(Bundle::compile("xx-BOGUS!!", s(EN)).is_none());
}

#[test]
fn bundle_refuses_short_escape_before_non_ascii() {
    let text = "a = { \"\\u00\u{e9}\" }\n";
    assert!(!is_safe_resource_text(text));
    assert!(Bundle::compile("en-US", s(text)).is_none());
    let entries = vec![dir("en-US", EN), dir("fr", text)];
    let (store, warnings) = LocaleFactory::new(entries).expect("default locale loads");
    assert!(!store.contains(&s("fr")));
    assert!(matches!(&warnings[0], LoadWarning::UnparsableResource { tag } if tag == "fr"));
}

#[test]
fn bundle_refuses_placeable_of_placeable_or_literal() {
    assert!(!is_safe_resource_text("top = { { big } }\nbig = x\n"));
    assert!(!is_safe_resource_text("top = {\n  \"lit\" }\n"));
    assert!(!is_safe_resource_text("top = { -5 }\n"));
    assert!(Bundle::compile("en-US", s("top = { 5 -> *[5] { big } }\nbig = x\n")).is_none());
}

#[test]
fn bundle_accepts_select_on_variable() {
    let text = "files = { $n ->\n    [one] one file\n   *[other] { $n } files\n}\nt = { -brand }\n-brand = Send\n";
    assert!(is_safe_resource_text(text));
    let b = Bundle::compile("en-US", s(text)).expect("loads");
    let mut builder = TextMapBuilder::new(&b);
    builder.add_text(s("files"), Some(vec![(s("n"), s("3"))]));
    builder.add_text(s("t"), None);
    let (texts, errors) = builder.build();
    assert_eq!(texts, vec![(s("files"), s("3 files")), (s("t"), s("Send"))]);
    assert!(errors.is_empty());
}
