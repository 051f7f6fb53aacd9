use oxipaste::context::{
    Address, ContentType, ContentTypeId, ContextCommand, ContextMenu, ImageContext, TextContext,
};
use oxipaste::error::{into_general_error, OxiPasteError};
use oxipaste::listing::{classify_entry, filter_keys, matches_filter, matches_folded, menus_from_entries};
use oxipaste::ui_config::{default_config, merge_config, ConfigOptional};
use oxipaste::utils::FocusDirection;

fn strings(v: &[&str]) -> Vec<String> {
    v.iter().map(|s| s.to_string()).collect()
}

fn text_menu(t: &str) -> ContextMenu {
    ContextMenu { toggled: false, content_type: ContentType::Text(TextContext::Text(t.to_string())) }
}

#[test]
fn address_detection() {
    assert_eq!(Address::try_build("https://x.org".to_string()).unwrap().to_string(), "https://x.org");
    assert!(Address::try_build("/etc/hosts".to_string()).is_ok());
    assert!(Address::try_build("./here".to_string()).is_ok());
    assert_eq!(Address::try_build("http://x.org".to_string()).unwrap_err(), "http://x.org");
    assert!(Address::try_build("hello".to_string()).is_err());
}

#[test]
fn command_with_too_few_parts_is_error() {
    let err = ContextCommand::from_vec_and_value(strings(&["only"]), "v", false).unwrap_err();
    assert_eq!(err.to_string(), "Invalid Command: less than 2 arguments provided");
}

#[test]
fn command_placeholder_replaced() {
    let c = ContextCommand::from_vec_and_value(strings(&["open", "xdg-open", "{}", "-x", "{}"]), "url", false)
        .unwrap();
    assert_eq!(c.label, "open");
    assert_eq!(c.command, "xdg-open");
    assert_eq!(c.args, strings(&["url", "-x", "url"]));
    assert!(!c.requires_copy);
}

#[test]
fn command_without_placeholder_appends_value() {
    let c = ContextCommand::from_vec_and_value(strings(&["notify", "notify-send"]), "hi", false).unwrap();
    assert_eq!(c.args, strings(&["hi"]));
}

#[test]
fn command_that_copies_takes_no_value() {
    let c = ContextCommand::from_vec_and_value(strings(&["satty", "sh", "-c", "{}"]), "hi", true).unwrap();
    assert_eq!(c.args, strings(&["-c", "{}"]));
    assert!(c.requires_copy);
}

#[test]
fn context_actions_by_kind() {
    let config = default_config();
    let image = ContentType::Image(ImageContext::Regular(vec![1, 2]));
    let r = image.get_context_actions(&config);
    assert!(r.1);
    assert_eq!(r.0.len(), 1);
    let c = r.0[0].as_ref().unwrap();
    assert_eq!(c.command, "sh");
    assert_eq!(c.args, strings(&["-c", "wl-paste | satty -f -"]));

    let address = ContentType::Text(TextContext::Address(Address::try_build("https://a.b".to_string()).unwrap()));
    let r = address.get_context_actions(&config);
    assert!(!r.1);
    assert_eq!(r.0.len(), 2);
    assert_eq!(r.0[0].as_ref().unwrap().command, "xdg-open");
    assert_eq!(r.0[0].as_ref().unwrap().args, strings(&["https://a.b"]));

    let text = ContentType::Text(TextContext::Text("note".to_string()));
    let r = text.get_context_actions(&config);
    assert_eq!(r.0.len(), 1);
    assert_eq!(r.0[0].as_ref().unwrap().args, strings(&["note"]));
}

#[test]
fn bad_configured_command_gives_error_entry() {
    let mut config = default_config();
    config.PlainTextContextActions = vec![strings(&["x"]), strings(&["a", "b"])];
    let r = TextContext::Text("t".to_string()).get_context_actions(&config);
    assert!(r[0].is_err());
    assert_eq!(r[1].as_ref().unwrap().args, strings(&["t"]));
}

#[test]
fn ui_default_config_values() {
    let config = default_config();
    assert!(!config.keepOpen);
    assert_eq!(config.PlainTextContextActions, vec![strings(&["notify", "notify-send"])]);
    assert_eq!(
        config.AddressContextActions,
        vec![strings(&["open", "xdg-open"]), strings(&["notify", "notify-send"])]
    );
    assert_eq!(config.ImageContextActions, vec![strings(&["satty", "sh", "-c", "wl-paste | satty -f -"])]);
}

#[test]
fn merge_config_fills_missing() {
    let parsed = ConfigOptional {
        keepOpen: Some(true),
        PlainTextContextActions: Some(vec![strings(&["a", "b"])]),
        AddressContextActions: None,
        ImageContextActions: None,
    };
    let config = merge_config(parsed);
    assert!(config.keepOpen);
    assert_eq!(config.PlainTextContextActions, vec![strings(&["a", "b"])]);
    assert_eq!(config.AddressContextActions, default_config().AddressContextActions);
}

#[test]
fn classify_entries() {
    match classify_entry(&b"hello".to_vec(), &"text/plain;charset=utf-8".to_string()).unwrap() {
        ContentType::Text(TextContext::Text(t)) => assert_eq!(t, "hello"),
        other => panic!("unexpected {:?}", other),
    }
    match classify_entry(&b"/tmp/x".to_vec(), &"text/plain".to_string()).unwrap() {
        ContentType::Text(TextContext::Address(a)) => assert_eq!(a.as_str(), "/tmp/x"),
        other => panic!("unexpected {:?}", other),
    }
    match classify_entry(&vec![137, 80], &"image/png".to_string()).unwrap() {
        ContentType::Image(ImageContext::Regular(b)) => assert_eq!(b, vec![137, 80]),
        other => panic!("unexpected {:?}", other),
    }
    let err = classify_entry(&vec![0xff], &"text/plain".to_string()).unwrap_err();
    assert_eq!(err.to_string(), "Could not convert data from daemon");
}

#[test]
fn menus_are_keyed_in_order() {
    let items = vec![(b"a".to_vec(), "text/plain".to_string()), (vec![1], "image/png".to_string())];
    let menus = menus_from_entries(&items).unwrap();
    assert_eq!(menus.len(), 2);
    assert_eq!(menus[0].0, 0);
    assert_eq!(menus[1].0, 1);
    assert!(!menus[1].1.toggled);
    let bad = vec![(b"a".to_vec(), "text/plain".to_string()), (vec![0xff], "text/plain".to_string())];
    assert!(menus_from_entries(&bad).is_err());
}

#[test]
fn filter_ignores_case() {
    let menu = text_menu("Hello World");
    assert!(matches_filter(&menu, &"WORLD".to_string(), ContentTypeId::All));
    assert!(matches_filter(&menu, &"".to_string(), ContentTypeId::PlainText));
    assert!(!matches_filter(&menu, &"world".to_string(), ContentTypeId::AddressText));
    assert!(!matches_filter(&menu, &"planet".to_string(), ContentTypeId::All));
    assert!(matches_folded("hello world", "lo w"));
    assert!(!matches_folded("hello world", "LO W"));
}

#[test]
fn filter_images() {
    let menu = ContextMenu { toggled: false, content_type: ContentType::Image(ImageContext::Regular(vec![1])) };
    assert!(matches_filter(&menu, &"".to_string(), ContentTypeId::Image));
    assert!(matches_filter(&menu, &"an image".to_string(), ContentTypeId::All));
    assert!(!matches_filter(&menu, &"img".to_string(), ContentTypeId::All));
    assert!(!matches_filter(&menu, &"".to_string(), ContentTypeId::PlainText));
}

#[test]
fn filter_keys_in_order() {
    let items = vec![(0, text_menu("apple")), (1, text_menu("Banana")), (2, text_menu("grape"))];
    assert_eq!(filter_keys(&items, &"AP".to_string(), ContentTypeId::All), vec![0, 2]);
    assert_eq!(filter_keys(&items, &"an".to_string(), ContentTypeId::All), vec![1]);
}

#[test]
fn content_type_names() {
    assert_eq!(ContentTypeId::PlainText.to_string(), "Text");
    assert_eq!(ContentTypeId::AddressText.to_string(), "Addresses");
    assert_eq!(ContentTypeId::Image.to_string(), "Images");
    assert_eq!(ContentTypeId::All.to_string(), "All");
}

#[test]
fn focus_moves_with_wrap() {
    assert_eq!(FocusDirection::Up.add(2, 5), 1);
    assert_eq!(FocusDirection::Up.add(0, 5), 4);
    assert_eq!(FocusDirection::Down.add(4, 5), 0);
    assert_eq!(FocusDirection::Down.add(1, 5), 2);
    assert_eq!(FocusDirection::Down.add(3, 0), 0);
}

#[test]
fn general_error_carries_message() {
    let parse_error = "x1".parse::<i32>().unwrap_err();
    let e = into_general_error(Some(parse_error)).unwrap();
    assert_eq!(e.to_string(), "invalid digit found in string");
    assert!(into_general_error::<std::num::ParseIntError>(None).is_none());
    assert_eq!(OxiPasteError::new("boom").to_string(), "boom");
}
