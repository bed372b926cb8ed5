use iron_nest::notices::{action_toast, toast_timeout, Toast};
use iron_nest::roku::{keypress_reply, keypress_url, roku_ip};
use iron_nest::routes::{
    account_href, integration_href, ipld_blob_href, login_page_for, mish_state_href,
    sign_in_title, LoginPageKind,
};
use iron_nest::slider::{parse_u8, slider_value};
use iron_nest::timeline::pill_width;

#[test]
fn slider_reads_bytes_like_rust() {
    assert_eq!(slider_value("50"), 50);
    assert_eq!(slider_value("0"), 0);
    assert_eq!(slider_value("100"), 100);
    assert_eq!(slider_value("255"), 255);
    assert_eq!(slider_value("+7"), 7);
    assert_eq!(slider_value("007"), 7);
    assert_eq!(slider_value("256"), 0);
    assert_eq!(slider_value("99999999999"), 0);
    assert_eq!(slider_value(""), 0);
    assert_eq!(slider_value("+"), 0);
    assert_eq!(slider_value("-1"), 0);
    assert_eq!(slider_value(" 5"), 0);
    assert_eq!(slider_value("5a"), 0);
    for text in ["12", "+255", "256", "-0", "", "1_0", "٣", "00000000000000000000001"] {
        assert_eq!(parse_u8(text), text.parse::<u8>().ok(), "{text:?}");
    }
}

#[test]
fn roku_keypress() {
    assert_eq!(roku_ip(1), "192.168.0.220");
    assert_eq!(roku_ip(2), "10.0.0.217");
    assert_eq!(roku_ip(-1), "10.0.0.217");
    assert_eq!(keypress_url(1, "Home"), "http://192.168.0.220:8060/keypress/Home");
    assert_eq!(keypress_url(7, "VolumeUp"), "http://10.0.0.217:8060/keypress/VolumeUp");
    assert_eq!(keypress_reply(true, "Home"), Ok("Key pressed: Home".to_string()));
    assert_eq!(keypress_reply(false, "Home"), Err(500));
}

#[test]
fn links_and_titles() {
    assert_eq!(mish_state_href("fish_tank"), "/settings/dag-inspector/mish-state/fish_tank");
    assert_eq!(ipld_blob_href("bafkrei"), "/settings/dag-inspector/ipld-blob/bafkrei");
    assert_eq!(integration_href("ring"), "/integrations/ring");
    assert_eq!(account_href("eufy"), "/accounts/eufy");
    assert_eq!(sign_in_title("ring"), "Sign in to your ring account");
    assert_eq!(login_page_for("ring"), LoginPageKind::Ring);
    assert_eq!(login_page_for("Ring"), LoginPageKind::NotFound);
    assert_eq!(login_page_for(""), LoginPageKind::NotFound);
}

#[test]
fn toasts() {
    assert_eq!(action_toast(Some(true), "Config saved"), Some(Toast("Config saved".to_string())));
    assert_eq!(action_toast(Some(false), "Config saved"), None);
    assert_eq!(action_toast(None, "Config saved"), None);
    assert_eq!(toast_timeout(true), 500);
    assert_eq!(toast_timeout(false), 0);
}

#[test]
fn short_videos_get_a_visible_pill() {
    assert_eq!(pill_width(0), 5);
    assert_eq!(pill_width(4), 5);
    assert_eq!(pill_width(5), 5);
    assert_eq!(pill_width(120), 120);
    assert_eq!(pill_width(-3), 5);
}

#[test]
fn navbar_entries() {
    let links = iron_nest::routes::navbar_links();
    let pairs: Vec<(&str, &str)> = links.iter().map(|l| (l.path.as_str(), l.text.as_str())).collect();
    assert_eq!(
        pairs,
        vec![
            ("/", "Dashboard"),
            ("/devices", "Devices"),
            ("/actions", "Actions"),
            ("/integrations", "Integrations"),
            ("/settings", "Settings"),
        ]
    );
}
