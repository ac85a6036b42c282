use dplmt_router::bridges::check_status;
use dplmt_router::errors::RouterError;
use dplmt_router::text::{decimal_string, micro_text, same_text};

#[test]
fn decimal_rendering() {
    assert_eq!(decimal_string(0), "0");
    assert_eq!(decimal_string(7565164), "7565164");
    assert_eq!(decimal_string(u128::MAX), u128::MAX.to_string());
}

#[test]
fn micro_amounts_render_like_floats() {
    assert_eq!(micro_text(1_500_000), "1.5");
    assert_eq!(micro_text(2_000_000), "2");
    assert_eq!(micro_text(1_000_001), "1.000001");
    assert_eq!(micro_text(250_000), "0.25");
    assert_eq!(micro_text(0), "0");
    assert_eq!(micro_text(500_000_000), format!("{}", 500.0_f64));
    assert_eq!(micro_text(123_456_780), format!("{}", 123.45678_f64));
}

#[test]
fn text_equality() {
    assert!(same_text("taxi", "taxi"));
    assert!(!same_text("taxi", "bus"));
    assert!(!same_text("taxi", "taxis"));
    assert!(same_text("", ""));
}

#[test]
fn status_judgement() {
    assert!(check_status("mayan", 200, "200 OK").is_ok());
    assert!(check_status("mayan", 299, "299 <unknown status code>").is_ok());
    match check_status("mayan", 502, "502 Bad Gateway") {
        Err(RouterError::Upstream(m)) => assert_eq!(m, "mayan 502 Bad Gateway"),
        other => panic!("unexpected {:?}", other),
    }
    assert!(check_status("across", 301, "301 Moved Permanently").is_err());
}
