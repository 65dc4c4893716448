use mygrid_scheduler::errors::FoxError;
use mygrid_scheduler::fox::{check_response, generate_headers, signature, signature_text, soc_request, FoxESS};
use mygrid_scheduler::text::{hex_digit, push_decimal, to_hex};

fn decimal(n: i64) -> String {
    let mut text = String::from("n=");
    push_decimal(&mut text, n);
    text
}

#[test]
fn push_decimal_appends_the_digits() {
    assert_eq!(decimal(0), "n=0");
    assert_eq!(decimal(7), "n=7");
    assert_eq!(decimal(10), "n=10");
    assert_eq!(decimal(1_700_000_000_000), "n=1700000000000");
    assert_eq!(decimal(-1), "n=-1");
    assert_eq!(decimal(-120), "n=-120");
    assert_eq!(decimal(i64::MAX), "n=9223372036854775807");
    assert_eq!(decimal(i64::MIN), "n=-9223372036854775808");
}

#[test]
fn to_hex_writes_two_lower_case_digits_a_byte() {
    assert_eq!(to_hex(&vec![]), "");
    assert_eq!(to_hex(&vec![0x00, 0x0f, 0xa0, 0xff, 0x5e]), "000fa0ff5e");
    assert_eq!(hex_digit(9), '9');
    assert_eq!(hex_digit(10), 'a');
    assert_eq!(hex_digit(15), 'f');
}

#[test]
fn signature_text_joins_path_key_and_time() {
    assert_eq!(
        signature_text("/op/v0/device/real/query", "my-key", 1_700_000_000_000),
        "/op/v0/device/real/query\\r\\nmy-key\\r\\n1700000000000"
    );
    assert_eq!(signature_text("", "", -5), "\\r\\n\\r\\n-5");
}

#[test]
fn signature_is_the_md5_of_the_text_in_hex() {
    assert_eq!(
        signature("/op/v0/device/real/query", "my-key", 1_700_000_000_000),
        "23edfa84be9927e86a54876cef31d8ec"
    );
    assert_eq!(signature("", "", -5), "54f52977d5a2640a2652564e674dfad4");
    assert_eq!(signature("/p/\u{e5}", "k\u{f6}", 0), "5000907db5d9354dbccbf4b0936923e0");
}

#[test]
fn generate_headers_gives_the_four_headers_in_order() {
    let headers = generate_headers("/op/v0/device/real/query", "my-key", 1_700_000_000_000);
    assert_eq!(
        headers,
        vec![
            ("token".to_string(), "my-key".to_string()),
            ("timestamp".to_string(), "1700000000000".to_string()),
            ("signature".to_string(), "23edfa84be9927e86a54876cef31d8ec".to_string()),
            ("lang".to_string(), "en".to_string()),
        ]
    );
}

#[test]
fn soc_request_asks_for_the_state_of_charge() {
    let config = FoxESS { api_key: "my-key".to_string(), inverter_sn: "SN123".to_string() };
    let request = soc_request(&config);
    assert_eq!(request.sn, "SN123");
    assert_eq!(request.variables, vec!["SoC".to_string()]);
}

#[test]
fn check_response_accepts_errno_zero() {
    assert_eq!(check_response(0, "success"), Ok(()));
    assert_eq!(check_response(0, ""), Ok(()));
}

#[test]
fn check_response_reports_errno_and_msg() {
    assert_eq!(
        check_response(40257, "illegal parameter"),
        Err(FoxError::PostRequestError("errno: 40257, msg: illegal parameter".to_string()))
    );
    assert_eq!(check_response(1, ""), Err(FoxError::PostRequestError("errno: 1, msg: ".to_string())));
}
