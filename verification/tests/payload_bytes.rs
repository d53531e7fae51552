use proxy_reconciler::member::Member;
use proxy_reconciler::payload::{
    account_type_string, add_op_type_string, build_add_request, build_remove_request,
    encryption_setting_string, flow_setting_string, remove_op_type_string,
};

#[test]
fn add_request_bytes() {
    let m = Member::from_identity("ab".to_string());
    let tag = "inbound-vless".to_string();
    let request = build_add_request(&m, &tag);
    assert_eq!(request.tag, "inbound-vless");
    assert_eq!(request.op_type, "xray.app.proxyman.command.AddUserOperation");
    // AddUserOperation { user: User { email: "ab",
    //   account: TypedMessage { type: account type, value: Account {
    //     id: "ab", flow, encryption } } } }, with the zero level left out
    let expected: Vec<u8> = vec![
        10, 62, // user, 62 bytes
        18, 2, 97, 98, // email "ab"
        26, 56, // account typed message, 56 bytes
        10, 24, 120, 114, 97, 121, 46, 112, 114, 111, 120, 121, 46, 118, 108, 101, 115, 115, 46,
        65, 99, 99, 111, 117, 110, 116, // "xray.proxy.vless.Account"
        18, 28, // account value, 28 bytes
        10, 2, 97, 98, // id "ab"
        18, 16, 120, 116, 108, 115, 45, 114, 112, 114, 120, 45, 118, 105, 115, 105, 111,
        110, // flow "xtls-rprx-vision"
        26, 4, 110, 111, 110, 101, // encryption "none"
    ];
    assert_eq!(request.op_value, expected);
}

#[test]
fn add_request_bytes_with_tier() {
    let m = Member {
        identity: "ab".to_string(),
        tier: Some(7),
        label: Some("display".to_string()),
    };
    let tag = "t".to_string();
    let request = build_add_request(&m, &tag);
    // the tier becomes the user's level field; the label is not sent
    let expected: Vec<u8> = vec![
        10, 64, 8, 7, 18, 2, 97, 98, 26, 56, 10, 24, 120, 114, 97, 121, 46, 112, 114, 111, 120,
        121, 46, 118, 108, 101, 115, 115, 46, 65, 99, 99, 111, 117, 110, 116, 18, 28, 10, 2, 97,
        98, 18, 16, 120, 116, 108, 115, 45, 114, 112, 114, 120, 45, 118, 105, 115, 105, 111, 110,
        26, 4, 110, 111, 110, 101,
    ];
    assert_eq!(request.op_value, expected);
}

#[test]
fn remove_request_bytes() {
    let tag = "inbound-vless".to_string();
    let request = build_remove_request(&"ab".to_string(), &tag);
    assert_eq!(request.tag, "inbound-vless");
    assert_eq!(
        request.op_type,
        "xray.app.proxyman.command.RemoveUserOperation"
    );
    // RemoveUserOperation { email: "ab" }
    assert_eq!(request.op_value, vec![10, 2, 97, 98]);
}

#[test]
fn payload_settings() {
    assert_eq!(flow_setting_string(), "xtls-rprx-vision");
    assert_eq!(encryption_setting_string(), "none");
    assert_eq!(account_type_string(), "xray.proxy.vless.Account");
    assert_eq!(add_op_type_string(), "xray.app.proxyman.command.AddUserOperation");
    assert_eq!(
        remove_op_type_string(),
        "xray.app.proxyman.command.RemoveUserOperation"
    );
}

#[test]
fn empty_identity_is_left_out() {
    // protobuf leaves default values out: an empty identity contributes
    // no email and no id field
    let request = build_remove_request(&String::new(), &"t".to_string());
    assert_eq!(request.op_value, Vec::<u8>::new());
}
