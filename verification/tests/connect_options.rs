use momo::sora::connect_options::{build_data_channels, parse_forwarding_filters, validate_opaque_id};

#[test]
fn data_channel_labels_are_converted_to_sendrecv_channels() {
    let labels = vec!["#chat".to_string(), "#notify-extra".to_string()];
    let channels = build_data_channels(&labels).expect("正常に変換できるはず");

    assert_eq!(channels.len(), 2, "2 件の DataChannel ができるはず");
    assert_eq!(channels[0].label, "#chat", "1 件目のラベルが一致するはず");
    assert_eq!(channels[0].direction, "sendrecv", "方向は sendrecv が既定のはず");
    assert!(channels[0].ordered.is_none(), "指定していない項目は None のはず");
}

#[test]
fn data_channel_label_rejects_invalid_form() {
    assert!(build_data_channels(&["chat".to_string()]).is_err(), "# 無しは拒否するはず");
    let too_long = format!("#{}", "a".repeat(32));
    assert!(build_data_channels(&[too_long]).is_err(), "33 文字は拒否するはず");
    assert!(build_data_channels(&["#stats".to_string()]).is_err(), "Sora 内部ラベルとの衝突は拒否するはず");
    assert!(
        build_data_channels(&["#chat".to_string(), "#chat".to_string()]).is_err(),
        "重複ラベルは拒否するはず"
    );
    assert!(
        build_data_channels(&[format!("#{}", "あ".repeat(31))]).is_ok(),
        "32 文字 (日本語でも文字数で判定) は受理するはず"
    );
}

#[test]
fn opaque_id_length_is_validated() {
    assert!(validate_opaque_id("momo-client", "--client-id").is_ok(), "通常値は受理するはず");
    assert!(validate_opaque_id(&"a".repeat(255), "--client-id").is_ok(), "255 バイトは受理するはず");
    assert!(validate_opaque_id("", "--client-id").is_err(), "空文字列は拒否するはず");
    assert!(
        validate_opaque_id(&"あ".repeat(86), "--bundle-id").is_err(),
        "UTF-8 換算 255 バイト超は拒否するはず"
    );
}

// Own cases.

#[test]
fn data_channel_messages_are_exact() {
    assert_eq!(
        build_data_channels(&["chat".to_string()]).unwrap_err(),
        "不正な --data-channel-label: chat (# で始まるラベルを指定してください)"
    );
    assert_eq!(
        build_data_channels(&["#rpc".to_string()]).unwrap_err(),
        "不正な --data-channel-label: #rpc (Sora が内部で使用するラベルと衝突します)"
    );
    assert_eq!(
        build_data_channels(&["#a".to_string(), "#b".to_string(), "#a".to_string()]).unwrap_err(),
        "重複する --data-channel-label: #a"
    );
    let long = format!("#{}", "b".repeat(32));
    assert_eq!(
        build_data_channels(&[long.clone()]).unwrap_err(),
        format!("不正な --data-channel-label: {long} (# を含め 32 文字以内で指定してください)")
    );
    assert!(build_data_channels(&[]).unwrap().is_empty());
    // The first refused label is reported, even if a later one is refused too.
    assert_eq!(
        build_data_channels(&["#ok".to_string(), "bad".to_string(), "#stats".to_string()]).unwrap_err(),
        "不正な --data-channel-label: bad (# で始まるラベルを指定してください)"
    );
}

#[test]
fn opaque_id_message_is_exact() {
    assert_eq!(
        validate_opaque_id("", "--client-id").unwrap_err(),
        "不正な --client-id:  (1〜255 バイトで指定してください)"
    );
    assert!(validate_opaque_id(&"あ".repeat(85), "--bundle-id").is_ok());
}

#[test]
fn forwarding_filters_are_parsed_from_json() {
    let json = r#"[
            {
                "name": "block-video",
                "priority": 10,
                "action": "block",
                "version": "v2",
                "metadata": {"author": "momo"},
                "rules": [
                    [{"field": "kind", "operator": "is_in", "values": ["video"]}],
                    [{"field": "client_id", "operator": "is_not_in", "values": ["a", "b"]}]
                ]
            }
        ]"#;
    let filters = parse_forwarding_filters(json).expect("解析できるはず");

    assert_eq!(filters.len(), 1, "フィルターは 1 件のはず");
    let filter = &filters[0];
    assert_eq!(filter.name.as_deref(), Some("block-video"), "name 変換結果が一致しない");
    assert_eq!(filter.priority, Some(10), "priority 変換結果が一致しない");
    assert_eq!(filter.action.as_deref(), Some("block"), "action 変換結果が一致しない");
    assert_eq!(filter.version.as_deref(), Some("v2"), "version 変換結果が一致しない");
    assert!(filter.metadata.is_some(), "metadata が保持されるはず");
    assert_eq!(filter.rules.len(), 2, "OR 結合のルール群が 2 件あるはず");
    assert_eq!(filter.rules[1].len(), 1, "2 件目のルール群は 1 要素のはず");
    assert_eq!(filter.rules[0][0].field, "kind", "rule の field が一致しない");
    assert_eq!(
        filter.rules[1][0].values,
        vec!["a".to_string(), "b".to_string()],
        "rule の values が一致しない"
    );
}

#[test]
fn forwarding_filter_requires_rules_and_known_enums() {
    assert!(parse_forwarding_filters(r#"[{"name": "x"}]"#).is_err(), "rules 無しは拒否するはず");
    assert!(
        parse_forwarding_filters(
            r#"[{"rules": [[{"field": "media", "operator": "is_in", "values": ["video"]}]]}]"#
        )
        .is_err(),
        "未知の field は拒否するはず"
    );
    assert!(
        parse_forwarding_filters(
            r#"[{"rules": [[{"field": "kind", "operator": "equals", "values": ["video"]}]]}]"#
        )
        .is_err(),
        "未知の operator は拒否するはず"
    );
    assert!(parse_forwarding_filters(r#"{"rules": []}"#).is_err(), "配列以外は拒否するはず");
    let filters = parse_forwarding_filters(
        r#"[{"rules": [[{"field": "kind", "operator": "is_in", "values": ["audio"]}]]}]"#,
    )
    .expect("最小構成は解析できるはず");
    assert!(filters[0].name.is_none(), "name 省略は None のはず");
    assert!(filters[0].metadata.is_none(), "metadata 省略は None のはず");
}

#[test]
fn forwarding_filter_keeps_metadata_text_and_rule_details() {
    let filters = parse_forwarding_filters(
        r#"[{"metadata": {"a": [1, 2]}, "rules": [[{"field": "connection_id", "operator": "is_not_in", "values": []}], []]}]"#,
    )
    .expect("解析できるはず");
    assert_eq!(filters[0].metadata.as_deref(), Some(r#"{"a": [1, 2]}"#));
    assert_eq!(filters[0].rules.len(), 2);
    assert_eq!(filters[0].rules[0][0].field, "connection_id");
    assert_eq!(filters[0].rules[0][0].operator, "is_not_in");
    assert!(filters[0].rules[0][0].values.is_empty());
    assert!(filters[0].rules[1].is_empty());
    assert!(filters[0].priority.is_none());
    assert!(filters[0].action.is_none());
    assert!(filters[0].version.is_none());
}

#[test]
fn forwarding_filter_empty_array_gives_no_filters() {
    assert!(parse_forwarding_filters("[]").expect("空配列は解析できるはず").is_empty());
}

#[test]
fn forwarding_filter_error_messages_are_exact() {
    assert_eq!(
        parse_forwarding_filters(r#"[{"name": "x"}]"#).unwrap_err(),
        "--forwarding-filter の JSON が不正です (1:2): JSON Object at byte position 1 is invalid: required member 'rules' is missing"
    );
    assert_eq!(
        parse_forwarding_filters(r#"{"rules": []}"#).unwrap_err(),
        "--forwarding-filter の JSON が不正です (1:1): JSON Object at byte position 0 is invalid: expected Array, but found Object"
    );
    let text = r#"[{"rules": [[{"field": "media", "operator": "is_in", "values": ["video"]}]]}]"#;
    let at = text.find("\"media\"").unwrap();
    assert_eq!(
        parse_forwarding_filters(text).unwrap_err(),
        format!(
            "--forwarding-filter の JSON が不正です (1:{}): JSON String at byte position {} is invalid: `field` は connection_id / client_id / kind のいずれかを指定してください (指定値: media)",
            at + 1,
            at
        )
    );
    let text = r#"[{"action": "drop", "rules": []}]"#;
    let at = text.find("\"drop\"").unwrap();
    assert_eq!(
        parse_forwarding_filters(text).unwrap_err(),
        format!(
            "--forwarding-filter の JSON が不正です (1:{}): JSON String at byte position {} is invalid: `action` は block / allow のいずれかを指定してください (指定値: drop)",
            at + 1,
            at
        )
    );
    let text = r#"[{"rules": 5}]"#;
    let at = text.find('5').unwrap();
    assert_eq!(
        parse_forwarding_filters(text).unwrap_err(),
        format!(
            "JSON Object at byte position 1 is invalid: JSON Integer at byte position {} is invalid: expected Array, but found Integer",
            at
        )
    );
    assert!(parse_forwarding_filters("[").unwrap_err().starts_with("--forwarding-filter の JSON が不正です"));
}
