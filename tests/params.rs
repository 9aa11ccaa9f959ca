use tonos_call::params::{build_json_from_params, build_param_entries, parse_params, AbiInput, ArgValue, ParamKind};

fn inputs() -> Vec<AbiInput> {
    vec![
        AbiInput { name: "wallet".to_string(), kind: ParamKind::Other },
        AbiInput { name: "value".to_string(), kind: ParamKind::Integer },
        AbiInput { name: "ids".to_string(), kind: ParamKind::UintArray },
    ]
}

#[test]
fn entries_follow_interface_order() {
    let args = vec!["--ids", "[1,2T]", "--value", "1T", "--wallet", "0:01"];
    let entries = build_param_entries(&args, &inputs()).unwrap();
    assert_eq!(entries.len(), 3);
    assert_eq!(entries[0].0, "wallet");
    assert!(matches!(&entries[0].1, ArgValue::Text(t) if t == "0:01"));
    assert!(matches!(&entries[1].1, ArgValue::Text(t) if t == "1000000000"));
    assert!(matches!(&entries[2].1, ArgValue::List(l) if l == &vec!["1".to_string(), "2000000000".to_string()]));
}

#[test]
fn json_object_from_pairs() {
    let args = vec!["--wallet", "0:01", "value", "1T", "--ids", "[1,2T]"];
    let json = build_json_from_params(&args, &inputs()).unwrap();
    assert_eq!(json, r#"{"ids":["1","2000000000"],"value":"1000000000","wallet":"0:01"}"#);
}

#[test]
fn single_argument_is_json_already() {
    let json = parse_params(vec![r#"{"a":1}"#], &inputs()).unwrap();
    assert_eq!(json, r#"{"a":1}"#);
}

#[test]
fn parse_params_builds_object() {
    let ins = vec![AbiInput { name: "key".to_string(), kind: ParamKind::Integer }];
    let json = parse_params(vec!["--key", "\"0x2\""], &ins).unwrap();
    assert_eq!(json, r#"{"key":"0x2"}"#);
}

#[test]
fn missing_argument_is_an_error() {
    let args = vec!["--wallet", "0:01", "--value", "1T"];
    assert!(build_param_entries(&args, &inputs()).is_err());
    let args = vec!["--wallet", "0:01", "--ids", "[1]", "--value"];
    assert!(parse_params(args, &inputs()).is_err());
}

#[test]
fn first_mention_wins() {
    let ins = vec![AbiInput { name: "a".to_string(), kind: ParamKind::Other }];
    let json = parse_params(vec!["-a", "x", "a", "y"], &ins).unwrap();
    assert_eq!(json, r#"{"a":"x"}"#);
}
