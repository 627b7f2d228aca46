use fmtstruct::format::{primary_extension, Json, Postcard, Toml, Yaml};
use fmtstruct::{AnyFormat, Decode, FmtError, Format};

#[derive(Debug, PartialEq)]
struct TestConfig {
    name: String,
    value: i32,
}

fn fields(doc: serde_json::Value) -> Result<TestConfig, String> {
    let name = doc.get("name").and_then(|v| v.as_str()).ok_or("missing field `name`")?;
    let value = doc.get("value").and_then(|v| v.as_i64()).ok_or("missing field `value`")?;
    Ok(TestConfig { name: name.to_string(), value: value as i32 })
}

impl Decode for TestConfig {
    fn decode(format: AnyFormat, input: &[u8]) -> Result<Self, String> {
        match format {
            AnyFormat::Json => fields(serde_json::from_slice(input).map_err(|e| e.to_string())?),
            AnyFormat::Toml => fields(toml::from_slice(input).map_err(|e| e.to_string())?),
            AnyFormat::Yaml => fields(serde_yaml::from_slice(input).map_err(|e| e.to_string())?),
            AnyFormat::Postcard => {
                let (name, value): (String, i32) =
                    postcard::from_bytes(input).map_err(|e| e.to_string())?;
                Ok(TestConfig { name, value })
            }
        }
    }
}

#[test]
fn test_json_format() {
    let json = Json;
    let data = r#"{ "name": "json", "value": 1 }"#.as_bytes();
    let cfg: TestConfig = json.parse(data).unwrap();
    assert_eq!(
        cfg,
        TestConfig {
            name: "json".to_string(),
            value: 1
        }
    );
}

#[test]
fn test_toml_format() {
    let toml = Toml;
    let data = r###"name = "toml"
value = 2"###
        .as_bytes();
    let cfg: TestConfig = toml.parse(data).unwrap();
    assert_eq!(
        cfg,
        TestConfig {
            name: "toml".to_string(),
            value: 2
        }
    );
}

#[test]
fn test_yaml_format() {
    let yaml = Yaml;
    let data = "name: yaml\nvalue: 3".as_bytes();
    let cfg: TestConfig = yaml.parse(data).unwrap();
    assert_eq!(
        cfg,
        TestConfig {
            name: "yaml".to_string(),
            value: 3
        }
    );
}

#[test]
fn test_postcard_format() {
    let value = ("postcard".to_string(), 4i32);
    let data = postcard::to_stdvec(&value).unwrap();

    let pc = Postcard;
    let cfg: TestConfig = pc.parse(&data).unwrap();
    assert_eq!(cfg.name, "postcard");
    assert_eq!(cfg.value, 4);
}

#[test]
fn format_tests_test_parse_error() {
    let json = Json;
    let result: Result<TestConfig, FmtError> = json.parse(b"invalid");
    assert!(matches!(result, Err(FmtError::ParseError(_))));
}

#[test]
fn every_format_reports_a_broken_payload_as_parse_error() {
    let broken: &[u8] = b"{ not : [ a payload";
    for format in [AnyFormat::Json, AnyFormat::Toml, AnyFormat::Yaml] {
        let result: Result<TestConfig, FmtError> = format.parse(broken);
        assert!(matches!(result, Err(FmtError::ParseError(_))), "{:?}", format);
    }
    // A length prefix that promises more bytes than there are.
    let result: Result<TestConfig, FmtError> = AnyFormat::Postcard.parse(&[0x7f, b'a']);
    assert!(matches!(result, Err(FmtError::ParseError(_))));
    let result: Result<TestConfig, FmtError> = Postcard.parse(&[]);
    assert!(matches!(result, Err(FmtError::ParseError(_))));
}

#[test]
fn parse_error_carries_the_decoder_diagnostic() {
    let result: Result<TestConfig, FmtError> = Json.parse(br#"{ "name": "x" }"#);
    match result {
        Err(FmtError::ParseError(detail)) => assert_eq!(detail, "missing field `value`"),
        other => panic!("expected a parse error, got {:?}", other),
    }
}

#[test]
fn toml_refuses_bytes_that_are_not_text() {
    // Valid TOML up to the last byte, which is not UTF-8.
    let mut data = b"name = \"toml\"\nvalue = 2\n# ".to_vec();
    data.push(0xff);
    let expected = std::str::from_utf8(&data).unwrap_err().to_string();
    let result: Result<TestConfig, FmtError> = Toml.parse(&data);
    match result {
        Err(FmtError::ParseError(detail)) => assert_eq!(detail, expected),
        other => panic!("expected a parse error, got {:?}", other),
    }
    let result: Result<TestConfig, FmtError> = AnyFormat::Toml.parse(&data);
    assert!(matches!(result, Err(FmtError::ParseError(_))));
}

#[test]
fn toml_accepts_text_beyond_ascii() {
    let data = "name = \"tömł\"\nvalue = 7".as_bytes();
    let cfg: TestConfig = Toml.parse(data).unwrap();
    assert_eq!(cfg, TestConfig { name: "tömł".to_string(), value: 7 });
}

#[test]
fn any_format_decodes_like_the_format_it_names() {
    let data = r#"{ "name": "json", "value": 1 }"#.as_bytes();
    let by_enum: TestConfig = AnyFormat::Json.parse(data).unwrap();
    let by_struct: TestConfig = Json.parse(data).unwrap();
    assert_eq!(by_enum, by_struct);
    let data = "name: yaml\nvalue: 3".as_bytes();
    let by_enum: TestConfig = AnyFormat::Yaml.parse(data).unwrap();
    assert_eq!(by_enum, TestConfig { name: "yaml".to_string(), value: 3 });
}

#[test]
fn formats_claim_their_extensions_in_order() {
    assert_eq!(Json.extensions(), &["json"]);
    assert_eq!(Toml.extensions(), &["toml"]);
    assert_eq!(Yaml.extensions(), &["yaml", "yml"]);
    assert_eq!(Postcard.extensions(), &["bin", "post"]);
    assert_eq!(AnyFormat::Json.extensions(), &["json"]);
    assert_eq!(AnyFormat::Toml.extensions(), &["toml"]);
    assert_eq!(AnyFormat::Yaml.extensions(), &["yaml", "yml"]);
    assert_eq!(AnyFormat::Postcard.extensions(), &["bin", "post"]);
}

#[test]
fn primary_extension_is_the_first_or_unknown() {
    assert_eq!(primary_extension(Yaml.extensions()), "yaml");
    assert_eq!(primary_extension(Postcard.extensions()), "bin");
    assert_eq!(primary_extension(&[]), "unknown");
}

#[test]
fn only_toml_checks_the_payload_before_decoding() {
    let not_text: &[u8] = &[b'a', 0xc3, 0x28];
    for format in [AnyFormat::Json, AnyFormat::Yaml, AnyFormat::Postcard] {
        assert!(format.check_payload(not_text).is_ok(), "{:?}", format);
    }
    match AnyFormat::Toml.check_payload(not_text) {
        Err(FmtError::ParseError(detail)) => {
            assert_eq!(detail, std::str::from_utf8(not_text).unwrap_err().to_string())
        }
        other => panic!("expected a parse error, got {:?}", other),
    }
    assert!(AnyFormat::Toml.check_payload("a = 'é'".as_bytes()).is_ok());
    assert!(AnyFormat::Toml.check_payload(b"").is_ok());
    // Well-formed text that is not TOML passes the check and fails the decoder.
    assert!(AnyFormat::Toml.check_payload(b"= =").is_ok());
    let result: Result<TestConfig, FmtError> = Toml.parse(b"= =");
    assert!(matches!(result, Err(FmtError::ParseError(_))));
}
