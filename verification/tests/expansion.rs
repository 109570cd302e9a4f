use template_parser::Config;
use template_parser::Data;
use template_parser::get_parsed_content;
use template_parser::parse_json_data;

fn default_config() -> Config<'static> {
    Config {
        filename: "text.txt",
        json_filename: "",
        opening_tag: "<%",
        closing_tag: "%>",
    }
}

fn parse_data(raw: &str) -> Data {
    match parse_json_data(raw) {
        Ok(v) => v,
        Err(err) => panic!("{}", err.message()),
    }
}

#[test]
fn get_parsed_content_correct() {
    let content = String::from("Hello <% greet %>");
    let data = parse_data(r#"{"greet": "World"}"#);

    match get_parsed_content(content, &data, &default_config()) {
        Ok(v) => assert_eq!(v, String::from("Hello World")),
        Err(err) => panic!("could not parse: {}", err),
    }
}

#[test]
fn can_parse_multiple_vars() {
    let content = String::from("Hello <% greet %>. My name is <% name %>.");
    let data = parse_data(r#"{"greet": "World", "name": "Aykut"}"#);

    match get_parsed_content(content, &data, &default_config()) {
        Ok(v) => assert_eq!(v, String::from("Hello World. My name is Aykut.")),
        Err(err) => panic!("could not parse: {}", err),
    }
}

#[test]
fn missing_data() {
    let content = String::from("Hello <% greet %>. My name is <% name %>.");
    let data = parse_data(r#"{}"#);

    match get_parsed_content(content, &data, &default_config()) {
        Ok(v) => assert_eq!(v, String::from("Hello . My name is .")),
        Err(err) => panic!("could not parse: {}", err),
    };
}

#[test]
fn single_placeholder_between_text() {
    let content = String::from("A<%k%>B");
    let data = parse_data(r#"{"k": "V"}"#);

    let v = get_parsed_content(content, &data, &default_config()).unwrap();
    assert_eq!(v, "AVB");
}

#[test]
fn no_opening_tag_returns_template_unchanged() {
    let content = String::from("Hello there, nothing to fill in.");
    let data = parse_data(r#"{"greet": "World"}"#);

    let v = get_parsed_content(content, &data, &default_config()).unwrap();
    assert_eq!(v, "Hello there, nothing to fill in.");
}

#[test]
fn empty_template_stays_empty() {
    let data = parse_data(r#"{"greet": "World"}"#);

    let v = get_parsed_content(String::new(), &data, &default_config()).unwrap();
    assert_eq!(v, "");
}

#[test]
fn unterminated_tag_left_verbatim() {
    let content = String::from("Hello <% greet");
    let data = parse_data(r#"{"greet": "World"}"#);

    let v = get_parsed_content(content, &data, &default_config()).unwrap();
    assert_eq!(v, "Hello <% greet");
}

#[test]
fn whitespace_around_key_is_trimmed() {
    let data = parse_data(r#"{"greet": "World"}"#);

    let spaced = get_parsed_content(
        String::from("Hello <%   greet   %>!"),
        &data,
        &default_config(),
    )
    .unwrap();
    let tight = get_parsed_content(String::from("Hello <%greet%>!"), &data, &default_config())
        .unwrap();
    assert_eq!(spaced, "Hello World!");
    assert_eq!(spaced, tight);
}

#[test]
fn non_string_values_resolve_to_empty() {
    let content = String::from("<%n%>|<%b%>|<%o%>|<%a%>|<%z%>|<%missing%>");
    let data = parse_data(r#"{"n": 5, "b": true, "o": {"x": "y"}, "a": ["s"], "z": null}"#);

    let v = get_parsed_content(content, &data, &default_config()).unwrap();
    assert_eq!(v, "|||||");
}

#[test]
fn non_object_data_resolves_all_to_empty() {
    let content = String::from("x<%k%>y");
    let data = parse_data(r#"["k", "v"]"#);

    let v = get_parsed_content(content, &data, &default_config()).unwrap();
    assert_eq!(v, "xy");
}

#[test]
fn custom_tags_delimit_placeholders() {
    let config = Config {
        filename: "text.txt",
        json_filename: "",
        opening_tag: "{{",
        closing_tag: "}}",
    };
    let content = String::from("Hello {{ greet }} and <% greet %>");
    let data = parse_data(r#"{"greet": "World"}"#);

    let v = get_parsed_content(content, &data, &config).unwrap();
    assert_eq!(v, "Hello World and <% greet %>");
}

#[test]
fn second_expansion_may_differ() {
    let data = parse_data(r#"{"outer": "<% inner %>", "inner": "X"}"#);

    let once = get_parsed_content(String::from("<% outer %>"), &data, &default_config())
        .unwrap();
    assert_eq!(once, "<% inner %>");
    let twice = get_parsed_content(once.clone(), &data, &default_config()).unwrap();
    assert_eq!(twice, "X");
    assert_ne!(once, twice);
}

#[test]
fn closing_tag_before_placeholder_is_literal_text() {
    let content = String::from("a %> b <% k %> c");
    let data = parse_data(r#"{"k": "V"}"#);

    let v = get_parsed_content(content, &data, &default_config()).unwrap();
    assert_eq!(v, "a %> b V c");
}

#[test]
fn closing_tag_only_before_opening_tag_leaves_template_unchanged() {
    let content = String::from("a %> b <% k");
    let data = parse_data(r#"{"k": "V"}"#);

    let v = get_parsed_content(content, &data, &default_config()).unwrap();
    assert_eq!(v, "a %> b <% k");
}

#[test]
fn invalid_json_is_reported() {
    let r = parse_json_data("{\"greet\": ");
    assert!(r.is_err());
    assert!(!r.err().unwrap().message().is_empty());
}

#[test]
fn value_inside_text_is_substituted_in_place() {
    let content = String::from("a <% k %> b <% k %> c");
    let data = parse_data(r#"{"k": "-"}"#);

    let v = get_parsed_content(content, &data, &default_config()).unwrap();
    assert_eq!(v, "a - b - c");
}
