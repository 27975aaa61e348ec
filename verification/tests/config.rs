use lg600r::config::{
    configuration_from_document, parse_binding, parse_config_from_toml_string, parse_scancode,
    BindingType, ConfigError,
};
use lg600r::document::{find, find_integer, find_table, find_text, parse_document, Node};
use lg600r::keys::Key;

#[test]
fn test_parse_config() -> () {
    println!("Starting test...");
    let input = r#"
        [bindings]
        12 = "tadah"
        09 = "wooo"
        113 = { type = "mouse", button = 9 }
        115 = { type = "keyboard", key = "F1" }

        [scancodes]
        # non-shifted keys
        007 = 8
        008 = 26
        009 = 30
        010 = 31
        011 = 32
        012 = 33
        013 = 34
        014 = 35
        015 = 36
        016 = 37
        017 = 38
        018 = 39
        019 = 45
        020 = 46
        # g-shifted keys
        104 = 80 # G-shift Backward
        105 = 79 # G-shift Forward
        107 = 81
        108 = 82
        109 = 4
        110 = 17
        111 = 12
        112 = 11
        113 = 7
        114 = 28
        115 = 24
        116 = 13
        117 = 10
        118 = 6
        119 = 25
        120 = 19
    "#;
    let res = parse_config_from_toml_string(&String::from(input)).expect("Must pass");
    assert_eq!(
        res.bindings[0],
        (9u32, BindingType::Command("wooo".to_string()))
    );
    assert_eq!(res.bindings[1], (113u32, BindingType::EmulateMouse(9)));
    assert_eq!(
        res.bindings[2],
        (115u32, BindingType::EmulateKey(Key::F1))
    );
    assert_eq!(
        res.bindings[3],
        (12u32, BindingType::Command("tadah".to_string()))
    );
}

fn text(s: &str) -> Node {
    Node::Text(s.to_string())
}

fn table(entries: &[(&str, Node)]) -> Node {
    Node::Table(entries_of(entries))
}

fn entries_of(entries: &[(&str, Node)]) -> Vec<(String, Node)> {
    let mut out = Vec::new();
    for (name, node) in entries {
        let node = match node {
            Node::Text(s) => Node::Text(s.clone()),
            Node::Integer(i) => Node::Integer(*i),
            Node::Table(t) => {
                let borrowed: Vec<(&str, Node)> =
                    t.iter().map(|(n, v)| (n.as_str(), copy_of(v))).collect();
                Node::Table(entries_of(&borrowed))
            }
            Node::Other => Node::Other,
        };
        out.push((name.to_string(), node));
    }
    out
}

fn copy_of(node: &Node) -> Node {
    match node {
        Node::Text(s) => Node::Text(s.clone()),
        Node::Integer(i) => Node::Integer(*i),
        Node::Table(t) => Node::Table(t.iter().map(|(n, v)| (n.clone(), copy_of(v))).collect()),
        Node::Other => Node::Other,
    }
}

fn parse(input: &str) -> Result<lg600r::config::Configuration, ConfigError> {
    parse_config_from_toml_string(&input.to_string())
}

fn name(s: &str) -> String {
    s.to_string()
}

#[test]
fn scancodes_are_read_in_the_order_of_their_names() {
    let config = parse(
        r#"
        [scancodes]
        20 = 46
        007 = 8
        113 = "7"
        9 = 30
        [bindings]
        "#,
    )
    .unwrap();
    assert_eq!(config.scancodes, vec![(7, 8), (113, 7), (20, 46), (9, 30)]);
    assert!(config.bindings.is_empty());
}

#[test]
fn document_is_a_tree_of_plain_values() {
    let document = parse_document(
        r#"
        title = "x"
        count = 3
        ratio = 1.5
        flag = true
        list = [1, 2]
        [bindings]
        113 = { type = "mouse", button = 9 }
        "#,
    )
    .unwrap();
    assert_eq!(
        document,
        entries_of(&[
            (
                "bindings",
                table(&[("113", table(&[("button", Node::Integer(9)), ("type", text("mouse"))]))])
            ),
            ("count", Node::Integer(3)),
            ("flag", Node::Other),
            ("list", Node::Other),
            ("ratio", Node::Other),
            ("title", text("x")),
        ])
    );
    assert_eq!(parse_document(""), Ok(vec![]));
}

#[test]
fn text_that_is_no_document_is_a_syntax_error() {
    assert!(parse_document("[bindings").is_err());
    assert!(parse_document("a = ").is_err());
    assert!(parse_document("a = 1\na = 2").is_err());
    assert!(matches!(parse("[bindings"), Err(ConfigError::Syntax(_))));
    assert!(matches!(parse("= 3"), Err(ConfigError::Syntax(_))));
    match parse("[bindings") {
        Err(ConfigError::Syntax(message)) => assert!(!message.is_empty()),
        other => panic!("{:?}", other),
    }
}

#[test]
fn both_tables_are_needed() {
    assert_eq!(parse("").unwrap_err(), ConfigError::MissingBindings);
    assert_eq!(parse("[scancodes]\n9 = 30").unwrap_err(), ConfigError::MissingBindings);
    assert_eq!(parse("bindings = 3\n[scancodes]").unwrap_err(), ConfigError::MissingBindings);
    assert_eq!(parse("[bindings]\n9 = \"x\"").unwrap_err(), ConfigError::MissingScancodes);
    assert_eq!(parse("scancodes = \"x\"\n[bindings]").unwrap_err(), ConfigError::MissingScancodes);
    let config = parse("other = 1\n[bindings]\n[scancodes]\n[more]\nx = 1").unwrap();
    assert!(config.bindings.is_empty());
    assert!(config.scancodes.is_empty());
}

#[test]
fn binding_entries() {
    assert_eq!(
        parse_binding(&name("09"), &text("wooo")),
        Ok((9, BindingType::Command("wooo".to_string())))
    );
    assert_eq!(
        parse_binding(&name("113"), &table(&[("type", text("mouse")), ("button", Node::Integer(9))])),
        Ok((113, BindingType::EmulateMouse(9)))
    );
    // of the button's number the lowest eight bits count
    assert_eq!(
        parse_binding(&name("1"), &table(&[("type", text("mouse")), ("button", Node::Integer(265))])),
        Ok((1, BindingType::EmulateMouse(9)))
    );
    assert_eq!(
        parse_binding(&name("1"), &table(&[("type", text("mouse")), ("button", Node::Integer(-1))])),
        Ok((1, BindingType::EmulateMouse(255)))
    );
    assert_eq!(
        parse_binding(&name("115"), &table(&[("type", text("keyboard")), ("key", text("F1"))])),
        Ok((115, BindingType::EmulateKey(Key::F1)))
    );
    assert_eq!(
        parse_binding(&name("115"), &table(&[("key", text("Super")), ("type", text("keyboard"))])),
        Ok((115, BindingType::EmulateKey(Key::SuperL)))
    );
}

#[test]
fn binding_entries_at_fault() {
    assert_eq!(
        parse_binding(&name("x9"), &text("wooo")),
        Err(ConfigError::InvalidGKey(name("x9")))
    );
    assert_eq!(
        parse_binding(&name("x9"), &table(&[])),
        Err(ConfigError::InvalidGKey(name("x9")))
    );
    assert_eq!(
        parse_binding(&name("9"), &Node::Integer(3)),
        Err(ConfigError::UnsupportedBinding(name("9")))
    );
    assert_eq!(
        parse_binding(&name("x9"), &Node::Other),
        Err(ConfigError::UnsupportedBinding(name("x9")))
    );
    assert_eq!(parse_binding(&name("9"), &table(&[])), Err(ConfigError::MissingType(name("9"))));
    assert_eq!(
        parse_binding(&name("9"), &table(&[("type", Node::Integer(1))])),
        Err(ConfigError::MissingType(name("9")))
    );
    assert_eq!(
        parse_binding(&name("9"), &table(&[("type", text("Mouse"))])),
        Err(ConfigError::UnknownType(name("9")))
    );
    assert_eq!(
        parse_binding(&name("9"), &table(&[("type", text("mouse"))])),
        Err(ConfigError::MissingButton(name("9")))
    );
    assert_eq!(
        parse_binding(&name("9"), &table(&[("type", text("mouse")), ("button", text("9"))])),
        Err(ConfigError::MissingButton(name("9")))
    );
    assert_eq!(
        parse_binding(&name("9"), &table(&[("type", text("keyboard"))])),
        Err(ConfigError::MissingKey(name("9")))
    );
    assert_eq!(
        parse_binding(&name("9"), &table(&[("type", text("keyboard")), ("key", Node::Integer(1))])),
        Err(ConfigError::MissingKey(name("9")))
    );
    assert_eq!(
        parse_binding(&name("9"), &table(&[("type", text("keyboard")), ("key", text("F99"))])),
        Err(ConfigError::UnknownKey(name("9")))
    );
    assert_eq!(
        parse_binding(&name("9"), &table(&[("type", text("keyboard")), ("key", text("Layout"))])),
        Err(ConfigError::UnknownKey(name("9")))
    );
}

#[test]
fn scancode_entries() {
    assert_eq!(parse_scancode(&name("007"), &Node::Integer(8)), Ok((7, 8)));
    assert_eq!(parse_scancode(&name("7"), &text("08")), Ok((7, 8)));
    // of a whole number the lowest 32 bits count
    assert_eq!(parse_scancode(&name("7"), &Node::Integer(-1)), Ok((7, u32::MAX)));
    assert_eq!(parse_scancode(&name("7"), &Node::Integer(0x1_0000_0005)), Ok((7, 5)));
    assert_eq!(
        parse_scancode(&name("g7"), &Node::Integer(8)),
        Err(ConfigError::InvalidGKey(name("g7")))
    );
    assert_eq!(
        parse_scancode(&name("g7"), &Node::Other),
        Err(ConfigError::InvalidGKey(name("g7")))
    );
    assert_eq!(
        parse_scancode(&name("7"), &text("eight")),
        Err(ConfigError::InvalidScancode(name("7")))
    );
    assert_eq!(
        parse_scancode(&name("7"), &Node::Other),
        Err(ConfigError::InvalidScancode(name("7")))
    );
    assert_eq!(
        parse_scancode(&name("7"), &table(&[])),
        Err(ConfigError::InvalidScancode(name("7")))
    );
}

#[test]
fn first_entry_at_fault_decides() {
    let error = parse(
        r#"
        [bindings]
        1 = "fine"
        2 = 5
        3 = { type = "joystick" }
        [scancodes]
        x = 1
        "#,
    )
    .unwrap_err();
    assert_eq!(error, ConfigError::UnsupportedBinding(name("2")));
    let error = parse(
        r#"
        [bindings]
        1 = "fine"
        3 = { type = "joystick" }
        [scancodes]
        x = 1
        "#,
    )
    .unwrap_err();
    assert_eq!(error, ConfigError::UnknownType(name("3")));
    let error = parse(
        r#"
        [bindings]
        1 = "fine"
        [scancodes]
        1 = 1
        2 = 1.5
        x = 1
        "#,
    )
    .unwrap_err();
    assert_eq!(error, ConfigError::InvalidScancode(name("2")));
    let error = parse("[bindings]\n[scancodes]\nx = 1").unwrap_err();
    assert_eq!(error, ConfigError::InvalidGKey(name("x")));
}

#[test]
fn document_given_by_hand() {
    let document = entries_of(&[
        ("scancodes", table(&[("9", Node::Integer(30)), ("113", Node::Integer(7))])),
        (
            "bindings",
            table(&[
                ("9", text("echo hi")),
                ("113", table(&[("type", text("mouse")), ("button", Node::Integer(9))])),
            ]),
        ),
    ]);
    let config = configuration_from_document(&document).unwrap();
    assert_eq!(
        config.bindings,
        vec![(9, BindingType::Command("echo hi".to_string())), (113, BindingType::EmulateMouse(9))]
    );
    assert_eq!(config.scancodes, vec![(9, 30), (113, 7)]);
    assert_eq!(configuration_from_document(&vec![]).unwrap_err(), ConfigError::MissingBindings);
}

#[test]
fn fields_of_a_table() {
    let fields = entries_of(&[
        ("type", text("mouse")),
        ("button", Node::Integer(9)),
        ("inner", table(&[("a", Node::Integer(1))])),
        ("type", text("keyboard")),
        ("odd", Node::Other),
    ]);
    assert_eq!(find(&fields, "type"), Some(&text("mouse")));
    assert_eq!(find(&fields, "odd"), Some(&Node::Other));
    assert_eq!(find(&fields, "none"), None);
    assert_eq!(find_text(&fields, "type"), Some(&"mouse".to_string()));
    assert_eq!(find_text(&fields, "button"), None);
    assert_eq!(find_integer(&fields, "button"), Some(9));
    assert_eq!(find_integer(&fields, "type"), None);
    assert_eq!(find_table(&fields, "inner"), Some(&entries_of(&[("a", Node::Integer(1))])));
    assert_eq!(find_table(&fields, "type"), None);
    assert_eq!(find_table(&fields, "none"), None);
}
