use engine_render::export::{
    expand, root, word_token, Access, Attribute, Export, ExportError, Field, Refusal, Shape, Token,
};
use engine_render::scripts::{beside_editor, check_registry, file_name, library_to_load};
use engine_render::text::{
    chars, comes_before, lines, parse, show, show_hex, text, trim, trim_end,
};

fn word(t: &str) -> Token {
    Token::Word {
        text: t.to_string(),
        keyword: false,
    }
}

fn routed(get: &str, set: &str) -> Vec<Token> {
    vec![
        word("get"),
        Token::Eq,
        word(get),
        Token::Comma,
        word("set"),
        Token::Eq,
        word(set),
    ]
}

fn field(name: &str, export: Option<Attribute>) -> Field {
    Field {
        name: name.to_string(),
        ty: "f32".to_string(),
        export,
    }
}

fn refused(tokens: Vec<Token>) -> ExportError {
    let fields = vec![field("a", Some(Attribute::List(tokens)))];
    match expand("Player", &Shape::Named(fields)) {
        Err(e) => {
            assert_eq!(e.field, Some(0));
            e.error
        }
        Ok(_) => panic!("accepted"),
    }
}

fn keyword(t: &str) -> Token {
    Token::Word {
        text: t.to_string(),
        keyword: true,
    }
}

fn told(tokens: Vec<Token>, again: Vec<Token>) -> String {
    refused(tokens).message(&again)
}

fn accepted(fields: Vec<Field>) -> Export {
    match expand("Player", &Shape::Named(fields)) {
        Ok(e) => e,
        Err(e) => panic!("{e:?}"),
    }
}

fn field_of(a: Option<Access>) -> Option<String> {
    match a {
        Some(Access::Field(f)) => Some(f),
        _ => None,
    }
}

fn method_of(a: Option<Access>) -> Option<String> {
    match a {
        Some(Access::Method(m)) => Some(m),
        _ => None,
    }
}

#[test]
fn exported_fields_become_properties() {
    let mut tokens = routed("mesh_id", "set_mesh");
    tokens.push(Token::Comma);
    let export = accepted(vec![
        field("mesh", Some(Attribute::List(tokens))),
        field("speed", None),
        field("up", Some(Attribute::Bare)),
        field("target", Some(Attribute::List(vec![]))),
    ]);
    assert_eq!(export.name, "Player");
    let props = export.props;
    assert_eq!(props.len(), 3);
    assert_eq!(props[0].get.as_deref(), Some("mesh_id"));
    assert_eq!(props[0].set.as_deref(), Some("set_mesh"));
    assert_eq!((props[1].name.as_str(), &props[1].get), ("up", &None));
    assert_eq!(props[2].ty, "f32");
}

#[test]
fn later_keys_replace_earlier_ones() {
    let mut tokens = routed("a", "b");
    tokens.push(Token::Comma);
    tokens.extend(routed("c", "d"));
    let props = accepted(vec![field("x", Some(Attribute::List(tokens)))]).props;
    assert_eq!(props[0].get.as_deref(), Some("c"));
    assert_eq!(props[0].set.as_deref(), Some("d"));
}

#[test]
fn names_reach_only_exported_fields() {
    let e = accepted(vec![
        field("mesh", Some(Attribute::List(routed("mesh_id", "set_mesh")))),
        field("speed", None),
        field("up", Some(Attribute::Bare)),
    ]);
    assert_eq!(method_of(e.get("mesh")).as_deref(), Some("mesh_id"));
    assert_eq!(method_of(e.set("mesh", true)).as_deref(), Some("set_mesh"));
    assert!(e.set("mesh", false).is_none(), "the type does not take it");
    assert_eq!(field_of(e.get("up")).as_deref(), Some("up"));
    assert_eq!(field_of(e.set("up", true)).as_deref(), Some("up"));
    assert!(e.get("speed").is_none() && e.set("speed", true).is_none());
    assert!(e.get("").is_none() && e.set("mesh_id", true).is_none());
}

#[test]
fn bad_attributes_are_refused() {
    let other = Refusal {
        field: None,
        error: ExportError::NotNamedStruct,
    };
    assert_eq!(expand("Player", &Shape::Other).err(), Some(other));
    assert_eq!(refused(vec![word("get"), Token::Eq, word("f")]), ExportError::Unpaired);
    assert_eq!(
        refused(vec![word("put"), Token::Eq, word("f")]),
        ExportError::UnknownKey { from: 0, to: 1 }
    );
    assert_eq!(
        refused(vec![word("get"), Token::PathSep, word("x"), Token::Eq, word("f")]),
        ExportError::UnknownKey { from: 0, to: 3 }
    );
    assert_eq!(
        refused(vec![Token::PathSep, word("get"), Token::Eq, word("f")]),
        ExportError::UnknownKey { from: 1, to: 2 }
    );
    assert_eq!(
        refused(vec![word("get"), Token::PathSep]),
        ExportError::ExpectedSegment { at: 2 }
    );
    assert_eq!(refused(vec![Token::PathSep]), ExportError::ExpectedNested);
    assert_eq!(refused(vec![Token::Literal]), ExportError::UnexpectedLiteral { at: 0 });
    assert_eq!(
        refused(vec![Token::PathSep, Token::Comma]),
        ExportError::UnexpectedToken { at: 1 }
    );
    assert_eq!(refused(vec![word("get")]), ExportError::ExpectedEq { at: 1 });
    assert_eq!(
        refused(vec![word("get"), Token::Eq]),
        ExportError::ExpectedIdent { at: 2 }
    );
    assert_eq!(
        refused(vec![word("get"), Token::Eq, keyword("type")]),
        ExportError::Keyword { at: 2 }
    );
    assert_eq!(
        refused(vec![word("get"), Token::Eq, word("f"), Token::Other]),
        ExportError::ExpectedComma { at: 3 }
    );
    let fields = vec![
        field("z", None),
        field("a", Some(Attribute::NameValue)),
        field("b", Some(Attribute::List(vec![Token::Comma]))),
    ];
    let first = Refusal {
        field: Some(1),
        error: ExportError::NotAList,
    };
    let e = expand("Player", &Shape::Named(fields)).err();
    assert_eq!(e, Some(first), "the first error wins");
}

#[test]
fn keywords_are_the_words_that_name_nothing() {
    for (t, expected) in [
        ("speed", false),
        ("type", true),
        ("Self", true),
        ("_", true),
        ("_a1", false),
        ("union", false),
        ("r#type", false),
        ("größe", false),
        ("", false),
        ("1a", false),
    ] {
        match word_token(t) {
            Token::Word { text, keyword } => assert_eq!((text.as_str(), keyword), (t, expected)),
            _ => panic!("no word"),
        }
    }
    let tokens = vec![word_token("get"), Token::Eq, word_token("fn")];
    assert_eq!(refused(tokens), ExportError::Keyword { at: 2 });
}

#[test]
fn refusals_say_what_was_expected() {
    let none = vec![];
    assert_eq!(
        ExportError::NotNamedStruct.message(&none),
        "#[derive(Export)] needs a struct with named fields"
    );
    assert_eq!(
        ExportError::Unpaired.message(&none),
        "`get` and `set` come as a pair — give both, or neither for plain field access"
    );
    assert_eq!(
        ExportError::NotAList.message(&none),
        "expected parentheses: #[export(...)]"
    );
    assert_eq!(
        told(vec![word("put")], vec![word("put")]),
        "expected `get` or `set`"
    );
    assert_eq!(
        told(vec![Token::PathSep], vec![Token::PathSep]),
        "unexpected end of input, expected nested attribute"
    );
    assert_eq!(
        told(vec![Token::Literal], vec![Token::Literal]),
        "unexpected literal in nested attribute, expected ident"
    );
    assert_eq!(
        told(vec![Token::Comma], vec![Token::Comma]),
        "unexpected token in nested attribute, expected ident"
    );
    assert_eq!(told(vec![word("get")], vec![word("get")]), "expected `=`");
    assert_eq!(
        told(vec![word("get"), Token::Eq], vec![word("get"), Token::Eq]),
        "unexpected end of input, expected identifier"
    );
    assert_eq!(
        told(
            vec![word("get"), Token::Eq, Token::Literal],
            vec![word("get"), Token::Eq, Token::Literal]
        ),
        "expected identifier"
    );
    assert_eq!(
        told(
            vec![word("set"), Token::Eq, keyword("type")],
            vec![word("set"), Token::Eq, keyword("type")]
        ),
        "expected identifier, found keyword `type`"
    );
    assert_eq!(
        told(
            vec![word("get"), Token::PathSep],
            vec![word("get"), Token::PathSep]
        ),
        "unexpected end of input, expected ident"
    );
    assert_eq!(
        told(
            vec![word("get"), Token::PathSep, Token::Eq],
            vec![word("get"), Token::PathSep, Token::Eq]
        ),
        "expected ident"
    );
    assert_eq!(
        told(
            vec![word("get"), Token::Eq, word("f"), Token::Eq],
            vec![word("get"), Token::Eq, word("f"), Token::Eq]
        ),
        "expected `,`"
    );
}

#[test]
fn generated_paths_start_at_what_is_there() {
    assert_eq!(root(Some("engine-core"), Some("engine")), "::engine_core");
    assert_eq!(root(None, Some("my-engine")), "::my_engine::engine_core");
    assert_eq!(root(None, None), "::engine_core");
}

#[test]
fn script_crates_are_named_after_their_project() {
    assert_eq!(file_name("crates/test-game"), "test_game_scripts");
    assert_eq!(file_name("crates/test-game/"), "test_game_scripts");
    assert_eq!(file_name("a/b/./"), "b_scripts");
    assert_eq!(file_name("a/.."), "_scripts");
    assert_eq!(file_name("/"), "_scripts");
    assert_eq!(file_name("."), "_scripts");
    assert_eq!(file_name(""), "_scripts");
    assert_eq!(beside_editor("/opt/bin", "x_scripts"), "/opt/bin/libx_scripts.so");
}

#[test]
fn unbuilt_scripts_are_an_error() {
    assert_eq!(library_to_load("p", false, None), Ok(None));
    assert_eq!(library_to_load("p", true, Some("/l.so")), Ok(Some("/l.so".to_string())));
    assert_eq!(
        library_to_load("crates/my-game", true, None),
        Err("crates/my-game has a scripts crate but libmy_game_scripts.so is not built".to_string())
    );
    assert_eq!(check_registry("/l.so", 5, 5), Ok(()));
    assert_eq!(
        check_registry("/l.so", 5, 6),
        Err(
            "/l.so has its own copy of the engine's statics — build both with \
             `-C prefer-dynamic` so they share one libengine_core.so"
                .to_string()
        )
    );
}

#[test]
fn text_is_read_as_std_reads_it() {
    for t in ["", "a", "a\n", "a\r\nb", "\n\n", "a\r", "x\ny\n\nz"] {
        let got: Vec<String> = lines(&chars(t)).iter().map(text).collect();
        let want: Vec<String> = t.lines().map(|l| l.to_string()).collect();
        assert_eq!(got, want);
    }
    for t in ["", " a ", "\u{2003}b\u{3000}", "c", "\t\n"] {
        assert_eq!(text(&trim(&chars(t))), t.trim());
        assert_eq!(text(&trim_end(&chars(t))), t.trim_end());
    }
    for t in ["0", "+5", "+", "", "12x", "255", "256", "007"] {
        assert_eq!(parse(&chars(t), 10, 255), t.parse::<u8>().ok().map(u64::from));
    }
    for t in ["ff", "FF", "g", "7f00"] {
        assert_eq!(parse(&chars(t), 16, u64::MAX), u64::from_str_radix(t, 16).ok());
    }
    for n in [0, 7, 10, 255, 4096, u64::MAX] {
        assert_eq!(show(n), n.to_string());
        assert_eq!(show_hex(n), format!("{n:x}"));
    }
    for (a, b) in [("card1", "card10"), ("card2", "card10"), ("a", "a"), ("", "x")] {
        assert_eq!(comes_before(&chars(a), &chars(b)), a < b);
    }
}
