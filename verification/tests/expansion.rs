use parsecomb::{EntityTable, Parse, Parser};

fn session(document: &str, entities: &[(&str, &str)]) -> Parser {
    let mut table = EntityTable::new();
    for (name, value) in entities {
        table.insert(name, value.to_string());
    }
    Parser {
        document: document.to_string(),
        dtdgenentities: table,
    }
}

#[test]
fn expansion_rewrites_the_document_in_place() {
    let mut doc = session("BEFORE&ENTITY;AFTER", &[("ENTITY", "EXPANDED")]);
    assert_eq!(Ok((6, "".to_string())), doc.entityexpander().parse(&mut doc, 6));
    assert_eq!("BEFOREEXPANDEDAFTER", doc.document);
}

#[test]
fn expansion_from_parts_rewrites_the_document_in_place() {
    let mut doc = session("BEFORE&ENTITY;AFTER", &[("ENTITY", "EXPANDED")]);
    assert_eq!(Ok((6, "".to_string())), doc.entityexpander2().parse(&mut doc, 6));
    assert_eq!("BEFOREEXPANDEDAFTER", doc.document);
}

#[test]
fn expansion_of_an_unknown_entity_fails_at_the_reference() {
    let mut doc = session("BEFORE&ENTITY;AFTER", &[("OTHER", "EXPANDED")]);
    assert_eq!(Err(6), doc.entityexpander().parse(&mut doc, 6));
    assert_eq!("BEFORE&ENTITY;AFTER", doc.document);
    assert_eq!(Err(6), doc.entityexpander2().parse(&mut doc, 6));
    assert_eq!("BEFORE&ENTITY;AFTER", doc.document);
    let mut bare = session("BEFORE&ENTITY;AFTER", &[]);
    assert_eq!(Err(6), bare.entityexpander().parse(&mut bare, 6));
    assert_eq!("BEFORE&ENTITY;AFTER", bare.document);
}

#[test]
fn expansion_fails_where_no_reference_stands() {
    let mut doc = session("BEFORE&ENTITY;AFTER", &[("ENTITY", "EXPANDED")]);
    assert_eq!(Err(0), doc.entityexpander().parse(&mut doc, 0));
    assert_eq!(Err(7), doc.entityexpander().parse(&mut doc, 7));
    assert_eq!(Err(19), doc.entityexpander().parse(&mut doc, 19));
    assert_eq!(Err(40), doc.entityexpander().parse(&mut doc, 40));
    assert_eq!(Err(0), doc.entityexpander2().parse(&mut doc, 0));
    assert_eq!("BEFORE&ENTITY;AFTER", doc.document);
}

#[test]
fn expansion_fails_where_the_reference_does_not_end() {
    let mut doc = session("a&bc", &[("bc", "x")]);
    assert_eq!(Err(2), doc.entityexpander().parse(&mut doc, 1));
    assert_eq!(Err(2), doc.entityexpander2().parse(&mut doc, 1));
    assert_eq!("a&bc", doc.document);
}

#[test]
fn expansion_takes_the_name_up_to_the_first_semicolon() {
    let mut doc = session("&a;b;", &[("a", "1"), ("a;b", "2")]);
    assert_eq!(Ok((0, "".to_string())), doc.entityexpander().parse(&mut doc, 0));
    assert_eq!("1b;", doc.document);
}

#[test]
fn expansion_with_an_empty_name_or_an_empty_text() {
    let mut doc = session("x&;y&e;z", &[("", "<>"), ("e", "")]);
    assert_eq!(Ok((1, "".to_string())), doc.entityexpander().parse(&mut doc, 1));
    assert_eq!("x<>y&e;z", doc.document);
    assert_eq!(Ok((4, "".to_string())), doc.entityexpander2().parse(&mut doc, 4));
    assert_eq!("x<>yz", doc.document);
}

#[test]
fn expansion_leaves_the_replacement_to_be_parsed_next() {
    let mut doc = session("&A;!", &[("A", "&B;"), ("B", "x")]);
    let expander = doc.entityexpander();
    assert_eq!(Ok((0, "".to_string())), expander.parse(&mut doc, 0));
    assert_eq!("&B;!", doc.document);
    assert_eq!(Ok((0, "".to_string())), expander.parse(&mut doc, 0));
    assert_eq!("x!", doc.document);
    assert_eq!(Err(0), expander.parse(&mut doc, 0));
    assert_eq!("x!", doc.document);
}

#[test]
fn expansion_in_a_sequence_is_followed_by_the_replacement() {
    let mut doc = session("BEFORE&ENTITY;AFTER", &[("ENTITY", "EXPANDED")]);
    let parser = doc.tuple3(
        doc.take_until("&"),
        doc.entityexpander(),
        doc.take_until("AFTER"),
    );
    assert_eq!(
        Ok((
            14,
            ("BEFORE".to_string(), "".to_string(), "EXPANDED".to_string())
        )),
        parser.parse(&mut doc, 0)
    );
    assert_eq!("BEFOREEXPANDEDAFTER", doc.document);
}

#[test]
fn expansion_in_a_repetition_walks_forward() {
    let mut doc = session("a&E;b&E;c", &[("E", "x")]);
    let parser = doc.many0(doc.pair(doc.take_until("&"), doc.entityexpander()));
    assert_eq!(
        Ok((
            3,
            vec![
                ("a".to_string(), "".to_string()),
                ("xb".to_string(), "".to_string())
            ]
        )),
        parser.parse(&mut doc, 0)
    );
    assert_eq!("axbxc", doc.document);
}

#[test]
fn expansion_keeps_the_text_before_and_after() {
    let mut doc = session("\u{e9}&E;\u{e9}", &[("E", "\u{20ac}\u{20ac}")]);
    assert_eq!(Err(1), doc.entityexpander().parse(&mut doc, 1));
    assert_eq!(Ok((2, "".to_string())), doc.entityexpander().parse(&mut doc, 2));
    assert_eq!("\u{e9}\u{20ac}\u{20ac}\u{e9}", doc.document);
    assert_eq!(Ok((8, ())), doc.tag("\u{20ac}").parse(&mut doc, 5));
}

#[test]
fn the_two_expanders_do_the_same() {
    let documents = ["&E;", "a&E;", "&E", "&;", "&X;", "E;", "", "&&E;;", "a&E;b&E;c"];
    for document in documents {
        for cursor in 0..document.len() + 2 {
            let mut one = session(document, &[("E", "long text"), ("", "e")]);
            let mut two = session(document, &[("E", "long text"), ("", "e")]);
            let first = one.entityexpander().parse(&mut one, cursor);
            let second = two.entityexpander2().parse(&mut two, cursor);
            assert_eq!(first, second);
            assert_eq!(one.document, two.document);
        }
    }
}

#[test]
fn entity_table_finds_what_was_inserted() {
    let mut table = EntityTable::new();
    assert_eq!(None, table.get("amp"));
    table.insert("amp", "&".to_string());
    table.insert("lt", "<".to_string());
    assert_eq!(Some(&"&".to_string()), table.get("amp"));
    assert_eq!(Some(&"<".to_string()), table.get("lt"));
    assert_eq!(None, table.get("gt"));
    assert_eq!(None, table.get("am"));
    assert_eq!(None, table.get(""));
}

#[test]
fn entity_table_keeps_one_text_for_a_name() {
    let mut table = EntityTable::new();
    table.insert("e", "first".to_string());
    table.insert("f", "other".to_string());
    table.insert("e", "second".to_string());
    assert_eq!(Some(&"second".to_string()), table.get("e"));
    assert_eq!(Some(&"other".to_string()), table.get("f"));
    let mut doc = Parser {
        document: "&e;".to_string(),
        dtdgenentities: table,
    };
    assert_eq!(Ok((0, "".to_string())), doc.entityexpander().parse(&mut doc, 0));
    assert_eq!("second", doc.document);
}

#[test]
fn entity_table_is_empty_by_default() {
    let table = EntityTable::default();
    assert_eq!(None, table.get("e"));
    let mut doc = Parser {
        document: "&e;".to_string(),
        dtdgenentities: table,
    };
    assert_eq!(Err(0), doc.entityexpander().parse(&mut doc, 0));
}
