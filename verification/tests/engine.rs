use parsecomb::{EntityTable, Parse, Parser};

#[test]
fn parser_tag_test1() {
    let mut testdoc = Parser {
        document: "<doc>".to_string(),
        dtdgenentities: Default::default(),
    };
    let parse_doc = testdoc.tag("<");
    assert_eq!(Ok((1, ())), parse_doc.parse(&mut testdoc, 0));
}

#[test]
fn parser_tag_test2() {
    let mut testdoc = Parser {
        document: "<doc>".to_string(),
        dtdgenentities: Default::default(),
    };
    let parse_doc = testdoc.tag(">");
    assert_eq!(Err(0), parse_doc.parse(&mut testdoc, 0));
}

#[test]
fn parser_pair1() {
    let mut testdoc = Parser {
        document: "<doc>".to_string(),
        dtdgenentities: Default::default(),
    };
    let parse_doc = testdoc.pair(testdoc.tag("<"), testdoc.tag("doc"));
    assert_eq!(Ok((4, ((), ()))), parse_doc.parse(&mut testdoc, 0));
}

#[test]
fn parser_tuple3_test1() {
    let mut testdoc = Parser {
        document: "<doc>".to_string(),
        dtdgenentities: Default::default(),
    };
    let parse_doc = testdoc.tuple3(testdoc.tag("<"), testdoc.tag("doc"), testdoc.tag(">"));
    assert_eq!(Ok((5, ((), (), ()))), parse_doc.parse(&mut testdoc, 0));
}

#[test]
fn parser_tuple3_test2() {
    let mut testdoc = Parser {
        document: "<doc>".to_string(),
        dtdgenentities: Default::default(),
    };
    let parse_doc = testdoc.tuple3(testdoc.tag("<"), testdoc.tag("doc"), testdoc.tag("<"));
    assert_eq!(Err(4), parse_doc.parse(&mut testdoc, 0));
}

#[test]
fn parser_many0_test1() {
    let mut testdoc = Parser {
        document: "<<<<>".to_string(),
        dtdgenentities: Default::default(),
    };
    let parse_doc = testdoc.many0(testdoc.tag("<"));
    assert_eq!(Ok((4, vec![(), (), (), ()])), parse_doc.parse(&mut testdoc, 0));
}

#[test]
fn parser_many1_test1() {
    let mut testdoc = Parser {
        document: "<<<<>".to_string(),
        dtdgenentities: Default::default(),
    };
    let parse_doc = testdoc.many1(testdoc.tag("<"));
    assert_eq!(Ok((4, vec![(), (), (), ()])), parse_doc.parse(&mut testdoc, 0));
}

#[test]
fn parser_many1_test2() {
    let mut testdoc = Parser {
        document: ">>>>".to_string(),
        dtdgenentities: Default::default(),
    };
    let parse_doc = testdoc.many1(testdoc.tag("<"));
    assert_eq!(Err(0), parse_doc.parse(&mut testdoc, 0));
}

#[test]
fn parser_alt2_test1() {
    let mut testdoc = Parser {
        document: "<<>".to_string(),
        dtdgenentities: Default::default(),
    };
    let parse_doc = testdoc.alt2(testdoc.tag(">"), testdoc.tag("<<"));
    assert_eq!(Ok((2, ())), parse_doc.parse(&mut testdoc, 0));
}

#[test]
fn parser_opt_test1() {
    let mut testdoc = Parser {
        document: "AC".to_string(),
        dtdgenentities: Default::default(),
    };
    let parse_doc = testdoc.tuple3(
        testdoc.tag("A"),
        testdoc.opt(testdoc.tag("B")),
        testdoc.tag("C"),
    );
    assert_eq!(Ok((2, ((), None, ()))), parse_doc.parse(&mut testdoc, 0));
}

#[test]
fn parser_map_test1() {
    let mut testdoc = Parser {
        document: "AAAAB".to_string(),
        dtdgenentities: Default::default(),
    };
    let parse_doc = testdoc.map(testdoc.many0(testdoc.tag("A")), |result| result.len());
    assert_eq!(Ok((4, 4)), parse_doc.parse(&mut testdoc, 0));
}

#[test]
fn parser_delimited_test1() {
    let mut testdoc = Parser {
        document: "AC".to_string(),
        dtdgenentities: Default::default(),
    };
    let parse_doc = testdoc.delimited(
        testdoc.tag("A"),
        testdoc.opt(testdoc.tag("B")),
        testdoc.tag("C"),
    );
    assert_eq!(Ok((2, (None))), parse_doc.parse(&mut testdoc, 0));
}

#[test]
fn parser_value_test1() {
    let mut testdoc = Parser {
        document: "AAA".to_string(),
        dtdgenentities: Default::default(),
    };
    let parse_doc = testdoc.value(testdoc.tag("A"), "B");
    assert_eq!(Ok((1, "B")), parse_doc.parse(&mut testdoc, 0));
}

#[test]
fn parser_none_of_test1() {
    let mut testdoc = Parser {
        document: "AAAA".to_string(),
        dtdgenentities: Default::default(),
    };
    let parse_doc = testdoc.none_of("BCD".to_string());
    assert_eq!(Ok((1, "A".to_string())), parse_doc.parse(&mut testdoc, 0));
}

#[test]
fn parser_none_of_test2() {
    let mut testdoc = Parser {
        document: "AAAA".to_string(),
        dtdgenentities: Default::default(),
    };
    let parse_doc = testdoc.none_of("ABCD".to_string());
    assert_eq!(Err(0), parse_doc.parse(&mut testdoc, 0));
}

#[test]
fn parser_take_until1() {
    let mut testdoc = Parser {
        document: "AXBYCZ".to_string(),
        dtdgenentities: Default::default(),
    };
    let parse_doc = testdoc.take_until("Y");
    assert_eq!(Ok((3, "AXB".to_string())), parse_doc.parse(&mut testdoc, 0));
}

#[test]
fn parser_map_test2() {
    let mut testdoc = Parser {
        document: "AXBYCZ".to_string(),
        dtdgenentities: Default::default(),
    };
    let parse_doc = testdoc.map(
        testdoc.tuple3(
            testdoc.take_until("X"),
            testdoc.take_until("Y"),
            testdoc.take_until("Z"),
        ),
        |(a, b, c)| (a, b, c),
    );
    assert_eq!(
        Ok((5, ("A".to_string(), "XB".to_string(), "YC".to_string()))),
        parse_doc.parse(&mut testdoc, 0)
    );
}

fn entity_table() -> EntityTable {
    let mut table = EntityTable::new();
    table.insert("ENTITY", "ENTITYRESULT".to_string());
    table
}

#[test]
fn parser_map_test3() {
    let mut testdoc = Parser {
        document: "BEFOREENTITY&ENTITY;AFTERENTITYX".to_string(),
        dtdgenentities: entity_table(),
    };
    let parse_doc = testdoc.map(
        testdoc.tuple3(
            testdoc.take_until("X"),
            testdoc.take_until("Y"),
            testdoc.take_until("Z"),
        ),
        |(a, b, c): (String, String, String)| (a, b, c),
    );
    // The first "X" is the last byte of the document, and no "Y" follows it.
    assert_eq!(Err(31), parse_doc.parse(&mut testdoc, 0));
}

#[test]
fn parser_entityexpander2_test1() {
    let mut testdoc = Parser {
        document: "BEFOREENTITY&ENTITY;AFTERENTITYX".to_string(),
        dtdgenentities: entity_table(),
    };
    let parse_doc = testdoc.tuple3(
        testdoc.take_until("&"),
        testdoc.entityexpander2(),
        testdoc.take_until("X"),
    );
    assert_eq!(
        Ok((
            35,
            (
                "BEFOREENTITY".to_string(),
                "".to_string(),
                "ENTITYRESULTAFTERENTITY".to_string()
            )
        )),
        parse_doc.parse(&mut testdoc, 0)
    );
    assert_eq!(testdoc.document, "BEFOREENTITYENTITYRESULTAFTERENTITYX");
}
