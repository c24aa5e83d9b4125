// Documents of real-world vocabularies against schemas of those
// vocabularies: Atom, SVG, DocBook and XHTML.

use relaxng_validator::compiler::Compiler;
use relaxng_validator::datatype::Datatypes;
use relaxng_validator::model::{DefineRule, Grammar, NameClass, Pattern};
use relaxng_validator::restrictions::check_restrictions;
use relaxng_validator::span::Span;
use relaxng_validator::validator::Validator;
use xmlparser::Tokenizer;

const ATOM: &str = "http://www.w3.org/2005/Atom";
const SVG: &str = "http://www.w3.org/2000/svg";
const DOCBOOK: &str = "http://docbook.org/ns/docbook";
const XHTML: &str = "http://www.w3.org/1999/xhtml";

fn el(ns: &str, name: &str, content: Pattern) -> Pattern {
    Pattern::Element(
        NameClass::Named { namespace_uri: ns.to_string(), name: name.to_string() },
        Box::new(content),
    )
}

fn att_of(name: &str, content: Pattern) -> Pattern {
    Pattern::Attribute(
        NameClass::Named { namespace_uri: String::new(), name: name.to_string() },
        Box::new(content),
    )
}

fn att(name: &str) -> Pattern {
    att_of(name, Pattern::Text)
}

fn opt(p: Pattern) -> Pattern {
    Pattern::Optional(Box::new(p))
}

fn many(p: Pattern) -> Pattern {
    Pattern::ZeroOrMore(Box::new(p))
}

fn r(index: usize) -> Pattern {
    Pattern::Ref(Span::new(0, 0), format!("rule{index}"), index)
}

fn xsd(name: &str) -> Pattern {
    let datatype = Compiler.compile(&Span::new(0, 0), name, &[]).expect("a built-in type");
    Pattern::DatatypeName { datatype: Datatypes::Xsd(datatype), except: None }
}

fn opt_atts(names: &[&str]) -> Pattern {
    Pattern::Interleave(names.iter().map(|n| opt(att(n))).collect())
}

fn define(name: &str, pattern: Pattern) -> Option<DefineRule> {
    Some(DefineRule { name: name.to_string(), pattern })
}

fn start(pattern: Pattern) -> DefineRule {
    DefineRule { name: "start".to_string(), pattern }
}

/// The Atom vocabulary: a feed or a single entry.
fn atom_schema() -> (Grammar, DefineRule) {
    const ENTRY: usize = 0;
    let text_construct =
        |name: &str| el(ATOM, name, Pattern::Group(vec![opt(att("type")), Pattern::Text]));
    let person = |name: &str| {
        el(
            ATOM,
            name,
            Pattern::Interleave(vec![
                el(ATOM, "name", Pattern::Text),
                opt(el(ATOM, "uri", xsd("anyURI"))),
                opt(el(ATOM, "email", Pattern::Text)),
            ]),
        )
    };
    let link = || {
        el(
            ATOM,
            "link",
            Pattern::Interleave(vec![
                att_of("href", xsd("anyURI")),
                opt(att("rel")),
                opt(att("type")),
                opt(att("title")),
            ]),
        )
    };
    let category = || {
        el(
            ATOM,
            "category",
            Pattern::Interleave(vec![att("term"), opt(att("scheme")), opt(att("label"))]),
        )
    };
    let entry = el(
        ATOM,
        "entry",
        Pattern::Interleave(vec![
            text_construct("title"),
            el(ATOM, "id", xsd("anyURI")),
            el(ATOM, "updated", xsd("dateTime")),
            opt(el(ATOM, "published", xsd("dateTime"))),
            many(link()),
            many(category()),
            opt(text_construct("summary")),
            opt(text_construct("content")),
            many(person("author")),
        ]),
    );
    let feed = el(
        ATOM,
        "feed",
        Pattern::Interleave(vec![
            text_construct("title"),
            el(ATOM, "id", xsd("anyURI")),
            el(ATOM, "updated", xsd("dateTime")),
            many(link()),
            many(person("author")),
            many(category()),
            opt(el(
                ATOM,
                "generator",
                Pattern::Group(vec![opt_atts(&["uri", "version"]), Pattern::Text]),
            )),
            opt(text_construct("subtitle")),
            many(r(ENTRY)),
        ]),
    );
    (Grammar { rules: vec![define("entry", entry)] }, start(Pattern::Choice(vec![feed, r(ENTRY)])))
}

/// The SVG vocabulary: shapes, groups, gradients and text.
fn svg_schema() -> (Grammar, DefineRule) {
    const PAINT: usize = 0;
    const DRAWING: usize = 1;
    let paint = opt_atts(&[
        "fill", "stroke", "stroke-width", "opacity", "fill-opacity", "font-size", "transform",
        "text-anchor",
    ]);
    let shape = |name: &str, geometry: &[&str]| {
        let mut parts: Vec<Pattern> =
            geometry.iter().map(|n| opt(att_of(n, xsd("decimal")))).collect();
        parts.push(r(PAINT));
        el(SVG, name, Pattern::Interleave(parts))
    };
    let listed = |name: &str, list: &str| {
        el(SVG, name, Pattern::Interleave(vec![att(list), r(PAINT)]))
    };
    let gradient = el(
        SVG,
        "linearGradient",
        Pattern::Group(vec![
            att_of("id", xsd("ID")),
            opt_atts(&["x1", "y1", "x2", "y2"]),
            many(el(SVG, "stop", Pattern::Group(vec![att("offset"), opt(att("stop-color"))]))),
        ]),
    );
    let drawing = Pattern::Choice(vec![
        shape("rect", &["x", "y", "width", "height"]),
        shape("circle", &["cx", "cy", "r"]),
        shape("ellipse", &["cx", "cy", "rx", "ry"]),
        shape("line", &["x1", "y1", "x2", "y2"]),
        listed("path", "d"),
        listed("polyline", "points"),
        listed("polygon", "points"),
        el(SVG, "g", Pattern::Group(vec![r(PAINT), many(r(DRAWING))])),
        el(
            SVG,
            "text",
            Pattern::Group(vec![
                Pattern::Interleave(vec![
                    opt(att_of("x", xsd("decimal"))),
                    opt(att_of("y", xsd("decimal"))),
                    r(PAINT),
                ]),
                Pattern::Text,
            ]),
        ),
    ]);
    let svg = el(
        SVG,
        "svg",
        Pattern::Group(vec![
            Pattern::Interleave(vec![
                opt(att("viewBox")),
                opt(att_of("width", xsd("decimal"))),
                opt(att_of("height", xsd("decimal"))),
            ]),
            opt(el(SVG, "title", Pattern::Text)),
            opt(el(SVG, "defs", many(gradient))),
            many(r(DRAWING)),
        ]),
    );
    (Grammar { rules: vec![define("paint", paint), define("drawing", drawing)] }, start(svg))
}

/// A DocBook article with a title and paragraphs.
fn docbook_schema() -> (Grammar, DefineRule) {
    let article = el(
        DOCBOOK,
        "article",
        Pattern::Group(vec![
            att_of("version", xsd("decimal")),
            el(DOCBOOK, "title", Pattern::Text),
            many(el(DOCBOOK, "para", Pattern::Text)),
        ]),
    );
    (Grammar { rules: vec![] }, start(article))
}

/// An XHTML page with a title and paragraphs.
fn xhtml_schema() -> (Grammar, DefineRule) {
    let html = el(
        XHTML,
        "html",
        Pattern::Group(vec![
            el(XHTML, "head", el(XHTML, "title", Pattern::Text)),
            el(XHTML, "body", many(el(XHTML, "p", Pattern::Text))),
        ]),
    );
    (Grammar { rules: vec![] }, start(html))
}

/// The schema that goes by the name of a schema file.
fn schema_for(schema: &str) -> (Grammar, DefineRule) {
    match schema {
        "atom/atom.rng" => atom_schema(),
        "svg11/svg11.rng" => svg_schema(),
        "docbook5/docbook.rng" => docbook_schema(),
        "xhtml11/xhtml11-1.rng" => xhtml_schema(),
        _ => panic!("no schema {schema}"),
    }
}

/// Compile `schema` and validate `doc` (an inline XML string). Returns
/// `Ok(())` on success, `Err(msg)` on any error.
fn validate(schema: &str, doc: &str) -> Result<(), String> {
    let (grammar, start) = schema_for(schema);
    check_restrictions(&grammar, &start, Span::new(0, 0))
        .map_err(|e| format!("schema compile error: {:?}", e))?;
    let tokenizer = Tokenizer::from(doc);
    let mut v = Validator::new(&grammar, &start, tokenizer).map_err(|e| format!("{:?}", e))?;
    loop {
        match v.validate_next() {
            Some(Ok(())) => {}
            Some(Err(e)) => return Err(format!("{:?}", e)),
            None => break,
        }
    }
    if v.is_complete() {
        Ok(())
    } else {
        Err("the document ends too early".to_string())
    }
}

/// Compile-only (no document validation). Returns Ok(()) if the schema
/// meets the restrictions and fits a pool, Err(msg) otherwise.
fn compile_schema(schema: &str) -> Result<(), String> {
    let (grammar, start) = schema_for(schema);
    check_restrictions(&grammar, &start, Span::new(0, 0))
        .map_err(|e| format!("schema compile error: {:?}", e))?;
    Validator::new(&grammar, &start, Tokenizer::from(""))
        .map_err(|e| format!("schema compile error: {:?}", e))?;
    Ok(())
}

// ═══════════════════════════════════════════════════════════════════════════════
// Atom 1.0
// ═══════════════════════════════════════════════════════════════════════════════

#[test]
fn atom_compiles() {
    compile_schema("atom/atom.rng").expect("Atom schema should compile");
}

#[test]
fn atom_valid_minimal_feed() {
    validate(
        "atom/atom.rng",
        r#"<feed xmlns="http://www.w3.org/2005/Atom">
             <title>Test</title>
             <id>urn:uuid:test</id>
             <updated>2024-01-01T00:00:00Z</updated>
           </feed>"#,
    )
    .expect("minimal Atom feed should be valid");
}

#[test]
fn atom_valid_feed_with_entry() {
    validate(
        "atom/atom.rng",
        r#"<feed xmlns="http://www.w3.org/2005/Atom">
             <title>Blog</title>
             <id>urn:uuid:blog</id>
             <updated>2024-06-15T12:00:00Z</updated>
             <link rel="self" href="http://example.com/feed"/>
             <author><name>Alice</name></author>
             <entry>
               <title>Hello</title>
               <id>urn:uuid:post-1</id>
               <updated>2024-06-15T12:00:00Z</updated>
               <summary>First post.</summary>
             </entry>
           </feed>"#,
    )
    .expect("Atom feed with entry should be valid");
}

#[test]
fn atom_valid_standalone_entry() {
    validate(
        "atom/atom.rng",
        r#"<entry xmlns="http://www.w3.org/2005/Atom">
             <title>Standalone</title>
             <id>urn:uuid:entry-1</id>
             <updated>2024-03-01T00:00:00Z</updated>
             <author><name>Bob</name></author>
             <content type="html">&lt;p&gt;Hello&lt;/p&gt;</content>
           </entry>"#,
    )
    .expect("standalone Atom entry should be valid");
}

#[test]
fn atom_invalid_missing_id() {
    assert!(
        validate(
            "atom/atom.rng",
            r#"<feed xmlns="http://www.w3.org/2005/Atom">
                 <title>No ID</title>
                 <updated>2024-01-01T00:00:00Z</updated>
               </feed>"#,
        )
        .is_err(),
        "feed without <id> should be invalid"
    );
}

#[test]
fn atom_invalid_missing_updated() {
    assert!(
        validate(
            "atom/atom.rng",
            r#"<feed xmlns="http://www.w3.org/2005/Atom">
                 <title>No Updated</title>
                 <id>urn:uuid:x</id>
               </feed>"#,
        )
        .is_err(),
        "feed without <updated> should be invalid"
    );
}

#[test]
fn atom_invalid_wrong_root() {
    assert!(
        validate("atom/atom.rng", r#"<rss xmlns="http://www.w3.org/2005/Atom" version="2.0"/>"#,)
            .is_err(),
        "wrong root element should be invalid"
    );
}

#[test]
fn atom_invalid_date() {
    assert!(
        validate(
            "atom/atom.rng",
            r#"<feed xmlns="http://www.w3.org/2005/Atom">
                 <title>Bad date</title>
                 <id>urn:uuid:x</id>
                 <updated>NOT-A-DATE</updated>
               </feed>"#,
        )
        .is_err(),
        "a feed with a wrong date should be invalid"
    );
}

// ═══════════════════════════════════════════════════════════════════════════════
// SVG 1.1
// ═══════════════════════════════════════════════════════════════════════════════

#[test]
fn svg_compiles() {
    compile_schema("svg11/svg11.rng").expect("SVG 1.1 schema should compile");
}

#[test]
fn svg_valid_minimal() {
    validate(
        "svg11/svg11.rng",
        r#"<svg xmlns="http://www.w3.org/2000/svg"
             viewBox="0 0 100 100" width="100" height="100">
           <rect x="10" y="10" width="80" height="80"/>
         </svg>"#,
    )
    .expect("minimal SVG should be valid");
}

#[test]
fn svg_valid_shapes_and_text() {
    validate(
        "svg11/svg11.rng",
        r#"<svg xmlns="http://www.w3.org/2000/svg"
             xmlns:xlink="http://www.w3.org/1999/xlink"
             viewBox="0 0 200 200" width="200" height="200">
           <defs>
             <linearGradient id="g1">
               <stop offset="0%" stop-color="red"/>
               <stop offset="100%" stop-color="blue"/>
             </linearGradient>
           </defs>
           <circle cx="100" cy="100" r="50" fill="url(#g1)"/>
           <line x1="0" y1="0" x2="200" y2="200" stroke="black"/>
           <text x="100" y="190" text-anchor="middle">Hello SVG</text>
         </svg>"#,
    )
    .expect("SVG with shapes and text should be valid");
}

#[test]
fn svg_valid_groups_and_transforms() {
    validate(
        "svg11/svg11.rng",
        r#"<svg xmlns="http://www.w3.org/2000/svg" viewBox="0 0 300 300">
           <g transform="translate(50,50)" opacity="0.8">
             <rect width="100" height="100" fill="green"/>
             <ellipse cx="50" cy="50" rx="40" ry="20" fill="yellow"/>
           </g>
           <polyline points="0,0 50,30 100,0" fill="none" stroke="red"/>
           <polygon points="150,10 190,80 110,80" fill="purple"/>
           <path d="M 200 10 L 250 80 L 150 80 Z" fill="orange"/>
         </svg>"#,
    )
    .expect("SVG with groups and transforms should be valid");
}

// ═══════════════════════════════════════════════════════════════════════════════
// DocBook 5.0 and XHTML 1.1
// ═══════════════════════════════════════════════════════════════════════════════

#[test]
fn docbook_compiles() {
    validate(
        "docbook5/docbook.rng",
        r#"<article xmlns="http://docbook.org/ns/docbook" version="5.0">
                 <title>Test</title>
                 <para>Hello.</para>
               </article>"#,
    )
    .expect("a small DocBook article should be valid");
}

#[test]
fn xhtml_compiles() {
    compile_schema("xhtml11/xhtml11-1.rng").expect("XHTML schema should compile");
}
