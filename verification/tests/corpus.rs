//! Reading files of test cases, each a source text and the tree it stands for.
use std::collections::HashMap;

use html5_parser::{parse, Document, NodeId, NodeKind};

const SVG_NAMESPACE: &str = "http://www.w3.org/2000/svg";
const MATHML_NAMESPACE: &str = "http://www.w3.org/1998/Math/MathML";
const XLINK_NAMESPACE: &str = "http://www.w3.org/1999/xlink";
const XML_NAMESPACE: &str = "http://www.w3.org/XML/1998/namespace";
const XMLNS_NAMESPACE: &str = "http://www.w3.org/2000/xmlns/";

fn dump_document(document: &Document) -> String {
    let mut lines = Vec::new();
    for child in document.children(document.root()).collect() {
        dump_node(document, child, 0, &mut lines);
    }
    lines.join("\n")
}

fn indent(depth: usize) -> String {
    format!("| {}", "  ".repeat(depth))
}

fn element_tag_string(name: &str, namespace: &Option<String>) -> String {
    match namespace.as_deref() {
        Some(SVG_NAMESPACE) => format!("svg {name}"),
        Some(MATHML_NAMESPACE) => format!("math {name}"),
        _ => name.to_owned(),
    }
}

fn attribute_name_string(name: &str, namespace: &Option<String>) -> String {
    let local = name.split_once(':').map_or(name, |(_, rest)| rest);
    match namespace.as_deref() {
        Some(XLINK_NAMESPACE) => format!("xlink {local}"),
        Some(XML_NAMESPACE) => format!("xml {local}"),
        Some(XMLNS_NAMESPACE) => format!("xmlns {local}"),
        _ => name.to_owned(),
    }
}

fn dump_node(document: &Document, id: NodeId, depth: usize, lines: &mut Vec<String>) {
    let node = document.node(id);
    match &node.kind {
        NodeKind::Document => {}
        NodeKind::DocumentFragment => {
            lines.push(format!("{}content", indent(depth)));
            for child in document.children(id).collect() {
                dump_node(document, child, depth + 1, lines);
            }
        }
        NodeKind::Doctype {
            name,
            public_identifier,
            system_identifier,
        } => {
            let name = name.as_deref().unwrap_or("");
            let public_id = public_identifier.as_deref().unwrap_or("");
            let system_id = system_identifier.as_deref().unwrap_or("");
            let line = if name.is_empty() {
                format!("{}<!DOCTYPE >", indent(depth))
            } else if !public_id.is_empty() || !system_id.is_empty() {
                format!(
                    "{}<!DOCTYPE {name} \"{public_id}\" \"{system_id}\">",
                    indent(depth)
                )
            } else {
                format!("{}<!DOCTYPE {name}>", indent(depth))
            };
            lines.push(line);
        }
        NodeKind::Comment { content } => {
            lines.push(format!("{}<!-- {content} -->", indent(depth)));
        }
        NodeKind::Text { content } => lines.push(format!("{}\"{content}\"", indent(depth))),
        NodeKind::ProcessingInstruction { target, data } => {
            lines.push(format!("{}<?{target} {data}?>", indent(depth)));
        }
        NodeKind::Element {
            name,
            namespace,
            attributes,
        } => {
            lines.push(format!(
                "{}<{}>",
                indent(depth),
                element_tag_string(name, namespace)
            ));
            let mut attribute_lines: Vec<(String, &str)> = attributes
                .iter()
                .map(|attribute| {
                    (
                        attribute_name_string(&attribute.name, &attribute.namespace),
                        attribute.value.as_str(),
                    )
                })
                .collect();
            attribute_lines.sort_by(|a, b| a.0.cmp(&b.0));
            for (name, value) in attribute_lines {
                lines.push(format!("{}{name}=\"{value}\"", indent(depth + 1)));
            }
            for child in document.children(id).collect() {
                dump_node(document, child, depth + 1, lines);
            }
        }
    }
}

/// Parses a case with the given source and tree, and compares the tree with what
/// the source stands for.
fn check(source: &str, tree: &str) {
    let contents = format!("#data\n{source}\n#errors\n#document\n{tree}\n");
    let cases = parse_dat_file(&contents);
    assert_eq!(cases.len(), 1);
    assert_eq!(cases[0].data, source);
    assert_eq!(
        dump_document(&parse(&cases[0].data).document),
        cases[0].expected_document,
        "source: {source:?}"
    );
}

struct TestCase {
    data: String,
    is_fragment: bool,
    script_on_only: bool,
    expected_document: String,
}

fn section_heading(line: &str) -> Option<String> {
    let rest = line.strip_prefix('#')?;
    let trimmed = rest.trim();
    if trimmed.is_empty() {
        None
    } else {
        Some(trimmed.to_owned())
    }
}

fn normalise(mut sections: HashMap<String, String>) -> HashMap<String, String> {
    for value in sections.values_mut() {
        if let Some(stripped) = value.strip_suffix('\n') {
            *value = stripped.to_owned();
        }
    }
    sections
}

fn parse_dat_file(contents: &str) -> Vec<TestCase> {
    let text = contents.strip_suffix('\n').unwrap_or(contents);
    let file_lines: Vec<&str> = text.split('\n').collect();
    let last_index = file_lines.len().saturating_sub(1);

    let mut cases: Vec<HashMap<String, String>> = Vec::new();
    let mut data: Option<HashMap<String, String>> = None;
    let mut key: Option<String> = None;

    for (i, raw_line) in file_lines.iter().enumerate() {
        let line = if i == last_index {
            (*raw_line).to_owned()
        } else {
            format!("{raw_line}\n")
        };

        if let Some(heading) = section_heading(&line) {
            if heading == "data" {
                if let Some(mut finished) = data.take() {
                    if let Some(k) = &key {
                        if let Some(buffer) = finished.get_mut(k) {
                            buffer.pop();
                        }
                    }
                    cases.push(normalise(finished));
                }
            }
            data.get_or_insert_with(HashMap::new)
                .insert(heading.clone(), String::new());
            key = Some(heading);
        } else if let (Some(k), Some(sections)) = (&key, data.as_mut()) {
            sections.entry(k.clone()).or_default().push_str(&line);
        }
    }
    if let Some(finished) = data.take() {
        cases.push(normalise(finished));
    }

    cases
        .into_iter()
        .map(|mut sections| TestCase {
            data: sections.remove("data").unwrap_or_default(),
            is_fragment: sections.contains_key("document-fragment"),
            script_on_only: sections.contains_key("script-on"),
            expected_document: sections.remove("document").unwrap_or_default(),
        })
        .collect()
}

#[test]
fn parses_a_single_simple_case() {
    let cases = parse_dat_file(
        "#data\n<p>Hi\n#errors\n(1,0): some-error\n#document\n| <html>\n|   <head>\n|   <body>\n|     <p>\n|       \"Hi\"\n",
    );
    assert_eq!(cases.len(), 1);
    assert_eq!(cases[0].data, "<p>Hi");
    assert!(!cases[0].is_fragment);
    assert!(!cases[0].script_on_only);
    assert_eq!(
        cases[0].expected_document,
        "| <html>\n|   <head>\n|   <body>\n|     <p>\n|       \"Hi\""
    );
}

#[test]
fn data_section_preserves_internal_blank_lines() {
    let cases = parse_dat_file("#data\nfoo\n\nbar\n#errors\n#document\n| \"foo\n\nbar\"\n");
    assert_eq!(cases.len(), 1);
    assert_eq!(cases[0].data, "foo\n\nbar");
    assert_eq!(cases[0].expected_document, "| \"foo\n\nbar\"");
}

#[test]
fn multi_line_document_text_node_is_preserved_verbatim() {
    let cases = parse_dat_file(
        "#data\n<svg><![CDATA[foo\nbar]]>\n#errors\n#document\n| <html>\n|   \"foo\nbar\"\n",
    );
    assert_eq!(cases[0].data, "<svg><![CDATA[foo\nbar]]>");
    assert_eq!(cases[0].expected_document, "| <html>\n|   \"foo\nbar\"");
}

#[test]
fn splits_multiple_cases_separated_by_a_blank_line() {
    let contents = "\
#data
A
#errors
#document
| \"A\"

#data
B
#errors
#document
| \"B\"
";
    let cases = parse_dat_file(contents);
    assert_eq!(cases.len(), 2);
    assert_eq!(cases[0].data, "A");
    assert_eq!(cases[0].expected_document, "| \"A\"");
    assert_eq!(cases[1].data, "B");
    assert_eq!(cases[1].expected_document, "| \"B\"");
}

#[test]
fn document_fragment_and_script_on_are_flagged() {
    let fragment =
        parse_dat_file("#data\n<td>\n#errors\n#document-fragment\ntd\n#document\n| <td>\n");
    assert!(fragment[0].is_fragment);

    let script_on = parse_dat_file("#data\n<p>\n#errors\n#script-on\n#document\n| <p>\n");
    assert!(script_on[0].script_on_only);

    let plain = parse_dat_file("#data\n<p>\n#errors\n#document\n| <p>\n");
    assert!(!plain[0].is_fragment);
    assert!(!plain[0].script_on_only);
}

#[test]
fn last_test_in_a_file_needs_no_separator_trim() {
    let cases = parse_dat_file("#data\nA\n#errors\n#document\n| \"A\"");
    assert_eq!(cases.len(), 1);
    assert_eq!(cases[0].expected_document, "| \"A\"");
}

#[test]
fn trees_of_implied_elements() {
    check(
        "Test",
        "| <html>\n\
         |   <head>\n\
         |   <body>\n\
         |     \"Test\"",
    );
    check(
        "<p>One<p>Two",
        "| <html>\n\
         |   <head>\n\
         |   <body>\n\
         |     <p>\n\
         |       \"One\"\n\
         |     <p>\n\
         |       \"Two\"",
    );
    check(
        "<html>",
        "| <html>\n\
         |   <head>\n\
         |   <body>",
    );
    check(
        "<head>",
        "| <html>\n\
         |   <head>\n\
         |   <body>",
    );
    check(
        "<body>",
        "| <html>\n\
         |   <head>\n\
         |   <body>",
    );
    check(
        "</head>",
        "| <html>\n\
         |   <head>\n\
         |   <body>",
    );
    check(
        "<html><head></head><body></html>",
        "| <html>\n\
         |   <head>\n\
         |   <body>",
    );
    check(
        "</br>",
        "| <html>\n\
         |   <head>\n\
         |   <body>\n\
         |     <br>",
    );
    check(
        "<body></p>",
        "| <html>\n\
         |   <head>\n\
         |   <body>\n\
         |     <p>",
    );
    check(
        "<h1>Hello<h2>World",
        "| <html>\n\
         |   <head>\n\
         |   <body>\n\
         |     <h1>\n\
         |       \"Hello\"\n\
         |     <h2>\n\
         |       \"World\"",
    );
    check(
        "<p><hr></p>",
        "| <html>\n\
         |   <head>\n\
         |   <body>\n\
         |     <p>\n\
         |     <hr>\n\
         |     <p>",
    );
    check(
        "<ul><li>a<ul><li>b</ul>c<li>d",
        "| <html>\n\
         |   <head>\n\
         |   <body>\n\
         |     <ul>\n\
         |       <li>\n\
         |         \"a\"\n\
         |         <ul>\n\
         |           <li>\n\
         |             \"b\"\n\
         |         \"c\"\n\
         |       <li>\n\
         |         \"d\"",
    );
    check(
        "<dl><dt>a<dd>b<dt>c",
        "| <html>\n\
         |   <head>\n\
         |   <body>\n\
         |     <dl>\n\
         |       <dt>\n\
         |         \"a\"\n\
         |       <dd>\n\
         |         \"b\"\n\
         |       <dt>\n\
         |         \"c\"",
    );
    check(
        "<ruby>a<rtc>b<rt>c<rb>d</ruby>",
        "| <html>\n\
         |   <head>\n\
         |   <body>\n\
         |     <ruby>\n\
         |       \"a\"\n\
         |       <rtc>\n\
         |         \"b\"\n\
         |         <rt>\n\
         |           \"c\"\n\
         |       <rb>\n\
         |         \"d\"",
    );
    check(
        "<option>a<option>b",
        "| <html>\n\
         |   <head>\n\
         |   <body>\n\
         |     <option>\n\
         |       \"a\"\n\
         |     <option>\n\
         |       \"b\"",
    );
    check(
        "<select><option>a<optgroup>b<option>c",
        "| <html>\n\
         |   <head>\n\
         |   <body>\n\
         |     <select>\n\
         |       <option>\n\
         |         \"a\"\n\
         |       <optgroup>\n\
         |         \"b\"\n\
         |         <option>\n\
         |           \"c\"",
    );
}

#[test]
fn trees_of_head_elements() {
    check(
        "<script><div></script></div><title><p></title><p><p>",
        "| <html>\n\
         |   <head>\n\
         |     <script>\n\
         |       \"<div>\"\n\
         |     <title>\n\
         |       \"<p>\"\n\
         |   <body>\n\
         |     <p>\n\
         |     <p>",
    );
    check(
        "<body><body><base><link><meta><title><p></title><body><p></body>",
        "| <html>\n\
         |   <head>\n\
         |   <body>\n\
         |     <base>\n\
         |     <link>\n\
         |     <meta>\n\
         |     <title>\n\
         |       \"<p>\"\n\
         |     <p>",
    );
    check(
        "<!DOCTYPE html><noscript><!--x--></noscript>y",
        "| <!DOCTYPE html>\n\
         | <html>\n\
         |   <head>\n\
         |     <noscript>\n\
         |       <!-- x -->\n\
         |   <body>\n\
         |     \"y\"",
    );
    check(
        "<html><head></head><meta><body>",
        "| <html>\n\
         |   <head>\n\
         |     <meta>\n\
         |   <body>",
    );
    check(
        "<html a=1><html a=2 b=3>",
        "| <html>\n\
         |   a=\"1\"\n\
         |   b=\"3\"\n\
         |   <head>\n\
         |   <body>",
    );
    check(
        "<textarea><p></textarea>",
        "| <html>\n\
         |   <head>\n\
         |   <body>\n\
         |     <textarea>\n\
         |       \"<p>\"",
    );
    check(
        "<xmp><a></xmp><iframe><b></iframe>",
        "| <html>\n\
         |   <head>\n\
         |   <body>\n\
         |     <xmp>\n\
         |       \"<a>\"\n\
         |     <iframe>\n\
         |       \"<b>\"",
    );
    check(
        "<plaintext></plaintext>",
        "| <html>\n\
         |   <head>\n\
         |   <body>\n\
         |     <plaintext>\n\
         |       \"</plaintext>\"",
    );
}

#[test]
fn trees_of_comments_and_doctypes() {
    check(
        "<!--><div>--<!-->",
        "| <!--  -->\n\
         | <html>\n\
         |   <head>\n\
         |   <body>\n\
         |     <div>\n\
         |       \"--\"\n\
         |       <!--  -->",
    );
    check(
        "<!DOCTYPE html PUBLIC \"a\" \"b\">",
        "| <!DOCTYPE html \"a\" \"b\">\n\
         | <html>\n\
         |   <head>\n\
         |   <body>",
    );
    check(
        "<!DOCTYPE html><li>hello<li>world<ul>how<li>do</ul>you</body><!--do-->",
        "| <!DOCTYPE html>\n\
         | <html>\n\
         |   <head>\n\
         |   <body>\n\
         |     <li>\n\
         |       \"hello\"\n\
         |     <li>\n\
         |       \"world\"\n\
         |       <ul>\n\
         |         \"how\"\n\
         |         <li>\n\
         |           \"do\"\n\
         |       \"you\"\n\
         |   <!-- do -->",
    );
    check(
        "a</body></html><!--b-->",
        "| <html>\n\
         |   <head>\n\
         |   <body>\n\
         |     \"a\"\n\
         | <!-- b -->",
    );
    check(
        "x</body>y</html>z<!--c-->",
        "| <html>\n\
         |   <head>\n\
         |   <body>\n\
         |     \"xyz\"\n\
         |     <!-- c -->",
    );
    check(
        "<",
        "| <html>\n\
         |   <head>\n\
         |   <body>\n\
         |     \"<\"",
    );
    check(
        "</",
        "| <html>\n\
         |   <head>\n\
         |   <body>\n\
         |     \"</\"",
    );
    check(
        "</#",
        "| <!-- # -->\n\
         | <html>\n\
         |   <head>\n\
         |   <body>",
    );
    check(
        "<!#",
        "| <!-- # -->\n\
         | <html>\n\
         |   <head>\n\
         |   <body>",
    );
}

#[test]
fn trees_of_formatting_elements() {
    check(
        "<a><p>X<a>Y</a>Z</p></a>",
        "| <html>\n\
         |   <head>\n\
         |   <body>\n\
         |     <a>\n\
         |     <p>\n\
         |       <a>\n\
         |         \"X\"\n\
         |       <a>\n\
         |         \"Y\"\n\
         |       \"Z\"",
    );
    check(
        "<b><button>foo</b>bar",
        "| <html>\n\
         |   <head>\n\
         |   <body>\n\
         |     <b>\n\
         |     <button>\n\
         |       <b>\n\
         |         \"foo\"\n\
         |       \"bar\"",
    );
    check(
        "<span><button>foo</span>bar",
        "| <html>\n\
         |   <head>\n\
         |   <body>\n\
         |     <span>\n\
         |       <button>\n\
         |         \"foobar\"",
    );
    check(
        "<p><b><div><marquee></p></b></div>X",
        "| <html>\n\
         |   <head>\n\
         |   <body>\n\
         |     <p>\n\
         |       <b>\n\
         |     <div>\n\
         |       <b>\n\
         |         <marquee>\n\
         |           <p>\n\
         |           \"X\"",
    );
    check(
        "<a X>0<b>1<a Y>2",
        "| <html>\n\
         |   <head>\n\
         |   <body>\n\
         |     <a>\n\
         |       x=\"\"\n\
         |       \"0\"\n\
         |       <b>\n\
         |         \"1\"\n\
         |     <b>\n\
         |       <a>\n\
         |         y=\"\"\n\
         |         \"2\"",
    );
    check(
        "<b id=a><p><b id=b></p></b>TEST",
        "| <html>\n\
         |   <head>\n\
         |   <body>\n\
         |     <b>\n\
         |       id=\"a\"\n\
         |       <p>\n\
         |         <b>\n\
         |           id=\"b\"\n\
         |       \"TEST\"",
    );
    check(
        "<a>1<p>2</a>3</p>",
        "| <html>\n\
         |   <head>\n\
         |   <body>\n\
         |     <a>\n\
         |       \"1\"\n\
         |     <p>\n\
         |       <a>\n\
         |         \"2\"\n\
         |       \"3\"",
    );
    check(
        "<a>1<button>2</a>3</button>",
        "| <html>\n\
         |   <head>\n\
         |   <body>\n\
         |     <a>\n\
         |       \"1\"\n\
         |     <button>\n\
         |       <a>\n\
         |         \"2\"\n\
         |       \"3\"",
    );
    check(
        "<a>1<b>2</a>3</b>",
        "| <html>\n\
         |   <head>\n\
         |   <body>\n\
         |     <a>\n\
         |       \"1\"\n\
         |       <b>\n\
         |         \"2\"\n\
         |     <b>\n\
         |       \"3\"",
    );
    check(
        "<a>1<div>2<div>3</a>4</div>5</div>",
        "| <html>\n\
         |   <head>\n\
         |   <body>\n\
         |     <a>\n\
         |       \"1\"\n\
         |     <div>\n\
         |       <a>\n\
         |         \"2\"\n\
         |       <div>\n\
         |         <a>\n\
         |           \"3\"\n\
         |         \"4\"\n\
         |       \"5\"",
    );
    check(
        "<b><b><a><p></a>",
        "| <html>\n\
         |   <head>\n\
         |   <body>\n\
         |     <b>\n\
         |       <b>\n\
         |         <a>\n\
         |         <p>\n\
         |           <a>",
    );
    check(
        "<p>1<s id=\"A\">2<b id=\"B\">3</p>4</s>5</b>",
        "| <html>\n\
         |   <head>\n\
         |   <body>\n\
         |     <p>\n\
         |       \"1\"\n\
         |       <s>\n\
         |         id=\"A\"\n\
         |         \"2\"\n\
         |         <b>\n\
         |           id=\"B\"\n\
         |           \"3\"\n\
         |     <s>\n\
         |       id=\"A\"\n\
         |       <b>\n\
         |         id=\"B\"\n\
         |         \"4\"\n\
         |     <b>\n\
         |       id=\"B\"\n\
         |       \"5\"",
    );
    check(
        "<p><b><b><b><b><p>X",
        "| <html>\n\
         |   <head>\n\
         |   <body>\n\
         |     <p>\n\
         |       <b>\n\
         |         <b>\n\
         |           <b>\n\
         |             <b>\n\
         |     <p>\n\
         |       <b>\n\
         |         <b>\n\
         |           <b>\n\
         |             \"X\"",
    );
    check(
        "<nobr>a<nobr>b",
        "| <html>\n\
         |   <head>\n\
         |   <body>\n\
         |     <nobr>\n\
         |       \"a\"\n\
         |     <nobr>\n\
         |       \"b\"",
    );
    check(
        "<p><image></p>",
        "| <html>\n\
         |   <head>\n\
         |   <body>\n\
         |     <p>\n\
         |       <img>",
    );
}

#[test]
fn trees_of_tables() {
    check(
        "<b><table><td><i></table>",
        "| <html>\n\
         |   <head>\n\
         |   <body>\n\
         |     <b>\n\
         |       <table>\n\
         |         <tbody>\n\
         |           <tr>\n\
         |             <td>\n\
         |               <i>",
    );
    check(
        "<a><table><td><a><table></table><a></tr><a></table><b>X</b>C<a>Y",
        "| <html>\n\
         |   <head>\n\
         |   <body>\n\
         |     <a>\n\
         |       <a>\n\
         |       <table>\n\
         |         <tbody>\n\
         |           <tr>\n\
         |             <td>\n\
         |               <a>\n\
         |                 <table>\n\
         |               <a>\n\
         |     <a>\n\
         |       <b>\n\
         |         \"X\"\n\
         |       \"C\"\n\
         |     <a>\n\
         |       \"Y\"",
    );
    check(
        "<!-----><font><div>hello<table>excite!<b>me!<th><i>please!</tr><!--X-->",
        "| <!-- - -->\n\
         | <html>\n\
         |   <head>\n\
         |   <body>\n\
         |     <font>\n\
         |       <div>\n\
         |         \"helloexcite!\"\n\
         |         <b>\n\
         |           \"me!\"\n\
         |         <table>\n\
         |           <tbody>\n\
         |             <tr>\n\
         |               <th>\n\
         |                 <i>\n\
         |                   \"please!\"\n\
         |             <!-- X -->",
    );
    check(
        "<table><tr><tr><td><td><span><th><span>X</table>",
        "| <html>\n\
         |   <head>\n\
         |   <body>\n\
         |     <table>\n\
         |       <tbody>\n\
         |         <tr>\n\
         |         <tr>\n\
         |           <td>\n\
         |           <td>\n\
         |             <span>\n\
         |           <th>\n\
         |             <span>\n\
         |               \"X\"",
    );
    check(
        "<table><a>1<p>2</a>3</p>",
        "| <html>\n\
         |   <head>\n\
         |   <body>\n\
         |     <a>\n\
         |       \"1\"\n\
         |     <p>\n\
         |       <a>\n\
         |         \"2\"\n\
         |       \"3\"\n\
         |     <table>",
    );
    check(
        "<table><tr>x<td>y",
        "| <html>\n\
         |   <head>\n\
         |   <body>\n\
         |     \"x\"\n\
         |     <table>\n\
         |       <tbody>\n\
         |         <tr>\n\
         |           <td>\n\
         |             \"y\"",
    );
    check(
        "<table>  <tr>",
        "| <html>\n\
         |   <head>\n\
         |   <body>\n\
         |     <table>\n\
         |       \"  \"\n\
         |       <tbody>\n\
         |         <tr>",
    );
    check(
        "<table><caption>a<tr><td>b",
        "| <html>\n\
         |   <head>\n\
         |   <body>\n\
         |     <table>\n\
         |       <caption>\n\
         |         \"a\"\n\
         |       <tbody>\n\
         |         <tr>\n\
         |           <td>\n\
         |             \"b\"",
    );
    check(
        "<table><col><td>x",
        "| <html>\n\
         |   <head>\n\
         |   <body>\n\
         |     <table>\n\
         |       <colgroup>\n\
         |         <col>\n\
         |       <tbody>\n\
         |         <tr>\n\
         |           <td>\n\
         |             \"x\"",
    );
    check(
        "<table><input type=hidden><input>",
        "| <html>\n\
         |   <head>\n\
         |   <body>\n\
         |     <input>\n\
         |     <table>\n\
         |       <input>\n\
         |         type=\"hidden\"",
    );
    check(
        "<table><form><tr><td>x",
        "| <html>\n\
         |   <head>\n\
         |   <body>\n\
         |     <table>\n\
         |       <form>\n\
         |       <tbody>\n\
         |         <tr>\n\
         |           <td>\n\
         |             \"x\"",
    );
    check(
        "<table><tr><td>1</table>2",
        "| <html>\n\
         |   <head>\n\
         |   <body>\n\
         |     <table>\n\
         |       <tbody>\n\
         |         <tr>\n\
         |           <td>\n\
         |             \"1\"\n\
         |     \"2\"",
    );
    check(
        "<table><td>1<table><td>2</table>3",
        "| <html>\n\
         |   <head>\n\
         |   <body>\n\
         |     <table>\n\
         |       <tbody>\n\
         |         <tr>\n\
         |           <td>\n\
         |             \"1\"\n\
         |             <table>\n\
         |               <tbody>\n\
         |                 <tr>\n\
         |                   <td>\n\
         |                     \"2\"\n\
         |             \"3\"",
    );
    check(
        "<table><tr><table>",
        "| <html>\n\
         |   <head>\n\
         |   <body>\n\
         |     <table>\n\
         |       <tbody>\n\
         |         <tr>\n\
         |     <table>",
    );
    check(
        "<table><thead><tr><th>a<tbody><tr><td>b<tfoot><tr><td>c",
        "| <html>\n\
         |   <head>\n\
         |   <body>\n\
         |     <table>\n\
         |       <thead>\n\
         |         <tr>\n\
         |           <th>\n\
         |             \"a\"\n\
         |       <tbody>\n\
         |         <tr>\n\
         |           <td>\n\
         |             \"b\"\n\
         |       <tfoot>\n\
         |         <tr>\n\
         |           <td>\n\
         |             \"c\"",
    );
}

#[test]
fn trees_of_foreign_content() {
    check(
        "<div><svg><path><foreignObject><p></div>a",
        "| <html>\n\
         |   <head>\n\
         |   <body>\n\
         |     <div>\n\
         |       <svg svg>\n\
         |         <svg path>\n\
         |           <svg foreignObject>\n\
         |             <p>\n\
         |               \"a\"",
    );
    check(
        "<math><mi><b>x</b></mi></math>",
        "| <html>\n\
         |   <head>\n\
         |   <body>\n\
         |     <math math>\n\
         |       <math mi>\n\
         |         <b>\n\
         |           \"x\"",
    );
    check(
        "<svg><div>a",
        "| <html>\n\
         |   <head>\n\
         |   <body>\n\
         |     <svg svg>\n\
         |     <div>\n\
         |       \"a\"",
    );
    check(
        "<svg viewbox=x definitionurl=y xlink:href=z>",
        "| <html>\n\
         |   <head>\n\
         |   <body>\n\
         |     <svg svg>\n\
         |       definitionurl=\"y\"\n\
         |       viewBox=\"x\"\n\
         |       xlink href=\"z\"",
    );
    check(
        "<math definitionurl=y>",
        "| <html>\n\
         |   <head>\n\
         |   <body>\n\
         |     <math math>\n\
         |       definitionURL=\"y\"",
    );
    check(
        "<svg><font>a</font><font color=b>c",
        "| <html>\n\
         |   <head>\n\
         |   <body>\n\
         |     <svg svg>\n\
         |       <svg font>\n\
         |         \"a\"\n\
         |     <font>\n\
         |       color=\"b\"\n\
         |       \"c\"",
    );
    check(
        "<svg><clippath/><g></svg>x",
        "| <html>\n\
         |   <head>\n\
         |   <body>\n\
         |     <svg svg>\n\
         |       <svg clipPath>\n\
         |       <svg g>\n\
         |     \"x\"",
    );
    check(
        "<svg>\u{0}a</p>b",
        "| <html>\n\
         |   <head>\n\
         |   <body>\n\
         |     <svg svg>\n\
         |       \"\u{FFFD}a\"\n\
         |     <p>\n\
         |     \"b\"",
    );
    check(
        "<math><annotation-xml encoding=\"text/html\"><div>x",
        "| <html>\n\
         |   <head>\n\
         |   <body>\n\
         |     <math math>\n\
         |       <math annotation-xml>\n\
         |         encoding=\"text/html\"\n\
         |         <div>\n\
         |           \"x\"",
    );
}

#[test]
fn trees_of_templates() {
    check(
        "<body><template>Hello</template>",
        "| <html>\n\
         |   <head>\n\
         |   <body>\n\
         |     <template>\n\
         |       content\n\
         |         \"Hello\"",
    );
    check(
        "<template><tr><td>a</td></tr></template>b",
        "| <html>\n\
         |   <head>\n\
         |     <template>\n\
         |       content\n\
         |         <tr>\n\
         |           <td>\n\
         |             \"a\"\n\
         |   <body>\n\
         |     \"b\"",
    );
    check(
        "<table><template><td></template></table>",
        "| <html>\n\
         |   <head>\n\
         |   <body>\n\
         |     <table>\n\
         |       <template>\n\
         |         content\n\
         |           <td>",
    );
    check(
        "<html><head></head><template></template><body>",
        "| <html>\n\
         |   <head>\n\
         |     <template>\n\
         |       content\n\
         |   <body>",
    );
    check(
        "<body><template><div>a</template>b",
        "| <html>\n\
         |   <head>\n\
         |   <body>\n\
         |     <template>\n\
         |       content\n\
         |         <div>\n\
         |           \"a\"\n\
         |     \"b\"",
    );
    check(
        "<body><template><col><col>",
        "| <html>\n\
         |   <head>\n\
         |   <body>\n\
         |     <template>\n\
         |       content\n\
         |         <col>\n\
         |         <col>",
    );
    check(
        "<body><template><template>a",
        "| <html>\n\
         |   <head>\n\
         |   <body>\n\
         |     <template>\n\
         |       content\n\
         |         <template>\n\
         |           content\n\
         |             \"a\"",
    );
}

#[test]
fn trees_of_framesets() {
    check(
        "<frameset> te st",
        "| <html>\n\
         |   <head>\n\
         |   <frameset>\n\
         |     \"  \"",
    );
    check(
        "<frameset></frameset> te st",
        "| <html>\n\
         |   <head>\n\
         |   <frameset>\n\
         |   \"  \"",
    );
    check(
        "<p><frameset><frame>",
        "| <html>\n\
         |   <head>\n\
         |   <frameset>\n\
         |     <frame>",
    );
    check(
        "<body><frameset>",
        "| <html>\n\
         |   <head>\n\
         |   <body>",
    );
    check(
        "<body><div><frameset>",
        "| <html>\n\
         |   <head>\n\
         |   <body>\n\
         |     <div>",
    );
    check(
        "<body>a<frameset>",
        "| <html>\n\
         |   <head>\n\
         |   <body>\n\
         |     \"a\"",
    );
    check(
        "<frameset><frameset><frame></frameset><noframes><p></noframes></frameset>",
        "| <html>\n\
         |   <head>\n\
         |   <frameset>\n\
         |     <frameset>\n\
         |       <frame>\n\
         |     <noframes>\n\
         |       \"<p>\"",
    );
}

#[test]
fn trees_of_forms_and_controls() {
    check(
        "<form><form>",
        "| <html>\n\
         |   <head>\n\
         |   <body>\n\
         |     <form>",
    );
    check(
        "<div><form></div><p></form>y",
        "| <html>\n\
         |   <head>\n\
         |   <body>\n\
         |     <div>\n\
         |       <form>\n\
         |     <p>\n\
         |       \"y\"",
    );
    check(
        "<button>a<button>b",
        "| <html>\n\
         |   <head>\n\
         |   <body>\n\
         |     <button>\n\
         |       \"a\"\n\
         |     <button>\n\
         |       \"b\"",
    );
    check(
        "<select>a<select>b",
        "| <html>\n\
         |   <head>\n\
         |   <body>\n\
         |     <select>\n\
         |       \"a\"\n\
         |     \"b\"",
    );
    check(
        "<select><button><selectedcontent></button><option>X<option selected><b>Y</b>",
        "| <html>\n\
         |   <head>\n\
         |   <body>\n\
         |     <select>\n\
         |       <button>\n\
         |         <selectedcontent>\n\
         |           <b>\n\
         |             \"Y\"\n\
         |       <option>\n\
         |         \"X\"\n\
         |       <option>\n\
         |         selected=\"\"\n\
         |         <b>\n\
         |           \"Y\"",
    );
    check(
        "<select multiple><button><selectedcontent></button><option selected>X",
        "| <html>\n\
         |   <head>\n\
         |   <body>\n\
         |     <select>\n\
         |       multiple=\"\"\n\
         |       <button>\n\
         |         <selectedcontent>\n\
         |       <option>\n\
         |         selected=\"\"\n\
         |         \"X\"",
    );
    check(
        "<select><button><selectedcontent></button><option disabled>X<option>Y<option>Z",
        "| <html>\n\
         |   <head>\n\
         |   <body>\n\
         |     <select>\n\
         |       <button>\n\
         |         <selectedcontent>\n\
         |           \"Y\"\n\
         |       <option>\n\
         |         disabled=\"\"\n\
         |         \"X\"\n\
         |       <option>\n\
         |         \"Y\"\n\
         |       <option>\n\
         |         \"Z\"",
    );
}

#[test]
fn trees_of_line_feeds() {
    check(
        "<pre>\n\nx</pre>",
        "| <html>\n\
         |   <head>\n\
         |   <body>\n\
         |     <pre>\n\
         |       \"\nx\"",
    );
    check(
        "<pre>x\n</pre>",
        "| <html>\n\
         |   <head>\n\
         |   <body>\n\
         |     <pre>\n\
         |       \"x\n\"",
    );
    check(
        "<textarea>\n\nx",
        "| <html>\n\
         |   <head>\n\
         |   <body>\n\
         |     <textarea>\n\
         |       \"\nx\"",
    );
    check(
        "<textarea>\nx</textarea>",
        "| <html>\n\
         |   <head>\n\
         |   <body>\n\
         |     <textarea>\n\
         |       \"x\"",
    );
    check(
        "<pre></pre>\nx",
        "| <html>\n\
         |   <head>\n\
         |   <body>\n\
         |     <pre>\n\
         |     \"\nx\"",
    );
    check(
        "<textarea></textarea>\n",
        "| <html>\n\
         |   <head>\n\
         |   <body>\n\
         |     <textarea>\n\
         |     \"\n\"",
    );
    check(
        "<pre><b>\nx",
        "| <html>\n\
         |   <head>\n\
         |   <body>\n\
         |     <pre>\n\
         |       <b>\n\
         |         \"\nx\"",
    );
    check(
        "<pre><!---->\nx",
        "| <html>\n\
         |   <head>\n\
         |   <body>\n\
         |     <pre>\n\
         |       <!--  -->\n\
         |       \"\nx\"",
    );
    check(
        "<pre>&#10;&#10;x",
        "| <html>\n\
         |   <head>\n\
         |   <body>\n\
         |     <pre>\n\
         |       \"\nx\"",
    );
    check(
        "<pre>a</pre>\nx",
        "| <html>\n\
         |   <head>\n\
         |   <body>\n\
         |     <pre>\n\
         |       \"a\"\n\
         |     \"\nx\"",
    );
    check(
        "<listing>\n<b>x",
        "| <html>\n\
         |   <head>\n\
         |   <body>\n\
         |     <listing>\n\
         |       <b>\n\
         |         \"x\"",
    );
}

#[test]
fn trees_of_character_references() {
    check(
        "FOO&notit;BAR",
        "| <html>\n\
         |   <head>\n\
         |   <body>\n\
         |     \"FOO\u{AC}it;BAR\"",
    );
    check(
        "&#x80;&#65;&#x1F600;&#0;",
        "| <html>\n\
         |   <head>\n\
         |   <body>\n\
         |     \"\u{20AC}A\u{1F600}\u{FFFD}\"",
    );
    check(
        "<a b=\"&amp=c&lt;&ampd\">",
        "| <html>\n\
         |   <head>\n\
         |   <body>\n\
         |     <a>\n\
         |       b=\"&amp=c<&ampd\"",
    );
    check(
        "&NotEqualTilde;",
        "| <html>\n\
         |   <head>\n\
         |   <body>\n\
         |     \"\u{2242}\u{338}\"",
    );
}
