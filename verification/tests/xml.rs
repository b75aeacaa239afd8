use blossom::xml::{resolve, scan, Attribute, Document, Element};
use quick_xml::events::Event;
use quick_xml::reader::Reader;

fn attribute(name: &str, value: &str) -> Attribute {
    Attribute {
        name: name.to_string(),
        value: value.to_string(),
    }
}

fn element(tag: &str, attributes: Vec<Attribute>) -> Element {
    Element {
        tag: tag.to_string(),
        attributes,
    }
}

const ACCEPTED: [&str; 12] = [
    "<a/>",
    "<a></a>",
    "<a name=\"x\"/>",
    "<a name='x' other=\"y\" />",
    "<a\tname = \"x\"\n\tother\r\n=\r\n'y'\n></a >",
    "  <?xml version=\"1.0\" encoding=\"utf-8\"?>\n<a><b/><c k=\"v\"></c>\n<d k='v' l=''/></a>\n",
    "<?x?><a/>",
    "<tool-call name=\"image\"><argument name=\"path\" type=\"PathBuf\" value=\"images/1.jpg\"/></tool-call>",
    "<a:b c.d=\"e\" _f='g' h-i=\"\"/>",
    "<a v=\"it's > here\" w='say \"hi\"'/>",
    "<a v=\"tab\there\nnewline\"/>",
    "<a v=\"ünïcödé &amp; raw\"><b v=\"\u{1F338}\"/></a>",
];

const REJECTED: [&str; 28] = [
    "",
    " ",
    "a",
    "<",
    "<>",
    "< a/>",
    "<a",
    "<a/",
    "<a/ >",
    "<a>",
    "<a></b>",
    "<a></a",
    "<a></ a>",
    "<a/><b/>",
    "<a/>x",
    "x<a/>",
    "<a>x</a>",
    "<a><b><c/></b></a>",
    "<a><b></c></a>",
    "<a name/>",
    "<a name=/>",
    "<a name=x/>",
    "<a name=\"x/>",
    "<a name=\"x'/>",
    "<a name=\"x\"other=\"y\"/>",
    "<a name=\"<\"/>",
    "<?xml version=\"1.0\"><a/>",
    "<?a?><?b?><a/>",
];

#[test]
fn scan_accepts_what_the_grammar_allows() {
    for text in ACCEPTED {
        assert!(scan(text).is_some(), "{:?}", text);
    }
}

#[test]
fn scan_rejects_what_the_grammar_forbids() {
    for text in REJECTED {
        assert_eq!(scan(text), None, "{:?}", text);
    }
    for text in ["<!-- c --><a/>", "<a><!-- c --></a>", "<a><![CDATA[x]]></a>", "<!DOCTYPE a><a/>", "<ä/>", "<1a/>", "<-a/>", "<a 1b=\"x\"/>"] {
        assert_eq!(scan(text), None, "{:?}", text);
    }
}

#[test]
fn scan_reads_tags_and_attributes_in_source_order() {
    let document = scan(ACCEPTED[5]).unwrap();
    assert_eq!(
        document,
        Document {
            root: element("a", vec![]),
            children: vec![
                element("b", vec![]),
                element("c", vec![attribute("k", "v")]),
                element("d", vec![attribute("k", "v"), attribute("l", "")]),
            ],
        }
    );
    let document = scan(ACCEPTED[4]).unwrap();
    assert_eq!(
        document.root,
        element("a", vec![attribute("name", "x"), attribute("other", "y")])
    );
    let document = scan(ACCEPTED[9]).unwrap();
    assert_eq!(
        document.root.attributes,
        vec![attribute("v", "it's > here"), attribute("w", "say \"hi\"")]
    );
}

/// The start and empty tags that quick-xml reads from `text`, with their
/// attributes as written.
fn tags(text: &str) -> Vec<Element> {
    let mut reader = Reader::from_str(text);
    let mut out = Vec::new();
    loop {
        match reader.read_event().unwrap() {
            Event::Start(e) | Event::Empty(e) => {
                let attributes = e
                    .attributes()
                    .map(|a| {
                        let a = a.unwrap();
                        attribute(a.key.0, &a.value)
                    })
                    .collect();
                out.push(element(e.name().0, attributes));
            }
            Event::Eof => break,
            _ => {}
        }
    }
    out
}

#[test]
fn scan_agrees_with_quick_xml_on_what_it_accepts() {
    for text in ACCEPTED {
        let document = scan(text).unwrap();
        let mut scanned = vec![document.root];
        scanned.extend(document.children);
        assert_eq!(scanned, tags(text), "{:?}", text);
    }
}

#[test]
fn resolve_replaces_references_and_keeps_the_rest() {
    let raw = scan("<a v=\"&lt;&gt;&amp;&apos;&quot;&#33;&#x21;\" w=\"plain\"><b v='&#x1F338;'/></a>").unwrap();
    let resolved = resolve(&raw).unwrap();
    assert_eq!(
        resolved,
        Document {
            root: element("a", vec![attribute("v", "<>&'\"!!"), attribute("w", "plain")]),
            children: vec![element("b", vec![attribute("v", "\u{1F338}")])],
        }
    );
    let plain = scan(ACCEPTED[9]).unwrap();
    assert_eq!(resolve(&plain), Some(plain));
}

#[test]
fn resolve_fails_on_any_invalid_reference() {
    for text in [
        "<a v=\"&nbsp;\"/>",
        "<a v=\"&\"/>",
        "<a v=\"&amp\"/>",
        "<a v=\"ok\"><b v=\"ok\"/><c v=\"&#xFFFFFFFF;\"/></a>",
        "<a v=\"&#;\"/>",
    ] {
        let raw = scan(text).unwrap();
        assert_eq!(resolve(&raw), None, "{:?}", text);
    }
}
