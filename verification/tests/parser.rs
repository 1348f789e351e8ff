use lazy_sparql_result_reader::decode::{decode_header, decode_meta, decode_row};
use lazy_sparql_result_reader::parser::{
    IncompleteStream, MalformedRegion, Parser, PartialResult, RegionKind,
};
use lazy_sparql_result_reader::sparql::{
    Binding, Bindings, Head, Header, Meta, RDFValue, SparqlResult,
};

fn uri(value: &str) -> RDFValue {
    RDFValue::Uri { value: value.to_string() }
}

fn bnode(value: &str) -> RDFValue {
    RDFValue::Bnode { value: value.to_string() }
}

fn literal(value: &str) -> RDFValue {
    RDFValue::Literal { value: value.to_string(), lang: None, datatype: None }
}

fn row(pairs: &[(&str, RDFValue)]) -> Binding {
    let mut b = Binding::new();
    for (k, v) in pairs {
        b.insert(k.to_string(), v.clone());
    }
    b
}

fn chars(s: &str) -> Vec<char> {
    s.chars().collect()
}

/// Feeds the whole input, collecting every chunk, then flushes.
fn run(input: &str, mut parser: Parser) -> (Vec<PartialResult>, Option<MalformedRegion>) {
    let mut chunks = Vec::new();
    for chr in input.chars() {
        match parser.read_char(chr) {
            Ok(Some(chunk)) => chunks.push(chunk),
            Ok(None) => {}
            Err(err) => return (chunks, Some(err)),
        }
    }
    if let Some(chunk) = parser.flush() {
        chunks.push(chunk);
    }
    (chunks, None)
}

#[test]
fn parser_schema() {
    let input = r#"{"head":{"vars":[]},"results":{"bindings":[{"":{"type":"uri","value":""},"U*":{"type":"uri","value":"*\"","curie":""}}]},"meta":{"query-time-ms":0,"result-size-total":0}}"#;
    let expected = SparqlResult {
        head: Head { vars: Vec::new() },
        results: Bindings {
            bindings: vec![row(&[("", uri("")), ("U*", uri("*\""))])],
        },
        meta: Meta { query_time_ms: 0, result_size_total: 0 },
    };

    let mut parsed_result = SparqlResult {
        head: Head { vars: Vec::new() },
        results: Bindings { bindings: Vec::new() },
        meta: Meta { query_time_ms: 0, result_size_total: 0 },
    };

    let mut parser = Parser::new(1);
    for chr in input.chars() {
        match parser.read_char(chr).expect("Input should be valid") {
            Some(PartialResult::Header(Header { head })) => parsed_result.head = head,
            Some(PartialResult::Bindings(bindings)) => {
                parsed_result.results.bindings.extend(bindings);
            }
            Some(PartialResult::Meta(meta)) => parsed_result.meta = meta,
            None => {}
        }
    }

    assert_eq!(
        expected, parsed_result,
        "parser failed for this input:\n{input}"
    );
}

fn scenario_input() -> &'static str {
    r#"{"head":{"vars":["s"]},"results":{"bindings":[{"s":{"type":"uri","value":"http://a"}},{"s":{"type":"bnode","value":"b0"}}]},"meta":{"query-time-ms":1,"result-size-total":2}}"#
}

#[test]
fn scenario_single_row_batches() {
    let (chunks, err) = run(scenario_input(), Parser::new(1));
    assert!(err.is_none());
    assert_eq!(
        chunks,
        vec![
            PartialResult::Header(Header { head: Head { vars: vec!["s".to_string()] } }),
            PartialResult::Bindings(vec![row(&[("s", uri("http://a"))])]),
            PartialResult::Bindings(vec![row(&[("s", bnode("b0"))])]),
            PartialResult::Meta(Meta { query_time_ms: 1, result_size_total: 2 }),
        ]
    );
}

#[test]
fn scenario_large_batch_flush() {
    let mut parser = Parser::new(10);
    let mut streamed = Vec::new();
    for chr in scenario_input().chars() {
        if let Some(chunk) = parser.read_char(chr).expect("Input should be valid") {
            streamed.push(chunk);
        }
    }
    // No Rows batch fills during the stream: only the header and the meta
    // chunk appear, and the single partial batch comes from the flush.
    assert_eq!(
        streamed,
        vec![
            PartialResult::Header(Header { head: Head { vars: vec!["s".to_string()] } }),
            PartialResult::Meta(Meta { query_time_ms: 1, result_size_total: 2 }),
        ]
    );
    let flushed = parser.flush();
    assert_eq!(
        flushed,
        Some(PartialResult::Bindings(vec![
            row(&[("s", uri("http://a"))]),
            row(&[("s", bnode("b0"))]),
        ]))
    );
}

#[test]
fn scenario_unknown_term_tag() {
    let input = r#"{"head":{"vars":[]},"results":{"bindings":[{"s":{"type":"unknown","value":"x"}}]}}"#;
    let mut parser = Parser::new(1);
    let mut chunks = Vec::new();
    let mut err = None;
    for chr in input.chars() {
        match parser.read_char(chr) {
            Ok(Some(chunk)) => chunks.push(chunk),
            Ok(None) => {}
            Err(e) => {
                err = Some(e);
                break;
            }
        }
    }
    assert_eq!(err, Some(MalformedRegion { kind: RegionKind::Row }));
    // The failure comes when the row region closes, before any Meta chunk.
    assert_eq!(chunks.len(), 1);
    assert!(matches!(chunks[0], PartialResult::Header(_)));
}

#[test]
fn structural_characters_inside_literal() {
    let input = r#"{"head":{"vars":["s"]},"results":{"bindings":[{"s":{"type":"literal","value":"a}b[{]\""}}]},"meta":{"query-time-ms":0,"result-size-total":1}}"#;
    let (chunks, err) = run(input, Parser::new(1));
    assert!(err.is_none());
    assert_eq!(
        chunks,
        vec![
            PartialResult::Header(Header { head: Head { vars: vec!["s".to_string()] } }),
            PartialResult::Bindings(vec![row(&[("s", literal("a}b[{]\""))])]),
            PartialResult::Meta(Meta { query_time_ms: 0, result_size_total: 1 }),
        ]
    );
}

fn five_rows_input() -> String {
    let mut bindings = Vec::new();
    for i in 1..=5 {
        bindings.push(format!(r#"{{"s":{{"type":"uri","value":"r{i}"}}}}"#));
    }
    format!(
        r#"{{"head":{{"vars":["s"]}},"results":{{"bindings":[{}]}},"meta":{{"query-time-ms":0,"result-size-total":5}}}}"#,
        bindings.join(",")
    )
}

fn emitted_rows(input: &str, parser: Parser) -> Vec<Binding> {
    let (chunks, err) = run(input, parser);
    assert!(err.is_none());
    let mut rows = Vec::new();
    for chunk in chunks {
        if let PartialResult::Bindings(batch) = chunk {
            rows.extend(batch);
        }
    }
    rows
}

#[test]
fn pagination_offset_and_limit() {
    let input = five_rows_input();
    let rows = emitted_rows(&input, Parser::new_with_pagination(1, 1, Some(2)));
    // total = min(5 - 1, 2) = 2, first emitted row is the 2nd of the document
    assert_eq!(rows, vec![row(&[("s", uri("r2"))]), row(&[("s", uri("r3"))])]);
}

#[test]
fn pagination_offset_only() {
    let input = five_rows_input();
    let rows = emitted_rows(&input, Parser::new_with_pagination(2, 2, None));
    assert_eq!(
        rows,
        vec![
            row(&[("s", uri("r3"))]),
            row(&[("s", uri("r4"))]),
            row(&[("s", uri("r5"))]),
        ]
    );
}

#[test]
fn pagination_offset_past_end() {
    let input = five_rows_input();
    let rows = emitted_rows(&input, Parser::new_with_pagination(1, 7, None));
    assert_eq!(rows, Vec::<Binding>::new());
}

#[test]
fn pagination_zero_limit() {
    let input = five_rows_input();
    let rows = emitted_rows(&input, Parser::new_with_pagination(1, 0, Some(0)));
    assert_eq!(rows, Vec::<Binding>::new());
}

#[test]
fn full_batches_then_short_flush() {
    let input = five_rows_input();
    let (chunks, err) = run(&input, Parser::new(2));
    assert!(err.is_none());
    let batches: Vec<&Vec<Binding>> = chunks
        .iter()
        .filter_map(|chunk| match chunk {
            PartialResult::Bindings(batch) => Some(batch),
            _ => None,
        })
        .collect();
    // every batch before the flush is full; only the flush batch is shorter
    assert_eq!(batches.len(), 3);
    assert_eq!(batches[0].len(), 2);
    assert_eq!(batches[1].len(), 2);
    assert_eq!(batches[2].len(), 1);
    assert_eq!(
        batches[2],
        &vec![row(&[("s", uri("r5"))])]
    );
}

#[test]
fn flush_nothing_left() {
    // With batch size 1 every retained row leaves in a full batch, so the
    // final flush has nothing to hand out.
    let mut parser = Parser::new(1);
    for chr in scenario_input().chars() {
        parser.read_char(chr).expect("Input should be valid");
    }
    assert_eq!(parser.flush(), None);
}

#[test]
fn malformed_head_region() {
    let input = r#"{"head":{"vars":[0]},"results":{"bindings":[]}}"#;
    let mut parser = Parser::new(1);
    let mut err = None;
    for chr in input.chars() {
        match parser.read_char(chr) {
            Ok(_) => {}
            Err(e) => {
                err = Some(e);
                break;
            }
        }
    }
    assert_eq!(err, Some(MalformedRegion { kind: RegionKind::Head }));
}

#[test]
fn malformed_meta_region() {
    let input = r#"{"head":{"vars":[]},"results":{"bindings":[]},"meta":{"query-time-ms":1}}"#;
    let mut parser = Parser::new(1);
    let mut err = None;
    for chr in input.chars() {
        match parser.read_char(chr) {
            Ok(_) => {}
            Err(e) => {
                err = Some(e);
                break;
            }
        }
    }
    assert_eq!(err, Some(MalformedRegion { kind: RegionKind::Meta }));
}

#[test]
fn completion_reports_what_is_missing() {
    let mut parser = Parser::new(1);
    assert_eq!(parser.completion(), Some(IncompleteStream::MissingHeader));
    for chr in r#"{"head"#.chars() {
        parser.read_char(chr).expect("Input should be valid");
    }
    assert_eq!(parser.completion(), Some(IncompleteStream::MissingHeader));

    let mut parser = Parser::new(1);
    for chr in r#"{"head":{"vars":[]},"results":{"bindings":["#.chars() {
        parser.read_char(chr).expect("Input should be valid");
    }
    assert_eq!(parser.completion(), Some(IncompleteStream::MissingMeta));

    let mut parser = Parser::new(1);
    for chr in scenario_input().chars() {
        parser.read_char(chr).expect("Input should be valid");
    }
    assert_eq!(parser.completion(), None);
}

#[test]
fn decode_header_shapes() {
    let h = decode_header(&chars(r#"{"head":{"vars":["a","b"]}}"#)).unwrap();
    assert_eq!(
        h,
        Header { head: Head { vars: vec!["a".to_string(), "b".to_string()] } }
    );
    // whitespace and ignored fields
    let h = decode_header(&chars(
        r#" { "link" : [ "http://x" ] , "head" : { "vars" : [ ] , "note" : "n" } }"#,
    ))
    .unwrap();
    assert_eq!(h, Header { head: Head { vars: Vec::new() } });
    // vars is mandatory, and must hold strings
    assert!(decode_header(&chars(r#"{"head":{}}"#)).is_none());
    assert!(decode_header(&chars(r#"{"head":{"vars":[0]}}"#)).is_none());
    assert!(decode_header(&chars(r#"{"nothing":"here"}"#)).is_none());
}

#[test]
fn decode_row_shapes() {
    let b = decode_row(&chars(
        r#"{"x":{"type":"literal","value":"v","xml:lang":"en","datatype":"d"},"y":{"type":"bnode","value":"n"}}"#,
    ))
    .unwrap();
    let expected = row(&[
        (
            "x",
            RDFValue::Literal {
                value: "v".to_string(),
                lang: Some("en".to_string()),
                datatype: Some("d".to_string()),
            },
        ),
        ("y", bnode("n")),
    ]);
    assert_eq!(b, expected);
    // an empty row is valid; a repeated variable keeps the later term
    assert_eq!(decode_row(&chars("{}")).unwrap(), row(&[]));
    let b = decode_row(&chars(
        r#"{"x":{"type":"uri","value":"one"},"x":{"type":"uri","value":"two"}}"#,
    ))
    .unwrap();
    assert_eq!(b, row(&[("x", uri("two"))]));
    // a repeated field inside a term, or a missing one, is an error
    assert!(decode_row(&chars(r#"{"x":{"type":"uri","type":"uri","value":"v"}}"#)).is_none());
    assert!(decode_row(&chars(r#"{"x":{"type":"uri"}}"#)).is_none());
    assert!(decode_row(&chars(r#"{"x":{"value":"v"}}"#)).is_none());
    assert!(decode_row(&chars(r#"{"x":{"type":"unknown","value":"v"}}"#)).is_none());
    assert!(decode_row(&chars(r#"{"x":0}"#)).is_none());
}

#[test]
fn decode_row_string_escapes() {
    let b = decode_row(&chars(
        r#"{"x":{"type":"literal","value":"q\"s\\b\/c\n\t\r\b\f\u0041é\ud83d\ude00"}}"#,
    ))
    .unwrap();
    assert_eq!(
        b,
        row(&[("x", literal("q\"s\\b/c\n\t\r\u{8}\u{c}A\u{e9}\u{1f600}"))])
    );
    // a lone or misordered surrogate, or a bad escape, is an error
    assert!(decode_row(&chars(r#"{"x":{"type":"literal","value":"\ud83d"}}"#)).is_none());
    assert!(decode_row(&chars(r#"{"x":{"type":"literal","value":"\ude00"}}"#)).is_none());
    assert!(decode_row(&chars(r#"{"x":{"type":"literal","value":"\q"}}"#)).is_none());
    assert!(decode_row(&chars(r#"{"x":{"type":"literal","value":"\u00g1"}}"#)).is_none());
}

#[test]
fn decode_meta_shapes() {
    assert_eq!(
        decode_meta(&chars(r#"{"query-time-ms":12,"result-size-total":34}"#)),
        Some(Meta { query_time_ms: 12, result_size_total: 34 })
    );
    assert_eq!(
        decode_meta(&chars(
            r#" { "result-size-total" : 0 , "note" : "n" , "query-time-ms" : 18446744073709551615 }"#
        )),
        Some(Meta { query_time_ms: u64::MAX, result_size_total: 0 })
    );
    // both statistics are mandatory; numbers are plain unsigned integers
    assert_eq!(decode_meta(&chars(r#"{"query-time-ms":1}"#)), None);
    assert_eq!(decode_meta(&chars(r#"{}"#)), None);
    assert_eq!(
        decode_meta(&chars(r#"{"query-time-ms":01,"result-size-total":2}"#)),
        None
    );
    assert_eq!(
        decode_meta(&chars(r#"{"query-time-ms":-1,"result-size-total":2}"#)),
        None
    );
    assert_eq!(
        decode_meta(&chars(r#"{"query-time-ms":18446744073709551616,"result-size-total":2}"#)),
        None
    );
}
