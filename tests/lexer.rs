use pylex::{Category, Config, DoubleBuffer, ErrorKind, KeywordKind, LexError, LexicalAnalyzer, Scan, SymbolTable, Token};

fn scan_all(src: &str, half: usize) -> (Vec<Result<Token, LexError>>, SymbolTable) {
    let mut table = SymbolTable::with_keywords();
    let mut lexer = LexicalAnalyzer::new(src.as_bytes().to_vec(), half);
    let mut out = Vec::new();
    while let Some(r) = lexer.next(&mut table) {
        let stop = r.is_err();
        out.push(r);
        if stop {
            break;
        }
    }
    (out, table)
}

fn tokens(src: &str, half: usize) -> Vec<(Category, String)> {
    let (out, _) = scan_all(src, half);
    out.into_iter()
        .map(|r| {
            let t = r.expect("no error expected");
            (t.category(), String::from_utf8(t.text().clone()).unwrap())
        })
        .collect()
}

fn first_error(src: &str, half: usize) -> LexError {
    let (out, _) = scan_all(src, half);
    match out.last() {
        Some(Err(e)) => *e,
        _ => panic!("expected an error for {:?}", src),
    }
}

fn tok(c: Category, s: &str) -> (Category, String) {
    (c, s.to_string())
}

#[test]
fn if_statement_scenario() {
    let (out, _) = scan_all("if x == 10:", 50);
    assert_eq!(out.len(), 5);
    let t: Vec<Token> = out.into_iter().map(|r| r.unwrap()).collect();
    assert_eq!(t[0].category(), Category::Keyword);
    assert_eq!(t[0].keyword(), Some(KeywordKind::If));
    assert_eq!(t[0].text(), &b"if".to_vec());
    assert_eq!(t[1].category(), Category::Identifier);
    assert_eq!(t[1].text(), &b"x".to_vec());
    assert_eq!(t[2].category(), Category::Operator);
    assert_eq!(t[2].text(), &b"==".to_vec());
    assert_eq!(t[3].category(), Category::Integer);
    assert_eq!(t[3].text(), &b"10".to_vec());
    assert_eq!(t[4].category(), Category::Delimiter);
    assert_eq!(t[4].text(), &b":".to_vec());
}

#[test]
fn double_hash_comment_fails_on_its_line() {
    let e = first_error("# bad\n##comment\n", 50);
    assert_eq!(e.kind, ErrorKind::MalformedComment);
    assert_eq!(e.line, 2);
}

#[test]
fn plain_comments_are_dropped() {
    assert_eq!(tokens("# bad\n#comment\n", 50), vec![]);
}

#[test]
fn comment_opened_by_newline_fails() {
    let e = first_error("x\n#\ny\n", 50);
    assert_eq!(e.kind, ErrorKind::MalformedComment);
    assert_eq!(e.line, 3);
}

#[test]
fn dot_without_digit_at_end_is_malformed_float() {
    let e = first_error("3.", 50);
    assert_eq!(e.kind, ErrorKind::MalformedFloat);
    assert_eq!(e.line, 1);
}

#[test]
fn docstring_is_dropped() {
    let (out, _) = scan_all("\"\"\"doc\"\"\"", 50);
    assert!(out.is_empty());
    assert_eq!(tokens("\"\"\"doc\"\"\" x\n", 50), vec![tok(Category::Identifier, "x")]);
}

#[test]
fn unterminated_docstring_is_malformed_quote() {
    assert_eq!(first_error("\"\"\"doc\"\"x", 50).kind, ErrorKind::MalformedQuote);
    assert_eq!(first_error("\"\"\"doc", 50).kind, ErrorKind::MalformedQuote);
    assert_eq!(first_error("\"\"x", 50).kind, ErrorKind::MalformedQuote);
}

#[test]
fn identifier_maximal_munch() {
    assert_eq!(tokens("abc_1xE9 ", 50), vec![tok(Category::Identifier, "abc_1xE9")]);
    assert_eq!(tokens("ab+c\n", 50), vec![
        tok(Category::Identifier, "ab"),
        tok(Category::Operator, "+"),
        tok(Category::Identifier, "c"),
    ]);
}

#[test]
fn integer_maximal_munch() {
    assert_eq!(tokens("12345 ", 50), vec![tok(Category::Integer, "12345")]);
    assert_eq!(tokens("007)", 50), vec![tok(Category::Integer, "007"), tok(Category::Delimiter, ")")]);
    assert_eq!(tokens("0x19 ", 50), vec![tok(Category::Integer, "0x19")]);
}

#[test]
fn floats() {
    assert_eq!(tokens("3.25 ", 50), vec![tok(Category::Float, "3.25")]);
    assert_eq!(tokens(".5 ", 50), vec![tok(Category::Float, ".5")]);
    assert_eq!(tokens("1e+7 ", 50), vec![tok(Category::Float, "1e+7")]);
    assert_eq!(tokens("2E5,", 50), vec![tok(Category::Float, "2E5"), tok(Category::Delimiter, ",")]);
    assert_eq!(tokens("3. ", 50), vec![tok(Category::Float, "3.")]);
    assert_eq!(first_error(".x ", 50).kind, ErrorKind::MalformedFloat);
    assert_eq!(first_error("1e+x ", 50).kind, ErrorKind::MalformedFloat);
    assert_eq!(first_error("1e ", 50).kind, ErrorKind::MalformedFloat);
}

#[test]
fn operators_and_delimiters() {
    assert_eq!(tokens("a**b<=c+=d<e*f/g>h=i-j ", 50), vec![
        tok(Category::Identifier, "a"),
        tok(Category::Operator, "**"),
        tok(Category::Identifier, "b"),
        tok(Category::Operator, "<="),
        tok(Category::Identifier, "c"),
        tok(Category::Delimiter, "+="),
        tok(Category::Identifier, "d"),
        tok(Category::Operator, "<"),
        tok(Category::Identifier, "e"),
        tok(Category::Operator, "*"),
        tok(Category::Identifier, "f"),
        tok(Category::Operator, "/"),
        tok(Category::Identifier, "g"),
        tok(Category::Operator, ">"),
        tok(Category::Identifier, "h"),
        tok(Category::Delimiter, "="),
        tok(Category::Identifier, "i"),
        tok(Category::Operator, "-"),
        tok(Category::Identifier, "j"),
    ]);
    assert_eq!(tokens("([{}]),:", 50).len(), 8);
}

#[test]
fn strings() {
    assert_eq!(tokens("'a' \"hello world\" ", 50), vec![
        tok(Category::String, "'a'"),
        tok(Category::String, "\"hello world\""),
    ]);
    assert_eq!(first_error("'' ", 50).kind, ErrorKind::MalformedQuote);
    assert_eq!(first_error("'ab' ", 50).kind, ErrorKind::MalformedQuote);
}

#[test]
fn end_inside_a_token_is_truncated() {
    let e = first_error("x = abc", 50);
    assert_eq!(e.kind, ErrorKind::TruncatedToken);
    assert_eq!(e.line, 1);
    assert_eq!(first_error("\"open\n\n", 50), LexError { kind: ErrorKind::TruncatedToken, line: 3 });
}

#[test]
fn line_numbers_count_newlines_once() {
    let e = first_error("a\nb\n\n'xy'", 50);
    assert_eq!(e.kind, ErrorKind::MalformedQuote);
    assert_eq!(e.line, 4);
}

#[test]
fn round_trip_of_tokens_and_dropped_bytes() {
    let src = "def f(x):\n    # twice\n    return x*2.5 + 0x10\n";
    let mut table = SymbolTable::with_keywords();
    let mut lexer = LexicalAnalyzer::new(src.as_bytes().to_vec(), 8);
    let bytes = src.as_bytes();
    let mut rebuilt: Vec<u8> = Vec::new();
    let mut count = 0;
    loop {
        let p = lexer.position();
        match lexer.next(&mut table) {
            Some(Ok(t)) => {
                let q = lexer.position();
                let text = t.text();
                assert!(q - p >= text.len() && !text.is_empty());
                assert_eq!(&bytes[q - text.len()..q], &text[..]);
                rebuilt.extend_from_slice(&bytes[p..q - text.len()]);
                rebuilt.extend_from_slice(text);
                count += 1;
            }
            Some(Err(e)) => panic!("unexpected error {:?}", e),
            None => {
                rebuilt.extend_from_slice(&bytes[p..]);
                break;
            }
        }
    }
    assert_eq!(count, 12);
    assert_eq!(rebuilt, bytes.to_vec());
}

#[test]
fn interning_twice_keeps_one_entry() {
    let (out, table) = scan_all("abc abc\n", 50);
    assert_eq!(out.len(), 2);
    let a = out[0].as_ref().unwrap();
    let b = out[1].as_ref().unwrap();
    assert_eq!(a.category(), Category::Identifier);
    assert_eq!(b.category(), Category::Identifier);
    assert_eq!(a.text(), b.text());
    assert_eq!(table.len(), 9);
}

#[test]
fn symbol_table_interning() {
    let mut table = SymbolTable::with_keywords();
    assert_eq!(table.len(), 8);
    let k = table.lookup_or_insert(b"elif".to_vec());
    assert_eq!(k.keyword(), Some(KeywordKind::Elif));
    assert_eq!(table.len(), 8);
    let a = table.lookup_or_insert(b"spam".to_vec());
    let b = table.lookup_or_insert(b"spam".to_vec());
    assert_eq!(a.category(), Category::Identifier);
    assert_eq!(a.text(), b.text());
    assert_eq!(table.len(), 9);
    assert!(!table.add_keyword(KeywordKind::If));
    let mut empty = SymbolTable::new();
    assert!(empty.add_keyword(KeywordKind::If));
    assert_eq!(empty.len(), 1);
}

#[test]
fn keywords_are_recognised() {
    let t = tokens("else import return for as def elif if iff\n", 50);
    assert_eq!(t.len(), 9);
    for (c, _) in &t[..8] {
        assert_eq!(*c, Category::Keyword);
    }
    assert_eq!(t[8], tok(Category::Identifier, "iff"));
}

#[test]
fn refill_at_token_boundary_matches_other_window() {
    // half 5 reads 4 bytes per refill; the text is two refills long, with a
    // token ending right at each seam
    let src = "abc d=1 ";
    let small = tokens(src, 5);
    assert_eq!(small, tokens(src, 64));
    assert_eq!(small, vec![
        tok(Category::Identifier, "abc"),
        tok(Category::Identifier, "d"),
        tok(Category::Delimiter, "="),
        tok(Category::Integer, "1"),
    ]);
    let src2 = "ab c 12 x(y) ";
    for half in 3..10 {
        assert_eq!(tokens(src2, half), tokens(src2, 64));
    }
    assert_eq!(tokens("if x == 10:", 3), tokens("if x == 10:", 50));
}

#[test]
fn lexeme_longer_than_window_is_reported() {
    let e = first_error("abcdefghij ", 3);
    assert_eq!(e.kind, ErrorKind::LexemeTooLong);
    assert_eq!(tokens("abcdefghij ", 64), vec![tok(Category::Identifier, "abcdefghij")]);
}

#[test]
fn zero_byte_ends_the_text() {
    let mut table = SymbolTable::with_keywords();
    let mut lexer = LexicalAnalyzer::new(vec![b'a', b' ', 0, b'b', b' '], 50);
    assert_eq!(lexer.next(&mut table).unwrap().unwrap().text(), &b"a".to_vec());
    assert!(lexer.next(&mut table).is_none());
}

#[test]
fn token_value_names_the_category() {
    assert_eq!(Token::Id(b"x".to_vec()).value(), "Identifier");
    assert_eq!(Token::String(b"'a'".to_vec()).value(), "String");
    assert_eq!(Token::Operator(b"+".to_vec()).value(), "Operator");
    assert_eq!(Token::Delimiter(b",".to_vec()).value(), "Delimiter");
    assert_eq!(Token::Integer(b"1".to_vec()).value(), "Integer");
    assert_eq!(Token::Float(b"1.5".to_vec()).value(), "Float");
    assert_eq!(Token::Keyword(b"if".to_vec(), KeywordKind::If).value(), "Keyword");
    let t = Token::Keyword(b"def".to_vec(), KeywordKind::Def);
    let c = t.clone();
    assert_eq!(c.text(), t.text());
    assert_eq!(c.keyword(), Some(KeywordKind::Def));
}

#[test]
fn config_takes_the_first_argument() {
    let c = Config::new(vec!["prog".to_string(), "file.py".to_string()]).ok().unwrap();
    assert_eq!(c.filename, "file.py");
    assert_eq!(Config::new(vec!["prog".to_string()]).err(), Some("Didn't get a filename"));
}

#[test]
fn double_buffer_walks_across_the_seam() {
    // half 3: two bytes per refill
    let mut b = DoubleBuffer::new(b"abcde".to_vec(), 3);
    let mut got = Vec::new();
    for _ in 0..3 {
        match b.next() {
            Scan::Byte(c) => got.push(c),
            _ => panic!("byte expected"),
        }
    }
    assert_eq!(got, b"abc".to_vec());
    b.back();
    assert_eq!(b.position(), 2);
    assert_eq!(b.get_lexeme(), b"ab".to_vec());
    assert!(matches!(b.next(), Scan::Byte(b'c')));
    assert!(matches!(b.next(), Scan::Byte(b'd')));
    assert_eq!(b.get_lexeme(), b"cd".to_vec());
    assert!(matches!(b.next(), Scan::Byte(b'e')));
    b.discard();
    assert!(matches!(b.next(), Scan::End));
    assert!(matches!(b.next(), Scan::End));
    assert_eq!(b.get_lexeme(), Vec::<u8>::new());
}

#[test]
fn double_buffer_reports_a_full_window() {
    let mut b = DoubleBuffer::new(b"abcdefg".to_vec(), 3);
    let mut n = 0;
    loop {
        match b.next() {
            Scan::Byte(_) => n += 1,
            Scan::Full => break,
            Scan::End => panic!("window should fill first"),
        }
    }
    assert_eq!(n, 4);
    b.discard();
    assert!(matches!(b.next(), Scan::Byte(b'e')));
}
