use python_scanner::delimiter::Delimiter;
use python_scanner::symbols::{DEDENT, INDENT, NEWLINE, STRING_CONTENT, STRING_END, STRING_START};
use python_scanner::{Lexer, Scanner, TSLexer, ValidSymbols};

fn lexer_on(text: &str) -> TSLexer {
    TSLexer::new(text.chars().map(|c| c as i32).collect())
}

fn none() -> ValidSymbols {
    ValidSymbols {
        newline: false,
        indent: false,
        dedent: false,
        string_start: false,
        string_content: false,
        string_end: false,
        comment: false,
        close_paren: false,
        close_bracket: false,
        close_brace: false,
    }
}

fn string_start() -> ValidSymbols {
    ValidSymbols { string_start: true, ..none() }
}

fn string_content() -> ValidSymbols {
    ValidSymbols { string_content: true, string_end: true, ..none() }
}

fn scan(scanner: &mut Scanner, text: &str, valid: ValidSymbols) -> (bool, u16, usize) {
    let mut lexer = lexer_on(text);
    let matched = scanner.scan(&mut lexer, &valid);
    (matched, lexer.result_symbol, lexer.token_end())
}

fn assert_indents_ordered(scanner: &Scanner) {
    let indents = scanner.indent_lengths();
    assert!(!indents.is_empty());
    assert_eq!(indents[0], 0);
    for w in indents.windows(2) {
        assert!(w[0] < w[1]);
    }
}

#[test]
fn new_scanner_is_in_initial_state() {
    let scanner = Scanner::new();
    assert_eq!(scanner.indent_lengths(), &vec![0u8]);
    assert!(scanner.delimiters().is_empty());
}

#[test]
fn indent_after_colon_then_dedent_at_eof() {
    let mut scanner = Scanner::new();
    let after_colon = ValidSymbols { indent: true, newline: true, ..none() };
    let (matched, symbol, _) = scan(&mut scanner, "\n    y\n", after_colon);
    assert!(matched);
    assert_eq!(symbol, INDENT);
    assert_eq!(scanner.indent_lengths(), &vec![0u8, 4]);

    let after_statement = ValidSymbols { newline: true, dedent: true, ..none() };
    let (matched, symbol, _) = scan(&mut scanner, "\n", after_statement);
    assert!(matched);
    assert_eq!(symbol, DEDENT);
    assert_eq!(scanner.indent_lengths(), &vec![0u8]);

    let (matched, symbol, _) = scan(&mut scanner, "\n", after_statement);
    assert!(matched);
    assert_eq!(symbol, NEWLINE);
    assert_eq!(scanner.indent_lengths(), &vec![0u8]);
}

#[test]
fn triple_quoted_string_tokens() {
    let mut scanner = Scanner::new();
    let (matched, symbol, end) = scan(&mut scanner, "'''abc'''", string_start());
    assert!(matched);
    assert_eq!(symbol, STRING_START);
    assert_eq!(end, 3);
    assert_eq!(scanner.delimiters().len(), 1);
    let d = scanner.delimiters()[0];
    assert!(d.is_triple());
    assert_eq!(d.end_character(), '\'' as i32);

    let (matched, symbol, end) = scan(&mut scanner, "abc'''", string_content());
    assert!(matched);
    assert_eq!(symbol, STRING_CONTENT);
    assert_eq!(end, 3);
    assert_eq!(scanner.delimiters().len(), 1);

    let (matched, symbol, end) = scan(&mut scanner, "'''", string_content());
    assert!(matched);
    assert_eq!(symbol, STRING_END);
    assert_eq!(end, 3);
    assert!(scanner.delimiters().is_empty());
}

#[test]
fn triple_quoted_string_keeps_lone_quotes_as_content() {
    let mut scanner = Scanner::new();
    scan(&mut scanner, "\"\"\"", string_start());
    let (matched, symbol, end) = scan(&mut scanner, "\"\"x\"\"\"", string_content());
    assert!(matched);
    assert_eq!(symbol, STRING_CONTENT);
    assert_eq!(end, 2);
    assert_eq!(scanner.delimiters().len(), 1);
}

#[test]
fn format_string_stops_before_brace() {
    let mut scanner = Scanner::new();
    let (matched, symbol, end) = scan(&mut scanner, "f\"{x}\"", string_start());
    assert!(matched);
    assert_eq!(symbol, STRING_START);
    assert_eq!(end, 2);
    assert!(scanner.delimiters()[0].is_format());

    let (matched, _, _) = scan(&mut scanner, "{x}\"", string_content());
    assert!(!matched);
    assert_eq!(scanner.delimiters().len(), 1);

    let (matched, symbol, end) = scan(&mut scanner, "\"", string_content());
    assert!(matched);
    assert_eq!(symbol, STRING_END);
    assert_eq!(end, 1);
    assert!(scanner.delimiters().is_empty());
}

#[test]
fn format_string_content_before_brace() {
    let mut scanner = Scanner::new();
    scan(&mut scanner, "F'", string_start());
    let (matched, symbol, end) = scan(&mut scanner, "ab{x}'", string_content());
    assert!(matched);
    assert_eq!(symbol, STRING_CONTENT);
    assert_eq!(end, 2);
}

#[test]
fn raw_string_escaped_terminator_stays_open() {
    let mut scanner = Scanner::new();
    let (matched, symbol, end) = scan(&mut scanner, "r\"a\\\"b\"", string_start());
    assert!(matched);
    assert_eq!(symbol, STRING_START);
    assert_eq!(end, 2);
    assert!(scanner.delimiters()[0].is_raw());

    let (matched, symbol, end) = scan(&mut scanner, "a\\\"b\"", string_content());
    assert!(matched);
    assert_eq!(symbol, STRING_CONTENT);
    assert_eq!(end, 4);
    assert_eq!(scanner.delimiters().len(), 1);

    let (matched, symbol, _) = scan(&mut scanner, "\"", string_content());
    assert!(matched);
    assert_eq!(symbol, STRING_END);
    assert!(scanner.delimiters().is_empty());
}

#[test]
fn raw_string_double_backslash_before_terminator() {
    let mut scanner = Scanner::new();
    scan(&mut scanner, "r\"", string_start());
    let (matched, symbol, end) = scan(&mut scanner, "a\\\\\"", string_content());
    assert!(matched);
    assert_eq!(symbol, STRING_CONTENT);
    assert_eq!(end, 3);
}

#[test]
fn regular_escape_ends_content() {
    let mut scanner = Scanner::new();
    scan(&mut scanner, "'", string_start());
    let (matched, symbol, end) = scan(&mut scanner, "ab\\n'", string_content());
    assert!(matched);
    assert_eq!(symbol, STRING_CONTENT);
    assert_eq!(end, 2);
}

#[test]
fn byte_string_unicode_escapes_are_content() {
    let mut scanner = Scanner::new();
    scan(&mut scanner, "b\"", string_start());
    assert!(scanner.delimiters()[0].is_bytes());
    let (matched, symbol, end) = scan(&mut scanner, "\\N{x}\"", string_content());
    assert!(matched);
    assert_eq!(symbol, STRING_CONTENT);
    assert_eq!(end, 5);

    let (matched, _, _) = scan(&mut scanner, "\\n\"", string_content());
    assert!(!matched);
}

#[test]
fn unterminated_single_line_string_is_no_match() {
    let mut scanner = Scanner::new();
    scan(&mut scanner, "'", string_start());
    let (matched, _, _) = scan(&mut scanner, "ab\ncd'", string_content());
    assert!(!matched);
    assert_eq!(scanner.delimiters().len(), 1);
}

#[test]
fn tab_counts_eight() {
    let mut scanner = Scanner::new();
    let valid = ValidSymbols { indent: true, ..none() };
    let (matched, symbol, _) = scan(&mut scanner, "\n\tx", valid);
    assert!(matched);
    assert_eq!(symbol, INDENT);
    assert_eq!(scanner.indent_lengths(), &vec![0u8, 8]);
    let (matched, symbol, _) = scan(&mut scanner, "\n \tx", valid);
    assert!(matched);
    assert_eq!(symbol, INDENT);
    assert_eq!(scanner.indent_lengths(), &vec![0u8, 8, 9]);
}

#[test]
fn dedent_waits_for_comment_of_current_block() {
    let mut scanner = Scanner::new();
    scan(&mut scanner, "\n    y", ValidSymbols { indent: true, ..none() });
    let valid = ValidSymbols { newline: true, dedent: true, ..none() };
    let (matched, symbol, _) = scan(&mut scanner, "\n    # note\nz", valid);
    assert!(matched);
    assert_eq!(symbol, NEWLINE);
    assert_eq!(scanner.indent_lengths(), &vec![0u8, 4]);

    let (matched, symbol, _) = scan(&mut scanner, "\n# note\nz", valid);
    assert!(matched);
    assert_eq!(symbol, DEDENT);
    assert_eq!(scanner.indent_lengths(), &vec![0u8]);
}

#[test]
fn dedent_without_newline_outside_brackets() {
    let mut scanner = Scanner::new();
    scan(&mut scanner, "\n  y", ValidSymbols { indent: true, ..none() });
    let (matched, symbol, _) = scan(&mut scanner, "\nz", none());
    assert!(matched);
    assert_eq!(symbol, DEDENT);

    let mut scanner = Scanner::new();
    scan(&mut scanner, "\n  y", ValidSymbols { indent: true, ..none() });
    let in_brackets = ValidSymbols { close_paren: true, ..none() };
    let (matched, _, _) = scan(&mut scanner, "\nz", in_brackets);
    assert!(!matched);
    assert_eq!(scanner.indent_lengths(), &vec![0u8, 2]);
}

#[test]
fn malformed_line_continuation_is_no_match() {
    let mut scanner = Scanner::new();
    let valid = ValidSymbols { newline: true, indent: true, dedent: true, ..none() };
    let (matched, _, _) = scan(&mut scanner, "\\x", valid);
    assert!(!matched);
    let (matched, _, _) = scan(&mut scanner, "\\\r\n  x", valid);
    assert!(!matched);
    assert_eq!(scanner.indent_lengths(), &vec![0u8]);
}

#[test]
fn error_recovery_suppresses_newline() {
    let mut scanner = Scanner::new();
    let valid = ValidSymbols { newline: true, string_content: true, indent: true, ..none() };
    let (matched, _, _) = scan(&mut scanner, "\nx", valid);
    assert!(!matched);
}

#[test]
fn prefix_letters_without_quote_are_no_match() {
    let mut scanner = Scanner::new();
    let (matched, _, _) = scan(&mut scanner, "bar", string_start());
    assert!(!matched);
    assert!(scanner.delimiters().is_empty());
    let (matched, symbol, _) = scan(&mut scanner, "Rb'x'", string_start());
    assert!(matched);
    assert_eq!(symbol, STRING_START);
    let d = scanner.delimiters()[0];
    assert!(d.is_raw() && d.is_bytes() && !d.is_format() && !d.is_triple());
}

#[test]
fn comment_line_blocks_string_start() {
    let mut scanner = Scanner::new();
    let (matched, _, _) = scan(&mut scanner, "# c\n'x'", string_start());
    assert!(!matched);
}

#[test]
fn empty_mask_never_matches() {
    let mut scanner = Scanner::new();
    for text in ["\n    x", "'abc'", "f\"x\"", "# c\n", "", "\\x", "   "] {
        let (matched, _, _) = scan(&mut scanner, text, none());
        assert!(!matched);
        assert_eq!(scanner.indent_lengths(), &vec![0u8]);
        assert!(scanner.delimiters().is_empty());
    }
}

#[test]
fn indent_stack_stays_ordered() {
    let mut scanner = Scanner::new();
    let all = ValidSymbols {
        newline: true,
        indent: true,
        dedent: true,
        string_start: true,
        ..none()
    };
    for text in ["\n  a", "\n    b", "\n\tc", "\n d", "\n", "\n      e", "", ""] {
        scan(&mut scanner, text, all);
        assert_indents_ordered(&scanner);
    }
}

#[test]
fn serialize_round_trip() {
    let mut scanner = Scanner::new();
    scan(&mut scanner, "\n  a", ValidSymbols { indent: true, ..none() });
    scan(&mut scanner, "\n     a", ValidSymbols { indent: true, ..none() });
    scan(&mut scanner, "rb'''", string_start());
    scan(&mut scanner, "f\"", string_start());
    let mut buffer = [0u8; 1024];
    let written = scanner.serialize(&mut buffer);
    assert_eq!(written, 5);
    assert_eq!(&buffer[..5], &[2u8, 8 | 64 | 1 | 32, 16 | 2, 2, 5]);

    let mut restored = Scanner::new();
    restored.deserialize(&buffer, written);
    assert_eq!(restored.indent_lengths(), scanner.indent_lengths());
    assert_eq!(restored.delimiters(), scanner.delimiters());
}

#[test]
fn deserialize_nothing_gives_initial_state() {
    let mut scanner = Scanner::new();
    scan(&mut scanner, "'", string_start());
    let buffer = [0u8; 4];
    scanner.deserialize(&buffer, 0);
    assert_eq!(scanner.indent_lengths(), &vec![0u8]);
    assert!(scanner.delimiters().is_empty());
}

#[test]
fn serialize_keeps_at_most_255_delimiters() {
    let mut scanner = Scanner::new();
    for _ in 0..300 {
        let (matched, _, _) = scan(&mut scanner, "\"", string_start());
        assert!(matched);
    }
    assert_eq!(scanner.delimiters().len(), 300);
    let mut buffer = [0u8; 1024];
    let written = scanner.serialize(&mut buffer);
    assert_eq!(written, 256);
    assert_eq!(buffer[0], 255);
    assert!(buffer[1..256].iter().all(|b| *b == 2));

    let mut restored = Scanner::new();
    restored.deserialize(&buffer, written);
    assert_eq!(restored.delimiters().len(), 255);
    assert_eq!(restored.indent_lengths(), &vec![0u8]);
}

#[test]
fn serialize_truncates_indents_to_buffer() {
    let mut buffer = [0u8; 1024];
    buffer[0] = 0;
    for i in 1..1024 {
        buffer[i] = (i % 200) as u8;
    }
    let mut scanner = Scanner::new();
    scanner.deserialize(&buffer, 1024);
    assert_eq!(scanner.indent_lengths().len(), 1024);
    let mut out = [0u8; 1024];
    assert_eq!(scanner.serialize(&mut out), 1024);
    assert_eq!(out[1023], buffer[1023]);
}

#[test]
fn delimiter_flags() {
    let mut d = Delimiter::new();
    assert_eq!(d.end_character(), 0);
    d.set_end_character('`');
    assert_eq!(d.end_character(), '`' as i32);
    d.set_format();
    d.set_triple();
    assert!(d.is_format() && d.is_triple() && !d.is_raw() && !d.is_bytes());
    assert_eq!(d.to_byte(), 4 | 16 | 32);
    assert_eq!(Delimiter::from_byte(2).end_character(), '"' as i32);
}

#[test]
fn lexer_skip_moves_token_start() {
    let mut lexer = lexer_on("ab");
    assert_eq!(lexer.lookahead(), 'a' as i32);
    lexer.advance(true);
    assert_eq!(lexer.token_start(), 1);
    lexer.advance(false);
    assert_eq!(lexer.position(), 2);
    assert_eq!(lexer.token_start(), 1);
    lexer.advance(false);
    assert_eq!(lexer.position(), 2);
    assert_eq!(lexer.lookahead(), 0);
    lexer.mark_end();
    assert_eq!(lexer.token_end(), 2);
}

fn scan_span(scanner: &mut Scanner, text: &str, valid: ValidSymbols) -> (bool, u16, usize, usize) {
    let mut lexer = lexer_on(text);
    let matched = scanner.scan(&mut lexer, &valid);
    (matched, lexer.result_symbol, lexer.token_start(), lexer.token_end())
}

#[test]
fn literal_closes_only_where_string_end_is_accepted() {
    let content_only = ValidSymbols { string_content: true, ..none() };
    let mut scanner = Scanner::new();
    scan(&mut scanner, "\"", string_start());
    let (matched, _, _) = scan(&mut scanner, "\"", content_only);
    assert!(!matched);
    assert_eq!(scanner.delimiters().len(), 1);
    let (matched, symbol, end) = scan(&mut scanner, "ab\"", content_only);
    assert!(matched);
    assert_eq!(symbol, STRING_CONTENT);
    assert_eq!(end, 2);

    let mut scanner = Scanner::new();
    scan(&mut scanner, "'''", string_start());
    let (matched, _, _) = scan(&mut scanner, "'''", content_only);
    assert!(!matched);
    assert_eq!(scanner.delimiters().len(), 1);
}

#[test]
fn token_spans_of_a_triple_quoted_string() {
    let mut scanner = Scanner::new();
    assert_eq!(scan_span(&mut scanner, "'''abc'''", string_start()), (true, STRING_START, 0, 3));
    assert_eq!(scanner.delimiters()[0].to_byte(), 1 | 32);
    assert_eq!(scan_span(&mut scanner, "abc'''", string_content()), (true, STRING_CONTENT, 0, 3));
    assert_eq!(scan_span(&mut scanner, "'''", string_content()), (true, STRING_END, 0, 3));
}

#[test]
fn token_spans_skip_leading_whitespace() {
    let mut scanner = Scanner::new();
    let after_colon = ValidSymbols { indent: true, ..none() };
    assert_eq!(scan_span(&mut scanner, "\n    y", after_colon), (true, INDENT, 5, 0));
    assert_eq!(scan_span(&mut scanner, "  f'x'", string_start()), (true, STRING_START, 2, 4));
    assert_eq!(scan_span(&mut scanner, "x'", string_content()), (true, STRING_CONTENT, 0, 1));
}

#[test]
fn raw_and_byte_content_spans() {
    let mut scanner = Scanner::new();
    scan(&mut scanner, "r\"", string_start());
    assert_eq!(scan_span(&mut scanner, "a\\\"b\"", string_content()), (true, STRING_CONTENT, 0, 4));
    let mut scanner = Scanner::new();
    scan(&mut scanner, "b\"", string_start());
    assert_eq!(scanner.delimiters()[0].to_byte(), 64 | 2);
    assert_eq!(scan_span(&mut scanner, "a\\Nb\"", string_content()), (true, STRING_CONTENT, 0, 4));
}

#[test]
fn serialize_leaves_rest_of_buffer() {
    let scanner = Scanner::new();
    let mut buffer = [0xAAu8; 1024];
    assert_eq!(scanner.serialize(&mut buffer), 1);
    assert_eq!(buffer[0], 0);
    assert!(buffer[1..].iter().all(|b| *b == 0xAA));
}

#[test]
fn indent_width_stops_at_255() {
    let mut scanner = Scanner::new();
    let text = format!("\n{}x", " ".repeat(300));
    let (matched, symbol, _) = scan(&mut scanner, &text, ValidSymbols { indent: true, ..none() });
    assert!(matched);
    assert_eq!(symbol, INDENT);
    assert_eq!(scanner.indent_lengths(), &vec![0u8, 255]);
}
