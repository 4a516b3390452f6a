use engine::{lexer, scan_code, Token, TokenType};

fn summary(tokens: &[Token]) -> Vec<(TokenType, String, usize, usize)> {
    tokens.iter().map(|t| (t.token_type, t.value.clone(), t.line, t.column)).collect()
}

fn item(kind: TokenType, text: &str, line: usize, column: usize) -> (TokenType, String, usize, usize) {
    (kind, text.to_string(), line, column)
}

#[test]
fn empty_source_has_no_tokens() {
    assert!(lexer("").is_empty());
}

#[test]
fn blanks_alone_have_no_tokens() {
    assert!(lexer(" \t\r\n \n\t").is_empty());
}

#[test]
fn simple_production_gives_four_tokens() {
    let tokens = lexer("a : b ;");
    assert_eq!(
        summary(&tokens),
        vec![
            item(TokenType::Identifier, "a", 1, 1),
            item(TokenType::Colon, ":", 1, 3),
            item(TokenType::Identifier, "b", 1, 5),
            item(TokenType::Semicolon, ";", 1, 7),
        ]
    );
    assert!(tokens.iter().all(|t| t.token_type != TokenType::Whitespace));
}

#[test]
fn quoted_literal_keeps_its_quotes() {
    assert_eq!(summary(&lexer("'+'")), vec![item(TokenType::Literal, "'+'", 1, 1)]);
}

#[test]
fn double_quoted_literal_ends_at_the_same_quote() {
    assert_eq!(
        summary(&lexer("\"it's\" x")),
        vec![item(TokenType::Literal, "\"it's\"", 1, 1), item(TokenType::Identifier, "x", 1, 8)]
    );
}

#[test]
fn literal_has_no_escapes() {
    assert_eq!(
        summary(&lexer("'\\'' a")),
        vec![
            item(TokenType::Literal, "'\\'", 1, 1),
            item(TokenType::Literal, "' a", 1, 4),
        ]
    );
}

#[test]
fn unterminated_literal_runs_to_the_end() {
    assert_eq!(summary(&lexer("'abc ; |")), vec![item(TokenType::Literal, "'abc ; |", 1, 1)]);
}

#[test]
fn lone_quote_is_a_literal() {
    assert_eq!(summary(&lexer("'")), vec![item(TokenType::Literal, "'", 1, 1)]);
}

#[test]
fn single_character_tokens() {
    assert_eq!(
        summary(&lexer(":|;")),
        vec![
            item(TokenType::Colon, ":", 1, 1),
            item(TokenType::Pipe, "|", 1, 2),
            item(TokenType::Semicolon, ";", 1, 3),
        ]
    );
}

#[test]
fn section_separator_takes_two_characters() {
    assert_eq!(
        summary(&lexer("%%%%%")),
        vec![
            item(TokenType::SectionSeparator, "%%", 1, 1),
            item(TokenType::SectionSeparator, "%%", 1, 3),
            item(TokenType::BisonKeyword, "%", 1, 5),
        ]
    );
}

#[test]
fn keyword_is_percent_and_letters() {
    assert_eq!(
        summary(&lexer("%token NUM")),
        vec![item(TokenType::BisonKeyword, "%token", 1, 1), item(TokenType::Identifier, "NUM", 1, 8)]
    );
}

#[test]
fn keyword_stops_at_the_first_character_that_is_no_letter() {
    assert_eq!(
        summary(&lexer("%left1 %a_b")),
        vec![
            item(TokenType::BisonKeyword, "%left", 1, 1),
            item(TokenType::Regex, "1", 1, 6),
            item(TokenType::BisonKeyword, "%a", 1, 8),
            item(TokenType::Identifier, "_b", 1, 10),
        ]
    );
}

#[test]
fn action_block_is_trimmed_and_loses_its_braces() {
    assert_eq!(
        summary(&lexer("{ $$ = $1; } ;")),
        vec![item(TokenType::ActionBlock, "$$ = $1;", 1, 1), item(TokenType::Semicolon, ";", 1, 14)]
    );
}

#[test]
fn action_block_keeps_inner_blanks() {
    assert_eq!(
        summary(&lexer("{\t a  b\n c \r\n}")),
        vec![item(TokenType::ActionBlock, "a  b\n c", 1, 1)]
    );
}

#[test]
fn action_block_trims_unicode_white_space() {
    assert_eq!(
        summary(&lexer("{\u{00A0}\u{2003}x y\u{3000}}")),
        vec![item(TokenType::ActionBlock, "x y", 1, 1)]
    );
}

#[test]
fn action_block_of_blanks_is_empty() {
    assert_eq!(summary(&lexer("{   }")), vec![item(TokenType::ActionBlock, "", 1, 1)]);
    assert_eq!(summary(&lexer("{}")), vec![item(TokenType::ActionBlock, "", 1, 1)]);
}

#[test]
fn action_block_ends_at_the_first_closing_brace() {
    assert_eq!(
        summary(&lexer("{ if (x) { y } }")),
        vec![item(TokenType::ActionBlock, "if (x) { y", 1, 1), item(TokenType::Regex, "}", 1, 16)]
    );
}

#[test]
fn unterminated_action_block_runs_to_the_end() {
    assert_eq!(summary(&lexer("{ abc ; ")), vec![item(TokenType::ActionBlock, "abc ;", 1, 1)]);
    assert_eq!(summary(&lexer("{")), vec![item(TokenType::ActionBlock, "", 1, 1)]);
}

#[test]
fn identifier_takes_letters_digits_and_underscores() {
    assert_eq!(
        summary(&lexer("_a1 b_2c")),
        vec![item(TokenType::Identifier, "_a1", 1, 1), item(TokenType::Identifier, "b_2c", 1, 5)]
    );
}

#[test]
fn identifier_takes_letters_of_any_script() {
    assert_eq!(
        summary(&lexer("été\u{0661} λ")),
        vec![
            item(TokenType::Identifier, "été\u{0661}", 1, 1),
            item(TokenType::Identifier, "λ", 1, 6),
        ]
    );
}

#[test]
fn identifier_stops_at_punctuation() {
    assert_eq!(
        summary(&lexer("a-b")),
        vec![item(TokenType::Identifier, "a", 1, 1), item(TokenType::Regex, "-b", 1, 2)]
    );
}

#[test]
fn pattern_text_runs_to_a_blank() {
    assert_eq!(
        summary(&lexer("[0-9]+ \\n")),
        vec![item(TokenType::Regex, "[0-9]+", 1, 1), item(TokenType::Regex, "\\n", 1, 8)]
    );
}

#[test]
fn pattern_text_stops_at_an_opening_brace() {
    assert_eq!(
        summary(&lexer("[a-z]+{ x }")),
        vec![item(TokenType::Regex, "[a-z]+", 1, 1), item(TokenType::ActionBlock, "x", 1, 7)]
    );
}

#[test]
fn pattern_text_stops_at_every_blank() {
    assert_eq!(
        summary(&lexer("1+\r\n2*\t3\n")),
        vec![
            item(TokenType::Regex, "1+", 1, 1),
            item(TokenType::Regex, "2*", 2, 1),
            item(TokenType::Regex, "3", 2, 4),
        ]
    );
}

#[test]
fn pattern_text_may_hold_token_characters() {
    assert_eq!(summary(&lexer("(a|b):;'x'")), vec![item(TokenType::Regex, "(a|b):;'x'", 1, 1)]);
}

#[test]
fn digits_start_pattern_text() {
    assert_eq!(summary(&lexer("12ab")), vec![item(TokenType::Regex, "12ab", 1, 1)]);
}

#[test]
fn lines_and_columns_count_from_one() {
    assert_eq!(
        summary(&lexer("a\n  b\n\n\tc : d")),
        vec![
            item(TokenType::Identifier, "a", 1, 1),
            item(TokenType::Identifier, "b", 2, 3),
            item(TokenType::Identifier, "c", 4, 2),
            item(TokenType::Colon, ":", 4, 4),
            item(TokenType::Identifier, "d", 4, 6),
        ]
    );
}

#[test]
fn columns_count_characters_not_bytes() {
    assert_eq!(
        summary(&lexer("é ü")),
        vec![item(TokenType::Identifier, "é", 1, 1), item(TokenType::Identifier, "ü", 1, 3)]
    );
}

#[test]
fn newline_inside_an_action_block_counts() {
    assert_eq!(
        summary(&lexer("{ x\ny } z")),
        vec![item(TokenType::ActionBlock, "x\ny", 1, 1), item(TokenType::Identifier, "z", 2, 5)]
    );
}

#[test]
fn newline_inside_a_literal_counts() {
    assert_eq!(
        summary(&lexer("'a\n\nb' c")),
        vec![item(TokenType::Literal, "'a\n\nb'", 1, 1), item(TokenType::Identifier, "c", 3, 4)]
    );
}

#[test]
fn carriage_return_does_not_start_a_line() {
    assert_eq!(
        summary(&lexer("a\rb")),
        vec![item(TokenType::Identifier, "a", 1, 1), item(TokenType::Identifier, "b", 1, 3)]
    );
}

#[test]
fn token_places_never_go_back() {
    let tokens = lexer("%token A B\n%%\nexpr : expr '+' term { $$ = $1 + $3; }\n     | term\n     ;\n[0-9]+ {x}");
    assert_eq!(tokens.len(), 15);
    for pair in tokens.windows(2) {
        let before = (pair[0].line, pair[0].column);
        let after = (pair[1].line, pair[1].column);
        assert!(before < after);
    }
}

#[test]
fn tokens_hold_every_character_that_is_no_blank() {
    let source = "%token A\n%% e : e '+' t\t| t ;\r\n[0-9]+ x_1 %%";
    let joined: String = lexer(source).iter().map(|t| t.value.as_str()).collect();
    let expected: String = source.chars().filter(|c| !" \t\r\n".contains(*c)).collect();
    assert_eq!(joined, expected);
}

#[test]
fn only_the_closing_brace_of_an_action_block_is_dropped() {
    let tokens = lexer("a {b} c {d");
    assert_eq!(
        summary(&tokens),
        vec![
            item(TokenType::Identifier, "a", 1, 1),
            item(TokenType::ActionBlock, "b", 1, 3),
            item(TokenType::Identifier, "c", 1, 7),
            item(TokenType::ActionBlock, "d", 1, 9),
        ]
    );
}

#[test]
fn whitespace_and_unknown_are_never_produced() {
    let tokens = lexer("a : 'b' | {c} ; %% %d [e]+ \u{00A0} \u{1F600} #");
    assert!(tokens
        .iter()
        .all(|t| t.token_type != TokenType::Whitespace && t.token_type != TokenType::Unknown));
    assert_eq!(tokens.len(), 12);
}

#[test]
fn scan_code_is_lexer() {
    let source = "%token NUM %% expr : NUM { $$ = $1; } ;";
    assert_eq!(summary(&scan_code(source)), summary(&lexer(source)));
    assert_eq!(scan_code(source).len(), 8);
}

#[test]
fn tokenizing_twice_gives_the_same_tokens() {
    let source = "a : 'b' {c}\n| d ;";
    assert_eq!(summary(&lexer(source)), summary(&lexer(source)));
}

#[test]
fn token_clone_keeps_every_field() {
    let tokens = lexer("  abc");
    let copy = tokens[0].clone();
    assert_eq!(summary(&[copy]), vec![item(TokenType::Identifier, "abc", 1, 3)]);
}
