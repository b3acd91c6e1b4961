use monkey::ast::Expression;
use monkey::ast::Statement;
use monkey::builtins::Builtins;
use monkey::evaluator::{EvalState, Evaluator};
use monkey::lexer::{Lexer, Token, TokenType};
use monkey::object::{EvalError, Object};
use monkey::parser::Parser;

fn lex_all(src: &str) -> Vec<Token> {
    let mut lexer = Lexer::new(src.to_string());
    let mut tokens = Vec::new();
    loop {
        let t = lexer.next_token();
        let done = t.token_type == TokenType::EOF;
        tokens.push(t);
        if done {
            break;
        }
    }
    tokens
}

fn run_prog(src: &str, fuel: u64) -> (Result<Object, EvalError>, EvalState) {
    let lexer = Lexer::new(src.to_string());
    let mut parser = Parser::new(lexer);
    let program = parser.parse_program().expect("program should parse");
    let b = Builtins::new();
    let mut env = b.builtins;
    let global = env.create_child(0);
    let mut st = EvalState { env, output: Vec::new() };
    let r = program.evaluate(&mut st, global, fuel);
    (r, st)
}

fn eval_ok(src: &str) -> Object {
    let (r, _) = run_prog(src, 10_000);
    r.expect("evaluation should succeed")
}

fn eval_err(src: &str) -> EvalError {
    let (r, _) = run_prog(src, 10_000);
    r.expect_err("evaluation should fail")
}

#[test]
fn two_char_operators_lex_as_single_tokens() {
    for (src, ty) in [
        ("==", TokenType::EQ),
        ("!=", TokenType::NOTEQ),
        ("<=", TokenType::LTE),
        (">=", TokenType::GTE),
    ] {
        let tokens = lex_all(src);
        assert_eq!(tokens.len(), 2, "one operator token and EOF for {src}");
        assert_eq!(tokens[0].token_type, ty);
        assert_eq!(tokens[0].literal, src);
        assert_eq!(tokens[1].token_type, TokenType::EOF);
    }
}

#[test]
fn lexer_scans_a_small_program() {
    let tokens = lex_all("let five = 5; five >= \"ok\"");
    let kinds: Vec<TokenType> = tokens.iter().map(|t| t.token_type).collect();
    assert_eq!(
        kinds,
        vec![
            TokenType::LET,
            TokenType::IDENT,
            TokenType::ASSIGN,
            TokenType::INT,
            TokenType::SEMICOLON,
            TokenType::IDENT,
            TokenType::GTE,
            TokenType::STRING,
            TokenType::EOF,
        ]
    );
    assert_eq!(tokens[1].literal, "five");
    assert_eq!(tokens[3].literal, "5");
    assert_eq!(tokens[7].literal, "ok");
}

#[test]
fn lexer_keeps_underscored_identifiers_whole() {
    let tokens = lex_all("foo_bar");
    assert_eq!(tokens.len(), 2);
    assert_eq!(tokens[0].token_type, TokenType::IDENT);
    assert_eq!(tokens[0].literal, "foo_bar");
}

#[test]
fn lexer_marks_unknown_characters_illegal() {
    let tokens = lex_all("@");
    assert_eq!(tokens[0].token_type, TokenType::ILLEGAL);
    assert_eq!(tokens[0].literal, "@");
}

#[test]
fn lexer_reads_unterminated_string_to_end() {
    let tokens = lex_all("\"abc");
    assert_eq!(tokens[0].token_type, TokenType::STRING);
    assert_eq!(tokens[0].literal, "abc");
    assert_eq!(tokens[1].token_type, TokenType::EOF);
}

fn parse_single_expression(src: &str) -> Expression {
    let lexer = Lexer::new(src.to_string());
    let mut parser = Parser::new(lexer);
    let mut program = parser.parse_program().expect("program should parse");
    assert_eq!(program.statements.len(), 1);
    match program.statements.remove(0) {
        Statement::ExpressionStatement { expression, .. } => expression,
        other => panic!("expected an expression statement, got {:?}", other),
    }
}

fn int_value(e: &Expression) -> i64 {
    match e {
        Expression::IntegerLiteral { value, .. } => *value,
        other => panic!("expected an integer literal, got {:?}", other),
    }
}

#[test]
fn product_binds_tighter_than_sum() {
    let e = parse_single_expression("1 + 2 * 3");
    match e {
        Expression::InfixExpression { left, operator, right, .. } => {
            assert_eq!(operator, "+");
            assert_eq!(int_value(&left), 1);
            match *right {
                Expression::InfixExpression { left: rl, operator: rop, right: rr, .. } => {
                    assert_eq!(rop, "*");
                    assert_eq!(int_value(&rl), 2);
                    assert_eq!(int_value(&rr), 3);
                }
                other => panic!("expected product on the right, got {:?}", other),
            }
        }
        other => panic!("expected a sum at the top, got {:?}", other),
    }
}

#[test]
fn prefix_minus_binds_tighter_than_product() {
    let e = parse_single_expression("-1 * 2");
    match e {
        Expression::InfixExpression { left, operator, right, .. } => {
            assert_eq!(operator, "*");
            match *left {
                Expression::PrefixExpression { operator: pop, right: pr, .. } => {
                    assert_eq!(pop, "-");
                    assert_eq!(int_value(&pr), 1);
                }
                other => panic!("expected a prefix on the left, got {:?}", other),
            }
            assert_eq!(int_value(&right), 2);
        }
        other => panic!("expected a product at the top, got {:?}", other),
    }
}

#[test]
fn sums_group_left_to_right() {
    let e = parse_single_expression("a + b + c");
    match e {
        Expression::InfixExpression { left, operator, right, .. } => {
            assert_eq!(operator, "+");
            assert!(matches!(*right, Expression::Identifier { .. }));
            match *left {
                Expression::InfixExpression { left: ll, operator: lop, right: lr, .. } => {
                    assert_eq!(lop, "+");
                    assert!(matches!(*ll, Expression::Identifier { .. }));
                    assert!(matches!(*lr, Expression::Identifier { .. }));
                }
                other => panic!("expected the left sum grouped first, got {:?}", other),
            }
        }
        other => panic!("expected a sum at the top, got {:?}", other),
    }
}

#[test]
fn let_statement_parses_name_and_value() {
    let lexer = Lexer::new("let x = 5;".to_string());
    let mut parser = Parser::new(lexer);
    let program = parser.parse_program().expect("program should parse");
    assert_eq!(program.statements.len(), 1);
    match &program.statements[0] {
        Statement::LetStatement { name, value, .. } => {
            match name {
                Expression::Identifier { value: n, .. } => assert_eq!(n, "x"),
                other => panic!("expected an identifier name, got {:?}", other),
            }
            assert_eq!(int_value(value), 5);
        }
        other => panic!("expected a let statement, got {:?}", other),
    }
}

#[test]
fn first_syntax_error_aborts_the_parse() {
    let lexer = Lexer::new(") 1; 2;".to_string());
    let mut parser = Parser::new(lexer);
    let err = parser.parse_program().expect_err("a leading parenthesis cannot start a statement");
    assert_eq!(
        err,
        monkey::parser::ParseError::MissingPrefixRule { found: TokenType::RPAREN }
    );
}

#[test]
fn oversized_integer_literal_is_a_parse_error() {
    let lexer = Lexer::new("9223372036854775808".to_string());
    let mut parser = Parser::new(lexer);
    assert!(parser.parse_program().is_err());
}

#[test]
fn arithmetic_respects_precedence() {
    assert!(matches!(eval_ok("5 + 5 * 2"), Object::Integer { value: 15 }));
    assert!(matches!(eval_ok("(5 + 5) * 2"), Object::Integer { value: 20 }));
}

#[test]
fn closures_capture_their_defining_scope() {
    let src = "let newAdder = fn(x) { fn(y) { x + y } }; let addTwo = newAdder(2); addTwo(3);";
    assert!(matches!(eval_ok(src), Object::Integer { value: 5 }));
}

#[test]
fn len_counts_elements_and_characters() {
    assert!(matches!(eval_ok("len([1,2,3])"), Object::Integer { value: 3 }));
    assert!(matches!(eval_ok("len(\"hello\")"), Object::Integer { value: 5 }));
}

#[test]
fn push_appends_without_mutating_the_argument() {
    assert!(matches!(
        eval_ok("let a = [1, 2]; let b = push(a, 3); len(b)"),
        Object::Integer { value: 3 }
    ));
    assert!(matches!(
        eval_ok("let a = [1, 2]; let b = push(a, 3); len(a)"),
        Object::Integer { value: 2 }
    ));
    assert!(matches!(
        eval_ok("let a = [1, 2]; let b = push(a, 3); b[2]"),
        Object::Integer { value: 3 }
    ));
}

#[test]
fn hash_lookup_finds_present_and_misses_absent_keys() {
    assert!(matches!(eval_ok("{\"a\": 1}[\"a\"]"), Object::Integer { value: 1 }));
    assert!(matches!(eval_ok("{\"a\": 1}[\"b\"]"), Object::Null));
}

#[test]
fn array_keys_compare_structurally() {
    assert!(matches!(eval_ok("{[1, 2]: 3}[[1, 2]]"), Object::Integer { value: 3 }));
}

#[test]
fn return_skips_remaining_statements_in_a_function() {
    assert!(matches!(
        eval_ok("let f = fn() { return 10; 99 }; f()"),
        Object::Integer { value: 10 }
    ));
}

#[test]
fn return_stops_the_program_top_level() {
    assert!(matches!(eval_ok("return 5; 99"), Object::Integer { value: 5 }));
}

#[test]
fn division_by_zero_is_a_reported_error() {
    assert_eq!(eval_err("1 / 0"), EvalError::DivisionByZero);
}

#[test]
fn arity_mismatch_is_a_reported_error() {
    assert_eq!(eval_err("let f = fn(x, y) { x + y }; f(1);"), EvalError::ArityMismatch);
}

#[test]
fn unhashable_key_is_a_reported_error() {
    assert_eq!(eval_err("{ fn() {}: 1 }"), EvalError::UnhashableKey);
    assert_eq!(eval_err("{\"a\": 1}[fn() {}]"), EvalError::UnhashableKey);
}

#[test]
fn integer_overflow_is_a_reported_error() {
    assert_eq!(eval_err("9223372036854775807 + 1"), EvalError::IntegerOverflow);
}

#[test]
fn runaway_recursion_is_a_reported_error() {
    let (r, _) = run_prog("let f = fn(x) { f(x) }; f(1)", 200);
    assert_eq!(r.expect_err("recursion should exhaust the depth bound"), EvalError::RecursionLimit);
}

#[test]
fn only_boolean_true_is_truthy() {
    assert!(matches!(eval_ok("if (true) { 1 } else { 2 }"), Object::Integer { value: 1 }));
    assert!(matches!(eval_ok("if (false) { 1 } else { 2 }"), Object::Integer { value: 2 }));
    assert!(matches!(eval_ok("if (1) { 10 }"), Object::Null));
    assert!(matches!(eval_ok("if (\"x\") { 10 } else { 20 }"), Object::Integer { value: 20 }));
}

#[test]
fn bang_negates_booleans_and_maps_the_rest_to_false() {
    assert!(matches!(eval_ok("!true"), Object::Boolean { value: false }));
    assert!(matches!(eval_ok("!false"), Object::Boolean { value: true }));
    assert!(matches!(eval_ok("!5"), Object::Boolean { value: false }));
    assert!(matches!(eval_ok("!!true"), Object::Boolean { value: true }));
}

#[test]
fn minus_negates_integers_and_nulls_the_rest() {
    assert!(matches!(eval_ok("-5"), Object::Integer { value: -5 }));
    assert!(matches!(eval_ok("-true"), Object::Null));
}

#[test]
fn mixed_operand_kinds_yield_null() {
    assert!(matches!(eval_ok("1 + true"), Object::Null));
    assert!(matches!(eval_ok("\"a\" - \"b\""), Object::Null));
}

#[test]
fn string_concatenation_joins_texts() {
    match eval_ok("\"foo\" + \"bar\"") {
        Object::Str { value } => assert_eq!(value, "foobar"),
        other => panic!("expected a string, got {:?}", other),
    }
}

#[test]
fn comparisons_yield_booleans() {
    assert!(matches!(eval_ok("3 < 4"), Object::Boolean { value: true }));
    assert!(matches!(eval_ok("3 >= 4"), Object::Boolean { value: false }));
    assert!(matches!(eval_ok("3 == 3"), Object::Boolean { value: true }));
    assert!(matches!(eval_ok("true != false"), Object::Boolean { value: true }));
}

#[test]
fn unbound_identifiers_evaluate_to_null() {
    assert!(matches!(eval_ok("nosuchname"), Object::Null));
}

#[test]
fn out_of_range_index_yields_null() {
    assert!(matches!(eval_ok("[1, 2][5]"), Object::Null));
    assert!(matches!(eval_ok("[1, 2][-1]"), Object::Null));
    assert!(matches!(eval_ok("[1, 2][1]"), Object::Integer { value: 2 }));
}

#[test]
fn first_last_and_rest_walk_arrays() {
    assert!(matches!(eval_ok("first([7, 8])"), Object::Integer { value: 7 }));
    assert!(matches!(eval_ok("last([7, 8])"), Object::Integer { value: 8 }));
    assert!(matches!(eval_ok("first([])"), Object::Null));
    assert!(matches!(eval_ok("rest([])"), Object::Null));
    assert!(matches!(eval_ok("len(rest([7, 8, 9]))"), Object::Integer { value: 2 }));
    assert!(matches!(eval_ok("rest([7, 8, 9])[0]"), Object::Integer { value: 8 }));
}

#[test]
fn puts_logs_its_arguments_and_yields_null() {
    let (r, st) = run_prog("puts(1, true)", 10_000);
    assert!(matches!(r, Ok(Object::Null)));
    assert_eq!(st.output.len(), 2);
    assert!(matches!(st.output[0], Object::Integer { value: 1 }));
    assert!(matches!(st.output[1], Object::Boolean { value: true }));
}

#[test]
fn later_bindings_shadow_earlier_ones() {
    assert!(matches!(eval_ok("let x = 1; let x = 2; x"), Object::Integer { value: 2 }));
}

#[test]
fn recursive_functions_see_their_own_binding() {
    let src = "let fact = fn(n) { if (n == 0) { 1 } else { n * fact(n - 1) } }; fact(5)";
    assert!(matches!(eval_ok(src), Object::Integer { value: 120 }));
}

#[test]
fn statement_without_a_prefix_rule_is_a_parse_error() {
    let lexer = Lexer::new(";".to_string());
    let mut parser = Parser::new(lexer);
    let err = parser.parse_program().expect_err("a lone semicolon should not parse");
    assert_eq!(
        err,
        monkey::parser::ParseError::MissingPrefixRule { found: TokenType::SEMICOLON }
    );
}

#[test]
fn missing_delimiter_is_a_parse_error() {
    let lexer = Lexer::new("if 5 { 1 }".to_string());
    let mut parser = Parser::new(lexer);
    let err = parser.parse_program().expect_err("the condition must be parenthesized");
    assert_eq!(
        err,
        monkey::parser::ParseError::ExpectedButFound {
            expected: TokenType::LPAREN,
            found: TokenType::INT,
        }
    );
}

#[test]
fn absurdly_nested_input_is_a_parse_error() {
    let mut src = String::new();
    for _ in 0..2000 {
        src.push('-');
    }
    src.push('1');
    let lexer = Lexer::new(src);
    let mut parser = Parser::new(lexer);
    let err = parser.parse_program().expect_err("the nesting bound should be exceeded");
    assert_eq!(err, monkey::parser::ParseError::NestingTooDeep);
}
