use rlox::expr::{Expr, Stmt};
use rlox::grammar::Expected;
use rlox::parser::{desugar_for, parse, Parser, SyntaxError};
use rlox::scanner::scan;
use rlox::token::{Literal, Token, TokenType};

fn program(source: &str) -> Vec<Stmt> {
    parse(scan(source).unwrap()).unwrap()
}

fn failure(source: &str) -> SyntaxError {
    parse(scan(source).unwrap()).unwrap_err()
}

fn shape(expr: &Expr) -> String {
    match expr {
        Expr::Literal(Literal::Number(bits)) => format!("{}", f64::from_bits(*bits)),
        Expr::Literal(Literal::String(text)) => format!("{:?}", text),
        Expr::Literal(Literal::True) => String::from("true"),
        Expr::Literal(Literal::False) => String::from("false"),
        Expr::Literal(Literal::Nil) => String::from("nil"),
        Expr::Unary(op, operand) => format!("({} {})", op.lexme, shape(operand)),
        Expr::Binary(left, op, right) => {
            format!("({} {} {})", op.lexme, shape(left), shape(right))
        }
        Expr::Logical(left, op, right) => {
            format!("[{} {} {}]", op.lexme, shape(left), shape(right))
        }
        Expr::Grouping(inner) => format!("(group {})", shape(inner)),
        Expr::Identifier(name) => name.lexme.clone(),
        Expr::Assign(name, value) => format!("(= {} {})", name.lexme, shape(value)),
    }
}

fn outline(stmt: &Stmt) -> String {
    match stmt {
        Stmt::Print(value) => format!("print {};", shape(value)),
        Stmt::Expr(value) => format!("{};", shape(value)),
        Stmt::Var(name, initializer) => format!("var {} = {};", name, shape(initializer)),
        Stmt::Block(statements) => {
            let inner: Vec<String> = statements.iter().map(outline).collect();
            format!("{{ {} }}", inner.join(" "))
        }
        Stmt::If(condition, then_branch, else_branch) => match else_branch {
            Some(branch) => {
                format!("if {} {} else {}", shape(condition), outline(then_branch), outline(branch))
            }
            None => format!("if {} {}", shape(condition), outline(then_branch)),
        },
        Stmt::While(condition, body) => format!("while {} {}", shape(condition), outline(body)),
    }
}

fn outlines(source: &str) -> Vec<String> {
    program(source).iter().map(outline).collect()
}

#[test]
fn empty_program_has_no_statements() {
    assert!(program("").is_empty());
    assert!(program("// comment only").is_empty());
}

#[test]
fn product_binds_tighter_than_sum() {
    assert_eq!(outlines("1 + 2 * 3;"), vec!["(+ 1 (* 2 3));"]);
    assert_eq!(outlines("1 * 2 + 3;"), vec!["(+ (* 1 2) 3);"]);
    assert_eq!(outlines("1 + 2 % 3 - 4 / 5;"), vec!["(- (+ 1 (% 2 3)) (/ 4 5));"]);
}

#[test]
fn binary_operators_fold_to_the_left() {
    assert_eq!(outlines("1 - 2 - 3;"), vec!["(- (- 1 2) 3);"]);
    assert_eq!(outlines("8 / 4 / 2 * 3;"), vec!["(* (/ (/ 8 4) 2) 3);"]);
    assert_eq!(outlines("1 < 2 < 3;"), vec!["(< (< 1 2) 3);"]);
    assert_eq!(outlines("1 == 2 != 3;"), vec!["(!= (== 1 2) 3);"]);
    assert_eq!(outlines("a or b or c;"), vec!["[or [or a b] c];"]);
    assert_eq!(outlines("a and b and c;"), vec!["[and [and a b] c];"]);
}

#[test]
fn precedence_ladder_from_assignment_to_unary() {
    assert_eq!(
        outlines("x = a or b and c == d < e + f * -g;"),
        vec!["(= x [or a [and b (== c (< d (+ e (* f (- g)))))]]);"]
    );
    assert_eq!(outlines("a == b > c;"), vec!["(== a (> b c));"]);
    assert_eq!(outlines("a >= b + c;"), vec!["(>= a (+ b c));"]);
    assert_eq!(outlines("a <= b - c;"), vec!["(<= a (- b c));"]);
}

#[test]
fn prefix_operators_nest() {
    assert_eq!(outlines("!-!x;"), vec!["(! (- (! x)));"]);
    assert_eq!(outlines("- - 1;"), vec!["(- (- 1));"]);
    assert_eq!(outlines("1 - -1;"), vec!["(- 1 (- 1));"]);
}

#[test]
fn grouping_overrides_precedence() {
    assert_eq!(outlines("(1 + 2) * 3;"), vec!["(* (group (+ 1 2)) 3);"]);
    assert_eq!(outlines("((1));"), vec!["(group (group 1));"]);
}

#[test]
fn assignment_associates_to_the_right() {
    assert_eq!(outlines("a = b = c;"), vec!["(= a (= b c));"]);
    assert_eq!(outlines("a = b or c;"), vec!["(= a [or b c]);"]);
}

#[test]
fn literals_parse_to_their_payload() {
    assert_eq!(
        outlines("print 1.5; print \"s\"; print true; print false; print nil;"),
        vec!["print 1.5;", "print \"s\";", "print true;", "print false;", "print nil;"]
    );
}

#[test]
fn identifier_keeps_its_token() {
    let statements = program("\n\nprint abc;");
    match &statements[0] {
        Stmt::Print(Expr::Identifier(name)) => {
            assert_eq!(name.tok_type, TokenType::Identifier);
            assert_eq!(name.lexme, "abc");
            assert_eq!(name.line, 3);
        }
        other => panic!("{:?}", other),
    }
}

#[test]
fn operator_keeps_its_token() {
    let statements = program("print 1\n<=\n2;");
    match &statements[0] {
        Stmt::Print(Expr::Binary(_, op, _)) => {
            assert_eq!(op.tok_type, TokenType::LessEqual);
            assert_eq!(op.line, 2);
        }
        other => panic!("{:?}", other),
    }
}

#[test]
fn statements_of_every_kind() {
    assert_eq!(
        outlines("var a = 1; print a; a = 2; { print a; } if (a) print 1; while (a) a = nil;"),
        vec![
            "var a = 1;",
            "print a;",
            "(= a 2);",
            "{ print a; }",
            "if a print 1;",
            "while a (= a nil);",
        ]
    );
}

#[test]
fn blocks_nest_and_may_be_empty() {
    assert_eq!(outlines("{}"), vec!["{  }"]);
    assert_eq!(outlines("{ { } { print 1; } }"), vec!["{ {  } { print 1; } }"]);
}

#[test]
fn else_belongs_to_the_nearest_if() {
    assert_eq!(
        outlines("if (a) if (b) print 1; else print 2;"),
        vec!["if a if b print 1; else print 2;"]
    );
    assert_eq!(
        outlines("if (a) { if (b) print 1; } else print 2;"),
        vec!["if a { if b print 1; } else print 2;"]
    );
}

#[test]
fn declarations_may_stand_where_statements_do() {
    assert_eq!(outlines("if (a) var b = 1;"), vec!["if a var b = 1;"]);
    assert_eq!(outlines("while (a) var b = 1;"), vec!["while a var b = 1;"]);
}

#[test]
fn for_becomes_a_block_around_a_while() {
    assert_eq!(
        outlines("for (var i = 0; i < 3; i = i + 1) print i;"),
        vec!["{ var i = 0; while (< i 3) { print i; (= i (+ i 1)); } }"]
    );
}

#[test]
fn for_is_the_tree_of_its_expansion() {
    let sugared = program("for (var i = 0; i < 3; i = i + 1) print i;");
    let expanded = program("{ var i = 0; while (i < 3) { print i; i = i + 1; } }");
    assert_eq!(format!("{:?}", sugared), format!("{:?}", expanded));
}

#[test]
fn for_clauses_may_be_left_out() {
    assert_eq!(outlines("for (;;) print 1;"), vec!["{ while true { print 1; } }"]);
    assert_eq!(outlines("for (; a;) print 1;"), vec!["{ while a { print 1; } }"]);
    assert_eq!(outlines("for (;; a = 1) print 1;"), vec!["{ while true { print 1; (= a 1); } }"]);
    assert_eq!(outlines("for (a = 0;;) print 1;"), vec!["{ (= a 0); while true { print 1; } }"]);
    assert_eq!(
        outlines("for (var a = 0; a < 1;) { print a; }"),
        vec!["{ var a = 0; while (< a 1) { { print a; } } }"]
    );
}

#[test]
fn desugar_for_builds_the_same_tree() {
    let body = program("print i;").pop().unwrap();
    let initializer = program("var i = 0;").pop().unwrap();
    let condition = match program("i < 3;").pop().unwrap() {
        Stmt::Expr(expr) => expr,
        other => panic!("{:?}", other),
    };
    let increment = match program("i = i + 1;").pop().unwrap() {
        Stmt::Expr(expr) => expr,
        other => panic!("{:?}", other),
    };
    let built = desugar_for(Some(initializer), Some(condition), Some(increment), body);
    let parsed = program("for (var i = 0; i < 3; i = i + 1) print i;");
    assert_eq!(format!("{:?}", vec![built]), format!("{:?}", parsed));
    let bare = desugar_for(None, None, None, program("print 1;").pop().unwrap());
    assert_eq!(outline(&bare), "{ while true { print 1; } }");
}

#[test]
fn missing_expression() {
    let error = failure("print ;");
    assert_eq!(error.expected, Expected::Expression);
    assert_eq!(error.found.tok_type, TokenType::SemiColon);
    let error = failure("1 + ;");
    assert_eq!(error.expected, Expected::Expression);
    let error = failure("print");
    assert_eq!(error.expected, Expected::Expression);
    assert_eq!(error.found.tok_type, TokenType::Eof);
    let error = failure("print * 2;");
    assert_eq!(error.expected, Expected::Expression);
    assert_eq!(error.found.tok_type, TokenType::Star);
    let error = failure("}");
    assert_eq!(error.expected, Expected::Expression);
    let error = failure("class A;");
    assert_eq!(error.expected, Expected::Expression);
    assert_eq!(error.found.tok_type, TokenType::Class);
}

#[test]
fn missing_right_paren_after_expression() {
    let error = failure("print (1 + 2;");
    assert_eq!(error.expected, Expected::RightParenAfterExpression);
    assert_eq!(error.found.tok_type, TokenType::SemiColon);
    let error = failure("print (1");
    assert_eq!(error.expected, Expected::RightParenAfterExpression);
    assert_eq!(error.found.tok_type, TokenType::Eof);
}

#[test]
fn invalid_assignment_target() {
    let error = failure("1 = 2;");
    assert_eq!(error.expected, Expected::AssignmentTarget);
    assert_eq!(error.found.tok_type, TokenType::Equal);
    let error = failure("a + b = c;");
    assert_eq!(error.expected, Expected::AssignmentTarget);
    let error = failure("(a) = 1;");
    assert_eq!(error.expected, Expected::AssignmentTarget);
    let error = failure("\"s\" = 1;");
    assert_eq!(error.expected, Expected::AssignmentTarget);
}

#[test]
fn an_error_in_the_value_comes_before_the_target() {
    let error = failure("1 = ;");
    assert_eq!(error.expected, Expected::Expression);
    assert_eq!(error.found.tok_type, TokenType::SemiColon);
}

#[test]
fn missing_semicolon_after_value() {
    let error = failure("print 1");
    assert_eq!(error.expected, Expected::SemiColonAfterValue);
    assert_eq!(error.found.tok_type, TokenType::Eof);
    let error = failure("a = 1 print a;");
    assert_eq!(error.expected, Expected::SemiColonAfterValue);
    assert_eq!(error.found.tok_type, TokenType::Print);
    let error = failure("1 2;");
    assert_eq!(error.expected, Expected::SemiColonAfterValue);
    assert_eq!(error.found.tok_type, TokenType::Number);
}

#[test]
fn malformed_var_declaration() {
    let error = failure("var = 1;");
    assert_eq!(error.expected, Expected::VariableName);
    assert_eq!(error.found.tok_type, TokenType::Equal);
    let error = failure("var 1 = 1;");
    assert_eq!(error.expected, Expected::VariableName);
    let error = failure("var if = 1;");
    assert_eq!(error.expected, Expected::VariableName);
    let error = failure("var a;");
    assert_eq!(error.expected, Expected::Initializer);
    assert_eq!(error.found.tok_type, TokenType::SemiColon);
    let error = failure("var a 1;");
    assert_eq!(error.expected, Expected::Initializer);
    let error = failure("var a = 1");
    assert_eq!(error.expected, Expected::SemiColonAfterDeclaration);
    assert_eq!(error.found.tok_type, TokenType::Eof);
    let error = failure("var a = ;");
    assert_eq!(error.expected, Expected::Expression);
}

#[test]
fn missing_right_brace() {
    let error = failure("{ print 1;");
    assert_eq!(error.expected, Expected::RightBraceAfterBlock);
    assert_eq!(error.found.tok_type, TokenType::Eof);
    let error = failure("{ { } ");
    assert_eq!(error.expected, Expected::RightBraceAfterBlock);
    let error = failure("{");
    assert_eq!(error.expected, Expected::RightBraceAfterBlock);
}

#[test]
fn malformed_if() {
    let error = failure("if a) print 1;");
    assert_eq!(error.expected, Expected::LeftParenAfterIf);
    assert_eq!(error.found.tok_type, TokenType::Identifier);
    let error = failure("if (a print 1;");
    assert_eq!(error.expected, Expected::RightParenAfterIfCondition);
    assert_eq!(error.found.tok_type, TokenType::Print);
    let error = failure("if (a)");
    assert_eq!(error.expected, Expected::Expression);
    let error = failure("if (a) print 1; else");
    assert_eq!(error.expected, Expected::Expression);
    let error = failure("else print 1;");
    assert_eq!(error.expected, Expected::Expression);
    assert_eq!(error.found.tok_type, TokenType::Else);
}

#[test]
fn malformed_while() {
    let error = failure("while a) print 1;");
    assert_eq!(error.expected, Expected::LeftParenAfterWhile);
    let error = failure("while (a print 1;");
    assert_eq!(error.expected, Expected::RightParenAfterWhileCondition);
    let error = failure("while () print 1;");
    assert_eq!(error.expected, Expected::Expression);
    assert_eq!(error.found.tok_type, TokenType::RightParen);
}

#[test]
fn malformed_for() {
    let error = failure("for var i = 0;;) print 1;");
    assert_eq!(error.expected, Expected::LeftParenAfterFor);
    assert_eq!(error.found.tok_type, TokenType::Var);
    let error = failure("for (var i = 0; i < 1) print 1;");
    assert_eq!(error.expected, Expected::SemiColonAfterForCondition);
    assert_eq!(error.found.tok_type, TokenType::RightParen);
    let error = failure("for (;; i = 1 print 1;");
    assert_eq!(error.expected, Expected::RightParenAfterForClauses);
    assert_eq!(error.found.tok_type, TokenType::Print);
    let error = failure("for (i = 0 i < 1;) print 1;");
    assert_eq!(error.expected, Expected::SemiColonAfterValue);
    let error = failure("for (var i;;) print 1;");
    assert_eq!(error.expected, Expected::Initializer);
    let error = failure("for (;;)");
    assert_eq!(error.expected, Expected::Expression);
    assert_eq!(error.found.tok_type, TokenType::Eof);
}

#[test]
fn first_syntax_error_wins() {
    let error = failure("print 1; print ; var = 2;");
    assert_eq!(error.expected, Expected::Expression);
    assert_eq!(error.found.tok_type, TokenType::SemiColon);
    let error = failure("print 1;\nprint 2\nprint 3;");
    assert_eq!(error.expected, Expected::SemiColonAfterValue);
    assert_eq!(error.found.line, 3);
}

#[test]
fn parser_stands_at_the_end_after_a_program() {
    let mut parser = Parser::new(scan("print 1; print 2;").unwrap());
    assert!(!parser.is_at_end());
    assert_eq!(parser.current, 0);
    let statements = parser.parse().unwrap();
    assert_eq!(statements.len(), 2);
    assert!(parser.is_at_end());
    assert_eq!(parser.current, 6);
    assert!(parser.parse().unwrap().is_empty());
}

#[test]
fn parser_on_the_end_marker_alone() {
    let mut parser = Parser::new(vec![Token::new(TokenType::Eof, String::new(), Literal::Nil, 1)]);
    assert!(parser.is_at_end());
    assert!(parser.parse().unwrap().is_empty());
}

#[test]
fn an_end_marker_inside_the_tokens_ends_the_program() {
    let mut tokens = scan("print 1;").unwrap();
    tokens.extend(scan("print 2;").unwrap());
    let statements = parse(tokens).unwrap();
    assert_eq!(statements.len(), 1);
}

#[test]
fn parser_stands_at_the_offending_token_after_an_error() {
    let mut parser = Parser::new(scan("print 1; print ;").unwrap());
    let error = parser.parse().unwrap_err();
    assert_eq!(error.expected, Expected::Expression);
    assert_eq!(parser.current, 4);
    let mut parser = Parser::new(scan("var x 1;").unwrap());
    let error = parser.parse().unwrap_err();
    assert_eq!(error.expected, Expected::Initializer);
    assert_eq!(parser.current, 2);
    let mut parser = Parser::new(scan("{ print 1;").unwrap());
    let error = parser.parse().unwrap_err();
    assert_eq!(error.expected, Expected::RightBraceAfterBlock);
    assert_eq!(parser.current, 4);
}

#[test]
fn parser_stands_after_the_value_of_a_bad_assignment() {
    let mut parser = Parser::new(scan("1 = 2 + 3;").unwrap());
    let error = parser.parse().unwrap_err();
    assert_eq!(error.expected, Expected::AssignmentTarget);
    assert_eq!(error.found.tok_type, TokenType::Equal);
    assert_eq!(parser.current, 5);
}
