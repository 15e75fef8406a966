use flipvm::ast::{Pattern, Program};
use flipvm::diagnostics::DiagnosticBag;
use flipvm::display::AstDisplay;
use flipvm::error::CompilerError;
use flipvm::expression::{BinOp, Expr, ExprKind, Literal, UnOp};
use flipvm::lexer::Lexer;
use flipvm::nameresolver::{check_source, DefinitionId, NameResolver, ResolveVisitor};
use flipvm::parser::Parser;
use flipvm::scope::Scope;
use flipvm::Register;
use flipvm::source::Source;
use flipvm::span::Span;
use flipvm::symbol_table::{SymbolTable, Variable};
use flipvm::token::Token;

fn parse_program(input: &str) -> Program {
    let mut lexer = Lexer::new(input.to_string());
    let mut parser = Parser::new(&mut lexer);
    parser.parse()
}

#[test]
fn source_line_index() {
    let src = Source::new("ab\ncd\nef".to_string());
    assert_eq!(src.line_index(0), 0);
    assert_eq!(src.line_index(2), 0);
    assert_eq!(src.line_index(3), 0);
    assert_eq!(src.line_index(4), 1);
    assert_eq!(src.line_index(7), 2);
}

#[test]
fn source_line_start() {
    let src = Source::new("ab\ncd\nef".to_string());
    assert_eq!(src.line_start(0), 0);
    assert_eq!(src.line_start(1), 3);
    assert_eq!(src.line_start(2), 6);
    assert_eq!(src.line_start(5), 9);
}

#[test]
fn source_line() {
    let src = Source::new("ab\ncd\nef".to_string());
    assert_eq!(src.line(0).unwrap(), "ab");
    assert_eq!(src.line(1).unwrap(), "cd");
    assert_eq!(src.line(2).unwrap(), "ef");
    assert_eq!(src.line(3), Err(CompilerError::ReadSource));
}

#[test]
fn source_line_strips_carriage_return_before_newline() {
    let src = Source::new("ab\r\ncd\r\n".to_string());
    assert_eq!(src.line(0).unwrap(), "ab");
    let src = Source::new("a\rb\nc".to_string());
    assert_eq!(src.line(0).unwrap(), "a\rb");
    assert_eq!(src.line(1).unwrap(), "c");
}

#[test]
fn scope_defines_and_looks_up() {
    let mut outer = Scope::new(None);
    assert!(outer.define_symbol("x", DefinitionId(1)));
    assert!(!outer.define_symbol("x", DefinitionId(2)));
    assert_eq!(outer.lookup_symbol("x"), Some(DefinitionId(1)));
    let inner = Scope::new(Some(Box::new(outer)));
    assert_eq!(inner.lookup_symbol("x"), Some(DefinitionId(1)));
    assert_eq!(inner.lookup_symbol("y"), None);
}

#[test]
fn inner_scope_shadows_outer() {
    let mut outer = Scope::new(None);
    outer.define_symbol("x", DefinitionId(1));
    let mut inner = Scope::new(Some(Box::new(outer)));
    assert!(inner.define_symbol("x", DefinitionId(2)));
    assert_eq!(inner.lookup_symbol("x"), Some(DefinitionId(2)));
}

#[test]
fn symbol_table_lookup_and_shadowing() {
    let mut root = SymbolTable::empty();
    root.insert_variable(
        Pattern::new("x".to_string(), Span::new(0, 1)),
        Variable { span: Span::new(0, 1) },
    );
    let x = Pattern::new("x".to_string(), Span::new(5, 6));
    let y = Pattern::new("y".to_string(), Span::new(5, 6));
    assert!(root.is_shadowing(&x));
    assert!(!root.is_shadowing(&y));
    assert!(root.lookup_variable(&x).is_some());
    assert!(root.lookup_variable(&y).is_none());
    let idx = root.insert_scope();
    assert_eq!(idx, 0);
    assert!(root.lookup_scope(0).is_some());
    assert!(root.lookup_scope(1).is_none());
}

#[test]
fn resolver_accepts_declared_names() {
    let program = parse_program("x = 1 + y;");
    let mut table = SymbolTable::empty();
    for name in ["x", "y"] {
        table.insert_variable(
            Pattern::new(name.to_string(), Span::new(0, 0)),
            Variable { span: Span::new(0, 0) },
        );
    }
    let (_, diagnostics) = NameResolver::run(&program, table, DiagnosticBag::new());
    assert!(diagnostics.diagnostics.is_empty());
}

#[test]
fn resolver_reports_undeclared_names() {
    let program = parse_program("x = 1 + y;");
    let table = SymbolTable::empty();
    let (_, diagnostics) = NameResolver::run(&program, table, DiagnosticBag::new());
    // Both the assignment target and the reference are undeclared.
    assert_eq!(diagnostics.diagnostics.len(), 2);
}

#[test]
fn parser_builds_binary_expression() {
    let program = parse_program("let x = 1 + 2 * 3;");
    assert_eq!(program.functions.len(), 1);
    assert_eq!(program.functions[0].body.len(), 1);
    match &program.functions[0].body[0] {
        flipvm::ast::Stmt::Definition(def) => {
            assert_eq!(def.pattern.name, "x");
            match &def.value.kind {
                ExprKind::Binary(op, lhs, rhs) => {
                    // Multiplication binds tighter than addition.
                    assert_eq!(*op, BinOp::Add);
                    assert!(matches!(lhs.kind, ExprKind::Literal(Literal::Integer(1))));
                    assert!(matches!(rhs.kind, ExprKind::Binary(BinOp::Mul, _, _)));
                },
                other => panic!("expected a binary expression, got {:?}", other),
            }
        },
        other => panic!("expected a definition, got {:?}", other),
    }
}

#[test]
fn parser_handles_unary_and_groups() {
    let program = parse_program("let x = -(1 + 2);");
    match &program.functions[0].body[0] {
        flipvm::ast::Stmt::Definition(def) => match &def.value.kind {
            ExprKind::Unary(UnOp::Neg, inner) => {
                assert!(matches!(inner.kind, ExprKind::Binary(BinOp::Add, _, _)));
            },
            other => panic!("expected a unary expression, got {:?}", other),
        },
        other => panic!("expected a definition, got {:?}", other),
    }
}

#[test]
fn display_renders_statements() {
    let program = parse_program("let x = 1; while x < 3 { x = x + 1; }");
    let mut display = AstDisplay::new();
    let out = display.build(&program).clone();
    assert!(out.contains("Function"));
    assert!(out.contains("Declare"));
    assert!(out.contains("While"));
    assert!(out.contains("LessThan"));
    assert!(out.contains("End"));
}

#[test]
fn token_display_strings() {
    assert_eq!(Token::Equal.to_display_string(), "==");
    assert_eq!(Token::Let.to_display_string(), "let");
    assert_eq!(Token::Int(1234).to_display_string(), "Integer(1234)");
    assert_eq!(
        Token::Ident("foo".to_string()).to_display_string(),
        "Ident(foo)"
    );
    assert_eq!(Token::Eof.to_display_string(), "EoF");
}

#[test]
fn compiler_error_messages() {
    assert_eq!(
        CompilerError::DiagnosticError.message(),
        "compiler error: diagnostic errors found"
    );
    assert_eq!(
        CompilerError::ReadSource.message(),
        "compiler error: failed to read source file"
    );
    assert!(CompilerError::DiagnosticWarning.message().contains("warnings"));
}

#[test]
fn lexer_produces_expected_tokens() {
    let mut lexer = Lexer::new("let ab = 12 <= 0x".to_string());
    let mut tokens = Vec::new();
    loop {
        let (tok, _) = lexer.next_token();
        if tok == Token::Eof {
            break;
        }
        tokens.push(tok);
    }
    assert_eq!(
        tokens,
        vec![
            Token::Let,
            Token::Ident("ab".to_string()),
            Token::Assign,
            Token::Int(12),
            Token::LessThanEqual,
            Token::Int(0),
            Token::Ident("x".to_string()),
        ]
    );
}

#[test]
fn expr_parse_literal_reads_current_token() {
    let mut lexer = Lexer::new("7".to_string());
    let mut parser = Parser::new(&mut lexer);
    let kind = Expr::parse_literal(&mut parser);
    assert!(matches!(kind, ExprKind::Literal(Literal::Integer(7))));
}

#[test]
fn resolve_visitor_declares_definitions() {
    let program = parse_program("let x = 1;");
    let mut resolver = NameResolver::new(SymbolTable::empty(), DiagnosticBag::new());
    match &program.functions[0].body[0] {
        flipvm::ast::Stmt::Definition(def) => def.define(&mut resolver),
        other => panic!("expected a definition, got {:?}", other),
    }
    assert!(resolver
        .symbol_table
        .lookup_variable(&Pattern::new("x".to_string(), Span::new(0, 0)))
        .is_some());
}

#[test]
fn register_names_round_trip() {
    let regs = [
        Register::Zero,
        Register::A,
        Register::B,
        Register::C,
        Register::M,
        Register::SP,
        Register::PC,
        Register::BP,
    ];
    for r in regs {
        assert_eq!(Register::from_name(r.to_display_string().as_str()), Some(r));
    }
    assert_eq!(Register::from_name("IP"), None);
    assert_eq!(Register::Zero.to_display_string(), "Zero");
}

#[test]
fn check_source_decides_by_findings() {
    let (rendered, diags, outcome) = check_source("let x = 1; x = x + 1;".to_string());
    assert!(outcome.is_ok());
    assert!(diags.is_empty());
    assert!(!rendered.is_empty());
    let (_, diags, outcome) = check_source("x = 1 + y;".to_string());
    assert_eq!(outcome, Err(CompilerError::DiagnosticError));
    assert!(!diags.is_empty());
}
