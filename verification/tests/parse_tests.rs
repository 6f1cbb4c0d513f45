//! End-to-end scenarios through tokenization, concrete parsing and
//! abstraction.

use wolfram_parser::ast::Ast;
use wolfram_parser::cst::Cst;
use wolfram_parser::source::Location;
use wolfram_parser::token::TokenKind;
use wolfram_parser::source::SourceConvention;
use wolfram_parser::{parse_ast, parse_cst, parse_to_token, tokenize, ParseOptions, StringifyMode};

fn sym_name(a: &Ast) -> String {
    match a {
        Ast::Leaf { text, .. } => String::from_utf8_lossy(text).to_string(),
        _ => panic!("expected a leaf"),
    }
}

fn call_parts(a: &Ast) -> (&Ast, &Vec<Ast>) {
    match a {
        Ast::Call { head, args, .. } => (head, args),
        other => panic!("expected a call, got {:?}", other),
    }
}

#[test]
fn tokenize_two_plus_two() {
    let r = tokenize("2 + 2", &ParseOptions::default());
    let kinds: Vec<TokenKind> = r.0.iter().map(|t| t.tok).collect();
    assert_eq!(
        kinds,
        vec![
            TokenKind::Integer,
            TokenKind::Whitespace,
            TokenKind::Plus,
            TokenKind::Whitespace,
            TokenKind::Integer,
        ]
    );
    let texts: Vec<String> = r
        .0
        .iter()
        .map(|t| String::from_utf8_lossy(&t.text).to_string())
        .collect();
    assert_eq!(texts, vec!["2", " ", "+", " ", "2"]);
}

#[test]
fn tokenize_is_lossless() {
    for input in [
        "2 + 2",
        "f[x_, y_] := x + y",
        "(* comment *) a \"str\" 1.5`20 {b, c}",
        "a /: b = c \n d == e < f",
        "\"unterminated",
        "(* open comment",
    ] {
        let r = tokenize(input, &ParseOptions::default());
        let mut joined: Vec<u8> = Vec::new();
        for t in r.0.iter() {
            joined.extend_from_slice(&t.text);
        }
        assert_eq!(joined, input.as_bytes());
    }
}

#[test]
fn parse_two_plus_two_ast() {
    let r = parse_ast("2 + 2", &ParseOptions::default());
    assert!(r.fatal_issues.is_empty());
    let (head, args) = call_parts(&r.syntax);
    assert_eq!(sym_name(head), "Plus");
    assert_eq!(args.len(), 2);
    assert_eq!(sym_name(&args[0]), "2");
    assert_eq!(sym_name(&args[1]), "2");
}

#[test]
fn parse_set_delayed_with_patterns() {
    let r = parse_ast("f[x_, y_] := x + y", &ParseOptions::default());
    assert!(r.fatal_issues.is_empty());
    let (head, args) = call_parts(&r.syntax);
    assert_eq!(sym_name(head), "SetDelayed");
    assert_eq!(args.len(), 2);
    // Left side: f[Pattern[x, Blank[]], Pattern[y, Blank[]]]
    let (fhead, fargs) = call_parts(&args[0]);
    assert_eq!(sym_name(fhead), "f");
    assert_eq!(fargs.len(), 2);
    let (p1head, p1args) = call_parts(&fargs[0]);
    assert_eq!(sym_name(p1head), "Pattern");
    assert_eq!(sym_name(&p1args[0]), "x");
    let (b1head, b1args) = call_parts(&p1args[1]);
    assert_eq!(sym_name(b1head), "Blank");
    assert!(b1args.is_empty());
    // Right side: Plus[x, y]
    let (phead, pargs) = call_parts(&args[1]);
    assert_eq!(sym_name(phead), "Plus");
    assert_eq!(sym_name(&pargs[0]), "x");
    assert_eq!(sym_name(&pargs[1]), "y");
}

#[test]
fn parse_tag_set() {
    let r = parse_ast("a /: b = c", &ParseOptions::default());
    assert!(r.fatal_issues.is_empty());
    let (head, args) = call_parts(&r.syntax);
    assert_eq!(sym_name(head), "TagSet");
    assert_eq!(args.len(), 3);
    assert_eq!(sym_name(&args[0]), "a");
    assert_eq!(sym_name(&args[1]), "b");
    assert_eq!(sym_name(&args[2]), "c");
}

#[test]
fn parse_mixed_inequality_chain() {
    let r = parse_ast("a == b < c", &ParseOptions::default());
    assert!(r.fatal_issues.is_empty());
    let (head, args) = call_parts(&r.syntax);
    assert_eq!(sym_name(head), "Inequality");
    assert_eq!(args.len(), 5);
    assert_eq!(sym_name(&args[0]), "a");
    assert_eq!(sym_name(&args[1]), "Equal");
    assert_eq!(sym_name(&args[2]), "b");
    assert_eq!(sym_name(&args[3]), "Less");
    assert_eq!(sym_name(&args[4]), "c");
}

#[test]
fn parse_uniform_inequality_chain() {
    let r = parse_ast("a == b == c", &ParseOptions::default());
    assert!(r.fatal_issues.is_empty());
    let (head, args) = call_parts(&r.syntax);
    assert_eq!(sym_name(head), "Equal");
    assert_eq!(args.len(), 3);
}

#[test]
fn parse_lone_opener() {
    let r = parse_ast("(", &ParseOptions::default());
    assert_eq!(r.fatal_issues.len(), 1);
    match &r.syntax {
        Ast::SyntaxError { data, .. } => {
            assert_eq!(data.span.start_loc, Location::LineColumn { line: 1, column: 1 });
            assert_eq!(data.span.end_loc, Location::LineColumn { line: 1, column: 2 });
        }
        other => panic!("expected a syntax error, got {:?}", other),
    }
}

#[test]
fn parse_missing_operand() {
    let r = parse_ast("a + * b", &ParseOptions::default());
    assert_eq!(r.fatal_issues.len(), 1);
    let (head, args) = call_parts(&r.syntax);
    assert_eq!(sym_name(head), "Plus");
    assert_eq!(args.len(), 2);
    assert_eq!(sym_name(&args[0]), "a");
    let (thead, targs) = call_parts(&args[1]);
    assert_eq!(sym_name(thead), "Times");
    assert!(matches!(&targs[0], Ast::Leaf { kind: TokenKind::Error_ExpectedOperand, .. }));
    assert_eq!(sym_name(&targs[1]), "b");
}

#[test]
fn parse_plus_chain_is_flat() {
    let r = parse_ast("a+b+c", &ParseOptions::default());
    assert!(r.fatal_issues.is_empty());
    let (head, args) = call_parts(&r.syntax);
    assert_eq!(sym_name(head), "Plus");
    assert_eq!(args.len(), 3);
    for a in args.iter() {
        assert!(matches!(a, Ast::Leaf { .. }));
    }
}

#[test]
fn parse_subtraction_desugars_through_times() {
    let r = parse_ast("a - b", &ParseOptions::default());
    assert!(r.fatal_issues.is_empty());
    let (head, args) = call_parts(&r.syntax);
    assert_eq!(sym_name(head), "Plus");
    assert_eq!(args.len(), 2);
    let (thead, targs) = call_parts(&args[1]);
    assert_eq!(sym_name(thead), "Times");
    assert_eq!(sym_name(&targs[0]), "-1");
    assert_eq!(sym_name(&targs[1]), "b");
}

#[test]
fn parse_balanced_groups_have_no_group_issues() {
    for input in ["{a, b}", "f[x]", "(a + b)", "<|a -> b|>", "{f[(a)], {b}}"] {
        let r = parse_cst(input, &ParseOptions::default());
        assert!(r.fatal_issues.is_empty(), "issues for {}: {:?}", input, r.fatal_issues);
    }
}

#[test]
fn parse_repeated_is_deterministic() {
    let a = format!("{:?}", parse_cst("f[x_] := x + 1", &ParseOptions::default()).syntax);
    let b = format!("{:?}", parse_cst("f[x_] := x + 1", &ParseOptions::default()).syntax);
    assert_eq!(a, b);
}

#[test]
fn parse_list_cst_shape() {
    let r = parse_cst("{a, b}", &ParseOptions::default());
    assert!(r.fatal_issues.is_empty());
    match &r.syntax {
        Cst::Group { children, .. } => {
            assert!(matches!(&children[0], Cst::Token(t) if t.tok == TokenKind::OpenCurly));
        }
        other => panic!("expected a group, got {:?}", other),
    }
}

#[test]
fn trailing_comma_warns() {
    let r = parse_cst("{a, }", &ParseOptions::default());
    assert!(r.fatal_issues.is_empty());
    assert_eq!(r.non_fatal_issues.len(), 1);
}

#[test]
fn unterminated_string_is_fatal() {
    let r = parse_cst("\"abc", &ParseOptions::default());
    assert_eq!(r.fatal_issues.len(), 1);
}

#[test]
fn multi_expression_single_entry_wraps_with_fatal() {
    let r = parse_ast("a\nb", &ParseOptions::default());
    assert!(matches!(r.syntax, Ast::SyntaxError { .. }));
    assert_eq!(r.fatal_issues.len(), 1);
}

#[test]
fn seq_entry_points_agree_with_byte_entry_points() {
    let input = "f[x_] := x + 1";
    let a = wolfram_parser::parse_ast_seq(input, &ParseOptions::default());
    let b = wolfram_parser::parse_bytes_ast_seq(input.as_bytes(), &ParseOptions::default());
    assert_eq!(format!("{:?}", a.syntax), format!("{:?}", b.syntax));
    assert_eq!(a.fatal_issues, b.fatal_issues);
    assert_eq!(a.non_fatal_issues, b.non_fatal_issues);
    assert_eq!(a.unsafe_character_encoding, b.unsafe_character_encoding);
}

#[test]
fn parse_to_token_reads_one_token_per_mode() {
    let opts = ParseOptions::default();
    let normal = parse_to_token(b"abc def", &opts, StringifyMode::Normal);
    assert_eq!(normal.syntax.0.len(), 1);
    assert_eq!(normal.syntax.0[0].tok, TokenKind::Symbol);
    assert_eq!(normal.syntax.0[0].text, b"abc");

    let tag = parse_to_token(b"abc def", &opts, StringifyMode::Tag);
    assert_eq!(tag.syntax.0[0].tok, TokenKind::String);
    assert_eq!(tag.syntax.0[0].text, b"abc");

    let file = parse_to_token(b"some/file.wl rest", &opts, StringifyMode::File);
    assert_eq!(file.syntax.0[0].tok, TokenKind::String);
    assert_eq!(file.syntax.0[0].text, b"some/file.wl");
}

#[test]
fn options_builders_preserve_other_fields() {
    let opts = ParseOptions::default()
        .tab_width(8)
        .source_convention(SourceConvention::CharacterIndex);
    let r = wolfram_parser::tokenize("a", &opts);
    assert_eq!(r.0.len(), 1);
    assert_eq!(
        r.0[0].src.start_loc,
        wolfram_parser::source::Location::CharacterIndex { index: 0 }
    );
}
