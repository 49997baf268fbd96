use guardgen::codegen::{generate, instr_codegen, normalize_mnemonic, render_condition,
    render_operands, render_verification, VerifCode};
use guardgen::model::{Block, CmpOp, Constructor, Display, DisplayElement, ExprElement, GenError,
    Number, Op, ReadValue, Verification};
use guardgen::select::select_constructors;

fn lit(n: u64) -> ExprElement {
    ExprElement::Value(ReadValue::Integer(Number::Positive(n)))
}

fn table_presence(name: &str) -> Verification {
    Verification::TableBuild { name: name.to_string(), comparison: None }
}

fn constructor(mnemonic: &str, blocks: Vec<Block>, elements: Vec<DisplayElement>) -> Constructor {
    Constructor {
        display: Display { mnemonic: Some(mnemonic.to_string()), elements },
        blocks,
    }
}

#[test]
fn verification_token_field_check() {
    let v = Verification::TokenFieldCheck {
        name: "R0004".to_string(),
        op: CmpOp::Eq,
        value: vec![lit(3)],
    };
    match render_verification(&v).unwrap() {
        VerifCode::Cond(s) => assert_eq!(s, "R1 == 0x3"),
        VerifCode::Placeholder(_) => panic!("expected a translated condition"),
    }
}

#[test]
fn verification_table_build_with_comparison() {
    let v = Verification::TableBuild {
        name: "op0507".to_string(),
        comparison: Some((CmpOp::Ne, vec![lit(1)])),
    };
    match render_verification(&v).unwrap() {
        VerifCode::Cond(s) => assert_eq!(s, "OP(05, 07) != 0x1"),
        VerifCode::Placeholder(_) => panic!("expected a translated condition"),
    }
}

#[test]
fn verification_table_build_presence() {
    match render_verification(&table_presence("reg4")).unwrap() {
        VerifCode::Cond(s) => assert_eq!(s, "get_reg4(inst)"),
        VerifCode::Placeholder(_) => panic!("expected a translated condition"),
    }
}

#[test]
fn verification_placeholders_are_tagged() {
    match render_verification(&Verification::ContextCheck).unwrap() {
        VerifCode::Placeholder(s) => assert_eq!(s, "ignored ContextCheck"),
        VerifCode::Cond(_) => panic!("expected a placeholder"),
    }
    match render_verification(&Verification::SubPattern).unwrap() {
        VerifCode::Placeholder(s) => assert_eq!(s, "ignored subpattern"),
        VerifCode::Cond(_) => panic!("expected a placeholder"),
    }
}

#[test]
fn verification_comparison_symbols() {
    let cases: [(CmpOp, &str); 6] = [
        (CmpOp::Eq, "=="),
        (CmpOp::Ne, "!="),
        (CmpOp::Lt, "<"),
        (CmpOp::Gt, ">"),
        (CmpOp::Le, "<="),
        (CmpOp::Ge, ">="),
    ];
    for (op, sym) in cases {
        let v = Verification::TokenFieldCheck {
            name: "f".to_string(),
            op,
            value: vec![lit(0)],
        };
        match render_verification(&v).unwrap() {
            VerifCode::Cond(s) => assert_eq!(s, format!("f {} 0x0", sym)),
            VerifCode::Placeholder(_) => panic!("expected a translated condition"),
        }
    }
}

#[test]
fn verification_errors() {
    let empty = Verification::TokenFieldCheck {
        name: "f".to_string(),
        op: CmpOp::Eq,
        value: vec![],
    };
    assert!(matches!(render_verification(&empty), Err(GenError::MalformedExpression)));
    let unsupported = Verification::TableBuild {
        name: "t".to_string(),
        comparison: Some((CmpOp::Eq, vec![ExprElement::Value(ReadValue::Context)])),
    };
    assert!(matches!(render_verification(&unsupported), Err(GenError::UnsupportedValueKind)));
}

#[test]
fn conjunction_elides_empty_contributions() {
    // Verifications rendering to "A", "", "B" must give "(A && B)",
    // with no dangling separator.
    let blocks = vec![Block::And {
        verifications: vec![table_presence("A"), table_presence(""), table_presence("B")],
    }];
    assert_eq!(render_condition(&blocks).unwrap(), "(A && B)");
}

#[test]
fn conjunction_across_blocks() {
    let blocks = vec![
        Block::And { verifications: vec![table_presence("A")] },
        Block::And { verifications: vec![table_presence("B")] },
    ];
    assert_eq!(render_condition(&blocks).unwrap(), "(A) && (B)");
}

#[test]
fn or_blocks_contribute_nothing() {
    let blocks = vec![Block::Or, Block::And { verifications: vec![table_presence("A")] }];
    assert_eq!(render_condition(&blocks).unwrap(), "(A)");
    let blocks = vec![Block::Or];
    assert_eq!(render_condition(&blocks).unwrap(), "");
}

#[test]
fn empty_and_block_renders_bare_parens() {
    let blocks = vec![Block::And { verifications: vec![] }];
    assert_eq!(render_condition(&blocks).unwrap(), "()");
}

#[test]
fn mnemonic_normalization() {
    assert_eq!(normalize_mnemonic("addf.s"), "ADDF_S");
    assert_eq!(normalize_mnemonic("ceilf.dul"), "CEILF_DUL");
    assert_eq!(normalize_mnemonic("trfsr"), "TRFSR");
    assert_eq!(normalize_mnemonic("a.b.c9"), "A_B_C9");
    assert_eq!(normalize_mnemonic(""), "");
}

#[test]
fn operand_directive_construction() {
    // The first display element stands for the mnemonic and is skipped.
    let elems = vec![
        DisplayElement::Literal("addf.s".to_string()),
        DisplayElement::Space,
        DisplayElement::TokenField("R0004".to_string()),
        DisplayElement::Literal(", ".to_string()),
        DisplayElement::Table("R1115".to_string()),
    ];
    assert_eq!(render_operands(&elems), "\tOPERANDS(\" %s, %s\", R1, R2);\n");
}

#[test]
fn operand_directive_with_empty_argument_half() {
    let elems = vec![
        DisplayElement::Literal("nop".to_string()),
        DisplayElement::Literal("!".to_string()),
    ];
    assert_eq!(render_operands(&elems), "\tOPERANDS(\"!\", );\n");
}

#[test]
fn operand_directive_fallback_element() {
    let elems = vec![
        DisplayElement::Literal("x".to_string()),
        DisplayElement::Other("Varnode(VarnodeId(3))".to_string()),
    ];
    assert_eq!(render_operands(&elems), "\tOPERANDS(\"Varnode(VarnodeId(3))\", );\n");
}

#[test]
fn operand_directive_absent_without_operands() {
    let elems = vec![DisplayElement::Literal("trfsr".to_string())];
    assert_eq!(render_operands(&elems), "");
    let elems: Vec<DisplayElement> = vec![];
    assert_eq!(render_operands(&elems), "");
}

#[test]
fn end_to_end_constructor() {
    // A constructor named addf.s with one "And" block holding a single
    // token-field check on the fixed fourth-register name, compared
    // equal to literal 0, and a display template of mnemonic, space,
    // table reference.
    let c = constructor(
        "addf.s",
        vec![Block::And {
            verifications: vec![Verification::TokenFieldCheck {
                name: "reg4".to_string(),
                op: CmpOp::Eq,
                value: vec![lit(0)],
            }],
        }],
        vec![
            DisplayElement::Literal("addf.s".to_string()),
            DisplayElement::Space,
            DisplayElement::Table("R1115".to_string()),
        ],
    );
    let out = instr_codegen(&c).unwrap();
    assert_eq!(
        out,
        "// addf.s\n\
         if ((R4 == 0x0)) {\n\
         \tinst->id = V850_ADDF_S;\n\
         \tINSTR(\"addf.s\");\n\
         \tOPERANDS(\" %s\", R2);\n\
         \treturn true;\n\
         }\n",
    );
}

#[test]
fn selection_matches_all_present() {
    let cs = vec![
        constructor("a", vec![], vec![]),
        constructor("b", vec![], vec![]),
        constructor("c", vec![], vec![]),
    ];
    let sel = vec!["c".to_string(), "a".to_string()];
    let idxs = select_constructors(&cs, &sel).unwrap();
    assert_eq!(idxs, vec![0, 2]);
}

#[test]
fn selection_absent_mnemonic_fails() {
    let cs = vec![constructor("a", vec![], vec![])];
    let sel = vec!["a".to_string(), "missing".to_string()];
    assert!(matches!(select_constructors(&cs, &sel), Err(GenError::SelectionMismatch)));
}

#[test]
fn selection_skips_constructors_without_mnemonic() {
    let cs = vec![
        Constructor { display: Display { mnemonic: None, elements: vec![] }, blocks: vec![] },
        constructor("a", vec![], vec![]),
    ];
    let sel = vec!["a".to_string()];
    let idxs = select_constructors(&cs, &sel).unwrap();
    assert_eq!(idxs, vec![1]);
}

#[test]
fn generation_processes_each_selected_constructor() {
    let cs = vec![
        constructor("absf.s", vec![], vec![]),
        constructor("skipped", vec![], vec![]),
        constructor("trfsr", vec![], vec![]),
    ];
    let sel = vec!["trfsr".to_string(), "absf.s".to_string()];
    let out = generate(&cs, &sel).unwrap();
    // Model enumeration order, not selection-list order.
    assert_eq!(
        out,
        "// absf.s\n\
         if () {\n\
         \tinst->id = V850_ABSF_S;\n\
         \tINSTR(\"absf.s\");\n\
         \treturn true;\n\
         }\n\
         // trfsr\n\
         if () {\n\
         \tinst->id = V850_TRFSR;\n\
         \tINSTR(\"trfsr\");\n\
         \treturn true;\n\
         }\n",
    );
    assert!(!out.contains("skipped"));
}

#[test]
fn generation_fails_fast_on_selection_mismatch() {
    let cs = vec![constructor("a", vec![], vec![])];
    let sel = vec!["nope".to_string()];
    assert!(matches!(generate(&cs, &sel), Err(GenError::SelectionMismatch)));
}

#[test]
fn generation_propagates_constructor_errors() {
    let bad = constructor(
        "bad",
        vec![Block::And {
            verifications: vec![Verification::TokenFieldCheck {
                name: "f".to_string(),
                op: CmpOp::Eq,
                value: vec![],
            }],
        }],
        vec![],
    );
    let sel = vec!["bad".to_string()];
    assert!(matches!(generate(&vec![bad], &sel), Err(GenError::MalformedExpression)));
}

#[test]
fn binary_operator_inside_guard() {
    let c = constructor(
        "cmpf.s",
        vec![Block::And {
            verifications: vec![Verification::TokenFieldCheck {
                name: "op2126".to_string(),
                op: CmpOp::Eq,
                value: vec![lit(16), lit(1), ExprElement::Op(Op::Or)],
            }],
        }],
        vec![],
    );
    let out = instr_codegen(&c).unwrap();
    assert!(out.contains("if ((OP(21, 26) == (0x10) || (0x1))) {"));
}
