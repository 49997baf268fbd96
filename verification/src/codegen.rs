//! Guard-code generation: compiling a constructor's pattern blocks and
//! display template into an emitted conditional statement.
//!
//! Each "And" block renders to the conjunction of its non-empty
//! verification texts; "Or" blocks are explicitly unsupported and
//! contribute nothing.  Untranslated verification kinds surface as
//! tagged placeholders, so a caller can detect incomplete translations
//! without scanning the emitted text.

use vstd::prelude::*;

use crate::mapper::{formater, id_mapper, spec_formater, spec_id_mapper, spec_token_field_mapper,
    token_field_mapper};
use crate::model::{Block, Constructor, DisplayElement, GenError, Verification};
use crate::render::{cmp_symbol, cmp_symbol_str, constraint_err, constraint_ok, constraint_text,
    render_constraint};
use crate::select::{lemma_selected_indices_props, names_of, select_constructors,
    selected_indices};

verus! {

/// The rendered form of one verification: either a translated boolean
/// condition, or a visible placeholder for a recognized but
/// untranslated verification kind.
#[derive(Debug)]
pub enum VerifCode {
    Cond(String),
    Placeholder(String),
}

/// The text a rendered verification contributes to its block.
pub open spec fn verif_code_text(code: VerifCode) -> Seq<char> {
    match code {
        VerifCode::Cond(s) => s@,
        VerifCode::Placeholder(s) => s@,
    }
}

/// Whether a verification renders without a fatal error.
pub open spec fn verif_ok(v: Verification) -> bool {
    match v {
        Verification::ContextCheck => true,
        Verification::SubPattern => true,
        Verification::TableBuild { name, comparison } => match comparison {
            Some((op, value)) => constraint_ok(value@),
            None => true,
        },
        Verification::TokenFieldCheck { name, op, value } => constraint_ok(value@),
    }
}

/// The text a verification renders to.
pub open spec fn verif_text(v: Verification) -> Seq<char>
    recommends
        verif_ok(v),
{
    match v {
        Verification::ContextCheck => "ignored ContextCheck"@,
        Verification::SubPattern => "ignored subpattern"@,
        Verification::TableBuild { name, comparison } => match comparison {
            Some((op, value)) => spec_id_mapper(name@) + " "@ + cmp_symbol(op) + " "@
                + constraint_text(value@),
            None => spec_token_field_mapper(name@),
        },
        Verification::TokenFieldCheck { name, op, value } => spec_id_mapper(name@) + " "@
            + cmp_symbol(op) + " "@ + constraint_text(value@),
    }
}

/// The error a verification fails with.
pub open spec fn verif_err(v: Verification) -> GenError
    recommends
        !verif_ok(v),
{
    match v {
        Verification::TableBuild { name, comparison } => match comparison {
            Some((op, value)) => constraint_err(value@),
            None => GenError::MalformedExpression,
        },
        Verification::TokenFieldCheck { name, op, value } => constraint_err(value@),
        _ => GenError::MalformedExpression,
    }
}

/// Renders one verification.
///
/// Exactly the context-check and sub-pattern kinds give placeholders;
/// a fatal error comes only from the embedded value expression.
pub fn render_verification(v: &Verification) -> (r: Result<VerifCode, GenError>)
    ensures
        r is Ok <==> verif_ok(*v),
        r matches Ok(code) ==> verif_code_text(code) == verif_text(*v),
        r matches Ok(code) ==> (code is Placeholder <==> (*v is ContextCheck
            || *v is SubPattern)),
        r matches Err(err) ==> err == verif_err(*v),
{
    match v {
        Verification::ContextCheck => Ok(
            VerifCode::Placeholder("ignored ContextCheck".to_owned()),
        ),
        Verification::SubPattern => Ok(VerifCode::Placeholder("ignored subpattern".to_owned())),
        Verification::TableBuild { name, comparison } => match comparison {
            Some((op, value)) => {
                let vt = render_constraint(value)?;
                let mut s = id_mapper(name.as_str());
                s.append(" ");
                s.append(cmp_symbol_str(*op));
                s.append(" ");
                s.append(vt.as_str());
                proof {
                    assert(s@ =~= verif_text(*v));
                }
                Ok(VerifCode::Cond(s))
            },
            None => Ok(VerifCode::Cond(token_field_mapper(name.as_str()))),
        },
        Verification::TokenFieldCheck { name, op, value } => {
            let vt = render_constraint(value)?;
            let mut s = id_mapper(name.as_str());
            s.append(" ");
            s.append(cmp_symbol_str(*op));
            s.append(" ");
            s.append(vt.as_str());
            proof {
                assert(s@ =~= verif_text(*v));
            }
            Ok(VerifCode::Cond(s))
        },
    }
}

/// Joins the non-empty texts with the separator: empty contributions
/// are elided, never left as dangling separators.
pub open spec fn join_nonempty(texts: Seq<Seq<char>>, sep: Seq<char>) -> Seq<char>
    decreases texts.len(),
{
    if texts.len() == 0 {
        Seq::empty()
    } else {
        let rest = join_nonempty(texts.drop_last(), sep);
        let last = texts.last();
        if last.len() == 0 {
            rest
        } else if rest.len() == 0 {
            last
        } else {
            rest + sep + last
        }
    }
}

/// Plain joining: every text, with the separator between neighbours.
pub open spec fn join_all(texts: Seq<Seq<char>>, sep: Seq<char>) -> Seq<char>
    decreases texts.len(),
{
    if texts.len() == 0 {
        Seq::empty()
    } else if texts.len() == 1 {
        texts[0]
    } else {
        join_all(texts.drop_last(), sep) + sep + texts.last()
    }
}

proof fn lemma_join_all_min_len(texts: Seq<Seq<char>>, sep: Seq<char>)
    requires
        texts.len() > 0,
        forall|i: int| 0 <= i < texts.len() ==> #[trigger] texts[i].len() > 0,
    ensures
        join_all(texts, sep).len() > 0,
    decreases texts.len(),
{
    if texts.len() > 1 {
        assert(texts.last().len() > 0);
    }
}

/// Conjunction joining elides empty contributions: joining with
/// elision gives the same text as plainly joining the non-empty texts
/// alone, so no dangling separator is ever left behind.
pub proof fn lemma_join_elides_empty(texts: Seq<Seq<char>>, sep: Seq<char>)
    ensures
        join_nonempty(texts, sep) == join_all(
            texts.filter(|t: Seq<char>| t.len() > 0),
            sep,
        ),
    decreases texts.len(),
{
    reveal(Seq::filter);
    let pred = |t: Seq<char>| t.len() > 0;
    let filtered = texts.filter(pred);
    if texts.len() > 0 {
        lemma_join_elides_empty(texts.drop_last(), sep);
        let fd = texts.drop_last().filter(pred);
        if texts.last().len() > 0 {
            assert(filtered == fd.push(texts.last()));
            assert(filtered.drop_last() =~= fd);
            if fd.len() > 0 {
                assert forall|i: int| 0 <= i < fd.len() implies #[trigger] fd[i].len() > 0 by {
                    texts.drop_last().lemma_filter_pred(pred, i);
                }
                lemma_join_all_min_len(fd, sep);
            }
        }
    }
}

/// The texts of a sequence of verifications.
pub open spec fn verif_texts(vs: Seq<Verification>) -> Seq<Seq<char>> {
    vs.map_values(|v: Verification| verif_text(v))
}

/// Whether every verification of a sequence renders.
pub open spec fn verifs_ok(vs: Seq<Verification>) -> bool {
    forall|i: int| 0 <= i < vs.len() ==> verif_ok(#[trigger] vs[i])
}

/// The error of the first verification that fails to render.
pub open spec fn verifs_err(vs: Seq<Verification>) -> GenError
    recommends
        !verifs_ok(vs),
    decreases vs.len(),
{
    if vs.len() == 0 {
        GenError::MalformedExpression
    } else if !verif_ok(vs.first()) {
        verif_err(vs.first())
    } else {
        verifs_err(vs.drop_first())
    }
}

proof fn lemma_verifs_err_at(vs: Seq<Verification>, i: int)
    requires
        0 <= i < vs.len(),
        forall|j: int| 0 <= j < i ==> verif_ok(#[trigger] vs[j]),
        !verif_ok(vs[i]),
    ensures
        verifs_err(vs) == verif_err(vs[i]),
    decreases i,
{
    if i > 0 {
        lemma_verifs_err_at(vs.drop_first(), i - 1);
    }
}

/// The text of one block within the emitted condition: an "And" block
/// is the parenthesized conjunction of its non-empty verification
/// texts; an "Or" block contributes nothing.
pub open spec fn block_cond_text(b: Block) -> Seq<char> {
    match b {
        Block::And { verifications } => "("@
            + join_nonempty(verif_texts(verifications@), " && "@) + ")"@,
        Block::Or => Seq::empty(),
    }
}

/// Whether a block renders without a fatal error.
pub open spec fn block_ok(b: Block) -> bool {
    match b {
        Block::And { verifications } => verifs_ok(verifications@),
        Block::Or => true,
    }
}

/// The error a block fails with.
pub open spec fn block_err(b: Block) -> GenError
    recommends
        !block_ok(b),
{
    match b {
        Block::And { verifications } => verifs_err(verifications@),
        Block::Or => GenError::MalformedExpression,
    }
}

/// Renders one "And" block's verifications into a parenthesized
/// conjunction, eliding empty contributions.
fn render_and_block(vs: &Vec<Verification>) -> (r: Result<String, GenError>)
    ensures
        r is Ok <==> verifs_ok(vs@),
        r matches Ok(s) ==> s@ == "("@ + join_nonempty(verif_texts(vs@), " && "@) + ")"@,
        r matches Err(err) ==> err == verifs_err(vs@),
{
    let ghost texts = verif_texts(vs@);
    let mut joined = String::new();
    let mut i: usize = 0;
    while i < vs.len()
        invariant
            i <= vs.len(),
            texts == verif_texts(vs@),
            forall|j: int| 0 <= j < i ==> verif_ok(#[trigger] vs@[j]),
            joined@ == join_nonempty(texts.take(i as int), " && "@),
        decreases vs.len() - i,
    {
        proof {
            assert(texts.take(i + 1).drop_last() =~= texts.take(i as int));
            assert(texts.take(i + 1).last() == verif_text(vs@[i as int]));
        }
        match render_verification(&vs[i]) {
            Ok(code) => {
                let t = match code {
                    VerifCode::Cond(s) => s,
                    VerifCode::Placeholder(s) => s,
                };
                if t.as_str().unicode_len() > 0 {
                    if joined.as_str().unicode_len() > 0 {
                        joined.append(" && ");
                    }
                    joined.append(t.as_str());
                }
            },
            Err(err) => {
                proof {
                    lemma_verifs_err_at(vs@, i as int);
                }
                return Err(err);
            },
        }
        i = i + 1;
    }
    proof {
        assert(texts.take(vs@.len() as int) =~= texts);
    }
    let mut s = "(".to_owned();
    s.append(joined.as_str());
    s.append(")");
    proof {
        assert(s@ =~= "("@ + join_nonempty(verif_texts(vs@), " && "@) + ")"@);
    }
    Ok(s)
}

/// The texts of a pattern's blocks.
pub open spec fn block_texts(blocks: Seq<Block>) -> Seq<Seq<char>> {
    blocks.map_values(|b: Block| block_cond_text(b))
}

/// Whether every block of a pattern renders.
pub open spec fn pattern_ok(blocks: Seq<Block>) -> bool {
    forall|i: int| 0 <= i < blocks.len() ==> block_ok(#[trigger] blocks[i])
}

/// The error of the first block that fails to render.
pub open spec fn pattern_err(blocks: Seq<Block>) -> GenError
    recommends
        !pattern_ok(blocks),
    decreases blocks.len(),
{
    if blocks.len() == 0 {
        GenError::MalformedExpression
    } else if !block_ok(blocks.first()) {
        block_err(blocks.first())
    } else {
        pattern_err(blocks.drop_first())
    }
}

/// The condition of the emitted `if`: the conjunction, across the
/// "And" blocks in pattern order, of each block's text.
pub open spec fn condition_text(blocks: Seq<Block>) -> Seq<char>
    recommends
        pattern_ok(blocks),
{
    join_nonempty(block_texts(blocks), " && "@)
}

proof fn lemma_pattern_err_at(blocks: Seq<Block>, i: int)
    requires
        0 <= i < blocks.len(),
        forall|j: int| 0 <= j < i ==> block_ok(#[trigger] blocks[j]),
        !block_ok(blocks[i]),
    ensures
        pattern_err(blocks) == block_err(blocks[i]),
    decreases i,
{
    if i > 0 {
        lemma_pattern_err_at(blocks.drop_first(), i - 1);
    }
}

/// Renders a pattern's blocks into the condition of the emitted `if`.
pub fn render_condition(blocks: &Vec<Block>) -> (r: Result<String, GenError>)
    ensures
        r is Ok <==> pattern_ok(blocks@),
        r matches Ok(s) ==> s@ == condition_text(blocks@),
        r matches Err(err) ==> err == pattern_err(blocks@),
{
    let ghost texts = block_texts(blocks@);
    let mut joined = String::new();
    let mut i: usize = 0;
    while i < blocks.len()
        invariant
            i <= blocks.len(),
            texts == block_texts(blocks@),
            forall|j: int| 0 <= j < i ==> block_ok(#[trigger] blocks@[j]),
            joined@ == join_nonempty(texts.take(i as int), " && "@),
        decreases blocks.len() - i,
    {
        proof {
            assert(texts.take(i + 1).drop_last() =~= texts.take(i as int));
            assert(texts.take(i + 1).last() == block_cond_text(blocks@[i as int]));
        }
        match &blocks[i] {
            Block::And { verifications } => {
                match render_and_block(verifications) {
                    Ok(s) => {
                        if s.as_str().unicode_len() > 0 {
                            if joined.as_str().unicode_len() > 0 {
                                joined.append(" && ");
                            }
                            joined.append(s.as_str());
                        }
                    },
                    Err(err) => {
                        proof {
                            lemma_pattern_err_at(blocks@, i as int);
                        }
                        return Err(err);
                    },
                }
            },
            Block::Or => {
                proof {
                    assert(block_cond_text(blocks@[i as int]).len() == 0);
                }
            },
        }
        i = i + 1;
    }
    proof {
        assert(texts.take(blocks@.len() as int) =~= texts);
    }
    Ok(joined)
}

/// The character mapping of the instruction-id normalization: letters
/// upper-cased, the mnemonic's dots turned into underscores, everything
/// else kept.
pub open spec fn upper_char(c: char) -> char {
    if c == '.' { '_' }
    else if c == 'a' { 'A' }
    else if c == 'b' { 'B' }
    else if c == 'c' { 'C' }
    else if c == 'd' { 'D' }
    else if c == 'e' { 'E' }
    else if c == 'f' { 'F' }
    else if c == 'g' { 'G' }
    else if c == 'h' { 'H' }
    else if c == 'i' { 'I' }
    else if c == 'j' { 'J' }
    else if c == 'k' { 'K' }
    else if c == 'l' { 'L' }
    else if c == 'm' { 'M' }
    else if c == 'n' { 'N' }
    else if c == 'o' { 'O' }
    else if c == 'p' { 'P' }
    else if c == 'q' { 'Q' }
    else if c == 'r' { 'R' }
    else if c == 's' { 'S' }
    else if c == 't' { 'T' }
    else if c == 'u' { 'U' }
    else if c == 'v' { 'V' }
    else if c == 'w' { 'W' }
    else if c == 'x' { 'X' }
    else if c == 'y' { 'Y' }
    else if c == 'z' { 'Z' }
    else { c }
}

/// The upper-cased, dot-to-underscore-normalized form of a mnemonic.
pub open spec fn upper_name(s: Seq<char>) -> Seq<char> {
    s.map_values(|c: char| upper_char(c))
}

/// The replacement text of a character the normalization changes, or
/// `None` for one it keeps.
fn upper_char_str(c: char) -> (r: Option<&'static str>)
    ensures
        r matches Some(t) ==> t@.len() == 1 && t@[0] == upper_char(c),
        r is None ==> upper_char(c) == c,
{
    proof {
        reveal_strlit("_");
        reveal_strlit("A");
        reveal_strlit("B");
        reveal_strlit("C");
        reveal_strlit("D");
        reveal_strlit("E");
        reveal_strlit("F");
        reveal_strlit("G");
        reveal_strlit("H");
        reveal_strlit("I");
        reveal_strlit("J");
        reveal_strlit("K");
        reveal_strlit("L");
        reveal_strlit("M");
        reveal_strlit("N");
        reveal_strlit("O");
        reveal_strlit("P");
        reveal_strlit("Q");
        reveal_strlit("R");
        reveal_strlit("S");
        reveal_strlit("T");
        reveal_strlit("U");
        reveal_strlit("V");
        reveal_strlit("W");
        reveal_strlit("X");
        reveal_strlit("Y");
        reveal_strlit("Z");
    }
    match c {
        '.' => Some("_"),
        'a' => Some("A"),
        'b' => Some("B"),
        'c' => Some("C"),
        'd' => Some("D"),
        'e' => Some("E"),
        'f' => Some("F"),
        'g' => Some("G"),
        'h' => Some("H"),
        'i' => Some("I"),
        'j' => Some("J"),
        'k' => Some("K"),
        'l' => Some("L"),
        'm' => Some("M"),
        'n' => Some("N"),
        'o' => Some("O"),
        'p' => Some("P"),
        'q' => Some("Q"),
        'r' => Some("R"),
        's' => Some("S"),
        't' => Some("T"),
        'u' => Some("U"),
        'v' => Some("V"),
        'w' => Some("W"),
        'x' => Some("X"),
        'y' => Some("Y"),
        'z' => Some("Z"),
        _ => None,
    }
}

/// Normalizes a mnemonic into the instruction-id suffix.
pub fn normalize_mnemonic(s: &str) -> (r: String)
    ensures
        r@ == upper_name(s@),
{
    let n = s.unicode_len();
    let mut out = String::new();
    let mut i: usize = 0;
    while i < n
        invariant
            i <= n,
            n == s@.len(),
            out@ == upper_name(s@.take(i as int)),
        decreases n - i,
    {
        let c = s.get_char(i);
        match upper_char_str(c) {
            Some(t) => {
                out.append(t);
            },
            None => {
                out.append(s.substring_char(i, i + 1));
                proof {
                    assert(s@.subrange(i as int, i + 1) =~= seq![s@[i as int]]);
                }
            },
        }
        proof {
            assert(out@ =~= upper_name(s@.take(i + 1)));
        }
        i = i + 1;
    }
    proof {
        assert(s@.take(n as int) =~= s@);
    }
    out
}

/// The format-specifier half of one display element.
pub open spec fn display_fmt(e: DisplayElement) -> Seq<char> {
    match e {
        DisplayElement::Table(name) => spec_formater(name@),
        DisplayElement::TokenField(name) => spec_formater(name@),
        DisplayElement::Literal(text) => text@,
        DisplayElement::Space => " "@,
        DisplayElement::Other(text) => text@,
    }
}

/// The mapped-expression half of one display element: only table and
/// token-field references contribute an argument.
pub open spec fn display_arg(e: DisplayElement) -> Seq<char> {
    match e {
        DisplayElement::Table(name) => spec_id_mapper(name@),
        DisplayElement::TokenField(name) => spec_id_mapper(name@),
        _ => Seq::empty(),
    }
}

/// The concatenated format-specifier halves of the display elements.
pub open spec fn fmt_concat(ds: Seq<DisplayElement>) -> Seq<char>
    decreases ds.len(),
{
    if ds.len() == 0 {
        Seq::empty()
    } else {
        fmt_concat(ds.drop_last()) + display_fmt(ds.last())
    }
}

/// The argument halves of the display elements.
pub open spec fn arg_texts(ds: Seq<DisplayElement>) -> Seq<Seq<char>> {
    ds.map_values(|e: DisplayElement| display_arg(e))
}

/// The operand directive of a display template: built from the
/// elements after the first (which stands for the mnemonic itself),
/// and absent when there is nothing beyond the mnemonic.
pub open spec fn operands_text(elems: Seq<DisplayElement>) -> Seq<char> {
    if elems.len() >= 2 {
        "\tOPERANDS(\""@ + fmt_concat(elems.skip(1)) + "\", "@
            + join_nonempty(arg_texts(elems.skip(1)), ", "@) + ");\n"@
    } else {
        Seq::empty()
    }
}

/// Renders the operand directive of a display template.
pub fn render_operands(elems: &Vec<DisplayElement>) -> (r: String)
    ensures
        r@ == operands_text(elems@),
{
    if elems.len() < 2 {
        return String::new();
    }
    let ghost tail = elems@.skip(1);
    let ghost argtexts = arg_texts(tail);
    let mut fmt = String::new();
    let mut args = String::new();
    let mut i: usize = 1;
    while i < elems.len()
        invariant
            1 <= i <= elems.len(),
            tail == elems@.skip(1),
            argtexts == arg_texts(tail),
            fmt@ == fmt_concat(tail.take(i - 1)),
            args@ == join_nonempty(argtexts.take(i - 1), ", "@),
        decreases elems.len() - i,
    {
        proof {
            assert(tail.take(i as int).drop_last() =~= tail.take(i - 1));
            assert(tail.take(i as int).last() == elems@[i as int]);
            assert(argtexts.take(i as int).drop_last() =~= argtexts.take(i - 1));
            assert(argtexts.take(i as int).last() == display_arg(elems@[i as int]));
        }
        match &elems[i] {
            DisplayElement::Table(name) => {
                fmt.append(formater(name.as_str()));
                let arg = id_mapper(name.as_str());
                if arg.as_str().unicode_len() > 0 {
                    if args.as_str().unicode_len() > 0 {
                        args.append(", ");
                    }
                    args.append(arg.as_str());
                }
            },
            DisplayElement::TokenField(name) => {
                fmt.append(formater(name.as_str()));
                let arg = id_mapper(name.as_str());
                if arg.as_str().unicode_len() > 0 {
                    if args.as_str().unicode_len() > 0 {
                        args.append(", ");
                    }
                    args.append(arg.as_str());
                }
            },
            DisplayElement::Literal(text) => {
                fmt.append(text.as_str());
            },
            DisplayElement::Space => {
                fmt.append(" ");
            },
            DisplayElement::Other(text) => {
                fmt.append(text.as_str());
            },
        }
        i = i + 1;
    }
    proof {
        assert(tail.take(elems@.len() - 1) =~= tail);
        assert(argtexts.take(elems@.len() - 1) =~= argtexts);
    }
    let mut out = "\tOPERANDS(\"".to_owned();
    out.append(fmt.as_str());
    out.append("\", ");
    out.append(args.as_str());
    out.append(");\n");
    proof {
        assert(out@ =~= operands_text(elems@));
    }
    out
}

/// Whether a constructor's guard code generates without a fatal error.
pub open spec fn constructor_ok(c: Constructor) -> bool {
    pattern_ok(c.blocks@)
}

/// The full emitted text of one constructor: the mnemonic comment, the
/// guarded `if`, the instruction-id assignment, the trace call, the
/// operand directive, and the successful-match `return`.
pub open spec fn instr_text(c: Constructor) -> Seq<char>
    recommends
        c.display.mnemonic is Some,
        constructor_ok(c),
{
    let m = c.display.mnemonic->Some_0;
    "// "@ + m@ + "\n"@
        + "if ("@ + condition_text(c.blocks@) + ") {\n"@
        + "\tinst->id = V850_"@ + upper_name(m@) + ";\n"@
        + "\tINSTR(\""@ + m@ + "\");\n"@
        + operands_text(c.display.elements@)
        + "\treturn true;\n"@
        + "}\n"@
}

/// Generates the guard code of one constructor.
///
/// Fails exactly when a verification's value expression is malformed
/// or reads an unsupported value kind, with the first such error.
pub fn instr_codegen(c: &Constructor) -> (r: Result<String, GenError>)
    requires
        c.display.mnemonic is Some,
    ensures
        r is Ok <==> constructor_ok(*c),
        r matches Ok(s) ==> s@ == instr_text(*c),
        r matches Err(err) ==> err == pattern_err(c.blocks@),
{
    let m: &String = match &c.display.mnemonic {
        Some(s) => s,
        None => {
            return Err(GenError::MalformedExpression);
        },
    };
    let cond = render_condition(&c.blocks)?;
    let mut out = "// ".to_owned();
    out.append(m.as_str());
    out.append("\n");
    out.append("if (");
    out.append(cond.as_str());
    out.append(") {\n");
    out.append("\tinst->id = V850_");
    out.append(normalize_mnemonic(m.as_str()).as_str());
    out.append(";\n");
    out.append("\tINSTR(\"");
    out.append(m.as_str());
    out.append("\");\n");
    out.append(render_operands(&c.display.elements).as_str());
    out.append("\treturn true;\n");
    out.append("}\n");
    proof {
        assert(out@ =~= instr_text(*c));
    }
    Ok(out)
}

/// Whether every constructor at the given indices generates.
pub open spec fn outputs_ok(cs: Seq<Constructor>, idxs: Seq<int>) -> bool {
    forall|j: int| 0 <= j < idxs.len() ==> constructor_ok(cs[#[trigger] idxs[j]])
}

/// The concatenated guard code of the constructors at the given
/// indices, in order.
pub open spec fn concat_outputs(cs: Seq<Constructor>, idxs: Seq<int>) -> Seq<char>
    decreases idxs.len(),
{
    if idxs.len() == 0 {
        Seq::empty()
    } else {
        concat_outputs(cs, idxs.drop_last()) + instr_text(cs[idxs.last()])
    }
}

/// The error of the first constructor, in index order, that fails.
pub open spec fn outputs_err(cs: Seq<Constructor>, idxs: Seq<int>) -> GenError
    recommends
        !outputs_ok(cs, idxs),
    decreases idxs.len(),
{
    if idxs.len() == 0 {
        GenError::SelectionMismatch
    } else if !constructor_ok(cs[idxs.first()]) {
        pattern_err(cs[idxs.first()].blocks@)
    } else {
        outputs_err(cs, idxs.drop_first())
    }
}

proof fn lemma_outputs_err_at(cs: Seq<Constructor>, idxs: Seq<int>, j: int)
    requires
        0 <= j < idxs.len(),
        forall|k: int| 0 <= k < j ==> constructor_ok(cs[#[trigger] idxs[k]]),
        !constructor_ok(cs[idxs[j]]),
    ensures
        outputs_err(cs, idxs) == pattern_err(cs[idxs[j]].blocks@),
    decreases j,
{
    if j > 0 {
        lemma_outputs_err_at(cs, idxs.drop_first(), j - 1);
    }
}

/// Whether one whole generation pass succeeds: the matched count
/// equals the selection cardinality and every selected constructor
/// generates.
pub open spec fn generate_ok(cs: Seq<Constructor>, names: Seq<Seq<char>>) -> bool {
    &&& selected_indices(cs, names).len() == names.len()
    &&& outputs_ok(cs, selected_indices(cs, names))
}

/// The full output of one generation pass: the selected constructors'
/// guard code concatenated in model order.
pub open spec fn generate_text(cs: Seq<Constructor>, names: Seq<Seq<char>>) -> Seq<char>
    recommends
        generate_ok(cs, names),
{
    concat_outputs(cs, selected_indices(cs, names))
}

/// The error one generation pass fails with: a selection mismatch
/// before any output, otherwise the first failing constructor's error.
pub open spec fn generate_err(cs: Seq<Constructor>, names: Seq<Seq<char>>) -> GenError
    recommends
        !generate_ok(cs, names),
{
    if selected_indices(cs, names).len() != names.len() {
        GenError::SelectionMismatch
    } else {
        outputs_err(cs, selected_indices(cs, names))
    }
}

/// Runs one whole generation pass: selects the constructors carrying
/// the requested mnemonics and concatenates their guard code in model
/// enumeration order.
pub fn generate(cs: &Vec<Constructor>, sel: &Vec<String>) -> (r: Result<String, GenError>)
    ensures
        r is Ok <==> generate_ok(cs@, names_of(sel@)),
        r matches Ok(s) ==> s@ == generate_text(cs@, names_of(sel@)),
        r matches Err(err) ==> err == generate_err(cs@, names_of(sel@)),
{
    let ghost names = names_of(sel@);
    let ghost sidx = selected_indices(cs@, names);
    let idxs = match select_constructors(cs, sel) {
        Ok(v) => v,
        Err(err) => {
            return Err(err);
        },
    };
    let mut out = String::new();
    let mut j: usize = 0;
    while j < idxs.len()
        invariant
            j <= idxs.len(),
            names == names_of(sel@),
            sidx == selected_indices(cs@, names),
            idxs@.map_values(|u: usize| u as int) == sidx,
            sidx.len() == sel@.len(),
            forall|k: int| 0 <= k < j ==> constructor_ok(cs@[#[trigger] sidx[k]]),
            out@ == concat_outputs(cs@, sidx.take(j as int)),
        decreases idxs.len() - j,
    {
        proof {
            lemma_selected_indices_props(cs@, names);
            assert(sidx[j as int] == idxs@[j as int] as int);
            assert(sidx.take(j + 1).drop_last() =~= sidx.take(j as int));
            assert(sidx.take(j + 1).last() == sidx[j as int]);
        }
        let ix = idxs[j];
        match instr_codegen(&cs[ix]) {
            Ok(s) => {
                out.append(s.as_str());
            },
            Err(err) => {
                proof {
                    lemma_outputs_err_at(cs@, sidx, j as int);
                }
                return Err(err);
            },
        }
        j = j + 1;
    }
    proof {
        assert(sidx.take(idxs@.len() as int) =~= sidx);
    }
    Ok(out)
}

} // verus!
