//! The Core Erlang text of expressions, patterns, clauses, function
//! definitions and modules.

use crate::core_erlang::bitstrings::{BitSegment, BitType, Endianness, Signedness};
use crate::core_erlang::clauses::CaseClause;
use crate::core_erlang::expr::Expr;
use crate::core_erlang::module::{Attribute, LocalFunctionDef, Module};
use crate::core_erlang::patterns::Pattern;
use crate::core_erlang::primitives::{FunctionName, Literal, VarName};
use crate::core_erlang::render::{decimal, join, push_decimal, push_str};
use vstd::prelude::*;

verus! {

pub open spec fn var_texts(vs: Seq<VarName>) -> Seq<Seq<char>>
    decreases vs.len(),
{
    if vs.len() == 0 {
        Seq::empty()
    } else {
        var_texts(vs.drop_last()).push(vs.last().text())
    }
}

pub open spec fn literal_texts(ls: Seq<Literal>) -> Seq<Seq<char>>
    decreases ls.len(),
{
    if ls.len() == 0 {
        Seq::empty()
    } else {
        literal_texts(ls.drop_last()).push(ls.last().text())
    }
}

pub open spec fn function_name_texts(fs: Seq<FunctionName>) -> Seq<Seq<char>>
    decreases fs.len(),
{
    if fs.len() == 0 {
        Seq::empty()
    } else {
        function_name_texts(fs.drop_last()).push(fs.last().text())
    }
}

pub open spec fn attribute_text(a: Attribute) -> Seq<char> {
    "'"@ + a.name@ + "' = "@ + a.value.text()
}

pub open spec fn attribute_texts(attrs: Seq<Attribute>) -> Seq<Seq<char>>
    decreases attrs.len(),
{
    if attrs.len() == 0 {
        Seq::empty()
    } else {
        attribute_texts(attrs.drop_last()).push(attribute_text(attrs.last()))
    }
}

/// `, value` when there is a value, nothing otherwise.
pub open spec fn comma_count(count: Option<u64>) -> Seq<char> {
    match count {
        Some(n) => ", "@ + decimal(n as nat),
        None => Seq::empty(),
    }
}

pub open spec fn comma_signedness(s: Option<Signedness>) -> Seq<char> {
    match s {
        Some(v) => ", "@ + v.text(),
        None => Seq::empty(),
    }
}

pub open spec fn comma_endianness(e: Option<Endianness>) -> Seq<char> {
    match e {
        Some(v) => ", "@ + v.text(),
        None => Seq::empty(),
    }
}

/// The text of an expression.
pub open spec fn expr_text(e: Expr) -> Seq<char>
    decreases e,
{
    match e {
        Expr::Var(v) => v.text(),
        Expr::Literal(l) => l.text(),
        Expr::FunctionName(f) => f.text(),
        Expr::Tuple(elems) => "{"@ + join(expr_texts(elems@), ", "@) + "}"@,
        Expr::List { head, tail } => "["@ + expr_text(*head) + " | "@ + expr_text(*tail) + "]"@,
        Expr::Binary(segments) => "#{ "@ + join(expr_segment_texts(segments@), ", "@) + " }#"@,
        Expr::Values(values) => "<"@ + join(expr_texts(values@), ", "@) + ">"@,
        Expr::Fun { parameters, body } => "fun ("@ + join(var_texts(parameters@), ", "@)
            + ") ->\n    "@ + expr_text(*body),
        Expr::Let { variables, value, body } => "let <"@ + join(var_texts(variables@), ", "@)
            + "> = "@ + expr_text(*value) + " in\n  "@ + expr_text(*body),
        Expr::LetRec { definitions, body } => "letrec\n  "@ + join(
            def_texts(definitions@),
            "\n  "@,
        ) + "\nin\n  "@ + expr_text(*body),
        Expr::Case { expression, clauses } => "case "@ + expr_text(*expression) + " of\n"@ + join(
            clause_texts(clauses@),
            "\n"@,
        ) + "\nend"@,
        Expr::Receive { clauses, timeout_duration, timeout_body } => "receive\n"@ + join(
            clause_texts(clauses@),
            "\n"@,
        ) + "\nafter "@ + expr_text(*timeout_duration) + " ->\n  "@ + expr_text(*timeout_body),
        Expr::Try {
            expression,
            success_variables,
            success_body,
            catch_variables,
            catch_body,
        } => "try "@ + expr_text(*expression) + "\nof <"@ + join(
            var_texts(success_variables@),
            ", "@,
        ) + "> ->\n  "@ + expr_text(*success_body) + "\ncatch <"@ + join(
            var_texts(catch_variables@),
            ", "@,
        ) + "> ->\n  "@ + expr_text(*catch_body),
        Expr::Apply { callee, arguments } => "apply "@ + expr_text(*callee) + "("@ + join(
            expr_texts(arguments@),
            ", "@,
        ) + ")"@,
        Expr::Call { module, function, arguments } => "call "@ + expr_text(*module) + ":"@
            + expr_text(*function) + "("@ + join(expr_texts(arguments@), ", "@) + ")"@,
        Expr::PrimOp { name, arguments } => "primop '"@ + name@ + "'("@ + join(
            expr_texts(arguments@),
            ", "@,
        ) + ")"@,
        Expr::Annotated { expr, annotations } => "( "@ + expr_text(*expr) + " -| ["@ + join(
            literal_texts(annotations@),
            ", "@,
        ) + "] )"@,
    }
}

/// A list cell prints as a cons: its head, a bar, and its tail, in
/// brackets, as `[H | T]`, never as the two-element list `[H, T]`.
pub proof fn law_list_cell_text(head: Expr, tail: Expr)
    ensures
        expr_text(Expr::List { head: Box::new(head), tail: Box::new(tail) }) == "["@ + expr_text(head) + " | "@
            + expr_text(tail) + "]"@,
        expr_text(Expr::List { head: Box::new(head), tail: Box::new(tail) }) != "["@ + expr_text(head) + ", "@
            + expr_text(tail) + "]"@,
{
    reveal_strlit(" | ");
    reveal_strlit(", ");
    reveal_strlit("[");
    let with_bar = "["@ + expr_text(head) + " | "@ + expr_text(tail) + "]"@;
    let with_comma = "["@ + expr_text(head) + ", "@ + expr_text(tail) + "]"@;
    let at: int = 1 + expr_text(head).len() as int;
    if with_bar.len() == with_comma.len() {
        assert(with_bar[at + 1] == '|');
        assert(with_comma[at + 1] == ' ');
    }
}

pub open spec fn expr_texts(es: Seq<Expr>) -> Seq<Seq<char>>
    decreases es,
{
    if es.len() == 0 {
        Seq::empty()
    } else {
        expr_texts(es.drop_last()).push(expr_text(es.last()))
    }
}

/// The text of a pattern.
pub open spec fn pattern_text(p: Pattern) -> Seq<char>
    decreases p,
{
    match p {
        Pattern::Var(v) => v.text(),
        Pattern::Literal(l) => l.text(),
        Pattern::Tuple(elements) => "{"@ + join(pattern_texts(elements@), ", "@) + "}"@,
        Pattern::List { head, tail } => "["@ + pattern_text(*head) + " | "@ + pattern_text(*tail)
            + "]"@,
        Pattern::Binary(segments) => "#{ "@ + join(pattern_segment_texts(segments@), ", "@)
            + " }#"@,
        Pattern::Alias { binding, pattern } => binding.text() + " = "@ + pattern_text(*pattern),
    }
}

pub open spec fn pattern_texts(ps: Seq<Pattern>) -> Seq<Seq<char>>
    decreases ps,
{
    if ps.len() == 0 {
        Seq::empty()
    } else {
        pattern_texts(ps.drop_last()).push(pattern_text(ps.last()))
    }
}

/// `, size` when the segment has a size, nothing otherwise.
pub open spec fn comma_size(size: Option<Box<Expr>>) -> Seq<char>
    decreases size,
{
    match size {
        Some(s) => ", "@ + expr_text(*s),
        None => Seq::empty(),
    }
}

/// `, count type, , signedness, endianness)`, leaving out each absent part.
pub open spec fn segment_tail(
    item_count: Option<u64>,
    segment_type: BitType,
    signedness: Option<Signedness>,
    endianness: Option<Endianness>,
) -> Seq<char> {
    comma_count(item_count) + segment_type.text() + ", "@ + comma_signedness(signedness)
        + comma_endianness(endianness) + ")"@
}

/// `#<value>(, size, count type, , signedness, endianness)`, leaving out
/// each `, part` that is absent.
pub open spec fn expr_segment_text(s: BitSegment<Expr>) -> Seq<char>
    decreases s,
{
    "#<"@ + expr_text(*s.value) + ">("@ + comma_size(s.bit_size) + segment_tail(
        s.item_count,
        s.segment_type,
        s.signedness,
        s.endianness,
    )
}

pub open spec fn expr_segment_texts(ss: Seq<BitSegment<Expr>>) -> Seq<Seq<char>>
    decreases ss,
{
    if ss.len() == 0 {
        Seq::empty()
    } else {
        expr_segment_texts(ss.drop_last()).push(expr_segment_text(ss.last()))
    }
}

pub open spec fn pattern_segment_text(s: BitSegment<Pattern>) -> Seq<char>
    decreases s,
{
    "#<"@ + pattern_text(*s.value) + ">("@ + comma_size(s.bit_size) + segment_tail(
        s.item_count,
        s.segment_type,
        s.signedness,
        s.endianness,
    )
}

pub open spec fn pattern_segment_texts(ss: Seq<BitSegment<Pattern>>) -> Seq<Seq<char>>
    decreases ss,
{
    if ss.len() == 0 {
        Seq::empty()
    } else {
        pattern_segment_texts(ss.drop_last()).push(pattern_segment_text(ss.last()))
    }
}

/// `  <patterns> when guard ->\n    body`
pub open spec fn clause_text(c: CaseClause) -> Seq<char>
    decreases c,
{
    "  <"@ + join(pattern_texts(c.patterns@), ", "@) + "> when "@ + expr_text(c.guard)
        + " ->\n    "@ + expr_text(c.body)
}

pub open spec fn clause_texts(cs: Seq<CaseClause>) -> Seq<Seq<char>>
    decreases cs,
{
    if cs.len() == 0 {
        Seq::empty()
    } else {
        clause_texts(cs.drop_last()).push(clause_text(cs.last()))
    }
}

/// `'name'/arity = fun`
pub open spec fn def_text(d: LocalFunctionDef) -> Seq<char>
    decreases d,
{
    d.name.text() + " = "@ + expr_text(d.fun)
}

pub open spec fn def_texts(ds: Seq<LocalFunctionDef>) -> Seq<Seq<char>>
    decreases ds,
{
    if ds.len() == 0 {
        Seq::empty()
    } else {
        def_texts(ds.drop_last()).push(def_text(ds.last()))
    }
}

/// Adding one more part adds the separator and the part (or just the part,
/// to nothing).
pub proof fn lemma_join_push(parts: Seq<Seq<char>>, x: Seq<char>, sep: Seq<char>)
    ensures
        join(parts.push(x), sep) == (if parts.len() == 0 {
            x
        } else {
            join(parts, sep) + sep + x
        }),
{
    assert(parts.push(x).drop_last() =~= parts);
}

fn write_vars(items: &Vec<VarName>, sep: &str, out: &mut String)
    ensures
        final(out)@ == old(out)@ + join(var_texts(items@), sep@),
{
    let ghost start = out@;
    let mut i: usize = 0;
    while i < items.len()
        invariant
            i <= items@.len(),
            out@ == start + join(var_texts(items@.take(i as int)), sep@),
        decreases items@.len() - i,
    {
        proof {
            assert(items@.take(i + 1).drop_last() =~= items@.take(i as int));
            lemma_var_texts_len(items@.take(i as int));
            lemma_join_push(var_texts(items@.take(i as int)), var_text_of(items@[i as int]), sep@);
        }
        if i > 0 {
            push_str(out, sep);
        }
        items[i].write_to(out);
        i = i + 1;
        proof {
            assert(out@ =~= start + join(var_texts(items@.take(i as int)), sep@));
        }
    }
    proof {
        assert(items@.take(items@.len() as int) =~= items@);
    }
}

pub proof fn lemma_var_texts_len(items: Seq<VarName>)
    ensures
        var_texts(items).len() == items.len(),
    decreases items.len(),
{
    if items.len() > 0 {
        lemma_var_texts_len(items.drop_last());
    }
}

fn write_literals(items: &Vec<Literal>, sep: &str, out: &mut String)
    ensures
        final(out)@ == old(out)@ + join(literal_texts(items@), sep@),
{
    let ghost start = out@;
    let mut i: usize = 0;
    while i < items.len()
        invariant
            i <= items@.len(),
            out@ == start + join(literal_texts(items@.take(i as int)), sep@),
        decreases items@.len() - i,
    {
        proof {
            assert(items@.take(i + 1).drop_last() =~= items@.take(i as int));
            lemma_literal_texts_len(items@.take(i as int));
            lemma_join_push(literal_texts(items@.take(i as int)), literal_text_of(items@[i as int]), sep@);
        }
        if i > 0 {
            push_str(out, sep);
        }
        items[i].write_to(out);
        i = i + 1;
        proof {
            assert(out@ =~= start + join(literal_texts(items@.take(i as int)), sep@));
        }
    }
    proof {
        assert(items@.take(items@.len() as int) =~= items@);
    }
}

pub proof fn lemma_literal_texts_len(items: Seq<Literal>)
    ensures
        literal_texts(items).len() == items.len(),
    decreases items.len(),
{
    if items.len() > 0 {
        lemma_literal_texts_len(items.drop_last());
    }
}

fn write_function_names(items: &Vec<FunctionName>, sep: &str, out: &mut String)
    ensures
        final(out)@ == old(out)@ + join(function_name_texts(items@), sep@),
{
    let ghost start = out@;
    let mut i: usize = 0;
    while i < items.len()
        invariant
            i <= items@.len(),
            out@ == start + join(function_name_texts(items@.take(i as int)), sep@),
        decreases items@.len() - i,
    {
        proof {
            assert(items@.take(i + 1).drop_last() =~= items@.take(i as int));
            lemma_function_name_texts_len(items@.take(i as int));
            lemma_join_push(function_name_texts(items@.take(i as int)), function_name_text_of(items@[i as int]), sep@);
        }
        if i > 0 {
            push_str(out, sep);
        }
        items[i].write_to(out);
        i = i + 1;
        proof {
            assert(out@ =~= start + join(function_name_texts(items@.take(i as int)), sep@));
        }
    }
    proof {
        assert(items@.take(items@.len() as int) =~= items@);
    }
}

pub proof fn lemma_function_name_texts_len(items: Seq<FunctionName>)
    ensures
        function_name_texts(items).len() == items.len(),
    decreases items.len(),
{
    if items.len() > 0 {
        lemma_function_name_texts_len(items.drop_last());
    }
}

fn write_attributes(items: &Vec<Attribute>, sep: &str, out: &mut String)
    ensures
        final(out)@ == old(out)@ + join(attribute_texts(items@), sep@),
{
    let ghost start = out@;
    let mut i: usize = 0;
    while i < items.len()
        invariant
            i <= items@.len(),
            out@ == start + join(attribute_texts(items@.take(i as int)), sep@),
        decreases items@.len() - i,
    {
        proof {
            assert(items@.take(i + 1).drop_last() =~= items@.take(i as int));
            lemma_attribute_texts_len(items@.take(i as int));
            lemma_join_push(attribute_texts(items@.take(i as int)), attribute_text(items@[i as int]), sep@);
        }
        if i > 0 {
            push_str(out, sep);
        }
        items[i].write_to(out);
        i = i + 1;
        proof {
            assert(out@ =~= start + join(attribute_texts(items@.take(i as int)), sep@));
        }
    }
    proof {
        assert(items@.take(items@.len() as int) =~= items@);
    }
}

pub proof fn lemma_attribute_texts_len(items: Seq<Attribute>)
    ensures
        attribute_texts(items).len() == items.len(),
    decreases items.len(),
{
    if items.len() > 0 {
        lemma_attribute_texts_len(items.drop_last());
    }
}

fn write_exprs(items: &Vec<Expr>, sep: &str, out: &mut String)
    ensures
        final(out)@ == old(out)@ + join(expr_texts(items@), sep@),
    decreases items,
{
    let ghost start = out@;
    let mut i: usize = 0;
    while i < items.len()
        invariant
            i <= items@.len(),
            out@ == start + join(expr_texts(items@.take(i as int)), sep@),
        decreases items@.len() - i,
    {
        proof {
            assert(items@.take(i + 1).drop_last() =~= items@.take(i as int));
            lemma_expr_texts_len(items@.take(i as int));
            lemma_join_push(expr_texts(items@.take(i as int)), expr_text(items@[i as int]), sep@);
        }
        if i > 0 {
            push_str(out, sep);
        }
        items[i].write_to(out);
        i = i + 1;
        proof {
            assert(out@ =~= start + join(expr_texts(items@.take(i as int)), sep@));
        }
    }
    proof {
        assert(items@.take(items@.len() as int) =~= items@);
    }
}

pub proof fn lemma_expr_texts_len(items: Seq<Expr>)
    ensures
        expr_texts(items).len() == items.len(),
    decreases items.len(),
{
    if items.len() > 0 {
        lemma_expr_texts_len(items.drop_last());
    }
}

fn write_patterns(items: &Vec<Pattern>, sep: &str, out: &mut String)
    ensures
        final(out)@ == old(out)@ + join(pattern_texts(items@), sep@),
    decreases items,
{
    let ghost start = out@;
    let mut i: usize = 0;
    while i < items.len()
        invariant
            i <= items@.len(),
            out@ == start + join(pattern_texts(items@.take(i as int)), sep@),
        decreases items@.len() - i,
    {
        proof {
            assert(items@.take(i + 1).drop_last() =~= items@.take(i as int));
            lemma_pattern_texts_len(items@.take(i as int));
            lemma_join_push(pattern_texts(items@.take(i as int)), pattern_text(items@[i as int]), sep@);
        }
        if i > 0 {
            push_str(out, sep);
        }
        items[i].write_to(out);
        i = i + 1;
        proof {
            assert(out@ =~= start + join(pattern_texts(items@.take(i as int)), sep@));
        }
    }
    proof {
        assert(items@.take(items@.len() as int) =~= items@);
    }
}

pub proof fn lemma_pattern_texts_len(items: Seq<Pattern>)
    ensures
        pattern_texts(items).len() == items.len(),
    decreases items.len(),
{
    if items.len() > 0 {
        lemma_pattern_texts_len(items.drop_last());
    }
}

fn write_clauses(items: &Vec<CaseClause>, sep: &str, out: &mut String)
    ensures
        final(out)@ == old(out)@ + join(clause_texts(items@), sep@),
    decreases items,
{
    let ghost start = out@;
    let mut i: usize = 0;
    while i < items.len()
        invariant
            i <= items@.len(),
            out@ == start + join(clause_texts(items@.take(i as int)), sep@),
        decreases items@.len() - i,
    {
        proof {
            assert(items@.take(i + 1).drop_last() =~= items@.take(i as int));
            lemma_clause_texts_len(items@.take(i as int));
            lemma_join_push(clause_texts(items@.take(i as int)), clause_text(items@[i as int]), sep@);
        }
        if i > 0 {
            push_str(out, sep);
        }
        items[i].write_to(out);
        i = i + 1;
        proof {
            assert(out@ =~= start + join(clause_texts(items@.take(i as int)), sep@));
        }
    }
    proof {
        assert(items@.take(items@.len() as int) =~= items@);
    }
}

pub proof fn lemma_clause_texts_len(items: Seq<CaseClause>)
    ensures
        clause_texts(items).len() == items.len(),
    decreases items.len(),
{
    if items.len() > 0 {
        lemma_clause_texts_len(items.drop_last());
    }
}

fn write_defs(items: &Vec<LocalFunctionDef>, sep: &str, out: &mut String)
    ensures
        final(out)@ == old(out)@ + join(def_texts(items@), sep@),
    decreases items,
{
    let ghost start = out@;
    let mut i: usize = 0;
    while i < items.len()
        invariant
            i <= items@.len(),
            out@ == start + join(def_texts(items@.take(i as int)), sep@),
        decreases items@.len() - i,
    {
        proof {
            assert(items@.take(i + 1).drop_last() =~= items@.take(i as int));
            lemma_def_texts_len(items@.take(i as int));
            lemma_join_push(def_texts(items@.take(i as int)), def_text(items@[i as int]), sep@);
        }
        if i > 0 {
            push_str(out, sep);
        }
        items[i].write_to(out);
        i = i + 1;
        proof {
            assert(out@ =~= start + join(def_texts(items@.take(i as int)), sep@));
        }
    }
    proof {
        assert(items@.take(items@.len() as int) =~= items@);
    }
}

pub proof fn lemma_def_texts_len(items: Seq<LocalFunctionDef>)
    ensures
        def_texts(items).len() == items.len(),
    decreases items.len(),
{
    if items.len() > 0 {
        lemma_def_texts_len(items.drop_last());
    }
}

fn write_expr_segments(items: &Vec<BitSegment<Expr>>, sep: &str, out: &mut String)
    ensures
        final(out)@ == old(out)@ + join(expr_segment_texts(items@), sep@),
    decreases items,
{
    let ghost start = out@;
    let mut i: usize = 0;
    while i < items.len()
        invariant
            i <= items@.len(),
            out@ == start + join(expr_segment_texts(items@.take(i as int)), sep@),
        decreases items@.len() - i,
    {
        proof {
            assert(items@.take(i + 1).drop_last() =~= items@.take(i as int));
            lemma_expr_segment_texts_len(items@.take(i as int));
            lemma_join_push(expr_segment_texts(items@.take(i as int)), expr_segment_text(items@[i as int]), sep@);
        }
        if i > 0 {
            push_str(out, sep);
        }
        write_expr_segment(&items[i], out);
        i = i + 1;
        proof {
            assert(out@ =~= start + join(expr_segment_texts(items@.take(i as int)), sep@));
        }
    }
    proof {
        assert(items@.take(items@.len() as int) =~= items@);
    }
}

pub proof fn lemma_expr_segment_texts_len(items: Seq<BitSegment<Expr>>)
    ensures
        expr_segment_texts(items).len() == items.len(),
    decreases items.len(),
{
    if items.len() > 0 {
        lemma_expr_segment_texts_len(items.drop_last());
    }
}

fn write_pattern_segments(items: &Vec<BitSegment<Pattern>>, sep: &str, out: &mut String)
    ensures
        final(out)@ == old(out)@ + join(pattern_segment_texts(items@), sep@),
    decreases items,
{
    let ghost start = out@;
    let mut i: usize = 0;
    while i < items.len()
        invariant
            i <= items@.len(),
            out@ == start + join(pattern_segment_texts(items@.take(i as int)), sep@),
        decreases items@.len() - i,
    {
        proof {
            assert(items@.take(i + 1).drop_last() =~= items@.take(i as int));
            lemma_pattern_segment_texts_len(items@.take(i as int));
            lemma_join_push(pattern_segment_texts(items@.take(i as int)), pattern_segment_text(items@[i as int]), sep@);
        }
        if i > 0 {
            push_str(out, sep);
        }
        write_pattern_segment(&items[i], out);
        i = i + 1;
        proof {
            assert(out@ =~= start + join(pattern_segment_texts(items@.take(i as int)), sep@));
        }
    }
    proof {
        assert(items@.take(items@.len() as int) =~= items@);
    }
}

pub proof fn lemma_pattern_segment_texts_len(items: Seq<BitSegment<Pattern>>)
    ensures
        pattern_segment_texts(items).len() == items.len(),
    decreases items.len(),
{
    if items.len() > 0 {
        lemma_pattern_segment_texts_len(items.drop_last());
    }
}

pub open spec fn var_text_of(v: VarName) -> Seq<char> {
    v.text()
}

pub open spec fn literal_text_of(l: Literal) -> Seq<char> {
    l.text()
}

pub open spec fn function_name_text_of(f: FunctionName) -> Seq<char> {
    f.text()
}

impl Attribute {
    pub fn write_to(&self, out: &mut String)
        ensures
            final(out)@ == old(out)@ + attribute_text(*self),
    {
        push_str(out, "'");
        push_str(out, self.name.as_str());
        push_str(out, "' = ");
        self.value.write_to(out);
        proof {
            assert(final(out)@ =~= old(out)@ + attribute_text(*self));
        }
    }
}

fn write_optional_size(size: &Option<Box<Expr>>, out: &mut String)
    ensures
        final(out)@ == old(out)@ + comma_size(*size),
    decreases size,
{
    match size {
        Some(s) => {
            push_str(out, ", ");
            s.write_to(out);
            proof {
                assert(final(out)@ =~= old(out)@ + comma_size(*size));
            }
        },
        None => {
            proof {
                assert(final(out)@ =~= old(out)@ + comma_size(*size));
            }
        },
    }
}

fn write_comma_count(item_count: &Option<u64>, out: &mut String)
    ensures
        final(out)@ == old(out)@ + comma_count(*item_count),
{
    match item_count {
        Some(n) => {
            push_str(out, ", ");
            push_decimal(out, *n);
            proof {
                assert(final(out)@ =~= old(out)@ + comma_count(*item_count));
            }
        },
        None => {
            proof {
                assert(final(out)@ =~= old(out)@ + comma_count(*item_count));
            }
        },
    }
}

fn write_comma_signedness(signedness: &Option<Signedness>, out: &mut String)
    ensures
        final(out)@ == old(out)@ + comma_signedness(*signedness),
{
    match signedness {
        Some(v) => {
            push_str(out, ", ");
            v.write_to(out);
            proof {
                assert(final(out)@ =~= old(out)@ + comma_signedness(*signedness));
            }
        },
        None => {
            proof {
                assert(final(out)@ =~= old(out)@ + comma_signedness(*signedness));
            }
        },
    }
}

fn write_comma_endianness(endianness: &Option<Endianness>, out: &mut String)
    ensures
        final(out)@ == old(out)@ + comma_endianness(*endianness),
{
    match endianness {
        Some(v) => {
            push_str(out, ", ");
            v.write_to(out);
            proof {
                assert(final(out)@ =~= old(out)@ + comma_endianness(*endianness));
            }
        },
        None => {
            proof {
                assert(final(out)@ =~= old(out)@ + comma_endianness(*endianness));
            }
        },
    }
}

fn write_segment_tail(
    item_count: &Option<u64>,
    segment_type: &BitType,
    signedness: &Option<Signedness>,
    endianness: &Option<Endianness>,
    out: &mut String,
)
    ensures
        final(out)@ == old(out)@ + segment_tail(*item_count, *segment_type, *signedness, *endianness),
{
    let ghost start = out@;
    write_comma_count(item_count, out);
    segment_type.write_to(out);
    push_str(out, ", ");
    write_comma_signedness(signedness, out);
    write_comma_endianness(endianness, out);
    push_str(out, ")");
    proof {
        assert(out@ =~= start + segment_tail(*item_count, *segment_type, *signedness, *endianness));
    }
}

fn write_expr_segment(s: &BitSegment<Expr>, out: &mut String)
    ensures
        final(out)@ == old(out)@ + expr_segment_text(*s),
    decreases s,
{
    let ghost start = out@;
    push_str(out, "#<");
    s.value.write_to(out);
    push_str(out, ">(");
    let ghost head = out@;
    write_optional_size(&s.bit_size, out);
    let ghost sized = out@;
    write_segment_tail(&s.item_count, &s.segment_type, &s.signedness, &s.endianness, out);
    proof {
        let v = expr_text(*s.value);
        let size = comma_size(s.bit_size);
        let tail = segment_tail(s.item_count, s.segment_type, s.signedness, s.endianness);
        assert(head =~= start + ("#<"@ + v + ">("@));
        assert(sized == head + size);
        assert(out@ == sized + tail);
        assert(expr_segment_text(*s) == "#<"@ + v + ">("@ + size + tail);
        assert(out@ =~= start + expr_segment_text(*s));
    }
}

fn write_pattern_segment(s: &BitSegment<Pattern>, out: &mut String)
    ensures
        final(out)@ == old(out)@ + pattern_segment_text(*s),
    decreases s,
{
    let ghost start = out@;
    push_str(out, "#<");
    s.value.write_to(out);
    push_str(out, ">(");
    let ghost head = out@;
    write_optional_size(&s.bit_size, out);
    let ghost sized = out@;
    write_segment_tail(&s.item_count, &s.segment_type, &s.signedness, &s.endianness, out);
    proof {
        let v = pattern_text(*s.value);
        let size = comma_size(s.bit_size);
        let tail = segment_tail(s.item_count, s.segment_type, s.signedness, s.endianness);
        assert(head =~= start + ("#<"@ + v + ">("@));
        assert(sized == head + size);
        assert(out@ == sized + tail);
        assert(pattern_segment_text(*s) == "#<"@ + v + ">("@ + size + tail);
        assert(out@ =~= start + pattern_segment_text(*s));
    }
}

impl Pattern {
    pub fn write_to(&self, out: &mut String)
        ensures
            final(out)@ == old(out)@ + pattern_text(*self),
        decreases self,
    {
        match self {
            Pattern::Var(v) => v.write_to(out),
            Pattern::Literal(l) => l.write_to(out),
            Pattern::Tuple(elements) => {
                push_str(out, "{");
                write_patterns(elements, ", ", out);
                push_str(out, "}");
            },
            Pattern::List { head, tail } => {
                push_str(out, "[");
                head.write_to(out);
                push_str(out, " | ");
                tail.write_to(out);
                push_str(out, "]");
            },
            Pattern::Binary(segments) => {
                push_str(out, "#{ ");
                write_pattern_segments(segments, ", ", out);
                push_str(out, " }#");
            },
            Pattern::Alias { binding, pattern } => {
                binding.write_to(out);
                push_str(out, " = ");
                pattern.write_to(out);
            },
        }
        proof {
            assert(final(out)@ =~= old(out)@ + pattern_text(*self));
        }
    }

    pub fn to_string(&self) -> (r: String)
        ensures
            r@ == pattern_text(*self),
    {
        let mut out = String::new();
        self.write_to(&mut out);
        proof {
            assert(out@ =~= pattern_text(*self));
        }
        out
    }
}

impl CaseClause {
    pub fn write_to(&self, out: &mut String)
        ensures
            final(out)@ == old(out)@ + clause_text(*self),
        decreases self,
    {
        push_str(out, "  <");
        write_patterns(&self.patterns, ", ", out);
        push_str(out, "> when ");
        self.guard.write_to(out);
        push_str(out, " ->\n    ");
        self.body.write_to(out);
        proof {
            assert(final(out)@ =~= old(out)@ + clause_text(*self));
        }
    }

    pub fn to_string(&self) -> (r: String)
        ensures
            r@ == clause_text(*self),
    {
        let mut out = String::new();
        self.write_to(&mut out);
        proof {
            assert(out@ =~= clause_text(*self));
        }
        out
    }
}

impl LocalFunctionDef {
    pub fn write_to(&self, out: &mut String)
        ensures
            final(out)@ == old(out)@ + def_text(*self),
        decreases self,
    {
        self.name.write_to(out);
        push_str(out, " = ");
        self.fun.write_to(out);
        proof {
            assert(final(out)@ =~= old(out)@ + def_text(*self));
        }
    }

    pub fn to_string(&self) -> (r: String)
        ensures
            r@ == def_text(*self),
    {
        let mut out = String::new();
        self.write_to(&mut out);
        proof {
            assert(out@ =~= def_text(*self));
        }
        out
    }
}

impl Expr {
    pub fn write_to(&self, out: &mut String)
        ensures
            final(out)@ == old(out)@ + expr_text(*self),
        decreases self,
    {
        match self {
            Expr::Var(v) => v.write_to(out),
            Expr::Literal(l) => l.write_to(out),
            Expr::FunctionName(f) => f.write_to(out),
            Expr::Tuple(elems) => {
                push_str(out, "{");
                write_exprs(elems, ", ", out);
                push_str(out, "}");
            },
            Expr::List { head, tail } => {
                push_str(out, "[");
                head.write_to(out);
                push_str(out, " | ");
                tail.write_to(out);
                push_str(out, "]");
            },
            Expr::Binary(segments) => {
                push_str(out, "#{ ");
                write_expr_segments(segments, ", ", out);
                push_str(out, " }#");
            },
            Expr::Values(values) => {
                push_str(out, "<");
                write_exprs(values, ", ", out);
                push_str(out, ">");
            },
            Expr::Fun { parameters, body } => {
                push_str(out, "fun (");
                write_vars(parameters, ", ", out);
                push_str(out, ") ->\n    ");
                body.write_to(out);
            },
            Expr::Let { variables, value, body } => {
                push_str(out, "let <");
                write_vars(variables, ", ", out);
                push_str(out, "> = ");
                value.write_to(out);
                push_str(out, " in\n  ");
                body.write_to(out);
            },
            Expr::LetRec { definitions, body } => {
                push_str(out, "letrec\n  ");
                write_defs(definitions, "\n  ", out);
                push_str(out, "\nin\n  ");
                body.write_to(out);
            },
            Expr::Case { expression, clauses } => {
                push_str(out, "case ");
                expression.write_to(out);
                push_str(out, " of\n");
                write_clauses(clauses, "\n", out);
                push_str(out, "\nend");
            },
            Expr::Receive { clauses, timeout_duration, timeout_body } => {
                push_str(out, "receive\n");
                write_clauses(clauses, "\n", out);
                push_str(out, "\nafter ");
                timeout_duration.write_to(out);
                push_str(out, " ->\n  ");
                timeout_body.write_to(out);
            },
            Expr::Try {
                expression,
                success_variables,
                success_body,
                catch_variables,
                catch_body,
            } => {
                push_str(out, "try ");
                expression.write_to(out);
                push_str(out, "\nof <");
                write_vars(success_variables, ", ", out);
                push_str(out, "> ->\n  ");
                success_body.write_to(out);
                push_str(out, "\ncatch <");
                write_vars(catch_variables, ", ", out);
                push_str(out, "> ->\n  ");
                catch_body.write_to(out);
            },
            Expr::Apply { callee, arguments } => {
                push_str(out, "apply ");
                callee.write_to(out);
                push_str(out, "(");
                write_exprs(arguments, ", ", out);
                push_str(out, ")");
            },
            Expr::Call { module, function, arguments } => {
                push_str(out, "call ");
                module.write_to(out);
                push_str(out, ":");
                function.write_to(out);
                push_str(out, "(");
                write_exprs(arguments, ", ", out);
                push_str(out, ")");
            },
            Expr::PrimOp { name, arguments } => {
                push_str(out, "primop '");
                push_str(out, name.as_str());
                push_str(out, "'(");
                write_exprs(arguments, ", ", out);
                push_str(out, ")");
            },
            Expr::Annotated { expr, annotations } => {
                push_str(out, "( ");
                expr.write_to(out);
                push_str(out, " -| [");
                write_literals(annotations, ", ", out);
                push_str(out, "] )");
            },
        }
        proof {
            assert(final(out)@ =~= old(out)@ + expr_text(*self));
        }
    }

    pub fn to_string(&self) -> (r: String)
        ensures
            r@ == expr_text(*self),
    {
        let mut out = String::new();
        self.write_to(&mut out);
        proof {
            assert(out@ =~= expr_text(*self));
        }
        out
    }
}

/// Each function definition followed by a blank line.
pub open spec fn module_functions_text(ds: Seq<LocalFunctionDef>) -> Seq<char>
    decreases ds.len(),
{
    if ds.len() == 0 {
        Seq::empty()
    } else {
        module_functions_text(ds.drop_last()) + def_text(ds.last()) + "\n\n"@
    }
}

/// The attribute line, present only when there are attributes.
pub open spec fn module_attributes_text(attrs: Seq<Attribute>) -> Seq<char> {
    if attrs.len() == 0 {
        Seq::empty()
    } else {
        "  attributes ["@ + join(attribute_texts(attrs), ", "@) + "]\n\n"@
    }
}

/// `module 'name' [exports]`, the attributes, the functions, then `end`.
pub open spec fn module_text(m: Module) -> Seq<char> {
    "module '"@ + m.name@ + "' ["@ + join(function_name_texts(m.exports@), ", "@) + "]\n"@
        + module_attributes_text(m.attributes@) + module_functions_text(m.functions@) + "end"@
}

impl Module {
    pub fn write_to(&self, out: &mut String)
        ensures
            final(out)@ == old(out)@ + module_text(*self),
    {
        let ghost start = out@;
        push_str(out, "module '");
        push_str(out, self.name.as_str());
        push_str(out, "' [");
        write_function_names(&self.exports, ", ", out);
        push_str(out, "]\n");
        let ghost head = out@;
        if self.attributes.len() > 0 {
            push_str(out, "  attributes [");
            write_attributes(&self.attributes, ", ", out);
            push_str(out, "]\n\n");
        }
        let ghost attributed = out@;
        proof {
            assert(attributed =~= head + module_attributes_text(self.attributes@));
        }
        let mut i: usize = 0;
        while i < self.functions.len()
            invariant
                i <= self.functions@.len(),
                out@ == attributed + module_functions_text(self.functions@.take(i as int)),
            decreases self.functions@.len() - i,
        {
            proof {
                assert(self.functions@.take(i + 1).drop_last() =~= self.functions@.take(i as int));
            }
            self.functions[i].write_to(out);
            push_str(out, "\n\n");
            i = i + 1;
            proof {
                assert(out@ =~= attributed + module_functions_text(self.functions@.take(i as int)));
            }
        }
        proof {
            assert(self.functions@.take(self.functions@.len() as int) =~= self.functions@);
        }
        push_str(out, "end");
        proof {
            assert(out@ =~= start + module_text(*self));
        }
    }

    pub fn to_string(&self) -> (r: String)
        ensures
            r@ == module_text(*self),
    {
        let mut out = String::new();
        self.write_to(&mut out);
        proof {
            assert(out@ =~= module_text(*self));
        }
        out
    }
}

} // verus!
