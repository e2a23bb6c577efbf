//! The grammar of expressions, read from the tree, and the proof that the
//! parser reads exactly what the grammar writes.
//!
//! ```text
//! expr := Name | Number | Lambda Name* Dot expr | Open expr expr* Close
//! ```

use vstd::prelude::*;
use crate::ast::{ExprKindView, ExprView};
use crate::lexer::{LexemeView, Token};
use crate::parser::{ParseError, parse_args_at, parse_expr_at, parse_params_at, remaining, width, widths};
use crate::parser::{lemma_width_positive};

verus! {

/// What a lexeme is to the grammar of expressions.
pub ghost enum Word {
    Lambda,
    Dot,
    Open,
    Close,
    Name(Seq<char>),
    Number(u64),
}

/// The word that a lexeme stands for, if it can stand in an expression.
pub open spec fn word_of(l: LexemeView) -> Option<Word> {
    match l.token {
        Some(Token::Lambda) => Some(Word::Lambda),
        Some(Token::Dot) => Some(Word::Dot),
        Some(Token::AppliStart) => Some(Word::Open),
        Some(Token::AppliEnd) => Some(Word::Close),
        Some(Token::Ident) => Some(Word::Name(l.text)),
        Some(Token::Number(n)) => Some(Word::Number(n)),
        Some(Token::Store) => None,
        None => None,
    }
}

/// The names of a parameter list as words.
pub open spec fn name_words(names: Seq<Seq<char>>) -> Seq<Word> {
    Seq::new(names.len(), |i: int| Word::Name(names[i]))
}

/// The words that an expression is written with: the grammar, read from
/// the tree.
pub open spec fn spelling(e: ExprView) -> Seq<Word>
    decreases e,
{
    match e.kind {
        ExprKindView::Ident(name) => seq![Word::Name(name)],
        ExprKindView::Number(n) => seq![Word::Number(n)],
        ExprKindView::Lambda(params, body) => seq![Word::Lambda] + name_words(params)
            + seq![Word::Dot] + spelling(*body),
        ExprKindView::Call(callee, args) => seq![Word::Open] + spelling(*callee) + spellings(args)
            + seq![Word::Close],
    }
}

/// The words that a run of expressions is written with.
pub open spec fn spellings(es: Seq<ExprView>) -> Seq<Word>
    decreases es,
{
    if es.len() == 0 {
        Seq::empty()
    } else {
        spellings(es.drop_last()) + spelling(es.last())
    }
}

/// Whether the lexemes from `pos` on are the words `ws`, one for one.
pub open spec fn spells(t: Seq<LexemeView>, pos: nat, ws: Seq<Word>) -> bool {
    &&& pos + ws.len() <= t.len()
    &&& forall|k: int| 0 <= k < ws.len() ==> word_of(t[pos + k]) == Some(#[trigger] ws[k])
}

/// Words in a row are spelled by lexemes in a row.
pub proof fn lemma_spells_concat(t: Seq<LexemeView>, pos: nat, a: Seq<Word>, b: Seq<Word>)
    requires
        spells(t, pos, a),
        spells(t, pos + a.len(), b),
    ensures
        spells(t, pos, a + b),
{
    assert forall|k: int| 0 <= k < (a + b).len() implies word_of(t[pos + k]) == Some(
        #[trigger] (a + b)[k],
    ) by {
        if k < a.len() {
        } else {
        }
    }
}

/// An expression is spelled with as many words as it has tokens.
pub proof fn lemma_spelling_len(e: ExprView)
    ensures
        spelling(e).len() == width(e),
    decreases e,
{
    match e.kind {
        ExprKindView::Lambda(params, body) => {
            lemma_spelling_len(*body);
        },
        ExprKindView::Call(callee, args) => {
            lemma_spelling_len(*callee);
            lemma_spellings_len(args);
        },
        _ => {},
    }
}

/// A run of expressions is spelled with as many words as it has tokens.
pub proof fn lemma_spellings_len(es: Seq<ExprView>)
    ensures
        spellings(es).len() == widths(es),
    decreases es,
{
    if es.len() > 0 {
        lemma_spellings_len(es.drop_last());
        lemma_spelling_len(es.last());
    }
}

/// The words of an expression in front of the words of a run.
pub proof fn lemma_spellings_prepend(e: ExprView, es: Seq<ExprView>)
    ensures
        spellings(seq![e] + es) == spelling(e) + spellings(es),
    decreases es.len(),
{
    if es.len() == 0 {
        assert(spellings(seq![e]) == spellings(seq![e].drop_last()) + spelling(seq![e].last()));
    } else {
        lemma_spellings_prepend(e, es.drop_last());
        assert((seq![e] + es).drop_last() =~= seq![e] + es.drop_last());
    }
}

/// A parsed parameter list was written as its names and a `Dot`.
pub proof fn lemma_params_spelled(t: Seq<LexemeView>, pos: nat)
    requires
        parse_params_at(t, pos) is Ok,
    ensures
        spells(t, pos, name_words(parse_params_at(t, pos).unwrap()) + seq![Word::Dot]),
    decreases remaining(t, pos),
{
    let params = parse_params_at(t, pos).unwrap();
    let ws = name_words(params) + seq![Word::Dot];
    if t[pos as int].token == Some(Token::Ident) {
        lemma_params_spelled(t, pos + 1);
        let rest = parse_params_at(t, pos + 1).unwrap();
        let first = seq![Word::Name(t[pos as int].text)];
        assert(spells(t, pos, first));
        lemma_spells_concat(t, pos, first, name_words(rest) + seq![Word::Dot]);
        assert(ws =~= first + (name_words(rest) + seq![Word::Dot]));
    } else {
    }
}

/// The parser is faithful to the grammar: an expression that it reads at
/// `pos` was written there, word for word, and its span runs from the
/// start of its first token to the end of its last.
pub proof fn lemma_expr_spelled(t: Seq<LexemeView>, pos: nat)
    requires
        parse_expr_at(t, pos) is Ok,
    ensures
        spells(t, pos, spelling(parse_expr_at(t, pos).unwrap())),
        parse_expr_at(t, pos).unwrap().span.start == t[pos as int].span.start,
        parse_expr_at(t, pos).unwrap().span.end == t[pos + width(
            parse_expr_at(t, pos).unwrap(),
        ) - 1].span.end,
    decreases remaining(t, pos), 0nat,
{
    let e = parse_expr_at(t, pos).unwrap();
    lemma_spelling_len(e);
    match t[pos as int].token {
        Some(Token::Lambda) => {
            let params = parse_params_at(t, pos + 1).unwrap();
            let at_body = pos + 2 + params.len();
            let body = parse_expr_at(t, at_body).unwrap();
            lemma_params_spelled(t, pos + 1);
            lemma_expr_spelled(t, at_body);
            let head = seq![Word::Lambda];
            let list = name_words(params) + seq![Word::Dot];
            assert(spells(t, pos, head));
            lemma_spells_concat(t, pos, head, list);
            lemma_spells_concat(t, pos, head + list, spelling(body));
            assert(spelling(e) =~= head + list + spelling(body));
        },
        Some(Token::AppliStart) => {
            let callee = parse_expr_at(t, pos + 1).unwrap();
            lemma_width_positive(callee);
            lemma_spelling_len(callee);
            let at_args = pos + 1 + width(callee);
            let args = parse_args_at(t, at_args).unwrap();
            lemma_spellings_len(args);
            lemma_expr_spelled(t, pos + 1);
            lemma_args_spelled(t, at_args);
            let head = seq![Word::Open];
            assert(spells(t, pos, head));
            lemma_spells_concat(t, pos, head, spelling(callee));
            lemma_spells_concat(
                t,
                pos,
                head + spelling(callee),
                spellings(args) + seq![Word::Close],
            );
            assert(spelling(e) =~= head + spelling(callee) + (spellings(args) + seq![
                Word::Close,
            ]));
        },
        _ => {},
    }
}

/// Parsed arguments were written as their words and an `AppliEnd`.
pub proof fn lemma_args_spelled(t: Seq<LexemeView>, pos: nat)
    requires
        parse_args_at(t, pos) is Ok,
    ensures
        spells(t, pos, spellings(parse_args_at(t, pos).unwrap()) + seq![Word::Close]),
    decreases remaining(t, pos), 1nat,
{
    let args = parse_args_at(t, pos).unwrap();
    let ws = spellings(args) + seq![Word::Close];
    if t[pos as int].token != Some(Token::AppliEnd) {
        let arg = parse_expr_at(t, pos).unwrap();
        lemma_width_positive(arg);
        lemma_spelling_len(arg);
        let rest = parse_args_at(t, pos + width(arg)).unwrap();
        lemma_expr_spelled(t, pos);
        lemma_args_spelled(t, pos + width(arg));
        lemma_spellings_prepend(arg, rest);
        lemma_spells_concat(t, pos, spelling(arg), spellings(rest) + seq![Word::Close]);
        assert(ws =~= spelling(arg) + (spellings(rest) + seq![Word::Close]));
    } else {
    }
}

/// Lexemes that spell words in a row spell each part.
pub proof fn lemma_spells_split(t: Seq<LexemeView>, pos: nat, a: Seq<Word>, b: Seq<Word>)
    requires
        spells(t, pos, a + b),
    ensures
        spells(t, pos, a),
        spells(t, pos + a.len(), b),
{
    assert forall|k: int| 0 <= k < a.len() implies word_of(t[pos + k]) == Some(
        #[trigger] a[k],
    ) by {
        assert((a + b)[k] == a[k]);
    }
    assert forall|k: int| 0 <= k < b.len() implies word_of(t[pos + a.len() + k]) == Some(
        #[trigger] b[k],
    ) by {
        assert((a + b)[a.len() + k] == b[k]);
    }
}

/// An expression starts with a name, a number, `Lambda` or `Open`.
pub proof fn lemma_first_word(e: ExprView)
    ensures
        spelling(e).len() >= 1,
        spelling(e)[0] != Word::Close,
        spelling(e)[0] != Word::Dot,
{
}

/// A parameter list that is written at `pos` is read as written.
pub proof fn lemma_spelled_params_parse(t: Seq<LexemeView>, pos: nat, params: Seq<Seq<char>>)
    requires
        spells(t, pos, name_words(params) + seq![Word::Dot]),
    ensures
        parse_params_at(t, pos) == Ok::<Seq<Seq<char>>, ParseError>(params),
    decreases params.len(),
{
    let ws = name_words(params) + seq![Word::Dot];
    if params.len() == 0 {
        assert(ws[0] == Word::Dot);
        assert(parse_params_at(t, pos).unwrap() =~= params);
    } else {
        let rest = params.drop_first();
        let first = seq![Word::Name(params[0])];
        assert(ws =~= first + (name_words(rest) + seq![Word::Dot]));
        lemma_spells_split(t, pos, first, name_words(rest) + seq![Word::Dot]);
        lemma_spelled_params_parse(t, pos + 1, rest);
        assert(seq![t[pos as int].text] + rest =~= params);
    }
}

/// The parser reads all of the grammar: wherever an expression is written,
/// it reads an expression that is written the same way.
pub proof fn lemma_spelled_expr_parses(t: Seq<LexemeView>, pos: nat, e: ExprView)
    requires
        spells(t, pos, spelling(e)),
    ensures
        parse_expr_at(t, pos) is Ok,
        spelling(parse_expr_at(t, pos).unwrap()) == spelling(e),
    decreases e,
{
    match e.kind {
        ExprKindView::Ident(_) => {},
        ExprKindView::Number(n) => {
            assert(spelling(e)[0] == Word::Number(n));
        },
        ExprKindView::Lambda(params, body) => {
            let head = seq![Word::Lambda];
            let list = name_words(params) + seq![Word::Dot];
            assert(spelling(e) =~= head + (list + spelling(*body)));
            lemma_spells_split(t, pos, head, list + spelling(*body));
            lemma_spells_split(t, pos + 1, list, spelling(*body));
            lemma_spelled_params_parse(t, pos + 1, params);
            lemma_spelled_expr_parses(t, pos + 2 + params.len(), *body);
        },
        ExprKindView::Call(callee, args) => {
            let head = seq![Word::Open];
            let tail = spellings(args) + seq![Word::Close];
            assert(spelling(e) =~= head + (spelling(*callee) + tail));
            lemma_spells_split(t, pos, head, spelling(*callee) + tail);
            lemma_spells_split(t, pos + 1, spelling(*callee), tail);
            lemma_spelled_expr_parses(t, pos + 1, *callee);
            let read = parse_expr_at(t, pos + 1).unwrap();
            lemma_spelling_len(read);
            lemma_spelled_args_parse(t, pos + 1 + width(read), args);
        },
    }
}

/// Arguments that are written at `pos`, with their `AppliEnd`, are read as
/// written.
pub proof fn lemma_spelled_args_parse(t: Seq<LexemeView>, pos: nat, es: Seq<ExprView>)
    requires
        spells(t, pos, spellings(es) + seq![Word::Close]),
    ensures
        parse_args_at(t, pos) is Ok,
        spellings(parse_args_at(t, pos).unwrap()) == spellings(es),
    decreases es,
{
    let ws = spellings(es) + seq![Word::Close];
    if es.len() == 0 {
        assert(ws[0] == Word::Close);
    } else {
        let first = es[0];
        let rest = es.drop_first();
        assert(seq![first] + rest =~= es);
        lemma_spellings_prepend(first, rest);
        let tail = spellings(rest) + seq![Word::Close];
        assert(ws =~= spelling(first) + tail);
        lemma_spells_split(t, pos, spelling(first), tail);
        lemma_first_word(first);
        lemma_spelled_expr_parses(t, pos, first);
        let read = parse_expr_at(t, pos).unwrap();
        lemma_spelling_len(read);
        lemma_spelled_args_parse(t, pos + width(read), rest);
        lemma_spellings_prepend(read, parse_args_at(t, pos + width(read)).unwrap());
    }
}

} // verus!
