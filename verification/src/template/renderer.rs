//! The renderer: expands a template against the variable context and the
//! helper catalog. The expression language is minimal: text is copied
//! verbatim, `{{...}}` encloses an expression, and an expression is a bare
//! variable reference, a string literal, or a helper invocation
//! `name arg ...` whose arguments are literals, variable references or
//! parenthesised nested invocations.

use vstd::prelude::*;

use crate::context::VarContext;
use crate::rustgen_error::{ErrorKind, RustgenError, RustgenResult};
use crate::template::helpers::{
    apply_case, case_kind_of_name, case_kind_spec, cased_of, helper_name, is_helper_name,
    regex_compiles, regex_replaced,
};
use crate::template::timefmt::format_time_spec;
use crate::template::{RegexReplaceHelper, TimeHelper};
use crate::text::{
    chars_eq_str, chars_to_string, copy_chars, find_sub, is_wspace, occurs_at, replace_all,
    replace_all_spec, str_to_chars, sub_chars, wspace_char,
};

verus! {

/// A value during expression evaluation: a missing variable, or text.
pub enum Value {
    Missing,
    Text(Vec<char>),
}

/// The mathematical form of a [`Value`].
pub enum ValueV {
    Missing,
    Text(Seq<char>),
}

impl View for Value {
    type V = ValueV;

    open spec fn view(&self) -> ValueV {
        match self {
            Value::Missing => ValueV::Missing,
            Value::Text(s) => ValueV::Text(s@),
        }
    }
}

/// The text form of a value: missing renders as nothing.
pub open spec fn render_valuev(v: ValueV) -> Seq<char> {
    match v {
        ValueV::Missing => Seq::empty(),
        ValueV::Text(s) => s,
    }
}

/// A value holds no data when it is missing or the empty text.
pub open spec fn valuev_falsy(v: ValueV) -> bool {
    match v {
        ValueV::Missing => true,
        ValueV::Text(s) => s.len() == 0,
    }
}

/// The views of a run of values.
pub open spec fn vals_view(vs: Seq<Value>) -> Seq<ValueV> {
    Seq::new(vs.len(), |i: int| vs[i]@)
}

/// The text form of a value.
pub fn value_text(v: &Value) -> (r: Vec<char>)
    ensures
        r@ == render_valuev(v@),
{
    match v {
        Value::Missing => Vec::new(),
        Value::Text(s) => copy_chars(s),
    }
}

/// A token of an expression between `{{` and `}}`.
pub enum Token {
    Ident(Vec<char>),
    Lit(Vec<char>),
    LParen,
    RParen,
}

/// The mathematical form of a [`Token`].
pub enum TokenV {
    Ident(Seq<char>),
    Lit(Seq<char>),
    LParen,
    RParen,
}

impl View for Token {
    type V = TokenV;

    open spec fn view(&self) -> TokenV {
        match self {
            Token::Ident(s) => TokenV::Ident(s@),
            Token::Lit(s) => TokenV::Lit(s@),
            Token::LParen => TokenV::LParen,
            Token::RParen => TokenV::RParen,
        }
    }
}

/// The views of a run of tokens.
pub open spec fn toks_view(ts: Seq<Token>) -> Seq<TokenV> {
    Seq::new(ts.len(), |i: int| ts[i]@)
}

/// A character that may stand in a bare identifier.
pub open spec fn is_ident_char(c: char) -> bool {
    !is_wspace(c) && c != '(' && c != ')' && c != '"'
}

/// Whether `c` may stand in a bare identifier.
pub fn ident_char(c: char) -> (r: bool)
    ensures
        r == is_ident_char(c),
{
    !wspace_char(c) && c != '(' && c != ')' && c != '"'
}

/// The position of the first `c` in `s`, if any.
pub open spec fn find_char_spec(s: Seq<char>, c: char) -> Option<int>
    decreases s.len(),
{
    if s.len() == 0 {
        None
    } else if s[0] == c {
        Some(0)
    } else {
        match find_char_spec(s.skip(1), c) {
            Some(i) => Some(i + 1),
            None => None,
        }
    }
}

/// What `find_char_spec` returns: the first occurrence.
pub proof fn lemma_find_char(s: Seq<char>, c: char)
    ensures
        match find_char_spec(s, c) {
            Some(i) => 0 <= i < s.len() && s[i] == c && (forall|j: int| 0 <= j < i ==> s[j] != c),
            None => forall|j: int| 0 <= j < s.len() ==> s[j] != c,
        },
    decreases s.len(),
{
    if s.len() == 0 {
    } else if s[0] == c {
    } else {
        lemma_find_char(s.skip(1), c);
        match find_char_spec(s.skip(1), c) {
            Some(i) => {
                assert(s.skip(1)[i] == s[i + 1]);
                assert forall|j: int| 0 <= j < i + 1 implies s[j] != c by {
                    if j > 0 {
                        assert(s.skip(1)[j - 1] == s[j]);
                    }
                }
            },
            None => {
                assert forall|j: int| 0 <= j < s.len() implies s[j] != c by {
                    if j > 0 {
                        assert(s.skip(1)[j - 1] == s[j]);
                    }
                }
            },
        }
    }
}

/// The length of the identifier prefix of `s`.
pub open spec fn ident_len_spec(s: Seq<char>) -> int
    decreases s.len(),
{
    if s.len() == 0 || !is_ident_char(s[0]) {
        0
    } else {
        1 + ident_len_spec(s.skip(1))
    }
}

/// What `ident_len_spec` returns: the longest identifier prefix.
pub proof fn lemma_ident_len(s: Seq<char>)
    ensures
        0 <= ident_len_spec(s) <= s.len(),
        forall|j: int| 0 <= j < ident_len_spec(s) ==> is_ident_char(s[j]),
        ident_len_spec(s) < s.len() ==> !is_ident_char(s[ident_len_spec(s)]),
    decreases s.len(),
{
    if s.len() == 0 || !is_ident_char(s[0]) {
    } else {
        lemma_ident_len(s.skip(1));
        let l = ident_len_spec(s);
        assert forall|j: int| 0 <= j < l implies is_ident_char(s[j]) by {
            if j > 0 {
                assert(s.skip(1)[j - 1] == s[j]);
            }
        }
        if l < s.len() {
            assert(s.skip(1)[l - 1] == s[l]);
        }
    }
}

/// The tokens of the text between `{{` and `}}`: whitespace separates tokens,
/// `(` and `)` stand alone, `"` opens a literal that the next `"` closes, and
/// any other run of characters is an identifier. An unterminated literal makes
/// the whole expression fail.
pub open spec fn spec_tokenize(s: Seq<char>) -> Option<Seq<TokenV>>
    decreases s.len(),
{
    if s.len() == 0 {
        Some(Seq::empty())
    } else if is_wspace(s[0]) {
        spec_tokenize(s.skip(1))
    } else if s[0] == '(' {
        match spec_tokenize(s.skip(1)) {
            Some(ts) => Some(seq![TokenV::LParen] + ts),
            None => None,
        }
    } else if s[0] == ')' {
        match spec_tokenize(s.skip(1)) {
            Some(ts) => Some(seq![TokenV::RParen] + ts),
            None => None,
        }
    } else if s[0] == '"' {
        match find_char_spec(s.skip(1), '"') {
            Some(k) => {
                if 0 <= k && k + 2 <= s.len() {
                    match spec_tokenize(s.skip(k + 2)) {
                        Some(ts) => Some(seq![TokenV::Lit(s.subrange(1, k + 1))] + ts),
                        None => None,
                    }
                } else {
                    None
                }
            },
            None => None,
        }
    } else {
        let l = ident_len_spec(s);
        if 1 <= l <= s.len() {
            match spec_tokenize(s.skip(l)) {
                Some(ts) => Some(seq![TokenV::Ident(s.subrange(0, l))] + ts),
                None => None,
            }
        } else {
            None
        }
    }
}

/// Prepends the given tokens to a tokenization outcome.
pub open spec fn glue_toks(prefix: Seq<TokenV>, rest: Option<Seq<TokenV>>) -> Option<Seq<TokenV>> {
    match rest {
        Some(ts) => Some(prefix + ts),
        None => None,
    }
}

/// Splits the expression text into tokens; fails on an unterminated string
/// literal.
pub fn tokenize(s: &Vec<char>) -> (r: RustgenResult<Vec<Token>>)
    ensures
        match r {
            Ok(v) => spec_tokenize(s@) == Some(toks_view(v@)),
            Err(e) => spec_tokenize(s@) is None && e.kind == ErrorKind::Render,
        },
{
    let mut out: Vec<Token> = Vec::new();
    let mut p: usize = 0;
    proof {
        assert(s@.skip(0) =~= s@);
        assert(toks_view(out@) =~= Seq::<TokenV>::empty());
        assert(glue_toks(toks_view(out@), spec_tokenize(s@)) == spec_tokenize(s@));
    }
    while p < s.len()
        invariant
            p <= s@.len(),
            spec_tokenize(s@) == glue_toks(toks_view(out@), spec_tokenize(s@.skip(p as int))),
        decreases s@.len() - p,
    {
        let ghost pre = s@.skip(p as int);
        let ghost out0 = toks_view(out@);
        let c = s[p];
        if wspace_char(c) {
            proof {
                assert(pre.skip(1) =~= s@.skip(p + 1));
            }
            p += 1;
        } else if c == '(' {
            out.push(Token::LParen);
            proof {
                assert(pre.skip(1) =~= s@.skip(p + 1));
                assert(toks_view(out@) =~= out0 + seq![TokenV::LParen]);
                lemma_glue_assoc(out0, seq![TokenV::LParen], spec_tokenize(s@.skip(p + 1)));
            }
            p += 1;
        } else if c == ')' {
            out.push(Token::RParen);
            proof {
                assert(pre.skip(1) =~= s@.skip(p + 1));
                assert(toks_view(out@) =~= out0 + seq![TokenV::RParen]);
                lemma_glue_assoc(out0, seq![TokenV::RParen], spec_tokenize(s@.skip(p + 1)));
            }
            p += 1;
        } else if c == '"' {
            // Scan for the closing quote.
            let mut q: usize = p + 1;
            while q < s.len() && s[q] != '"'
                invariant
                    p + 1 <= q <= s@.len(),
                    forall|j: int| p + 1 <= j < q ==> s@[j] != '"',
                decreases s@.len() - q,
            {
                q += 1;
            }
            proof {
                lemma_find_char(pre.skip(1), '"');
                assert(forall|j: int|
                    0 <= j < pre.len() - 1 ==> pre.skip(1)[j] == s@[p + 1 + j]);
            }
            if q >= s.len() {
                proof {
                    if find_char_spec(pre.skip(1), '"') is Some {
                        let k = find_char_spec(pre.skip(1), '"')->Some_0;
                        assert(s@[p + 1 + k] == '"');
                    }
                }
                return Err(RustgenError::render_error("unterminated string literal"));
            }
            let ghost k = q - (p + 1);
            proof {
                assert(pre.skip(1)[k as int] == '"');
                if find_char_spec(pre.skip(1), '"') is None {
                    assert(false);
                }
                let k2 = find_char_spec(pre.skip(1), '"')->Some_0;
                if k2 < k {
                    assert(s@[p + 1 + k2] == '"');
                    assert(false);
                }
                if k2 > k {
                    assert(pre.skip(1)[k as int] != '"');
                    assert(false);
                }
                assert(find_char_spec(pre.skip(1), '"') == Some(k as int));
            }
            let lit = sub_chars(s, p + 1, q);
            out.push(Token::Lit(lit));
            proof {
                assert(pre.subrange(1, k as int + 1) =~= s@.subrange(p + 1, q as int));
                assert(pre.skip(k as int + 2) =~= s@.skip(q + 1));
                assert(toks_view(out@) =~= out0 + seq![TokenV::Lit(pre.subrange(1, k as int + 1))]);
                lemma_glue_assoc(
                    out0,
                    seq![TokenV::Lit(pre.subrange(1, k as int + 1))],
                    spec_tokenize(s@.skip(q + 1)),
                );
            }
            p = q + 1;
        } else {
            // Scan the identifier.
            let mut q: usize = p;
            while q < s.len() && ident_char(s[q])
                invariant
                    p <= q <= s@.len(),
                    forall|j: int| p <= j < q ==> is_ident_char(s@[j]),
                decreases s@.len() - q,
            {
                q += 1;
            }
            proof {
                lemma_ident_len(pre);
                assert(forall|j: int| 0 <= j < pre.len() ==> pre[j] == s@[p + j]);
                let l = ident_len_spec(pre);
                let ghost le = q - p;
                if l < le {
                    assert(is_ident_char(s@[p + l]));
                    assert(false);
                }
                if l > le {
                    assert(is_ident_char(pre[le as int]));
                    assert(q < s@.len() && !is_ident_char(s@[q as int]));
                    assert(false);
                }
                assert(l == le);
                assert(is_ident_char(pre[0]));
                assert(l >= 1);
            }
            let ident = sub_chars(s, p, q);
            out.push(Token::Ident(ident));
            proof {
                let ghost le = q - p;
                assert(pre.subrange(0, le as int) =~= s@.subrange(p as int, q as int));
                assert(pre.skip(le as int) =~= s@.skip(q as int));
                assert(toks_view(out@) =~= out0 + seq![TokenV::Ident(pre.subrange(0, le as int))]);
                lemma_glue_assoc(
                    out0,
                    seq![TokenV::Ident(pre.subrange(0, le as int))],
                    spec_tokenize(s@.skip(q as int)),
                );
            }
            p = q;
        }
    }
    proof {
        assert(s@.skip(s@.len() as int) =~= Seq::<char>::empty());
        assert(toks_view(out@) + Seq::<TokenV>::empty() =~= toks_view(out@));
    }
    Ok(out)
}

/// Gluing token runs one after the other is associative.
proof fn lemma_glue_assoc(a: Seq<TokenV>, b: Seq<TokenV>, rest: Option<Seq<TokenV>>)
    ensures
        glue_toks(a + b, rest) == glue_toks(a, glue_toks(b, rest)),
{
    match rest {
        Some(ts) => {
            assert((a + b) + ts =~= a + (b + ts));
        },
        None => {},
    }
}

/// The text forms of the values, concatenated in order with no separator.
pub open spec fn concat_valuevs(vs: Seq<ValueV>) -> Seq<char>
    decreases vs.len(),
{
    if vs.len() == 0 {
        Seq::empty()
    } else {
        concat_valuevs(vs.drop_last()) + render_valuev(vs.last())
    }
}

/// What a helper invocation yields: the resulting value and the context after
/// the call (only `set` changes it), or nothing when the invocation is
/// malformed — an unknown name, a wrong argument count or type, non-ASCII
/// input to a case conversion, a regular expression that does not compile, or
/// a bad time format.
pub open spec fn spec_apply_helper(
    name: Seq<char>,
    args: Seq<ValueV>,
    ctx: Map<Seq<char>, Seq<char>>,
    now: u64,
) -> Option<(ValueV, Map<Seq<char>, Seq<char>>)> {
    if case_kind_spec(name) is Some {
        if args.len() == 1 && args[0] is Text && vstd::utf8::is_ascii_chars(args[0]->Text_0) {
            Some((ValueV::Text(cased_of(case_kind_spec(name)->Some_0, args[0]->Text_0)), ctx))
        } else {
            None
        }
    } else if name == "replace"@ {
        if args.len() == 3 && args[0] is Text && args[1] is Text && args[2] is Text {
            Some(
                (
                    ValueV::Text(
                        replace_all_spec(args[0]->Text_0, args[1]->Text_0, args[2]->Text_0),
                    ),
                    ctx,
                ),
            )
        } else {
            None
        }
    } else if name == "regex_replace"@ {
        if args.len() == 3 && args[0] is Text && args[1] is Text && args[2] is Text {
            if regex_compiles(args[1]->Text_0) {
                Some(
                    (
                        ValueV::Text(
                            regex_replaced(args[1]->Text_0, args[0]->Text_0, args[2]->Text_0),
                        ),
                        ctx,
                    ),
                )
            } else {
                None
            }
        } else {
            None
        }
    } else if name == "concat"@ {
        Some((ValueV::Text(concat_valuevs(args)), ctx))
    } else if name == "default"@ {
        if args.len() == 2 {
            Some(
                (
                    if valuev_falsy(args[0]) {
                        args[1]
                    } else {
                        args[0]
                    },
                    ctx,
                ),
            )
        } else {
            None
        }
    } else if name == "set"@ {
        if args.len() == 2 {
            Some((ValueV::Missing, ctx.insert(render_valuev(args[0]), render_valuev(args[1]))))
        } else {
            None
        }
    } else if name == "time"@ {
        if args.len() == 1 && args[0] is Text {
            match format_time_spec(now, args[0]->Text_0) {
                Some(out) => Some((ValueV::Text(out), ctx)),
                None => None,
            }
        } else {
            None
        }
    } else {
        None
    }
}

/// A copy of the value.
pub fn copy_value(v: &Value) -> (r: Value)
    ensures
        r@ == v@,
{
    match v {
        Value::Missing => Value::Missing,
        Value::Text(s) => Value::Text(copy_chars(s)),
    }
}

/// Invokes the helper `name` on the evaluated arguments; fails with a render
/// error exactly when the invocation is malformed.
pub fn apply_helper(name: &Vec<char>, args: &Vec<Value>, ctx: &mut VarContext, now: u64) -> (r:
    RustgenResult<Value>)
    ensures
        match spec_apply_helper(name@, vals_view(args@), old(ctx)@, now) {
            Some(t) => r matches Ok(v) && v@ == t.0 && final(ctx)@ == t.1,
            None => (r matches Err(e) && e.kind == ErrorKind::Render) && final(ctx)@ == old(ctx)@,
        },
{
    proof {
        assert(forall|i: int| 0 <= i < args@.len() ==> vals_view(args@)[i] == args@[i]@);
    }
    if let Some(kind) = case_kind_of_name(name) {
        if args.len() == 1 {
            match &args[0] {
                Value::Text(s) => {
                    let input = chars_to_string(s);
                    if !input.as_str().is_ascii() {
                        return Err(RustgenError::render_error("case helper needs ASCII text"));
                    }
                    let out = apply_case(kind, input.as_str());
                    Ok(Value::Text(str_to_chars(out.as_str())))
                },
                Value::Missing => Err(
                    RustgenError::render_error("case helper needs a text argument"),
                ),
            }
        } else {
            Err(RustgenError::render_error("case helper takes exactly one argument"))
        }
    } else if chars_eq_str(name, "replace") {
        if args.len() == 3 {
            match (&args[0], &args[1], &args[2]) {
                (Value::Text(input), Value::Text(from), Value::Text(to)) => Ok(
                    Value::Text(replace_all(input, from, to)),
                ),
                _ => Err(RustgenError::render_error("replace needs three text arguments")),
            }
        } else {
            Err(RustgenError::render_error("replace takes exactly three arguments"))
        }
    } else if chars_eq_str(name, "regex_replace") {
        if args.len() == 3 {
            match (&args[0], &args[1], &args[2]) {
                (Value::Text(input), Value::Text(pattern), Value::Text(replacement)) => {
                    let input_s = chars_to_string(input);
                    let pattern_s = chars_to_string(pattern);
                    let replacement_s = chars_to_string(replacement);
                    match RegexReplaceHelper::call(
                        input_s.as_str(),
                        pattern_s.as_str(),
                        replacement_s.as_str(),
                    ) {
                        Ok(out) => Ok(Value::Text(str_to_chars(out.as_str()))),
                        Err(e) => Err(e),
                    }
                },
                _ => Err(RustgenError::render_error("regex_replace needs three text arguments")),
            }
        } else {
            Err(RustgenError::render_error("regex_replace takes exactly three arguments"))
        }
    } else if chars_eq_str(name, "concat") {
        let mut out: Vec<char> = Vec::new();
        let mut i: usize = 0;
        proof {
            assert(vals_view(args@).subrange(0, 0) =~= Seq::<ValueV>::empty());
        }
        while i < args.len()
            invariant
                i <= args@.len(),
                out@ == concat_valuevs(vals_view(args@).subrange(0, i as int)),
            decreases args@.len() - i,
        {
            let piece = value_text(&args[i]);
            crate::text::append_chars(&mut out, &piece);
            proof {
                let whole = vals_view(args@);
                let next = whole.subrange(0, i + 1);
                assert(next.drop_last() =~= whole.subrange(0, i as int));
                assert(next.last() == whole[i as int]);
                assert(whole[i as int] == args@[i as int]@);
            }
            i += 1;
        }
        proof {
            assert(vals_view(args@).subrange(0, args@.len() as int) =~= vals_view(args@));
        }
        Ok(Value::Text(out))
    } else if chars_eq_str(name, "default") {
        if args.len() == 2 {
            let falsy = match &args[0] {
                Value::Missing => true,
                Value::Text(s) => s.len() == 0,
            };
            if falsy {
                Ok(copy_value(&args[1]))
            } else {
                Ok(copy_value(&args[0]))
            }
        } else {
            Err(RustgenError::render_error("default takes exactly two arguments"))
        }
    } else if chars_eq_str(name, "set") {
        if args.len() == 2 {
            let key = value_text(&args[0]);
            let content = value_text(&args[1]);
            ctx.insert_chars(key, content);
            Ok(Value::Missing)
        } else {
            Err(RustgenError::render_error("set takes exactly two arguments"))
        }
    } else if chars_eq_str(name, "time") {
        if args.len() == 1 {
            match &args[0] {
                Value::Text(f) => {
                    let fmt = chars_to_string(f);
                    match TimeHelper::call(now, fmt.as_str()) {
                        Ok(out) => Ok(Value::Text(str_to_chars(out.as_str()))),
                        Err(e) => Err(e),
                    }
                },
                Value::Missing => Err(RustgenError::render_error("time needs a text argument")),
            }
        } else {
            Err(RustgenError::render_error("time takes exactly one argument"))
        }
    } else {
        Err(RustgenError::render_error("unknown helper"))
    }
}

/// What a run of argument atoms evaluates to, from token position `i` on:
/// the argument values, the position after the run, and the context after it
/// (nested `set` calls may change it). With `rp` the run is inside
/// parentheses and ends at (and consumes) the closing one; without, it ends
/// at the end of the tokens. `None` stands for a malformed expression.
pub open spec fn spec_eval_args(
    ts: Seq<TokenV>,
    i: int,
    rp: bool,
    ctx: Map<Seq<char>, Seq<char>>,
    now: u64,
) -> Option<(Seq<ValueV>, int, Map<Seq<char>, Seq<char>>)>
    decreases ts.len() - i,
{
    if i < 0 || i >= ts.len() {
        if rp {
            None
        } else {
            Some((Seq::empty(), i, ctx))
        }
    } else {
        match ts[i] {
            TokenV::RParen => {
                if rp {
                    Some((Seq::empty(), i + 1, ctx))
                } else {
                    None
                }
            },
            TokenV::Lit(l) => match spec_eval_args(ts, i + 1, rp, ctx, now) {
                Some(t) => Some((seq![ValueV::Text(l)] + t.0, t.1, t.2)),
                None => None,
            },
            TokenV::Ident(x) => {
                let v = if ctx.contains_key(x) {
                    ValueV::Text(ctx[x])
                } else {
                    ValueV::Missing
                };
                match spec_eval_args(ts, i + 1, rp, ctx, now) {
                    Some(t) => Some((seq![v] + t.0, t.1, t.2)),
                    None => None,
                }
            },
            TokenV::LParen => {
                if i + 1 < ts.len() && ts[i + 1] is Ident {
                    match spec_eval_args(ts, i + 2, true, ctx, now) {
                        Some(inner) => match spec_apply_helper(
                            ts[i + 1]->Ident_0,
                            inner.0,
                            inner.2,
                            now,
                        ) {
                            Some(applied) => {
                                if i < inner.1 <= ts.len() {
                                    match spec_eval_args(ts, inner.1, rp, applied.1, now) {
                                        Some(t) => Some((seq![applied.0] + t.0, t.1, t.2)),
                                        None => None,
                                    }
                                } else {
                                    None
                                }
                            },
                            None => None,
                        },
                        None => None,
                    }
                } else {
                    None
                }
            },
        }
    }
}

/// A run of values with one more value in front.
proof fn lemma_vals_view_insert0(vs: Seq<Value>, v: Value)
    ensures
        vals_view(vs.insert(0, v)) == seq![v@] + vals_view(vs),
{
    assert(vals_view(vs.insert(0, v)) =~= seq![v@] + vals_view(vs)) by {
        assert forall|i: int| 0 <= i < vs.len() + 1 implies vals_view(vs.insert(0, v))[i] == (
        seq![v@] + vals_view(vs))[i] by {
            if i > 0 {
                assert(vs.insert(0, v)[i] == vs[i - 1]);
            } else {
                assert(vs.insert(0, v)[0] == v);
            }
        }
    }
}

/// Evaluates a run of argument atoms from token position `i` on.
pub fn eval_args(ts: &Vec<Token>, i: usize, rp: bool, ctx: &mut VarContext, now: u64) -> (r:
    RustgenResult<(Vec<Value>, usize)>)
    requires
        i <= ts@.len(),
    ensures
        match spec_eval_args(toks_view(ts@), i as int, rp, old(ctx)@, now) {
            Some(t) => r matches Ok(p) && vals_view(p.0@) == t.0 && p.1 as int == t.1
                && final(ctx)@ == t.2 && i <= p.1 <= ts@.len(),
            None => r matches Err(e) && e.kind == ErrorKind::Render,
        },
    decreases ts@.len() - i,
{
    let ghost tv = toks_view(ts@);
    if i >= ts.len() {
        if rp {
            Err(RustgenError::render_error("missing closing parenthesis"))
        } else {
            proof {
                assert(vals_view(Seq::<Value>::empty()) =~= Seq::<ValueV>::empty());
            }
            Ok((Vec::new(), i))
        }
    } else {
        proof {
            assert(tv[i as int] == ts@[i as int]@);
        }
        match &ts[i] {
            Token::RParen => {
                if rp {
                    proof {
                        assert(vals_view(Seq::<Value>::empty()) =~= Seq::<ValueV>::empty());
                    }
                    Ok((Vec::new(), i + 1))
                } else {
                    Err(RustgenError::render_error("unexpected closing parenthesis"))
                }
            },
            Token::Lit(l) => {
                let v = Value::Text(copy_chars(l));
                match eval_args(ts, i + 1, rp, ctx, now) {
                    Ok((mut vs, i2)) => {
                        proof {
                            lemma_vals_view_insert0(vs@, v);
                        }
                        vs.insert(0, v);
                        Ok((vs, i2))
                    },
                    Err(e) => Err(e),
                }
            },
            Token::Ident(x) => {
                let v = match ctx.get(x) {
                    Some(chars) => Value::Text(chars),
                    None => Value::Missing,
                };
                match eval_args(ts, i + 1, rp, ctx, now) {
                    Ok((mut vs, i2)) => {
                        proof {
                            lemma_vals_view_insert0(vs@, v);
                        }
                        vs.insert(0, v);
                        Ok((vs, i2))
                    },
                    Err(e) => Err(e),
                }
            },
            Token::LParen => {
                if i + 1 < ts.len() {
                    proof {
                        assert(tv[i + 1] == ts@[i + 1]@);
                    }
                    let name = match &ts[i + 1] {
                        Token::Ident(n) => copy_chars(n),
                        _ => {
                            return Err(
                                RustgenError::render_error(
                                    "expected a helper name after an opening parenthesis",
                                ),
                            );
                        },
                    };
                    match eval_args(ts, i + 2, true, ctx, now) {
                        Ok((argvals, i2)) => {
                            match apply_helper(&name, &argvals, ctx, now) {
                                Ok(v) => {
                                    match eval_args(ts, i2, rp, ctx, now) {
                                        Ok((mut vs, i3)) => {
                                            proof {
                                                lemma_vals_view_insert0(vs@, v);
                                            }
                                            vs.insert(0, v);
                                            Ok((vs, i3))
                                        },
                                        Err(e) => Err(e),
                                    }
                                },
                                Err(e) => Err(e),
                            }
                        },
                        Err(e) => Err(e),
                    }
                } else {
                    Err(
                        RustgenError::render_error(
                            "expected a helper name after an opening parenthesis",
                        ),
                    )
                }
            },
        }
    }
}

/// What one whole expression between `{{` and `}}` renders to, and the
/// context after it: a lone literal renders as its text, a lone identifier
/// that names no helper renders as the variable's value (or as nothing when
/// unbound), and anything else must be a helper invocation whose arguments
/// span the rest of the expression.
pub open spec fn spec_eval_expr(
    ts: Seq<TokenV>,
    ctx: Map<Seq<char>, Seq<char>>,
    now: u64,
) -> Option<(Seq<char>, Map<Seq<char>, Seq<char>>)> {
    if ts.len() == 0 {
        None
    } else if ts.len() == 1 && ts[0] is Lit {
        Some((ts[0]->Lit_0, ctx))
    } else if ts.len() == 1 && ts[0] is Ident && !is_helper_name(ts[0]->Ident_0) {
        Some(
            (
                if ctx.contains_key(ts[0]->Ident_0) {
                    ctx[ts[0]->Ident_0]
                } else {
                    Seq::empty()
                },
                ctx,
            ),
        )
    } else if ts[0] is Ident {
        match spec_eval_args(ts, 1, false, ctx, now) {
            Some(t) => {
                if t.1 == ts.len() {
                    match spec_apply_helper(ts[0]->Ident_0, t.0, t.2, now) {
                        Some(applied) => Some((render_valuev(applied.0), applied.1)),
                        None => None,
                    }
                } else {
                    None
                }
            },
            None => None,
        }
    } else {
        None
    }
}

/// Evaluates one whole expression between `{{` and `}}`.
pub fn eval_expr(ts: &Vec<Token>, ctx: &mut VarContext, now: u64) -> (r: RustgenResult<Vec<char>>)
    ensures
        match spec_eval_expr(toks_view(ts@), old(ctx)@, now) {
            Some(t) => r matches Ok(out) && out@ == t.0 && final(ctx)@ == t.1,
            None => r matches Err(e) && e.kind == ErrorKind::Render,
        },
{
    let ghost tv = toks_view(ts@);
    if ts.len() == 0 {
        return Err(RustgenError::render_error("empty expression"));
    }
    proof {
        assert(tv[0] == ts@[0]@);
    }
    if ts.len() == 1 {
        match &ts[0] {
            Token::Lit(l) => {
                return Ok(copy_chars(l));
            },
            Token::Ident(x) => {
                if !helper_name(x) {
                    match ctx.get(x) {
                        Some(v) => {
                            return Ok(v);
                        },
                        None => {
                            return Ok(Vec::new());
                        },
                    }
                }
            },
            _ => {
                return Err(RustgenError::render_error("malformed expression"));
            },
        }
    }
    let name = match &ts[0] {
        Token::Ident(n) => copy_chars(n),
        _ => {
            return Err(RustgenError::render_error("malformed expression"));
        },
    };
    match eval_args(ts, 1, false, ctx, now) {
        Ok((argvals, i2)) => {
            if i2 == ts.len() {
                match apply_helper(&name, &argvals, ctx, now) {
                    Ok(v) => Ok(value_text(&v)),
                    Err(e) => Err(e),
                }
            } else {
                Err(RustgenError::render_error("malformed helper invocation"))
            }
        },
        Err(e) => Err(e),
    }
}

/// The position of the first `}}` in `s`, if any.
pub open spec fn find_close(s: Seq<char>) -> Option<int>
    decreases s.len(),
{
    if s.len() < 2 {
        None
    } else if s[0] == '}' && s[1] == '}' {
        Some(0)
    } else {
        match find_close(s.skip(1)) {
            Some(k) => Some(k + 1),
            None => None,
        }
    }
}

/// What `find_close` returns: the first occurrence of `}}`.
pub proof fn lemma_find_close(s: Seq<char>)
    ensures
        match find_close(s) {
            Some(k) => 0 <= k && k + 2 <= s.len() && s[k] == '}' && s[k + 1] == '}' && (forall|
                j: int,
            |
                0 <= j < k ==> !(#[trigger] s[j] == '}' && s[j + 1] == '}')),
            None => forall|j: int|
                0 <= j && j + 2 <= s.len() ==> !(#[trigger] s[j] == '}' && s[j + 1] == '}'),
        },
    decreases s.len(),
{
    if s.len() < 2 {
    } else if s[0] == '}' && s[1] == '}' {
    } else {
        lemma_find_close(s.skip(1));
        match find_close(s.skip(1)) {
            Some(k) => {
                assert(s.skip(1)[k] == s[k + 1] && s.skip(1)[k + 1] == s[k + 2]);
                assert forall|j: int| 0 <= j < k + 1 implies !(#[trigger] s[j] == '}' && s[j + 1] == '}') by {
                    if j > 0 {
                        assert(s.skip(1)[j - 1] == s[j] && s.skip(1)[j] == s[j + 1]);
                    }
                }
            },
            None => {
                assert forall|j: int|
                    0 <= j && j + 2 <= s.len() implies !(#[trigger] s[j] == '}' && s[j + 1]
                    == '}') by {
                    if j > 0 {
                        assert(s.skip(1)[j - 1] == s[j] && s.skip(1)[j] == s[j + 1]);
                    }
                }
            },
        }
    }
}

/// What a whole template renders to under the context `ctx` and the timestamp
/// `now`, and the context after the pass: text is copied verbatim, and each
/// `{{...}}` is tokenized, evaluated, and replaced by its rendered value, in
/// textual order. `None` stands for a malformed template: an unterminated
/// `{{`, an unterminated string literal, or a malformed helper invocation.
pub open spec fn spec_render(
    t: Seq<char>,
    ctx: Map<Seq<char>, Seq<char>>,
    now: u64,
) -> Option<(Seq<char>, Map<Seq<char>, Seq<char>>)>
    decreases t.len(),
{
    if t.len() == 0 {
        Some((Seq::empty(), ctx))
    } else if t.len() >= 2 && t[0] == '{' && t[1] == '{' {
        match find_close(t.skip(2)) {
            None => None,
            Some(k) => {
                if 0 <= k && k + 4 <= t.len() {
                    match spec_tokenize(t.subrange(2, k + 2)) {
                        None => None,
                        Some(ts) => match spec_eval_expr(ts, ctx, now) {
                            None => None,
                            Some(piece) => match spec_render(t.skip(k + 4), piece.1, now) {
                                Some(rest) => Some((piece.0 + rest.0, rest.1)),
                                None => None,
                            },
                        },
                    }
                } else {
                    None
                }
            },
        }
    } else {
        match spec_render(t.skip(1), ctx, now) {
            Some(rest) => Some((seq![t[0]] + rest.0, rest.1)),
            None => None,
        }
    }
}

/// Prepends already-rendered text to a render outcome.
pub open spec fn glue_render(
    prefix: Seq<char>,
    rest: Option<(Seq<char>, Map<Seq<char>, Seq<char>>)>,
) -> Option<(Seq<char>, Map<Seq<char>, Seq<char>>)> {
    match rest {
        Some(p) => Some((prefix + p.0, p.1)),
        None => None,
    }
}

/// Gluing rendered text one run after the other is associative.
proof fn lemma_glue_render_assoc(
    a: Seq<char>,
    b: Seq<char>,
    rest: Option<(Seq<char>, Map<Seq<char>, Seq<char>>)>,
)
    ensures
        glue_render(a + b, rest) == glue_render(a, glue_render(b, rest)),
{
    match rest {
        Some(p) => {
            assert((a + b) + p.0 =~= a + (b + p.0));
        },
        None => {},
    }
}

/// Renders the template against the context and the helper catalog, with
/// `now` as the timestamp that the time helper formats. Helpers that set
/// variables change the context for the rest of the pass, in textual order.
/// Fails with a render error exactly on a malformed template: an unterminated
/// `{{`, an unterminated string literal, or a malformed helper invocation.
pub fn render(template: &str, ctx: &mut VarContext, now: u64) -> (r: RustgenResult<String>)
    ensures
        match spec_render(template@, old(ctx)@, now) {
            Some(t) => r matches Ok(s) && s@ == t.0 && final(ctx)@ == t.1,
            None => r matches Err(e) && e.kind == ErrorKind::Render,
        },
{
    let t = str_to_chars(template);
    let mut close_pat: Vec<char> = Vec::new();
    close_pat.push('}');
    close_pat.push('}');
    proof {
        assert(close_pat@ =~= seq!['}', '}']);
    }
    let mut out: Vec<char> = Vec::new();
    let mut p: usize = 0;
    proof {
        assert(t@.skip(0) =~= t@);
        if spec_render(t@, ctx@, now) is Some {
            assert(out@ + spec_render(t@, ctx@, now)->Some_0.0 =~= spec_render(
                t@,
                ctx@,
                now,
            )->Some_0.0);
        }
    }
    while p < t.len()
        invariant
            p <= t@.len(),
            t@ == template@,
            close_pat@ == seq!['}', '}'],
            spec_render(template@, old(ctx)@, now) == glue_render(
                out@,
                spec_render(t@.skip(p as int), ctx@, now),
            ),
        decreases t@.len() - p,
    {
        let ghost pre = t@.skip(p as int);
        let ghost out0 = out@;
        let is_open = t.len() - p >= 2 && t[p] == '{' && t[p + 1] == '{';
        if is_open {
            let rest = sub_chars(&t, p + 2, t.len());
            proof {
                assert(rest@ =~= pre.skip(2));
                lemma_find_close(pre.skip(2));
            }
            let close_rel = match find_sub(&rest, &close_pat) {
                Some(k) => k,
                None => {
                    proof {
                        if find_close(pre.skip(2)) is Some {
                            let k = find_close(pre.skip(2))->Some_0;
                            assert(occurs_at(rest@, close_pat@, k)) by {
                                assert(rest@.subrange(k, k + 2) =~= close_pat@);
                            }
                        }
                    }
                    return Err(RustgenError::render_error("unterminated expression"));
                },
            };
            proof {
                // The first `}}` that the search found is the one find_close names.
                assert(rest@.subrange(close_rel as int, close_rel + 2) =~= close_pat@);
                assert(rest@[close_rel as int] == '}' && rest@[close_rel + 1] == '}');
                match find_close(pre.skip(2)) {
                    Some(k) => {
                        if k < close_rel as int {
                            assert(occurs_at(rest@, close_pat@, k)) by {
                                assert(rest@.subrange(k, k + 2) =~= close_pat@);
                            }
                            assert(false);
                        }
                        if k > close_rel as int {
                            assert(false);
                        }
                    },
                    None => {
                        assert(false);
                    },
                }
            }
            let inner = sub_chars(&t, p + 2, p + 2 + close_rel);
            proof {
                assert(inner@ =~= pre.subrange(2, close_rel + 2));
            }
            let toks = match tokenize(&inner) {
                Ok(toks) => toks,
                Err(e) => {
                    return Err(e);
                },
            };
            let piece = match eval_expr(&toks, ctx, now) {
                Ok(piece) => piece,
                Err(e) => {
                    return Err(e);
                },
            };
            crate::text::append_chars(&mut out, &piece);
            proof {
                assert(pre.skip(close_rel + 4) =~= t@.skip(p + close_rel + 4));
                lemma_glue_render_assoc(
                    out0,
                    piece@,
                    spec_render(t@.skip(p + close_rel + 4), ctx@, now),
                );
            }
            p = p + close_rel + 4;
        } else {
            out.push(t[p]);
            proof {
                assert(pre.skip(1) =~= t@.skip(p + 1));
                assert(out@ =~= out0 + seq![pre[0]]);
                lemma_glue_render_assoc(
                    out0,
                    seq![pre[0]],
                    spec_render(t@.skip(p + 1), ctx@, now),
                );
            }
            p += 1;
        }
    }
    proof {
        assert(t@.skip(t@.len() as int) =~= Seq::<char>::empty());
        if spec_render(template@, old(ctx)@, now) is Some {
            assert(out@ + Seq::<char>::empty() =~= out@);
        }
    }
    Ok(chars_to_string(&out))
}

} // verus!
