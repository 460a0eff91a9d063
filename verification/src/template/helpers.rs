//! The fixed catalog of render-time helpers: case conversions, literal and
//! regular-expression replacement, concatenation, defaulting, and variable
//! assignment.

use vstd::prelude::*;

use convert_case::Casing;

use crate::context::VarContext;
use crate::rustgen_error::{ErrorKind, RustgenError, RustgenResult};
use crate::template::{ConcatHelper, DefaultHelper, RegexReplaceHelper, SetHelper};
use crate::text::{append_chars, chars_to_string, chars_eq_str, dec_int_spec, i64_to_dec, str_to_chars};

verus! {

/// A typed value as a helper sees it: a missing variable, null, a boolean,
/// an integer, or text.
pub enum TplValue {
    Missing,
    Null,
    Bool(bool),
    Int(i64),
    Str(Vec<char>),
}

/// A value holds no data when it is missing, null, false, numeric zero or the
/// empty string; any other value (the text "0" among them) holds data.
pub open spec fn is_falsy(v: TplValue) -> bool {
    match v {
        TplValue::Missing => true,
        TplValue::Null => true,
        TplValue::Bool(b) => !b,
        TplValue::Int(n) => n == 0,
        TplValue::Str(s) => s@.len() == 0,
    }
}

/// The text form of a value: text stays itself, booleans and integers render
/// in their usual notation, missing and null render as nothing.
pub open spec fn render_tpl_value(v: TplValue) -> Seq<char> {
    match v {
        TplValue::Missing => Seq::empty(),
        TplValue::Null => Seq::empty(),
        TplValue::Bool(b) => if b {
            "true"@
        } else {
            "false"@
        },
        TplValue::Int(n) => dec_int_spec(n as int),
        TplValue::Str(s) => s@,
    }
}

/// Whether the value holds no data.
pub fn falsy(v: &TplValue) -> (r: bool)
    ensures
        r == is_falsy(*v),
{
    match v {
        TplValue::Missing => true,
        TplValue::Null => true,
        TplValue::Bool(b) => !*b,
        TplValue::Int(n) => *n == 0i64,
        TplValue::Str(s) => s.len() == 0,
    }
}

/// The text form of a value.
pub fn render_value(v: &TplValue) -> (r: Vec<char>)
    ensures
        r@ == render_tpl_value(*v),
{
    match v {
        TplValue::Missing => Vec::new(),
        TplValue::Null => Vec::new(),
        TplValue::Bool(b) => {
            if *b {
                str_to_chars("true")
            } else {
                str_to_chars("false")
            }
        },
        TplValue::Int(n) => i64_to_dec(*n),
        TplValue::Str(s) => crate::text::copy_chars(s),
    }
}

impl DefaultHelper {
    /// The first value where it holds data, and the fallback everywhere else
    /// (missing, null, false, numeric zero, empty string).
    pub fn call(value: TplValue, fallback: TplValue) -> (r: TplValue)
        ensures
            r == if is_falsy(value) {
                fallback
            } else {
                value
            },
    {
        if falsy(&value) {
            fallback
        } else {
            value
        }
    }
}

/// The text forms of the values, concatenated in order with no separator.
pub open spec fn concat_values_spec(vs: Seq<TplValue>) -> Seq<char>
    decreases vs.len(),
{
    if vs.len() == 0 {
        Seq::empty()
    } else {
        concat_values_spec(vs.drop_last()) + render_tpl_value(vs.last())
    }
}

impl ConcatHelper {
    /// Renders each argument to its text form and concatenates them in order.
    pub fn call(parts: &Vec<TplValue>) -> (r: String)
        ensures
            r@ == concat_values_spec(parts@),
    {
        let mut out: Vec<char> = Vec::new();
        let mut i: usize = 0;
        proof {
            assert(parts@.subrange(0, 0) =~= Seq::<TplValue>::empty());
        }
        while i < parts.len()
            invariant
                i <= parts@.len(),
                out@ == concat_values_spec(parts@.subrange(0, i as int)),
            decreases parts@.len() - i,
        {
            let piece = render_value(&parts[i]);
            append_chars(&mut out, &piece);
            proof {
                let next = parts@.subrange(0, i + 1);
                assert(next.drop_last() =~= parts@.subrange(0, i as int));
                assert(next.last() == parts@[i as int]);
            }
            i += 1;
        }
        proof {
            assert(parts@.subrange(0, parts@.len() as int) =~= parts@);
        }
        chars_to_string(&out)
    }
}

impl SetHelper {
    /// Binds `name` to `content` in the active render context for the rest of
    /// the render pass; emits no text itself.
    pub fn call(ctx: &mut VarContext, name: Vec<char>, content: Vec<char>)
        ensures
            final(ctx)@ == old(ctx)@.insert(name@, content@),
    {
        ctx.insert_chars(name, content);
    }
}

/// Whether the pattern compiles as a regular expression; this depends on the
/// pattern text alone.
pub uninterp spec fn regex_compiles(pattern: Seq<char>) -> bool;

/// What replacing every match of the pattern in the input by the replacement
/// (with capture-group references expanded) yields; this depends on the three
/// texts alone.
pub uninterp spec fn regex_replaced(
    pattern: Seq<char>,
    input: Seq<char>,
    replacement: Seq<char>,
) -> Seq<char>;

/// Relies on regex's `Regex::new` — whether a pattern compiles depends on the
/// pattern text alone — and `Regex::replace_all` — every match in the
/// haystack is replaced by the replacement with `$n`/`${n}` capture-group
/// references expanded, a result that depends only on the three texts.
#[verifier::external_body]
fn regex_replace_all(input: &str, pattern: &str, replacement: &str) -> (r: Option<String>)
    ensures
        r is Some <==> regex_compiles(pattern@),
        r matches Some(s) ==> s@ == regex_replaced(pattern@, input@, replacement@),
{
    match regex::Regex::new(pattern) {
        Ok(re) => Some(re.replace_all(input, replacement).to_string()),
        Err(_) => None,
    }
}

impl RegexReplaceHelper {
    /// Compiles `pattern` and replaces every match of it in `input` by
    /// `replacement`; fails with a render error exactly when the pattern does
    /// not compile.
    pub fn call(input: &str, pattern: &str, replacement: &str) -> (r: RustgenResult<String>)
        ensures
            r is Ok <==> regex_compiles(pattern@),
            r matches Ok(s) ==> s@ == regex_replaced(pattern@, input@, replacement@),
            r matches Err(e) ==> e.kind == ErrorKind::Render,
    {
        match regex_replace_all(input, pattern, replacement) {
            Some(s) => Ok(s),
            None => Err(RustgenError::render_error("regular expression does not compile")),
        }
    }
}

/// What one of the named case conventions makes of a text; the result depends
/// on the convention and the text alone.
pub uninterp spec fn cased_of(kind: u8, s: Seq<char>) -> Seq<char>;

pub const CASE_UPPER: u8 = 1;

pub const CASE_LOWER: u8 = 2;

pub const CASE_TITLE: u8 = 3;

pub const CASE_TOGGLE: u8 = 4;

pub const CASE_CAMEL: u8 = 5;

pub const CASE_PASCAL: u8 = 6;

pub const CASE_SNAKE: u8 = 7;

pub const CASE_SCREAMING_SNAKE: u8 = 8;

pub const CASE_KEBAB: u8 = 9;

pub const CASE_COBOL: u8 = 10;

pub const CASE_TRAIN: u8 = 11;

pub const CASE_FLAT: u8 = 12;

pub const CASE_UPPER_FLAT: u8 = 13;

pub const CASE_ALTERNATING: u8 = 14;

/// Relies on convert_case's `str::to_case` with `Case::Upper`: the result
/// depends on the input characters alone.
/// Only ASCII input is admitted: this convert_case version splits words at
/// character positions but cuts the string at byte positions, and panics on
/// an index inside a multi-byte character.
#[verifier::external_body]
fn to_upper_case(s: &str) -> (r: String)
    requires
        vstd::string::is_ascii(s),
    ensures
        r@ == cased_of(CASE_UPPER, s@),
{
    s.to_case(convert_case::Case::Upper)
}

/// Relies on convert_case's `str::to_case` with `Case::Lower`: the result
/// depends on the input characters alone.
/// Only ASCII input is admitted: this convert_case version splits words at
/// character positions but cuts the string at byte positions, and panics on
/// an index inside a multi-byte character.
#[verifier::external_body]
fn to_lower_case(s: &str) -> (r: String)
    requires
        vstd::string::is_ascii(s),
    ensures
        r@ == cased_of(CASE_LOWER, s@),
{
    s.to_case(convert_case::Case::Lower)
}

/// Relies on convert_case's `str::to_case` with `Case::Title`: the result
/// depends on the input characters alone.
/// Only ASCII input is admitted: this convert_case version splits words at
/// character positions but cuts the string at byte positions, and panics on
/// an index inside a multi-byte character.
#[verifier::external_body]
fn to_title_case(s: &str) -> (r: String)
    requires
        vstd::string::is_ascii(s),
    ensures
        r@ == cased_of(CASE_TITLE, s@),
{
    s.to_case(convert_case::Case::Title)
}

/// Relies on convert_case's `str::to_case` with `Case::Toggle`: the result
/// depends on the input characters alone.
/// Only ASCII input is admitted: this convert_case version splits words at
/// character positions but cuts the string at byte positions, and panics on
/// an index inside a multi-byte character.
#[verifier::external_body]
fn to_toggle_case(s: &str) -> (r: String)
    requires
        vstd::string::is_ascii(s),
    ensures
        r@ == cased_of(CASE_TOGGLE, s@),
{
    s.to_case(convert_case::Case::Toggle)
}

/// Relies on convert_case's `str::to_case` with `Case::Camel`: the result
/// depends on the input characters alone.
/// Only ASCII input is admitted: this convert_case version splits words at
/// character positions but cuts the string at byte positions, and panics on
/// an index inside a multi-byte character.
#[verifier::external_body]
fn to_camel_case(s: &str) -> (r: String)
    requires
        vstd::string::is_ascii(s),
    ensures
        r@ == cased_of(CASE_CAMEL, s@),
{
    s.to_case(convert_case::Case::Camel)
}

/// Relies on convert_case's `str::to_case` with `Case::Pascal`: the result
/// depends on the input characters alone.
/// Only ASCII input is admitted: this convert_case version splits words at
/// character positions but cuts the string at byte positions, and panics on
/// an index inside a multi-byte character.
#[verifier::external_body]
fn to_pascal_case(s: &str) -> (r: String)
    requires
        vstd::string::is_ascii(s),
    ensures
        r@ == cased_of(CASE_PASCAL, s@),
{
    s.to_case(convert_case::Case::Pascal)
}

/// Relies on convert_case's `str::to_case` with `Case::Snake`: the result
/// depends on the input characters alone.
/// Only ASCII input is admitted: this convert_case version splits words at
/// character positions but cuts the string at byte positions, and panics on
/// an index inside a multi-byte character.
#[verifier::external_body]
fn to_snake_case(s: &str) -> (r: String)
    requires
        vstd::string::is_ascii(s),
    ensures
        r@ == cased_of(CASE_SNAKE, s@),
{
    s.to_case(convert_case::Case::Snake)
}

/// Relies on convert_case's `str::to_case` with `Case::ScreamingSnake`: the
/// result depends on the input characters alone.
/// Only ASCII input is admitted: this convert_case version splits words at
/// character positions but cuts the string at byte positions, and panics on
/// an index inside a multi-byte character.
#[verifier::external_body]
fn to_screaming_snake_case(s: &str) -> (r: String)
    requires
        vstd::string::is_ascii(s),
    ensures
        r@ == cased_of(CASE_SCREAMING_SNAKE, s@),
{
    s.to_case(convert_case::Case::ScreamingSnake)
}

/// Relies on convert_case's `str::to_case` with `Case::Kebab`: the result
/// depends on the input characters alone.
/// Only ASCII input is admitted: this convert_case version splits words at
/// character positions but cuts the string at byte positions, and panics on
/// an index inside a multi-byte character.
#[verifier::external_body]
fn to_kebab_case(s: &str) -> (r: String)
    requires
        vstd::string::is_ascii(s),
    ensures
        r@ == cased_of(CASE_KEBAB, s@),
{
    s.to_case(convert_case::Case::Kebab)
}

/// Relies on convert_case's `str::to_case` with `Case::Cobol`: the result
/// depends on the input characters alone.
/// Only ASCII input is admitted: this convert_case version splits words at
/// character positions but cuts the string at byte positions, and panics on
/// an index inside a multi-byte character.
#[verifier::external_body]
fn to_cobol_case(s: &str) -> (r: String)
    requires
        vstd::string::is_ascii(s),
    ensures
        r@ == cased_of(CASE_COBOL, s@),
{
    s.to_case(convert_case::Case::Cobol)
}

/// Relies on convert_case's `str::to_case` with `Case::Train`: the result
/// depends on the input characters alone.
/// Only ASCII input is admitted: this convert_case version splits words at
/// character positions but cuts the string at byte positions, and panics on
/// an index inside a multi-byte character.
#[verifier::external_body]
fn to_train_case(s: &str) -> (r: String)
    requires
        vstd::string::is_ascii(s),
    ensures
        r@ == cased_of(CASE_TRAIN, s@),
{
    s.to_case(convert_case::Case::Train)
}

/// Relies on convert_case's `str::to_case` with `Case::Flat`: the result
/// depends on the input characters alone.
/// Only ASCII input is admitted: this convert_case version splits words at
/// character positions but cuts the string at byte positions, and panics on
/// an index inside a multi-byte character.
#[verifier::external_body]
fn to_flat_case(s: &str) -> (r: String)
    requires
        vstd::string::is_ascii(s),
    ensures
        r@ == cased_of(CASE_FLAT, s@),
{
    s.to_case(convert_case::Case::Flat)
}

/// Relies on convert_case's `str::to_case` with `Case::UpperFlat`: the result
/// depends on the input characters alone.
/// Only ASCII input is admitted: this convert_case version splits words at
/// character positions but cuts the string at byte positions, and panics on
/// an index inside a multi-byte character.
#[verifier::external_body]
fn to_upper_flat_case(s: &str) -> (r: String)
    requires
        vstd::string::is_ascii(s),
    ensures
        r@ == cased_of(CASE_UPPER_FLAT, s@),
{
    s.to_case(convert_case::Case::UpperFlat)
}

/// Relies on convert_case's `str::to_case` with `Case::Alternating`: the
/// result depends on the input characters alone.
/// Only ASCII input is admitted: this convert_case version splits words at
/// character positions but cuts the string at byte positions, and panics on
/// an index inside a multi-byte character.
#[verifier::external_body]
fn to_alternating_case(s: &str) -> (r: String)
    requires
        vstd::string::is_ascii(s),
    ensures
        r@ == cased_of(CASE_ALTERNATING, s@),
{
    s.to_case(convert_case::Case::Alternating)
}

/// The case convention that a helper name denotes, if any.
pub open spec fn case_kind_spec(name: Seq<char>) -> Option<u8> {
    if name == "upper_case"@ {
        Some(CASE_UPPER)
    } else if name == "lower_case"@ {
        Some(CASE_LOWER)
    } else if name == "title_case"@ {
        Some(CASE_TITLE)
    } else if name == "toggle_case"@ {
        Some(CASE_TOGGLE)
    } else if name == "camel_case"@ {
        Some(CASE_CAMEL)
    } else if name == "pascal_case"@ {
        Some(CASE_PASCAL)
    } else if name == "snake_case"@ {
        Some(CASE_SNAKE)
    } else if name == "screaming_snake_case"@ {
        Some(CASE_SCREAMING_SNAKE)
    } else if name == "kebab_case"@ {
        Some(CASE_KEBAB)
    } else if name == "cobol_case"@ {
        Some(CASE_COBOL)
    } else if name == "train_case"@ {
        Some(CASE_TRAIN)
    } else if name == "flat_case"@ {
        Some(CASE_FLAT)
    } else if name == "upper_flat_case"@ {
        Some(CASE_UPPER_FLAT)
    } else if name == "alternating_case"@ {
        Some(CASE_ALTERNATING)
    } else {
        None
    }
}

/// The case convention that a helper name denotes, if any.
pub fn case_kind_of_name(name: &Vec<char>) -> (r: Option<u8>)
    ensures
        r == case_kind_spec(name@),
{
    if chars_eq_str(name, "upper_case") {
        Some(CASE_UPPER)
    } else if chars_eq_str(name, "lower_case") {
        Some(CASE_LOWER)
    } else if chars_eq_str(name, "title_case") {
        Some(CASE_TITLE)
    } else if chars_eq_str(name, "toggle_case") {
        Some(CASE_TOGGLE)
    } else if chars_eq_str(name, "camel_case") {
        Some(CASE_CAMEL)
    } else if chars_eq_str(name, "pascal_case") {
        Some(CASE_PASCAL)
    } else if chars_eq_str(name, "snake_case") {
        Some(CASE_SNAKE)
    } else if chars_eq_str(name, "screaming_snake_case") {
        Some(CASE_SCREAMING_SNAKE)
    } else if chars_eq_str(name, "kebab_case") {
        Some(CASE_KEBAB)
    } else if chars_eq_str(name, "cobol_case") {
        Some(CASE_COBOL)
    } else if chars_eq_str(name, "train_case") {
        Some(CASE_TRAIN)
    } else if chars_eq_str(name, "flat_case") {
        Some(CASE_FLAT)
    } else if chars_eq_str(name, "upper_flat_case") {
        Some(CASE_UPPER_FLAT)
    } else if chars_eq_str(name, "alternating_case") {
        Some(CASE_ALTERNATING)
    } else {
        None
    }
}

/// Whether `kind` is one of the named case conventions.
pub open spec fn is_case_kind(kind: u8) -> bool {
    1 <= kind <= 14
}

/// Applies the case convention `kind` to `s`; the input must be ASCII (see
/// the wrappers below).
pub fn apply_case(kind: u8, s: &str) -> (r: String)
    requires
        is_case_kind(kind),
        vstd::string::is_ascii(s),
    ensures
        r@ == cased_of(kind, s@),
{
    if kind == CASE_UPPER {
        to_upper_case(s)
    } else if kind == CASE_LOWER {
        to_lower_case(s)
    } else if kind == CASE_TITLE {
        to_title_case(s)
    } else if kind == CASE_TOGGLE {
        to_toggle_case(s)
    } else if kind == CASE_CAMEL {
        to_camel_case(s)
    } else if kind == CASE_PASCAL {
        to_pascal_case(s)
    } else if kind == CASE_SNAKE {
        to_snake_case(s)
    } else if kind == CASE_SCREAMING_SNAKE {
        to_screaming_snake_case(s)
    } else if kind == CASE_KEBAB {
        to_kebab_case(s)
    } else if kind == CASE_COBOL {
        to_cobol_case(s)
    } else if kind == CASE_TRAIN {
        to_train_case(s)
    } else if kind == CASE_FLAT {
        to_flat_case(s)
    } else if kind == CASE_UPPER_FLAT {
        to_upper_flat_case(s)
    } else {
        to_alternating_case(s)
    }
}

/// Whether `name` names a helper of the catalog.
pub open spec fn is_helper_name(name: Seq<char>) -> bool {
    ||| case_kind_spec(name) is Some
    ||| name == "replace"@
    ||| name == "regex_replace"@
    ||| name == "concat"@
    ||| name == "default"@
    ||| name == "set"@
    ||| name == "time"@
}

/// Whether `name` names a helper of the catalog.
pub fn helper_name(name: &Vec<char>) -> (r: bool)
    ensures
        r == is_helper_name(name@),
{
    case_kind_of_name(name).is_some() || chars_eq_str(name, "replace") || chars_eq_str(
        name,
        "regex_replace",
    ) || chars_eq_str(name, "concat") || chars_eq_str(name, "default") || chars_eq_str(name, "set")
        || chars_eq_str(name, "time")
}

} // verus!
