//! Splitting a raw template into its metadata header and its body at the
//! three-hyphen boundary token, and running the render/parse stage over both.

use vstd::prelude::*;

use crate::context::VarContext;
use crate::rustgen_error::{ErrorKind, RustgenError, RustgenResult};
use crate::template::renderer::{find_char_spec, lemma_find_char, spec_render};
use crate::template::{ExtendLocation, PreProcessor, TemplateHeader, WriteAction};
use crate::text::{
    chars_eq_str, chars_to_string, find_sub, occurs_at, str_to_chars, sub_chars, trim_chars,
    trim_spec,
};

verus! {

/// The boundary token that separates the header region from the body region.
pub open spec fn boundary() -> Seq<char> {
    seq!['-', '-', '-']
}

/// The template `t` splits into header `h` and body `b`, with the first
/// boundary token at `i` and the second (searched from `i + 3` on) at `j`:
/// the header is everything between the two tokens, and the body is
/// everything after the second one, trimmed of surrounding whitespace.
pub open spec fn split_ok_at(t: Seq<char>, h: Seq<char>, b: Seq<char>, i: int, j: int) -> bool {
    &&& occurs_at(t, boundary(), i)
    &&& forall|k: int| 0 <= k < i ==> !occurs_at(t, boundary(), k)
    &&& occurs_at(t, boundary(), j)
    &&& i + 3 <= j
    &&& forall|k: int| i + 3 <= k < j ==> !occurs_at(t, boundary(), k)
    &&& h == t.subrange(i + 3, j)
    &&& b == trim_spec(t.subrange(j + 3, t.len() as int))
}

/// The template `t` splits into header `h` and body `b` at some pair of
/// boundary-token positions.
pub open spec fn splits_into(t: Seq<char>, h: Seq<char>, b: Seq<char>) -> bool {
    exists|i: int, j: int| split_ok_at(t, h, b, i, j)
}

/// The template holds a boundary token and a second one at least three
/// characters later, so a split is possible.
pub open spec fn has_two_bounds(t: Seq<char>) -> bool {
    exists|i: int, j: int| occurs_at(t, boundary(), i) && occurs_at(t, boundary(), j) && i + 3 <= j
}

impl PreProcessor {
    pub fn new(template: String) -> (r: RustgenResult<Self>)
        ensures
            r is Ok,
            r matches Ok(p) ==> p.template@ == template@,
    {
        Ok(Self { template })
    }

    /// Extracts the header text and the body text from the template.
    ///
    /// The header is everything between the first boundary token and the next
    /// one after it; the body is everything after that second token, trimmed
    /// of leading and trailing whitespace. A template with fewer than two
    /// boundary tokens is refused.
    pub fn extract_parts(&self) -> (r: RustgenResult<(String, String)>)
        ensures
            match r {
                Ok(parts) => splits_into(self.template@, parts.0@, parts.1@),
                Err(e) => e.kind == ErrorKind::Format && !has_two_bounds(self.template@),
            },
    {
        let chars = str_to_chars(self.template.as_str());
        let mut bound: Vec<char> = Vec::new();
        bound.push('-');
        bound.push('-');
        bound.push('-');
        proof {
            assert(bound@ =~= boundary());
        }
        let n = chars.len();
        let first = match find_sub(&chars, &bound) {
            Some(i) => i,
            None => {
                return Err(RustgenError::format_error("missing header boundary"));
            },
        };
        // Search for the second token after the first one.
        let rest_start = first + 3;
        let rest = sub_chars(&chars, rest_start, n);
        let second_rel = match find_sub(&rest, &bound) {
            Some(j) => j,
            None => {
                proof {
                    lemma_no_second(chars@, first as int, rest@, rest_start as int);
                }
                return Err(RustgenError::format_error("missing second header boundary"));
            },
        };
        proof {
            lemma_second_found(chars@, first as int, rest@, rest_start as int, second_rel as int);
        }
        let j = rest_start + second_rel;
        let header = sub_chars(&chars, rest_start, j);
        let tail = sub_chars(&chars, j + 3, n);
        let body = trim_chars(&tail);
        let header_text = chars_to_string(&header);
        let body_text = chars_to_string(&body);
        proof {
            assert(split_ok_at(self.template@, header_text@, body_text@, first as int, j as int));
            assert(splits_into(self.template@, header_text@, body_text@));
        }
        Ok((header_text, body_text))
    }
}

/// If the boundary does not occur in the text after the first token, the
/// template has no second token at all.
proof fn lemma_no_second(t: Seq<char>, first: int, rest: Seq<char>, rest_start: int)
    requires
        occurs_at(t, boundary(), first),
        forall|k: int| 0 <= k < first ==> !occurs_at(t, boundary(), k),
        rest_start == first + 3,
        rest_start <= t.len(),
        rest == t.subrange(rest_start, t.len() as int),
        forall|k: int| !occurs_at(rest, boundary(), k),
    ensures
        !has_two_bounds(t),
{
    if has_two_bounds(t) {
        let (i, j) = choose|i: int, j: int|
            occurs_at(t, boundary(), i) && occurs_at(t, boundary(), j) && i + 3 <= j;
        assert(first <= i);
        assert(rest_start <= j);
        assert(rest_start <= t.len());
        assert(occurs_at(rest, boundary(), j - rest_start)) by {
            assert(rest.subrange(j - rest_start, j - rest_start + 3) =~= t.subrange(j, j + 3));
        }
        assert(false);
    }
}

/// Occurrence found in the tail text translates back to the whole template.
proof fn lemma_second_found(
    t: Seq<char>,
    first: int,
    rest: Seq<char>,
    rest_start: int,
    second_rel: int,
)
    requires
        occurs_at(t, boundary(), first),
        forall|k: int| 0 <= k < first ==> !occurs_at(t, boundary(), k),
        rest_start == first + 3,
        rest_start <= t.len(),
        rest == t.subrange(rest_start, t.len() as int),
        occurs_at(rest, boundary(), second_rel),
        forall|k: int| 0 <= k < second_rel ==> !occurs_at(rest, boundary(), k),
    ensures
        occurs_at(t, boundary(), rest_start + second_rel),
        forall|k: int|
            rest_start <= k < rest_start + second_rel ==> !occurs_at(t, boundary(), k),
{
    assert(t.subrange(rest_start + second_rel, rest_start + second_rel + 3) =~= rest.subrange(
        second_rel,
        second_rel + 3,
    ));
    assert forall|k: int|
        rest_start <= k < rest_start + second_rel implies !occurs_at(t, boundary(), k) by {
        if occurs_at(t, boundary(), k) {
            assert(occurs_at(rest, boundary(), k - rest_start)) by {
                assert(rest.subrange(k - rest_start, k - rest_start + 3) =~= t.subrange(k, k + 3));
            }
        }
    }
}

/// Law: a successful split decomposes the template into a prefix (free of the
/// boundary token), the token, the header, the token again and the raw body,
/// and re-concatenating those parts reproduces the original text; the returned
/// body is the raw tail trimmed of surrounding whitespace.
pub proof fn lemma_split_round_trip(t: Seq<char>, h: Seq<char>, b: Seq<char>, i: int, j: int)
    requires
        split_ok_at(t, h, b, i, j),
    ensures
        t == t.subrange(0, i) + boundary() + h + boundary() + t.subrange(j + 3, t.len() as int),
        b == trim_spec(t.subrange(j + 3, t.len() as int)),
        forall|k: int| 0 <= k < i ==> !occurs_at(t.subrange(0, i), boundary(), k),
{
    assert(t =~= t.subrange(0, i) + boundary() + h + boundary() + t.subrange(
        j + 3,
        t.len() as int,
    )) by {
        assert(t.subrange(i, i + 3) == boundary());
        assert(t.subrange(j, j + 3) == boundary());
        assert forall|k: int| 0 <= k < t.len() implies (t.subrange(0, i) + boundary() + h
            + boundary() + t.subrange(j + 3, t.len() as int))[k] == t[k] by {
            if i <= k < i + 3 {
                assert(t.subrange(i, i + 3)[k - i] == t[k]);
            } else if i + 3 <= k < j {
                assert(t.subrange(i + 3, j)[k - i - 3] == t[k]);
            } else if j <= k < j + 3 {
                assert(t.subrange(j, j + 3)[k - j] == t[k]);
            }
        }
    }
    assert forall|k: int| 0 <= k < i implies !occurs_at(t.subrange(0, i), boundary(), k) by {
        if occurs_at(t.subrange(0, i), boundary(), k) {
            assert(occurs_at(t, boundary(), k)) by {
                assert(t.subrange(k, k + 3) =~= t.subrange(0, i).subrange(k, k + 3));
            }
        }
    }
}

/// Where the body may be inserted, as the header names it.
pub enum LocV {
    Begin,
    End,
    After(Seq<char>),
    Before(Seq<char>),
}

/// The action that the header names.
pub enum ActV {
    Create,
    Append(LocV),
}

/// The mathematical form of an [`ExtendLocation`].
pub open spec fn loc_view(l: ExtendLocation) -> LocV {
    match l {
        ExtendLocation::BeginOfFile => LocV::Begin,
        ExtendLocation::EndOfFile => LocV::End,
        ExtendLocation::After(m) => LocV::After(m@),
        ExtendLocation::Before(m) => LocV::Before(m@),
    }
}

/// The mathematical form of a [`WriteAction`].
pub open spec fn action_view(a: WriteAction) -> ActV {
    match a {
        WriteAction::CreateFile => ActV::Create,
        WriteAction::Append(loc) => ActV::Append(loc_view(loc)),
    }
}

/// The lines of `t`, split at every newline.
pub open spec fn lines_spec(t: Seq<char>) -> Seq<Seq<char>>
    decreases t.len(),
{
    match find_char_spec(t, '\n') {
        Some(k) => {
            if 0 <= k && k + 1 <= t.len() {
                seq![t.subrange(0, k)] + lines_spec(t.skip(k + 1))
            } else {
                seq![t]
            }
        },
        None => seq![t],
    }
}

/// The views of a run of lines.
pub open spec fn lines_view(ls: Seq<Vec<char>>) -> Seq<Seq<char>> {
    Seq::new(ls.len(), |i: int| ls[i]@)
}

/// A line that the parser passes over: blank, or a full-line comment.
pub open spec fn is_skippable_line(l: Seq<char>) -> bool {
    trim_spec(l).len() == 0 || trim_spec(l)[0] == '#'
}

/// The number of leading spaces of the line.
pub open spec fn indent_of(l: Seq<char>) -> int
    decreases l.len(),
{
    if l.len() == 0 || l[0] != ' ' {
        0
    } else {
        1 + indent_of(l.skip(1))
    }
}

/// What `indent_of` returns: the longest prefix of spaces.
pub proof fn lemma_indent_of(l: Seq<char>)
    ensures
        0 <= indent_of(l) <= l.len(),
        forall|j: int| 0 <= j < indent_of(l) ==> l[j] == ' ',
        indent_of(l) < l.len() ==> l[indent_of(l)] != ' ',
    decreases l.len(),
{
    if l.len() == 0 || l[0] != ' ' {
    } else {
        lemma_indent_of(l.skip(1));
        let n = indent_of(l);
        assert forall|j: int| 0 <= j < n implies l[j] == ' ' by {
            if j > 0 {
                assert(l.skip(1)[j - 1] == l[j]);
            }
        }
        if n < l.len() {
            assert(l.skip(1)[n - 1] == l[n]);
        }
    }
}

/// The value without one layer of surrounding quotes, if it carries one.
pub open spec fn unquote(v: Seq<char>) -> Seq<char> {
    if v.len() >= 2 && ((v[0] == '"' && v[v.len() - 1] == '"') || (v[0] == '\'' && v[v.len() - 1]
        == '\'')) {
        v.subrange(1, v.len() - 1)
    } else {
        v
    }
}

/// The first line from `i` on that the parser does not pass over, or the end.
pub open spec fn next_sig(ls: Seq<Seq<char>>, i: int) -> int
    decreases ls.len() - i,
{
    if i < 0 || i >= ls.len() {
        i
    } else if is_skippable_line(ls[i]) {
        next_sig(ls, i + 1)
    } else {
        i
    }
}

/// The first line from `i` on that stands at the left margin, or the end;
/// used to pass over the block under an unknown key.
pub open spec fn skip_to_top(ls: Seq<Seq<char>>, i: int) -> int
    decreases ls.len() - i,
{
    if i < 0 || i >= ls.len() {
        i
    } else if is_skippable_line(ls[i]) || indent_of(ls[i]) > 0 {
        skip_to_top(ls, i + 1)
    } else {
        i
    }
}

/// What the indented block under `action:` names: the location and the line
/// after the block. The block is one `append:` entry whose value is either
/// `begin-of-file`, `end-of-file`, or a deeper entry `after: <marker>` or
/// `before: <marker>` with a nonempty marker (a marker is a literal
/// substring, so an empty one is refused).
pub open spec fn spec_parse_append(ls: Seq<Seq<char>>, i: int) -> Option<(LocV, int)> {
    let j = next_sig(ls, i);
    if !(0 <= j < ls.len()) {
        None
    } else {
        let l = ls[j];
        if indent_of(l) <= 0 {
            None
        } else {
            match find_char_spec(l, ':') {
                None => None,
                Some(k) => {
                    let key = trim_spec(l.subrange(0, k));
                    let value = unquote(trim_spec(l.skip(k + 1)));
                    if key != "append"@ {
                        None
                    } else if value == "begin-of-file"@ {
                        Some((LocV::Begin, j + 1))
                    } else if value == "end-of-file"@ {
                        Some((LocV::End, j + 1))
                    } else if value.len() == 0 {
                        let j2 = next_sig(ls, j + 1);
                        if !(0 <= j2 < ls.len()) {
                            None
                        } else {
                            let l2 = ls[j2];
                            if indent_of(l2) <= indent_of(l) {
                                None
                            } else {
                                match find_char_spec(l2, ':') {
                                    None => None,
                                    Some(k2) => {
                                        let key2 = trim_spec(l2.subrange(0, k2));
                                        let marker = unquote(trim_spec(l2.skip(k2 + 1)));
                                        if marker.len() == 0 {
                                            None
                                        } else if key2 == "after"@ {
                                            Some((LocV::After(marker), j2 + 1))
                                        } else if key2 == "before"@ {
                                            Some((LocV::Before(marker), j2 + 1))
                                        } else {
                                            None
                                        }
                                    },
                                }
                            }
                        }
                    } else {
                        None
                    }
                },
            }
        }
    }
}

/// What the header lines from `i` on denote, given the fields read so far:
/// entries at the left margin set `path` or `action` (a later entry
/// overrides an earlier one of the same name), an unknown entry is passed
/// over together with its indented block, and anything else is malformed.
pub open spec fn spec_parse_entries(
    ls: Seq<Seq<char>>,
    i: int,
    path: Option<Seq<char>>,
    act: Option<ActV>,
) -> Option<(Option<Seq<char>>, Option<ActV>)>
    decreases ls.len() - i,
{
    if i < 0 || i >= ls.len() {
        Some((path, act))
    } else if is_skippable_line(ls[i]) {
        spec_parse_entries(ls, i + 1, path, act)
    } else if indent_of(ls[i]) != 0 {
        None
    } else {
        match find_char_spec(ls[i], ':') {
            None => None,
            Some(k) => {
                let key = trim_spec(ls[i].subrange(0, k));
                let value = unquote(trim_spec(ls[i].skip(k + 1)));
                if key == "path"@ {
                    if value.len() == 0 {
                        None
                    } else {
                        spec_parse_entries(ls, i + 1, Some(value), act)
                    }
                } else if key == "action"@ {
                    if value == "create-file"@ {
                        spec_parse_entries(ls, i + 1, path, Some(ActV::Create))
                    } else if value.len() == 0 {
                        match spec_parse_append(ls, i + 1) {
                            Some(pa) => {
                                if i < pa.1 <= ls.len() {
                                    spec_parse_entries(ls, pa.1, path, Some(ActV::Append(pa.0)))
                                } else {
                                    None
                                }
                            },
                            None => None,
                        }
                    } else {
                        None
                    }
                } else {
                    let j = skip_to_top(ls, i + 1);
                    if i < j <= ls.len() {
                        spec_parse_entries(ls, j, path, act)
                    } else {
                        None
                    }
                }
            },
        }
    }
}

/// What a rendered header denotes: the target path and the action, with a
/// missing action defaulting to creating the file. `None` stands for a
/// malformed header or a missing `path`.
pub open spec fn spec_parse_header(t: Seq<char>) -> Option<(Seq<char>, ActV)> {
    match spec_parse_entries(lines_spec(t), 0, None, None) {
        Some(st) => match st.0 {
            Some(p) => Some(
                (
                    p,
                    match st.1 {
                        Some(a) => a,
                        None => ActV::Create,
                    },
                ),
            ),
            None => None,
        },
        None => None,
    }
}

/// The position of the first `c` in `l`, if any.
pub fn find_char_in(l: &Vec<char>, c: char) -> (r: Option<usize>)
    ensures
        match r {
            Some(k) => find_char_spec(l@, c) == Some(k as int),
            None => find_char_spec(l@, c) is None,
        },
{
    let mut q: usize = 0;
    while q < l.len() && l[q] != c
        invariant
            q <= l@.len(),
            forall|j: int| 0 <= j < q ==> l@[j] != c,
        decreases l@.len() - q,
    {
        q += 1;
    }
    proof {
        lemma_find_char(l@, c);
    }
    if q >= l.len() {
        proof {
            if find_char_spec(l@, c) is Some {
                let k = find_char_spec(l@, c)->Some_0;
                assert(l@[k] == c);
                assert(false);
            }
        }
        None
    } else {
        proof {
            match find_char_spec(l@, c) {
                Some(k) => {
                    if k < q as int {
                        assert(l@[k] != c);
                        assert(false);
                    }
                    if k > q as int {
                        assert(l@[q as int] != c);
                        assert(false);
                    }
                },
                None => {
                    assert(l@[q as int] != c);
                    assert(false);
                },
            }
        }
        Some(q)
    }
}

/// The number of leading spaces of the line.
pub fn indent_of_exec(l: &Vec<char>) -> (r: usize)
    ensures
        r as int == indent_of(l@),
{
    let mut q: usize = 0;
    while q < l.len() && l[q] == ' '
        invariant
            q <= l@.len(),
            forall|j: int| 0 <= j < q ==> l@[j] == ' ',
        decreases l@.len() - q,
    {
        q += 1;
    }
    proof {
        lemma_indent_of(l@);
        let n = indent_of(l@);
        if n < q as int {
            assert(l@[n] == ' ');
            assert(false);
        }
        if n > q as int {
            assert(q < l@.len() && l@[q as int] != ' ');
            assert(l@[q as int] == ' ');
            assert(false);
        }
    }
    q
}

/// Whether the parser passes over the line (blank or a full-line comment).
pub fn skippable_line(l: &Vec<char>) -> (r: bool)
    ensures
        r == is_skippable_line(l@),
{
    let t = trim_chars(l);
    t.len() == 0 || t[0] == '#'
}

/// The value without one layer of surrounding quotes, if it carries one.
pub fn unquote_exec(v: &Vec<char>) -> (r: Vec<char>)
    ensures
        r@ == unquote(v@),
{
    if v.len() >= 2 && ((v[0] == '"' && v[v.len() - 1] == '"') || (v[0] == '\'' && v[v.len() - 1]
        == '\'')) {
        sub_chars(v, 1, v.len() - 1)
    } else {
        crate::text::copy_chars(v)
    }
}

/// The lines of `t`, split at every newline.
pub fn split_lines(t: &Vec<char>) -> (r: Vec<Vec<char>>)
    ensures
        lines_view(r@) == lines_spec(t@),
{
    let mut lines: Vec<Vec<char>> = Vec::new();
    let mut p: usize = 0;
    let n = t.len();
    proof {
        assert(t@.skip(0) =~= t@);
        assert(lines_view(lines@) =~= Seq::<Seq<char>>::empty());
    }
    loop
        invariant_except_break
            p <= n,
            n == t@.len(),
            lines_spec(t@) == lines_view(lines@) + lines_spec(t@.skip(p as int)),
        ensures
            lines_view(lines@) == lines_spec(t@),
        decreases n - p,
    {
        let ghost pre = t@.skip(p as int);
        let ghost lv0 = lines_view(lines@);
        let mut q: usize = p;
        while q < n && t[q] != '\n'
            invariant
                p <= q <= n,
                n == t@.len(),
                forall|j: int| p <= j < q ==> t@[j] != '\n',
            decreases n - q,
        {
            q += 1;
        }
        proof {
            lemma_find_char(pre, '\n');
            assert(forall|j: int| 0 <= j < pre.len() ==> pre[j] == t@[p + j]);
        }
        if q >= n {
            let line = sub_chars(t, p, n);
            lines.push(line);
            proof {
                if find_char_spec(pre, '\n') is Some {
                    let k = find_char_spec(pre, '\n')->Some_0;
                    assert(t@[p + k] == '\n');
                    assert(false);
                }
                assert(pre =~= t@.subrange(p as int, n as int));
                assert(lines_spec(pre) == seq![pre]);
                assert(lines_view(lines@) =~= lv0 + seq![pre]);
                assert(lines_view(lines@) =~= lines_spec(t@));
            }
            break;
        }
        let ghost krel = q - p;
        proof {
            assert(pre[krel as int] == '\n');
            match find_char_spec(pre, '\n') {
                Some(k) => {
                    if k < krel as int {
                        assert(t@[p + k] == '\n');
                        assert(false);
                    }
                    if k > krel as int {
                        assert(pre[krel as int] != '\n');
                        assert(false);
                    }
                },
                None => {
                    assert(false);
                },
            }
        }
        let line = sub_chars(t, p, q);
        lines.push(line);
        proof {
            assert(pre.subrange(0, krel as int) =~= t@.subrange(p as int, q as int));
            assert(pre.skip(krel as int + 1) =~= t@.skip(q + 1));
            assert(lines_view(lines@) =~= lv0 + seq![pre.subrange(0, krel as int)]);
            assert((lv0 + seq![pre.subrange(0, krel as int)]) + lines_spec(t@.skip(q + 1)) =~= lv0
                + (seq![pre.subrange(0, krel as int)] + lines_spec(t@.skip(q + 1))));
        }
        p = q + 1;
    }
    lines
}

/// The first line from `i` on that the parser does not pass over.
pub fn next_sig_exec(lines: &Vec<Vec<char>>, i: usize) -> (r: usize)
    requires
        i <= lines@.len(),
    ensures
        r as int == next_sig(lines_view(lines@), i as int),
        i <= r <= lines@.len(),
{
    let mut j: usize = i;
    while j < lines.len() && skippable_line(&lines[j])
        invariant
            i <= j <= lines@.len(),
            next_sig(lines_view(lines@), i as int) == next_sig(lines_view(lines@), j as int),
        decreases lines@.len() - j,
    {
        proof {
            assert(lines_view(lines@)[j as int] == lines@[j as int]@);
        }
        j += 1;
    }
    proof {
        if j < lines@.len() {
            assert(lines_view(lines@)[j as int] == lines@[j as int]@);
        }
    }
    j
}

/// The first line from `i` on that stands at the left margin.
pub fn skip_to_top_exec(lines: &Vec<Vec<char>>, i: usize) -> (r: usize)
    requires
        i <= lines@.len(),
    ensures
        r as int == skip_to_top(lines_view(lines@), i as int),
        i <= r <= lines@.len(),
{
    let mut j: usize = i;
    while j < lines.len() && (skippable_line(&lines[j]) || indent_of_exec(&lines[j]) > 0)
        invariant
            i <= j <= lines@.len(),
            skip_to_top(lines_view(lines@), i as int) == skip_to_top(lines_view(lines@), j as int),
        decreases lines@.len() - j,
    {
        proof {
            assert(lines_view(lines@)[j as int] == lines@[j as int]@);
        }
        j += 1;
    }
    proof {
        if j < lines@.len() {
            assert(lines_view(lines@)[j as int] == lines@[j as int]@);
        }
    }
    j
}

/// The view of an optional character vector.
pub open spec fn opt_chars_view(p: Option<Vec<char>>) -> Option<Seq<char>> {
    match p {
        Some(v) => Some(v@),
        None => None,
    }
}

/// The view of an optional action.
pub open spec fn opt_act_view(a: Option<WriteAction>) -> Option<ActV> {
    match a {
        Some(x) => Some(action_view(x)),
        None => None,
    }
}

/// Parses the rendered header text into the descriptor it denotes.
///
/// The header is a sequence of `key: value` entries: `path` (required, a
/// nonempty string) and `action` (optional; `create-file`, or an indented
/// `append:` block naming `begin-of-file`, `end-of-file`, `after: <marker>`
/// or `before: <marker>` with a nonempty marker). A later entry overrides an
/// earlier one of the same
/// name; unknown entries are passed over together with their indented blocks.
/// Fails with a schema error when the text is malformed or `path` is missing.
pub fn parse_header(text: &str) -> (r: RustgenResult<TemplateHeader>)
    ensures
        match r {
            Ok(th) => spec_parse_header(text@) == Some((th.path@, action_view(th.action))),
            Err(e) => spec_parse_header(text@) is None && e.kind == ErrorKind::Schema,
        },
{
    let t = str_to_chars(text);
    let lines = split_lines(&t);
    let ghost lv = lines_view(lines@);
    let mut i: usize = 0;
    let mut path: Option<Vec<char>> = None;
    let mut act: Option<WriteAction> = None;
    while i < lines.len()
        invariant
            i <= lines@.len(),
            lv == lines_view(lines@),
            lv == lines_spec(text@),
            spec_parse_entries(lv, 0, None, None) == spec_parse_entries(
                lv,
                i as int,
                opt_chars_view(path),
                opt_act_view(act),
            ),
        decreases lines@.len() - i,
    {
        proof {
            assert(lv[i as int] == lines@[i as int]@);
        }
        let line = &lines[i];
        if skippable_line(line) {
            i += 1;
        } else if indent_of_exec(line) != 0 {
            proof {
                assert(spec_parse_entries(
                    lv,
                    i as int,
                    opt_chars_view(path),
                    opt_act_view(act),
                ) is None);
            }
            return Err(RustgenError::schema_error("unexpected indented entry"));
        } else {
            let k = match find_char_in(line, ':') {
                Some(k) => k,
                None => {
                    return Err(RustgenError::schema_error("header entry without a colon"));
                },
            };
            proof {
                lemma_find_char(line@, ':');
                assert(line@.skip(k + 1) =~= line@.subrange(k + 1, line@.len() as int));
            }
            let keyraw = sub_chars(line, 0, k);
            let key = trim_chars(&keyraw);
            let line_len = line.len();
            let valraw = sub_chars(line, k + 1, line_len);
            let valtrim = trim_chars(&valraw);
            let value = unquote_exec(&valtrim);
            if chars_eq_str(&key, "path") {
                if value.len() == 0 {
                    return Err(RustgenError::schema_error("path must be a nonempty string"));
                }
                path = Some(value);
                i += 1;
            } else if chars_eq_str(&key, "action") {
                if chars_eq_str(&value, "create-file") {
                    act = Some(WriteAction::CreateFile);
                    i += 1;
                } else if value.len() == 0 {
                    let j = next_sig_exec(&lines, i + 1);
                    if j >= lines.len() {
                        return Err(RustgenError::schema_error("action block is empty"));
                    }
                    proof {
                        assert(lv[j as int] == lines@[j as int]@);
                    }
                    let l = &lines[j];
                    let l_indent = indent_of_exec(l);
                    if l_indent == 0 {
                        return Err(RustgenError::schema_error("action block must be indented"));
                    }
                    let k2 = match find_char_in(l, ':') {
                        Some(x) => x,
                        None => {
                            return Err(RustgenError::schema_error("append entry without a colon"));
                        },
                    };
                    proof {
                        lemma_find_char(l@, ':');
                        assert(l@.skip(k2 + 1) =~= l@.subrange(k2 + 1, l@.len() as int));
                    }
                    let keyraw2 = sub_chars(l, 0, k2);
                    let key2 = trim_chars(&keyraw2);
                    let l_len = l.len();
                    let valraw2 = sub_chars(l, k2 + 1, l_len);
                    let valtrim2 = trim_chars(&valraw2);
                    let value2 = unquote_exec(&valtrim2);
                    if !chars_eq_str(&key2, "append") {
                        return Err(RustgenError::schema_error("action block must name append"));
                    }
                    if chars_eq_str(&value2, "begin-of-file") {
                        act = Some(WriteAction::Append(ExtendLocation::BeginOfFile));
                        i = j + 1;
                    } else if chars_eq_str(&value2, "end-of-file") {
                        act = Some(WriteAction::Append(ExtendLocation::EndOfFile));
                        i = j + 1;
                    } else if value2.len() == 0 {
                        let j2 = next_sig_exec(&lines, j + 1);
                        if j2 >= lines.len() {
                            return Err(RustgenError::schema_error("append block is empty"));
                        }
                        proof {
                            assert(lv[j2 as int] == lines@[j2 as int]@);
                        }
                        let l2 = &lines[j2];
                        if indent_of_exec(l2) <= l_indent {
                            return Err(
                                RustgenError::schema_error("append location must be indented"),
                            );
                        }
                        let k3 = match find_char_in(l2, ':') {
                            Some(x) => x,
                            None => {
                                return Err(
                                    RustgenError::schema_error("append location without a colon"),
                                );
                            },
                        };
                        proof {
                            lemma_find_char(l2@, ':');
                            assert(l2@.skip(k3 + 1) =~= l2@.subrange(k3 + 1, l2@.len() as int));
                        }
                        let keyraw3 = sub_chars(l2, 0, k3);
                        let key3 = trim_chars(&keyraw3);
                        let l2_len = l2.len();
                        let valraw3 = sub_chars(l2, k3 + 1, l2_len);
                        let valtrim3 = trim_chars(&valraw3);
                        let marker = unquote_exec(&valtrim3);
                        if marker.len() == 0 {
                            return Err(RustgenError::schema_error("marker must not be empty"));
                        }
                        if chars_eq_str(&key3, "after") {
                            act = Some(
                                WriteAction::Append(
                                    ExtendLocation::After(chars_to_string(&marker)),
                                ),
                            );
                            i = j2 + 1;
                        } else if chars_eq_str(&key3, "before") {
                            act = Some(
                                WriteAction::Append(
                                    ExtendLocation::Before(chars_to_string(&marker)),
                                ),
                            );
                            i = j2 + 1;
                        } else {
                            return Err(RustgenError::schema_error("unknown append location"));
                        }
                    } else {
                        return Err(RustgenError::schema_error("unknown append form"));
                    }
                } else {
                    return Err(RustgenError::schema_error("unknown action"));
                }
            } else {
                let j = skip_to_top_exec(&lines, i + 1);
                i = j;
            }
        }
    }
    let p = match path {
        Some(p) => p,
        None => {
            return Err(RustgenError::schema_error("required field path is missing"));
        },
    };
    let action = match act {
        Some(a) => a,
        None => WriteAction::CreateFile,
    };
    Ok(TemplateHeader { path: chars_to_string(&p), action })
}

/// A successful run of the render/parse stage: the template splits into the
/// header text `ht` and the body text `bt`, both render under the context,
/// the rendered header denotes the returned descriptor, and the rendered body
/// is the returned body.
pub open spec fn extract_ok(
    t: Seq<char>,
    ctx: Map<Seq<char>, Seq<char>>,
    now: u64,
    ht: Seq<char>,
    bt: Seq<char>,
    header: TemplateHeader,
    body: Seq<char>,
) -> bool {
    &&& splits_into(t, ht, bt)
    &&& spec_render(ht, ctx, now) is Some
    &&& spec_parse_header(spec_render(ht, ctx, now)->Some_0.0) == Some(
        (header.path@, action_view(header.action)),
    )
    &&& spec_render(bt, ctx, now) is Some
    &&& body == spec_render(bt, ctx, now)->Some_0.0
}

/// A failed run of the render/parse stage, by the error kind it reports: a
/// format error means the template has no two boundary tokens; a render error
/// means the header text or (after it) the body text does not render; a
/// schema error means both render but the rendered header denotes no
/// descriptor.
pub open spec fn extract_failed(
    t: Seq<char>,
    ctx: Map<Seq<char>, Seq<char>>,
    now: u64,
    kind: ErrorKind,
) -> bool {
    ||| (kind == ErrorKind::Format && !has_two_bounds(t))
    ||| exists|ht: Seq<char>, bt: Seq<char>|
        {
            &&& #[trigger] splits_into(t, ht, bt)
            &&& {
                ||| (kind == ErrorKind::Render && (spec_render(ht, ctx, now) is None || (
                spec_render(ht, ctx, now) is Some && spec_render(bt, ctx, now) is None)))
                ||| (kind == ErrorKind::Schema && spec_render(ht, ctx, now) is Some && spec_render(
                    bt,
                    ctx,
                    now,
                ) is Some && spec_parse_header(spec_render(ht, ctx, now)->Some_0.0) is None)
            }
        }
}

/// The render/parse stage turns the raw template `t` into the descriptor
/// `header` and the rendered body `body`, through some split of `t`.
pub open spec fn extracts_to(
    t: Seq<char>,
    ctx: Map<Seq<char>, Seq<char>>,
    now: u64,
    header: TemplateHeader,
    body: Seq<char>,
) -> bool {
    exists|ht: Seq<char>, bt: Seq<char>| extract_ok(t, ctx, now, ht, bt, header, body)
}

impl PreProcessor {
    /// Runs the render/parse stage: splits the template, renders the header
    /// text and the body text each against the same starting context (a
    /// variable set during one render pass does not carry into the other),
    /// parses the rendered header, and returns the descriptor together with
    /// the rendered body.
    pub fn extract_config_template(self, data: &VarContext, now: u64) -> (r: RustgenResult<
        (TemplateHeader, String),
    >)
        ensures
            match r {
                Ok(pair) => extracts_to(self.template@, data@, now, pair.0, pair.1@),
                Err(e) => extract_failed(self.template@, data@, now, e.kind),
            },
    {
        let parts = match self.extract_parts() {
            Ok(p) => p,
            Err(e) => {
                return Err(e);
            },
        };
        let (yaml, template) = parts;
        let ghost ht = yaml@;
        let ghost bt = template@;
        let mut header_ctx = data.duplicate();
        let yaml_rendered = match crate::template::renderer::render(
            yaml.as_str(),
            &mut header_ctx,
            now,
        ) {
            Ok(s) => s,
            Err(e) => {
                proof {
                    assert(extract_failed(self.template@, data@, now, e.kind));
                }
                return Err(e);
            },
        };
        let mut body_ctx = data.duplicate();
        let template_rendered = match crate::template::renderer::render(
            template.as_str(),
            &mut body_ctx,
            now,
        ) {
            Ok(s) => s,
            Err(e) => {
                proof {
                    assert(extract_failed(self.template@, data@, now, e.kind));
                }
                return Err(e);
            },
        };
        let header = match parse_header(yaml_rendered.as_str()) {
            Ok(h) => h,
            Err(e) => {
                proof {
                    assert(extract_failed(self.template@, data@, now, e.kind));
                }
                return Err(e);
            },
        };
        proof {
            assert(extract_ok(self.template@, data@, now, ht, bt, header, template_rendered@));
            assert(extracts_to(self.template@, data@, now, header, template_rendered@));
        }
        Ok((header, template_rendered))
    }
}

/// Law: a header whose entries leave `path` unset denotes no descriptor, so
/// parsing it fails with a schema error and no file mutation is ever planned
/// from it.
pub proof fn lemma_missing_path_rejected(t: Seq<char>, act: Option<ActV>)
    requires
        spec_parse_entries(lines_spec(t), 0, None, None) == Some(
            (None::<Seq<char>>, act),
        ),
    ensures
        spec_parse_header(t) is None,
{
}

} // verus!
