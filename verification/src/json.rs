//! `JSON.stringify` and `JSON.parse`.
use vstd::prelude::*;
use crate::value::{
    JsValue, ValueModel, values_model, props_model, lemma_props_model_len, lemma_props_model_index,
    lemma_values_model_push,
};
use crate::numeric::{NumericRequest, NumericReply, RequestModel, ReplyModel, replies_model};
use crate::machine::{Machine, Halt, HaltModel, WorldModel, Outcome, ask, ask_text, agrees_text, agrees_value};
use crate::convert::{error_kind_name, bool_text, lemma_values_model_take, lemma_values_model_take_last};
use crate::text::text;
use crate::props::entry_insert;
use crate::ops::props_insert;

verus! {

/// A character as JSON writes it inside a string: backslash and quote escaped.
pub open spec fn escape_char(c: char) -> Seq<char> {
    if c == '\\' {
        seq!['\\', '\\']
    } else if c == '"' {
        seq!['\\', '"']
    } else {
        seq![c]
    }
}

/// A text with backslashes and quotes escaped.
pub open spec fn escaped_text(s: Seq<char>) -> Seq<char>
    decreases s.len(),
{
    if s.len() == 0 {
        Seq::empty()
    } else {
        escaped_text(s.drop_last()) + escape_char(s.last())
    }
}

/// A text with quotes escaped (object keys).
pub open spec fn quotes_escaped(s: Seq<char>) -> Seq<char>
    decreases s.len(),
{
    if s.len() == 0 {
        Seq::empty()
    } else {
        quotes_escaped(s.drop_last()) + (if s.last() == '"' { seq!['\\', '"'] } else { seq![s.last()] })
    }
}

/// `JSON.stringify` of a value. Numbers take their decimal form; strings
/// are quoted with backslashes and quotes escaped; `undefined` and functions
/// give `undefined`; arrays and objects list their elements and entries; an
/// error is written as the object of its name and message.
pub open spec fn vm_stringify(v: ValueModel, w: WorldModel, tape: Seq<ReplyModel>) -> Outcome<Seq<char>>
    decreases v, 0nat,
{
    match v {
        ValueModel::Number(n) => ask_text(w, tape, RequestModel::Format(n)),
        ValueModel::String(s) => Ok((w, "\""@ + escaped_text(s) + "\""@)),
        ValueModel::Boolean(b) => Ok((w, bool_text(b))),
        ValueModel::Null => Ok((w, "null"@)),
        ValueModel::Undefined => Ok((w, "undefined"@)),
        ValueModel::Function(_) => Ok((w, "undefined"@)),
        ValueModel::Array(a) => match vm_stringify_elements(a, w, tape) {
            Err(h) => Err(h),
            Ok((w1, s)) => Ok((w1, "["@ + s + "]"@)),
        },
        ValueModel::Object(p) => match vm_stringify_entries(p, w, tape) {
            Err(h) => Err(h),
            Ok((w1, s)) => Ok((w1, "{"@ + s + "}"@)),
        },
        ValueModel::Error(e) => Ok((w, "{\"name\":\""@ + escaped_text(error_kind_name(e.kind)) + "\",\"message\":\""@
            + escaped_text(e.message) + "\"}"@)),
    }
}

/// The stringified elements joined by commas.
pub open spec fn vm_stringify_elements(a: Seq<ValueModel>, w: WorldModel, tape: Seq<ReplyModel>) -> Outcome<Seq<char>>
    decreases a, 1nat,
{
    if a.len() == 0 {
        Ok((w, Seq::empty()))
    } else {
        match vm_stringify_elements(a.drop_last(), w, tape) {
            Err(h) => Err(h),
            Ok((w1, s0)) => match vm_stringify(a.last(), w1, tape) {
                Err(h) => Err(h),
                Ok((w2, x)) => Ok((w2, if a.len() == 1 { x } else { s0 + ","@ + x })),
            },
        }
    }
}

/// The stringified entries `"key":value` joined by commas.
pub open spec fn vm_stringify_entries(p: Seq<(Seq<char>, ValueModel)>, w: WorldModel, tape: Seq<ReplyModel>) -> Outcome<Seq<char>>
    decreases p, 1nat,
{
    if p.len() == 0 {
        Ok((w, Seq::empty()))
    } else {
        match vm_stringify_entries(p.drop_last(), w, tape) {
            Err(h) => Err(h),
            Ok((w1, s0)) => match vm_stringify(p.last().1, w1, tape) {
                Err(h) => Err(h),
                Ok((w2, x)) => {
                    let entry = "\""@ + quotes_escaped(p.last().0) + "\":"@ + x;
                    Ok((w2, if p.len() == 1 { entry } else { s0 + ","@ + entry }))
                },
            },
        }
    }
}

pub proof fn lemma_stringify_elements_halts(a: Seq<ValueModel>, k: int, w: WorldModel, tape: Seq<ReplyModel>)
    requires
        0 <= k <= a.len(),
        vm_stringify_elements(a.take(k), w, tape) is Err,
    ensures
        vm_stringify_elements(a, w, tape) == vm_stringify_elements(a.take(k), w, tape),
    decreases a.len() - k,
{
    if k < a.len() {
        assert(a.take(k + 1).drop_last() =~= a.take(k));
        lemma_stringify_elements_halts(a, k + 1, w, tape);
    } else {
        assert(a.take(k) =~= a);
    }
}

pub proof fn lemma_stringify_entries_halts(p: Seq<(Seq<char>, ValueModel)>, k: int, w: WorldModel, tape: Seq<ReplyModel>)
    requires
        0 <= k <= p.len(),
        vm_stringify_entries(p.take(k), w, tape) is Err,
    ensures
        vm_stringify_entries(p, w, tape) == vm_stringify_entries(p.take(k), w, tape),
    decreases p.len() - k,
{
    if k < p.len() {
        assert(p.take(k + 1).drop_last() =~= p.take(k));
        lemma_stringify_entries_halts(p, k + 1, w, tape);
    } else {
        assert(p.take(k) =~= p);
    }
}

/// The characters that Rust's `char::is_whitespace` accepts (Unicode `White_Space`).
pub open spec fn white_space(c: char) -> bool {
    let u = c as u32;
    (0x09 <= u <= 0x0D) || u == 0x20 || u == 0x85 || u == 0xA0 || u == 0x1680 || (0x2000 <= u <= 0x200A)
        || u == 0x2028 || u == 0x2029 || u == 0x202F || u == 0x205F || u == 0x3000
}

/// A text without its leading white space.
pub open spec fn trim_start(s: Seq<char>) -> Seq<char>
    decreases s.len(),
{
    if s.len() > 0 && white_space(s[0]) {
        trim_start(s.drop_first())
    } else {
        s
    }
}

/// A text without its trailing white space.
pub open spec fn trim_end(s: Seq<char>) -> Seq<char>
    decreases s.len(),
{
    if s.len() > 0 && white_space(s.last()) {
        trim_end(s.drop_last())
    } else {
        s
    }
}

/// Every occurrence of `pat` replaced by `rep`, scanning from the left
/// without overlaps, as `str::replace` does.
pub open spec fn replace_all(s: Seq<char>, pat: Seq<char>, rep: Seq<char>) -> Seq<char>
    decreases s.len(),
{
    if s.len() == 0 {
        Seq::empty()
    } else if pat.len() > 0 && s.len() >= pat.len() && s.take(pat.len() as int) == pat {
        rep + replace_all(s.skip(pat.len() as int), pat, rep)
    } else {
        seq![s[0]] + replace_all(s.drop_first(), pat, rep)
    }
}

/// The first position at or after `i` that is not white space.
pub open spec fn skip_ws(t: Seq<char>, i: nat) -> nat
    decreases t.len() - i,
{
    if i < t.len() && white_space(t[i as int]) {
        skip_ws(t, i + 1)
    } else {
        i
    }
}

pub proof fn lemma_skip_ws(t: Seq<char>, i: nat)
    ensures
        i <= skip_ws(t, i),
        i <= t.len() ==> skip_ws(t, i) <= t.len(),
    decreases t.len() - i,
{
    if i < t.len() && white_space(t[i as int]) {
        lemma_skip_ws(t, i + 1);
    }
}

/// Characters that end a bare word (a keyword or a number) in JSON text.
pub open spec fn json_delimiter(c: char) -> bool {
    c == ',' || c == ']' || c == '}' || c == ':' || c == '[' || c == '{' || c == '"' || white_space(c)
}

/// The end of the bare word that starts at `i`.
pub open spec fn word_end(t: Seq<char>, i: nat) -> nat
    decreases t.len() - i,
{
    if i < t.len() && !json_delimiter(t[i as int]) {
        word_end(t, i + 1)
    } else {
        i
    }
}

pub proof fn lemma_word_end(t: Seq<char>, i: nat)
    ensures
        i <= word_end(t, i),
        i <= t.len() ==> word_end(t, i) <= t.len(),
    decreases t.len() - i,
{
    if i < t.len() && !json_delimiter(t[i as int]) {
        lemma_word_end(t, i + 1);
    }
}

/// The inside of a quoted string from `i` (after the opening quote), read so
/// far into `acc`, and the position after its closing quote. An escaped quote
/// or backslash stands for itself; any other escape is kept as written.
pub open spec fn json_string(t: Seq<char>, i: nat, acc: Seq<char>) -> Option<(Seq<char>, nat)>
    decreases t.len() - i,
{
    if i >= t.len() {
        None
    } else if t[i as int] == '"' {
        Some((acc, i + 1))
    } else if t[i as int] == '\\' {
        if i + 1 < t.len() {
            let c = t[(i + 1) as int];
            if c == '"' || c == '\\' {
                json_string(t, i + 2, acc.push(c))
            } else {
                json_string(t, i + 2, acc.push('\\').push(c))
            }
        } else {
            None
        }
    } else {
        json_string(t, i + 1, acc.push(t[i as int]))
    }
}

/// A JSON value at `i` (after white space) and the position after it, or
/// `None` when the text there is not one. Numbers are parsed by request.
pub open spec fn json_value(t: Seq<char>, i: nat, w: WorldModel, tape: Seq<ReplyModel>) -> Outcome<Option<(ValueModel, nat)>>
    decreases t.len() - i, 0nat,
{
    let j = skip_ws(t, i);
    proof { lemma_skip_ws(t, i); }
    if j >= t.len() {
        Ok((w, None))
    } else if t[j as int] == '[' {
        json_elements(t, j + 1, Seq::empty(), w, tape)
    } else if t[j as int] == '{' {
        json_members(t, j + 1, Seq::empty(), w, tape)
    } else if t[j as int] == '"' {
        match json_string(t, j + 1, Seq::empty()) {
            Some((s, k)) => Ok((w, Some((ValueModel::String(s), k)))),
            None => Ok((w, None)),
        }
    } else {
        let k = word_end(t, j);
        let word = t.subrange(j as int, k as int);
        if k <= j {
            Ok((w, None))
        } else if word == "null"@ {
            Ok((w, Some((ValueModel::Null, k))))
        } else if word == "true"@ {
            Ok((w, Some((ValueModel::Boolean(true), k))))
        } else if word == "false"@ {
            Ok((w, Some((ValueModel::Boolean(false), k))))
        } else {
            match ask(w, tape, RequestModel::Parse(word)) {
                Ok((w1, ReplyModel::Number(n))) => Ok((w1, Some((ValueModel::Number(n), k)))),
                Ok((w1, ReplyModel::NotANumber)) => Ok((w1, None)),
                Ok(_) => Err(HaltModel::UnexpectedReply),
                Err(h) => Err(h),
            }
        }
    }
}

/// The elements of an array from `i` (after `[` or a comma), after those
/// read so far, up to and past the closing `]`.
pub open spec fn json_elements(t: Seq<char>, i: nat, acc: Seq<ValueModel>, w: WorldModel, tape: Seq<ReplyModel>) -> Outcome<Option<(ValueModel, nat)>>
    decreases t.len() - i, 1nat,
{
    let j = skip_ws(t, i);
    proof { lemma_skip_ws(t, i); }
    if acc.len() == 0 && j < t.len() && t[j as int] == ']' {
        Ok((w, Some((ValueModel::Array(acc), j + 1))))
    } else {
        match json_value(t, j, w, tape) {
            Err(h) => Err(h),
            Ok((w1, None)) => Ok((w1, None)),
            Ok((w1, Some((v, k)))) => if k <= j || k > t.len() {
                Ok((w1, None))
            } else {
                let m = skip_ws(t, k);
                proof { lemma_skip_ws(t, k); }
                if m < t.len() && t[m as int] == ',' {
                    json_elements(t, m + 1, acc.push(v), w1, tape)
                } else if m < t.len() && t[m as int] == ']' {
                    Ok((w1, Some((ValueModel::Array(acc.push(v)), m + 1))))
                } else {
                    Ok((w1, None))
                }
            },
        }
    }
}

/// The members of an object from `i` (after `{` or a comma), after those
/// read so far, up to and past the closing `}`. A repeated key keeps the
/// last value.
pub open spec fn json_members(
    t: Seq<char>,
    i: nat,
    acc: Seq<(Seq<char>, ValueModel)>,
    w: WorldModel,
    tape: Seq<ReplyModel>,
) -> Outcome<Option<(ValueModel, nat)>>
    decreases t.len() - i, 1nat,
{
    let j = skip_ws(t, i);
    proof { lemma_skip_ws(t, i); }
    if acc.len() == 0 && j < t.len() && t[j as int] == '}' {
        Ok((w, Some((ValueModel::Object(acc), j + 1))))
    } else if j < t.len() && t[j as int] == '"' {
        match json_string(t, j + 1, Seq::empty()) {
            None => Ok((w, None)),
            Some((key, k)) => {
                let c = skip_ws(t, k);
                if c < j || c >= t.len() || t[c as int] != ':' {
                    Ok((w, None))
                } else {
                    match json_value(t, c + 1, w, tape) {
                        Err(h) => Err(h),
                        Ok((w1, None)) => Ok((w1, None)),
                        Ok((w1, Some((v, e)))) => if e <= c || e > t.len() {
                            Ok((w1, None))
                        } else {
                            let m = skip_ws(t, e);
                            proof { lemma_skip_ws(t, e); }
                            let acc2 = entry_insert(acc, key, v);
                            if m < t.len() && t[m as int] == ',' {
                                json_members(t, m + 1, acc2, w1, tape)
                            } else if m < t.len() && t[m as int] == '}' {
                                Ok((w1, Some((ValueModel::Object(acc2), m + 1))))
                            } else {
                                Ok((w1, None))
                            }
                        },
                    }
                }
            },
        }
    } else {
        Ok((w, None))
    }
}

/// `JSON.parse` of a text, after trimming: the three keywords; an array or
/// an object, which must fill the text; a quoted string (with escaped quotes
/// and backslashes restored); or a number. Any other text gives `undefined`.
pub open spec fn vm_parse_json(input: Seq<char>, w: WorldModel, tape: Seq<ReplyModel>) -> Outcome<ValueModel> {
    let t = trim_end(trim_start(input));
    if t == "null"@ {
        Ok((w, ValueModel::Null))
    } else if t == "true"@ {
        Ok((w, ValueModel::Boolean(true)))
    } else if t == "false"@ {
        Ok((w, ValueModel::Boolean(false)))
    } else if t.len() > 0 && (t[0] == '[' || t[0] == '{') {
        match json_value(t, 0, w, tape) {
            Err(h) => Err(h),
            Ok((w1, Some((v, k)))) => Ok((w1, if k == t.len() { v } else { ValueModel::Undefined })),
            Ok((w1, None)) => Ok((w1, ValueModel::Undefined)),
        }
    } else if t.len() > 0 && t[0] == '"' && t.last() == '"' {
        if t.len() < 2 {
            Ok((w, ValueModel::Undefined))
        } else {
            let inner = t.subrange(1, t.len() - 1);
            Ok((w, ValueModel::String(replace_all(replace_all(inner, seq!['\\', '"'], seq!['"']), seq!['\\', '\\'], seq!['\\']))))
        }
    } else {
        match ask(w, tape, RequestModel::Parse(t)) {
            Ok((w1, ReplyModel::Number(n))) => Ok((w1, ValueModel::Number(n))),
            Ok((w1, ReplyModel::NotANumber)) => Ok((w1, ValueModel::Undefined)),
            Ok(_) => Err(HaltModel::UnexpectedReply),
            Err(h) => Err(h),
        }
    }
}

// ---------------------------------------------------------------------------
// Executable
// ---------------------------------------------------------------------------

/// One character of a text, as a text.
pub(crate) fn char_at(s: &str, i: usize) -> (r: &str)
    requires
        i < s@.len(),
    ensures
        r@ == seq![s@[i as int]],
{
    let n = s.unicode_len();
    assert(i < n);
    let r = s.substring_char(i, i + 1);
    assert(r@ =~= seq![s@[i as int]]);
    r
}

/// A text with backslashes and quotes escaped.
pub fn escape_text(s: &str) -> (r: String)
    ensures
        r@ == escaped_text(s@),
{
    let n = s.unicode_len();
    let mut out = String::new();
    let mut i: usize = 0;
    assert(s@.take(0) =~= Seq::<char>::empty());
    while i < n
        invariant
            n == s@.len(),
            i <= n,
            out@ == escaped_text(s@.take(i as int)),
        decreases n - i,
    {
        let c = s.get_char(i);
        proof {
            assert(s@.take(i + 1).drop_last() =~= s@.take(i as int));
            assert(s@.take(i + 1).last() == c);
        }
        if c == '\\' {
            out.append("\\\\");
            assert("\\\\"@ =~= seq!['\\', '\\']) by { reveal_strlit("\\\\"); }
        } else if c == '"' {
            out.append("\\\"");
            assert("\\\""@ =~= seq!['\\', '"']) by { reveal_strlit("\\\""); }
        } else {
            out.append(char_at(s, i));
        }
        i += 1;
    }
    assert(s@.take(n as int) =~= s@);
    out
}

/// A text with quotes escaped.
pub fn escape_quotes(s: &str) -> (r: String)
    ensures
        r@ == quotes_escaped(s@),
{
    let n = s.unicode_len();
    let mut out = String::new();
    let mut i: usize = 0;
    assert(s@.take(0) =~= Seq::<char>::empty());
    while i < n
        invariant
            n == s@.len(),
            i <= n,
            out@ == quotes_escaped(s@.take(i as int)),
        decreases n - i,
    {
        let c = s.get_char(i);
        proof {
            assert(s@.take(i + 1).drop_last() =~= s@.take(i as int));
            assert(s@.take(i + 1).last() == c);
        }
        if c == '"' {
            out.append("\\\"");
            assert("\\\""@ =~= seq!['\\', '"']) by { reveal_strlit("\\\""); }
        } else {
            out.append(char_at(s, i));
        }
        i += 1;
    }
    assert(s@.take(n as int) =~= s@);
    out
}

fn is_white_space(c: char) -> (r: bool)
    ensures
        r == white_space(c),
{
    let u = c as u32;
    (0x09 <= u && u <= 0x0D) || u == 0x20 || u == 0x85 || u == 0xA0 || u == 0x1680 || (0x2000 <= u && u <= 0x200A)
        || u == 0x2028 || u == 0x2029 || u == 0x202F || u == 0x205F || u == 0x3000
}

/// `str::trim`.
pub fn trim(s: &str) -> (r: &str)
    ensures
        r@ == trim_end(trim_start(s@)),
{
    let n = s.unicode_len();
    let mut a: usize = 0;
    assert(s@.skip(0) =~= s@);
    while a < n && is_white_space(s.get_char(a))
        invariant
            n == s@.len(),
            a <= n,
            trim_start(s@) == trim_start(s@.skip(a as int)),
        decreases n - a,
    {
        assert(s@.skip(a as int).drop_first() =~= s@.skip(a + 1));
        a += 1;
    }
    let mut b: usize = n;
    assert(trim_start(s@) =~= s@.subrange(a as int, n as int));
    while b > a && is_white_space(s.get_char(b - 1))
        invariant
            n == s@.len(),
            a <= b <= n,
            trim_end(trim_start(s@)) == trim_end(s@.subrange(a as int, b as int)),
        decreases b,
    {
        assert(s@.subrange(a as int, b as int).drop_last() =~= s@.subrange(a as int, b - 1));
        b -= 1;
    }
    s.substring_char(a, b)
}

/// `str::replace` of a two-character pattern by a text.
pub fn replace_pair(s: &str, p0: char, p1: char, rep: &str) -> (r: String)
    ensures
        r@ == replace_all(s@, seq![p0, p1], rep@),
{
    let ghost pat = seq![p0, p1];
    let n = s.unicode_len();
    let mut out = String::new();
    let mut i: usize = 0;
    assert(s@.skip(0) =~= s@);
    while i < n
        invariant
            n == s@.len(),
            i <= n,
            pat == seq![p0, p1],
            out@ + replace_all(s@.skip(i as int), pat, rep@) == replace_all(s@, pat, rep@),
        decreases n - i,
    {
        let ghost rest = s@.skip(i as int);
        if i + 1 < n && s.get_char(i) == p0 && s.get_char(i + 1) == p1 {
            assert(rest.take(2) =~= pat);
            assert(rest.skip(2) =~= s@.skip(i + 2));
            out.append(rep);
            i += 2;
        } else {
            proof {
                if rest.len() >= 2 {
                    assert(rest.take(2) != pat) by {
                        if rest.take(2) == pat {
                            assert(rest.take(2)[0] == rest[0]);
                            assert(rest.take(2)[1] == rest[1]);
                        }
                    }
                }
                assert(rest.drop_first() =~= s@.skip(i + 1));
            }
            out.append(char_at(s, i));
            i += 1;
        }
    }
    assert(s@.skip(n as int) =~= Seq::<char>::empty());
    out
}

/// A JSON read's result agrees with its model.
pub open spec fn agrees_json(out: Outcome<Option<(ValueModel, nat)>>, r: Result<Option<(JsValue, usize)>, Halt>, w: WorldModel) -> bool {
    match out {
        Ok((w2, None)) => r matches Ok(None) && w == w2,
        Ok((w2, Some((v, k)))) => r matches Ok(Some((x, q))) && x@ == v && q as nat == k && w == w2,
        Err(h) => r matches Err(e) && e@ == h,
    }
}

fn skip_ws_at(t: &str, i: usize) -> (r: usize)
    requires
        i <= t@.len(),
    ensures
        r == skip_ws(t@, i as nat),
{
    let n = t.unicode_len();
    let mut j = i;
    while j < n && is_white_space(t.get_char(j))
        invariant
            n == t@.len(),
            i <= j <= n,
            skip_ws(t@, i as nat) == skip_ws(t@, j as nat),
        decreases n - j,
    {
        j += 1;
    }
    j
}

fn is_json_delimiter(c: char) -> (r: bool)
    ensures
        r == json_delimiter(c),
{
    c == ',' || c == ']' || c == '}' || c == ':' || c == '[' || c == '{' || c == '"' || is_white_space(c)
}

fn word_end_at(t: &str, i: usize) -> (r: usize)
    requires
        i <= t@.len(),
    ensures
        r == word_end(t@, i as nat),
{
    let n = t.unicode_len();
    let mut j = i;
    while j < n && !is_json_delimiter(t.get_char(j))
        invariant
            n == t@.len(),
            i <= j <= n,
            word_end(t@, i as nat) == word_end(t@, j as nat),
        decreases n - j,
    {
        j += 1;
    }
    j
}

fn json_string_at(t: &str, i: usize) -> (r: Option<(String, usize)>)
    requires
        i <= t@.len(),
    ensures
        match json_string(t@, i as nat, Seq::empty()) {
            Some((s, k)) => r matches Some((x, q)) && x@ == s && q as nat == k,
            None => r is None,
        },
{
    let n = t.unicode_len();
    let mut j = i;
    let mut acc = String::new();
    assert(acc@ =~= Seq::<char>::empty());
    loop
        invariant
            n == t@.len(),
            i <= j <= n,
            json_string(t@, i as nat, Seq::empty()) == json_string(t@, j as nat, acc@),
        decreases n - j,
    {
        if j >= n {
            return None;
        }
        let c = t.get_char(j);
        let ghost before = acc@;
        if c == '"' {
            return Some((acc, j + 1));
        } else if c == '\\' {
            if j + 1 < n {
                let d = t.get_char(j + 1);
                if d == '"' || d == '\\' {
                    acc.append(char_at(t, j + 1));
                    assert(acc@ =~= before.push(d));
                } else {
                    acc.append(char_at(t, j));
                    acc.append(char_at(t, j + 1));
                    assert(acc@ =~= before.push('\\').push(d));
                }
                j += 2;
            } else {
                return None;
            }
        } else {
            acc.append(char_at(t, j));
            assert(acc@ =~= before.push(c));
            j += 1;
        }
    }
}

impl Machine {
    /// `JSON.stringify` of a value.
    pub fn stringify(&mut self, v: &JsValue, tape: &Vec<NumericReply>) -> (r: Result<String, Halt>)
        ensures
            agrees_text(vm_stringify(v@, old(self)@, replies_model(tape@)), r, final(self)@),
        decreases v, 0nat,
    {
        match v {
            JsValue::Number(n) => self.ask_text(tape, NumericRequest::Format(*n)),
            JsValue::String(s) => {
                let mut t = text("\"");
                t.append(escape_text(s.as_str()).as_str());
                t.append("\"");
                Ok(t)
            },
            JsValue::Boolean(b) => Ok(if *b { text("true") } else { text("false") }),
            JsValue::Null => Ok(text("null")),
            JsValue::Undefined => Ok(text("undefined")),
            JsValue::Function(_) => Ok(text("undefined")),
            JsValue::Array(a) => {
                proof { assert(decreases_to!(*v => v->Array_0)); }
                let inner = self.stringify_elements(a, tape)?;
                let mut t = text("[");
                t.append(inner.as_str());
                t.append("]");
                Ok(t)
            },
            JsValue::Object(p) => {
                proof { assert(decreases_to!(*v => v->Object_0)); }
                let inner = self.stringify_entries(p, tape)?;
                let mut t = text("{");
                t.append(inner.as_str());
                t.append("}");
                Ok(t)
            },
            JsValue::Error(e) => {
                let mut t = text("{\"name\":\"");
                t.append(escape_text(e.kind.as_str()).as_str());
                t.append("\",\"message\":\"");
                t.append(escape_text(e.message.as_str()).as_str());
                t.append("\"}");
                Ok(t)
            },
        }
    }

    fn stringify_elements(&mut self, a: &Vec<JsValue>, tape: &Vec<NumericReply>) -> (r: Result<String, Halt>)
        ensures
            agrees_text(vm_stringify_elements(values_model(a@), old(self)@, replies_model(tape@)), r, final(self)@),
        decreases a, 1nat,
    {
        let ghost tm = replies_model(tape@);
        let mut acc = String::new();
        let mut i: usize = 0;
        assert(values_model(a@.take(0)) =~= Seq::<ValueModel>::empty());
        while i < a.len()
            invariant
                i <= a@.len(),
                tm == replies_model(tape@),
                vm_stringify_elements(values_model(a@.take(i as int)), old(self)@, tm) == Ok::<(WorldModel, Seq<char>), HaltModel>((self@, acc@)),
            decreases a@.len() - i,
        {
            proof {
                assert(decreases_to!(*a => a[i as int]));
                lemma_values_model_take_last(a@, i as int);
            }
            let x = match self.stringify(&a[i], tape) {
                Ok(x) => x,
                Err(e) => {
                    proof {
                        crate::value::lemma_values_model_len(a@);
                        lemma_values_model_take(a@, i + 1);
                        lemma_values_model_take(a@, a@.len() as int);
                        assert(a@.take(a@.len() as int) =~= a@);
                        lemma_stringify_elements_halts(values_model(a@), i + 1, old(self)@, tm);
                    }
                    return Err(e);
                },
            };
            if i == 0 {
                acc = x;
            } else {
                acc.append(",");
                acc.append(x.as_str());
            }
            i += 1;
        }
        assert(a@.take(a@.len() as int) =~= a@);
        Ok(acc)
    }

    fn stringify_entries(&mut self, p: &Vec<(String, JsValue)>, tape: &Vec<NumericReply>) -> (r: Result<String, Halt>)
        ensures
            agrees_text(vm_stringify_entries(props_model(p@), old(self)@, replies_model(tape@)), r, final(self)@),
        decreases p, 1nat,
    {
        let ghost tm = replies_model(tape@);
        let ghost pm = props_model(p@);
        proof { lemma_props_model_len(p@); }
        let mut acc = String::new();
        let mut i: usize = 0;
        assert(pm.take(0) =~= Seq::<(Seq<char>, ValueModel)>::empty());
        while i < p.len()
            invariant
                i <= p@.len(),
                pm == props_model(p@),
                pm.len() == p@.len(),
                tm == replies_model(tape@),
                vm_stringify_entries(pm.take(i as int), old(self)@, tm) == Ok::<(WorldModel, Seq<char>), HaltModel>((self@, acc@)),
            decreases p@.len() - i,
        {
            proof {
                assert(decreases_to!(*p => p[i as int]));
                assert(decreases_to!(p[i as int] => p[i as int].1));
                lemma_props_model_index(p@, i as int);
                assert(pm.take(i + 1).drop_last() =~= pm.take(i as int));
                assert(pm.take(i + 1).last() == pm[i as int]);
            }
            let x = match self.stringify(&p[i].1, tape) {
                Ok(x) => x,
                Err(e) => {
                    proof {
                        lemma_stringify_entries_halts(pm, i + 1, old(self)@, tm);
                        assert(pm.take(p@.len() as int) =~= pm);
                    }
                    return Err(e);
                },
            };
            let mut entry = text("\"");
            entry.append(escape_quotes(p[i].0.as_str()).as_str());
            entry.append("\":");
            entry.append(x.as_str());
            if i == 0 {
                acc = entry;
            } else {
                acc.append(",");
                acc.append(entry.as_str());
            }
            i += 1;
        }
        assert(pm.take(p@.len() as int) =~= pm);
        Ok(acc)
    }

    /// A JSON value at `i`; see `json_value`.
    fn json_value_at(&mut self, t: &str, i: usize, tape: &Vec<NumericReply>) -> (r: Result<Option<(JsValue, usize)>, Halt>)
        requires
            i <= t@.len(),
        ensures
            agrees_json(json_value(t@, i as nat, old(self)@, replies_model(tape@)), r, final(self)@),
        decreases t@.len() - i, 0nat,
    {
        let n = t.unicode_len();
        let j = skip_ws_at(t, i);
        proof { lemma_skip_ws(t@, i as nat); }
        if j >= n {
            return Ok(None);
        }
        let c = t.get_char(j);
        if c == '[' {
            return self.json_elements_at(t, j + 1, Vec::new(), tape);
        }
        if c == '{' {
            return self.json_members_at(t, j + 1, Vec::new(), tape);
        }
        if c == '"' {
            return match json_string_at(t, j + 1) {
                Some((x, k)) => Ok(Some((JsValue::String(x), k))),
                None => Ok(None),
            };
        }
        let k = word_end_at(t, j);
        proof { lemma_word_end(t@, j as nat); }
        if k <= j {
            return Ok(None);
        }
        let word = t.substring_char(j, k);
        assert(word@ == t@.subrange(j as int, k as int));
        if word.to_owned() == text("null") {
            Ok(Some((JsValue::Null, k)))
        } else if word.to_owned() == text("true") {
            Ok(Some((JsValue::Boolean(true), k)))
        } else if word.to_owned() == text("false") {
            Ok(Some((JsValue::Boolean(false), k)))
        } else {
            match self.ask(tape, NumericRequest::Parse(word.to_owned()))? {
                NumericReply::Number(x) => Ok(Some((JsValue::Number(x), k))),
                NumericReply::NotANumber => Ok(None),
                _ => Err(Halt::UnexpectedReply),
            }
        }
    }

    /// Array elements from `i`; see `json_elements`.
    fn json_elements_at(&mut self, t: &str, i: usize, acc: Vec<JsValue>, tape: &Vec<NumericReply>) -> (r: Result<Option<(JsValue, usize)>, Halt>)
        requires
            i <= t@.len(),
        ensures
            agrees_json(json_elements(t@, i as nat, values_model(acc@), old(self)@, replies_model(tape@)), r, final(self)@),
        decreases t@.len() - i, 1nat,
    {
        let n = t.unicode_len();
        let j = skip_ws_at(t, i);
        proof { lemma_skip_ws(t@, i as nat); }
        if acc.len() == 0 && j < n && t.get_char(j) == ']' {
            return Ok(Some((JsValue::Array(acc), j + 1)));
        }
        let (v, k) = match self.json_value_at(t, j, tape)? {
            None => {
                return Ok(None);
            },
            Some(x) => x,
        };
        if k <= j || k > n {
            return Ok(None);
        }
        let m = skip_ws_at(t, k);
        proof { lemma_skip_ws(t@, k as nat); }
        let mut acc2 = acc;
        proof { lemma_values_model_push(acc2@, v); }
        acc2.push(v);
        if m < n && t.get_char(m) == ',' {
            self.json_elements_at(t, m + 1, acc2, tape)
        } else if m < n && t.get_char(m) == ']' {
            Ok(Some((JsValue::Array(acc2), m + 1)))
        } else {
            Ok(None)
        }
    }

    /// Object members from `i`; see `json_members`.
    fn json_members_at(&mut self, t: &str, i: usize, acc: Vec<(String, JsValue)>, tape: &Vec<NumericReply>) -> (r: Result<Option<(JsValue, usize)>, Halt>)
        requires
            i <= t@.len(),
        ensures
            agrees_json(json_members(t@, i as nat, props_model(acc@), old(self)@, replies_model(tape@)), r, final(self)@),
        decreases t@.len() - i, 1nat,
    {
        let n = t.unicode_len();
        let j = skip_ws_at(t, i);
        proof { lemma_skip_ws(t@, i as nat); lemma_props_model_len(acc@); }
        if acc.len() == 0 && j < n && t.get_char(j) == '}' {
            return Ok(Some((JsValue::Object(acc), j + 1)));
        }
        if !(j < n && t.get_char(j) == '"') {
            return Ok(None);
        }
        let (key, k) = match json_string_at(t, j + 1) {
            None => {
                return Ok(None);
            },
            Some(x) => x,
        };
        if k > n {
            return Ok(None);
        }
        let c = skip_ws_at(t, k);
        if c < j || c >= n || t.get_char(c) != ':' {
            return Ok(None);
        }
        let (v, e) = match self.json_value_at(t, c + 1, tape)? {
            None => {
                return Ok(None);
            },
            Some(x) => x,
        };
        if e <= c || e > n {
            return Ok(None);
        }
        let m = skip_ws_at(t, e);
        proof { lemma_skip_ws(t@, e as nat); }
        let mut acc2 = acc;
        props_insert(&mut acc2, key, v);
        if m < n && t.get_char(m) == ',' {
            self.json_members_at(t, m + 1, acc2, tape)
        } else if m < n && t.get_char(m) == '}' {
            Ok(Some((JsValue::Object(acc2), m + 1)))
        } else {
            Ok(None)
        }
    }

    /// `JSON.parse` of a text.
    pub fn parse_json(&mut self, input: &String, tape: &Vec<NumericReply>) -> (r: Result<JsValue, Halt>)
        ensures
            agrees_value(vm_parse_json(input@, old(self)@, replies_model(tape@)), r, final(self)@),
    {
        let t = trim(input.as_str());
        let n = t.unicode_len();
        if t.to_owned() == text("null") {
            Ok(JsValue::Null)
        } else if t.to_owned() == text("true") {
            Ok(JsValue::Boolean(true))
        } else if t.to_owned() == text("false") {
            Ok(JsValue::Boolean(false))
        } else if n > 0 && (t.get_char(0) == '[' || t.get_char(0) == '{') {
            match self.json_value_at(t, 0, tape)? {
                Some((v, k)) => Ok(if k == n { v } else { JsValue::Undefined }),
                None => Ok(JsValue::Undefined),
            }
        } else if n > 0 && t.get_char(0) == '"' && t.get_char(n - 1) == '"' {
            if n < 2 {
                Ok(JsValue::Undefined)
            } else {
                let inner = t.substring_char(1, n - 1);
                let step = replace_pair(inner, '\\', '"', "\"");
                assert("\""@ =~= seq!['"']) by { reveal_strlit("\""); }
                let out = replace_pair(step.as_str(), '\\', '\\', "\\");
                assert("\\"@ =~= seq!['\\']) by { reveal_strlit("\\"); }
                Ok(JsValue::String(out))
            }
        } else {
            match self.ask(tape, NumericRequest::Parse(t.to_owned()))? {
                NumericReply::Number(x) => Ok(JsValue::Number(x)),
                NumericReply::NotANumber => Ok(JsValue::Undefined),
                _ => Err(Halt::UnexpectedReply),
            }
        }
    }
}

} // verus!
