//! `JSON.parse` gives back what `JSON.stringify` wrote, for values made of
//! `null`, booleans, strings, arrays and objects of such values. Numbers go
//! through the embedder both ways and are not covered. Object keys are
//! written with only their quotes escaped, so a key reads back only when
//! each of its backslashes is followed by a character other than a
//! backslash or a quote.
use vstd::prelude::*;
use crate::value::ValueModel;
use crate::numeric::ReplyModel;
use crate::machine::WorldModel;
use crate::convert::bool_text;
use crate::props::{keys_of, key_index, entry_insert, lemma_key_index};
use crate::json::{
    escape_char, escaped_text, quotes_escaped, vm_stringify_entries, json_members, vm_stringify, vm_stringify_elements, json_value, json_elements, json_string,
    json_delimiter, white_space, skip_ws, word_end, trim_start, trim_end, replace_all, vm_parse_json,
};

verus! {

/// An object key that reads back from its written form: each backslash is
/// followed by a character other than a backslash or a quote.
pub open spec fn plain_key(k: Seq<char>) -> bool {
    forall|i: int| 0 <= i < k.len() && #[trigger] k[i] == '\\' ==> i + 1 < k.len() && k[i + 1] != '\\' && k[i + 1] != '"'
}

/// A value made of `null`, booleans, strings, arrays of such values, and
/// objects of such values under distinct plain keys.
pub open spec fn plain_json(v: ValueModel) -> bool
    decreases v,
{
    match v {
        ValueModel::Null => true,
        ValueModel::Boolean(_) => true,
        ValueModel::String(_) => true,
        ValueModel::Array(a) => forall|i: int| 0 <= i < a.len() ==> plain_json(#[trigger] a[i]),
        ValueModel::Object(p) => keys_of(p).no_duplicates()
            && forall|i: int| 0 <= i < p.len() ==> plain_key(#[trigger] p[i].0) && plain_json(p[i].1),
        _ => false,
    }
}

/// One written entry of an object.
pub open spec fn entry_text(key: Seq<char>, value_text: Seq<char>) -> Seq<char> {
    "\""@ + quotes_escaped(key) + "\":"@ + value_text
}

/// The JSON text of a plain value.
pub open spec fn plain_text(v: ValueModel) -> Seq<char>
    decreases v, 0nat,
{
    match v {
        ValueModel::Null => "null"@,
        ValueModel::Boolean(b) => bool_text(b),
        ValueModel::String(s) => "\""@ + escaped_text(s) + "\""@,
        ValueModel::Array(a) => "["@ + plain_elements(a) + "]"@,
        ValueModel::Object(p) => "{"@ + plain_entries(p) + "}"@,
        _ => Seq::empty(),
    }
}

/// The written entries of an object joined by commas, first to last.
pub open spec fn plain_entries(p: Seq<(Seq<char>, ValueModel)>) -> Seq<char>
    decreases p, 1nat,
{
    if p.len() == 0 {
        Seq::empty()
    } else if p.len() == 1 {
        entry_text(p[0].0, plain_text(p[0].1))
    } else {
        entry_text(p[0].0, plain_text(p[0].1)) + ","@ + plain_entries(p.subrange(1, p.len() as int))
    }
}

proof fn lemma_plain_entries_last(p: Seq<(Seq<char>, ValueModel)>)
    requires
        p.len() >= 2,
    ensures
        plain_entries(p) == plain_entries(p.drop_last()) + ","@ + entry_text(p.last().0, plain_text(p.last().1)),
    decreases p.len(),
{
    let r = p.subrange(1, p.len() as int);
    let e0 = entry_text(p[0].0, plain_text(p[0].1));
    let el = entry_text(p.last().0, plain_text(p.last().1));
    if p.len() == 2 {
        assert(p.drop_last().len() == 1);
        assert(p.drop_last()[0] == p[0]);
        assert(r.len() == 1 && r[0] == p.last());
        assert(plain_entries(p.drop_last()) == e0);
        assert(plain_entries(r) == el);
    } else {
        lemma_plain_entries_last(r);
        assert(r.drop_last() =~= p.drop_last().subrange(1, p.drop_last().len() as int));
        assert(r.last() == p.last());
        assert(p.drop_last()[0] == p[0]);
        assert(plain_entries(p) == e0 + ","@ + (plain_entries(r.drop_last()) + ","@ + el));
        assert(plain_entries(p.drop_last()) == e0 + ","@ + plain_entries(r.drop_last()));
        assert(plain_entries(p) =~= plain_entries(p.drop_last()) + ","@ + el);
    }
}

/// The texts of plain values joined by commas, first to last.
pub open spec fn plain_elements(a: Seq<ValueModel>) -> Seq<char>
    decreases a, 1nat,
{
    if a.len() == 0 {
        Seq::empty()
    } else if a.len() == 1 {
        plain_text(a[0])
    } else {
        plain_text(a[0]) + ","@ + plain_elements(a.subrange(1, a.len() as int))
    }
}

proof fn lemma_plain_elements_last(a: Seq<ValueModel>)
    requires
        a.len() >= 2,
    ensures
        plain_elements(a) == plain_elements(a.drop_last()) + ","@ + plain_text(a.last()),
    decreases a.len(),
{
    let r = a.subrange(1, a.len() as int);
    if a.len() == 2 {
        assert(a.drop_last().len() == 1);
        assert(a.drop_last()[0] == a[0]);
        assert(r.len() == 1 && r[0] == a.last());
        assert(plain_elements(a.drop_last()) == plain_text(a[0]));
        assert(plain_elements(r) == plain_text(a.last()));
    } else {
        lemma_plain_elements_last(r);
        assert(r.drop_last() =~= a.drop_last().subrange(1, a.drop_last().len() as int));
        assert(r.last() == a.last());
        assert(a.drop_last()[0] == a[0]);
        assert(plain_elements(a) == plain_text(a[0]) + ","@ + (plain_elements(r.drop_last()) + ","@ + plain_text(a.last())));
        assert(plain_elements(a.drop_last()) == plain_text(a[0]) + ","@ + plain_elements(r.drop_last()));
        assert(plain_elements(a) =~= plain_elements(a.drop_last()) + ","@ + plain_text(a.last()));
    }
}

/// A plain value is written without asking the embedder anything.
proof fn lemma_stringify_plain(v: ValueModel, w: WorldModel, tape: Seq<ReplyModel>)
    requires
        plain_json(v),
    ensures
        vm_stringify(v, w, tape) == Ok::<(WorldModel, Seq<char>), crate::machine::HaltModel>((w, plain_text(v))),
    decreases v, 0nat,
{
    match v {
        ValueModel::Array(a) => {
            lemma_stringify_plain_elements(a, w, tape);
        },
        ValueModel::Object(p) => {
            assert forall|i: int| 0 <= i < p.len() implies plain_json(#[trigger] p[i].1) by {
                assert(plain_key(p[i].0));
            }
            lemma_stringify_plain_entries(p, w, tape);
        },
        _ => {},
    }
}

proof fn lemma_stringify_plain_entries(p: Seq<(Seq<char>, ValueModel)>, w: WorldModel, tape: Seq<ReplyModel>)
    requires
        forall|i: int| 0 <= i < p.len() ==> plain_json(#[trigger] p[i].1),
    ensures
        vm_stringify_entries(p, w, tape) == Ok::<(WorldModel, Seq<char>), crate::machine::HaltModel>((w, plain_entries(p))),
    decreases p, 1nat,
{
    if p.len() > 0 {
        let d = p.drop_last();
        assert forall|i: int| 0 <= i < d.len() implies plain_json(#[trigger] d[i].1) by {
            assert(d[i] == p[i]);
        }
        lemma_stringify_plain_entries(d, w, tape);
        assert(plain_json(p[p.len() - 1].1));
        lemma_stringify_plain(p.last().1, w, tape);
        if p.len() >= 2 {
            lemma_plain_entries_last(p);
        }
    }
}

proof fn lemma_stringify_plain_elements(a: Seq<ValueModel>, w: WorldModel, tape: Seq<ReplyModel>)
    requires
        forall|i: int| 0 <= i < a.len() ==> plain_json(#[trigger] a[i]),
    ensures
        vm_stringify_elements(a, w, tape) == Ok::<(WorldModel, Seq<char>), crate::machine::HaltModel>((w, plain_elements(a))),
    decreases a, 1nat,
{
    if a.len() > 0 {
        let d = a.drop_last();
        assert forall|i: int| 0 <= i < d.len() implies plain_json(#[trigger] d[i]) by {
            assert(d[i] == a[i]);
        }
        lemma_stringify_plain_elements(d, w, tape);
        assert(plain_json(a[a.len() - 1]));
        lemma_stringify_plain(a.last(), w, tape);
        if a.len() >= 2 {
            lemma_plain_elements_last(a);
        }
    }
}


// ---------------------------------------------------------------------------
// Escaped text, read from the left
// ---------------------------------------------------------------------------

proof fn lemma_escaped_append(a: Seq<char>, b: Seq<char>)
    ensures
        escaped_text(a + b) == escaped_text(a) + escaped_text(b),
    decreases b.len(),
{
    if b.len() == 0 {
        assert(a + b =~= a);
        assert(escaped_text(a) + escaped_text(b) =~= escaped_text(a));
    } else {
        assert((a + b).drop_last() =~= a + b.drop_last());
        assert((a + b).last() == b.last());
        lemma_escaped_append(a, b.drop_last());
        assert(escaped_text(a + b) =~= escaped_text(a) + escaped_text(b));
    }
}

proof fn lemma_escaped_cons(s: Seq<char>)
    requires
        s.len() > 0,
    ensures
        escaped_text(s) == escape_char(s[0]) + escaped_text(s.drop_first()),
{
    assert(s =~= seq![s[0]] + s.drop_first());
    lemma_escaped_append(seq![s[0]], s.drop_first());
    assert(seq![s[0]].drop_last() =~= Seq::<char>::empty());
    assert(escaped_text(Seq::<char>::empty()) =~= Seq::<char>::empty());
    assert(seq![s[0]].last() == s[0]);
    assert(escaped_text(seq![s[0]]) =~= escape_char(s[0]));
}

proof fn lemma_escaped_first(s: Seq<char>)
    requires
        escaped_text(s).len() > 0,
    ensures
        s.len() > 0,
        escaped_text(s)[0] != '"',
{
    if s.len() == 0 {
    } else {
        lemma_escaped_cons(s);
    }
}

/// `x` stands in `t` from position `i` on.
pub open spec fn text_at(t: Seq<char>, i: int, x: Seq<char>) -> bool {
    &&& 0 <= i
    &&& i + x.len() <= t.len()
    &&& t.subrange(i, i + x.len()) == x
}

proof fn lemma_text_at_split(t: Seq<char>, i: int, x: Seq<char>, y: Seq<char>)
    requires
        text_at(t, i, x + y),
    ensures
        text_at(t, i, x),
        text_at(t, i + x.len(), y),
        forall|k: int| 0 <= k < x.len() ==> t[i + k] == #[trigger] x[k],
        forall|k: int| 0 <= k < y.len() ==> t[i + x.len() + k] == #[trigger] y[k],
{
    assert(t.subrange(i, i + x.len()) =~= (x + y).subrange(0, x.len() as int));
    assert((x + y).subrange(0, x.len() as int) =~= x);
    assert(t.subrange(i + x.len(), i + x.len() + y.len()) =~= (x + y).subrange(x.len() as int, (x + y).len() as int));
    assert((x + y).subrange(x.len() as int, (x + y).len() as int) =~= y);
    assert forall|k: int| 0 <= k < x.len() implies t[i + k] == #[trigger] x[k] by {
        assert(t.subrange(i, i + (x + y).len())[k] == (x + y)[k]);
    }
    assert forall|k: int| 0 <= k < y.len() implies t[i + x.len() + k] == #[trigger] y[k] by {
        assert(t.subrange(i, i + (x + y).len())[x.len() + k] == (x + y)[x.len() + k]);
    }
}

/// A quoted string's escaped inside, followed by the closing quote, reads
/// back as the string.
proof fn lemma_json_string_escaped(t: Seq<char>, i: nat, acc: Seq<char>, s: Seq<char>)
    requires
        text_at(t, i as int, escaped_text(s) + seq!['"']),
    ensures
        json_string(t, i, acc) == Some((acc + s, i + escaped_text(s).len() + 1)),
    decreases s.len(),
{
    let e = escaped_text(s);
    lemma_text_at_split(t, i as int, e, seq!['"']);
    if s.len() == 0 {
        assert(e.len() == 0);
        assert(seq!['"'][0] == '"');
        assert(t[i as int] == '"');
        assert(acc + s =~= acc);
    } else {
        let c = s[0];
        let r = s.drop_first();
        lemma_escaped_cons(s);
        let ec = escape_char(c);
        assert(e + seq!['"'] =~= ec + (escaped_text(r) + seq!['"']));
        lemma_text_at_split(t, i as int, ec, escaped_text(r) + seq!['"']);
        if c == '"' || c == '\\' {
            assert(ec[0] == '\\' && ec[1] == c);
            assert(t[i as int] == '\\');
            assert(t[(i + 1) as int] == c);
            lemma_json_string_escaped(t, i + 2, acc.push(c), r);
        } else {
            assert(ec[0] == c);
            assert(t[i as int] == c);
            lemma_json_string_escaped(t, i + 1, acc.push(c), r);
        }
        assert(acc.push(c) + r =~= acc + s);
    }
}


proof fn lemma_quotes_escaped_append(a: Seq<char>, b: Seq<char>)
    ensures
        quotes_escaped(a + b) == quotes_escaped(a) + quotes_escaped(b),
    decreases b.len(),
{
    if b.len() == 0 {
        assert(a + b =~= a);
        assert(quotes_escaped(a) + quotes_escaped(b) =~= quotes_escaped(a));
    } else {
        assert((a + b).drop_last() =~= a + b.drop_last());
        assert((a + b).last() == b.last());
        lemma_quotes_escaped_append(a, b.drop_last());
        assert(quotes_escaped(a + b) =~= quotes_escaped(a) + quotes_escaped(b));
    }
}

proof fn lemma_quotes_escaped_cons(s: Seq<char>)
    requires
        s.len() > 0,
    ensures
        quotes_escaped(s) == (if s[0] == '"' { seq!['\\', '"'] } else { seq![s[0]] }) + quotes_escaped(s.drop_first()),
{
    assert(s =~= seq![s[0]] + s.drop_first());
    lemma_quotes_escaped_append(seq![s[0]], s.drop_first());
    assert(seq![s[0]].drop_last() =~= Seq::<char>::empty());
    assert(quotes_escaped(Seq::<char>::empty()) =~= Seq::<char>::empty());
    assert(seq![s[0]].last() == s[0]);
}

/// A plain key written with its quotes escaped, followed by the closing
/// quote, reads back as the key.
proof fn lemma_json_string_key(t: Seq<char>, i: nat, acc: Seq<char>, s: Seq<char>)
    requires
        plain_key(s),
        text_at(t, i as int, quotes_escaped(s) + seq!['"']),
    ensures
        json_string(t, i, acc) == Some((acc + s, i + quotes_escaped(s).len() + 1)),
    decreases s.len(),
{
    let e = quotes_escaped(s);
    lemma_text_at_split(t, i as int, e, seq!['"']);
    if s.len() == 0 {
        assert(e.len() == 0);
        assert(seq!['"'][0] == '"');
        assert(t[i as int] == '"');
        assert(acc + s =~= acc);
    } else {
        let c = s[0];
        let r = s.drop_first();
        lemma_quotes_escaped_cons(s);
        assert forall|k: int| 0 <= k < r.len() && #[trigger] r[k] == '\\' implies k + 1 < r.len() && r[k + 1] != '\\' && r[k + 1] != '"' by {
            assert(s[k + 1] == r[k]);
        }
        if c == '"' {
            let ec = seq!['\\', '"'];
            assert(e + seq!['"'] =~= ec + (quotes_escaped(r) + seq!['"']));
            lemma_text_at_split(t, i as int, ec, quotes_escaped(r) + seq!['"']);
            assert(ec[0] == '\\' && ec[1] == '"');
            lemma_json_string_key(t, i + 2, acc.push(c), r);
            assert(acc.push(c) + r =~= acc + s);
        } else if c == '\\' {
            assert(s[0] == '\\');
            let d = s[1];
            let r2 = s.skip(2);
            assert(r[0] == d);
            assert(r.drop_first() =~= r2);
            lemma_quotes_escaped_cons(r);
            let ec = seq!['\\', d];
            assert(e + seq!['"'] =~= ec + (quotes_escaped(r2) + seq!['"']));
            lemma_text_at_split(t, i as int, ec, quotes_escaped(r2) + seq!['"']);
            assert(ec[0] == '\\' && ec[1] == d);
            assert forall|k: int| 0 <= k < r2.len() && #[trigger] r2[k] == '\\' implies k + 1 < r2.len() && r2[k + 1] != '\\' && r2[k + 1] != '"' by {
                assert(s[k + 2] == r2[k]);
            }
            lemma_json_string_key(t, i + 2, acc.push('\\').push(d), r2);
            assert(acc.push('\\').push(d) + r2 =~= acc + s);
        } else {
            let ec = seq![c];
            assert(e + seq!['"'] =~= ec + (quotes_escaped(r) + seq!['"']));
            lemma_text_at_split(t, i as int, ec, quotes_escaped(r) + seq!['"']);
            assert(ec[0] == c);
            lemma_json_string_key(t, i + 1, acc.push(c), r);
            assert(acc.push(c) + r =~= acc + s);
        }
    }
}

// ---------------------------------------------------------------------------
// Reading the text back
// ---------------------------------------------------------------------------

proof fn lemma_text_chars(t: Seq<char>, i: int, x: Seq<char>)
    requires
        text_at(t, i, x),
    ensures
        forall|k: int| 0 <= k < x.len() ==> t[i + k] == #[trigger] x[k],
{
    assert(x + Seq::<char>::empty() =~= x);
    lemma_text_at_split(t, i, x, Seq::<char>::empty());
}

/// A plain value's text is at least two characters long and begins and
/// ends with neither white space nor a closing bracket at its start.
proof fn lemma_plain_text_ends(v: ValueModel)
    requires
        plain_json(v),
    ensures
        plain_text(v).len() >= 2,
        !white_space(plain_text(v)[0]),
        plain_text(v)[0] != ']',
        !white_space(plain_text(v).last()),
{
    reveal_strlit("null");
    reveal_strlit("true");
    reveal_strlit("false");
    reveal_strlit("\"");
    reveal_strlit("[");
    reveal_strlit("]");
    match v {
        ValueModel::Boolean(b) => {
            if b {
                assert(plain_text(v) == "true"@);
            } else {
                assert(plain_text(v) == "false"@);
            }
        },
        ValueModel::String(s) => {
            let x = "\""@ + escaped_text(s) + "\""@;
            assert(x[0] == '"');
            assert(x.last() == '"');
        },
        ValueModel::Array(a) => {
            let x = "["@ + plain_elements(a) + "]"@;
            assert(x[0] == '[');
            assert(x.last() == ']');
        },
        ValueModel::Object(p) => {
            reveal_strlit("{");
            reveal_strlit("}");
            let x = "{"@ + plain_entries(p) + "}"@;
            assert(x[0] == '{');
            assert(x.last() == '}');
        },
        _ => {},
    }
}

proof fn lemma_word_end_over(t: Seq<char>, i: nat, n: nat)
    requires
        i + n <= t.len(),
        forall|k: int| i <= k < i + n ==> !json_delimiter(#[trigger] t[k]),
        i + n == t.len() || json_delimiter(t[(i + n) as int]),
    ensures
        word_end(t, i) == i + n,
    decreases n,
{
    if n > 0 {
        assert(!json_delimiter(t[i as int]));
        lemma_word_end_over(t, i + 1, (n - 1) as nat);
    }
}

/// A keyword in the text, followed by a delimiter or the end, reads as one word.
proof fn lemma_keyword_word(t: Seq<char>, i: nat, x: Seq<char>)
    requires
        text_at(t, i as int, x),
        x.len() > 0,
        forall|k: int| 0 <= k < x.len() ==> !json_delimiter(#[trigger] x[k]),
        i + x.len() == t.len() || json_delimiter(t[(i + x.len()) as int]),
    ensures
        word_end(t, i) == i + x.len(),
        skip_ws(t, i) == i,
        t.subrange(i as int, (i + x.len()) as int) == x,
{
    lemma_text_chars(t, i as int, x);
    assert forall|k: int| i <= k < i + x.len() implies !json_delimiter(#[trigger] t[k]) by {
        assert(t[i + (k - i)] == x[k - i]);
    }
    lemma_word_end_over(t, i, x.len());
    assert(t[i as int + 0] == x[0]);
}


proof fn lemma_keywords_are_words()
    ensures
        forall|k: int| 0 <= k < "null"@.len() ==> !json_delimiter(#[trigger] "null"@[k]),
        forall|k: int| 0 <= k < "true"@.len() ==> !json_delimiter(#[trigger] "true"@[k]),
        forall|k: int| 0 <= k < "false"@.len() ==> !json_delimiter(#[trigger] "false"@[k]),
        "null"@.len() == 4,
        "true"@.len() == 4,
        "false"@.len() == 5,
        "true"@ != "null"@,
{
    reveal_strlit("null");
    reveal_strlit("true");
    reveal_strlit("false");
    assert("true"@[0] != "null"@[0]);
}

/// A plain value's text, followed by a delimiter or the end, reads back as
/// the value, without asking the embedder anything.
#[verifier::spinoff_prover]
#[verifier::rlimit(40)]
proof fn lemma_parse_plain(v: ValueModel, t: Seq<char>, i: nat, w: WorldModel, tape: Seq<ReplyModel>)
    requires
        plain_json(v),
        text_at(t, i as int, plain_text(v)),
        i + plain_text(v).len() == t.len() || json_delimiter(t[(i + plain_text(v).len()) as int]),
    ensures
        json_value(t, i, w, tape) == Ok::<(WorldModel, Option<(ValueModel, nat)>), crate::machine::HaltModel>(
            (w, Some((v, i + plain_text(v).len()))),
        ),
    decreases v, 0nat,
{
    let x = plain_text(v);
    lemma_plain_text_ends(v);
    lemma_text_chars(t, i as int, x);
    assert(t[i as int + 0] == x[0]);
    assert(skip_ws(t, i) == i);
    lemma_keywords_are_words();
    reveal_strlit("\"");
    reveal_strlit("[");
    reveal_strlit("]");
    match v {
        ValueModel::Null => {
            reveal_strlit("null");
            lemma_keyword_word(t, i, x);
        },
        ValueModel::Boolean(b) => {
            reveal_strlit("true");
            reveal_strlit("false");
            lemma_keyword_word(t, i, x);
        },
        ValueModel::String(s) => {
            let e = escaped_text(s);
            assert(x =~= seq!['"'] + (e + seq!['"']));
            lemma_text_at_split(t, i as int, seq!['"'], e + seq!['"']);
            lemma_json_string_escaped(t, i + 1, Seq::empty(), s);
            assert(Seq::<char>::empty() + s =~= s);
        },
        ValueModel::Array(a) => {
            let pe = plain_elements(a);
            assert(x =~= seq!['['] + (pe + seq![']']));
            lemma_text_at_split(t, i as int, seq!['['], pe + seq![']']);
            assert(x[0] == '[');
            if a.len() == 0 {
                assert(pe.len() == 0);
                assert(x[1] == ']');
                assert(t[i as int + 1] == x[1]);
                assert(skip_ws(t, i + 1) == i + 1);
                assert(a =~= Seq::<ValueModel>::empty());
            } else {
                lemma_parse_elements(a, t, i + 1, Seq::empty(), w, tape);
                assert(Seq::<ValueModel>::empty() + a =~= a);
            }
        },
        ValueModel::Object(q) => {
            reveal_strlit("{");
            reveal_strlit("}");
            let pe = plain_entries(q);
            assert(x =~= seq!['{'] + (pe + seq!['}']));
            lemma_text_at_split(t, i as int, seq!['{'], pe + seq!['}']);
            assert(x[0] == '{');
            if q.len() == 0 {
                assert(pe.len() == 0);
                assert(x[1] == '}');
                assert(t[i as int + 1] == x[1]);
                assert(skip_ws(t, i + 1) == i + 1);
                assert(q =~= Seq::<(Seq<char>, ValueModel)>::empty());
            } else {
                assert(Seq::<(Seq<char>, ValueModel)>::empty() + q =~= q);
                lemma_parse_members(q, t, i + 1, Seq::empty(), w, tape);
            }
        },
        _ => {},
    }
}

/// Written entries joined by commas and closed by `}` read back as the
/// entries, after those read so far, when no key repeats.
#[verifier::spinoff_prover]
#[verifier::rlimit(60)]
proof fn lemma_parse_members(
    q: Seq<(Seq<char>, ValueModel)>,
    t: Seq<char>,
    p: nat,
    acc: Seq<(Seq<char>, ValueModel)>,
    w: WorldModel,
    tape: Seq<ReplyModel>,
)
    requires
        q.len() >= 1,
        forall|k: int| 0 <= k < q.len() ==> plain_key(#[trigger] q[k].0) && plain_json(q[k].1),
        keys_of(acc + q).no_duplicates(),
        text_at(t, p as int, plain_entries(q) + seq!['}']),
    ensures
        json_members(t, p, acc, w, tape) == Ok::<(WorldModel, Option<(ValueModel, nat)>), crate::machine::HaltModel>(
            (w, Some((ValueModel::Object(acc + q), p + plain_entries(q).len() + 1))),
        ),
    decreases q, 1nat,
{
    reveal_strlit("\"");
    reveal_strlit("\":");
    reveal_strlit(",");
    let key = q[0].0;
    let v = q[0].1;
    assert(plain_key(key) && plain_json(v));
    let xv = plain_text(v);
    lemma_plain_text_ends(v);
    let qk = quotes_escaped(key);
    let e0 = entry_text(key, xv);
    assert(e0 =~= seq!['"'] + (qk + seq!['"']) + (seq![':'] + xv));
    // where the parts of the first entry stand
    let after = if q.len() == 1 { seq!['}'] } else { seq![','] + (plain_entries(q.subrange(1, q.len() as int)) + seq!['}']) };
    assert(plain_entries(q) + seq!['}'] =~= seq!['"'] + (qk + seq!['"']) + (seq![':'] + (xv + after))) by {
        if q.len() == 1 {
        } else {
            assert(plain_entries(q) == e0 + ","@ + plain_entries(q.subrange(1, q.len() as int)));
        }
    }
    lemma_text_at_split(t, p as int, seq!['"'] + (qk + seq!['"']), seq![':'] + (xv + after));
    lemma_text_at_split(t, p as int, seq!['"'], qk + seq!['"']);
    let k = p + 1 + qk.len() + 1;
    lemma_text_at_split(t, k as int, seq![':'], xv + after);
    lemma_text_at_split(t, (k + 1) as int, xv, after);
    assert(t[p as int + 0] == seq!['"'][0]);
    assert(skip_ws(t, p) == p);
    lemma_json_string_key(t, p + 1, Seq::empty(), key);
    assert(Seq::<char>::empty() + key =~= key);
    assert(t[k as int + 0] == seq![':'][0]);
    assert(skip_ws(t, k) == k);
    let e = k + 1 + xv.len();
    assert(t[e as int] == after[0]);
    lemma_parse_plain(v, t, (k + 1) as nat, w, tape);
    assert(skip_ws(t, e) == e);
    // the key is new
    let ks = keys_of(acc + q);
    assert(ks[acc.len() as int] == key);
    lemma_key_index(keys_of(acc), key);
    assert(!keys_of(acc).contains(key)) by {
        if keys_of(acc).contains(key) {
            let j = choose|j: int| 0 <= j < keys_of(acc).len() && keys_of(acc)[j] == key;
            assert(ks[j] == keys_of(acc)[j]);
        }
    }
    assert(entry_insert(acc, key, v) == acc.push(q[0]));
    if q.len() == 1 {
        assert(acc.push(q[0]) =~= acc + q);
    } else {
        let r = q.subrange(1, q.len() as int);
        assert forall|j: int| 0 <= j < r.len() implies plain_key(#[trigger] r[j].0) && plain_json(r[j].1) by {
            assert(r[j] == q[j + 1]);
        }
        assert(acc.push(q[0]) + r =~= acc + q);
        lemma_text_at_split(t, e as int, seq![','], plain_entries(r) + seq!['}']);
        assert(t[e as int] == ',');
        lemma_parse_members(r, t, e + 1, acc.push(q[0]), w, tape);
    }
}

/// Plain values' texts joined by commas and closed by `]` read back as the
/// values, after those read so far.
#[verifier::spinoff_prover]
#[verifier::rlimit(40)]
proof fn lemma_parse_elements(
    a: Seq<ValueModel>,
    t: Seq<char>,
    p: nat,
    acc: Seq<ValueModel>,
    w: WorldModel,
    tape: Seq<ReplyModel>,
)
    requires
        a.len() >= 1,
        forall|k: int| 0 <= k < a.len() ==> plain_json(#[trigger] a[k]),
        text_at(t, p as int, plain_elements(a) + seq![']']),
    ensures
        json_elements(t, p, acc, w, tape) == Ok::<(WorldModel, Option<(ValueModel, nat)>), crate::machine::HaltModel>(
            (w, Some((ValueModel::Array(acc + a), p + plain_elements(a).len() + 1))),
        ),
    decreases a, 1nat,
{
    let x0 = plain_text(a[0]);
    assert(plain_json(a[0]));
    lemma_plain_text_ends(a[0]);
    let k = p + x0.len();
    if a.len() == 1 {
        assert(plain_elements(a) == x0);
        lemma_text_at_split(t, p as int, x0, seq![']']);
        assert(t[k as int] == seq![']'][0]);
        lemma_text_chars(t, p as int, x0);
        assert(t[p as int + 0] == x0[0]);
        assert(skip_ws(t, p) == p);
        lemma_parse_plain(a[0], t, p, w, tape);
        assert(skip_ws(t, k) == k);
        assert(acc.push(a[0]) =~= acc + a);
    } else {
        let r = a.subrange(1, a.len() as int);
        let pr = plain_elements(r);
        assert(plain_elements(a) == x0 + ","@ + pr);
        reveal_strlit(",");
        assert(plain_elements(a) + seq![']'] =~= x0 + (seq![','] + (pr + seq![']'])));
        lemma_text_at_split(t, p as int, x0, seq![','] + (pr + seq![']']));
        lemma_text_at_split(t, k as int, seq![','], pr + seq![']']);
        assert(t[k as int + 0] == seq![','][0]);
        lemma_text_chars(t, p as int, x0);
        assert(t[p as int + 0] == x0[0]);
        assert(skip_ws(t, p) == p);
        lemma_parse_plain(a[0], t, p, w, tape);
        assert(skip_ws(t, k) == k);
        assert forall|j: int| 0 <= j < r.len() implies plain_json(#[trigger] r[j]) by {
            assert(r[j] == a[j + 1]);
        }
        lemma_parse_elements(r, t, k + 1, acc.push(a[0]), w, tape);
        assert(acc.push(a[0]) + r =~= acc + a);
    }
}


// ---------------------------------------------------------------------------
// A whole text
// ---------------------------------------------------------------------------

/// A text with each backslash doubled.
pub open spec fn backslashes_doubled(s: Seq<char>) -> Seq<char>
    decreases s.len(),
{
    if s.len() == 0 {
        Seq::empty()
    } else {
        (if s[0] == '\\' { seq!['\\', '\\'] } else { seq![s[0]] }) + backslashes_doubled(s.drop_first())
    }
}

/// Restoring escaped quotes leaves the backslashes doubled.
proof fn lemma_unescape_quotes(s: Seq<char>)
    ensures
        replace_all(escaped_text(s), seq!['\\', '"'], seq!['"']) == backslashes_doubled(s),
    decreases s.len(),
{
    let pat = seq!['\\', '"'];
    let rep = seq!['"'];
    if s.len() > 0 {
        let c = s[0];
        let r = s.drop_first();
        let big_x = escaped_text(r);
        lemma_escaped_cons(s);
        lemma_unescape_quotes(r);
        if c == '"' {
            let x = seq!['\\', '"'] + big_x;
            assert(escaped_text(s) =~= x);
            assert(x.take(2) =~= pat);
            assert(x.skip(2) =~= big_x);
        } else if c == '\\' {
            let x = seq!['\\', '\\'] + big_x;
            assert(escaped_text(s) =~= x);
            assert(x.take(2)[1] != pat[1]);
            let y = x.drop_first();
            assert(y =~= seq!['\\'] + big_x);
            if big_x.len() > 0 {
                lemma_escaped_first(r);
                assert(y.take(2)[1] == big_x[0]);
                assert(y.take(2)[1] != pat[1]);
            }
            assert(y.drop_first() =~= big_x);
            assert(replace_all(y, pat, rep) == seq![y[0]] + replace_all(big_x, pat, rep));
            assert(replace_all(x, pat, rep) =~= seq!['\\', '\\'] + replace_all(big_x, pat, rep));
        } else {
            let x = seq![c] + big_x;
            assert(escaped_text(s) =~= x);
            if x.len() >= 2 {
                assert(x.take(2)[0] != pat[0]);
            }
            assert(x.drop_first() =~= big_x);
        }
    }
}

/// Halving the doubled backslashes gives the text back.
proof fn lemma_halve_backslashes(s: Seq<char>)
    ensures
        replace_all(backslashes_doubled(s), seq!['\\', '\\'], seq!['\\']) == s,
    decreases s.len(),
{
    let pat = seq!['\\', '\\'];
    let rep = seq!['\\'];
    if s.len() > 0 {
        let c = s[0];
        let r = s.drop_first();
        let d = backslashes_doubled(r);
        lemma_halve_backslashes(r);
        if c == '\\' {
            let x = seq!['\\', '\\'] + d;
            assert(backslashes_doubled(s) == x);
            assert(x.take(2) =~= pat);
            assert(x.skip(2) =~= d);
        } else {
            let x = seq![c] + d;
            assert(backslashes_doubled(s) == x);
            if x.len() >= 2 {
                assert(x.take(2)[0] != pat[0]);
            }
            assert(x.drop_first() =~= d);
        }
        assert(seq![c] + r =~= s);
    }
}

proof fn lemma_trim_keeps(x: Seq<char>)
    requires
        x.len() > 0,
        !white_space(x[0]),
        !white_space(x.last()),
    ensures
        trim_end(trim_start(x)) == x,
{
}

/// `JSON.parse` gives back what `JSON.stringify` wrote, for values made of
/// `null`, booleans, strings, arrays, and objects under distinct keys whose
/// backslashes are each followed by a character other than a backslash or a
/// quote: writing such a value asks the embedder nothing, and parsing the
/// text gives the value again.
pub proof fn law_json_round_trip(v: ValueModel, w: WorldModel, tape: Seq<ReplyModel>)
    requires
        plain_json(v),
    ensures
        match vm_stringify(v, w, tape) {
            Ok((w1, text)) => w1 == w && vm_parse_json(text, w1, tape) == Ok::<(WorldModel, ValueModel), crate::machine::HaltModel>((w1, v)),
            Err(_) => false,
        },
{
    lemma_stringify_plain(v, w, tape);
    let x = plain_text(v);
    lemma_plain_text_ends(v);
    lemma_trim_keeps(x);
    lemma_keywords_are_words();
    reveal_strlit("null");
    reveal_strlit("true");
    reveal_strlit("false");
    reveal_strlit("\"");
    reveal_strlit("[");
    reveal_strlit("]");
    match v {
        ValueModel::Array(a) => {
            assert(x[0] == '[');
            assert(x != "null"@ && x != "true"@ && x != "false"@) by {
                assert("null"@[0] == 'n' && "true"@[0] == 't' && "false"@[0] == 'f');
            }
            assert(x.subrange(0, x.len() as int) =~= x);
            lemma_parse_plain(v, x, 0, w, tape);
        },
        ValueModel::Object(_) => {
            reveal_strlit("{");
            reveal_strlit("}");
            assert(x[0] == '{');
            assert(x != "null"@ && x != "true"@ && x != "false"@) by {
                assert("null"@[0] == 'n' && "true"@[0] == 't' && "false"@[0] == 'f');
            }
            assert(x.subrange(0, x.len() as int) =~= x);
            lemma_parse_plain(v, x, 0, w, tape);
        },
        ValueModel::String(s) => {
            let e = escaped_text(s);
            assert(x =~= seq!['"'] + e + seq!['"']);
            assert(x[0] == '"' && x.last() == '"');
            assert(x != "null"@ && x != "true"@ && x != "false"@) by {
                assert("null"@[0] == 'n' && "true"@[0] == 't' && "false"@[0] == 'f');
            }
            assert(x.subrange(1, x.len() - 1) =~= e);
            lemma_unescape_quotes(s);
            lemma_halve_backslashes(s);
        },
        _ => {},
    }
}


// ---------------------------------------------------------------------------
// Numbers in JSON text
// ---------------------------------------------------------------------------

/// The world after one reply has been taken.
pub open spec fn after_reply(w: WorldModel) -> WorldModel {
    WorldModel { next_reply: w.next_reply + 1, ..w }
}

/// A bare word that is not a keyword reads as a number: when the JSON text
/// at a position (after white space) is a word other than `null`, `true` and
/// `false`, the word is handed to the embedder to parse, and a reply
/// `Number(n)` makes the value the number `n`, ending where the word ends.
pub proof fn law_json_word_reads_as_number(t: Seq<char>, i: nat, w: WorldModel, tape: Seq<ReplyModel>, n: crate::number::JsNumber)
    requires
        skip_ws(t, i) < t.len(),
        t[skip_ws(t, i) as int] != '[',
        t[skip_ws(t, i) as int] != '{',
        t[skip_ws(t, i) as int] != '"',
        t.subrange(skip_ws(t, i) as int, word_end(t, skip_ws(t, i)) as int) != "null"@,
        t.subrange(skip_ws(t, i) as int, word_end(t, skip_ws(t, i)) as int) != "true"@,
        t.subrange(skip_ws(t, i) as int, word_end(t, skip_ws(t, i)) as int) != "false"@,
        word_end(t, skip_ws(t, i)) > skip_ws(t, i),
        w.next_reply < tape.len(),
        tape[w.next_reply as int] == ReplyModel::Number(n),
    ensures
        json_value(t, i, w, tape) == Ok::<(WorldModel, Option<(ValueModel, nat)>), crate::machine::HaltModel>(
            (after_reply(w), Some((ValueModel::Number(n), word_end(t, skip_ws(t, i))))),
        ),
{
}

/// `JSON.parse` of an array holding one number: for any word other than a
/// keyword, made of characters that do not end a word, `JSON.parse` of
/// `[word]` is the array of the number the embedder parses the word to.
pub proof fn law_json_parse_number_in_array(word: Seq<char>, w: WorldModel, tape: Seq<ReplyModel>, n: crate::number::JsNumber)
    requires
        word.len() > 0,
        forall|k: int| 0 <= k < word.len() ==> !json_delimiter(#[trigger] word[k]),
        word != "null"@,
        word != "true"@,
        word != "false"@,
        w.next_reply < tape.len(),
        tape[w.next_reply as int] == ReplyModel::Number(n),
    ensures
        vm_parse_json(seq!['['] + word + seq![']'], w, tape)
            == Ok::<(WorldModel, ValueModel), crate::machine::HaltModel>((after_reply(w), ValueModel::Array(seq![ValueModel::Number(n)]))),
{
    let t = seq!['['] + word + seq![']'];
    let k = word.len() + 1;
    assert(t[0] == '[');
    assert(t.last() == ']');
    assert(!white_space('[') && !white_space(']'));
    lemma_trim_keeps(t);
    lemma_keywords_are_words();
    reveal_strlit("null");
    reveal_strlit("true");
    reveal_strlit("false");
    assert(t != "null"@ && t != "true"@ && t != "false"@) by {
        assert("null"@[0] == 'n' && "true"@[0] == 't' && "false"@[0] == 'f');
    }
    assert(t =~= seq!['['] + (word + seq![']']));
    assert(t.subrange(0, t.len() as int) =~= t);
    lemma_text_at_split(t, 0, seq!['['], word + seq![']']);
    lemma_text_at_split(t, 1, word, seq![']']);
    assert(t[k as int] == ']');
    assert(t[1] == word[0]);
    assert(!json_delimiter(t[1]));
    assert(skip_ws(t, 1) == 1);
    assert(text_at(t, 1, word));
    assert forall|j: int| 1 <= j < 1 + word.len() implies !json_delimiter(#[trigger] t[j]) by {
        assert(t[1 + (j - 1)] == word[j - 1]);
    }
    lemma_word_end_over(t, 1, word.len());
    assert(t.subrange(1, k as int) == word);
    law_json_word_reads_as_number(t, 1, w, tape, n);
    assert(skip_ws(t, k) == k);
    assert(Seq::<ValueModel>::empty().push(ValueModel::Number(n)) =~= seq![ValueModel::Number(n)]);
}

/// `JSON.parse` of a number: when the trimmed text is not a keyword and does
/// not begin with a bracket, a brace or a quote, it is handed to the embedder
/// to parse, and a reply `Number(n)` makes the result the number `n`.
pub proof fn law_json_parse_number(input: Seq<char>, w: WorldModel, tape: Seq<ReplyModel>, n: crate::number::JsNumber)
    requires
        trim_end(trim_start(input)).len() > 0,
        trim_end(trim_start(input))[0] != '[',
        trim_end(trim_start(input))[0] != '{',
        trim_end(trim_start(input))[0] != '"',
        trim_end(trim_start(input)) != "null"@,
        trim_end(trim_start(input)) != "true"@,
        trim_end(trim_start(input)) != "false"@,
        w.next_reply < tape.len(),
        tape[w.next_reply as int] == ReplyModel::Number(n),
    ensures
        vm_parse_json(input, w, tape) == Ok::<(WorldModel, ValueModel), crate::machine::HaltModel>((after_reply(w), ValueModel::Number(n))),
{
}

} // verus!
