//! Lexical environments: a chain of binding frames, innermost last.
//!
//! A function call or a `catch` clause opens a child frame and closes it
//! when it ends, so the chain is a stack: the parent of every frame is the
//! frame below it.
use vstd::prelude::*;
use crate::value::{JsValue, ValueModel, JsDeclarationKind, clone_value};
use crate::props::{key_index, keys_of, string_keys, entry_lookup, entry_insert, lemma_key_index, find_key};

verus! {

/// A variable binding: its value and whether assignment may change it.
#[derive(Debug)]
pub struct JsBinding {
    pub value: JsValue,
    pub mutable: bool,
}

/// The model of one frame: names with their values and mutability.
pub type FrameModel = Seq<(Seq<char>, (ValueModel, bool))>;

pub open spec fn frame_model(f: Seq<(String, JsBinding)>) -> FrameModel {
    f.map_values(|e: (String, JsBinding)| (e.0@, (e.1.value@, e.1.mutable)))
}

/// A scope chain. The last frame is the innermost one.
#[derive(Debug)]
pub struct JsScope {
    frames: Vec<Vec<(String, JsBinding)>>,
}

impl View for JsScope {
    type V = Seq<FrameModel>;

    closed spec fn view(&self) -> Seq<FrameModel> {
        self.frames@.map_values(|f: Vec<(String, JsBinding)>| frame_model(f@))
    }
}

/// The index of the innermost frame that binds `name`, or -1.
pub open spec fn scope_resolve(scopes: Seq<FrameModel>, name: Seq<char>) -> int
    decreases scopes.len(),
{
    if scopes.len() == 0 {
        -1
    } else if key_index(keys_of(scopes.last()), name) >= 0 {
        scopes.len() - 1
    } else {
        scope_resolve(scopes.drop_last(), name)
    }
}

/// The binding that `name` refers to, if any.
pub open spec fn scope_binding(scopes: Seq<FrameModel>, name: Seq<char>) -> Option<(ValueModel, bool)> {
    let f = scope_resolve(scopes, name);
    if f >= 0 {
        entry_lookup(scopes[f], name)
    } else {
        None
    }
}

/// The value that `name` refers to, if any.
pub open spec fn scope_get(scopes: Seq<FrameModel>, name: Seq<char>) -> Option<ValueModel> {
    match scope_binding(scopes, name) {
        Some(b) => Some(b.0),
        None => None,
    }
}

/// Sets `name` in the innermost frame, creating a frame when there is none.
pub open spec fn scope_put_top(scopes: Seq<FrameModel>, name: Seq<char>, b: (ValueModel, bool)) -> Seq<FrameModel> {
    if scopes.len() == 0 {
        seq![seq![(name, b)]]
    } else {
        scopes.update(scopes.len() - 1, entry_insert(scopes.last(), name, b))
    }
}

/// `let`/`const` declaration: binds `name` in the innermost frame.
pub open spec fn scope_define(scopes: Seq<FrameModel>, name: Seq<char>, value: ValueModel, kind: JsDeclarationKind) -> Seq<FrameModel> {
    scope_put_top(scopes, name, (value, kind == JsDeclarationKind::Let))
}

/// Assignment: updates the innermost binding of `name` when it is mutable,
/// leaves a `const` binding as it is and reports `false`, and creates a
/// mutable binding in the innermost frame when `name` is unbound.
pub open spec fn scope_set(scopes: Seq<FrameModel>, name: Seq<char>, value: ValueModel) -> (Seq<FrameModel>, bool) {
    let f = scope_resolve(scopes, name);
    if f >= 0 {
        if entry_lookup(scopes[f], name).unwrap().1 {
            (scopes.update(f, entry_insert(scopes[f], name, (value, true))), true)
        } else {
            (scopes, false)
        }
    } else {
        (scope_put_top(scopes, name, (value, true)), true)
    }
}

pub proof fn lemma_frame_keys(f: Seq<(String, JsBinding)>)
    ensures
        keys_of(frame_model(f)) == string_keys(f),
{
    assert(keys_of(frame_model(f)) =~= string_keys(f));
}

pub proof fn lemma_scope_resolve_bounds(scopes: Seq<FrameModel>, name: Seq<char>)
    ensures
        -1 <= scope_resolve(scopes, name) < scopes.len(),
        scope_resolve(scopes, name) >= 0 ==> key_index(keys_of(scopes[scope_resolve(scopes, name)]), name) >= 0,
        forall|j: int| scope_resolve(scopes, name) < j < scopes.len() ==> key_index(keys_of(#[trigger] scopes[j]), name) < 0,
    decreases scopes.len(),
{
    if scopes.len() > 0 {
        lemma_scope_resolve_bounds(scopes.drop_last(), name);
        if key_index(keys_of(scopes.last()), name) < 0 {
            assert forall|j: int| scope_resolve(scopes, name) < j < scopes.len() implies key_index(keys_of(#[trigger] scopes[j]), name) < 0 by {
                if j < scopes.len() - 1 {
                    assert(scopes.drop_last()[j] == scopes[j]);
                }
            }
            let f = scope_resolve(scopes, name);
            if f >= 0 {
                assert(scopes.drop_last()[f] == scopes[f]);
            }
        }
    }
}


// ---------------------------------------------------------------------------
// Laws of the scope chain
// ---------------------------------------------------------------------------

/// Replacing one frame by a frame that finds `name` at the same place leaves
/// the resolution of `name` unchanged.
pub proof fn lemma_resolve_frame_update(scopes: Seq<FrameModel>, f: int, frame: FrameModel, name: Seq<char>)
    requires
        0 <= f < scopes.len(),
        key_index(keys_of(frame), name) == key_index(keys_of(scopes[f]), name),
    ensures
        scope_resolve(scopes.update(f, frame), name) == scope_resolve(scopes, name),
    decreases scopes.len(),
{
    let s2 = scopes.update(f, frame);
    if f < scopes.len() - 1 {
        assert(s2.drop_last() =~= scopes.drop_last().update(f, frame));
        lemma_resolve_frame_update(scopes.drop_last(), f, frame, name);
        assert(s2.last() == scopes.last());
    } else {
        assert(s2.drop_last() =~= scopes.drop_last());
    }
}

/// A lookup in a frame after an insertion under another key.
proof fn lemma_insert_other_index<V>(entries: Seq<(Seq<char>, V)>, key: Seq<char>, value: V, other: Seq<char>)
    requires
        other != key,
    ensures
        key_index(keys_of(entry_insert(entries, key, value)), other) == key_index(keys_of(entries), other),
{
    let ks = keys_of(entries);
    let i = key_index(ks, key);
    crate::props::lemma_key_index(ks, key);
    if i >= 0 {
        assert(keys_of(entry_insert(entries, key, value)) =~= ks.update(i, key));
        crate::props::lemma_key_index_update(ks, i, key, other);
    } else {
        assert(keys_of(entry_insert(entries, key, value)) =~= ks.push(key));
        crate::props::lemma_key_index_push(ks, key, other);
    }
}

/// Putting `name` in the innermost frame makes it resolve there.
proof fn lemma_put_top_resolves(scopes: Seq<FrameModel>, name: Seq<char>, b: (ValueModel, bool))
    ensures
        scope_binding(scope_put_top(scopes, name, b), name) == Some(b),
{
    let s2 = scope_put_top(scopes, name, b);
    if scopes.len() == 0 {
        assert(keys_of(s2.last()) =~= seq![name]);
        assert(seq![name].drop_last() =~= Seq::<Seq<char>>::empty());
        assert(key_index(Seq::<Seq<char>>::empty(), name) == -1);
        assert(key_index(seq![name], name) == 0);
        assert(key_index(keys_of(s2.last()), name) == 0);
        assert(scope_resolve(s2, name) == 0);
    } else {
        crate::props::lemma_insert_lookup(scopes.last(), name, b, name);
        assert(s2.last() == entry_insert(scopes.last(), name, b));
        assert(key_index(keys_of(s2.last()), name) >= 0);
        assert(scope_resolve(s2, name) == s2.len() - 1);
    }
}

/// Putting `name` in the innermost frame leaves every other name as it was.
proof fn lemma_put_top_other(scopes: Seq<FrameModel>, name: Seq<char>, b: (ValueModel, bool), other: Seq<char>)
    requires
        other != name,
        scopes.len() > 0,
    ensures
        scope_binding(scope_put_top(scopes, name, b), other) == scope_binding(scopes, other),
{
    let top = scopes.len() - 1;
    let nf = entry_insert(scopes.last(), name, b);
    lemma_insert_other_index(scopes.last(), name, b, other);
    lemma_resolve_frame_update(scopes, top, nf, other);
    crate::props::lemma_insert_lookup(scopes.last(), name, b, other);
    lemma_scope_resolve_bounds(scopes, other);
    let g = scope_resolve(scopes, other);
    let s2 = scope_put_top(scopes, name, b);
    if g >= 0 {
        if g == top {
            assert(s2[g] == nf);
        } else {
            assert(s2[g] == scopes[g]);
        }
    }
}

/// A declaration is seen by the next lookup of its name, in whatever frame
/// the name was bound before: the innermost declaration shadows the others.
pub proof fn lemma_define_then_get(scopes: Seq<FrameModel>, name: Seq<char>, value: ValueModel, kind: JsDeclarationKind)
    ensures
        scope_get(scope_define(scopes, name, value, kind), name) == Some(value),
        scope_binding(scope_define(scopes, name, value, kind), name) == Some((value, kind == JsDeclarationKind::Let)),
{
    lemma_put_top_resolves(scopes, name, (value, kind == JsDeclarationKind::Let));
}

/// A `const` binding is not changed by assignment: the assignment reports
/// `false`, and the chain and the value stay as they were.
pub proof fn lemma_const_not_reassigned(scopes: Seq<FrameModel>, name: Seq<char>, value: ValueModel, other: ValueModel)
    ensures
        ({
            let s2 = scope_define(scopes, name, value, JsDeclarationKind::Const);
            &&& scope_set(s2, name, other) == (s2, false)
            &&& scope_get(scope_set(s2, name, other).0, name) == Some(value)
        }),
{
    lemma_define_then_get(scopes, name, value, JsDeclarationKind::Const);
}

/// A successful assignment is seen by the next lookup of its name.
pub proof fn lemma_set_then_get(scopes: Seq<FrameModel>, name: Seq<char>, value: ValueModel)
    ensures
        scope_set(scopes, name, value).1 ==> scope_get(scope_set(scopes, name, value).0, name) == Some(value),
        !scope_set(scopes, name, value).1 ==> scope_set(scopes, name, value).0 == scopes,
{
    let f = scope_resolve(scopes, name);
    lemma_scope_resolve_bounds(scopes, name);
    if f >= 0 {
        let nf = entry_insert(scopes[f], name, (value, true));
        if entry_lookup(scopes[f], name).unwrap().1 {
            crate::props::lemma_key_index(keys_of(scopes[f]), name);
            crate::props::lemma_insert_lookup(scopes[f], name, (value, true), name);
            let ks = keys_of(scopes[f]);
            let i = key_index(ks, name);
            assert(keys_of(nf) =~= ks.update(i, name));
            crate::props::lemma_key_index_update(ks, i, name, name);
            lemma_resolve_frame_update(scopes, f, nf, name);
        }
    } else {
        lemma_put_top_resolves(scopes, name, (value, true));
    }
}

/// An assignment to one name leaves every other name bound as it was.
pub proof fn lemma_set_keeps_other_names(scopes: Seq<FrameModel>, name: Seq<char>, value: ValueModel, other: Seq<char>)
    requires
        other != name,
        scopes.len() > 0,
    ensures
        scope_get(scope_set(scopes, name, value).0, other) == scope_get(scopes, other),
{
    let f = scope_resolve(scopes, name);
    lemma_scope_resolve_bounds(scopes, name);
    if f >= 0 {
        if entry_lookup(scopes[f], name).unwrap().1 {
            let nf = entry_insert(scopes[f], name, (value, true));
            lemma_insert_other_index(scopes[f], name, (value, true), other);
            lemma_resolve_frame_update(scopes, f, nf, other);
            crate::props::lemma_insert_lookup(scopes[f], name, (value, true), other);
            let g = scope_resolve(scopes, other);
            lemma_scope_resolve_bounds(scopes, other);
            if g >= 0 && g != f {
                assert(scopes.update(f, nf)[g] == scopes[g]);
            }
        }
    } else {
        lemma_put_top_other(scopes, name, (value, true), other);
    }
}

/// Assignment from a child frame to a name that only an enclosing frame binds
/// updates that enclosing binding and leaves the child frame empty: when the
/// child is closed, the parent sees the new value.
pub proof fn lemma_child_assigns_parent_binding(scopes: Seq<FrameModel>, name: Seq<char>, value: ValueModel)
    requires
        scope_get(scopes, name).is_some(),
    ensures
        scope_set(scopes.push(Seq::empty()), name, value)
            == (scope_set(scopes, name, value).0.push(Seq::empty()), scope_set(scopes, name, value).1),
        scope_get(scopes.push(Seq::empty()), name) == scope_get(scopes, name),
{
    let c = scopes.push(Seq::empty());
    assert(keys_of(c.last()) =~= Seq::<Seq<char>>::empty());
    assert(c.drop_last() =~= scopes);
    let f = scope_resolve(scopes, name);
    lemma_scope_resolve_bounds(scopes, name);
    assert(scope_resolve(c, name) == f);
    assert(c[f] == scopes[f]);
    if f >= 0 && entry_lookup(scopes[f], name).unwrap().1 {
        let nf = entry_insert(scopes[f], name, (value, true));
        assert(c.update(f, nf) =~= scopes.update(f, nf).push(Seq::empty()));
    }
}

impl JsScope {
    /// A chain with one empty frame.
    pub fn new_root() -> (s: JsScope)
        ensures
            s@ == seq![Seq::<(Seq<char>, (ValueModel, bool))>::empty()],
    {
        let mut frames: Vec<Vec<(String, JsBinding)>> = Vec::new();
        frames.push(Vec::new());
        let s = JsScope { frames };
        assert(frame_model(frames@[0]@) =~= Seq::empty());
        assert(s@ =~= seq![Seq::<(Seq<char>, (ValueModel, bool))>::empty()]);
        s
    }

    /// The chain with a new empty innermost frame whose parent is `parent`.
    pub fn new_child(parent: JsScope) -> (s: JsScope)
        ensures
            s@ == parent@.push(Seq::empty()),
    {
        let mut s = parent;
        s.push_frame();
        s
    }

    /// The enclosing chain: `None` for a root.
    pub fn parent(self) -> (p: Option<JsScope>)
        ensures
            self@.len() > 1 ==> (p matches Some(q) && q@ == self@.drop_last()),
            self@.len() <= 1 ==> p is None,
    {
        let mut s = self;
        if s.frames.len() > 1 {
            s.pop_frame();
            Some(s)
        } else {
            None
        }
    }

    /// The number of frames in the chain.
    pub fn depth(&self) -> (n: usize)
        ensures
            n == self@.len(),
    {
        self.frames.len()
    }

    /// A copy of the chain.
    pub fn duplicate(&self) -> (s: JsScope)
        ensures
            s@ == self@,
    {
        let mut frames: Vec<Vec<(String, JsBinding)>> = Vec::new();
        let mut i: usize = 0;
        while i < self.frames.len()
            invariant
                i <= self.frames@.len(),
                frames@.len() == i,
                forall|k: int| 0 <= k < i ==> #[trigger] frame_model(frames@[k]@) == frame_model(self.frames@[k]@),
            decreases self.frames@.len() - i,
        {
            let src = &self.frames[i];
            let mut f: Vec<(String, JsBinding)> = Vec::new();
            let mut j: usize = 0;
            while j < src.len()
                invariant
                    j <= src@.len(),
                    f@.len() == j,
                    frame_model(f@) == frame_model(src@).take(j as int),
                decreases src@.len() - j,
            {
                let e = (src[j].0.clone(), JsBinding { value: clone_value(&src[j].1.value), mutable: src[j].1.mutable });
                let ghost before = f@;
                f.push(e);
                proof {
                    assert(f@ == before.push(e));
                    assert(frame_model(f@)[j as int] == frame_model(src@)[j as int]);
                    assert forall|k: int| 0 <= k < j implies frame_model(f@)[k] == frame_model(before)[k] by {}
                }
                j += 1;
                assert(frame_model(f@) =~= frame_model(src@).take(j as int));
            }
            assert(frame_model(src@).take(src@.len() as int) =~= frame_model(src@));
            frames.push(f);
            i += 1;
        }
        let s = JsScope { frames };
        assert(s@ =~= self@);
        s
    }

    /// Opens a new empty innermost frame.
    pub fn push_frame(&mut self)
        ensures
            final(self)@ == old(self)@.push(Seq::empty()),
    {
        self.frames.push(Vec::new());
        assert(frame_model(self.frames@[self.frames@.len() - 1]@) =~= Seq::empty());
        assert(final(self)@ =~= old(self)@.push(Seq::empty()));
    }

    /// Closes the innermost frame.
    pub fn pop_frame(&mut self)
        ensures
            final(self)@ == (if old(self)@.len() > 0 { old(self)@.drop_last() } else { old(self)@ }),
    {
        if self.frames.len() > 0 {
            let _ = self.frames.pop();
            assert(final(self)@ =~= old(self)@.drop_last());
        }
    }

    /// Closes frames until `depth` remain.
    pub fn truncate(&mut self, depth: usize)
        ensures
            final(self)@ == (if old(self)@.len() > depth { old(self)@.take(depth as int) } else { old(self)@ }),
    {
        while self.frames.len() > depth
            invariant
                self@.len() <= old(self)@.len(),
                self.frames@.len() == self@.len(),
                old(self)@.len() > depth ==> self@.len() >= depth && self@ == old(self)@.take(self@.len() as int),
                old(self)@.len() <= depth ==> self@ == old(self)@,
            decreases self.frames@.len(),
        {
            let ghost before = self@;
            let _ = self.frames.pop();
            proof {
                assert(self@ =~= before.drop_last());
                assert(old(self)@.len() > depth);
                assert(before == old(self)@.take(before.len() as int));
                assert(before.drop_last() =~= old(self)@.take(before.len() - 1));
            }
        }
        proof {
            if old(self)@.len() > depth {
                assert(self@ =~= old(self)@.take(depth as int));
            }
        }
    }

    /// Finds the frame and the entry that `name` refers to.
    fn resolve(&self, name: &String) -> (r: Option<(usize, usize)>)
        ensures
            match r {
                Some((f, i)) => {
                    &&& f as int == scope_resolve(self@, name@)
                    &&& f < self@.len()
                    &&& i < self.frames@[f as int]@.len()
                    &&& i as int == key_index(keys_of(self@[f as int]), name@)
                },
                None => scope_resolve(self@, name@) == -1,
            },
    {
        let ghost sv = self@;
        let mut k = self.frames.len();
        assert(sv.take(k as int) =~= sv);
        while k > 0
            invariant
                k <= self.frames@.len(),
                sv == self@,
                scope_resolve(sv, name@) == scope_resolve(sv.take(k as int), name@),
            decreases k,
        {
            let found = find_key(&self.frames[k - 1], name);
            proof {
                lemma_frame_keys(self.frames@[k - 1]@);
                assert(sv.take(k as int).drop_last() =~= sv.take(k - 1));
                assert(sv.take(k as int).last() == sv[k - 1]);
            }
            match found {
                Some(i) => {
                    proof {
                        lemma_key_index(string_keys(self.frames@[k - 1]@), name@);
                    }
                    return Some((k - 1, i));
                },
                None => {},
            }
            k -= 1;
        }
        None
    }

    /// The value bound to `name` in the innermost frame that binds it.
    pub fn get(&self, name: &String) -> (r: Option<JsValue>)
        ensures
            match r {
                Some(v) => scope_get(self@, name@) == Some(v@),
                None => scope_get(self@, name@).is_none(),
            },
    {
        match self.resolve(name) {
            Some((f, i)) => {
                let v = clone_value(&self.frames[f][i].1.value);
                proof {
                    lemma_frame_keys(self.frames@[f as int]@);
                }
                Some(v)
            },
            None => None,
        }
    }

    fn put_top(&mut self, name: String, b: JsBinding)
        ensures
            final(self)@ == scope_put_top(old(self)@, name@, (b.value@, b.mutable)),
    {
        let ghost bm = (b.value@, b.mutable);
        if self.frames.len() == 0 {
            let mut f: Vec<(String, JsBinding)> = Vec::new();
            f.push((name, b));
            assert(frame_model(f@) =~= seq![(name@, bm)]);
            self.frames.push(f);
            assert(final(self)@ =~= seq![seq![(name@, bm)]]);
            return;
        }
        let top = self.frames.len() - 1;
        let mut frame: Vec<(String, JsBinding)> = Vec::new();
        self.frames.set_and_swap(top, &mut frame);
        let ghost old_frame = frame@;
        proof {
            lemma_frame_keys(old_frame);
            lemma_key_index(string_keys(old_frame), name@);
        }
        match find_key(&frame, &name) {
            Some(i) => {
                frame.set(i, (name, b));
                assert(frame_model(frame@) =~= entry_insert(frame_model(old_frame), name@, bm));
            },
            None => {
                frame.push((name, b));
                assert(frame_model(frame@) =~= entry_insert(frame_model(old_frame), name@, bm));
            },
        }
        self.frames.set_and_swap(top, &mut frame);
        assert(final(self)@ =~= scope_put_top(old(self)@, name@, bm));
    }

    /// Declares `name` in the innermost frame, replacing a binding of the same name there.
    pub fn define(&mut self, name: String, value: JsValue, kind: JsDeclarationKind)
        ensures
            final(self)@ == scope_define(old(self)@, name@, value@, kind),
    {
        let mutable = match kind {
            JsDeclarationKind::Let => true,
            JsDeclarationKind::Const => false,
        };
        self.put_top(name, JsBinding { value, mutable });
    }

    /// Assigns `name`; see `scope_set`.
    pub fn set(&mut self, name: &String, value: JsValue) -> (ok: bool)
        ensures
            (final(self)@, ok) == scope_set(old(self)@, name@, value@),
    {
        match self.resolve(name) {
            Some((f, i)) => {
                proof { lemma_frame_keys(self.frames@[f as int]@); }
                if self.frames[f][i].1.mutable {
                    let mut frame: Vec<(String, JsBinding)> = Vec::new();
                    self.frames.set_and_swap(f, &mut frame);
                    let ghost old_frame = frame@;
                    frame.set(i, (name.clone(), JsBinding { value, mutable: true }));
                    assert(frame_model(frame@) =~= entry_insert(frame_model(old_frame), name@, (value@, true)));
                    self.frames.set_and_swap(f, &mut frame);
                    assert(final(self)@ =~= scope_set(old(self)@, name@, value@).0);
                    true
                } else {
                    false
                }
            },
            None => {
                self.put_top(name.clone(), JsBinding { value, mutable: true });
                true
            },
        }
    }
}

} // verus!
