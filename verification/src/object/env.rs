//! Environments: frames of bindings from names to values, each with an
//! optional parent frame, and the lines printed so far.
use vstd::prelude::*;
use super::{copy_object, BuiltIn, ObjV, Object};
use crate::text::lit;

verus! {

/// The mathematical view of a frame: its bindings and its parent.
pub struct FrameV {
    pub store: Map<Seq<char>, ObjV>,
    pub parent: Option<nat>,
}

/// The mathematical view of an environment: its frames, indexed by scope,
/// and the lines printed so far.
pub struct EnvV {
    pub frames: Seq<FrameV>,
    pub stdout: Seq<Seq<char>>,
}

/// The value bound to `name` in frame `scope` or, failing that, in its
/// ancestors. A parent is looked at only where it lies before its child.
pub open spec fn spec_lookup(env: EnvV, scope: nat, name: Seq<char>) -> Option<ObjV>
    decreases scope,
{
    if scope >= env.frames.len() {
        None
    } else {
        let f = env.frames[scope as int];
        if f.store.contains_key(name) {
            Some(f.store[name])
        } else {
            match f.parent {
                Some(p) => if p < scope {
                    spec_lookup(env, p, name)
                } else {
                    None
                },
                None => None,
            }
        }
    }
}

/// Binds `name` to `v` in frame `scope`, replacing an earlier binding there.
pub open spec fn spec_assign(env: EnvV, scope: nat, name: Seq<char>, v: ObjV) -> EnvV {
    if scope < env.frames.len() {
        let f = env.frames[scope as int];
        EnvV {
            frames: env.frames.update(
                scope as int,
                FrameV { store: f.store.insert(name, v), parent: f.parent },
            ),
            stdout: env.stdout,
        }
    } else {
        env
    }
}

/// Adds an empty frame whose parent is `parent`; its scope is the number of
/// frames before it.
pub open spec fn spec_extend(env: EnvV, parent: nat) -> EnvV {
    EnvV {
        frames: env.frames.push(FrameV { store: Map::empty(), parent: Some(parent) }),
        stdout: env.stdout,
    }
}

/// Adds a printed line.
pub open spec fn spec_print(env: EnvV, line: Seq<char>) -> EnvV {
    EnvV { frames: env.frames, stdout: env.stdout.push(line) }
}

/// What a name is bound to in a frame is what a lookup from that frame
/// finds for it.
pub proof fn lemma_lookup_assigned(env: EnvV, scope: nat, name: Seq<char>, v: ObjV)
    requires
        scope < env.frames.len(),
    ensures
        spec_lookup(spec_assign(env, scope, name, v), scope, name) == Some(v),
{
}

/// Binding a name leaves what every other name looks up to, from every frame.
pub proof fn lemma_lookup_other_name(
    env: EnvV,
    scope: nat,
    name: Seq<char>,
    v: ObjV,
    from: nat,
    other: Seq<char>,
)
    requires
        other != name,
    ensures
        spec_lookup(spec_assign(env, scope, name, v), from, other) == spec_lookup(env, from, other),
    decreases from,
{
    let env2 = spec_assign(env, scope, name, v);
    if from < env.frames.len() {
        assert(env2.frames[from as int].store.contains_key(other) == env.frames[from as int].store.contains_key(other));
        if let Some(p) = env.frames[from as int].parent {
            if p < from {
                lemma_lookup_other_name(env, scope, name, v, p, other);
            }
        }
    }
}

/// A new frame finds what its parent finds.
pub proof fn lemma_lookup_extended(env: EnvV, parent: nat, name: Seq<char>)
    requires
        parent < env.frames.len(),
    ensures
        spec_lookup(spec_extend(env, parent), env.frames.len(), name) == spec_lookup(env, parent, name),
{
    lemma_lookup_extend_keeps(env, parent, parent, name);
}

/// Adding a frame leaves what the existing frames find.
pub proof fn lemma_lookup_extend_keeps(env: EnvV, parent: nat, from: nat, name: Seq<char>)
    requires
        from < env.frames.len(),
    ensures
        spec_lookup(spec_extend(env, parent), from, name) == spec_lookup(env, from, name),
    decreases from,
{
    let env2 = spec_extend(env, parent);
    assert(env2.frames[from as int] == env.frames[from as int]);
    if let Some(p) = env.frames[from as int].parent {
        if p < from {
            lemma_lookup_extend_keeps(env, parent, p, name);
        }
    }
}

/// Printing leaves every lookup as it was.
pub proof fn lemma_lookup_printed(env: EnvV, line: Seq<char>, from: nat, name: Seq<char>)
    ensures
        spec_lookup(spec_print(env, line), from, name) == spec_lookup(env, from, name),
    decreases from,
{
    if from < env.frames.len() {
        if let Some(p) = env.frames[from as int].parent {
            if p < from {
                lemma_lookup_printed(env, line, p, name);
            }
        }
    }
}

/// Binding a name in a frame leaves what every earlier frame finds.
pub proof fn lemma_lookup_earlier_frame(env: EnvV, scope: nat, name: Seq<char>, v: ObjV, from: nat, key: Seq<char>)
    requires
        from < scope,
    ensures
        spec_lookup(spec_assign(env, scope, name, v), from, key) == spec_lookup(env, from, key),
    decreases from,
{
    if from < env.frames.len() {
        let env2 = spec_assign(env, scope, name, v);
        if scope < env.frames.len() {
            assert(env2.frames[from as int] == env.frames[from as int]);
        }
        if let Some(p) = env.frames[from as int].parent {
            if p < from {
                lemma_lookup_earlier_frame(env, scope, name, v, p, key);
            }
        }
    }
}

/// A new frame whose parent is `parent`, with `name` bound to `v` in it:
/// from the new frame, `name` finds `v` and every other name finds what it
/// finds from the parent; from the parent, every name finds what it found
/// before.
pub proof fn lemma_shadowing(env: EnvV, parent: nat, name: Seq<char>, v: ObjV, other: Seq<char>)
    requires
        parent < env.frames.len(),
    ensures
        ({
            let inner = env.frames.len();
            let after = spec_assign(spec_extend(env, parent), inner, name, v);
            &&& spec_lookup(spec_extend(env, parent), inner, other) == spec_lookup(env, parent, other)
            &&& spec_lookup(after, inner, name) == Some(v)
            &&& other != name ==> spec_lookup(after, inner, other) == spec_lookup(env, parent, other)
            &&& spec_lookup(after, parent, other) == spec_lookup(env, parent, other)
        }),
{
    let inner = env.frames.len();
    let ext = spec_extend(env, parent);
    lemma_lookup_extended(env, parent, other);
    lemma_lookup_assigned(ext, inner, name, v);
    if other != name {
        lemma_lookup_other_name(ext, inner, name, v, inner, other);
    }
    lemma_lookup_earlier_frame(ext, inner, name, v, parent, other);
    lemma_lookup_extend_keeps(env, parent, parent, other);
}

/// The bindings of the built-in functions.
pub open spec fn builtin_bindings() -> Map<Seq<char>, ObjV> {
    Map::empty().insert("len"@, ObjV::BuiltIn(BuiltIn::Len)).insert(
        "push"@,
        ObjV::BuiltIn(BuiltIn::Push),
    ).insert("rest"@, ObjV::BuiltIn(BuiltIn::Rest)).insert("print"@, ObjV::BuiltIn(BuiltIn::Print))
}

/// A fresh environment: one root frame (scope 0) holding the built-ins, and
/// nothing printed.
pub open spec fn spec_initial_env() -> EnvV {
    EnvV {
        frames: seq![FrameV { store: builtin_bindings(), parent: None }],
        stdout: Seq::empty(),
    }
}

/// The bindings of a frame, as a sequence of name and value.
pub open spec fn store_view(s: Seq<(String, Object)>) -> Map<Seq<char>, ObjV>
    decreases s.len(),
{
    if s.len() == 0 {
        Map::empty()
    } else {
        store_view(s.drop_last()).insert(s.last().0@, s.last().1@)
    }
}

/// No name is bound twice in a frame.
pub open spec fn distinct_names(s: Seq<(String, Object)>) -> bool {
    forall|i: int, j: int| 0 <= i < j < s.len() ==> s[i].0@ != s[j].0@
}

proof fn lemma_store_view(s: Seq<(String, Object)>)
    requires
        distinct_names(s),
    ensures
        forall|i: int| 0 <= i < s.len() ==> #[trigger] store_view(s).contains_key(s[i].0@)
            && store_view(s)[s[i].0@] == s[i].1@,
        forall|k: Seq<char>| #[trigger]
            store_view(s).contains_key(k) ==> exists|i: int| 0 <= i < s.len() && s[i].0@ == k,
    decreases s.len(),
{
    if s.len() > 0 {
        let t = s.drop_last();
        assert(distinct_names(t));
        lemma_store_view(t);
        assert(store_view(s) == store_view(t).insert(s.last().0@, s.last().1@));
        assert forall|i: int| 0 <= i < s.len() implies #[trigger] store_view(s).contains_key(s[i].0@)
            && store_view(s)[s[i].0@] == s[i].1@ by {
            if i < s.len() - 1 {
                assert(t[i] == s[i]);
                assert(s[i].0@ != s.last().0@);
            }
        }
        assert forall|k: Seq<char>| #[trigger]
            store_view(s).contains_key(k) implies exists|i: int| 0 <= i < s.len() && s[i].0@ == k by {
            if k != s.last().0@ {
                assert(store_view(t).contains_key(k));
                let i = choose|i: int| 0 <= i < t.len() && t[i].0@ == k;
                assert(s[i] == t[i]);
            } else {
                assert(s[s.len() - 1].0@ == k);
            }
        }
    }
}

/// Replacing the value of the entry at `i` rebinds its name.
proof fn lemma_store_update(s: Seq<(String, Object)>, i: int, e: (String, Object))
    requires
        distinct_names(s),
        0 <= i < s.len(),
        e.0@ == s[i].0@,
    ensures
        distinct_names(s.update(i, e)),
        store_view(s.update(i, e)) == store_view(s).insert(e.0@, e.1@),
{
    let u = s.update(i, e);
    assert(distinct_names(u)) by {
        assert forall|a: int, b: int| 0 <= a < b < u.len() implies u[a].0@ != u[b].0@ by {
            assert(s[a].0@ != s[b].0@);
        }
    }
    lemma_store_view(s);
    lemma_store_view(u);
    assert(store_view(u) =~= store_view(s).insert(e.0@, e.1@)) by {
        assert forall|k: Seq<char>| #[trigger] store_view(u).contains_key(k) <==> store_view(s).insert(
            e.0@,
            e.1@,
        ).contains_key(k) by {
            if store_view(u).contains_key(k) {
                let j = choose|j: int| 0 <= j < u.len() && u[j].0@ == k;
                if j != i {
                    assert(store_view(s).contains_key(s[j].0@));
                }
            }
            if store_view(s).contains_key(k) {
                let j = choose|j: int| 0 <= j < s.len() && s[j].0@ == k;
                assert(store_view(u).contains_key(u[j].0@));
            }
            if k == e.0@ {
                assert(store_view(u).contains_key(u[i].0@));
            }
        }
        assert forall|k: Seq<char>| #[trigger] store_view(u).contains_key(k) implies store_view(u)[k]
            == store_view(s).insert(e.0@, e.1@)[k] by {
            let j = choose|j: int| 0 <= j < u.len() && u[j].0@ == k;
            if j != i {
                assert(store_view(s)[s[j].0@] == s[j].1@);
            }
        }
    }
}

/// Adding an entry with a new name binds it.
proof fn lemma_store_push(s: Seq<(String, Object)>, e: (String, Object))
    requires
        distinct_names(s),
        forall|i: int| 0 <= i < s.len() ==> s[i].0@ != e.0@,
    ensures
        distinct_names(s.push(e)),
        store_view(s.push(e)) == store_view(s).insert(e.0@, e.1@),
{
    assert(s.push(e).drop_last() =~= s);
    assert(distinct_names(s.push(e))) by {
        assert forall|a: int, b: int| 0 <= a < b < s.push(e).len() implies s.push(e)[a].0@ != s.push(
            e,
        )[b].0@ by {
            if b < s.len() {
                assert(s[a].0@ != s[b].0@);
            }
        }
    }
}

/// The index of the entry that binds `name`.
fn find(store: &Vec<(String, Object)>, name: &String) -> (r: Option<usize>)
    ensures
        match r {
            Some(i) => i < store.len() && store@[i as int].0@ == name@,
            None => forall|j: int| 0 <= j < store.len() ==> store@[j].0@ != name@,
        },
{
    let mut i: usize = 0;
    while i < store.len()
        invariant
            i <= store.len(),
            forall|j: int| 0 <= j < i ==> store@[j].0@ != name@,
        decreases store.len() - i,
    {
        if store[i].0 == *name {
            return Some(i);
        }
        i = i + 1;
    }
    None
}

/// One frame of an environment: its bindings, and the scope of its parent.
pub struct _Env {
    store: Vec<(String, Object)>,
    parent: Option<usize>,
}

impl _Env {
    /// A frame with no bindings and no parent.
    pub fn new() -> (f: _Env)
        ensures
            f@ == (FrameV { store: Map::empty(), parent: None }),
            f.wf(),
    {
        _Env { store: Vec::new(), parent: None }
    }

    pub closed spec fn wf(&self) -> bool {
        distinct_names(self.store@)
    }
}

impl View for _Env {
    type V = FrameV;

    closed spec fn view(&self) -> FrameV {
        FrameV {
            store: store_view(self.store@),
            parent: match self.parent {
                Some(p) => Some(p as nat),
                None => None,
            },
        }
    }
}

/// An environment: frames indexed by scope, the root frame at scope 0, and
/// the lines printed so far.
pub struct Env {
    frames: Vec<_Env>,
    stdout: Vec<String>,
}

impl View for Env {
    type V = EnvV;

    closed spec fn view(&self) -> EnvV {
        EnvV {
            frames: Seq::new(self.frames.len() as nat, |i: int| self.frames@[i]@),
            stdout: Seq::new(self.stdout.len() as nat, |i: int| self.stdout@[i]@),
        }
    }
}

impl Env {
    /// Every frame binds each name at most once.
    pub closed spec fn wf(&self) -> bool {
        forall|i: int| 0 <= i < self.frames.len() ==> #[trigger] self.frames@[i].wf()
    }

    /// A fresh environment holding the built-ins `len`, `push`, `rest` and
    /// `print` in its root frame.
    pub fn new() -> (env: Env)
        ensures
            env.wf(),
            env@ == spec_initial_env(),
    {
        let mut frames: Vec<_Env> = Vec::new();
        frames.push(_Env::new());
        let env = Env { frames, stdout: Vec::new() };
        assert(env@.frames =~= seq![FrameV { store: Map::empty(), parent: None }]);
        assert(env@.stdout =~= Seq::<Seq<char>>::empty());
        let env = BuiltIn::register(env);
        assert(env@.frames =~= spec_initial_env().frames);
        env
    }

    /// The value bound to `name` as seen from frame `scope`: a copy of it.
    pub fn get(&self, scope: usize, name: &String) -> (r: Option<Object>)
        requires
            self.wf(),
        ensures
            match r {
                Some(o) => spec_lookup(self@, scope as nat, name@) == Some(o@),
                None => spec_lookup(self@, scope as nat, name@) is None,
            },
    {
        let mut s = scope;
        loop
            invariant
                self.wf(),
                spec_lookup(self@, s as nat, name@) == spec_lookup(self@, scope as nat, name@),
            decreases s,
        {
            if s >= self.frames.len() {
                return None;
            }
            let frame = &self.frames[s];
            proof {
                assert(frame.wf());
                lemma_store_view(frame.store@);
                assert(self@.frames[s as int] == frame@);
            }
            match find(&frame.store, name) {
                Some(i) => {
                    return Some(copy_object(&frame.store[i].1));
                },
                None => {},
            }
            assert(!store_view(frame.store@).contains_key(name@));
            match frame.parent {
                Some(p) => {
                    if p < s {
                        s = p;
                    } else {
                        return None;
                    }
                },
                None => return None,
            }
        }
    }

    /// Binds `name` to `val` in frame `scope`, replacing an earlier binding
    /// there; nothing changes where there is no such frame.
    pub fn set(&mut self, scope: usize, name: String, val: Object)
        requires
            old(self).wf(),
        ensures
            final(self).wf(),
            final(self)@ == spec_assign(old(self)@, scope as nat, name@, val@),
    {
        if scope >= self.frames.len() {
            return;
        }
        let ghost before = self@;
        let mut frame = self.frames.remove(scope);
        proof {
            assert(old(self).frames@[scope as int] == frame);
            assert(frame.wf());
        }
        let ghost old_store = frame.store@;
        let ghost new_entry = (name, val);
        if let Some(i) = find(&frame.store, &name) {
            frame.store.set(i, (name, val));
            proof {
                lemma_store_update(old_store, i as int, new_entry);
            }
        } else {
            frame.store.push((name, val));
            proof {
                lemma_store_push(old_store, new_entry);
            }
        }
        self.frames.insert(scope, frame);
        proof {
            assert(self@.frames =~= before.frames.update(
                scope as int,
                FrameV { store: before.frames[scope as int].store.insert(name@, val@), parent: before.frames[scope as int].parent },
            )) by {
                assert forall|j: int| 0 <= j < self.frames.len() implies #[trigger] self@.frames[j] == before.frames.update(
                    scope as int,
                    FrameV { store: before.frames[scope as int].store.insert(name@, val@), parent: before.frames[scope as int].parent },
                )[j] by {
                    if j < scope {
                        assert(self.frames@[j] == old(self).frames@[j]);
                    } else if j > scope {
                        assert(self.frames@[j] == old(self).frames@[j]);
                    }
                }
            }
            assert forall|j: int| 0 <= j < self.frames.len() implies #[trigger] self.frames@[j].wf() by {
                if j != scope {
                    assert(self.frames@[j] == old(self).frames@[j]);
                    assert(old(self).frames@[j].wf());
                }
            }
        }
    }

    /// Adds an empty frame whose parent is `parent`, and gives its scope.
    pub fn new_extending(&mut self, parent: usize) -> (scope: usize)
        requires
            old(self).wf(),
            old(self)@.frames.len() < usize::MAX,
        ensures
            final(self).wf(),
            final(self)@ == spec_extend(old(self)@, parent as nat),
            scope == old(self)@.frames.len(),
    {
        let scope = self.frames.len();
        let mut frame = _Env::new();
        frame.parent = Some(parent);
        self.frames.push(frame);
        proof {
            assert(self@.frames =~= spec_extend(old(self)@, parent as nat).frames);
            assert forall|j: int| 0 <= j < self.frames.len() implies #[trigger] self.frames@[j].wf() by {
                if j < scope {
                    assert(self.frames@[j] == old(self).frames@[j]);
                    assert(old(self).frames@[j].wf());
                }
            }
        }
        scope
    }

    /// The number of frames.
    pub fn scopes(&self) -> (n: usize)
        ensures
            n == self@.frames.len(),
    {
        self.frames.len()
    }

    /// Adds a printed line.
    pub fn write_stdout(&mut self, msg: String)
        requires
            old(self).wf(),
        ensures
            final(self).wf(),
            final(self)@ == spec_print(old(self)@, msg@),
    {
        self.stdout.push(msg);
        proof {
            assert(self@.stdout =~= old(self)@.stdout.push(msg@));
            assert(self@.frames =~= old(self)@.frames);
        }
    }

    /// Takes the lines printed so far, leaving none.
    pub fn pop_stdout(&mut self) -> (lines: Vec<String>)
        requires
            old(self).wf(),
        ensures
            final(self).wf(),
            final(self)@ == (EnvV { frames: old(self)@.frames, stdout: Seq::empty() }),
            lines@.len() == old(self)@.stdout.len(),
            forall|i: int| 0 <= i < lines@.len() ==> #[trigger] lines@[i]@ == old(self)@.stdout[i],
    {
        let mut lines: Vec<String> = Vec::new();
        std::mem::swap(&mut lines, &mut self.stdout);
        proof {
            assert(self@.stdout =~= Seq::<Seq<char>>::empty());
            assert(self@.frames =~= old(self)@.frames);
        }
        lines
    }
}

impl BuiltIn {
    /// Binds `len`, `push`, `rest` and `print` in the root frame. `index` is
    /// reached through `[..]` only.
    pub fn register(env: Env) -> (r: Env)
        requires
            env.wf(),
        ensures
            r.wf(),
            r@ == spec_assign(
                spec_assign(
                    spec_assign(
                        spec_assign(env@, 0, "len"@, ObjV::BuiltIn(BuiltIn::Len)),
                        0,
                        "push"@,
                        ObjV::BuiltIn(BuiltIn::Push),
                    ),
                    0,
                    "rest"@,
                    ObjV::BuiltIn(BuiltIn::Rest),
                ),
                0,
                "print"@,
                ObjV::BuiltIn(BuiltIn::Print),
            ),
    {
        let mut env = env;
        env.set(0, lit("len"), Object::BuiltIn(BuiltIn::Len));
        env.set(0, lit("push"), Object::BuiltIn(BuiltIn::Push));
        env.set(0, lit("rest"), Object::BuiltIn(BuiltIn::Rest));
        env.set(0, lit("print"), Object::BuiltIn(BuiltIn::Print));
        env
    }
}

} // verus!
