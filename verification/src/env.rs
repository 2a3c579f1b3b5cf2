//! Environments: scopes of bindings chained from the innermost outward.
//!
//! Scopes live in a [`Store`] and are named by [`Env`] handles, so that
//! closures can share a scope that is still being filled, and a function
//! stored in a scope can name that very scope.

use crate::value::{Datum, Primitive, Value};
use vstd::prelude::*;

verus! {

/// `==` on `str`: two strings are equal when they hold the same characters.
pub assume_specification[ <str as PartialEq>::eq ](a: &str, b: &str) -> (r: bool)
    ensures
        r == (a@ == b@),
;

/// A map from names to values.
#[derive(Debug)]
pub struct Frame {
    entries: Vec<(String, Value)>,
}

/// What the entries bind `name` to; of two entries with one name the later
/// counts.
spec fn found(entries: Seq<(String, Value)>, name: Seq<char>) -> Option<Datum>
    decreases entries.len(),
{
    if entries.len() == 0 {
        None
    } else if entries.last().0@ == name {
        Some(entries.last().1@)
    } else {
        found(entries.drop_last(), name)
    }
}

/// Putting an entry in the place of the entry that counts for its name
/// changes what that name is bound to, and nothing else.
proof fn lemma_found_update(
    entries: Seq<(String, Value)>,
    i: int,
    entry: (String, Value),
    name: Seq<char>,
)
    requires
        0 <= i < entries.len(),
        entries[i].0@ == entry.0@,
        forall|j: int| i < j < entries.len() ==> entries[j].0@ != entry.0@,
    ensures
        found(entries.update(i, entry), name) == if name == entry.0@ {
            Some(entry.1@)
        } else {
            found(entries, name)
        },
    decreases entries.len(),
{
    let updated = entries.update(i, entry);
    if i == entries.len() - 1 {
        assert(updated.drop_last() == entries.drop_last());
    } else {
        assert(updated.drop_last() == entries.drop_last().update(i, entry));
        lemma_found_update(entries.drop_last(), i, entry, name);
    }
}

/// A name that no entry holds is not bound.
proof fn lemma_found_absent(entries: Seq<(String, Value)>, name: Seq<char>)
    requires
        forall|j: int| 0 <= j < entries.len() ==> entries[j].0@ != name,
    ensures
        found(entries, name) is None,
    decreases entries.len(),
{
    if entries.len() > 0 {
        lemma_found_absent(entries.drop_last(), name);
    }
}

/// The last entry that holds a name is the one that counts.
proof fn lemma_found_at(entries: Seq<(String, Value)>, i: int, name: Seq<char>)
    requires
        0 <= i < entries.len(),
        entries[i].0@ == name,
        forall|j: int| i < j < entries.len() ==> entries[j].0@ != name,
    ensures
        found(entries, name) == Some(entries[i].1@),
    decreases entries.len(),
{
    if i < entries.len() - 1 {
        lemma_found_at(entries.drop_last(), i, name);
    }
}

impl View for Frame {
    type V = Map<Seq<char>, Datum>;

    closed spec fn view(&self) -> Map<Seq<char>, Datum> {
        Map::new(
            |name: Seq<char>| found(self.entries@, name) is Some,
            |name: Seq<char>| found(self.entries@, name)->0,
        )
    }
}

impl Frame {
    /// The frame that binds nothing.
    pub fn new() -> (r: Frame)
        ensures
            r@ == Map::<Seq<char>, Datum>::empty(),
    {
        let r = Frame { entries: Vec::new() };
        assert(r@ =~= Map::<Seq<char>, Datum>::empty());
        r
    }

    /// The index of the entry that counts for `name`.
    fn position(&self, name: &str) -> (r: Option<usize>)
        ensures
            match r {
                Some(i) => i < self.entries@.len() && self.entries@[i as int].0@ == name@
                    && found(self.entries@, name@) == Some(self.entries@[i as int].1@)
                    && forall|j: int|
                    i < j < self.entries@.len() ==> self.entries@[j].0@ != name@,
                None => found(self.entries@, name@) is None,
            },
    {
        let mut i: usize = self.entries.len();
        while i > 0
            invariant
                i <= self.entries@.len(),
                forall|j: int| i <= j < self.entries@.len() ==> self.entries@[j].0@ != name@,
            decreases i,
        {
            i = i - 1;
            if self.entries[i].0.as_str().eq(name) {
                proof {
                    lemma_found_at(self.entries@, i as int, name@);
                }
                return Some(i);
            }
        }
        proof {
            lemma_found_absent(self.entries@, name@);
        }
        None
    }

    /// The value bound to `name`, if the frame binds it.
    pub fn get(&self, name: &str) -> (r: Option<Value>)
        ensures
            match r {
                Some(v) => self@.contains_key(name@) && self@[name@] == v@,
                None => !self@.contains_key(name@),
            },
    {
        match self.position(name) {
            Some(i) => Some(self.entries[i].1.clone()),
            None => None,
        }
    }

    /// Binds `name` to `value`, in place of any earlier binding of the name.
    pub fn insert(&mut self, name: String, value: Value)
        ensures
            final(self)@ == old(self)@.insert(name@, value@),
    {
        let ghost before = self.entries@;
        let ghost entry = (name, value);
        match self.position(name.as_str()) {
            Some(i) => {
                self.entries.set(i, (name, value));
                assert forall|k: Seq<char>|
                    found(self.entries@, k) == if k == entry.0@ {
                        Some(entry.1@)
                    } else {
                        found(before, k)
                    } by {
                    lemma_found_update(before, i as int, entry, k);
                }
            },
            None => {
                self.entries.push((name, value));
                assert(self.entries@.drop_last() == before);
            },
        }
        assert(self@ =~= old(self)@.insert(entry.0@, entry.1@));
    }
}

/// A handle on one scope of a store.
#[derive(Debug, Clone, Copy, PartialEq, Eq, Structural)]
pub struct Env {
    pub id: usize,
}

/// One scope: its own bindings and the scope around it.
#[derive(Debug)]
struct Scope {
    frame: Frame,
    outer: Option<Env>,
}

/// The scopes of a program, each found by its handle.
#[derive(Debug)]
pub struct Store {
    scopes: Vec<Scope>,
}

/// The view of one scope: what it binds, and the index of the scope around
/// it.
pub struct Level {
    pub bindings: Map<Seq<char>, Datum>,
    pub outer: Option<usize>,
}

impl Scope {
    /// The view of the scope.
    spec fn level(self) -> Level {
        Level {
            bindings: self.frame@,
            outer: match self.outer {
                Some(e) => Some(e.id),
                None => None,
            },
        }
    }
}

impl View for Store {
    type V = Seq<Level>;

    closed spec fn view(&self) -> Seq<Level> {
        self.scopes@.map_values(|s: Scope| s.level())
    }
}

/// What `name` means in the scope `env`: the binding of the innermost scope
/// that binds it, searching from `env` outward. A handle that the store does
/// not hold binds nothing.
pub open spec fn lookup(store: Seq<Level>, env: usize, name: Seq<char>) -> Option<Datum>
    decreases env,
{
    if env >= store.len() {
        None
    } else if store[env as int].bindings.contains_key(name) {
        Some(store[env as int].bindings[name])
    } else {
        match store[env as int].outer {
            Some(outer) => if outer < env {
                lookup(store, outer, name)
            } else {
                None
            },
            None => None,
        }
    }
}

/// The store after `name` is bound to `value` in the scope `env` itself.
pub open spec fn define(store: Seq<Level>, env: usize, name: Seq<char>, value: Datum) -> Seq<
    Level,
> {
    if env < store.len() {
        store.update(
            env as int,
            Level {
                bindings: store[env as int].bindings.insert(name, value),
                outer: store[env as int].outer,
            },
        )
    } else {
        store
    }
}

/// The store with one more scope, which binds `frame` inside `parent`.
pub open spec fn extended(store: Seq<Level>, parent: usize, frame: Map<Seq<char>, Datum>) -> Seq<
    Level,
> {
    store.push(Level { bindings: frame, outer: Some(parent) })
}

/// Whether the scope `target` lies on the way outward from the scope `env`:
/// it is `env` itself or one of the scopes around it.
pub open spec fn on_chain(store: Seq<Level>, env: usize, target: usize) -> bool
    decreases env,
{
    env < store.len() && (env == target || match store[env as int].outer {
        Some(outer) => outer < env && on_chain(store, outer, target),
        None => false,
    })
}

/// Whether a binding of `name` in the scope `target` is what `name` means
/// in the scope `env`: `target` lies on the way outward from `env`, and no
/// scope before it on that way binds `name`.
pub open spec fn in_view(store: Seq<Level>, env: usize, target: usize, name: Seq<char>) -> bool
    decreases env,
{
    env < store.len() && (env == target || (!store[env as int].bindings.contains_key(name)
        && match store[env as int].outer {
        Some(outer) => outer < env && in_view(store, outer, target, name),
        None => false,
    }))
}

/// A binding made later in a scope that was in view is seen: after `name`
/// is bound in `target`, it means the new value in every scope that has
/// `target` on its way outward with no binding of `name` before it.
pub proof fn law_later_binding_is_seen(
    store: Seq<Level>,
    env: usize,
    target: usize,
    name: Seq<char>,
    value: Datum,
)
    requires
        in_view(store, env, target, name),
    ensures
        lookup(define(store, target, name, value), env, name) == Some(value),
    decreases env,
{
    if env != target {
        law_later_binding_is_seen(store, store[env as int].outer->0, target, name, value);
    }
}

/// A binding made in a scope that is not on the way outward is not seen:
/// after any name is bound in `target`, every name means in `env` what it
/// meant before, if `target` is neither `env` nor a scope around it.
pub proof fn law_binding_elsewhere_is_not_seen(
    store: Seq<Level>,
    env: usize,
    target: usize,
    bound: Seq<char>,
    value: Datum,
    name: Seq<char>,
)
    requires
        !on_chain(store, env, target),
    ensures
        lookup(define(store, target, bound, value), env, name) == lookup(store, env, name),
    decreases env,
{
    if env < store.len() {
        match store[env as int].outer {
            Some(outer) => {
                if outer < env {
                    law_binding_elsewhere_is_not_seen(store, outer, target, bound, value, name);
                }
            },
            None => {},
        }
    }
}

/// Binding one name leaves every other name as it was, in every scope.
pub proof fn law_binding_leaves_other_names(
    store: Seq<Level>,
    env: usize,
    target: usize,
    bound: Seq<char>,
    value: Datum,
    name: Seq<char>,
)
    requires
        name != bound,
    ensures
        lookup(define(store, target, bound, value), env, name) == lookup(store, env, name),
    decreases env,
{
    if env < store.len() {
        match store[env as int].outer {
            Some(outer) => {
                if outer < env {
                    law_binding_leaves_other_names(store, outer, target, bound, value, name);
                }
            },
            None => {},
        }
    }
}

/// A new scope changes nothing in the scopes that were there: every name
/// means in them what it meant before.
pub proof fn law_new_scope_disturbs_nothing(
    store: Seq<Level>,
    parent: usize,
    frame: Map<Seq<char>, Datum>,
    env: usize,
    name: Seq<char>,
)
    requires
        env < store.len(),
    ensures
        lookup(extended(store, parent, frame), env, name) == lookup(store, env, name),
    decreases env,
{
    match store[env as int].outer {
        Some(outer) => {
            if outer < env {
                law_new_scope_disturbs_nothing(store, parent, frame, outer, name);
            }
        },
        None => {},
    }
}

/// A new scope sees through to the scope it was made in: a name that it
/// does not bind itself means what it means in its parent.
pub proof fn law_new_scope_sees_its_parent(
    store: Seq<Level>,
    parent: usize,
    frame: Map<Seq<char>, Datum>,
    name: Seq<char>,
)
    requires
        store.len() < usize::MAX,
    ensures
        lookup(extended(store, parent, frame), store.len() as usize, name) == if frame.contains_key(
            name,
        ) {
            Some(frame[name])
        } else {
            lookup(store, parent, name)
        },
{
    if parent < store.len() {
        law_new_scope_disturbs_nothing(store, parent, frame, parent, name);
    }
}

/// The names that the root scope binds, each to its primitive; `nil` is
/// bound to the empty list.
pub open spec fn prelude_bindings() -> Map<Seq<char>, Datum> {
    Map::<Seq<char>, Datum>::empty().insert("nil"@, Datum::Nil).insert(
        "cons"@,
        Datum::Primitive(Primitive::Cons, false),
    ).insert("car"@, Datum::Primitive(Primitive::Car, false)).insert(
        "cdr"@,
        Datum::Primitive(Primitive::Cdr, false),
    ).insert("+"@, Datum::Primitive(Primitive::Add, false)).insert(
        "*"@,
        Datum::Primitive(Primitive::Mul, false),
    ).insert("-"@, Datum::Primitive(Primitive::Sub, false)).insert(
        "/"@,
        Datum::Primitive(Primitive::Div, false),
    ).insert("="@, Datum::Primitive(Primitive::Eq, false)).insert(
        "<"@,
        Datum::Primitive(Primitive::Lt, false),
    ).insert("<="@, Datum::Primitive(Primitive::Lte, false)).insert(
        "concat"@,
        Datum::Primitive(Primitive::Concat, false),
    )
}

impl Store {
    /// The store that holds no scope.
    pub fn new() -> (r: Store)
        ensures
            r@ == Seq::<Level>::empty(),
    {
        let r = Store { scopes: Vec::new() };
        assert(r@ =~= Seq::<Level>::empty());
        r
    }

    /// The number of scopes.
    pub fn len(&self) -> (r: usize)
        ensures
            r == self@.len(),
    {
        self.scopes.len()
    }

    /// Adds a scope and hands out its handle.
    fn open(&mut self, frame: Frame, outer: Option<Env>) -> (r: Env)
        ensures
            r.id == old(self)@.len(),
            final(self)@ == old(self)@.push(
                Level {
                    bindings: frame@,
                    outer: match outer {
                        Some(e) => Some(e.id),
                        None => None,
                    },
                },
            ),
    {
        let id = self.scopes.len();
        self.scopes.push(Scope { frame, outer });
        assert(self@ =~= old(self)@.push(
            Level {
                bindings: frame@,
                outer: match outer {
                    Some(e) => Some(e.id),
                    None => None,
                },
            },
        ));
        Env { id }
    }
}

impl Env {
    /// Makes the root scope in `store`: it binds the primitive operators
    /// and has no scope around it.
    pub fn prelude(store: &mut Store) -> (r: Env)
        ensures
            r.id == old(store)@.len(),
            final(store)@ == old(store)@.push(Level { bindings: prelude_bindings(), outer: None }),
    {
        let mut frame = Frame::new();
        frame.insert("nil".to_owned(), Value::Nil);
        frame.insert("cons".to_owned(), Value::primitive(Primitive::Cons));
        frame.insert("car".to_owned(), Value::primitive(Primitive::Car));
        frame.insert("cdr".to_owned(), Value::primitive(Primitive::Cdr));
        frame.insert("+".to_owned(), Value::primitive(Primitive::Add));
        frame.insert("*".to_owned(), Value::primitive(Primitive::Mul));
        frame.insert("-".to_owned(), Value::primitive(Primitive::Sub));
        frame.insert("/".to_owned(), Value::primitive(Primitive::Div));
        frame.insert("=".to_owned(), Value::primitive(Primitive::Eq));
        frame.insert("<".to_owned(), Value::primitive(Primitive::Lt));
        frame.insert("<=".to_owned(), Value::primitive(Primitive::Lte));
        frame.insert("concat".to_owned(), Value::primitive(Primitive::Concat));
        store.open(frame, None)
    }

    /// Makes a scope in `store` that binds `frame` and has this scope
    /// around it.
    pub fn extend(&self, frame: Frame, store: &mut Store) -> (r: Env)
        ensures
            r.id == old(store)@.len(),
            final(store)@ == extended(old(store)@, self.id, frame@),
    {
        store.open(frame, Some(*self))
    }

    /// Binds `sym` to `value` in this scope itself.
    pub fn set(&self, sym: String, value: Value, store: &mut Store)
        ensures
            final(store)@ == define(old(store)@, self.id, sym@, value@),
    {
        if self.id < store.scopes.len() {
            store.scopes[self.id].frame.insert(sym, value);
            assert(store@ =~= define(old(store)@, self.id, sym@, value@));
        }
    }

    /// What `sym` means in this scope, see [`lookup`].
    pub fn get(&self, sym: &str, store: &Store) -> (r: Option<Value>)
        ensures
            match r {
                Some(v) => lookup(store@, self.id, sym@) == Some(v@),
                None => lookup(store@, self.id, sym@) is None,
            },
    {
        let mut id: usize = self.id;
        loop
            invariant
                lookup(store@, id, sym@) == lookup(store@, self.id, sym@),
            decreases id,
        {
            if id >= store.scopes.len() {
                return None;
            }
            match store.scopes[id].frame.get(sym) {
                Some(v) => {
                    return Some(v);
                },
                None => {},
            }
            match store.scopes[id].outer {
                Some(outer) => {
                    if outer.id < id {
                        id = outer.id;
                    } else {
                        return None;
                    }
                },
                None => {
                    return None;
                },
            }
        }
    }
}

} // verus!
