use vstd::prelude::*;

use crate::object::{Env, Object, Scope, Value};

verus! {

/// The value bound to `name` in one scope: the earliest binding.
pub open spec fn scope_get(s: Scope, name: Seq<char>) -> Option<Value>
    decreases s.len(),
{
    if s.len() == 0 {
        None
    } else if s[0].0 == name {
        Some(s[0].1)
    } else {
        scope_get(s.drop_first(), name)
    }
}

/// The value of `name` in a chain of scopes: the innermost scope that binds it wins.
pub open spec fn env_get(e: Env, name: Seq<char>) -> Option<Value>
    decreases e.len(),
{
    if e.len() == 0 {
        None
    } else {
        match scope_get(e[0], name) {
            Some(v) => Some(v),
            None => env_get(e.drop_first(), name),
        }
    }
}

/// Binds `name` in the innermost scope, or `None` if that scope already binds it.
pub open spec fn env_set(e: Env, name: Seq<char>, v: Value) -> Option<Env> {
    if e.len() == 0 {
        Some(seq![seq![(name, v)]])
    } else if scope_get(e[0], name) is Some {
        None
    } else {
        Some(e.update(0, e[0].push((name, v))))
    }
}

/// The models of a list of bindings.
pub open spec fn bindings_model(bs: Seq<(String, Object)>) -> Scope
    decreases bs,
{
    if bs.len() == 0 {
        seq![]
    } else {
        bindings_model(bs.drop_last()).push((bs.last().0@, bs.last().1.model()))
    }
}

/// Names bound to objects, with an optional enclosing environment.
#[derive(Debug)]
pub struct Environment {
    pub store: Vec<(String, Object)>,
    pub outer: Option<Box<Environment>>,
}

proof fn lemma_bindings_model_push(bs: Seq<(String, Object)>, b: (String, Object))
    ensures
        bindings_model(bs.push(b)) == bindings_model(bs).push((b.0@, b.1.model())),
{
    assert(bs.push(b).drop_last() =~= bs);
}

pub proof fn lemma_bindings_model_index(bs: Seq<(String, Object)>, i: int)
    requires
        0 <= i < bs.len(),
    ensures
        bindings_model(bs).len() == bs.len(),
        bindings_model(bs)[i] == (bs[i].0@, bs[i].1.model()),
    decreases bs.len(),
{
    if i < bs.len() - 1 {
        lemma_bindings_model_index(bs.drop_last(), i);
    } else {
        lemma_bindings_model_len(bs.drop_last());
    }
}

pub proof fn lemma_bindings_model_len(bs: Seq<(String, Object)>)
    ensures
        bindings_model(bs).len() == bs.len(),
    decreases bs.len(),
{
    if bs.len() > 0 {
        lemma_bindings_model_len(bs.drop_last());
    }
}

/// Looking a name up in bindings from position `i` on is looking it up in the
/// bindings from `i` on.
proof fn lemma_scope_get_suffix(s: Scope, i: int, name: Seq<char>)
    requires
        0 <= i < s.len(),
        s[i].0 != name,
    ensures
        scope_get(s.subrange(i, s.len() as int), name) == scope_get(
            s.subrange(i + 1, s.len() as int),
            name,
        ),
{
    assert(s.subrange(i, s.len() as int).drop_first() =~= s.subrange(i + 1, s.len() as int));
}

impl Default for Environment {
    fn default() -> (r: Environment)
        ensures
            r.model() == seq![Seq::<(Seq<char>, Value)>::empty()],
    {
        Environment::empty()
    }
}

impl Environment {
    /// The chain of scopes, this one first.
    pub open spec fn model(&self) -> Env
        decreases self,
    {
        seq![bindings_model(self.store@)] + match self.outer {
            Some(o) => o.model(),
            None => seq![],
        }
    }

    pub fn new(store: Vec<(String, Object)>, outer: Option<Box<Environment>>) -> (r: Environment)
        ensures
            r.model() == seq![bindings_model(store@)] + match outer {
                Some(o) => o.model(),
                None => Seq::<Scope>::empty(),
            },
    {
        Environment { store, outer }
    }

    /// An environment with one empty scope and nothing around it.
    pub fn empty() -> (r: Environment)
        ensures
            r.model() == seq![Seq::<(Seq<char>, Value)>::empty()],
    {
        let r = Environment { store: Vec::new(), outer: None };
        assert(bindings_model(r.store@) =~= Seq::<(Seq<char>, Value)>::empty());
        assert(r.model() =~= seq![Seq::<(Seq<char>, Value)>::empty()]);
        r
    }

    /// A fresh empty scope inside `outer`.
    pub fn new_enclosed(outer: Environment) -> (r: Environment)
        ensures
            r.model() == seq![Seq::<(Seq<char>, Value)>::empty()] + outer.model(),
    {
        let r = Environment { store: Vec::new(), outer: Some(Box::new(outer)) };
        assert(bindings_model(r.store@) =~= Seq::<(Seq<char>, Value)>::empty());
        r
    }

    pub fn store(&self) -> (r: &Vec<(String, Object)>)
        ensures
            bindings_model(r@) == self.model()[0],
    {
        &self.store
    }

    pub fn outer(&self) -> (r: Option<&Environment>)
        ensures
            match r {
                Some(o) => self.model() == seq![self.model()[0]] + o.model(),
                None => self.model() == seq![self.model()[0]],
            },
    {
        match &self.outer {
            Some(o) => {
                assert(self.model() =~= seq![self.model()[0]] + o.model());
                Some(&**o)
            },
            None => {
                assert(self.model() =~= seq![self.model()[0]]);
                None
            },
        }
    }

    /// A copy of this environment.
    pub fn duplicate(&self) -> (r: Environment)
        ensures
            r.model() == self.model(),
        decreases self,
    {
        let mut store: Vec<(String, Object)> = Vec::new();
        let mut i: usize = 0;
        while i < self.store.len()
            invariant
                i <= self.store@.len(),
                bindings_model(store@) == bindings_model(self.store@.subrange(0, i as int)),
            decreases self.store@.len() - i,
        {
            proof {
                assert(decreases_to!(self => self.store));
                assert(decreases_to!(self.store => self.store@));
                assert(decreases_to!(self.store@ => self.store@[i as int]));
                assert(decreases_to!(self.store@[i as int] => self.store@[i as int].1));
            }
            let value = self.store[i].1.duplicate();
            let b = (self.store[i].0.clone(), value);
            let ghost before = store@;
            store.push(b);
            i = i + 1;
            proof {
                lemma_bindings_model_push(before, b);
                assert(self.store@.subrange(0, i as int).drop_last() =~= self.store@.subrange(
                    0,
                    i - 1,
                ));
            }
        }
        assert(self.store@.subrange(0, self.store@.len() as int) =~= self.store@);
        let outer = match &self.outer {
            Some(o) => Some(Box::new(o.duplicate())),
            None => None,
        };
        Environment { store, outer }
    }

    /// The value bound to `name`, looked up from this scope outwards.
    pub fn get(&self, name: &str) -> (r: Option<&Object>)
        ensures
            match r {
                Some(o) => env_get(self.model(), name@) == Some(o.model()),
                None => env_get(self.model(), name@) is None,
            },
        decreases self,
    {
        let key = String::from_str(name);
        let ghost s = bindings_model(self.store@);
        proof {
            lemma_bindings_model_len(self.store@);
            assert(s.subrange(0, s.len() as int) =~= s);
        }
        let mut i: usize = 0;
        while i < self.store.len()
            invariant
                key@ == name@,
                i <= self.store@.len(),
                s == bindings_model(self.store@),
                s.len() == self.store@.len(),
                scope_get(s, name@) == scope_get(s.subrange(i as int, s.len() as int), name@),
            decreases self.store@.len() - i,
        {
            proof {
                lemma_bindings_model_index(self.store@, i as int);
            }
            if self.store[i].0 == key {
                assert(s.subrange(i as int, s.len() as int)[0] == s[i as int]);
                assert(self.model()[0] == s);
                return Some(&self.store[i].1);
            }
            proof {
                lemma_scope_get_suffix(s, i as int, name@);
            }
            i = i + 1;
        }
        assert(s.subrange(i as int, s.len() as int).len() == 0);
        assert(self.model()[0] == s);
        assert(scope_get(self.model()[0], name@) is None);
        match &self.outer {
            Some(o) => {
                assert(self.model().drop_first() =~= o.model());
                o.get(name)
            },
            None => {
                assert(self.model().drop_first().len() == 0);
                None
            },
        }
    }

    /// Binds `name` to `value` in this scope. Returns `false`, and changes nothing,
    /// if this scope already binds `name`.
    pub fn set(&mut self, name: String, value: Object) -> (r: bool)
        ensures
            match env_set(old(self).model(), name@, value.model()) {
                Some(e) => r && final(self).model() == e,
                None => !r && final(self).model() == old(self).model(),
            },
    {
        let ghost s = bindings_model(self.store@);
        proof {
            lemma_bindings_model_len(self.store@);
            assert(s.subrange(0, s.len() as int) =~= s);
        }
        let mut i: usize = 0;
        while i < self.store.len()
            invariant
                i <= self.store@.len(),
                s == bindings_model(self.store@),
                s.len() == self.store@.len(),
                scope_get(s, name@) == scope_get(s.subrange(i as int, s.len() as int), name@),
            decreases self.store@.len() - i,
        {
            proof {
                lemma_bindings_model_index(self.store@, i as int);
            }
            if self.store[i].0 == name {
                assert(s.subrange(i as int, s.len() as int)[0] == s[i as int]);
                assert(old(self).model()[0] == s);
                return false;
            }
            proof {
                lemma_scope_get_suffix(s, i as int, name@);
            }
            i = i + 1;
        }
        assert(s.subrange(i as int, s.len() as int).len() == 0);
        let ghost b = (name, value);
        let ghost name_view = name@;
        let ghost value_model = value.model();
        self.store.push((name, value));
        proof {
            lemma_bindings_model_push(old(self).store@, b);
            assert(final(self).model() =~= old(self).model().update(
                0,
                old(self).model()[0].push((name_view, value_model)),
            ));
        }
        true
    }
}

} // verus!
