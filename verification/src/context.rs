//! The variable context: an ordered mapping from variable names to values.
//! Later insertions overwrite earlier ones with the same key, so explicit
//! values override configured defaults.

use vstd::prelude::*;

use crate::text::{chars_to_string, copy_chars, str_to_chars};

verus! {

/// One name/value pair of the context.
pub struct Binding {
    pub key: Vec<char>,
    pub value: Vec<char>,
}

/// The ordered variable mapping handed to the renderer.
pub struct VarContext {
    pub bindings: Vec<Binding>,
}

/// The mapping that an ordered run of bindings denotes: later bindings win.
pub open spec fn map_of(bs: Seq<Binding>) -> Map<Seq<char>, Seq<char>>
    decreases bs.len(),
{
    if bs.len() == 0 {
        Map::empty()
    } else {
        map_of(bs.drop_last()).insert(bs.last().key@, bs.last().value@)
    }
}

impl View for VarContext {
    type V = Map<Seq<char>, Seq<char>>;

    open spec fn view(&self) -> Map<Seq<char>, Seq<char>> {
        map_of(self.bindings@)
    }
}

impl VarContext {
    /// An empty context.
    pub fn new() -> (r: Self)
        ensures
            r@ == Map::<Seq<char>, Seq<char>>::empty(),
    {
        VarContext { bindings: Vec::new() }
    }

    /// Binds `key` to `value`, overwriting any earlier binding of `key`.
    pub fn insert_chars(&mut self, key: Vec<char>, value: Vec<char>)
        ensures
            final(self)@ == old(self)@.insert(key@, value@),
    {
        let ghost pre = self.bindings@;
        self.bindings.push(Binding { key, value });
        proof {
            assert(self.bindings@.drop_last() =~= pre);
        }
    }

    /// Binds `key` to `value`, overwriting any earlier binding of `key`.
    pub fn insert(&mut self, key: &str, value: &str)
        ensures
            final(self)@ == old(self)@.insert(key@, value@),
    {
        self.insert_chars(str_to_chars(key), str_to_chars(value))
    }

    /// The value bound to `name`, if any; the latest binding wins.
    pub fn get(&self, name: &Vec<char>) -> (r: Option<Vec<char>>)
        ensures
            match r {
                Some(v) => self@.contains_key(name@) && v@ == self@[name@],
                None => !self@.contains_key(name@),
            },
    {
        let mut i: usize = self.bindings.len();
        proof {
            assert(self.bindings@.subrange(0, self.bindings@.len() as int) =~= self.bindings@);
        }
        while i > 0
            invariant
                i <= self.bindings@.len(),
                map_of(self.bindings@).contains_key(name@) == map_of(
                    self.bindings@.subrange(0, i as int),
                ).contains_key(name@),
                map_of(self.bindings@).contains_key(name@) ==> map_of(self.bindings@)[name@]
                    == map_of(self.bindings@.subrange(0, i as int))[name@],
            decreases i,
        {
            let ghost cur = self.bindings@.subrange(0, i as int);
            proof {
                assert(cur.drop_last() =~= self.bindings@.subrange(0, i - 1));
                assert(cur.last() == self.bindings@[i - 1]);
            }
            if crate::text::chars_eq(&self.bindings[i - 1].key, name) {
                return Some(copy_chars(&self.bindings[i - 1].value));
            }
            i -= 1;
        }
        proof {
            assert(self.bindings@.subrange(0, 0) =~= Seq::<Binding>::empty());
        }
        None
    }

    /// The value bound to a name given as a string slice.
    pub fn get_str(&self, name: &str) -> (r: Option<String>)
        ensures
            match r {
                Some(v) => self@.contains_key(name@) && v@ == self@[name@],
                None => !self@.contains_key(name@),
            },
    {
        let name_chars = str_to_chars(name);
        match self.get(&name_chars) {
            Some(v) => Some(chars_to_string(&v)),
            None => None,
        }
    }
}

impl VarContext {
    /// A copy of the context, with the same bindings.
    pub fn duplicate(&self) -> (r: Self)
        ensures
            r@ == self@,
    {
        let mut r = VarContext::new();
        insert_default_data(self, &mut r);
        proof {
            assert(r@ =~= self@);
        }
        r
    }
}

/// Folds every binding of `defaults` into `data`: an existing binding of the
/// same name in `data` is overwritten by the default.
pub fn insert_default_data(defaults: &VarContext, data: &mut VarContext)
    ensures
        final(data)@ == old(data)@.union_prefer_right(defaults@),
{
    let mut i: usize = 0;
    proof {
        assert(defaults.bindings@.subrange(0, 0) =~= Seq::<Binding>::empty());
        assert(data@ =~= data@.union_prefer_right(map_of(defaults.bindings@.subrange(0, 0))));
    }
    while i < defaults.bindings.len()
        invariant
            i <= defaults.bindings@.len(),
            data@ == old(data)@.union_prefer_right(map_of(defaults.bindings@.subrange(0, i as int))),
        decreases defaults.bindings@.len() - i,
    {
        let key = copy_chars(&defaults.bindings[i].key);
        let value = copy_chars(&defaults.bindings[i].value);
        data.insert_chars(key, value);
        proof {
            let next = defaults.bindings@.subrange(0, i + 1);
            assert(next.drop_last() =~= defaults.bindings@.subrange(0, i as int));
            assert(next.last() == defaults.bindings@[i as int]);
            assert(data@ =~= old(data)@.union_prefer_right(map_of(next)));
        }
        i += 1;
    }
    proof {
        assert(defaults.bindings@.subrange(0, defaults.bindings@.len() as int)
            =~= defaults.bindings@);
    }
}

} // verus!
