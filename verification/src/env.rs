use vstd::prelude::*;
use crate::keyed::{entry_map, has_key, keys_unique, lemma_entry_map_lookup, lemma_set_entry, set_entry};
use crate::text::same_text;

verus! {

/// One environment variable handed to a workload.
#[derive(Clone, Debug)]
pub struct EnvVar {
    pub key: String,
    pub value: String,
}

impl View for EnvVar {
    type V = (Seq<char>, Seq<char>);

    open spec fn view(&self) -> (Seq<char>, Seq<char>) {
        (self.key@, self.value@)
    }
}

/// The environment variables of a workload: each key once, kept in the order first set.
pub struct EnvVars {
    vars: Vec<EnvVar>,
}

impl View for EnvVars {
    type V = Map<Seq<char>, Seq<char>>;

    /// The variables as a map from name to value.
    closed spec fn view(&self) -> Map<Seq<char>, Seq<char>> {
        entry_map(self.entries())
    }
}

impl EnvVars {
    /// The variables in their kept order.
    pub closed spec fn entries(&self) -> Seq<(Seq<char>, Seq<char>)> {
        self.vars@.map_values(|e: EnvVar| e@)
    }

    #[verifier::type_invariant]
    closed spec fn unique_keys(self) -> bool {
        keys_unique(self.vars@.map_values(|e: EnvVar| e@))
    }

    /// No variables.
    pub fn new() -> (r: Self)
        ensures
            r.entries() == Seq::<(Seq<char>, Seq<char>)>::empty(),
            r@ == Map::<Seq<char>, Seq<char>>::empty(),
    {
        let r = EnvVars { vars: Vec::new() };
        assert(r.entries() =~= Seq::<(Seq<char>, Seq<char>)>::empty());
        assert(r@ =~= Map::<Seq<char>, Seq<char>>::empty());
        r
    }

    /// Number of variables.
    pub fn len(&self) -> (n: usize)
        ensures
            n == self.entries().len(),
    {
        self.vars.len()
    }

    /// The variable at position `i` of the kept order.
    pub fn entry(&self, i: usize) -> (e: &EnvVar)
        requires
            i < self.entries().len(),
        ensures
            e@ == self.entries()[i as int],
    {
        &self.vars[i]
    }

    fn position(&self, key: &str) -> (r: Option<usize>)
        ensures
            r matches Some(i) ==> i < self.entries().len() && self.entries()[i as int].0 == key@,
            r is None ==> !has_key(self.entries(), key@),
    {
        let mut i: usize = 0;
        while i < self.vars.len()
            invariant
                i <= self.vars.len(),
                forall|j: int| 0 <= j < i ==> self.entries()[j].0 != key@,
            decreases self.vars.len() - i,
        {
            if same_text(self.vars[i].key.as_str(), key) {
                return Some(i);
            }
            i = i + 1;
        }
        None
    }

    /// The value of `key`, if set.
    pub fn get(&self, key: &str) -> (r: Option<&String>)
        ensures
            r is Some <==> self@.contains_key(key@),
            r matches Some(v) ==> v@ == self@[key@],
    {
        proof {
            use_type_invariant(self);
        }
        match self.position(key) {
            Some(i) => {
                proof {
                    lemma_entry_map_lookup(self.entries(), i as int);
                }
                Some(&self.vars[i].value)
            },
            None => None,
        }
    }

    /// Sets `key` to `value`, as `HashMap::insert` does.
    pub fn insert(&mut self, key: String, value: String)
        ensures
            final(self).entries() == set_entry(old(self).entries(), key@, value@),
            final(self)@ == old(self)@.insert(key@, value@),
    {
        proof {
            use_type_invariant(&*self);
            lemma_set_entry(self.entries(), key@, value@);
        }
        let ghost k = key@;
        let ghost v = value@;
        let ghost s = self.entries();
        match self.position(key.as_str()) {
            Some(i) => {
                let mut vars: Vec<EnvVar> = Vec::new();
                std::mem::swap(&mut vars, &mut self.vars);
                vars.set(i, EnvVar { key, value });
                assert(vars@.map_values(|e: EnvVar| e@) == set_entry(s, k, v));
                self.vars = vars;
            },
            None => {
                let mut vars: Vec<EnvVar> = Vec::new();
                std::mem::swap(&mut vars, &mut self.vars);
                vars.push(EnvVar { key, value });
                assert(vars@.map_values(|e: EnvVar| e@) == set_entry(s, k, v));
                self.vars = vars;
            },
        }
    }

    /// A copy of these variables.
    pub fn duplicate(&self) -> (r: Self)
        ensures
            r.entries() == self.entries(),
            r@ == self@,
    {
        proof {
            use_type_invariant(self);
        }
        let mut vars: Vec<EnvVar> = Vec::new();
        let mut i: usize = 0;
        while i < self.vars.len()
            invariant
                i <= self.vars.len(),
                vars@.map_values(|e: EnvVar| e@) == self.entries().take(i as int),
            decreases self.vars.len() - i,
        {
            let e = EnvVar { key: self.vars[i].key.clone(), value: self.vars[i].value.clone() };
            vars.push(e);
            assert(self.entries().take(i + 1) == self.entries().take(i as int).push(self.entries()[i as int]));
            assert(vars@.map_values(|e: EnvVar| e@) == self.entries().take(i + 1));
            i = i + 1;
        }
        assert(self.entries().take(self.vars.len() as int) == self.entries());
        EnvVars { vars }
    }
}

} // verus!
