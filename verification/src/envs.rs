//! The environment of the payload.

use vstd::prelude::*;

verus! {

/// Environment variables, each name at most once.
#[derive(Debug, PartialEq, Eq)]
pub struct Envs {
    vars: Vec<(String, String)>,
}

/// Whether a list of variables has one of this name.
pub closed spec fn lists(vars: Seq<(String, String)>, name: Seq<char>) -> bool {
    exists|i: int| 0 <= i < vars.len() && (#[trigger] vars[i]).0@ == name
}

/// The variables of a list that has each name at most once.
pub closed spec fn as_map(vars: Seq<(String, String)>) -> Map<Seq<char>, Seq<char>> {
    Map::new(
        |name: Seq<char>| lists(vars, name),
        |name: Seq<char>|
            vars[choose|i: int| 0 <= i < vars.len() && (#[trigger] vars[i]).0@ == name].1@,
    )
}

/// No two variables of a list have the same name.
pub open spec fn distinct_names(vars: Seq<(String, String)>) -> bool {
    forall|i: int, j: int|
        0 <= i < j < vars.len() ==> (#[trigger] vars[i]).0@ != (#[trigger] vars[j]).0@
}

impl View for Envs {
    type V = Map<Seq<char>, Seq<char>>;

    closed spec fn view(&self) -> Map<Seq<char>, Seq<char>> {
        as_map(self.vars@)
    }
}

/// Each entry of a list is in the map, and the map has no other name.
proof fn lemma_as_map(vars: Seq<(String, String)>)
    requires
        distinct_names(vars),
    ensures
        forall|i: int|
            0 <= i < vars.len() ==> as_map(vars).contains_key((#[trigger] vars[i]).0@) && as_map(
                vars,
            )[vars[i].0@] == vars[i].1@,
        forall|name: Seq<char>| #[trigger]
            as_map(vars).contains_key(name) ==> exists|i: int|
                0 <= i < vars.len() && (#[trigger] vars[i]).0@ == name,
{
    assert forall|i: int| 0 <= i < vars.len() implies as_map(vars).contains_key(
        (#[trigger] vars[i]).0@,
    ) && as_map(vars)[vars[i].0@] == vars[i].1@ by {
        assert(lists(vars, vars[i].0@));
        let j = choose|j: int| 0 <= j < vars.len() && (#[trigger] vars[j]).0@ == vars[i].0@;
        assert(vars[j].0@ == vars[i].0@);
        assert(i == j);
    }
}

impl Envs {
    #[verifier::type_invariant]
    spec fn inv(self) -> bool {
        distinct_names(self.vars@)
    }

    /// No variables.
    pub fn new() -> (envs: Envs)
        ensures
            envs@ == Map::<Seq<char>, Seq<char>>::empty(),
    {
        let envs = Envs { vars: Vec::new() };
        assert(envs@ =~= Map::<Seq<char>, Seq<char>>::empty());
        envs
    }

    /// The variables, in no particular order.
    pub fn vars(&self) -> (vars: &Vec<(String, String)>)
        ensures
            distinct_names(vars@),
            forall|i: int|
                0 <= i < vars@.len() ==> self@.contains_key((#[trigger] vars@[i]).0@)
                    && self@[vars@[i].0@] == vars@[i].1@,
            forall|name: Seq<char>| #[trigger]
                self@.contains_key(name) ==> exists|i: int|
                    0 <= i < vars@.len() && (#[trigger] vars@[i]).0@ == name,
    {
        proof {
            use_type_invariant(self);
            lemma_as_map(self.vars@);
        }
        &self.vars
    }

    /// Where the variable of this name stands.
    fn position(&self, name: &String) -> (position: Option<usize>)
        ensures
            match position {
                Some(i) => i < self.vars@.len() && self.vars@[i as int].0@ == name@,
                None => !lists(self.vars@, name@),
            },
    {
        let mut i: usize = 0;
        while i < self.vars.len()
            invariant
                i <= self.vars@.len(),
                forall|j: int| 0 <= j < i ==> (#[trigger] self.vars@[j]).0@ != name@,
            decreases self.vars@.len() - i,
        {
            if self.vars[i].0 == *name {
                return Some(i);
            }
            i += 1;
        }
        None
    }

    /// Whether there is a variable of this name.
    pub fn contains_key(&self, name: &str) -> (b: bool)
        ensures
            b == self@.contains_key(name@),
    {
        let name: String = name.to_owned();
        self.position(&name).is_some()
    }

    /// The value of the variable of this name.
    pub fn get(&self, name: &str) -> (value: Option<&String>)
        ensures
            match value {
                Some(value) => self@.contains_key(name@) && value@ == self@[name@],
                None => !self@.contains_key(name@),
            },
    {
        proof {
            use_type_invariant(self);
            lemma_as_map(self.vars@);
        }
        let name: String = name.to_owned();
        match self.position(&name) {
            Some(i) => Some(&self.vars[i].1),
            None => None,
        }
    }

    /// Gives a variable a value, in place of the one that it had.
    pub fn insert(&mut self, name: String, value: String)
        ensures
            final(self)@ == old(self)@.insert(name@, value@),
    {
        proof {
            use_type_invariant(&*self);
        }
        let ghost before = self.vars@;
        let position = self.position(&name);
        let mut vars: Vec<(String, String)> = Vec::new();
        std::mem::swap(&mut vars, &mut self.vars);
        let ghost entry = (name, value);
        match position {
            Some(i) => {
                vars.set(i, (name, value));
                assert(vars@ == before.update(i as int, entry));
            },
            None => {
                vars.push((name, value));
                assert(vars@ == before.push(entry));
                assert forall|j: int| 0 <= j < before.len() implies (#[trigger] before[j]).0@
                    != name@ by {
                    assert(!lists(before, name@));
                }
            },
        }
        assert(distinct_names(vars@));
        proof {
            lemma_as_map(before);
            lemma_as_map(vars@);
            let after = as_map(vars@);
            let expected = as_map(before).insert(name@, value@);
            let k: int = match position {
                Some(i) => i as int,
                None => before.len() as int,
            };
            assert(vars@[k] == entry);
            assert forall|key: Seq<char>|
                #![trigger after.dom().contains(key)]
                #![trigger expected.dom().contains(key)]
                after.dom().contains(key) == expected.dom().contains(key) && (
                after.dom().contains(key) ==> after[key] == expected[key]) by {
                if key == name@ {
                    assert(after.contains_key(vars@[k].0@));
                } else {
                    if after.contains_key(key) {
                        let i = choose|i: int|
                            0 <= i < vars@.len() && (#[trigger] vars@[i]).0@ == key;
                        assert(i != k);
                        assert(before[i] == vars@[i]);
                    }
                    if expected.contains_key(key) {
                        let i = choose|i: int|
                            0 <= i < before.len() && (#[trigger] before[i]).0@ == key;
                        assert(i != k);
                        assert(before[i] == vars@[i]);
                    }
                }
            }
            assert(after =~= expected);
        }
        self.vars = vars;
    }

    /// The same variables again.
    pub fn copy(&self) -> (envs: Envs)
        ensures
            envs@ == self@,
    {
        proof {
            use_type_invariant(self);
        }
        let mut vars: Vec<(String, String)> = Vec::new();
        let mut i: usize = 0;
        while i < self.vars.len()
            invariant
                i <= self.vars@.len(),
                vars@ == self.vars@.take(i as int),
            decreases self.vars@.len() - i,
        {
            vars.push((self.vars[i].0.clone(), self.vars[i].1.clone()));
            assert(vars@ == self.vars@.take(i + 1));
            i += 1;
        }
        assert(vars@ == self.vars@);
        Envs { vars }
    }
}

} // verus!
