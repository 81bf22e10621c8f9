//! The lexical environment: the names that analysis can see, scope by
//! scope, and the addresses it gives them.

use vstd::prelude::*;

verus! {

/// The names of one scope, in the order of their slots.
pub type ScopeNames = Seq<Seq<char>>;

/// The slot of a name in a scope: the last one defined under that name.
pub open spec fn scope_find(scope: ScopeNames, name: Seq<char>) -> Option<nat>
    decreases scope.len(),
{
    if scope.len() == 0 {
        None
    } else if scope.last() == name {
        Some((scope.len() - 1) as nat)
    } else {
        scope_find(scope.drop_last(), name)
    }
}

/// The address of a name in a chain of scopes, innermost last: how many
/// scopes up the nearest scope that defines it lies, and its slot there.
pub open spec fn scopes_lookup(scopes: Seq<ScopeNames>, name: Seq<char>) -> Option<(nat, nat)>
    decreases scopes.len(),
{
    if scopes.len() == 0 {
        None
    } else {
        match scope_find(scopes.last(), name) {
            Some(j) => Some((0nat, j)),
            None => match scopes_lookup(scopes.drop_last(), name) {
                Some((d, j)) => Some((d + 1, j)),
                None => None,
            },
        }
    }
}

/// The scopes with one more name in the innermost.
pub open spec fn scopes_define(scopes: Seq<ScopeNames>, name: Seq<char>) -> Seq<ScopeNames>
    recommends
        scopes.len() > 0,
{
    scopes.drop_last().push(scopes.last().push(name))
}

/// A slot found in a scope lies in it and holds the name, and no later slot
/// does.
pub proof fn lemma_scope_find(scope: ScopeNames, name: Seq<char>)
    ensures
        match scope_find(scope, name) {
            Some(j) => j < scope.len() && scope[j as int] == name && forall|k: int|
                j < k < scope.len() ==> scope[k] != name,
            None => forall|k: int| 0 <= k < scope.len() ==> scope[k] != name,
        },
    decreases scope.len(),
{
    if scope.len() > 0 && scope.last() != name {
        let shorter = scope.drop_last();
        lemma_scope_find(shorter, name);
        assert(forall|k: int| 0 <= k < shorter.len() ==> shorter[k] == scope[k]);
    }
}

/// An address found in a chain of scopes lies in it.
pub proof fn lemma_scopes_lookup(scopes: Seq<ScopeNames>, name: Seq<char>)
    ensures
        match scopes_lookup(scopes, name) {
            Some((d, j)) => d < scopes.len() && j < scopes[scopes.len() - 1 - d].len()
                && scopes[scopes.len() - 1 - d][j as int] == name,
            None => true,
        },
    decreases scopes.len(),
{
    if scopes.len() > 0 {
        lemma_scope_find(scopes.last(), name);
        lemma_scopes_lookup(scopes.drop_last(), name);
    }
}

/// A name that was just defined is found in the innermost scope, at the
/// slot that it got.
pub proof fn lemma_lookup_defined(scopes: Seq<ScopeNames>, name: Seq<char>)
    requires
        scopes.len() > 0,
    ensures
        scopes_lookup(scopes_define(scopes, name), name) == Some((0nat, scopes.last().len())),
{
    let after = scopes_define(scopes, name);
    assert(after.last() == scopes.last().push(name));
    assert(after.last().last() == name);
}

/// Defining a name leaves the address of every other name as it is.
pub proof fn law_define_keeps_others(scopes: Seq<ScopeNames>, name: Seq<char>, other: Seq<char>)
    requires
        scopes.len() > 0,
        name != other,
    ensures
        scopes_lookup(scopes_define(scopes, name), other) == scopes_lookup(scopes, other),
{
    let after = scopes_define(scopes, name);
    assert(after.last() == scopes.last().push(name));
    assert(after.last().drop_last() =~= scopes.last());
    assert(after.drop_last() =~= scopes.drop_last());
}

/// The scopes that analysis resolves names against. The innermost scope is
/// the last one; the first one is the global scope.
pub struct Environment {
    scopes: Vec<Vec<String>>,
}

impl View for Environment {
    type V = Seq<ScopeNames>;

    closed spec fn view(&self) -> Seq<ScopeNames> {
        self.scopes@.map_values(|s: Vec<String>| s@.map_values(|n: String| n@))
    }
}

impl Environment {
    /// There is a global scope, and every address fits its 32 bits.
    pub open spec fn wf(&self) -> bool {
        &&& 1 <= self@.len() <= u32::MAX
        &&& forall|i: int| 0 <= i < self@.len() ==> (#[trigger] self@[i]).len() <= u32::MAX
    }

    /// An environment that holds the global scope, with no name in it.
    pub fn new() -> (env: Environment)
        ensures
            env.wf(),
            env@ == seq![Seq::<Seq<char>>::empty()],
    {
        let mut scopes: Vec<Vec<String>> = Vec::new();
        scopes.push(Vec::new());
        let env = Environment { scopes };
        assert(env@ =~= seq![Seq::<Seq<char>>::empty()]) by {
            assert(env@.len() == 1);
            assert(env@[0] =~= Seq::<Seq<char>>::empty());
        }
        env
    }

    /// How many scopes are open, the global one included.
    pub fn depth(&self) -> (d: usize)
        ensures
            d == self@.len(),
    {
        self.scopes.len()
    }

    /// How many names the innermost scope holds.
    pub fn innermost_len(&self) -> (n: usize)
        requires
            self.wf(),
        ensures
            n == self@.last().len(),
    {
        self.scopes[self.scopes.len() - 1].len()
    }

    fn find_in_scope(scope: &Vec<String>, name: &String) -> (r: Option<usize>)
        ensures
            match scope_find(scope@.map_values(|n: String| n@), name@) {
                Some(j) => r == Some(j as usize) && j < scope@.len(),
                None => r is None,
            },
    {
        let ghost names = scope@.map_values(|n: String| n@);
        let mut k: usize = scope.len();
        assert(names.subrange(0, k as int) =~= names);
        while k > 0
            invariant
                k <= scope.len(),
                names == scope@.map_values(|n: String| n@),
                scope_find(names, name@) == scope_find(names.subrange(0, k as int), name@),
            decreases k,
        {
            let ghost prefix = names.subrange(0, k as int);
            assert(prefix.last() == names[k - 1]);
            assert(prefix.drop_last() =~= names.subrange(0, k - 1));
            if scope[k - 1] == *name {
                return Some(k - 1);
            }
            k = k - 1;
        }
        assert(names.subrange(0, 0).len() == 0);
        None
    }

    /// The address of the name, if a scope defines it: how many scopes up
    /// from the innermost, and the slot.
    pub fn lookup(&self, name: &String) -> (r: Option<(u32, u32)>)
        requires
            self.wf(),
        ensures
            match scopes_lookup(self@, name@) {
                Some((d, j)) => r == Some((d as u32, j as u32)) && d <= u32::MAX && j <= u32::MAX,
                None => r is None,
            },
    {
        let n = self.scopes.len();
        let mut up: usize = 0;
        assert(self@.subrange(0, n as int) =~= self@);
        while up < n
            invariant
                self.wf(),
                n == self.scopes.len(),
                n == self@.len(),
                up <= n,
                match scopes_lookup(self@.subrange(0, n - up), name@) {
                    Some((d, j)) => scopes_lookup(self@, name@) == Some(((d + up) as nat, j)),
                    None => scopes_lookup(self@, name@) is None,
                },
            decreases n - up,
        {
            let ghost prefix = self@.subrange(0, n - up);
            assert(prefix.last() == self@[n - up - 1]);
            assert(prefix.drop_last() =~= self@.subrange(0, n - up - 1));
            let scope = &self.scopes[n - up - 1];
            assert(scope@.map_values(|n: String| n@) == self@[n - up - 1]);
            match Self::find_in_scope(scope, name) {
                Some(j) => {
                    proof {
                        lemma_scopes_lookup(self@, name@);
                    }
                    return Some((up as u32, j as u32));
                },
                None => {},
            }
            up = up + 1;
        }
        assert(self@.subrange(0, 0).len() == 0);
        None
    }

    /// Give the name a fresh slot in the innermost scope and return its
    /// address. A scope that is full is left as it is.
    pub fn define(&mut self, name: String) -> (r: Option<(u32, u32)>)
        requires
            old(self).wf(),
        ensures
            final(self).wf(),
            old(self)@.last().len() < u32::MAX ==> r == Some((0u32, old(self)@.last().len() as u32))
                && final(self)@ == scopes_define(old(self)@, name@),
            old(self)@.last().len() >= u32::MAX ==> r is None && final(self)@ == old(self)@,
    {
        let last = self.scopes.len() - 1;
        let n = self.scopes[last].len();
        if n >= u32::MAX as usize {
            return None;
        }
        let ghost before = self@;
        let mut scope = self.scopes.pop().unwrap();
        scope.push(name);
        self.scopes.push(scope);
        proof {
            assert(self@ =~= scopes_define(before, name@)) by {
                assert(self@.len() == before.len());
                assert forall|i: int| 0 <= i < before.len() implies self@[i] =~= scopes_define(
                    before,
                    name@,
                )[i] by {}
            }
        }
        Some((0, n as u32))
    }

    /// Open a scope inside the innermost one, with the given names in it.
    /// Returns false, and opens nothing, where an address into the new scope
    /// or out of it would not fit.
    pub fn push_scope(&mut self, names: Vec<String>) -> (ok: bool)
        requires
            old(self).wf(),
        ensures
            final(self).wf(),
            ok == (old(self)@.len() < u32::MAX && names@.len() <= u32::MAX),
            ok ==> final(self)@ == old(self)@.push(names@.map_values(|n: String| n@)),
            !ok ==> final(self)@ == old(self)@,
    {
        if self.scopes.len() >= u32::MAX as usize || names.len() > u32::MAX as usize {
            return false;
        }
        let ghost before = self@;
        let ghost pushed = names@.map_values(|n: String| n@);
        self.scopes.push(names);
        proof {
            assert(self@ =~= before.push(pushed));
        }
        true
    }

    /// Close the innermost scope. The global scope stays.
    pub fn pop_scope(&mut self)
        requires
            old(self).wf(),
        ensures
            final(self).wf(),
            old(self)@.len() > 1 ==> final(self)@ == old(self)@.drop_last(),
            old(self)@.len() <= 1 ==> final(self)@ == old(self)@,
    {
        if self.scopes.len() > 1 {
            let ghost before = self@;
            self.scopes.pop();
            proof {
                assert(self@ =~= before.drop_last());
            }
        }
    }
}

} // verus!
