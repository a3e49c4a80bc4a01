//! The procedure registry: an append-only collection of uniquely named test
//! cases, kept in registration order.

use vstd::prelude::*;

verus! {

/// A named procedure, with the flag that says whether it is expected to
/// terminate abnormally.
pub struct TestCase<P> {
    pub name: String,
    pub procedure: P,
    pub expect_abnormal_termination: bool,
}

/// Refers to a registered test case by its place in registration order.
#[derive(Debug, Clone, Copy, PartialEq, Eq)]
pub struct TestCaseHandle {
    pub index: usize,
}

/// A registration was refused because the name was already taken.
#[derive(Debug)]
pub struct DuplicateNameError {
    pub name: String,
}

/// The registered test cases, in registration order.
pub struct Registry<P> {
    cases: Vec<TestCase<P>>,
}

impl<P> Registry<P> {
    /// The registered cases, in registration order.
    pub closed spec fn cases(&self) -> Seq<TestCase<P>> {
        self.cases@
    }

    /// The names of the registered cases, in registration order.
    pub open spec fn names(&self) -> Seq<Seq<char>> {
        self.cases().map_values(|c: TestCase<P>| c.name@)
    }

    /// No two registered cases share a name.
    pub open spec fn wf(&self) -> bool {
        self.names().no_duplicates()
    }

    /// A registry without cases.
    pub fn new() -> (registry: Self)
        ensures
            registry.cases() == Seq::<TestCase<P>>::empty(),
            registry.wf(),
    {
        Registry { cases: Vec::new() }
    }

    /// The number of registered cases.
    pub fn len(&self) -> (n: usize)
        ensures
            n == self.cases().len(),
    {
        self.cases.len()
    }

    /// Whether a case named `name` is registered.
    pub fn contains(&self, name: &String) -> (found: bool)
        ensures
            found == self.names().contains(name@),
    {
        let mut i: usize = 0;
        while i < self.cases.len()
            invariant
                i <= self.cases.len(),
                forall|j: int| 0 <= j < i ==> self.names()[j] != name@,
            decreases self.cases.len() - i,
        {
            if self.cases[i].name == *name {
                assert(self.names()[i as int] == name@);
                return true;
            }
            i += 1;
        }
        false
    }

    /// Registers `procedure` under `name`, behind the cases registered so far.
    /// A name that is already taken is refused, and the registry stays as it
    /// was.
    pub fn register(&mut self, name: String, procedure: P, expect_abnormal_termination: bool) -> (result:
        Result<TestCaseHandle, DuplicateNameError>)
        requires
            old(self).wf(),
        ensures
            final(self).wf(),
            final(self).names().contains(name@),
            old(self).names().contains(name@) <==> result is Err,
            match result {
                Ok(handle) => handle.index == old(self).cases().len() && final(self).cases()
                    == old(self).cases().push(
                    TestCase { name, procedure, expect_abnormal_termination },
                ),
                Err(error) => error.name == name && *final(self) == *old(self),
            },
    {
        if self.contains(&name) {
            return Err(DuplicateNameError { name });
        }
        let index = self.cases.len();
        let ghost before = self.names();
        self.cases.push(TestCase { name, procedure, expect_abnormal_termination });
        proof {
            assert(self.names() =~= before.push(name@));
            assert(self.names()[index as int] == name@);
        }
        Ok(TestCaseHandle { index })
    }

    /// The registered cases, in registration order. The sequence can be
    /// walked any number of times.
    pub fn all(&self) -> (cases: &Vec<TestCase<P>>)
        ensures
            cases@ == self.cases(),
    {
        &self.cases
    }

    /// The case that `handle` refers to, if it is one of this registry.
    pub fn get(&self, handle: TestCaseHandle) -> (case: Option<&TestCase<P>>)
        ensures
            handle.index < self.cases().len() ==> case == Some(&self.cases()[handle.index as int]),
            handle.index >= self.cases().len() ==> case is None,
    {
        if handle.index < self.cases.len() {
            Some(&self.cases[handle.index])
        } else {
            None
        }
    }

    /// The names of the registered cases, in registration order.
    pub fn case_names(&self) -> (names: Vec<String>)
        ensures
            names@.map_values(|n: String| n@) == self.names(),
    {
        let mut names: Vec<String> = Vec::new();
        let mut i: usize = 0;
        while i < self.cases.len()
            invariant
                i <= self.cases.len(),
                names.len() == i,
                forall|j: int| 0 <= j < i ==> (#[trigger] names[j])@ == self.cases[j].name@,
            decreases self.cases.len() - i,
        {
            names.push(self.cases[i].name.clone());
            i += 1;
        }
        names
    }
}

} // verus!
