//! A registry of departments and the employees assigned to each.
//!
//! Departments are kept in the order they were first added, each with the
//! employees assigned to it in the order they were added.
use crate::words::first_index_of;
use crate::words::lemma_first_index_of_is;
use vstd::prelude::*;

verus! {

/// A registry of departments, each with its employees.
pub struct Departments {
    names: Vec<String>,
    members: Vec<Vec<String>>,
}

impl Departments {
    /// The department names, in the order they were first added.
    pub closed spec fn spec_names(&self) -> Seq<Seq<char>> {
        self.names.deep_view()
    }

    /// The employees of each department, in the order they were added.
    pub closed spec fn spec_members(&self) -> Seq<Seq<Seq<char>>> {
        self.members.deep_view()
    }

    /// Every department has an employee list, and no name repeats.
    pub open spec fn wf(&self) -> bool {
        &&& self.spec_names().len() == self.spec_members().len()
        &&& forall|i: int, j: int|
            0 <= i < j < self.spec_names().len() ==> self.spec_names()[i] != self.spec_names()[j]
    }

    /// An empty registry.
    pub fn new() -> (d: Departments)
        ensures
            d.wf(),
            d.spec_names() == Seq::<Seq<char>>::empty(),
            d.spec_members() == Seq::<Seq<Seq<char>>>::empty(),
    {
        let d = Departments { names: Vec::new(), members: Vec::new() };
        proof {
            assert(d.spec_names() =~= Seq::<Seq<char>>::empty());
            assert(d.spec_members() =~= Seq::<Seq<Seq<char>>>::empty());
        }
        d
    }

    /// How many departments there are.
    pub fn department_count(&self) -> (n: usize)
        ensures
            n == self.spec_names().len(),
    {
        self.names.len()
    }

    /// The name of the department at the given position.
    pub fn department_at(&self, i: usize) -> (name: &String)
        requires
            i < self.spec_names().len(),
        ensures
            name@ == self.spec_names()[i as int],
    {
        &self.names[i]
    }

    /// The employees of the department at the given position.
    pub fn employees_at(&self, i: usize) -> (employees: &Vec<String>)
        requires
            self.wf(),
            i < self.spec_names().len(),
        ensures
            employees.deep_view() == self.spec_members()[i as int],
    {
        &self.members[i]
    }

    /// Assigns an employee to a department: to the department's existing
    /// list when the name is already registered, else to a new department
    /// added at the end.
    pub fn add_employee(&mut self, department: String, employee: String)
        requires
            old(self).wf(),
        ensures
            final(self).wf(),
            ({
                let found = first_index_of(old(self).spec_names(), department@);
                if found < old(self).spec_names().len() {
                    &&& final(self).spec_names() == old(self).spec_names()
                    &&& final(self).spec_members() == old(self).spec_members().update(
                        found,
                        old(self).spec_members()[found].push(employee@),
                    )
                } else {
                    &&& final(self).spec_names() == old(self).spec_names().push(department@)
                    &&& final(self).spec_members() == old(self).spec_members().push(
                        seq![employee@],
                    )
                }
            }),
    {
        let n = self.names.len();
        let ghost old_names = self.spec_names();
        let ghost old_members = self.spec_members();
        let mut i: usize = 0;
        while i < n
            invariant
                0 <= i <= n,
                n == self.spec_names().len(),
                self == old(self),
                old_names == self.spec_names(),
                old_members == self.spec_members(),
                old(self).wf(),
                forall|k: int| 0 <= k < i ==> old_names[k] != department@,
            decreases n - i,
        {
            if crate::words::str_eq(self.names[i].as_str(), department.as_str()) {
                proof {
                    lemma_first_index_of_is(old_names, department@, i as int);
                }
                let mut bucket = self.members.remove(i);
                let ghost old_bucket = bucket.deep_view();
                bucket.push(employee);
                proof {
                    assert(bucket.deep_view() =~= old_bucket.push(employee@));
                }
                self.members.insert(i, bucket);
                proof {
                    assert(self.spec_members() =~= old_members.update(
                        i as int,
                        old_members[i as int].push(employee@),
                    ));
                }
                return ;
            }
            i = i + 1;
        }
        proof {
            lemma_first_index_of_is(old_names, department@, n as int);
        }
        self.names.push(department);
        let mut bucket: Vec<String> = Vec::new();
        bucket.push(employee);
        self.members.push(bucket);
        proof {
            assert(bucket.deep_view() =~= seq![employee@]);
            assert(self.spec_names() =~= old_names.push(department@));
            assert(self.spec_members() =~= old_members.push(seq![employee@]));
        }
    }
}

} // verus!
