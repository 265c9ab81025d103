//! The player registry: the set of service names currently known to
//! belong to media players. Its model is the mathematical set of the
//! names' character sequences; the concrete state is a duplicate-free
//! vector, so enumeration is stable.

use vstd::prelude::*;

verus! {

/// A set of service-name strings. Duplicates are impossible; order
/// carries no meaning but enumeration is stable between mutations.
pub struct Registry {
    names: Vec<String>,
}

impl View for Registry {
    type V = Set<Seq<char>>;

    closed spec fn view(&self) -> Set<Seq<char>> {
        self.names.deep_view().to_set()
    }
}

impl Registry {
    /// The stable enumeration behind the set: each member appears
    /// exactly once, in insertion order.
    pub closed spec fn enumeration(&self) -> Seq<Seq<char>> {
        self.names.deep_view()
    }

    /// Well-formed: the backing vector holds no name twice.
    pub closed spec fn wf(&self) -> bool {
        self.names.deep_view().no_duplicates()
    }

    /// The registry's set is exactly the membership of its stable
    /// enumeration, which repeats no name.
    pub proof fn lemma_enumeration(&self)
        ensures
            self@ == self.enumeration().to_set(),
            self.wf() ==> self.enumeration().no_duplicates(),
    {
    }

    /// An empty registry.
    pub fn new() -> (r: Registry)
        ensures
            r.wf(),
            r@ == Set::<Seq<char>>::empty(),
    {
        let r = Registry { names: Vec::new() };
        proof {
            assert(r@ =~= Set::<Seq<char>>::empty());
        }
        r
    }

    /// Adds a name if absent; inserting a present name changes nothing.
    pub fn insert(&mut self, name: String)
        requires
            old(self).wf(),
        ensures
            final(self).wf(),
            final(self)@ == old(self)@.insert(name@),
            old(self)@.contains(name@) ==> final(self).enumeration() == old(
                self,
            ).enumeration(),
            !old(self)@.contains(name@) ==> final(self).enumeration() == old(
                self,
            ).enumeration().push(name@),
    {
        if !contains_name(&self.names, &name) {
            let ghost before = self.names.deep_view();
            self.names.push(name);
            proof {
                assert(self.names.deep_view() =~= before.push(name@));
                before.lemma_push_to_set_commute(name@);
                vstd::seq_lib::lemma_seq_contains_after_push(before, name@, name@);
                assert(self.names.deep_view().no_duplicates()) by {
                    assert(forall|j: int|
                        0 <= j < before.len() ==> self.names.deep_view()[j] == before[j]);
                }
            }
        } else {
            proof {
                assert(self.names.deep_view().to_set() =~= self.names.deep_view().to_set().insert(
                    name@,
                ));
            }
        }
    }

    /// Removes a name if present; removing an absent name changes
    /// nothing and is no error.
    pub fn remove(&mut self, name: &String)
        requires
            old(self).wf(),
        ensures
            final(self).wf(),
            final(self)@ == old(self)@.remove(name@),
            final(self).enumeration() == old(self).enumeration().remove_value(name@),
    {
        let ghost before = self.names.deep_view();
        let mut i: usize = 0;
        while i < self.names.len()
            invariant
                i <= self.names.len(),
                self.names.deep_view() == before,
                before == old(self).names.deep_view(),
                before.no_duplicates(),
                forall|j: int| 0 <= j < i ==> before[j] != name@,
            decreases self.names.len() - i,
        {
            let e = &self.names[i];
            if e.eq(name) {
                proof {
                    assert(before[i as int] == self.names@[i as int]@);
                }
                self.names.remove(i);
                proof {
                    lemma_remove_at_known_index(before, name@, i as int);
                    assert(self.names.deep_view() =~= before.remove(i as int));
                }
                return ;
            }
            proof {
                assert(before[i as int] == self.names@[i as int]@);
            }
            i += 1;
        }
        proof {
            assert(!before.contains(name@));
            before.index_of_first_ensures(name@);
            assert(self@ =~= self@.remove(name@));
        }
    }

    /// Discards the prior contents and installs the given names as a
    /// set: every given name is a member, nothing else is, and no name
    /// is held twice, whatever the prior state was.
    pub fn replace(&mut self, names: Vec<String>)
        ensures
            final(self).wf(),
            final(self)@ == names.deep_view().to_set(),
    {
        let mut out: Vec<String> = Vec::new();
        let mut i: usize = 0;
        while i < names.len()
            invariant
                i <= names.len(),
                out.deep_view().no_duplicates(),
                out.deep_view().to_set() == names.deep_view().subrange(0, i as int).to_set(),
            decreases names.len() - i,
        {
            let e = &names[i];
            let ghost seen = names.deep_view().subrange(0, i as int);
            proof {
                assert(names.deep_view()[i as int] == names@[i as int]@);
                assert(names.deep_view().subrange(0, i + 1) =~= seen.push(e@));
                seen.lemma_push_to_set_commute(e@);
            }
            if !contains_name(&out, e) {
                let ghost held = out.deep_view();
                out.push(e.clone());
                proof {
                    assert(out.deep_view() =~= held.push(e@));
                    held.lemma_push_to_set_commute(e@);
                    vstd::seq_lib::lemma_seq_contains_after_push(held, e@, e@);
                    assert(out.deep_view().no_duplicates()) by {
                        assert(forall|j: int|
                            0 <= j < held.len() ==> out.deep_view()[j] == held[j]);
                    }
                }
            } else {
                proof {
                    assert(out.deep_view().to_set() =~= seen.to_set().insert(e@));
                }
            }
            i += 1;
        }
        proof {
            assert(names.deep_view().subrange(0, names.deep_view().len() as int) =~= names.deep_view());
        }
        self.names = out;
    }

    /// A consistent copy of the current membership, in the stable
    /// enumeration order; no partially applied mutation is visible.
    pub fn snapshot(&self) -> (r: Vec<String>)
        ensures
            r.deep_view() == self.enumeration(),
            r.deep_view().to_set() == self@,
            self.wf() ==> r.deep_view().no_duplicates(),
    {
        let mut out: Vec<String> = Vec::new();
        let mut i: usize = 0;
        while i < self.names.len()
            invariant
                i <= self.names.len(),
                out.deep_view() == self.names.deep_view().subrange(0, i as int),
            decreases self.names.len() - i,
        {
            let ghost held = out.deep_view();
            out.push(self.names[i].clone());
            proof {
                assert(self.names.deep_view()[i as int] == self.names@[i as int]@);
                assert(out.deep_view() =~= held.push(self.names.deep_view()[i as int]));
                assert(out.deep_view() =~= self.names.deep_view().subrange(0, i + 1));
            }
            i += 1;
        }
        proof {
            assert(self.names.deep_view().subrange(0, self.names.deep_view().len() as int)
                =~= self.names.deep_view());
        }
        out
    }
}

/// One registry mutation, as a mathematical operation on membership.
pub enum RegOp {
    Insert(Seq<char>),
    Remove(Seq<char>),
}

/// The membership one operation leaves behind. `insert` and `remove`
/// ensure exactly this of the registry's set.
pub open spec fn apply_op(s: Set<Seq<char>>, op: RegOp) -> Set<Seq<char>> {
    match op {
        RegOp::Insert(n) => s.insert(n),
        RegOp::Remove(n) => s.remove(n),
    }
}

/// The membership a whole operation sequence leaves behind, each
/// operation applied in order.
pub open spec fn apply_ops(s: Set<Seq<char>>, ops: Seq<RegOp>) -> Set<Seq<char>>
    decreases ops.len(),
{
    if ops.len() == 0 {
        s
    } else {
        apply_op(apply_ops(s, ops.drop_last()), ops.last())
    }
}

/// After an operation sequence and then one more operation, the
/// membership is one `apply_op` step past the membership after the
/// sequence. Together with the contracts of `insert` and `remove`,
/// which each ensure their `apply_op` step of the registry's set, and
/// of `snapshot`, which returns that set, membership after any
/// sequence of calls is `apply_ops` of the starting membership.
pub proof fn lemma_apply_ops_step(s: Set<Seq<char>>, ops: Seq<RegOp>, op: RegOp)
    ensures
        apply_ops(s, ops.push(op)) == apply_op(apply_ops(s, ops), op),
{
    assert(ops.push(op).drop_last() =~= ops);
    assert(ops.push(op).last() == op);
}

/// Inserting a present name, or removing an absent one, leaves the
/// membership as it was.
pub proof fn lemma_op_noop(s: Set<Seq<char>>, op: RegOp)
    ensures
        op is Insert && s.contains(op->Insert_0) ==> apply_op(s, op) == s,
        op is Remove && !s.contains(op->Remove_0) ==> apply_op(s, op) == s,
{
    match op {
        RegOp::Insert(n) => {
            if s.contains(n) {
                assert(s.insert(n) =~= s);
            }
        },
        RegOp::Remove(n) => {
            if !s.contains(n) {
                assert(s.remove(n) =~= s);
            }
        },
    }
}

/// Replacing the contents with `names` and then snapshotting yields
/// exactly the members of `names`, without duplicates — whatever the
/// registry held before, since `replace` promises its result of every
/// prior state. The hypotheses are the contracts of `replace` and
/// `snapshot` on the intermediate state.
pub proof fn lemma_replace_then_snapshot(
    r: Registry,
    names: Seq<Seq<char>>,
    snap: Seq<Seq<char>>,
)
    requires
        r.wf(),
        r@ == names.to_set(),
        snap == r.enumeration(),
    ensures
        snap.to_set() == names.to_set(),
        snap.no_duplicates(),
{
    r.lemma_enumeration();
}

/// Removing the element at the first index holding `val` is, on a
/// duplicate-free sequence, the same as removing `val` from its set.
proof fn lemma_remove_at_known_index(s: Seq<Seq<char>>, val: Seq<char>, i: int)
    requires
        s.no_duplicates(),
        0 <= i < s.len(),
        s[i] == val,
        forall|j: int| 0 <= j < i ==> s[j] != val,
    ensures
        s.remove(i).no_duplicates(),
        s.remove(i).to_set() == s.to_set().remove(val),
        s.remove(i) == s.remove_value(val),
{
    s.remove_ensures(i);
    s.index_of_first_ensures(val);
    assert(s.contains(val));
    let idx = s.index_of_first(val).unwrap();
    assert(idx == i) by {
        if idx < i {
            assert(s[idx] == val);
        } else if idx > i {
            assert(s[i] == val);
        }
    }
    let r = s.remove(i);
    assert(r.no_duplicates()) by {
        assert forall|k1: int, k2: int| 0 <= k1 < k2 < r.len() implies r[k1] != r[k2] by {
            let o1: int = if k1 < i { k1 } else { k1 + 1 };
            let o2: int = if k2 < i { k2 } else { k2 + 1 };
            assert(r[k1] == s[o1]);
            assert(r[k2] == s[o2]);
        }
    }
    assert(r.to_set() =~= s.to_set().remove(val)) by {
        assert forall|x: Seq<char>| r.to_set().contains(x) implies s.to_set().remove(
            val,
        ).contains(x) by {
            let k = choose|k: int| 0 <= k < r.len() && r[k] == x;
            let o: int = if k < i { k } else { k + 1 };
            assert(s[o] == x);
            assert(x != val);
        }
        assert forall|x: Seq<char>| s.to_set().remove(val).contains(x) implies r.to_set().contains(
            x,
        ) by {
            let o = choose|o: int| 0 <= o < s.len() && s[o] == x;
            if o < i {
                assert(r[o] == x);
            } else {
                assert(o != i);
                assert(r[o - 1] == x);
            }
        }
    }
}

/// Whether some element of `v` equals `name`, as strings.
fn contains_name(v: &Vec<String>, name: &String) -> (r: bool)
    ensures
        r == v.deep_view().contains(name@),
{
    let mut i: usize = 0;
    while i < v.len()
        invariant
            i <= v.len(),
            forall|j: int| 0 <= j < i ==> v.deep_view()[j] != name@,
        decreases v.len() - i,
    {
        let e = &v[i];
        if e.eq(name) {
            proof {
                assert(v.deep_view()[i as int] == v@[i as int]@);
            }
            return true;
        }
        proof {
            assert(v.deep_view()[i as int] == v@[i as int]@);
        }
        i += 1;
    }
    false
}

} // verus!
