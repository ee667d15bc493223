use vstd::prelude::*;

verus! {

/// The set of paths a sequence of path strings denotes.
pub open spec fn as_set(paths: Seq<String>) -> Set<Seq<char>>
    decreases paths.len(),
{
    if paths.len() == 0 {
        Set::empty()
    } else {
        as_set(paths.drop_last()).insert(paths.last()@)
    }
}

/// A path is in the set exactly when some entry denotes it.
pub proof fn lemma_as_set_contains(paths: Seq<String>, p: Seq<char>)
    ensures
        as_set(paths).contains(p) <==> exists|i: int|
            0 <= i < paths.len() && (#[trigger] paths[i])@ == p,
    decreases paths.len(),
{
    if paths.len() == 0 {
    } else {
        let dl = paths.drop_last();
        lemma_as_set_contains(dl, p);
        assert(forall|i: int| 0 <= i < dl.len() ==> dl[i] == paths[i]);
        if paths.last()@ == p {
            assert(paths[paths.len() - 1]@ == p);
        } else if exists|i: int| 0 <= i < dl.len() && (#[trigger] dl[i])@ == p {
            let i = choose|i: int| 0 <= i < dl.len() && (#[trigger] dl[i])@ == p;
            assert(paths[i]@ == p);
        } else if exists|i: int| 0 <= i < paths.len() && (#[trigger] paths[i])@ == p {
            let i = choose|i: int| 0 <= i < paths.len() && (#[trigger] paths[i])@ == p;
            assert(i == paths.len() - 1 || dl[i]@ == p);
        }
    }
}

/// With distinct paths, removing the entry at `i` removes exactly that path
/// from the set.
pub proof fn lemma_as_set_remove(paths: Seq<String>, i: int)
    requires
        forall|p: int, q: int| 0 <= p < q < paths.len() ==> (#[trigger] paths[p])@ != (
        #[trigger] paths[q])@,
        0 <= i < paths.len(),
    ensures
        as_set(paths.remove(i)) == as_set(paths).remove(paths[i]@),
    decreases paths.len(),
{
    let t = paths[i]@;
    let dl = paths.drop_last();
    assert(forall|p: int| 0 <= p < dl.len() ==> dl[p] == paths[p]);
    if i == paths.len() - 1 {
        assert(paths.remove(i) =~= dl);
        lemma_as_set_contains(dl, t);
        assert(!as_set(dl).contains(t));
        assert(as_set(dl).insert(t).remove(t) =~= as_set(dl));
    } else {
        let r2 = paths.remove(i);
        assert(r2.drop_last() =~= dl.remove(i));
        assert(r2.last() == paths.last());
        lemma_as_set_remove(dl, i);
        assert(as_set(r2) == as_set(dl).remove(t).insert(paths.last()@));
        assert(paths.last()@ != t);
        assert(as_set(dl).remove(t).insert(paths.last()@) =~= as_set(dl).insert(
            paths.last()@,
        ).remove(t));
    }
}

/// The model of the shared filesystem: the set of stored file paths. The
/// real filesystem is addressed only through paths derived from records;
/// this model tracks which paths currently hold a file.
pub struct FileStore {
    pub paths: Vec<String>,
}

impl View for FileStore {
    type V = Set<Seq<char>>;

    open spec fn view(&self) -> Set<Seq<char>> {
        as_set(self.paths@)
    }
}

impl FileStore {
    /// The model's invariant: one entry per path.
    pub open spec fn wf(self) -> bool {
        forall|p: int, q: int| 0 <= p < q < self.paths@.len() ==> (#[trigger] self.paths@[p])@ != (
        #[trigger] self.paths@[q])@
    }

    /// An empty filesystem.
    pub fn new() -> (s: Self)
        ensures
            s.wf(),
            s@ == Set::<Seq<char>>::empty(),
    {
        FileStore { paths: Vec::new() }
    }

    /// Whether a file currently exists at `p`.
    pub fn contains(&self, p: &String) -> (r: bool)
        ensures
            r == self@.contains(p@),
    {
        let n = self.paths.len();
        let mut i: usize = 0;
        while i < n
            invariant
                n == self.paths@.len(),
                0 <= i <= n,
                forall|j: int| 0 <= j < i ==> (#[trigger] self.paths@[j])@ != p@,
            decreases n - i,
        {
            if self.paths[i] == *p {
                proof {
                    lemma_as_set_contains(self.paths@, p@);
                }
                return true;
            }
            i += 1;
        }
        proof {
            lemma_as_set_contains(self.paths@, p@);
        }
        false
    }

    /// Stores a file at `p` (idempotent in the model: the path is in the set
    /// afterwards).
    pub fn add(&mut self, p: String)
        requires
            old(self).wf(),
        ensures
            final(self).wf(),
            final(self)@ == old(self)@.insert(p@),
    {
        if self.contains(&p) {
            proof {
                assert(old(self)@.insert(p@) =~= old(self)@);
            }
            return;
        }
        let ghost prior = self.paths@;
        self.paths.push(p);
        proof {
            assert(self.paths@.drop_last() =~= prior);
            assert(forall|j: int| 0 <= j < prior.len() ==> self.paths@[j] == prior[j]);
            lemma_as_set_contains(prior, self.paths@.last()@);
        }
    }

    /// Removes the file at `p`, reporting whether one was there.
    pub fn remove(&mut self, p: &String) -> (r: bool)
        requires
            old(self).wf(),
        ensures
            final(self).wf(),
            r == old(self)@.contains(p@),
            final(self)@ == old(self)@.remove(p@),
    {
        let n = self.paths.len();
        let mut i: usize = 0;
        while i < n
            invariant
                n == self.paths@.len(),
                0 <= i <= n,
                forall|j: int| 0 <= j < i ==> (#[trigger] self.paths@[j])@ != p@,
                old(self).wf(),
                *self == *old(self),
            decreases n - i,
        {
            if self.paths[i] == *p {
                proof {
                    lemma_as_set_contains(self.paths@, p@);
                    lemma_as_set_remove(self.paths@, i as int);
                    let r2 = self.paths@.remove(i as int);
                    assert forall|a: int, b: int| 0 <= a < b < r2.len() implies (
                    #[trigger] r2[a])@ != (#[trigger] r2[b])@ by {
                        self.paths@.remove_ensures(i as int);
                    }
                }
                self.paths.remove(i);
                return true;
            }
            i += 1;
        }
        proof {
            lemma_as_set_contains(self.paths@, p@);
            assert(old(self)@.remove(p@) =~= old(self)@);
        }
        false
    }
}

} // verus!
