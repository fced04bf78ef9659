//! Candidate repositories: the typed records that discovery reads, the
//! per-account listing, and the capped, deduplicated search set.
use vstd::prelude::*;

verus! {

/// A repository to examine, keyed by `full_name` (`owner/name`).
#[derive(Debug, Clone, PartialEq, Eq)]
pub struct RepositoryRef {
    pub full_name: String,
    pub html_url: String,
    pub default_branch: String,
}

/// One repository as the platform describes it; a field it leaves out is `None`.
#[derive(Debug, Clone, PartialEq, Eq)]
pub struct RepoNode {
    pub name_with_owner: Option<String>,
    pub url: Option<String>,
    pub default_branch: Option<String>,
}

pub open spec fn text_or(o: Option<String>, d: Seq<char>) -> Seq<char> {
    match o {
        Some(s) => s@,
        None => d,
    }
}

/// The repository that a node describes: absent texts are empty, an absent
/// branch is `main`.
pub open spec fn node_describes(n: RepoNode, r: RepositoryRef) -> bool {
    &&& r.full_name@ == text_or(n.name_with_owner, Seq::empty())
    &&& r.html_url@ == text_or(n.url, Seq::empty())
    &&& r.default_branch@ == text_or(n.default_branch, "main"@)
}

pub open spec fn names_of(s: Seq<RepositoryRef>) -> Seq<Seq<char>> {
    s.map_values(|r: RepositoryRef| r.full_name@)
}

pub open spec fn hit_name(n: RepoNode) -> Seq<char> {
    text_or(n.name_with_owner, Seq::empty())
}

/// The names gathered when `hits` are offered in order to a set holding
/// `names`: a hit is taken unless the set is full or holds its name.
pub open spec fn gather(names: Seq<Seq<char>>, hits: Seq<RepoNode>, cap: nat) -> Seq<Seq<char>>
    decreases hits.len(),
{
    if hits.len() == 0 {
        names
    } else {
        let g = gather(names, hits.drop_last(), cap);
        if g.len() >= cap || g.contains(hit_name(hits.last())) {
            g
        } else {
            g.push(hit_name(hits.last()))
        }
    }
}

/// The first hit of the page that carries `r`'s name describes `r`.
pub open spec fn first_hit_describes(hits: Seq<RepoNode>, r: RepositoryRef) -> bool {
    exists|j: int|
        0 <= j < hits.len() && node_describes(hits[j], r) && forall|e: int|
            0 <= e < j ==> hit_name(#[trigger] hits[e]) != r.full_name@
}

pub open spec fn holds_name(s: Seq<RepositoryRef>, name: Seq<char>) -> bool {
    exists|i: int| 0 <= i < s.len() && (#[trigger] s[i]).full_name@ == name
}

pub open spec fn names_unique(s: Seq<RepositoryRef>) -> bool {
    forall|i: int, j: int|
        0 <= i < s.len() && 0 <= j < s.len() && i != j ==> (#[trigger] s[i]).full_name@
            != (#[trigger] s[j]).full_name@
}

fn copy_text(s: &String) -> (r: String)
    ensures
        r == *s,
{
    s.clone()
}

fn text_or_default(o: &Option<String>, d: &str) -> (r: String)
    ensures
        r@ == text_or(*o, d@),
{
    match o {
        Some(s) => copy_text(s),
        None => String::from_str(d),
    }
}

impl RepositoryRef {
    /// A field-by-field copy.
    pub fn duplicate(&self) -> (r: RepositoryRef)
        ensures
            r == *self,
    {
        RepositoryRef {
            full_name: copy_text(&self.full_name),
            html_url: copy_text(&self.html_url),
            default_branch: copy_text(&self.default_branch),
        }
    }
}

/// Reads one node, with the tolerant defaults for absent fields.
pub fn repo_from_node(n: &RepoNode) -> (r: RepositoryRef)
    ensures
        node_describes(*n, r),
{
    proof {
        reveal_strlit("");
        assert(""@ =~= Seq::<char>::empty());
    }
    RepositoryRef {
        full_name: text_or_default(&n.name_with_owner, ""),
        html_url: text_or_default(&n.url, ""),
        default_branch: text_or_default(&n.default_branch, "main"),
    }
}

/// Appends the repositories of one page of an account's listing, in order.
pub fn append_nodes(repos: &mut Vec<RepositoryRef>, nodes: &Vec<RepoNode>)
    ensures
        final(repos)@.len() == old(repos)@.len() + nodes@.len(),
        forall|i: int| 0 <= i < old(repos)@.len() ==> final(repos)@[i] == old(repos)@[i],
        forall|i: int|
            0 <= i < nodes@.len() ==> node_describes(
                nodes@[i],
                #[trigger] final(repos)@[old(repos)@.len() + i],
            ),
{
    let ghost start = repos@;
    let mut k: usize = 0;
    while k < nodes.len()
        invariant
            k <= nodes@.len(),
            repos@.len() == start.len() + k,
            forall|i: int| 0 <= i < start.len() ==> repos@[i] == start[i],
            forall|i: int|
                0 <= i < k ==> node_describes(nodes@[i], #[trigger] repos@[start.len() + i]),
        decreases nodes@.len() - k,
    {
        let r = repo_from_node(&nodes[k]);
        repos.push(r);
        k = k + 1;
    }
}

/// How many candidates a search gathers for a requested result count:
/// `requested_limit × factor`, or the largest size if that does not fit.
pub fn candidate_cap(requested_limit: usize, factor: usize) -> (r: usize)
    ensures
        requested_limit * factor <= usize::MAX ==> r == requested_limit * factor,
        requested_limit * factor > usize::MAX ==> r == usize::MAX,
{
    if factor == 0 || requested_limit <= usize::MAX / factor {
        proof {
            if factor > 0 {
                assert(requested_limit * factor <= (usize::MAX / factor) * factor) by (nonlinear_arith)
                    requires
                        requested_limit <= usize::MAX / factor,
                        factor > 0,
                ;
                assert((usize::MAX / factor) * factor <= usize::MAX) by (nonlinear_arith)
                    requires
                        factor > 0,
                ;
            }
        }
        requested_limit * factor
    } else {
        proof {
            assert(requested_limit * factor > usize::MAX) by (nonlinear_arith)
                requires
                    requested_limit > usize::MAX / factor,
                    factor > 0,
            ;
        }
        usize::MAX
    }
}

/// The candidate set gathered by a search: unique names, in first-seen
/// order, never more than `cap` of them.
#[derive(Debug, Clone)]
pub struct CandidateSet {
    pub cap: usize,
    pub repos: Vec<RepositoryRef>,
}

impl CandidateSet {
    pub open spec fn wf(&self) -> bool {
        self.repos@.len() <= self.cap && names_unique(self.repos@)
    }

    /// An empty set for a search asked for `requested_limit` results, which
    /// oversamples by `factor`.
    pub fn new(requested_limit: usize, factor: usize) -> (r: CandidateSet)
        ensures
            r.wf(),
            r.repos@.len() == 0,
            requested_limit * factor <= usize::MAX ==> r.cap == requested_limit * factor,
            requested_limit * factor > usize::MAX ==> r.cap == usize::MAX,
    {
        CandidateSet { cap: candidate_cap(requested_limit, factor), repos: Vec::new() }
    }

    pub open spec fn is_full_spec(&self) -> bool {
        self.repos@.len() >= self.cap
    }

    /// Whether the search must stop.
    pub fn is_full(&self) -> (r: bool)
        ensures
            r == self.is_full_spec(),
    {
        self.repos.len() >= self.cap
    }

    /// Whether a repository of this name has been gathered.
    pub fn contains_name(&self, name: &String) -> (r: bool)
        ensures
            r == holds_name(self.repos@, name@),
    {
        let mut k: usize = 0;
        while k < self.repos.len()
            invariant
                k <= self.repos@.len(),
                forall|i: int| 0 <= i < k ==> (#[trigger] self.repos@[i]).full_name@ != name@,
            decreases self.repos@.len() - k,
        {
            if self.repos[k].full_name == *name {
                return true;
            }
            k = k + 1;
        }
        false
    }

    /// Offers one page of search hits, in order. Each is gathered unless the
    /// set is full or already holds its name; the set stays within its cap
    /// and free of duplicate names.
    pub fn add_hits(&mut self, hits: &Vec<RepoNode>)
        requires
            old(self).wf(),
        ensures
            final(self).wf(),
            final(self).cap == old(self).cap,
            final(self).repos@.len() >= old(self).repos@.len(),
            names_of(final(self).repos@) == gather(names_of(old(self).repos@), hits@, old(self).cap as nat),
            forall|i: int|
                0 <= i < old(self).repos@.len() ==> final(self).repos@[i] == old(self).repos@[i],
            forall|i: int|
                old(self).repos@.len() <= i < final(self).repos@.len() ==> first_hit_describes(
                    hits@,
                    #[trigger] final(self).repos@[i],
                ),
            forall|j: int|
                0 <= j < hits@.len() ==> final(self).repos@.len() >= final(self).cap || holds_name(
                    final(self).repos@,
                    text_or(#[trigger] hits@[j].name_with_owner, Seq::empty()),
                ),
    {
        let ghost start = self.repos@;
        let mut k: usize = 0;
        proof {
            assert(hits@.take(0) =~= Seq::<RepoNode>::empty());
        }
        while k < hits.len()
            invariant
                k <= hits@.len(),
                self.wf(),
                self.cap == old(self).cap,
                self.repos@.len() >= start.len(),
                start == old(self).repos@,
                names_of(self.repos@) == gather(names_of(start), hits@.take(k as int), self.cap as nat),
                forall|i: int| 0 <= i < start.len() ==> self.repos@[i] == start[i],
                forall|i: int|
                    start.len() <= i < self.repos@.len() ==> first_hit_describes(
                        hits@,
                        #[trigger] self.repos@[i],
                    ),
                forall|j: int|
                    0 <= j < k ==> self.repos@.len() >= self.cap || holds_name(
                        self.repos@,
                        text_or(#[trigger] hits@[j].name_with_owner, Seq::empty()),
                    ),
            decreases hits@.len() - k,
        {
            let ghost g = gather(names_of(start), hits@.take(k as int), self.cap as nat);
            proof {
                let t = hits@.take(k + 1);
                assert(t.drop_last() =~= hits@.take(k as int));
                assert(t.last() == hits@[k as int]);
                assert(g.len() == self.repos@.len());
                assert forall|nm: Seq<char>| g.contains(nm) <==> holds_name(self.repos@, nm) by {
                    if g.contains(nm) {
                        let w = choose|w: int| 0 <= w < g.len() && g[w] == nm;
                        assert(self.repos@[w].full_name@ == nm);
                    }
                    if holds_name(self.repos@, nm) {
                        let w = choose|w: int|
                            0 <= w < self.repos@.len() && (#[trigger] self.repos@[w]).full_name@ == nm;
                        assert(g[w] == nm);
                    }
                }
            }
            if self.repos.len() < self.cap {
                let r = repo_from_node(&hits[k]);
                if !self.contains_name(&r.full_name) {
                    let ghost before = self.repos@;
                    self.repos.push(r);
                    assert(self.repos@[before.len() as int] == r);
                    assert(names_of(self.repos@) =~= names_of(before).push(r.full_name@));
                    assert forall|j: int|
                        0 <= j < k + 1 implies self.repos@.len() >= self.cap || holds_name(
                        self.repos@,
                        text_or(#[trigger] hits@[j].name_with_owner, Seq::empty()),
                    ) by {
                        if j < k {
                            if holds_name(before, text_or(hits@[j].name_with_owner, Seq::empty())) {
                                let w = choose|w: int|
                                    0 <= w < before.len() && (#[trigger] before[w]).full_name@
                                        == text_or(hits@[j].name_with_owner, Seq::empty());
                                assert(self.repos@[w] == before[w]);
                            }
                        } else {
                            assert(self.repos@[before.len() as int].full_name@ == text_or(
                                hits@[j].name_with_owner,
                                Seq::empty(),
                            ));
                        }
                    }
                    assert forall|i: int|
                        start.len() <= i < self.repos@.len() implies first_hit_describes(
                        hits@,
                        #[trigger] self.repos@[i],
                    ) by {
                        if i < before.len() {
                            assert(self.repos@[i] == before[i]);
                        } else {
                            assert(node_describes(hits@[k as int], self.repos@[i]));
                            assert forall|e: int| 0 <= e < k implies hit_name(#[trigger] hits@[e])
                                != self.repos@[i].full_name@ by {
                                assert(before.len() < self.cap);
                                assert(holds_name(before, text_or(hits@[e].name_with_owner, Seq::empty())));
                            }
                        }
                    }
                }
            }
            k = k + 1;
        }
        proof {
            assert(hits@.take(k as int) =~= hits@);
        }
    }
}

} // verus!
