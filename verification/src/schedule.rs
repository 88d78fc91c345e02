//! Task scheduling: tasks grouped in stages, each task constrained to run
//! before or after other tasks of its stage, ordered by a depth-first
//! topological sort.
use vstd::prelude::*;

verus! {

/// The successor lists of a graph given as vectors.
pub open spec fn graph_of(adj: Seq<Vec<usize>>) -> Seq<Seq<usize>> {
    adj.map_values(|s: Vec<usize>| s@)
}

/// There is an edge from `u` to `v` in the successor lists `adj`.
pub open spec fn edge(adj: Seq<Seq<usize>>, u: int, v: int) -> bool {
    &&& 0 <= u < adj.len()
    &&& exists|k: int| 0 <= k < adj[u].len() && adj[u][k] == v
}

/// `p` is a walk along the edges of `adj`.
pub open spec fn is_walk(adj: Seq<Seq<usize>>, p: Seq<int>) -> bool {
    &&& p.len() >= 1
    &&& forall|i: int| 0 <= i < p.len() - 1 ==> #[trigger] edge(adj, p[i], p[i + 1])
}

/// Some walk leads from `a` to `b` (possibly the empty one, where `a == b`).
pub open spec fn reaches(adj: Seq<Seq<usize>>, a: int, b: int) -> bool {
    exists|p: Seq<int>| #[trigger] is_walk(adj, p) && p[0] == a && p.last() == b
}

/// No walk of one edge or more comes back to where it started.
pub open spec fn acyclic(adj: Seq<Seq<usize>>) -> bool {
    forall|p: Seq<int>| #[trigger] is_walk(adj, p) && p.len() >= 2 ==> p[0] != p.last()
}

/// The successor lists name nodes of the graph only.
pub open spec fn well_formed_graph(adj: Seq<Seq<usize>>) -> bool {
    forall|u: int, k: int| 0 <= u < adj.len() && 0 <= k < adj[u].len() ==> #[trigger] adj[u][k] < adj.len()
}

/// The number of nodes not yet visited.
pub open spec fn unvisited_count(visited: Seq<bool>) -> nat
    decreases visited.len(),
{
    if visited.len() == 0 {
        0
    } else {
        unvisited_count(visited.drop_last()) + if visited.last() {
            0nat
        } else {
            1nat
        }
    }
}

proof fn lemma_unvisited_decreases(a: Seq<bool>, b: Seq<bool>, x: int)
    requires
        a.len() == b.len(),
        forall|i: int| 0 <= i < a.len() && a[i] ==> b[i],
        0 <= x < a.len(),
        !a[x],
        b[x],
    ensures
        unvisited_count(b) < unvisited_count(a),
    decreases a.len(),
{
    lemma_unvisited_monotone(a.drop_last(), b.drop_last());
    if x < a.len() - 1 {
        lemma_unvisited_decreases(a.drop_last(), b.drop_last(), x);
    }
}

proof fn lemma_unvisited_monotone(a: Seq<bool>, b: Seq<bool>)
    requires
        a.len() == b.len(),
        forall|i: int| 0 <= i < a.len() && a[i] ==> b[i],
    ensures
        unvisited_count(b) <= unvisited_count(a),
    decreases a.len(),
{
    if a.len() > 0 {
        lemma_unvisited_monotone(a.drop_last(), b.drop_last());
    }
}

/// The depth-first search state: `finished` are the nodes whose search is
/// done, in the order it ended; `path` the nodes whose search is under way,
/// outermost first.
pub open spec fn search_state(
    adj: Seq<Seq<usize>>,
    visited: Seq<bool>,
    finished: Seq<usize>,
    path: Seq<int>,
) -> bool {
    &&& visited.len() == adj.len()
    &&& adj.len() <= usize::MAX
    &&& finished.no_duplicates()
    &&& forall|i: int, j: int| 0 <= i < j < path.len() ==> path[i] != path[j]
    &&& forall|i: int| 0 <= i < finished.len() ==> #[trigger] finished[i] < adj.len()
    &&& forall|i: int| 0 <= i < path.len() ==> 0 <= #[trigger] path[i] < adj.len()
    &&& forall|i: int| 0 <= i < path.len() - 1 ==> #[trigger] edge(adj, path[i], path[i + 1])
    &&& forall|x: int|
        0 <= x < adj.len() ==> (#[trigger] visited[x] <==> (finished.contains(x as usize) || path.contains(x)))
    &&& forall|x: usize| #[trigger] finished.contains(x) ==> !path.contains(x as int)
    &&& forall|i: int, v: int|
        0 <= i < finished.len() && #[trigger] edge(adj, finished[i] as int, v) ==> (exists|j: int|
            0 <= j < i && finished[j] == v) || reaches(adj, v, finished[i] as int)
}

proof fn lemma_walk_suffix(adj: Seq<Seq<usize>>, path: Seq<int>, j: int)
    requires
        forall|i: int| 0 <= i < path.len() - 1 ==> #[trigger] edge(adj, path[i], path[i + 1]),
        0 <= j < path.len(),
    ensures
        reaches(adj, path[j], path.last()),
{
    let p = path.subrange(j, path.len() as int);
    assert forall|i: int| 0 <= i < p.len() - 1 implies #[trigger] edge(adj, p[i], p[i + 1]) by {
        assert(p[i] == path[j + i]);
        assert(p[i + 1] == path[j + i + 1]);
    }
    assert(is_walk(adj, p));
}

/// Searches from the unvisited node `u` and appends the nodes it finishes,
/// `u` last.
fn visit(
    u: usize,
    adj: &Vec<Vec<usize>>,
    visited: &mut Vec<bool>,
    finished: &mut Vec<usize>,
    Ghost(path): Ghost<Seq<int>>,
)
    requires
        well_formed_graph(graph_of(adj@)),
        u < adj@.len(),
        !old(visited)@[u as int],
        search_state(graph_of(adj@), old(visited)@, old(finished)@, path),
        path.len() > 0 ==> edge(graph_of(adj@), path.last(), u as int),
    ensures
        search_state(graph_of(adj@), final(visited)@, final(finished)@, path),
        final(visited)@.len() == old(visited)@.len(),
        forall|x: int| 0 <= x < old(visited)@.len() && old(visited)@[x] ==> #[trigger] final(visited)@[x],
        final(visited)@[u as int],
        final(finished)@.len() > old(finished)@.len(),
        final(finished)@.subrange(0, old(finished)@.len() as int) == old(finished)@,
    decreases unvisited_count(old(visited)@),
{
    let ghost g = graph_of(adj@);
    let ghost entry_visited = visited@;
    let ghost entry_finished = finished@;
    visited.set(u, true);
    let ghost inner = path.push(u as int);
    proof {
        lemma_unvisited_decreases(entry_visited, visited@, u as int);
        assert forall|x: int| 0 <= x < g.len() implies (#[trigger] visited@[x] <==> (finished@.contains(x as usize)
            || inner.contains(x))) by {
            if x == u {
                assert(inner[inner.len() - 1] == x);
            } else if path.contains(x) {
                let k = choose|k: int| 0 <= k < path.len() && path[k] == x;
                assert(inner[k] == x);
            } else if inner.contains(x) {
                let k = choose|k: int| 0 <= k < inner.len() && inner[k] == x;
                assert(path[k] == x);
            }
        }
        assert forall|x: usize| #[trigger] finished@.contains(x) implies !inner.contains(x as int) by {
            if inner.contains(x as int) {
                let k = choose|k: int| 0 <= k < inner.len() && inner[k] == x as int;
                if k < path.len() {
                    assert(path[k] == x as int);
                } else {
                    assert(x == u);
                    assert(entry_visited[u as int]);
                }
            }
        }
        assert forall|i: int, j: int| 0 <= i < j < inner.len() implies inner[i] != inner[j] by {
            if j == path.len() {
                assert(path.contains(path[i]));
            }
        }
        assert forall|i: int| 0 <= i < inner.len() - 1 implies #[trigger] edge(g, inner[i], inner[i + 1]) by {
            if i < path.len() - 1 {
                assert(inner[i] == path[i] && inner[i + 1] == path[i + 1]);
            }
        }
    }
    let successors = &adj[u];
    assert(successors@ == g[u as int]);
    let mut k: usize = 0;
    while k < successors.len()
        invariant
            g == graph_of(adj@),
            entry_visited == old(visited)@,
            well_formed_graph(g),
            u < g.len(),
            successors@ == g[u as int],
            k <= successors@.len(),
            inner == path.push(u as int),
            search_state(g, visited@, finished@, inner),
            visited@.len() == entry_visited.len(),
            forall|x: int| 0 <= x < entry_visited.len() && entry_visited[x] ==> #[trigger] visited@[x],
            visited@[u as int],
            !entry_visited[u as int],
            unvisited_count(visited@) < unvisited_count(entry_visited),
            finished@.len() >= entry_finished.len(),
            finished@.subrange(0, entry_finished.len() as int) == entry_finished,
            forall|m: int| 0 <= m < k ==> #[trigger] visited@[successors@[m] as int],
        decreases successors@.len() - k,
    {
        let v = successors[k];
        assert(v < g.len()) by {
            assert(g[u as int][k as int] == v);
        }
        if !visited[v] {
            proof {
                assert(edge(g, inner.last(), v as int)) by {
                    assert(g[u as int][k as int] == v);
                }
            }
            let ghost before_visited = visited@;
            let ghost before_finished = finished@;
            visit(v, adj, visited, finished, Ghost(inner));
            proof {
                assert forall|x: int| 0 <= x < entry_visited.len() && entry_visited[x] implies #[trigger] visited@[x] by {
                    assert(before_visited[x]);
                }
                lemma_unvisited_monotone(before_visited, visited@);
                assert(finished@.subrange(0, entry_finished.len() as int) == entry_finished) by {
                    assert(finished@.subrange(0, entry_finished.len() as int) =~= before_finished.subrange(
                        0,
                        entry_finished.len() as int,
                    ));
                }
                assert forall|m: int| 0 <= m < k implies #[trigger] visited@[successors@[m] as int] by {
                    assert(before_visited[successors@[m] as int]);
                    assert(successors@[m] < g.len()) by {
                        assert(g[u as int][m] == successors@[m]);
                    }
                }
            }
        }
        k = k + 1;
    }
    let ghost before_push = finished@;
    finished.push(u);
    proof {
        let f = finished@;
        let n = before_push.len() as int;
        assert(f[n] == u);
        assert(!before_push.contains(u)) by {
            assert(inner.contains(u as int)) by {
                assert(inner[inner.len() - 1] == u as int);
            }
        }
        assert(f.no_duplicates()) by {
            assert forall|i: int, j: int| 0 <= i < f.len() && 0 <= j < f.len() && i != j implies f[i] != f[j] by {
                if j == n {
                    assert(before_push.contains(f[i]));
                } else if i == n {
                    assert(before_push.contains(f[j]));
                }
            }
        }
        assert forall|x: int| 0 <= x < g.len() implies (#[trigger] visited@[x] <==> (f.contains(x as usize) || path.contains(x))) by {
            if x == u {
                assert(f[n] == x as usize);
            } else {
                if f.contains(x as usize) {
                    let i = choose|i: int| 0 <= i < f.len() && f[i] == x as usize;
                    assert(before_push[i] == x as usize);
                }
                if before_push.contains(x as usize) {
                    let i = choose|i: int| 0 <= i < before_push.len() && before_push[i] == x as usize;
                    assert(f[i] == x as usize);
                }
                if inner.contains(x) {
                    let i = choose|i: int| 0 <= i < inner.len() && inner[i] == x;
                    assert(path[i] == x);
                }
                if path.contains(x) {
                    let i = choose|i: int| 0 <= i < path.len() && path[i] == x;
                    assert(inner[i] == x);
                }
            }
        }
        assert forall|x: usize| #[trigger] f.contains(x) implies !path.contains(x as int) by {
            let i = choose|i: int| 0 <= i < f.len() && f[i] == x;
            if i < n {
                assert(before_push.contains(x));
                if path.contains(x as int) {
                    let k2 = choose|k2: int| 0 <= k2 < path.len() && path[k2] == x as int;
                    assert(inner[k2] == x as int);
                }
            } else {
                if path.contains(x as int) {
                    let k2 = choose|k2: int| 0 <= k2 < path.len() && path[k2] == x as int;
                    assert(inner[k2] == inner[path.len() as int]);
                }
            }
        }
        assert forall|i: int, v: int| 0 <= i < f.len() && #[trigger] edge(g, f[i] as int, v) implies (exists|j: int|
            0 <= j < i && f[j] == v) || reaches(g, v, f[i] as int) by {
            if i < n {
                assert(f[i] == before_push[i]);
                if exists|j: int| 0 <= j < i && before_push[j] == v {
                    let j = choose|j: int| 0 <= j < i && before_push[j] == v;
                    assert(f[j] == v);
                }
            } else {
                let m = choose|m: int| 0 <= m < successors@.len() && successors@[m] == v;
                assert(visited@[successors@[m] as int]);
                assert(0 <= v < g.len());
                if before_push.contains(v as usize) {
                    let j = choose|j: int| 0 <= j < before_push.len() && before_push[j] == v as usize;
                    assert(f[j] == v);
                } else {
                    assert(inner.contains(v));
                    let j = choose|j: int| 0 <= j < inner.len() && inner[j] == v;
                    lemma_walk_suffix(g, inner, j);
                    assert(inner.last() == u as int);
                }
            }
        }
        assert(f.subrange(0, entry_finished.len() as int) =~= before_push.subrange(0, entry_finished.len() as int));
    }
}

/// The nodes of the graph `adj` in an order in which, where the graph has no
/// cycle, every edge leads from an earlier node to a later one: the reverse of
/// the order in which a depth-first search, started from each unvisited node
/// in turn, finishes them. Every node comes exactly once.
pub fn topological_order(adj: &Vec<Vec<usize>>) -> (order: Vec<usize>)
    requires
        well_formed_graph(graph_of(adj@)),
    ensures
        order@.len() == adj@.len(),
        order@.no_duplicates(),
        forall|i: int| 0 <= i < order@.len() ==> #[trigger] order@[i] < adj@.len(),
        acyclic(graph_of(adj@)) ==> forall|i: int, j: int|
            0 <= i < order@.len() && 0 <= j < order@.len() && #[trigger] edge(
                graph_of(adj@),
                order@[i] as int,
                order@[j] as int,
            ) ==> i < j,
{
    let ghost g = graph_of(adj@);
    let n = adj.len();
    let mut visited: Vec<bool> = Vec::new();
    while visited.len() < n
        invariant
            visited@.len() <= n,
            forall|x: int| 0 <= x < visited@.len() ==> !#[trigger] visited@[x],
        decreases n - visited@.len(),
    {
        visited.push(false);
    }
    let mut finished: Vec<usize> = Vec::new();
    proof {
        assert(search_state(g, visited@, finished@, Seq::<int>::empty()));
    }
    let mut node: usize = 0;
    while node < n
        invariant
            g == graph_of(adj@),
            n == g.len(),
            well_formed_graph(g),
            node <= n,
            search_state(g, visited@, finished@, Seq::<int>::empty()),
            forall|x: int| 0 <= x < node ==> #[trigger] visited@[x],
        decreases n - node,
    {
        if !visited[node] {
            let ghost before = visited@;
            visit(node, adj, &mut visited, &mut finished, Ghost(Seq::<int>::empty()));
            proof {
                assert forall|x: int| 0 <= x < node + 1 implies #[trigger] visited@[x] by {
                    if x < node {
                        assert(before[x]);
                    }
                }
            }
        }
        node = node + 1;
    }
    let ghost fin = finished@;
    proof {
        assert forall|x: usize| x < n implies #[trigger] fin.contains(x) by {
            assert(visited@[x as int]);
        }
        assert(fin.len() == n) by {
            lemma_distinct_cover(fin, n as int);
        }
    }
    let mut order: Vec<usize> = Vec::new();
    let mut i: usize = finished.len();
    while i > 0
        invariant
            i <= fin.len(),
            fin == finished@,
            order@.len() == fin.len() - i,
            forall|k: int| 0 <= k < order@.len() ==> #[trigger] order@[k] == fin[fin.len() - 1 - k],
        decreases i,
    {
        i = i - 1;
        order.push(finished[i]);
    }
    proof {
        let len = fin.len() as int;
        assert(order@.no_duplicates()) by {
            assert forall|a: int, b: int| 0 <= a < order@.len() && 0 <= b < order@.len() && a != b implies order@[a]
                != order@[b] by {
                assert(order@[a] == fin[len - 1 - a]);
                assert(order@[b] == fin[len - 1 - b]);
            }
        }
        assert forall|k: int| 0 <= k < order@.len() implies #[trigger] order@[k] < adj@.len() by {
            assert(order@[k] == fin[len - 1 - k]);
        }
        if acyclic(g) {
            assert forall|a: int, b: int|
                0 <= a < order@.len() && 0 <= b < order@.len() && #[trigger] edge(
                    g,
                    order@[a] as int,
                    order@[b] as int,
                ) implies a < b by {
                let fa = len - 1 - a;
                let fb = len - 1 - b;
                assert(order@[a] == fin[fa]);
                assert(order@[b] == fin[fb]);
                assert(edge(g, fin[fa] as int, fin[fb] as int));
                if exists|j: int| 0 <= j < fa && fin[j] == fin[fb] as int {
                    let j = choose|j: int| 0 <= j < fa && fin[j] == fin[fb] as int;
                    assert(j == fb);
                } else {
                    assert(reaches(g, fin[fb] as int, fin[fa] as int));
                    let p = choose|p: Seq<int>| #[trigger] is_walk(g, p) && p[0] == fin[fb] as int && p.last()
                        == fin[fa] as int;
                    let q = p.push(fin[fb] as int);
                    assert forall|t: int| 0 <= t < q.len() - 1 implies #[trigger] edge(g, q[t], q[t + 1]) by {
                        if t < p.len() - 1 {
                            assert(q[t] == p[t] && q[t + 1] == p[t + 1]);
                        } else {
                            assert(q[t] == fin[fa] as int);
                        }
                    }
                    assert(is_walk(g, q));
                    assert(q[0] == q.last());
                }
            }
        }
    }
    order
}

proof fn lemma_distinct_cover(s: Seq<usize>, n: int)
    requires
        s.no_duplicates(),
        0 <= n <= usize::MAX,
        forall|i: int| 0 <= i < s.len() ==> #[trigger] s[i] < n,
        forall|x: usize| x < n ==> #[trigger] s.contains(x),
    ensures
        s.len() == n,
{
    let range = Set::new(|x: usize| x < n);
    assert(s.to_set() =~= range) by {
        assert forall|x: usize| range.contains(x) implies s.to_set().contains(x) by {
            assert(s.contains(x));
        }
    }
    s.unique_seq_to_set();
    lemma_range_set_len(n);
}

proof fn lemma_range_set_len(n: int)
    requires
        0 <= n <= usize::MAX,
    ensures
        Set::new(|x: usize| x < n).finite(),
        Set::new(|x: usize| x < n).len() == n,
    decreases n,
{
    if n == 0 {
        assert(Set::new(|x: usize| x < n) =~= Set::<usize>::empty());
    } else {
        lemma_range_set_len(n - 1);
        let smaller = Set::new(|x: usize| x < n - 1);
        assert(!smaller.contains((n - 1) as usize));
        assert(Set::new(|x: usize| x < n) =~= smaller.insert((n - 1) as usize));
    }
}

/// Why a schedule could not be built.
#[derive(Debug, PartialEq, Eq)]
pub enum ScheduleError {
    /// A task is asked to run both before and after the same task.
    TaskBeforeAndAfter,
    /// Two tasks of a stage share a name: the name, then the stage's name.
    DuplicateTaskName(String, String),
}

/// A unit of work of a schedule: its name, what it runs, and the names of
/// the tasks of its stage it must run before and after.
pub struct Task<F> {
    name: String,
    function: F,
    before: Vec<String>,
    after: Vec<String>,
}

/// The views of a list of names.
pub open spec fn names_view(names: Seq<String>) -> Seq<Seq<char>> {
    names.map_values(|n: String| n@)
}

impl<F> Task<F> {
    pub closed spec fn name_view(&self) -> Seq<char> {
        self.name@
    }

    pub closed spec fn payload(&self) -> F {
        self.function
    }

    /// The names of the tasks it must run before.
    pub closed spec fn befores(&self) -> Seq<Seq<char>> {
        names_view(self.before@)
    }

    /// The names of the tasks it must run after.
    pub closed spec fn afters(&self) -> Seq<Seq<char>> {
        names_view(self.after@)
    }

    /// Some task is named both among those to run before and those to run after.
    pub open spec fn conflicting(&self) -> bool {
        exists|i: int, j: int|
            0 <= i < self.befores().len() && 0 <= j < self.afters().len() && #[trigger] self.befores()[i]
                == #[trigger] self.afters()[j]
    }

    /// A task named `name` that runs `function`, with no constraints.
    pub fn new(name: &str, function: F) -> (t: Self)
        ensures
            t.name_view() == name@,
            t.payload() == function,
            t.befores() == Seq::<Seq<char>>::empty(),
            t.afters() == Seq::<Seq<char>>::empty(),
    {
        let t = Task { name: name.to_owned(), function, before: Vec::new(), after: Vec::new() };
        assert(t.befores() =~= Seq::<Seq<char>>::empty());
        assert(t.afters() =~= Seq::<Seq<char>>::empty());
        t
    }

    /// The task's name.
    pub fn name(&self) -> (n: &str)
        ensures
            n@ == self.name_view(),
    {
        self.name.as_str()
    }

    /// Also runs before the task named `task_name`.
    pub fn before(self, task_name: &str) -> (t: Self)
        ensures
            t.name_view() == self.name_view(),
            t.payload() == self.payload(),
            t.befores() == self.befores().push(task_name@),
            t.afters() == self.afters(),
    {
        let mut t = self;
        t.before.push(task_name.to_owned());
        assert(t.befores() =~= self.befores().push(task_name@));
        t
    }

    /// Also runs after the task named `task_name`.
    pub fn after(self, task_name: &str) -> (t: Self)
        ensures
            t.name_view() == self.name_view(),
            t.payload() == self.payload(),
            t.befores() == self.befores(),
            t.afters() == self.afters().push(task_name@),
    {
        let mut t = self;
        t.after.push(task_name.to_owned());
        assert(t.afters() =~= self.afters().push(task_name@));
        t
    }

    /// Fails where some task is named both to run before and after.
    fn validate(&self) -> (r: Result<(), ScheduleError>)
        ensures
            r is Ok <==> !self.conflicting(),
            r is Err ==> r == Err::<(), ScheduleError>(ScheduleError::TaskBeforeAndAfter),
    {
        let mut i: usize = 0;
        while i < self.before.len()
            invariant
                i <= self.before@.len(),
                forall|a: int, b: int|
                    0 <= a < i && 0 <= b < self.afters().len() ==> #[trigger] self.befores()[a] != #[trigger] self.afters()[b],
            decreases self.before@.len() - i,
        {
            let mut j: usize = 0;
            while j < self.after.len()
                invariant
                    i < self.before@.len(),
                    j <= self.after@.len(),
                    forall|a: int, b: int|
                        0 <= a < i && 0 <= b < self.afters().len() ==> #[trigger] self.befores()[a] != #[trigger] self.afters()[b],
                    forall|b: int| 0 <= b < j ==> self.befores()[i as int] != #[trigger] self.afters()[b],
                decreases self.after@.len() - j,
            {
                if self.before[i] == self.after[j] {
                    assert(self.befores()[i as int] == self.afters()[j as int]);
                    return Err(ScheduleError::TaskBeforeAndAfter);
                }
                j = j + 1;
            }
            i = i + 1;
        }
        Ok(())
    }
}

struct Stage<F> {
    name: String,
    tasks: Vec<Task<F>>,
}

/// Collects stages, each a list of tasks, and orders them into a schedule.
pub struct ScheduleBuilder<F> {
    stages: Vec<Stage<F>>,
}

/// Task `j` of `tasks` has the name of an earlier task.
pub open spec fn repeats_task_name<F>(tasks: Seq<Task<F>>, j: int) -> bool {
    exists|i: int| 0 <= i < j && tasks[i].name_view() == tasks[j].name_view()
}

/// Whether some task of `tasks` is named `name`.
fn task_named<F>(tasks: &Vec<Task<F>>, name: &String) -> (found: bool)
    ensures
        found == exists|b: int| 0 <= b < tasks@.len() && tasks@[b].name_view() == name@,
{
    let mut b: usize = 0;
    while b < tasks.len()
        invariant
            b <= tasks@.len(),
            forall|k: int| 0 <= k < b ==> tasks@[k].name_view() != name@,
        decreases tasks@.len() - b,
    {
        if tasks[b].name == *name {
            return true;
        }
        b = b + 1;
    }
    false
}

/// Whether every task a task of `tasks` is to run before is in `tasks`.
fn tasks_befores_known<F>(tasks: &Vec<Task<F>>) -> (ok: bool)
    ensures
        ok == befores_known(tasks@),
{
    let mut a: usize = 0;
    while a < tasks.len()
        invariant
            a <= tasks@.len(),
            forall|x: int, k: int|
                0 <= x < a && 0 <= k < tasks@[x].befores().len() ==> exists|b: int|
                    0 <= b < tasks@.len() && tasks@[b].name_view() == #[trigger] tasks@[x].befores()[k],
        decreases tasks@.len() - a,
    {
        let task = &tasks[a];
        let mut k: usize = 0;
        while k < task.before.len()
            invariant
                a < tasks@.len(),
                *task == tasks@[a as int],
                k <= task.before@.len(),
                forall|x: int, j: int|
                    0 <= x < a && 0 <= j < tasks@[x].befores().len() ==> exists|b: int|
                        0 <= b < tasks@.len() && tasks@[b].name_view() == #[trigger] tasks@[x].befores()[j],
                forall|j: int|
                    0 <= j < k ==> exists|b: int|
                        0 <= b < tasks@.len() && tasks@[b].name_view() == #[trigger] tasks@[a as int].befores()[j],
            decreases task.before@.len() - k,
        {
            assert(task.befores()[k as int] == task.before@[k as int]@);
            if !task_named(tasks, &task.before[k]) {
                assert(!(exists|b: int| 0 <= b < tasks@.len() && tasks@[b].name_view() == tasks@[a as int].befores()[k as int]));
                return false;
            }
            k = k + 1;
        }
        a = a + 1;
    }
    true
}

impl<F> ScheduleBuilder<F> {
    /// The stages' names, in order.
    pub closed spec fn stage_names(&self) -> Seq<Seq<char>> {
        self.stages@.map_values(|s: Stage<F>| s.name@)
    }

    /// The tasks of each stage, in the order they were added.
    pub closed spec fn stage_tasks(&self) -> Seq<Seq<Task<F>>> {
        self.stages@.map_values(|s: Stage<F>| s.tasks@)
    }

    /// Stage names are distinct.
    pub open spec fn wf(&self) -> bool {
        &&& self.stage_names().len() == self.stage_tasks().len()
        &&& forall|a: int, b: int|
            0 <= a < b < self.stage_names().len() ==> #[trigger] self.stage_names()[a] != #[trigger] self.stage_names()[b]
    }

    /// Whether there is a stage named `name`.
    pub open spec fn has_stage_named(&self, name: Seq<char>) -> bool {
        exists|s: int| 0 <= s < self.stage_names().len() && #[trigger] self.stage_names()[s] == name
    }

    /// No stages.
    pub fn new() -> (b: Self)
        ensures
            b.wf(),
            b.stage_names() == Seq::<Seq<char>>::empty(),
            b.stage_tasks() == Seq::<Seq<Task<F>>>::empty(),
    {
        let b = ScheduleBuilder { stages: Vec::new() };
        assert(b.stage_names() =~= Seq::<Seq<char>>::empty());
        assert(b.stage_tasks() =~= Seq::<Seq<Task<F>>>::empty());
        b
    }

    fn find_stage(&self, name: &str) -> (found: Option<usize>)
        ensures
            found is None <==> !self.has_stage_named(name@),
            found matches Some(s) ==> s < self.stage_names().len() && self.stage_names()[s as int] == name@,
    {
        let wanted = name.to_owned();
        let mut s: usize = 0;
        while s < self.stages.len()
            invariant
                s <= self.stages@.len(),
                wanted@ == name@,
                forall|k: int| 0 <= k < s ==> #[trigger] self.stage_names()[k] != name@,
            decreases self.stages@.len() - s,
        {
            if self.stages[s].name == wanted {
                assert(self.stage_names()[s as int] == name@);
                return Some(s);
            }
            s = s + 1;
        }
        None
    }

    /// Whether every task a task is to run before is a task of its stage,
    /// as `build` requires.
    pub fn befores_known_in_all_stages(&self) -> (ok: bool)
        ensures
            ok == forall|s: int| 0 <= s < self.stage_tasks().len() ==> befores_known(#[trigger] self.stage_tasks()[s]),
    {
        let mut s: usize = 0;
        while s < self.stages.len()
            invariant
                s <= self.stages@.len(),
                self.stage_tasks().len() == self.stages@.len(),
                forall|k: int| 0 <= k < s ==> befores_known(#[trigger] self.stage_tasks()[k]),
            decreases self.stages@.len() - s,
        {
            assert(self.stage_tasks()[s as int] == self.stages@[s as int].tasks@);
            if !tasks_befores_known(&self.stages[s].tasks) {
                return false;
            }
            s = s + 1;
        }
        true
    }

    /// Whether there is a stage named `name`.
    pub fn has_stage(&self, name: &str) -> (b: bool)
        ensures
            b == self.has_stage_named(name@),
    {
        self.find_stage(name).is_some()
    }

    /// Adds an empty stage named `name`, after the others; no stage may have
    /// that name yet.
    pub fn create_stage(&mut self, name: &str)
        requires
            old(self).wf(),
            !old(self).has_stage_named(name@),
        ensures
            final(self).wf(),
            final(self).stage_names() == old(self).stage_names().push(name@),
            final(self).stage_tasks() == old(self).stage_tasks().push(Seq::<Task<F>>::empty()),
    {
        let ghost before = *self;
        self.stages.push(Stage { name: name.to_owned(), tasks: Vec::new() });
        proof {
            assert(self.stage_names() =~= before.stage_names().push(name@));
            assert(self.stage_tasks() =~= before.stage_tasks().push(Seq::<Task<F>>::empty()));
            assert forall|a: int, b: int| 0 <= a < b < self.stage_names().len() implies #[trigger] self.stage_names()[a]
                != #[trigger] self.stage_names()[b] by {
                if b == before.stage_names().len() {
                    assert(before.stage_names()[a] == self.stage_names()[a]);
                }
            }
        }
    }

    /// Appends `task` to the stage named `stage`, which must exist.
    pub fn add_task(&mut self, stage: &str, task: Task<F>)
        requires
            old(self).wf(),
            old(self).has_stage_named(stage@),
        ensures
            final(self).wf(),
            final(self).stage_names() == old(self).stage_names(),
            exists|s: int|
                0 <= s < old(self).stage_names().len() && #[trigger] old(self).stage_names()[s] == stage@
                    && final(self).stage_tasks() == old(self).stage_tasks().update(s, old(self).stage_tasks()[s].push(task)),
    {
        let ghost before = *self;
        let found = self.find_stage(stage);
        match found {
            Some(s) => {
                let mut entry = Stage { name: String::new(), tasks: Vec::new() };
                std::mem::swap(&mut entry, &mut self.stages[s]);
                entry.tasks.push(task);
                self.stages.set(s, entry);
                proof {
                    assert(self.stage_names() =~= before.stage_names());
                    assert(self.stage_tasks() =~= before.stage_tasks().update(s as int, before.stage_tasks()[s as int].push(task)));
                }
            },
            None => {
                proof {
                    assert(false);
                }
            },
        }
    }
}

/// Task `a` of `tasks` must run before task `b`: `a` names `b` among the
/// tasks to run before, or `b` names `a` among the tasks to run after.
pub open spec fn must_precede<F>(tasks: Seq<Task<F>>, a: int, b: int) -> bool {
    ||| tasks[a].befores().contains(tasks[b].name_view())
    ||| tasks[b].afters().contains(tasks[a].name_view())
}

/// `p` is a chain of tasks of `tasks`, each to run before the next.
pub open spec fn is_precedence_chain<F>(tasks: Seq<Task<F>>, p: Seq<int>) -> bool {
    &&& p.len() >= 1
    &&& forall|i: int| 0 <= i < p.len() ==> 0 <= #[trigger] p[i] < tasks.len()
    &&& forall|i: int| 0 <= i < p.len() - 1 ==> #[trigger] must_precede(tasks, p[i], p[i + 1])
}

/// No task must, through a chain of one constraint or more, run before itself.
pub open spec fn precedence_acyclic<F>(tasks: Seq<Task<F>>) -> bool {
    forall|p: Seq<int>| #[trigger] is_precedence_chain(tasks, p) && p.len() >= 2 ==> p[0] != p.last()
}

/// Every task that a task of `tasks` is to run before is a task of `tasks`.
pub open spec fn befores_known<F>(tasks: Seq<Task<F>>) -> bool {
    forall|a: int, k: int|
        0 <= a < tasks.len() && 0 <= k < tasks[a].befores().len() ==> exists|b: int|
            0 <= b < tasks.len() && tasks[b].name_view() == #[trigger] tasks[a].befores()[k]
}

/// `order` lists each index below `n` exactly once.
pub open spec fn is_permutation(order: Seq<usize>, n: int) -> bool {
    &&& order.len() == n
    &&& order.no_duplicates()
    &&& forall|i: int| 0 <= i < order.len() ==> #[trigger] order[i] < n
}

/// In `order`, every task comes after the tasks it must run after.
pub open spec fn respects_precedence<F>(tasks: Seq<Task<F>>, order: Seq<usize>) -> bool {
    forall|i: int, j: int|
        0 <= i < order.len() && 0 <= j < order.len() && #[trigger] must_precede(tasks, order[i] as int, order[j] as int)
            ==> i < j
}

/// The name and function of each task of `order`.
pub open spec fn stage_entries<F>(tasks: Seq<Task<F>>, order: Seq<usize>) -> Seq<(Seq<char>, F)> {
    order.map_values(|i: usize| (tasks[i as int].name_view(), tasks[i as int].payload()))
}

/// The entries of all stages, stage after stage.
pub open spec fn schedule_entries<F>(stages: Seq<Seq<Task<F>>>, orders: Seq<Seq<usize>>) -> Seq<(Seq<char>, F)>
    decreases stages.len(),
{
    if stages.len() == 0 || orders.len() == 0 {
        Seq::empty()
    } else {
        schedule_entries(stages.drop_last(), orders.drop_last()) + stage_entries(stages.last(), orders.last())
    }
}

fn name_in(names: &Vec<String>, name: &String) -> (found: bool)
    ensures
        found == names_view(names@).contains(name@),
{
    let mut i: usize = 0;
    while i < names.len()
        invariant
            i <= names@.len(),
            forall|k: int| 0 <= k < i ==> #[trigger] names_view(names@)[k] != name@,
        decreases names@.len() - i,
    {
        if names[i] == *name {
            assert(names_view(names@)[i as int] == name@);
            return true;
        }
        i = i + 1;
    }
    false
}

fn precedes<F>(tasks: &Vec<Task<F>>, a: usize, b: usize) -> (p: bool)
    requires
        a < tasks@.len(),
        b < tasks@.len(),
    ensures
        p == must_precede(tasks@, a as int, b as int),
{
    name_in(&tasks[a].before, &tasks[b].name) || name_in(&tasks[b].after, &tasks[a].name)
}

/// The successor lists of the precedence among `tasks`.
fn precedence_graph<F>(tasks: &Vec<Task<F>>) -> (adj: Vec<Vec<usize>>)
    ensures
        adj@.len() == tasks@.len(),
        well_formed_graph(graph_of(adj@)),
        forall|a: int, b: int|
            #![trigger edge(graph_of(adj@), a, b)]
            0 <= a < tasks@.len() && 0 <= b < tasks@.len() ==> (edge(graph_of(adj@), a, b) <==> must_precede(tasks@, a, b)),
        forall|a: int, b: int| #[trigger] edge(graph_of(adj@), a, b) ==> 0 <= a < tasks@.len() && 0 <= b < tasks@.len(),
{
    let n = tasks.len();
    let mut adj: Vec<Vec<usize>> = Vec::new();
    let mut a: usize = 0;
    while a < n
        invariant
            n == tasks@.len(),
            a <= n,
            adj@.len() == a,
            forall|u: int, k: int| 0 <= u < a && 0 <= k < adj@[u]@.len() ==> #[trigger] adj@[u]@[k] < n,
            forall|u: int, b: int|
                0 <= u < a && 0 <= b < n ==> (adj@[u]@.contains(b as usize) <==> must_precede(tasks@, u, b)),
        decreases n - a,
    {
        let mut successors: Vec<usize> = Vec::new();
        let mut b: usize = 0;
        while b < n
            invariant
                n == tasks@.len(),
                a < n,
                b <= n,
                forall|k: int| 0 <= k < successors@.len() ==> #[trigger] successors@[k] < b,
                forall|c: int| 0 <= c < b ==> (successors@.contains(c as usize) <==> must_precede(tasks@, a as int, c)),
            decreases n - b,
        {
            let ghost prev = successors@;
            let p = precedes(tasks, a, b);
            if p {
                successors.push(b);
            }
            proof {
                assert forall|c: int| 0 <= c < b + 1 implies (successors@.contains(c as usize) <==> must_precede(tasks@, a as int, c)) by {
                    if c < b {
                        if successors@.contains(c as usize) {
                            let k = choose|k: int| 0 <= k < successors@.len() && successors@[k] == c as usize;
                            if k < prev.len() {
                                assert(prev[k] == c as usize);
                            }
                        }
                        if prev.contains(c as usize) {
                            let k = choose|k: int| 0 <= k < prev.len() && prev[k] == c as usize;
                            assert(successors@[k] == c as usize);
                        }
                    } else {
                        if p {
                            assert(successors@[prev.len() as int] == b);
                        } else if successors@.contains(c as usize) {
                            let k = choose|k: int| 0 <= k < successors@.len() && successors@[k] == c as usize;
                            assert(prev[k] < b);
                        }
                    }
                }
                assert forall|k: int| 0 <= k < successors@.len() implies #[trigger] successors@[k] < b + 1 by {
                    if k < prev.len() {
                        assert(prev[k] < b);
                    }
                }
            }
            b = b + 1;
        }
        adj.push(successors);
        proof {
            assert forall|u: int, b2: int|
                0 <= u < a + 1 && 0 <= b2 < n implies (adj@[u]@.contains(b2 as usize) <==> must_precede(tasks@, u, b2)) by {
            }
        }
        a = a + 1;
    }
    proof {
        let g = graph_of(adj@);
        assert forall|u: int, b: int| 0 <= u < n && 0 <= b < n implies (#[trigger] edge(g, u, b) <==> must_precede(tasks@, u, b)) by {
            if edge(g, u, b) {
                let k = choose|k: int| 0 <= k < g[u].len() && g[u][k] == b;
                assert(adj@[u]@[k] == b as usize);
                assert(adj@[u]@.contains(b as usize));
            }
            if must_precede(tasks@, u, b) {
                assert(adj@[u]@.contains(b as usize));
                let k = choose|k: int| 0 <= k < adj@[u]@.len() && adj@[u]@[k] == b as usize;
                assert(g[u][k] == b);
            }
        }
        assert forall|u: int, b: int| #[trigger] edge(g, u, b) implies 0 <= u < n && 0 <= b < n by {
            let k = choose|k: int| 0 <= k < g[u].len() && g[u][k] == b;
            assert(adj@[u]@[k] < n);
        }
    }
    adj
}

/// The functions of all stages in the order they run, each with its task's name.
pub struct Schedule<F> {
    functions: Vec<(String, F)>,
    orders: Ghost<Seq<Seq<usize>>>,
}

impl<F> Schedule<F> {
    /// The names and functions, in the order they run.
    pub closed spec fn entries(&self) -> Seq<(Seq<char>, F)> {
        self.functions@.map_values(|e: (String, F)| (e.0@, e.1))
    }

    /// For each stage, the positions of its tasks in the order they run.
    pub closed spec fn stage_orders(&self) -> Seq<Seq<usize>> {
        self.orders@
    }

    /// The names and functions, in the order they run.
    pub fn into_functions(self) -> (functions: Vec<(String, F)>)
        ensures
            functions@.map_values(|e: (String, F)| (e.0@, e.1)) == self.entries(),
    {
        self.functions
    }
}

impl<F> ScheduleBuilder<F> {
    /// No task is asked to run both before and after the same task.
    pub open spec fn tasks_consistent(&self) -> bool {
        forall|s: int, t: int|
            0 <= s < self.stage_tasks().len() && 0 <= t < self.stage_tasks()[s].len() ==> !(
            #[trigger] self.stage_tasks()[s][t]).conflicting()
    }

    /// No stage has two tasks of one name.
    pub open spec fn names_unique(&self) -> bool {
        forall|s: int, j: int|
            0 <= s < self.stage_tasks().len() && 0 <= j < self.stage_tasks()[s].len() ==> !#[trigger] repeats_task_name(
                self.stage_tasks()[s],
                j,
            )
    }

    /// Task `j` of stage `s` is the first task, stage after stage, that
    /// repeats the name of an earlier task of its stage.
    pub open spec fn first_duplicate(&self, s: int, j: int) -> bool {
        &&& 0 <= s < self.stage_tasks().len()
        &&& 0 <= j < self.stage_tasks()[s].len()
        &&& repeats_task_name(self.stage_tasks()[s], j)
        &&& forall|s2: int, j2: int|
            0 <= s2 < s && 0 <= j2 < self.stage_tasks()[s2].len() ==> !#[trigger] repeats_task_name(
                self.stage_tasks()[s2],
                j2,
            )
        &&& forall|j2: int| 0 <= j2 < j ==> !#[trigger] repeats_task_name(self.stage_tasks()[s], j2)
    }

    /// Fails where a task is asked to run both before and after a task, and
    /// then where a stage has two tasks of one name.
    fn validate(&self) -> (r: Result<(), ScheduleError>)
        requires
            self.wf(),
        ensures
            r is Ok <==> self.tasks_consistent() && self.names_unique(),
            !self.tasks_consistent() ==> r == Err::<(), ScheduleError>(ScheduleError::TaskBeforeAndAfter),
            self.tasks_consistent() && !self.names_unique() ==> (r matches Err(
                ScheduleError::DuplicateTaskName(name, stage),
            ) && exists|s: int, j: int|
                self.first_duplicate(s, j) && name@ == self.stage_tasks()[s][j].name_view() && stage@
                    == self.stage_names()[s]),
    {
        let mut s: usize = 0;
        while s < self.stages.len()
            invariant
                s <= self.stages@.len(),
                self.stage_tasks().len() == self.stages@.len(),
                forall|s2: int, t: int|
                    0 <= s2 < s && 0 <= t < self.stage_tasks()[s2].len() ==> !(
                    #[trigger] self.stage_tasks()[s2][t]).conflicting(),
            decreases self.stages@.len() - s,
        {
            let tasks = &self.stages[s].tasks;
            assert(tasks@ == self.stage_tasks()[s as int]);
            let mut t: usize = 0;
            while t < tasks.len()
                invariant
                    s < self.stages@.len(),
                    self.stage_tasks().len() == self.stages@.len(),
                    tasks@ == self.stage_tasks()[s as int],
                    t <= tasks@.len(),
                    forall|s2: int, t2: int|
                        0 <= s2 < s && 0 <= t2 < self.stage_tasks()[s2].len() ==> !(
                        #[trigger] self.stage_tasks()[s2][t2]).conflicting(),
                    forall|t2: int| 0 <= t2 < t ==> !(#[trigger] tasks@[t2]).conflicting(),
                decreases tasks@.len() - t,
            {
                match tasks[t].validate() {
                    Ok(()) => {},
                    Err(e) => {
                        assert(self.stage_tasks()[s as int][t as int].conflicting());
                        return Err(e);
                    },
                }
                t = t + 1;
            }
            s = s + 1;
        }
        let mut s: usize = 0;
        while s < self.stages.len()
            invariant
                s <= self.stages@.len(),
                self.stage_tasks().len() == self.stages@.len(),
                self.stage_names().len() == self.stages@.len(),
                self.tasks_consistent(),
                forall|s2: int, j2: int|
                    0 <= s2 < s && 0 <= j2 < self.stage_tasks()[s2].len() ==> !#[trigger] repeats_task_name(
                        self.stage_tasks()[s2],
                        j2,
                    ),
            decreases self.stages@.len() - s,
        {
            let tasks = &self.stages[s].tasks;
            assert(tasks@ == self.stage_tasks()[s as int]);
            let mut j: usize = 0;
            while j < tasks.len()
                invariant
                    s < self.stages@.len(),
                    self.stage_tasks().len() == self.stages@.len(),
                    self.stage_names().len() == self.stages@.len(),
                    self.tasks_consistent(),
                    tasks@ == self.stage_tasks()[s as int],
                    j <= tasks@.len(),
                    forall|s2: int, j2: int|
                        0 <= s2 < s && 0 <= j2 < self.stage_tasks()[s2].len() ==> !#[trigger] repeats_task_name(
                            self.stage_tasks()[s2],
                            j2,
                        ),
                    forall|j2: int| 0 <= j2 < j ==> !#[trigger] repeats_task_name(tasks@, j2),
                decreases tasks@.len() - j,
            {
                let mut i: usize = 0;
                while i < j
                    invariant
                        s < self.stages@.len(),
                        self.stage_tasks().len() == self.stages@.len(),
                        self.stage_names().len() == self.stages@.len(),
                        self.tasks_consistent(),
                        tasks@ == self.stage_tasks()[s as int],
                        j < tasks@.len(),
                        i <= j,
                        forall|s2: int, j2: int|
                            0 <= s2 < s && 0 <= j2 < self.stage_tasks()[s2].len() ==> !#[trigger] repeats_task_name(
                                self.stage_tasks()[s2],
                                j2,
                            ),
                        forall|j2: int| 0 <= j2 < j ==> !#[trigger] repeats_task_name(tasks@, j2),
                        forall|k: int| 0 <= k < i ==> #[trigger] tasks@[k].name_view() != tasks@[j as int].name_view(),
                    decreases j - i,
                {
                    if tasks[i].name == tasks[j].name {
                        proof {
                            assert(repeats_task_name(tasks@, j as int));
                            assert(self.first_duplicate(s as int, j as int));
                            assert(self.stage_names()[s as int] == self.stages@[s as int].name@);
                        }
                        return Err(ScheduleError::DuplicateTaskName(tasks[j].name.clone(), self.stages[s].name.clone()));
                    }
                    i = i + 1;
                }
                j = j + 1;
            }
            s = s + 1;
        }
        Ok(())
    }
}

proof fn lemma_acyclic_graph<F>(tasks: Seq<Task<F>>, g: Seq<Seq<usize>>)
    requires
        precedence_acyclic(tasks),
        forall|a: int, b: int|
            #![trigger edge(g, a, b)]
            0 <= a < tasks.len() && 0 <= b < tasks.len() ==> (edge(g, a, b) <==> must_precede(tasks, a, b)),
        forall|a: int, b: int| #[trigger] edge(g, a, b) ==> 0 <= a < tasks.len() && 0 <= b < tasks.len(),
    ensures
        acyclic(g),
{
    assert forall|p: Seq<int>| #[trigger] is_walk(g, p) && p.len() >= 2 implies p[0] != p.last() by {
        assert forall|i: int| 0 <= i < p.len() implies 0 <= #[trigger] p[i] < tasks.len() by {
            if i < p.len() - 1 {
                assert(edge(g, p[i], p[i + 1]));
            } else {
                assert(edge(g, p[i - 1], p[(i - 1) + 1]));
            }
        }
        assert forall|i: int| 0 <= i < p.len() - 1 implies #[trigger] must_precede(tasks, p[i], p[i + 1]) by {
            assert(edge(g, p[i], p[i + 1]));
        }
        assert(is_precedence_chain(tasks, p));
    }
}

impl<F> ScheduleBuilder<F> {
    /// Orders the tasks of each stage so that each comes after the tasks it
    /// must run after, where the constraints of the stage form no cycle, and
    /// lists the functions stage after stage. Fails as the checks do: where a
    /// task is asked to run both before and after a task, then where a stage
    /// has two tasks of one name. Every task a task is to run before must be
    /// in its stage.
    pub fn build(self) -> (r: Result<Schedule<F>, ScheduleError>)
        requires
            self.wf(),
            self.tasks_consistent() && self.names_unique() ==> forall|s: int|
                0 <= s < self.stage_tasks().len() ==> befores_known(#[trigger] self.stage_tasks()[s]),
        ensures
            r is Ok <==> self.tasks_consistent() && self.names_unique(),
            !self.tasks_consistent() ==> r matches Err(ScheduleError::TaskBeforeAndAfter),
            self.tasks_consistent() && !self.names_unique() ==> (r matches Err(
                ScheduleError::DuplicateTaskName(name, stage),
            ) && exists|s: int, j: int|
                self.first_duplicate(s, j) && name@ == self.stage_tasks()[s][j].name_view() && stage@
                    == self.stage_names()[s]),
            r matches Ok(schedule) ==> ({
                let orders = schedule.stage_orders();
                &&& orders.len() == self.stage_tasks().len()
                &&& forall|s: int|
                    0 <= s < orders.len() ==> is_permutation(#[trigger] orders[s], self.stage_tasks()[s].len() as int)
                &&& forall|s: int|
                    0 <= s < orders.len() && precedence_acyclic(#[trigger] self.stage_tasks()[s]) ==> respects_precedence(
                        self.stage_tasks()[s],
                        orders[s],
                    )
                &&& schedule.entries() == schedule_entries(self.stage_tasks(), orders)
            }),
    {
        match self.validate() {
            Ok(()) => {},
            Err(e) => {
                return Err(e);
            },
        }
        let ghost all = self.stage_tasks();
        let mut stages = self.stages;
        let mut functions: Vec<(String, F)> = Vec::new();
        let ghost mut orders: Seq<Seq<usize>> = Seq::empty();
        let mut s: usize = 0;
        while s < stages.len()
            invariant
                s <= stages@.len(),
                all.len() == stages@.len(),
                forall|s2: int| s <= s2 < stages@.len() ==> #[trigger] stages@[s2].tasks@ == all[s2],
                orders.len() == s,
                forall|s2: int| 0 <= s2 < s ==> is_permutation(#[trigger] orders[s2], all[s2].len() as int),
                forall|s2: int|
                    0 <= s2 < s && precedence_acyclic(#[trigger] all[s2]) ==> respects_precedence(all[s2], orders[s2]),
                functions@.map_values(|e: (String, F)| (e.0@, e.1)) == schedule_entries(all.take(s as int), orders),
            decreases stages@.len() - s,
        {
            let mut stage = Stage { name: String::new(), tasks: Vec::new() };
            std::mem::swap(&mut stage, &mut stages[s]);
            let ghost tasks_view = stage.tasks@;
            assert(tasks_view == all[s as int]);
            let graph = precedence_graph(&stage.tasks);
            let order = topological_order(&graph);
            proof {
                if precedence_acyclic(tasks_view) {
                    lemma_acyclic_graph(tasks_view, graph_of(graph@));
                    assert forall|i: int, j: int|
                        0 <= i < order@.len() && 0 <= j < order@.len() && #[trigger] must_precede(
                            tasks_view,
                            order@[i] as int,
                            order@[j] as int,
                        ) implies i < j by {
                        assert(edge(graph_of(graph@), order@[i] as int, order@[j] as int));
                    }
                }
            }
            let m = stage.tasks.len();
            let mut slots: Vec<Option<Task<F>>> = Vec::new();
            while stage.tasks.len() > 0
                invariant
                    m == tasks_view.len(),
                    stage.tasks@.len() + slots@.len() == m,
                    stage.tasks@ == tasks_view.take(stage.tasks@.len() as int),
                    forall|k: int| 0 <= k < slots@.len() ==> #[trigger] slots@[k] == Some(tasks_view[m - 1 - k]),
                decreases stage.tasks@.len(),
            {
                match stage.tasks.pop() {
                    Some(t) => {
                        slots.push(Some(t));
                    },
                    None => {},
                }
            }
            let ghost start = functions@.map_values(|e: (String, F)| (e.0@, e.1));
            let mut k: usize = 0;
            while k < order.len()
                invariant
                    m == tasks_view.len(),
                    slots@.len() == m,
                    order@.len() == m,
                    order@.no_duplicates(),
                    forall|i: int| 0 <= i < order@.len() ==> #[trigger] order@[i] < m,
                    k <= m,
                    forall|i: int|
                        0 <= i < m && !order@.take(k as int).contains(i as usize) ==> #[trigger] slots@[m - 1 - i]
                            == Some(tasks_view[i]),
                    functions@.map_values(|e: (String, F)| (e.0@, e.1)) == start + stage_entries(tasks_view, order@.take(k as int)),
                decreases m - k,
            {
                let i = order[k];
                assert(!order@.take(k as int).contains(i)) by {
                    if order@.take(k as int).contains(i) {
                        let q = choose|q: int| 0 <= q < k && order@.take(k as int)[q] == i;
                        assert(order@[q] == order@[k as int]);
                    }
                }
                let slot_index = m - 1 - i;
                assert(slots@[m - 1 - i as int] == Some(tasks_view[i as int]));
                let mut taken: Option<Task<F>> = None;
                std::mem::swap(&mut taken, &mut slots[slot_index]);
                match taken {
                    Some(task) => {
                        let ghost before = functions@.map_values(|e: (String, F)| (e.0@, e.1));
                        functions.push((task.name, task.function));
                        proof {
                            assert(task == tasks_view[i as int]);
                            assert(order@.take(k + 1) == order@.take(k as int).push(i));
                            assert(stage_entries(tasks_view, order@.take(k + 1)) =~= stage_entries(
                                tasks_view,
                                order@.take(k as int),
                            ).push((tasks_view[i as int].name_view(), tasks_view[i as int].payload())));
                            assert(functions@.map_values(|e: (String, F)| (e.0@, e.1)) =~= before.push(
                                (tasks_view[i as int].name_view(), tasks_view[i as int].payload()),
                            ));
                            assert(functions@.map_values(|e: (String, F)| (e.0@, e.1)) =~= start + stage_entries(
                                tasks_view,
                                order@.take(k + 1),
                            ));
                            assert forall|x: int|
                                0 <= x < m && !order@.take(k + 1).contains(x as usize) implies #[trigger] slots@[m - 1 - x]
                                    == Some(tasks_view[x]) by {
                                assert(order@.take(k + 1)[k as int] == i);
                                if order@.take(k as int).contains(x as usize) {
                                    let q = choose|q: int| 0 <= q < k && order@.take(k as int)[q] == x as usize;
                                    assert(order@.take(k + 1)[q] == x as usize);
                                }
                            }
                        }
                    },
                    None => {
                        proof {
                            assert(false);
                        }
                    },
                }
                k = k + 1;
            }
            proof {
                assert(order@.take(m as int) == order@);
                let new_orders = orders.push(order@);
                let pre = all.take(s as int);
                let post = all.take(s + 1);
                assert(post.drop_last() == pre);
                assert(post.last() == all[s as int]);
                assert(new_orders.drop_last() == orders);
                assert(new_orders.last() == order@);
                assert(schedule_entries(post, new_orders) == schedule_entries(pre, orders) + stage_entries(all[s as int], order@));
                orders = new_orders;
            }
            s = s + 1;
        }
        proof {
            assert(all.take(all.len() as int) == all);
        }
        Ok(Schedule { functions, orders: Ghost(orders) })
    }
}

} // verus!
