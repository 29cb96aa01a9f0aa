//! Service dependency ordering.
//!
//! Services name the services they depend on. A startup order puts every service after all
//! of its dependencies; the ordering functions find one or report that none exists
//! (a dependency cycle, or, for start-up ordering, a dependency on an unknown service).

use vstd::prelude::*;
use crate::text::{chars_eq, chars_lt, chars_of, lemma_str_lt_asym, lemma_str_lt_total, str_lt};

verus! {

/// A service and the names of the services it depends on.
#[derive(Debug)]
pub struct ServiceDeps {
    pub name: String,
    pub depends_on: Vec<String>,
}

/// No two services share a name.
pub open spec fn distinct_names(svcs: Seq<ServiceDeps>) -> bool {
    forall|i: int, j: int|
        0 <= i < svcs.len() && 0 <= j < svcs.len() && i != j ==> #[trigger] svcs[i].name@
            != #[trigger] svcs[j].name@
}

/// The position of the service called `n`.
pub open spec fn index_of(svcs: Seq<ServiceDeps>, n: Seq<char>) -> Option<int> {
    if exists|i: int| 0 <= i < svcs.len() && #[trigger] svcs[i].name@ == n {
        Some(choose|i: int| 0 <= i < svcs.len() && #[trigger] svcs[i].name@ == n)
    } else {
        None
    }
}

/// The dependency `d` is satisfied once the services marked in `done` have started:
/// a known service must be done; an unknown one never is in `strict` mode and is ignored
/// otherwise.
pub open spec fn dep_satisfied(svcs: Seq<ServiceDeps>, done: Seq<bool>, d: Seq<char>, strict: bool) -> bool {
    match index_of(svcs, d) {
        Some(j) => done[j],
        None => !strict,
    }
}

/// All dependencies of service `v` are satisfied by `done`.
pub open spec fn ready(svcs: Seq<ServiceDeps>, done: Seq<bool>, v: int, strict: bool) -> bool {
    forall|k: int|
        0 <= k < svcs[v].depends_on@.len() ==> dep_satisfied(
            svcs,
            done,
            #[trigger] svcs[v].depends_on@[k]@,
            strict,
        )
}

/// The services placed in `prefix`, as marks.
pub open spec fn marks(n: nat, prefix: Seq<int>) -> Seq<bool> {
    Seq::new(n, |j: int| prefix.contains(j))
}

/// `order` lists every service once, each after all of its dependencies.
pub open spec fn valid_order(svcs: Seq<ServiceDeps>, order: Seq<int>, strict: bool) -> bool {
    &&& order.no_duplicates()
    &&& forall|p: int| 0 <= p < order.len() ==> 0 <= #[trigger] order[p] < svcs.len()
    &&& forall|j: int| 0 <= j < svcs.len() ==> #[trigger] order.contains(j)
    &&& forall|p: int|
        0 <= p < order.len() ==> #[trigger] ready(
            svcs,
            marks(svcs.len(), order.take(p)),
            order[p],
            strict,
        )
}

/// Some order puts every service after its dependencies.
pub open spec fn orderable(svcs: Seq<ServiceDeps>, strict: bool) -> bool {
    exists|order: Seq<int>| valid_order(svcs, order, strict)
}

proof fn lemma_ready_mono(svcs: Seq<ServiceDeps>, d1: Seq<bool>, d2: Seq<bool>, v: int, strict: bool)
    requires
        d1.len() == svcs.len(),
        d2.len() == svcs.len(),
        forall|j: int| 0 <= j < svcs.len() && #[trigger] d1[j] ==> d2[j],
        ready(svcs, d1, v, strict),
    ensures
        ready(svcs, d2, v, strict),
{
    assert forall|k: int| 0 <= k < svcs[v].depends_on@.len() implies dep_satisfied(
        svcs,
        d2,
        #[trigger] svcs[v].depends_on@[k]@,
        strict,
    ) by {
        let d = svcs[v].depends_on@[k]@;
        assert(dep_satisfied(svcs, d1, d, strict));
        match index_of(svcs, d) {
            Some(j) => {},
            None => {},
        }
    }
}

/// When no pending service is ready, no order exists.
proof fn lemma_stuck(svcs: Seq<ServiceDeps>, done: Seq<bool>, w: int, strict: bool)
    requires
        done.len() == svcs.len(),
        0 <= w < svcs.len(),
        !done[w],
        forall|v: int| 0 <= v < svcs.len() && !done[v] ==> !#[trigger] ready(svcs, done, v, strict),
    ensures
        !orderable(svcs, strict),
{
    if orderable(svcs, strict) {
        let order = choose|order: Seq<int>| valid_order(svcs, order, strict);
        assert(order.contains(w));
        let p = lemma_first_pending(order, done, 0);
        let d1 = marks(svcs.len(), order.take(p));
        assert(ready(svcs, d1, order[p], strict));
        assert forall|j: int| 0 <= j < svcs.len() && #[trigger] d1[j] implies done[j] by {
            assert(order.take(p).contains(j));
            let q = choose|q: int| 0 <= q < p && #[trigger] order.take(p)[q] == j;
            assert(order[q] == j);
        }
        lemma_ready_mono(svcs, d1, done, order[p], strict);
    }
}

/// The first position of `order` holding a service not marked in `done`.
proof fn lemma_first_pending(order: Seq<int>, done: Seq<bool>, from: int) -> (p: int)
    requires
        0 <= from <= order.len(),
        forall|q: int| 0 <= q < from ==> done[#[trigger] order[q]],
        exists|q: int| from <= q < order.len() && !done[#[trigger] order[q]],
    ensures
        from <= p < order.len(),
        !done[order[p]],
        forall|q: int| 0 <= q < p ==> done[#[trigger] order[q]],
    decreases order.len() - from,
{
    if !done[order[from]] {
        from
    } else {
        lemma_first_pending(order, done, from + 1)
    }
}

/// The position of the service called `n`.
fn find_service(svcs: &[ServiceDeps], n: &[char]) -> (r: Option<usize>)
    requires
        distinct_names(svcs@),
    ensures
        r matches Some(j) ==> j < svcs@.len() && index_of(svcs@, n@) == Some(j as int),
        r is None ==> index_of(svcs@, n@) is None,
{
    let mut i: usize = 0;
    while i < svcs.len()
        invariant
            i <= svcs.len(),
            distinct_names(svcs@),
            forall|k: int| 0 <= k < i ==> (#[trigger] svcs@[k]).name@ != n@,
        decreases svcs.len() - i,
    {
        let c = chars_of(svcs[i].name.as_str());
        if chars_eq(&c, n) {
            assert(svcs@[i as int].name@ == n@);
            let ghost k = choose|k: int| 0 <= k < svcs@.len() && #[trigger] svcs@[k].name@ == n@;
            assert(svcs@[k].name@ == svcs@[i as int].name@);
            assert(k == i);
            return Some(i);
        }
        i = i + 1;
    }
    None
}

/// For each service, the positions of its dependencies (`None` for unknown names).
fn dependency_table(svcs: &[ServiceDeps]) -> (t: Vec<Vec<Option<usize>>>)
    requires
        distinct_names(svcs@),
    ensures
        t@.len() == svcs@.len(),
        forall|i: int|
            0 <= i < svcs@.len() ==> (#[trigger] t@[i])@.len() == svcs@[i].depends_on@.len(),
        forall|i: int, k: int|
            0 <= i < svcs@.len() && 0 <= k < svcs@[i].depends_on@.len() ==> match #[trigger] t@[i]@[k] {
                Some(j) => j < svcs@.len() && index_of(svcs@, svcs@[i].depends_on@[k]@) == Some(
                    j as int,
                ),
                None => index_of(svcs@, svcs@[i].depends_on@[k]@) is None,
            },
{
    let mut t: Vec<Vec<Option<usize>>> = Vec::new();
    let mut i: usize = 0;
    while i < svcs.len()
        invariant
            i <= svcs.len(),
            distinct_names(svcs@),
            t@.len() == i,
            forall|x: int|
                0 <= x < i ==> (#[trigger] t@[x])@.len() == svcs@[x].depends_on@.len(),
            forall|x: int, k: int|
                0 <= x < i && 0 <= k < svcs@[x].depends_on@.len() ==> match #[trigger] t@[x]@[k] {
                    Some(j) => j < svcs@.len() && index_of(svcs@, svcs@[x].depends_on@[k]@)
                        == Some(j as int),
                    None => index_of(svcs@, svcs@[x].depends_on@[k]@) is None,
                },
        decreases svcs.len() - i,
    {
        let mut row: Vec<Option<usize>> = Vec::new();
        let mut k: usize = 0;
        while k < svcs[i].depends_on.len()
            invariant
                i < svcs.len(),
                k <= svcs@[i as int].depends_on@.len(),
                distinct_names(svcs@),
                row@.len() == k,
                forall|y: int|
                    0 <= y < k ==> match #[trigger] row@[y] {
                        Some(j) => j < svcs@.len() && index_of(svcs@, svcs@[i as int].depends_on@[y]@)
                            == Some(j as int),
                        None => index_of(svcs@, svcs@[i as int].depends_on@[y]@) is None,
                    },
            decreases svcs@[i as int].depends_on@.len() - k,
        {
            let d = chars_of(svcs[i].depends_on[k].as_str());
            row.push(find_service(svcs, &d));
            k = k + 1;
        }
        t.push(row);
        i = i + 1;
    }
    t
}

/// Whether service `v` is ready given the marks `done`.
fn is_ready(
    svcs: &[ServiceDeps],
    table: &Vec<Vec<Option<usize>>>,
    done: &Vec<bool>,
    v: usize,
    strict: bool,
) -> (r: bool)
    requires
        v < svcs@.len(),
        done@.len() == svcs@.len(),
        table@.len() == svcs@.len(),
        forall|i: int|
            0 <= i < svcs@.len() ==> (#[trigger] table@[i])@.len() == svcs@[i].depends_on@.len(),
        forall|i: int, k: int|
            0 <= i < svcs@.len() && 0 <= k < svcs@[i].depends_on@.len() ==> match #[trigger] table@[i]@[k] {
                Some(j) => j < svcs@.len() && index_of(svcs@, svcs@[i].depends_on@[k]@) == Some(
                    j as int,
                ),
                None => index_of(svcs@, svcs@[i].depends_on@[k]@) is None,
            },
    ensures
        r == ready(svcs@, done@, v as int, strict),
{
    let mut k: usize = 0;
    let n = table[v].len();
    while k < n
        invariant
            v < svcs@.len(),
            table@.len() == svcs@.len(),
            n == table@[v as int]@.len(),
            n == svcs@[v as int].depends_on@.len(),
            done@.len() == svcs@.len(),
            k <= n,
            forall|y: int|
                0 <= y < k ==> dep_satisfied(svcs@, done@, #[trigger] svcs@[v as int].depends_on@[y]@, strict),
            forall|y: int|
                0 <= y < n ==> match #[trigger] table@[v as int]@[y] {
                    Some(j) => j < svcs@.len() && index_of(svcs@, svcs@[v as int].depends_on@[y]@)
                        == Some(j as int),
                    None => index_of(svcs@, svcs@[v as int].depends_on@[y]@) is None,
                },
        decreases n - k,
    {
        let ok = match table[v][k] {
            Some(j) => done[j],
            None => !strict,
        };
        if !ok {
            assert(!dep_satisfied(svcs@, done@, svcs@[v as int].depends_on@[k as int]@, strict));
            return false;
        }
        k = k + 1;
    }
    true
}

proof fn lemma_marks_push(n: nat, prefix: Seq<int>, v: int)
    ensures
        marks(n, prefix.push(v)) == marks(n, prefix).update(v, true) || !(0 <= v < n),
{
    if 0 <= v < n {
        assert forall|j: int| 0 <= j < n implies #[trigger] marks(n, prefix.push(v))[j] == marks(
            n,
            prefix,
        ).update(v, true)[j] by {
            if j == v {
                assert(prefix.push(v)[prefix.len() as int] == v);
            } else {
                if prefix.push(v).contains(j) {
                    let q = choose|q: int| 0 <= q < prefix.push(v).len() && #[trigger] prefix.push(v)[q] == j;
                    assert(q < prefix.len());
                    assert(prefix[q] == j);
                }
                if prefix.contains(j) {
                    let q = choose|q: int| 0 <= q < prefix.len() && #[trigger] prefix[q] == j;
                    assert(prefix.push(v)[q] == j);
                }
            }
        }
        assert(marks(n, prefix.push(v)) =~= marks(n, prefix).update(v, true));
    }
}

/// The first pending service that is ready, if any.
fn find_ready(
    svcs: &[ServiceDeps],
    table: &Vec<Vec<Option<usize>>>,
    done: &Vec<bool>,
    strict: bool,
) -> (r: Option<usize>)
    requires
        done@.len() == svcs@.len(),
        table@.len() == svcs@.len(),
        forall|i: int|
            0 <= i < svcs@.len() ==> (#[trigger] table@[i])@.len() == svcs@[i].depends_on@.len(),
        forall|i: int, k: int|
            0 <= i < svcs@.len() && 0 <= k < svcs@[i].depends_on@.len() ==> match #[trigger] table@[i]@[k] {
                Some(j) => j < svcs@.len() && index_of(svcs@, svcs@[i].depends_on@[k]@) == Some(
                    j as int,
                ),
                None => index_of(svcs@, svcs@[i].depends_on@[k]@) is None,
            },
    ensures
        r matches Some(v) ==> v < svcs@.len() && !done@[v as int] && ready(svcs@, done@, v as int, strict),
        r is None ==> forall|x: int| 0 <= x < svcs@.len() && !done@[x] ==> !#[trigger] ready(svcs@, done@, x, strict),
{
    let mut v: usize = 0;
    while v < svcs.len()
        invariant
            v <= svcs@.len(),
            done@.len() == svcs@.len(),
            table@.len() == svcs@.len(),
            forall|i: int|
                0 <= i < svcs@.len() ==> (#[trigger] table@[i])@.len() == svcs@[i].depends_on@.len(),
            forall|i: int, k: int|
                0 <= i < svcs@.len() && 0 <= k < svcs@[i].depends_on@.len() ==> match #[trigger] table@[i]@[k] {
                    Some(j) => j < svcs@.len() && index_of(svcs@, svcs@[i].depends_on@[k]@) == Some(
                        j as int,
                    ),
                    None => index_of(svcs@, svcs@[i].depends_on@[k]@) is None,
                },
            forall|x: int| 0 <= x < v && !done@[x] ==> !#[trigger] ready(svcs@, done@, x, strict),
        decreases svcs.len() - v,
    {
        if !done[v] && is_ready(svcs, table, done, v, strict) {
            return Some(v);
        }
        v = v + 1;
    }
    None
}

/// An order of all services in which every service comes after its dependencies, found by
/// repeatedly taking a service whose dependencies are already placed; `None` when no such
/// order exists.
fn peel_order(svcs: &[ServiceDeps], strict: bool) -> (r: Result<Vec<usize>, usize>)
    requires
        distinct_names(svcs@),
    ensures
        match r {
            Ok(o) => valid_order(svcs@, o@.map_values(|x: usize| x as int), strict),
            Err(w) => w < svcs@.len() && !orderable(svcs@, strict),
        },
{
    let n = svcs.len();
    let table = dependency_table(svcs);
    let mut done: Vec<bool> = Vec::new();
    let mut j: usize = 0;
    while j < n
        invariant
            n == svcs@.len(),
            j <= n,
            done@.len() == j,
            forall|x: int| 0 <= x < j ==> !(#[trigger] done@[x]),
        decreases n - j,
    {
        done.push(false);
        j = j + 1;
    }
    let mut order: Vec<usize> = Vec::new();
    let ghost mut ord: Seq<int> = Seq::empty();
    assert(done@ =~= marks(n as nat, ord));
    loop
        invariant
            n == svcs@.len(),
            done@.len() == n,
            table@.len() == svcs@.len(),
            forall|i: int|
                0 <= i < svcs@.len() ==> (#[trigger] table@[i])@.len() == svcs@[i].depends_on@.len(),
            forall|i: int, k: int|
                0 <= i < svcs@.len() && 0 <= k < svcs@[i].depends_on@.len() ==> match #[trigger] table@[i]@[k] {
                    Some(j) => j < svcs@.len() && index_of(svcs@, svcs@[i].depends_on@[k]@) == Some(
                        j as int,
                    ),
                    None => index_of(svcs@, svcs@[i].depends_on@[k]@) is None,
                },
            ord == order@.map_values(|x: usize| x as int),
            done@ == marks(n as nat, ord),
            ord.no_duplicates(),
            ord.len() <= n,
            forall|p: int| 0 <= p < ord.len() ==> 0 <= #[trigger] ord[p] < n,
            forall|p: int|
                0 <= p < ord.len() ==> #[trigger] ready(
                    svcs@,
                    marks(n as nat, ord.take(p)),
                    ord[p],
                    strict,
                ),
        decreases n - ord.len(),
    {
        let next = find_ready(svcs, &table, &done, strict);
        if next.is_none() {
            // stuck: either everything is placed, or no order exists
            let mut w: usize = 0;
            while w < n
                invariant
                    n == svcs@.len(),
                    w <= n,
                    done@.len() == n,
                    forall|x: int| 0 <= x < w ==> #[trigger] done@[x],
                    forall|x: int| 0 <= x < svcs@.len() && !done@[x] ==> !#[trigger] ready(svcs@, done@, x, strict),
                decreases n - w,
            {
                if !done[w] {
                    proof {
                        lemma_stuck(svcs@, done@, w as int, strict);
                    }
                    return Err(w);
                }
                w = w + 1;
            }
            proof {
                assert forall|x: int| 0 <= x < svcs@.len() implies #[trigger] ord.contains(x) by {
                    assert(done@[x]);
                    assert(marks(n as nat, ord)[x]);
                }
            }
            return Ok(order);
        }
        let v: usize = match next {
            Some(x) => x,
            None => 0,
        };
        proof {
            assert(!ord.contains(v as int)) by {
                assert(!marks(n as nat, ord)[v as int]);
            }
            lemma_marks_push(n as nat, ord, v as int);
            let ord2 = ord.push(v as int);
            assert(ord2.take(ord.len() as int) =~= ord);
            assert forall|p: int| 0 <= p < ord2.len() implies #[trigger] ready(
                svcs@,
                marks(n as nat, ord2.take(p)),
                ord2[p],
                strict,
            ) by {
                if p < ord.len() {
                    assert(ord2.take(p) =~= ord.take(p));
                    assert(ord2[p] == ord[p]);
                }
            }
        }
        order.push(v);
        done.set(v, true);
        proof {
            ord = ord.push(v as int);
            assert(ord =~= order@.map_values(|x: usize| x as int));
            assert(done@ =~= marks(n as nat, ord));
            if ord.len() > n {
                // more distinct entries than services
                lemma_distinct_bounded(ord, n as int);
            }
        }
    }
}

/// A duplicate-free sequence of positions below `n` has at most `n` entries.
proof fn lemma_distinct_bounded(s: Seq<int>, n: int)
    requires
        n >= 0,
        s.no_duplicates(),
        forall|p: int| 0 <= p < s.len() ==> 0 <= #[trigger] s[p] < n,
    ensures
        s.len() <= n,
{
    let st = s.to_set();
    s.unique_seq_to_set();
    {
        let full = vstd::set_lib::set_int_range(0, n);
        assert forall|x: int| st.contains(x) implies full.contains(x) by {
            assert(s.contains(x));
            let p = choose|p: int| 0 <= p < s.len() && #[trigger] s[p] == x;
        }
        vstd::set_lib::lemma_int_range(0, n);
        vstd::set_lib::lemma_len_subset(st, full);
    }
}

/// Why services cannot be ordered.
#[derive(Debug)]
pub enum DependencyError {
    /// A dependency cycle that the named service takes part in or depends on.
    CircularInvolving { service: String },
    /// No start-up order exists (a cycle, or a dependency on an unknown service).
    Circular,
}

impl DependencyError {
    /// The error message.
    pub fn message(&self) -> (r: String)
        ensures
            r@ == (match self {
                DependencyError::CircularInvolving { service } => circular_text() + involving_text()
                    + service@,
                DependencyError::Circular => circular_text(),
            }),
    {
        let mut v: Vec<char> = circular_chars();
        match self {
            DependencyError::CircularInvolving { service } => {
                crate::text::push_all(&mut v, &involving_chars());
                crate::text::push_str(&mut v, service.as_str());
            },
            DependencyError::Circular => {},
        }
        crate::text::string_of(&v)
    }
}

/// `Circular dependency detected`
pub open spec fn circular_text() -> Seq<char> {
    seq!['C', 'i', 'r', 'c', 'u', 'l', 'a', 'r', ' ', 'd', 'e', 'p', 'e', 'n', 'd', 'e', 'n', 'c', 'y', ' ', 'd', 'e', 't', 'e', 'c', 't', 'e', 'd']
}

/// ` involving service: `
pub open spec fn involving_text() -> Seq<char> {
    seq![' ', 'i', 'n', 'v', 'o', 'l', 'v', 'i', 'n', 'g', ' ', 's', 'e', 'r', 'v', 'i', 'c', 'e', ':', ' ']
}

fn circular_chars() -> (v: Vec<char>)
    ensures
        v@ == circular_text(),
{
    let v = vec!['C', 'i', 'r', 'c', 'u', 'l', 'a', 'r', ' ', 'd', 'e', 'p', 'e', 'n', 'd', 'e', 'n', 'c', 'y', ' ', 'd', 'e', 't', 'e', 'c', 't', 'e', 'd'];
    assert(v@ =~= circular_text());
    v
}

fn involving_chars() -> (v: Vec<char>)
    ensures
        v@ == involving_text(),
{
    let v = vec![' ', 'i', 'n', 'v', 'o', 'l', 'v', 'i', 'n', 'g', ' ', 's', 'e', 'r', 'v', 'i', 'c', 'e', ':', ' '];
    assert(v@ =~= involving_text());
    v
}

/// Checks that the dependencies between known services form no cycle (dependencies on
/// unknown services are ignored). On a cycle, names a service that cannot be started
/// because of it.
pub fn check_circular_dependencies(services: &[ServiceDeps]) -> (r: Result<(), DependencyError>)
    requires
        distinct_names(services@),
    ensures
        r is Ok <==> orderable(services@, false),
        r matches Err(e) ==> e matches DependencyError::CircularInvolving { service } && exists|i: int|
            0 <= i < services@.len() && #[trigger] services@[i].name@ == service@,
{
    match peel_order(services, false) {
        Ok(_) => Ok(()),
        Err(w) => {
            let service = services[w].name.clone();
            assert(services@[w as int].name@ == service@);
            Err(DependencyError::CircularInvolving { service })
        },
    }
}

/// The names of the services at positions `order`.
pub open spec fn names_at(svcs: Seq<ServiceDeps>, order: Seq<int>) -> Seq<Seq<char>> {
    order.map_values(|i: int| svcs[i].name@)
}

/// A start-up order: every service after the services it depends on.
pub fn topological_sort(services: &[ServiceDeps]) -> (r: Result<Vec<String>, DependencyError>)
    requires
        distinct_names(services@),
    ensures
        match r {
            Ok(names) => exists|order: Seq<int>|
                valid_order(services@, order, true) && names@.map_values(|s: String| s@)
                    == names_at(services@, order),
            Err(e) => e is Circular && !orderable(services@, true),
        },
{
    match peel_order(services, true) {
        Ok(o) => {
            let ghost order = o@.map_values(|x: usize| x as int);
            let mut names: Vec<String> = Vec::new();
            let mut p: usize = 0;
            assert forall|q: int| 0 <= q < o@.len() implies (#[trigger] o@[q]) < services@.len() by {
                assert(order[q] == o@[q] as int);
            }
            while p < o.len()
                invariant
                    p <= o@.len(),
                    order == o@.map_values(|x: usize| x as int),
                    forall|q: int| 0 <= q < o@.len() ==> (#[trigger] o@[q]) < services@.len(),
                    names@.len() == p,
                    forall|q: int| 0 <= q < p ==> (#[trigger] names@[q])@ == services@[order[q]].name@,
                decreases o.len() - p,
            {
                assert(0 <= order[p as int] < services@.len());
                names.push(services[o[p]].name.clone());
                p = p + 1;
            }
            assert(names@.map_values(|s: String| s@) =~= names_at(services@, order));
            Ok(names)
        },
        Err(_) => Err(DependencyError::Circular),
    }
}

/// Adjacent entries of `items` are in increasing order of service name.
pub open spec fn sorted_by_name(svcs: Seq<ServiceDeps>, items: Seq<int>) -> bool {
    forall|p: int| 0 <= p < items.len() - 1 ==> str_lt(svcs[#[trigger] items[p]].name@, svcs[items[p + 1]].name@)
}

/// Adjacent entries of `s` are in increasing order of service name.
spec fn sorted_positions(svcs: Seq<ServiceDeps>, s: Seq<usize>) -> bool {
    forall|q: int| 0 <= q < s.len() - 1 ==> str_lt(svcs[#[trigger] s[q] as int].name@, svcs[s[q + 1] as int].name@)
}

/// Inserting `x` between a smaller and a larger name keeps the positions sorted.
#[verifier::spinoff_prover]
#[verifier::rlimit(40)]
proof fn lemma_insert_sorted(svcs: Seq<ServiceDeps>, old: Seq<usize>, p: int, x: usize)
    requires
        0 <= p <= old.len(),
        x < svcs.len(),
        forall|q: int| 0 <= q < old.len() ==> #[trigger] old[q] < svcs.len(),
        old.no_duplicates(),
        !old.contains(x),
        sorted_positions(svcs, old),
        p > 0 ==> str_lt(svcs[old[p - 1] as int].name@, svcs[x as int].name@),
        p < old.len() ==> str_lt(svcs[x as int].name@, svcs[old[p] as int].name@),
    ensures
        forall|q: int| 0 <= q < old.insert(p, x).len() ==> #[trigger] old.insert(p, x)[q] < svcs.len(),
        old.insert(p, x).no_duplicates(),
        sorted_positions(svcs, old.insert(p, x)),
        forall|y: usize| #[trigger] old.insert(p, x).contains(y) <==> (old.contains(y) || y == x),
{
    let out = old.insert(p, x);
    assert forall|q: int| 0 <= q < out.len() - 1 implies str_lt(svcs[#[trigger] out[q] as int].name@, svcs[out[q + 1] as int].name@) by {
        if q + 1 < p {
            assert(out[q] == old[q]);
            assert(out[q + 1] == old[q + 1]);
        } else if q + 1 == p {
            assert(out[q] == old[q]);
        } else if q == p {
        } else {
            assert(out[q] == old[q - 1]);
            assert(out[q + 1] == old[q]);
        }
    }
    assert forall|q: int| 0 <= q < out.len() implies #[trigger] out[q] < svcs.len() by {
        if q < p {
            assert(out[q] == old[q]);
        } else if q > p {
            assert(out[q] == old[q - 1]);
        }
    }
    assert forall|y: usize| #[trigger] out.contains(y) <==> (old.contains(y) || y == x) by {
        if out.contains(y) {
            let q = choose|q: int| 0 <= q < out.len() && #[trigger] out[q] == y;
            if q < p {
                assert(old[q] == y);
            } else if q > p {
                assert(old[q - 1] == y);
            }
        }
        if old.contains(y) {
            let q = choose|q: int| 0 <= q < old.len() && #[trigger] old[q] == y;
            if q < p {
                assert(out[q] == y);
            } else {
                assert(out[q + 1] == y);
            }
        }
        if y == x {
            assert(out[p] == x);
        }
    }
    assert forall|a: int, b: int| 0 <= a < out.len() && 0 <= b < out.len() && a != b implies out[a] != out[b] by {
        let ia = if a < p { a } else if a == p { -1 } else { a - 1 };
        let ib = if b < p { b } else if b == p { -1 } else { b - 1 };
        if ia >= 0 && ib >= 0 {
            assert(out[a] == old[ia]);
            assert(out[b] == old[ib]);
        } else if ia >= 0 {
            assert(out[a] == old[ia]);
            assert(old.contains(out[a]));
        } else if ib >= 0 {
            assert(out[b] == old[ib]);
            assert(old.contains(out[b]));
        }
    }
}

/// The positions `items`, ordered by service name.
fn sort_by_name(svcs: &[ServiceDeps], items: &Vec<usize>) -> (r: Vec<usize>)
    requires
        distinct_names(svcs@),
        items@.no_duplicates(),
        forall|p: int| 0 <= p < items@.len() ==> #[trigger] items@[p] < svcs@.len(),
    ensures
        r@.len() == items@.len(),
        r@.no_duplicates(),
        forall|x: usize| #[trigger] r@.contains(x) <==> items@.contains(x),
        sorted_by_name(svcs@, r@.map_values(|x: usize| x as int)),
{
    let mut out: Vec<usize> = Vec::new();
    let mut i: usize = 0;
    while i < items.len()
        invariant
            i <= items@.len(),
            distinct_names(svcs@),
            items@.no_duplicates(),
            forall|p: int| 0 <= p < items@.len() ==> #[trigger] items@[p] < svcs@.len(),
            out@.len() == i,
            out@.no_duplicates(),
            forall|q: int| 0 <= q < out@.len() ==> #[trigger] out@[q] < svcs@.len(),
            forall|x: usize| #[trigger] out@.contains(x) <==> items@.take(i as int).contains(x),
            sorted_positions(svcs@, out@),
        decreases items.len() - i,
    {
        let x = items[i];
        let xn = chars_of(svcs[x].name.as_str());
        let mut p: usize = 0;
        while p < out.len() && !chars_lt(&xn, &chars_of(svcs[out[p]].name.as_str()))
            invariant
                p <= out@.len(),
                x < svcs@.len(),
                xn@ == svcs@[x as int].name@,
                forall|q: int| 0 <= q < out@.len() ==> #[trigger] out@[q] < svcs@.len(),
                p > 0 ==> !str_lt(xn@, svcs@[out@[p - 1] as int].name@),
            decreases out.len() - p,
        {
            p = p + 1;
        }
        proof {
            assert(!out@.contains(x)) by {
                if out@.contains(x) {
                    assert(items@.take(i as int).contains(x));
                    let q = choose|q: int| 0 <= q < i && #[trigger] items@.take(i as int)[q] == x;
                    assert(items@[q] == items@[i as int]);
                }
            }
            if p > 0 {
                let y = out@[p - 1];
                assert(y != x);
                assert(svcs@[y as int].name@ != svcs@[x as int].name@);
                lemma_str_lt_total(svcs@[y as int].name@, svcs@[x as int].name@);
            }
            lemma_insert_sorted(svcs@, out@, p as int, x);
        }
        let ghost old_out = out@;
        out.insert(p, x);
        proof {
            assert(items@.take(i + 1) =~= items@.take(i as int).push(x));
            assert forall|y: usize| #[trigger] out@.contains(y) <==> items@.take(i + 1).contains(y) by {
                assert(old_out.insert(p as int, x).contains(y) <==> (old_out.contains(y) || y == x));
                if items@.take(i + 1).contains(y) && y != x {
                    let q = choose|q: int| 0 <= q < i + 1 && #[trigger] items@.take(i + 1)[q] == y;
                    assert(items@.take(i as int)[q] == y);
                }
                if items@.take(i as int).contains(y) {
                    let q = choose|q: int| 0 <= q < i && #[trigger] items@.take(i as int)[q] == y;
                    assert(items@.take(i + 1)[q] == y);
                }
                if y == x {
                    assert(items@.take(i + 1)[i as int] == x);
                }
            }
        }
        i = i + 1;
    }
    assert(items@.take(items@.len() as int) =~= items@);
    proof {
        let m = out@.map_values(|x: usize| x as int);
        assert forall|p: int| 0 <= p < m.len() - 1 implies str_lt(svcs@[#[trigger] m[p]].name@, svcs@[m[p + 1]].name@) by {
            assert(m[p] == out@[p] as int);
            assert(m[p + 1] == out@[p + 1] as int);
        }
    }
    out
}

/// The concatenation of the levels.
pub open spec fn flatten_levels(lv: Seq<Seq<int>>) -> Seq<int>
    decreases lv.len(),
{
    if lv.len() == 0 {
        Seq::empty()
    } else {
        flatten_levels(lv.drop_last()) + lv.last()
    }
}

/// `lv` groups the services into start-up levels: level `k` holds exactly the services not
/// in an earlier level whose dependencies are all in earlier levels, ordered by name, and
/// every service is in some level.
pub open spec fn valid_levels(svcs: Seq<ServiceDeps>, lv: Seq<Seq<int>>) -> bool {
    &&& forall|k: int| #![trigger lv[k]] 0 <= k < lv.len() ==> lv[k].len() > 0
    &&& forall|k: int, v: int|
        #![trigger lv[k].contains(v)]
        0 <= k < lv.len() && 0 <= v < svcs.len() ==> (lv[k].contains(v) <==> (!marks(
            svcs.len(),
            flatten_levels(lv.take(k)),
        )[v] && ready(svcs, marks(svcs.len(), flatten_levels(lv.take(k))), v, true)))
    &&& forall|k: int| #![trigger lv[k]] 0 <= k < lv.len() ==> sorted_by_name(svcs, lv[k])
    &&& forall|v: int| 0 <= v < svcs.len() ==> #[trigger] flatten_levels(lv).contains(v)
    &&& forall|k: int, p: int| #![trigger lv[k][p]] 0 <= k < lv.len() && 0 <= p < lv[k].len() ==> 0 <= lv[k][p] < svcs.len()
}

/// The services grouped into levels that can start together: each level after the levels
/// holding its dependencies, names in a level in increasing order.
pub fn topological_sort_levels(services: &[ServiceDeps]) -> (r: Result<Vec<Vec<String>>, DependencyError>)
    requires
        distinct_names(services@),
    ensures
        match r {
            Ok(levels) => exists|lv: Seq<Seq<int>>|
                valid_levels(services@, lv) && levels@.len() == lv.len() && forall|k: int|
                    #![trigger levels@[k]]
                    0 <= k < lv.len() ==> levels@[k]@.map_values(|s: String| s@) == names_at(
                        services@,
                        lv[k],
                    ),
            Err(e) => e is Circular && !orderable(services@, true),
        },
{
    let n = services.len();
    let table = dependency_table(services);
    let mut done: Vec<bool> = Vec::new();
    let mut j: usize = 0;
    while j < n
        invariant
            n == services@.len(),
            j <= n,
            done@.len() == j,
            forall|x: int| 0 <= x < j ==> !(#[trigger] done@[x]),
        decreases n - j,
    {
        done.push(false);
        j = j + 1;
    }
    let mut levels: Vec<Vec<String>> = Vec::new();
    let ghost mut lv: Seq<Seq<int>> = Seq::empty();
    assert(done@ =~= marks(n as nat, flatten_levels(lv)));
    loop
        invariant
            n == services@.len(),
            distinct_names(services@),
            done@.len() == n,
            table@.len() == services@.len(),
            forall|i: int|
                0 <= i < services@.len() ==> (#[trigger] table@[i])@.len() == services@[i].depends_on@.len(),
            forall|i: int, k: int|
                0 <= i < services@.len() && 0 <= k < services@[i].depends_on@.len() ==> match #[trigger] table@[i]@[k] {
                    Some(j) => j < services@.len() && index_of(services@, services@[i].depends_on@[k]@) == Some(
                        j as int,
                    ),
                    None => index_of(services@, services@[i].depends_on@[k]@) is None,
                },
            done@ == marks(n as nat, flatten_levels(lv)),
            flatten_levels(lv).no_duplicates(),
            forall|p: int| 0 <= p < flatten_levels(lv).len() ==> 0 <= #[trigger] flatten_levels(lv)[p] < n,
            levels@.len() == lv.len(),
            forall|k: int| #![trigger levels@[k]] 0 <= k < lv.len() ==> levels@[k]@.map_values(|s: String| s@) == names_at(services@, lv[k]),
            forall|k: int| #![trigger lv[k]] 0 <= k < lv.len() ==> lv[k].len() > 0,
            forall|k: int, v: int|
                #![trigger lv[k].contains(v)]
                0 <= k < lv.len() && 0 <= v < n ==> (lv[k].contains(v) <==> (!marks(
                    n as nat,
                    flatten_levels(lv.take(k)),
                )[v] && ready(services@, marks(n as nat, flatten_levels(lv.take(k))), v, true))),
            forall|k: int| #![trigger lv[k]] 0 <= k < lv.len() ==> sorted_by_name(services@, lv[k]),
            forall|k: int, p: int| #![trigger lv[k][p]] 0 <= k < lv.len() && 0 <= p < lv[k].len() ==> 0 <= lv[k][p] < n,
        decreases n - flatten_levels(lv).len(),
    {
        proof {
            lemma_distinct_bounded(flatten_levels(lv), n as int);
        }
        // the services ready now
        let mut round: Vec<usize> = Vec::new();
        let mut v: usize = 0;
        while v < n
            invariant
                n == services@.len(),
                v <= n,
                done@.len() == n,
                table@.len() == services@.len(),
                forall|i: int|
                    0 <= i < services@.len() ==> (#[trigger] table@[i])@.len() == services@[i].depends_on@.len(),
                forall|i: int, k: int|
                    0 <= i < services@.len() && 0 <= k < services@[i].depends_on@.len() ==> match #[trigger] table@[i]@[k] {
                        Some(j) => j < services@.len() && index_of(services@, services@[i].depends_on@[k]@) == Some(
                            j as int,
                        ),
                        None => index_of(services@, services@[i].depends_on@[k]@) is None,
                    },
                round@.no_duplicates(),
                forall|p: int| 0 <= p < round@.len() ==> #[trigger] round@[p] < v,
                forall|x: usize| #[trigger] round@.contains(x) <==> (x < v && !done@[x as int] && ready(services@, done@, x as int, true)),
            decreases n - v,
        {
            if !done[v] && is_ready(services, &table, &done, v, true) {
                proof {
                    assert(!round@.contains(v)) by {
                        if round@.contains(v) {
                            let q = choose|q: int| 0 <= q < round@.len() && #[trigger] round@[q] == v;
                        }
                    }
                }
                let ghost r0 = round@;
                round.push(v);
                proof {
                    assert forall|x: usize| #[trigger] round@.contains(x) <==> (x < v + 1 && !done@[x as int] && ready(services@, done@, x as int, true)) by {
                        if round@.contains(x) && x != v {
                            let q = choose|q: int| 0 <= q < round@.len() && #[trigger] round@[q] == x;
                            assert(r0[q] == x);
                        }
                        if r0.contains(x) {
                            let q = choose|q: int| 0 <= q < r0.len() && #[trigger] r0[q] == x;
                            assert(round@[q] == x);
                        }
                        if x == v {
                            assert(round@[r0.len() as int] == v);
                        }
                    }
                }
            } else {
                proof {
                    assert forall|x: usize| #[trigger] round@.contains(x) <==> (x < v + 1 && !done@[x as int] && ready(services@, done@, x as int, true)) by {
                        if round@.contains(x) {
                            assert(x < v);
                        }
                    }
                }
            }
            v = v + 1;
        }
        if round.len() == 0 {
            let mut w: usize = 0;
            while w < n
                invariant
                    n == services@.len(),
                    w <= n,
                    done@.len() == n,
                    forall|x: int| 0 <= x < w ==> #[trigger] done@[x],
                    forall|x: usize| #[trigger] round@.contains(x) <==> (x < n && !done@[x as int] && ready(services@, done@, x as int, true)),
                    round@.len() == 0,
                decreases n - w,
            {
                if !done[w] {
                    proof {
                        assert forall|x: int| 0 <= x < services@.len() && !done@[x] implies !#[trigger] ready(services@, done@, x, true) by {
                            assert(!round@.contains(x as usize));
                        }
                        lemma_stuck(services@, done@, w as int, true);
                    }
                    return Err(DependencyError::Circular);
                }
                w = w + 1;
            }
            proof {
                assert forall|x: int| 0 <= x < services@.len() implies #[trigger] flatten_levels(lv).contains(x) by {
                    assert(done@[x]);
                    assert(marks(n as nat, flatten_levels(lv))[x]);
                }
            }
            assert(valid_levels(services@, lv));
            return Ok(levels);
        }
        let sorted = sort_by_name(services, &round);
        let ghost level = sorted@.map_values(|x: usize| x as int);
        // names of the level
        let mut names: Vec<String> = Vec::new();
        let mut p: usize = 0;
        while p < sorted.len()
            invariant
                p <= sorted@.len(),
                n == services@.len(),
                level == sorted@.map_values(|x: usize| x as int),
                forall|x: usize| #[trigger] sorted@.contains(x) <==> round@.contains(x),
                forall|q: int| 0 <= q < round@.len() ==> #[trigger] round@[q] < n,
                names@.len() == p,
                forall|q: int| 0 <= q < p ==> (#[trigger] names@[q])@ == services@[level[q]].name@,
            decreases sorted.len() - p,
        {
            proof {
                assert(sorted@.contains(sorted@[p as int]));
                assert(round@.contains(sorted@[p as int]));
                let q = choose|q: int| 0 <= q < round@.len() && #[trigger] round@[q] == sorted@[p as int];
            }
            names.push(services[sorted[p]].name.clone());
            p = p + 1;
        }
        // mark the level
        let ghost flat0 = flatten_levels(lv);
        let ghost done0 = done@;
        let mut p: usize = 0;
        while p < sorted.len()
            invariant
                p <= sorted@.len(),
                n == services@.len(),
                done@.len() == n,
                forall|x: usize| #[trigger] sorted@.contains(x) <==> round@.contains(x),
                forall|q: int| 0 <= q < round@.len() ==> #[trigger] round@[q] < n,
                forall|x: int| 0 <= x < n ==> #[trigger] done@[x] == (done0[x] || sorted@.take(p as int).contains(x as usize)),
            decreases sorted.len() - p,
        {
            proof {
                assert(sorted@.contains(sorted@[p as int]));
                assert(round@.contains(sorted@[p as int]));
                let q = choose|q: int| 0 <= q < round@.len() && #[trigger] round@[q] == sorted@[p as int];
            }
            done.set(sorted[p], true);
            proof {
                assert(sorted@.take(p + 1) =~= sorted@.take(p as int).push(sorted@[p as int]));
                assert forall|x: int| 0 <= x < n implies #[trigger] done@[x] == (done0[x] || sorted@.take(p + 1).contains(x as usize)) by {
                    if sorted@.take(p as int).contains(x as usize) {
                        let q = choose|q: int| 0 <= q < p && #[trigger] sorted@.take(p as int)[q] == x as usize;
                        assert(sorted@.take(p + 1)[q] == x as usize);
                    }
                    if sorted@.take(p + 1).contains(x as usize) && x as usize != sorted@[p as int] {
                        let q = choose|q: int| 0 <= q < p + 1 && #[trigger] sorted@.take(p + 1)[q] == x as usize;
                        assert(sorted@.take(p as int)[q] == x as usize);
                    }
                    if x as usize == sorted@[p as int] {
                        assert(sorted@.take(p + 1)[p as int] == sorted@[p as int]);
                    }
                }
            }
            p = p + 1;
        }
        levels.push(names);
        proof {
            assert(sorted@.take(sorted@.len() as int) =~= sorted@);
            assert forall|q: int| 0 <= q < sorted@.len() implies #[trigger] sorted@[q] < n by {
                assert(sorted@.contains(sorted@[q]));
                assert(round@.contains(sorted@[q]));
                let q2 = choose|q2: int| 0 <= q2 < round@.len() && #[trigger] round@[q2] == sorted@[q];
            }
            assert forall|q: int| 0 <= q < level.len() implies 0 <= #[trigger] level[q] < n && level[q] == sorted@[q] as int by {}
            let lv2 = lv.push(level);
            assert(lv2.drop_last() =~= lv);
            assert(flatten_levels(lv2) == flat0 + level);
            assert(lv2.take(lv.len() as int) =~= lv);
            // level membership
            assert forall|x: int| 0 <= x < n implies (#[trigger] level.contains(x) <==> round@.contains(x as usize)) by {
                if level.contains(x) {
                    let q = choose|q: int| 0 <= q < level.len() && #[trigger] level[q] == x;
                    assert(sorted@[q] as int == x);
                    assert(sorted@.contains(sorted@[q]));
                }
                if round@.contains(x as usize) {
                    assert(sorted@.contains(x as usize));
                    let q = choose|q: int| 0 <= q < sorted@.len() && #[trigger] sorted@[q] == x as usize;
                    assert(level[q] == x);
                }
            }
            assert forall|x: int| 0 <= x < n implies #[trigger] done@[x] == marks(n as nat, flatten_levels(lv2))[x] by {
                assert(done0[x] == flat0.contains(x));
                assert(done@[x] == (done0[x] || sorted@.take(sorted@.len() as int).contains(x as usize)));
                assert(sorted@.contains(x as usize) <==> round@.contains(x as usize));
                assert(round@.contains(x as usize) <==> level.contains(x));
                assert((flat0 + level).contains(x) <==> (flat0.contains(x) || level.contains(x))) by {
                    if (flat0 + level).contains(x) {
                        let q = choose|q: int| 0 <= q < (flat0 + level).len() && #[trigger] (flat0 + level)[q] == x;
                        if q < flat0.len() {
                            assert(flat0[q] == x);
                        } else {
                            assert(level[q - flat0.len()] == x);
                        }
                    }
                    if flat0.contains(x) {
                        let q = choose|q: int| 0 <= q < flat0.len() && #[trigger] flat0[q] == x;
                        assert((flat0 + level)[q] == x);
                    }
                    if level.contains(x) {
                        let q = choose|q: int| 0 <= q < level.len() && #[trigger] level[q] == x;
                        assert((flat0 + level)[flat0.len() + q] == x);
                    }
                }
                assert(marks(n as nat, flatten_levels(lv2))[x] == (flat0 + level).contains(x));
            }
            assert(done@ =~= marks(n as nat, flatten_levels(lv2)));
            // no duplicates in the flattened levels
            assert forall|a: int, b: int| 0 <= a < flatten_levels(lv2).len() && 0 <= b < flatten_levels(lv2).len() && a != b implies flatten_levels(lv2)[a] != flatten_levels(lv2)[b] by {
                let f = flat0 + level;
                if a < flat0.len() && b < flat0.len() {
                    assert(f[a] == flat0[a] && f[b] == flat0[b]);
                } else if a >= flat0.len() && b >= flat0.len() {
                    assert(f[a] == level[a - flat0.len()] && f[b] == level[b - flat0.len()]);
                    assert(sorted@[a - flat0.len()] != sorted@[b - flat0.len()]);
                } else {
                    let (x, y) = if a < flat0.len() { (a, b) } else { (b, a) };
                    assert(f[x] == flat0[x]);
                    assert(flat0.contains(f[x]));
                    assert(done0[f[x]]);
                    assert(f[y] == level[y - flat0.len()]);
                    assert(0 <= f[y] < n);
                    assert(level.contains(f[y]));
                    assert(round@.contains(f[y] as usize));
                }
            }
            assert forall|p: int| 0 <= p < flatten_levels(lv2).len() implies 0 <= #[trigger] flatten_levels(lv2)[p] < n by {
                let f = flat0 + level;
                if p >= flat0.len() {
                    assert(f[p] == level[p - flat0.len()]);
                } else {
                    assert(f[p] == flat0[p]);
                }
            }
            assert forall|k: int, v: int|
                #![trigger lv2[k].contains(v)]
                0 <= k < lv2.len() && 0 <= v < n implies (lv2[k].contains(v) <==> (!marks(
                    n as nat,
                    flatten_levels(lv2.take(k)),
                )[v] && ready(services@, marks(n as nat, flatten_levels(lv2.take(k))), v, true))) by {
                if k < lv.len() {
                    assert(lv2.take(k) =~= lv.take(k));
                    assert(lv2[k] == lv[k]);
                } else {
                    assert(lv2[k] == level);
                    assert(done0 == marks(n as nat, flatten_levels(lv2.take(k))));
                }
            }
            assert forall|k: int, p: int| #![trigger lv2[k][p]] 0 <= k < lv2.len() && 0 <= p < lv2[k].len() implies 0 <= lv2[k][p] < n by {
                if k < lv.len() {
                    assert(lv2[k] == lv[k]);
                } else {
                    assert(lv2[k] == level);
                }
            }
            assert(level.len() > 0);
            assert(flatten_levels(lv2).len() == flat0.len() + level.len());
            lemma_distinct_bounded(flatten_levels(lv2), n as int);
            assert(levels@.last()@.map_values(|s: String| s@) =~= names_at(services@, level));
            lv = lv2;
        }
    }
}

} // verus!
