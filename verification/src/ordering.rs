//! Startup order: services start after the services they depend on, and
//! among those that are ready the one with the lowest priority value, then
//! the least name, starts first.

use vstd::prelude::*;
use crate::errors::{BloomError, Fault};
use crate::lexical::{
    chars_lt, lemma_text_lt_asymmetric, lemma_text_lt_irreflexive, lemma_text_lt_total,
    lemma_text_lt_transitive, text_lt,
};
use crate::service_file::{descriptors, Descriptor, ServiceFile};
use crate::text::{chars_of, same_chars};

verus! {

/// Service `j` names service `i` among its dependencies: `i` must start
/// before `j`.
pub open spec fn depends_on(s: Seq<Descriptor>, j: int, i: int) -> bool {
    0 <= i < s.len() && 0 <= j < s.len() && s[j].needs().contains(s[i].name)
}

/// Service `i` goes before service `j` when both are ready: by priority,
/// then by name, then by place in the input.
pub open spec fn starts_before(s: Seq<Descriptor>, i: int, j: int) -> bool {
    s[i].rank() < s[j].rank() || (s[i].rank() == s[j].rank() && (text_lt(s[i].name, s[j].name) || (
    s[i].name == s[j].name && i < j)))
}

/// Service `j` has not started and all that it depends on have.
pub open spec fn ready(s: Seq<Descriptor>, started: Seq<int>, j: int) -> bool {
    0 <= j < s.len() && !started.contains(j) && forall|i: int| #[trigger]
        depends_on(s, j, i) ==> started.contains(i)
}

/// Among the services `0..k`, the ready one that goes before the other ready
/// ones; -1 when none is ready.
pub open spec fn first_ready(s: Seq<Descriptor>, started: Seq<int>, k: int) -> int
    decreases k,
{
    if k <= 0 {
        -1
    } else {
        let best = first_ready(s, started, k - 1);
        if ready(s, started, k - 1) && (best < 0 || starts_before(s, k - 1, best)) {
            k - 1
        } else {
            best
        }
    }
}

/// The order that grows from `started` by starting, again and again, the
/// first ready service, until none is ready.
pub open spec fn extend_order(s: Seq<Descriptor>, started: Seq<int>) -> Seq<int>
    decreases s.len() - started.len(),
{
    let next = first_ready(s, started, s.len() as int);
    if next < 0 || started.len() >= s.len() {
        started
    } else {
        extend_order(s, started.push(next))
    }
}

/// The startup order of `s`, as places in `s`. It holds every service
/// unless some services depend on each other in a circle.
pub open spec fn startup_order(s: Seq<Descriptor>) -> Seq<int> {
    extend_order(s, Seq::empty())
}

/// The descriptors of `s` at the places that `order` lists.
pub open spec fn in_order(s: Seq<Descriptor>, order: Seq<int>) -> Seq<Descriptor> {
    Seq::new(order.len(), |p: int| s[order[p]])
}

/// The names of the services among `0..k` that `order` leaves out, in input
/// order.
pub open spec fn left_out(s: Seq<Descriptor>, order: Seq<int>, k: int) -> Seq<Seq<char>>
    decreases k,
{
    if k <= 0 {
        Seq::empty()
    } else if order.contains(k - 1) {
        left_out(s, order, k - 1)
    } else {
        left_out(s, order, k - 1).push(s[k - 1].name)
    }
}

/// Some service has the name `d`.
pub open spec fn known(s: Seq<Descriptor>, d: Seq<char>) -> bool {
    exists|i: int| 0 <= i < s.len() && #[trigger] s[i].name == d
}

/// The `k`th dependency of service `j` names no service.
pub open spec fn unknown_at(s: Seq<Descriptor>, j: int, k: int) -> bool {
    0 <= j < s.len() && 0 <= k < s[j].needs().len() && !known(s, s[j].needs()[k])
}

/// Every dependency names a service.
pub open spec fn all_known(s: Seq<Descriptor>) -> bool {
    forall|j: int, k: int| !#[trigger] unknown_at(s, j, k)
}

/// `(j, k)` is the first dependency, in input order, that names no service.
pub open spec fn first_unknown(s: Seq<Descriptor>, j: int, k: int) -> bool {
    unknown_at(s, j, k) && forall|j2: int, k2: int| #[trigger]
        unknown_at(s, j2, k2) ==> j < j2 || (j == j2 && k <= k2)
}

/// The places that a vector of indices lists.
pub open spec fn places(v: Seq<usize>) -> Seq<int> {
    Seq::new(v.len(), |p: int| v[p] as int)
}

/// What ordering the descriptors `s` gives. A dependency that names no
/// service is refused first: the first such dependency, in input order, is
/// reported. Where every dependency names a service, the services that a
/// circle of dependencies keeps from starting are reported. Otherwise the
/// descriptors come back in startup order.
pub open spec fn ordering_of(s: Seq<Descriptor>, r: Result<Seq<Descriptor>, Fault>) -> bool {
    let order = startup_order(s);
    match r {
        Ok(v) => all_known(s) && order.len() == s.len() && v == in_order(s, order),
        Err(Fault::UnknownDependency(dep, svc)) => !all_known(s) && exists|j: int, k: int| #[trigger]
            first_unknown(s, j, k) && dep == s[j].needs()[k] && svc == s[j].name,
        Err(Fault::DependencyCycle(names)) => all_known(s) && order.len() < s.len() && names
            == left_out(s, order, s.len() as int),
        Err(_) => false,
    }
}

/// The view of a result of ordering.
pub open spec fn ordered_view(r: Result<Vec<ServiceFile>, BloomError>) -> Result<
    Seq<Descriptor>,
    Fault,
> {
    match r {
        Ok(v) => Ok(descriptors(v@)),
        Err(e) => Err(e@),
    }
}

/// `names` holds the names of the descriptors `s`, place by place.
pub open spec fn names_of(names: Seq<Vec<char>>, s: Seq<Descriptor>) -> bool {
    names.len() == s.len() && forall|i: int| 0 <= i < s.len() ==> (#[trigger] names[i])@ == s[i].name
}

/// `m` tabulates `depends_on`: row `j` marks the services that `j` needs.
pub open spec fn matrix_of(m: Seq<Vec<bool>>, s: Seq<Descriptor>) -> bool {
    m.len() == s.len() && forall|j: int|
        0 <= j < s.len() ==> row_of((#[trigger] m[j])@, s, j)
}

/// `row` marks the services that service `j` needs.
pub open spec fn row_of(row: Seq<bool>, s: Seq<Descriptor>, j: int) -> bool {
    row.len() == s.len() && forall|i: int| 0 <= i < s.len() ==> #[trigger] row[i] == depends_on(s, j, i)
}

/// `done` marks the services that `started` lists.
pub open spec fn marks(done: Seq<bool>, started: Seq<int>) -> bool {
    forall|i: int| 0 <= i < done.len() ==> #[trigger] done[i] == started.contains(i)
}

fn collect_names(services: &Vec<ServiceFile>) -> (names: Vec<Vec<char>>)
    ensures
        names_of(names@, descriptors(services@)),
{
    let mut names: Vec<Vec<char>> = Vec::new();
    let mut i: usize = 0;
    while i < services.len()
        invariant
            i <= services.len(),
            names@.len() == i,
            forall|k: int| 0 <= k < i ==> (#[trigger] names@[k])@ == services@[k]@.name,
        decreases services.len() - i,
    {
        names.push(chars_of(services[i].name.as_str()));
        i += 1;
    }
    names
}

fn falses(n: usize) -> (row: Vec<bool>)
    ensures
        row@.len() == n,
        forall|i: int| 0 <= i < n ==> !#[trigger] row@[i],
{
    let mut row: Vec<bool> = Vec::new();
    let mut i: usize = 0;
    while i < n
        invariant
            i <= n,
            row@.len() == i,
            forall|k: int| 0 <= k < i ==> !#[trigger] row@[k],
        decreases n - i,
    {
        row.push(false);
        i += 1;
    }
    row
}

/// The services that service `j` needs, and the first of its dependencies
/// that names no service.
fn needs_row(services: &Vec<ServiceFile>, names: &Vec<Vec<char>>, j: usize) -> (r: (
    Vec<bool>,
    Option<usize>,
))
    requires
        j < services.len(),
        names_of(names@, descriptors(services@)),
    ensures
        row_of(r.0@, descriptors(services@), j as int),
        match r.1 {
            Some(k) => unknown_at(descriptors(services@), j as int, k as int) && forall|k2: int|
                0 <= k2 < k ==> !unknown_at(descriptors(services@), j as int, k2),
            None => forall|k2: int| !unknown_at(descriptors(services@), j as int, k2),
        },
{
    let ghost s = descriptors(services@);
    let n = services.len();
    let mut row = falses(n);
    let mut unknown: Option<usize> = None;
    match &services[j].dependencies {
        None => {
            proof {
                assert(s[j as int].needs().len() == 0);
                assert forall|i: int| 0 <= i < n implies !depends_on(s, j as int, i) by {}
            }
        },
        Some(deps) => {
            let ghost needs = s[j as int].needs();
            let mut k: usize = 0;
            while k < deps.len()
                invariant
                    k <= deps.len(),
                    n == services.len(),
                    j < n,
                    s == descriptors(services@),
                    names_of(names@, s),
                    needs == s[j as int].needs(),
                    needs.len() == deps@.len(),
                    forall|q: int| 0 <= q < deps@.len() ==> needs[q] == (#[trigger] deps@[q])@,
                    row@.len() == n,
                    forall|i: int|
                        0 <= i < n ==> #[trigger] row@[i] == needs.take(k as int).contains(
                            s[i].name,
                        ),
                    match unknown {
                        Some(u) => u < k && unknown_at(s, j as int, u as int) && forall|k2: int|
                            0 <= k2 < u ==> !unknown_at(s, j as int, k2),
                        None => forall|k2: int| 0 <= k2 < k ==> !unknown_at(s, j as int, k2),
                    },
                decreases deps.len() - k,
            {
                let d = chars_of(deps[k].as_str());
                let mut found = false;
                let mut i: usize = 0;
                let ghost before = row@;
                while i < n
                    invariant
                        i <= n,
                        n == services.len(),
                        k < deps.len(),
                        s == descriptors(services@),
                        names_of(names@, s),
                        d@ == needs[k as int],
                        needs.len() == deps@.len(),
                        row@.len() == n,
                        before.len() == n,
                        forall|x: int|
                            0 <= x < i ==> #[trigger] row@[x] == (before[x] || s[x].name == d@),
                        forall|x: int| i <= x < n ==> #[trigger] row@[x] == before[x],
                        found == exists|x: int| 0 <= x < i && #[trigger] s[x].name == d@,
                    decreases n - i,
                {
                    if same_chars(&d, &names[i]) {
                        row.set(i, true);
                        found = true;
                    }
                    i += 1;
                }
                proof {
                    assert(needs.take(k + 1) == needs.take(k as int).push(needs[k as int]));
                    assert forall|x: int| 0 <= x < n implies #[trigger] row@[x] == needs.take(
                        k + 1,
                    ).contains(s[x].name) by {
                        let t = needs.take(k as int);
                        if t.contains(s[x].name) {
                            let w = choose|w: int| 0 <= w < t.len() && t[w] == s[x].name;
                            assert(needs.take(k + 1)[w] == s[x].name);
                        }
                        if s[x].name == d@ {
                            assert(needs.take(k + 1)[k as int] == s[x].name);
                        }
                        let t1 = needs.take(k + 1);
                        if t1.contains(s[x].name) {
                            let w = choose|w: int| 0 <= w < t1.len() && t1[w] == s[x].name;
                            if w < k {
                                assert(t[w] == s[x].name);
                            }
                        }
                    }
                    assert(found == known(s, d@));
                }
                if !found && unknown.is_none() {
                    unknown = Some(k);
                }
                k += 1;
            }
            proof {
                assert(needs.take(k as int) == needs);
            }
        },
    }
    (row, unknown)
}

/// The table of `depends_on`, and the first dependency that names no
/// service.
fn needs_matrix(services: &Vec<ServiceFile>, names: &Vec<Vec<char>>) -> (r: (
    Vec<Vec<bool>>,
    Option<(usize, usize)>,
))
    requires
        names_of(names@, descriptors(services@)),
    ensures
        matrix_of(r.0@, descriptors(services@)),
        match r.1 {
            Some((j, k)) => first_unknown(descriptors(services@), j as int, k as int),
            None => all_known(descriptors(services@)),
        },
{
    let ghost s = descriptors(services@);
    let n = services.len();
    let mut m: Vec<Vec<bool>> = Vec::new();
    let mut unknown: Option<(usize, usize)> = None;
    let mut j: usize = 0;
    while j < n
        invariant
            j <= n,
            n == services.len(),
            s == descriptors(services@),
            names_of(names@, s),
            m@.len() == j,
            forall|x: int| 0 <= x < j ==> row_of((#[trigger] m@[x])@, s, x),
            match unknown {
                Some((uj, uk)) => uj < j && first_unknown(s, uj as int, uk as int),
                None => forall|j2: int, k2: int| 0 <= j2 < j ==> !#[trigger] unknown_at(s, j2, k2),
            },
        decreases n - j,
    {
        let (row, u) = needs_row(services, names, j);
        m.push(row);
        if unknown.is_none() {
            match u {
                Some(k) => {
                    unknown = Some((j, k));
                },
                None => {},
            }
        }
        j += 1;
    }
    (m, unknown)
}

/// Whether service `j` has not started and all that it needs have.
fn is_ready(m: &Vec<Vec<bool>>, done: &Vec<bool>, j: usize, Ghost(s): Ghost<Seq<Descriptor>>, Ghost(
    started,
): Ghost<Seq<int>>) -> (r: bool)
    requires
        j < s.len(),
        matrix_of(m@, s),
        done@.len() == s.len(),
        marks(done@, started),
    ensures
        r == ready(s, started, j as int),
{
    if done[j] {
        return false;
    }
    let n = done.len();
    let row = &m[j];
    let mut i: usize = 0;
    while i < n
        invariant
            i <= n,
            n == s.len(),
            j < n,
            row_of(row@, s, j as int),
            done@.len() == n,
            marks(done@, started),
            forall|x: int| 0 <= x < i && depends_on(s, j as int, x) ==> started.contains(x),
        decreases n - i,
    {
        if row[i] && !done[i] {
            proof {
                assert(depends_on(s, j as int, i as int));
                assert(!started.contains(i as int));
            }
            return false;
        }
        i += 1;
    }
    true
}

/// Whether service `i` goes before service `j` when both are ready.
fn goes_before(services: &Vec<ServiceFile>, names: &Vec<Vec<char>>, i: usize, j: usize) -> (r:
    bool)
    requires
        i < services.len(),
        j < services.len(),
        names_of(names@, descriptors(services@)),
    ensures
        r == starts_before(descriptors(services@), i as int, j as int),
{
    let a = services[i].rank();
    let b = services[j].rank();
    if a != b {
        a < b
    } else if chars_lt(&names[i], &names[j]) {
        true
    } else {
        same_chars(&names[i], &names[j]) && i < j
    }
}

/// The first ready service, if any is ready.
fn pick_ready(
    services: &Vec<ServiceFile>,
    names: &Vec<Vec<char>>,
    m: &Vec<Vec<bool>>,
    done: &Vec<bool>,
    Ghost(started): Ghost<Seq<int>>,
) -> (r: Option<usize>)
    requires
        names_of(names@, descriptors(services@)),
        matrix_of(m@, descriptors(services@)),
        done@.len() == services@.len(),
        marks(done@, started),
    ensures
        match r {
            Some(b) => b < services@.len() && b as int == first_ready(
                descriptors(services@),
                started,
                services@.len() as int,
            ),
            None => first_ready(descriptors(services@), started, services@.len() as int) < 0,
        },
{
    let ghost s = descriptors(services@);
    let n = services.len();
    let mut best: Option<usize> = None;
    let mut j: usize = 0;
    while j < n
        invariant
            j <= n,
            n == services@.len(),
            s == descriptors(services@),
            names_of(names@, s),
            matrix_of(m@, s),
            done@.len() == n,
            marks(done@, started),
            match best {
                Some(b) => b < j && b as int == first_ready(s, started, j as int),
                None => first_ready(s, started, j as int) < 0,
            },
        decreases n - j,
    {
        if is_ready(m, done, j, Ghost(s), Ghost(started)) {
            match best {
                None => {
                    best = Some(j);
                },
                Some(b) => {
                    if goes_before(services, names, j, b) {
                        best = Some(j);
                    }
                },
            }
        }
        j += 1;
    }
    best
}

/// The error for the `k`th dependency of service `j`, which names no
/// service.
fn unknown_error(services: &Vec<ServiceFile>, j: usize, k: usize) -> (e: BloomError)
    requires
        first_unknown(descriptors(services@), j as int, k as int),
    ensures
        e@ == Fault::UnknownDependency(
            descriptors(services@)[j as int].needs()[k as int],
            descriptors(services@)[j as int].name,
        ),
{
    let ghost s = descriptors(services@);
    let svc = services[j].name.clone();
    match &services[j].dependencies {
        Some(deps) => {
            proof {
                assert(s[j as int].needs() == crate::text::strings(deps@));
            }
            BloomError::UnknownDependency(deps[k].clone(), svc)
        },
        None => {
            proof {
                assert(s[j as int].needs().len() == 0);
            }
            BloomError::UnknownDependency(String::new(), svc)
        },
    }
}

/// Orders services for startup.
///
/// Each service comes after the services that it depends on. Among the
/// services that are ready at one time the one with the lowest priority
/// value comes first, then the one with the least name. Services that depend
/// on each other in a circle cannot start: they are reported as a
/// `DependencyCycle`. A dependency that names no service is reported as an
/// `UnknownDependency`, before anything is ordered.
pub fn order_services(services: Vec<ServiceFile>) -> (r: Result<Vec<ServiceFile>, BloomError>)
    ensures
        ordering_of(descriptors(services@), ordered_view(r)),
{
    let ghost s = descriptors(services@);
    let n = services.len();
    let names = collect_names(&services);
    let (m, unknown) = needs_matrix(&services, &names);
    match unknown {
        Some((j, k)) => {
            proof {
                assert(unknown_at(s, j as int, k as int));
            }
            return Err(unknown_error(&services, j, k));
        },
        None => {},
    }
    let mut done = falses(n);
    let mut order: Vec<usize> = Vec::new();
    proof {
        assert(places(order@) =~= Seq::<int>::empty());
    }
    while order.len() < n
        invariant_except_break
            startup_order(s) == extend_order(s, places(order@)),
        invariant
            n == services@.len(),
            s == descriptors(services@),
            names_of(names@, s),
            matrix_of(m@, s),
            done@.len() == n,
            marks(done@, places(order@)),
            order@.len() <= n,
            forall|p: int| 0 <= p < order@.len() ==> #[trigger] order@[p] < n,
        ensures
            startup_order(s) == places(order@),
        decreases n - order.len(),
    {
        let ghost started = places(order@);
        match pick_ready(&services, &names, &m, &done, Ghost(started)) {
            None => {
                break;
            },
            Some(b) => {
                order.push(b);
                done.set(b, true);
                proof {
                    assert(places(order@) =~= started.push(b as int));
                    assert forall|i: int| 0 <= i < n implies #[trigger] done@[i] == places(
                        order@,
                    ).contains(i) by {
                        if i == b {
                            assert(places(order@)[started.len() as int] == b);
                        } else if started.contains(i) {
                            let w = choose|w: int| 0 <= w < started.len() && started[w] == i;
                            assert(places(order@)[w] == i);
                        } else if places(order@).contains(i) {
                            let w = choose|w: int|
                                0 <= w < places(order@).len() && places(order@)[w] == i;
                            if w < started.len() {
                                assert(started[w] == i);
                            }
                        }
                    }
                }
            },
        }
    }
    let ghost full = places(order@);
    if order.len() < n {
        let mut left: Vec<String> = Vec::new();
        let mut i: usize = 0;
        while i < n
            invariant
                i <= n,
                n == services@.len(),
                s == descriptors(services@),
                done@.len() == n,
                marks(done@, full),
                crate::text::strings(left@) == left_out(s, full, i as int),
            decreases n - i,
        {
            if !done[i] {
                let ghost before = crate::text::strings(left@);
                left.push(services[i].name.clone());
                proof {
                    assert(crate::text::strings(left@) =~= before.push(s[i as int].name));
                }
            }
            i += 1;
        }
        return Err(BloomError::DependencyCycle(left));
    }
    let mut out: Vec<ServiceFile> = Vec::new();
    let mut p: usize = 0;
    while p < n
        invariant
            p <= n,
            n == services@.len(),
            n == order@.len(),
            s == descriptors(services@),
            forall|q: int| 0 <= q < order@.len() ==> #[trigger] order@[q] < n,
            out@.len() == p,
            forall|q: int| 0 <= q < p ==> (#[trigger] out@[q])@ == s[order@[q] as int],
        decreases n - p,
    {
        out.push(services[order[p]].duplicate());
        p += 1;
    }
    proof {
        assert(descriptors(out@) =~= in_order(s, full));
    }
    Ok(out)
}

/// Of two different services one goes before the other.
pub proof fn lemma_starts_before_total(s: Seq<Descriptor>, i: int, j: int)
    ensures
        i == j || starts_before(s, i, j) || starts_before(s, j, i),
{
    lemma_text_lt_total(s[i].name, s[j].name);
}

/// Of two services at most one goes before the other, and none before
/// itself.
pub proof fn lemma_starts_before_asymmetric(s: Seq<Descriptor>, i: int, j: int)
    ensures
        !(starts_before(s, i, j) && starts_before(s, j, i)),
{
    lemma_text_lt_asymmetric(s[i].name, s[j].name);
    lemma_text_lt_irreflexive(s[i].name);
}

/// Going before is transitive.
pub proof fn lemma_starts_before_transitive(s: Seq<Descriptor>, i: int, j: int, k: int)
    requires
        starts_before(s, i, j),
        starts_before(s, j, k),
    ensures
        starts_before(s, i, k),
{
    if s[i].rank() == s[j].rank() && s[j].rank() == s[k].rank() {
        if text_lt(s[i].name, s[j].name) && text_lt(s[j].name, s[k].name) {
            lemma_text_lt_transitive(s[i].name, s[j].name, s[k].name);
        }
    }
}

/// Service `b` is the one to start next after `started`: it is ready, and
/// it goes before every other ready service.
pub open spec fn chosen(s: Seq<Descriptor>, started: Seq<int>, b: int) -> bool {
    ready(s, started, b) && forall|j: int| #[trigger]
        ready(s, started, j) ==> j == b || starts_before(s, b, j)
}

/// `first_ready` finds the ready service that goes before the other ready
/// ones among `0..k`, and none only when none of them is ready.
pub proof fn lemma_first_ready(s: Seq<Descriptor>, started: Seq<int>, k: int)
    requires
        0 <= k <= s.len(),
    ensures
        ({
            let b = first_ready(s, started, k);
            if b < 0 {
                b == -1 && forall|j: int| 0 <= j < k ==> !#[trigger] ready(s, started, j)
            } else {
                b < k && ready(s, started, b) && forall|j: int|
                    0 <= j < k && #[trigger] ready(s, started, j) ==> j == b || starts_before(
                        s,
                        b,
                        j,
                    )
            }
        }),
    decreases k,
{
    if k > 0 {
        lemma_first_ready(s, started, k - 1);
        let prev = first_ready(s, started, k - 1);
        let b = first_ready(s, started, k);
        if ready(s, started, k - 1) && prev >= 0 {
            if starts_before(s, k - 1, prev) {
                assert forall|j: int| 0 <= j < k && #[trigger] ready(s, started, j) implies j == b
                    || starts_before(s, b, j) by {
                    if j != b && j != prev {
                        lemma_starts_before_transitive(s, k - 1, prev, j);
                    }
                }
            } else {
                lemma_starts_before_total(s, k - 1, prev);
            }
        }
    }
}

/// Each service in `o` was the one to start next after those before it.
pub open spec fn chosen_throughout(s: Seq<Descriptor>, o: Seq<int>) -> bool {
    forall|q: int| 0 <= q < o.len() ==> chosen(s, #[trigger] o.take(q), o[q])
}

/// Growing an order keeps it an order of chosen services, and ends only when
/// no service is ready or all have started.
pub proof fn lemma_extend_order(s: Seq<Descriptor>, started: Seq<int>)
    requires
        chosen_throughout(s, started),
    ensures
        chosen_throughout(s, extend_order(s, started)),
        started.len() <= extend_order(s, started).len(),
        extend_order(s, started).take(started.len() as int) == started,
        extend_order(s, started).len() >= s.len() || forall|j: int| !#[trigger]
            ready(s, extend_order(s, started), j),
    decreases s.len() - started.len(),
{
    let next = first_ready(s, started, s.len() as int);
    lemma_first_ready(s, started, s.len() as int);
    if next < 0 || started.len() >= s.len() {
        assert(started.take(started.len() as int) == started);
    } else {
        let grown = started.push(next);
        assert forall|q: int| 0 <= q < grown.len() implies chosen(
            s,
            #[trigger] grown.take(q),
            grown[q],
        ) by {
            if q < started.len() {
                assert(grown.take(q) == started.take(q));
            } else {
                assert(grown.take(q) == started);
            }
        }
        lemma_extend_order(s, grown);
        let full = extend_order(s, grown);
        assert(full.take(started.len() as int) == full.take(grown.len() as int).take(
            started.len() as int,
        ));
        assert(grown.take(started.len() as int) == started);
    }
}

/// The startup order lists only chosen services, and ends only when no
/// service is ready or all have started.
pub proof fn lemma_startup_order(s: Seq<Descriptor>)
    ensures
        chosen_throughout(s, startup_order(s)),
        startup_order(s).len() >= s.len() || forall|j: int| !#[trigger]
            ready(s, startup_order(s), j),
{
    lemma_extend_order(s, Seq::empty());
}

/// An order of chosen services lists places of `s`, each once.
pub proof fn lemma_chosen_distinct(s: Seq<Descriptor>, o: Seq<int>)
    requires
        chosen_throughout(s, o),
    ensures
        o.no_duplicates(),
        forall|q: int| 0 <= q < o.len() ==> 0 <= #[trigger] o[q] < s.len(),
{
    assert forall|p: int, q: int| 0 <= p < q < o.len() implies o[p] != o[q] by {
        assert(chosen(s, o.take(q), o[q]));
        assert(o.take(q)[p] == o[p]);
    }
    assert forall|q: int| 0 <= q < o.len() implies 0 <= #[trigger] o[q] < s.len() by {
        assert(chosen(s, o.take(q), o[q]));
    }
}

/// An order that lists places of `0..n`, each at most once, and not `x`, is
/// shorter than `n`.
proof fn lemma_place_missing(o: Seq<int>, n: int, x: int)
    requires
        o.no_duplicates(),
        forall|q: int| 0 <= q < o.len() ==> 0 <= #[trigger] o[q] < n,
        0 <= x < n,
        !o.contains(x),
    ensures
        o.len() < n,
{
    let range = vstd::set_lib::set_int_range(0, n);
    vstd::set_lib::lemma_int_range(0, n);
    o.unique_seq_to_set();
    let rest = range.remove(x);
    assert(o.to_set().subset_of(rest)) by {
        assert forall|v: int| o.to_set().contains(v) implies rest.contains(v) by {
            let q = choose|q: int| 0 <= q < o.len() && o[q] == v;
            assert(0 <= o[q] < n);
        }
    }
    vstd::set_lib::lemma_len_subset(o.to_set(), rest);
}

/// An order shorter than `n` leaves out a place of `0..n`.
proof fn lemma_some_place_missing(o: Seq<int>, n: int) -> (x: int)
    requires
        o.len() < n,
    ensures
        0 <= x < n,
        !o.contains(x),
{
    if forall|v: int| 0 <= v < n ==> o.contains(v) {
        let range = vstd::set_lib::set_int_range(0, n);
        vstd::set_lib::lemma_int_range(0, n);
        o.lemma_cardinality_of_set();
        assert(range.subset_of(o.to_set())) by {
            assert forall|v: int| range.contains(v) implies o.to_set().contains(v) by {
                assert(o.contains(v));
            }
        }
        assert(o.to_set().finite()) by {
            broadcast use vstd::seq_lib::seq_to_set_is_finite;

        }
        vstd::set_lib::lemma_len_subset(range, o.to_set());
        assert(false);
        0
    } else {
        choose|v: int| 0 <= v < n && !o.contains(v)
    }
}

/// The startup order lists places of `s`, each at most once.
pub proof fn lemma_startup_order_distinct(s: Seq<Descriptor>)
    ensures
        startup_order(s).no_duplicates(),
        startup_order(s).len() <= s.len(),
        forall|q: int|
            0 <= q < startup_order(s).len() ==> 0 <= #[trigger] startup_order(s)[q] < s.len(),
{
    lemma_startup_order(s);
    let o = startup_order(s);
    lemma_chosen_distinct(s, o);
    if o.len() > s.len() {
        let range = vstd::set_lib::set_int_range(0, s.len() as int);
        vstd::set_lib::lemma_int_range(0, s.len() as int);
        o.unique_seq_to_set();
        assert(o.to_set().subset_of(range)) by {
            assert forall|v: int| o.to_set().contains(v) implies range.contains(v) by {
                let q = choose|q: int| 0 <= q < o.len() && o[q] == v;
                assert(0 <= o[q] < s.len());
            }
        }
        vstd::set_lib::lemma_len_subset(o.to_set(), range);
    }
}

/// In the startup order every service comes after the services that it
/// depends on: whatever the service at place `q` needs stands at an earlier
/// place.
pub proof fn lemma_startup_order_respects_dependencies(s: Seq<Descriptor>, q: int, i: int)
    requires
        0 <= q < startup_order(s).len(),
        depends_on(s, startup_order(s)[q], i),
    ensures
        exists|p: int| 0 <= p < q && startup_order(s)[p] == i,
{
    lemma_startup_order(s);
    let o = startup_order(s);
    assert(chosen(s, o.take(q), o[q]));
    assert(o.take(q).contains(i));
    let p = choose|p: int| 0 <= p < o.take(q).len() && o.take(q)[p] == i;
    assert(o[p] == i);
}

/// Ties break on priority, then on name: the service at place `q` of the
/// startup order goes before every other service that was ready when it
/// started.
pub proof fn lemma_startup_order_breaks_ties(s: Seq<Descriptor>, q: int, j: int)
    requires
        0 <= q < startup_order(s).len(),
        ready(s, startup_order(s).take(q), j),
        j != startup_order(s)[q],
    ensures
        starts_before(s, startup_order(s)[q], j),
        s[startup_order(s)[q]].rank() < s[j].rank() || (s[startup_order(s)[q]].rank()
            == s[j].rank() && !text_lt(s[j].name, s[startup_order(s)[q]].name)),
{
    lemma_startup_order(s);
    let o = startup_order(s);
    assert(chosen(s, o.take(q), o[q]));
    lemma_text_lt_asymmetric(s[j].name, s[o[q]].name);
    lemma_text_lt_irreflexive(s[j].name);
}

/// The services `c` depend on each other in a circle: each on the next, and
/// the last on the first.
pub open spec fn is_cycle(s: Seq<Descriptor>, c: Seq<int>) -> bool {
    c.len() > 0 && depends_on(s, c.last(), c[0]) && forall|t: int|
        0 <= t < c.len() - 1 ==> depends_on(s, #[trigger] c[t], c[t + 1])
}

/// No service of a circle is in an order of chosen services.
proof fn lemma_cycle_never_starts(s: Seq<Descriptor>, c: Seq<int>, o: Seq<int>, q: int)
    requires
        is_cycle(s, c),
        chosen_throughout(s, o),
        0 <= q <= o.len(),
    ensures
        forall|t: int| 0 <= t < c.len() ==> !o.take(q).contains(#[trigger] c[t]),
    decreases q,
{
    if q > 0 {
        lemma_cycle_never_starts(s, c, o, q - 1);
        assert forall|t: int| 0 <= t < c.len() implies !o.take(q).contains(#[trigger] c[t]) by {
            if o.take(q).contains(c[t]) {
                let p = choose|p: int| 0 <= p < q && o.take(q)[p] == c[t];
                if p < q - 1 {
                    assert(o.take(q - 1)[p] == c[t]);
                } else {
                    assert(o[q - 1] == c[t]);
                    assert(chosen(s, o.take(q - 1), o[q - 1]));
                    let u = if t + 1 < c.len() {
                        t + 1
                    } else {
                        0
                    };
                    assert(depends_on(s, c[t], c[u]));
                    assert(o.take(q - 1).contains(c[u]));
                }
            }
        }
    } else {
        assert(o.take(0).len() == 0);
    }
}

/// The names that an order leaves out are those of the services that it
/// does not list.
pub proof fn lemma_left_out(s: Seq<Descriptor>, o: Seq<int>, k: int, x: int)
    requires
        0 <= x < k <= s.len(),
        !o.contains(x),
    ensures
        left_out(s, o, k).contains(s[x].name),
    decreases k,
{
    if x == k - 1 {
        assert(left_out(s, o, k).last() == s[x].name);
    } else {
        lemma_left_out(s, o, k - 1, x);
        if !o.contains(k - 1) {
            let prev = left_out(s, o, k - 1);
            let w = choose|w: int| 0 <= w < prev.len() && prev[w] == s[x].name;
            assert(prev.push(s[k - 1].name)[w] == s[x].name);
        }
    }
}

/// A dependency that names no service is reported, whatever else holds of
/// the services: ordering fails with `UnknownDependency`, which names the
/// first such dependency and the service that has it.
pub proof fn lemma_unknown_is_reported(s: Seq<Descriptor>, r: Result<Seq<Descriptor>, Fault>)
    requires
        !all_known(s),
        ordering_of(s, r),
    ensures
        r matches Err(Fault::UnknownDependency(dep, svc)) && !known(s, dep) && exists|j: int|
            0 <= j < s.len() && (#[trigger] s[j]).name == svc && s[j].needs().contains(dep),
{
    match r {
        Err(Fault::UnknownDependency(dep, svc)) => {
            let (j, k) = choose|j: int, k: int| #[trigger]
                first_unknown(s, j, k) && dep == s[j].needs()[k] && svc == s[j].name;
            assert(unknown_at(s, j, k));
            assert(s[j].name == svc);
        },
        _ => {},
    }
}

/// Services that depend on each other in a circle are reported: where
/// every dependency names a service, ordering fails with a dependency cycle
/// that names every service of the circle.
pub proof fn lemma_cycle_is_reported(
    s: Seq<Descriptor>,
    c: Seq<int>,
    r: Result<Seq<Descriptor>, Fault>,
)
    requires
        is_cycle(s, c),
        all_known(s),
        ordering_of(s, r),
    ensures
        r matches Err(Fault::DependencyCycle(names)) && forall|t: int|
            0 <= t < c.len() ==> names.contains(s[#[trigger] c[t]].name),
{
    let o = startup_order(s);
    lemma_startup_order(s);
    lemma_chosen_distinct(s, o);
    lemma_cycle_never_starts(s, c, o, o.len() as int);
    assert(o.take(o.len() as int) == o);
    assert(0 <= c[0] < s.len()) by {
        assert(depends_on(s, c.last(), c[0]));
    }
    lemma_place_missing(o, s.len() as int, c[0]);
    let names = left_out(s, o, s.len() as int);
    assert forall|t: int| 0 <= t < c.len() implies names.contains(s[#[trigger] c[t]].name) by {
        if t + 1 < c.len() {
            assert(depends_on(s, c[t], c[t + 1]));
        } else {
            assert(depends_on(s, c.last(), c[0]));
        }
        lemma_left_out(s, o, s.len() as int, c[t]);
    }
}

/// A walk from `x` along dependencies that have not started: each step goes
/// to such a dependency of the service before.
spec fn walk(s: Seq<Descriptor>, o: Seq<int>, x: int, t: nat) -> int
    decreases t,
{
    if t == 0 {
        x
    } else {
        let from = walk(s, o, x, (t - 1) as nat);
        choose|i: int| depends_on(s, from, i) && !o.contains(i)
    }
}

/// While no service is ready, the walk never leaves the services that have
/// not started.
proof fn lemma_walk(s: Seq<Descriptor>, o: Seq<int>, x: int, t: nat)
    requires
        0 <= x < s.len(),
        !o.contains(x),
        forall|j: int| !#[trigger] ready(s, o, j),
    ensures
        0 <= walk(s, o, x, t) < s.len(),
        !o.contains(walk(s, o, x, t)),
        t > 0 ==> depends_on(s, walk(s, o, x, (t - 1) as nat), walk(s, o, x, t)),
    decreases t,
{
    if t > 0 {
        lemma_walk(s, o, x, (t - 1) as nat);
        let from = walk(s, o, x, (t - 1) as nat);
        assert(!ready(s, o, from));
        let i = choose|i: int| depends_on(s, from, i) && !o.contains(i);
        assert(depends_on(s, from, i) && !o.contains(i));
    }
}

/// When the startup order leaves a service out, some services depend on
/// each other in a circle.
pub proof fn lemma_stuck_order_has_cycle(s: Seq<Descriptor>) -> (c: Seq<int>)
    requires
        startup_order(s).len() < s.len(),
    ensures
        is_cycle(s, c),
{
    let o = startup_order(s);
    let n = s.len() as int;
    lemma_startup_order(s);
    let x = lemma_some_place_missing(o, n);
    let w = Seq::new((n + 1) as nat, |t: int| walk(s, o, x, t as nat));
    assert forall|t: int| 0 <= t <= n implies 0 <= #[trigger] w[t] < n && !o.contains(w[t]) && (t
        > 0 ==> depends_on(s, w[t - 1], w[t])) by {
        lemma_walk(s, o, x, t as nat);
    }
    if w.no_duplicates() {
        let range = vstd::set_lib::set_int_range(0, n);
        vstd::set_lib::lemma_int_range(0, n);
        w.unique_seq_to_set();
        assert(w.to_set().subset_of(range)) by {
            assert forall|v: int| w.to_set().contains(v) implies range.contains(v) by {
                let q = choose|q: int| 0 <= q < w.len() && w[q] == v;
                assert(0 <= w[q] < n);
            }
        }
        vstd::set_lib::lemma_len_subset(w.to_set(), range);
        assert(false);
    }
    let (a, b) = choose|a: int, b: int| 0 <= a < w.len() && 0 <= b < w.len() && a != b && w[a] == w[b];
    let (lo, hi) = if a < b {
        (a, b)
    } else {
        (b, a)
    };
    let c = w.subrange(lo, hi);
    assert forall|t: int| 0 <= t < c.len() - 1 implies depends_on(s, #[trigger] c[t], c[t + 1]) by {
        assert(c[t] == w[lo + t]);
        assert(c[t + 1] == w[lo + t + 1]);
        assert(depends_on(s, w[lo + t + 1 - 1], w[lo + t + 1]));
    }
    assert(depends_on(s, c.last(), c[0])) by {
        assert(c.last() == w[hi - 1]);
        assert(c[0] == w[lo]);
        assert(depends_on(s, w[hi - 1], w[hi]));
    }
    c
}

/// When no services depend on each other in a circle and every dependency
/// names a service, ordering succeeds, and the result holds every service
/// once.
pub proof fn lemma_acyclic_is_ordered(s: Seq<Descriptor>, r: Result<Seq<Descriptor>, Fault>)
    requires
        forall|c: Seq<int>| !is_cycle(s, c),
        all_known(s),
        ordering_of(s, r),
    ensures
        r matches Ok(v) && v == in_order(s, startup_order(s)) && startup_order(s).len() == s.len()
            && startup_order(s).no_duplicates(),
{
    lemma_startup_order_distinct(s);
    if startup_order(s).len() < s.len() {
        let c = lemma_stuck_order_has_cycle(s);
        assert(false);
    }
    match r {
        Err(Fault::UnknownDependency(dep, svc)) => {
            let (j, k) = choose|j: int, k: int| #[trigger]
                first_unknown(s, j, k) && dep == s[j].needs()[k] && svc == s[j].name;
            assert(unknown_at(s, j, k));
        },
        _ => {},
    }
}

/// The services that ordering gives are all the services, each once, and
/// each comes after the services that it depends on: whatever the service
/// at place `q` names as a dependency is the name of a service at an
/// earlier place.
pub proof fn lemma_ordered_after_dependencies(
    s: Seq<Descriptor>,
    r: Result<Seq<Descriptor>, Fault>,
    q: int,
    k: int,
)
    requires
        ordering_of(s, r),
        r is Ok,
        0 <= q < r->Ok_0.len(),
        0 <= k < r->Ok_0[q].needs().len(),
    ensures
        r->Ok_0.len() == s.len(),
        startup_order(s).no_duplicates(),
        exists|p: int| 0 <= p < q && (#[trigger] r->Ok_0[p]).name == r->Ok_0[q].needs()[k],
{
    let o = startup_order(s);
    let v = r->Ok_0;
    lemma_startup_order_distinct(s);
    assert(v[q] == s[o[q]]);
    let dep = s[o[q]].needs()[k];
    assert(!unknown_at(s, o[q], k));
    let i = choose|i: int| 0 <= i < s.len() && #[trigger] s[i].name == dep;
    assert(s[o[q]].needs()[k] == s[i].name);
    assert(depends_on(s, o[q], i));
    lemma_startup_order_respects_dependencies(s, q, i);
    let p = choose|p: int| 0 <= p < q && o[p] == i;
    assert(v[p] == s[o[p]]);
}

} // verus!
