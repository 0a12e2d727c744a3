//! What the walk over the files guarantees: where the includes form a
//! cycle that a root reaches, nothing is generated.

use vstd::prelude::*;

use crate::generator::code_gen::document::services_generable;
use crate::generator::{
    contribution, generated_source, visit, visit_includes, visit_roots, Failure, SourceModel,
};

verus! {

/// The file `x` includes the file `y`.
pub open spec fn includes(files: Seq<SourceModel>, x: usize, y: usize) -> bool {
    x < files.len() && files[x as int].includes.contains(y)
}

/// Each file of `p` includes the next.
pub open spec fn is_chain(files: Seq<SourceModel>, p: Seq<usize>) -> bool {
    forall|i: int| 0 <= i < p.len() - 1 ==> includes(files, #[trigger] p[i], p[i + 1])
}

/// The file `x` is on a cycle of includes: a chain of at least one
/// include leads from it back to itself.
pub open spec fn on_cycle(files: Seq<SourceModel>, x: usize) -> bool {
    exists|p: Seq<usize>| #[trigger]
        is_chain(files, p) && p.len() >= 2 && p[0] == x && p.last() == x
}

/// From the file `x` a chain of includes leads to a file on a cycle.
pub open spec fn reaches_cycle(files: Seq<SourceModel>, x: usize) -> bool {
    exists|p: Seq<usize>| #[trigger]
        is_chain(files, p) && p.len() >= 1 && p[0] == x && on_cycle(files, p.last())
}

/// Every include names a file that was read.
pub open spec fn all_read(files: Seq<SourceModel>) -> bool {
    forall|x: int, i: int|
        0 <= x < files.len() && 0 <= i < files[x].includes.len() ==> (
        #[trigger] files[x].includes[i]) < files.len()
}

/// Every file can be turned into code.
pub open spec fn all_generable(files: Seq<SourceModel>) -> bool {
    forall|x: int|
        0 <= x < files.len() ==> services_generable(
            (#[trigger] files[x]).document.services,
            files[x].document.services.len() as int,
        )
}

/// Whatever a file of `done` includes is in `done`.
pub open spec fn closed(files: Seq<SourceModel>, done: Seq<usize>) -> bool {
    forall|x: usize, y: usize|
        done.contains(x) && #[trigger] includes(files, x, y) ==> done.contains(y)
}

/// No file of `done` is on a cycle.
pub open spec fn cycle_free(files: Seq<SourceModel>, done: Seq<usize>) -> bool {
    forall|x: usize| #[trigger] done.contains(x) ==> !on_cycle(files, x)
}

/// `after` holds what `before` holds, and nothing of `on_path` beyond
/// it.
pub open spec fn grown(before: Seq<usize>, after: Seq<usize>, on_path: Seq<usize>) -> bool {
    &&& forall|x: usize| before.contains(x) ==> #[trigger] after.contains(x)
    &&& forall|x: usize|
        #[trigger] after.contains(x) && !before.contains(x) ==> !on_path.contains(x)
}

/// A chain that starts in a closed set stays in it.
pub proof fn lemma_chain_stays(files: Seq<SourceModel>, done: Seq<usize>, p: Seq<usize>, i: int)
    requires
        closed(files, done),
        is_chain(files, p),
        0 <= i < p.len(),
        done.contains(p[0]),
    ensures
        done.contains(p[i]),
    decreases i,
{
    if i > 0 {
        lemma_chain_stays(files, done, p, i - 1);
        assert(includes(files, p[i - 1], p[i]));
    }
}

/// A file whose includes are all in a closed set that does not hold the
/// file itself is on no cycle.
pub proof fn lemma_new_file_off_cycle(files: Seq<SourceModel>, done: Seq<usize>, v: usize)
    requires
        closed(files, done),
        !done.contains(v),
        forall|y: usize| includes(files, v, y) ==> done.contains(y),
    ensures
        !on_cycle(files, v),
{
    if on_cycle(files, v) {
        let p = choose|p: Seq<usize>| #[trigger]
            is_chain(files, p) && p.len() >= 2 && p[0] == v && p.last() == v;
        let q = p.skip(1);
        assert(includes(files, p[0], p[1]));
        assert(is_chain(files, q)) by {
            assert forall|i: int| 0 <= i < q.len() - 1 implies includes(
                files,
                #[trigger] q[i],
                q[i + 1],
            ) by {
                assert(includes(files, p[i + 1], p[i + 2]));
            }
        }
        lemma_chain_stays(files, done, q, q.len() - 1);
        assert(q[q.len() - 1] == v);
    }
}

/// A walk that succeeds leaves a closed set of files that are on no
/// cycle, and the file it started at is among them.
pub proof fn lemma_visit_sound(
    files: Seq<SourceModel>,
    v: usize,
    done: Seq<usize>,
    on_path: Seq<usize>,
    out: Seq<char>,
    fuel: nat,
)
    requires
        closed(files, done),
        cycle_free(files, done),
    ensures
        visit(files, v, done, on_path, out, fuel) matches Ok((after, _)) ==> closed(files, after)
            && cycle_free(files, after) && after.contains(v) && grown(done, after, on_path),
    decreases fuel, 0nat,
{
    if v < files.len() && !on_path.contains(v) && !done.contains(v) && fuel > 0 {
        let path = on_path.push(v);
        let incs = files[v as int].includes;
        lemma_includes_sound(files, incs, 0, done, path, out, (fuel - 1) as nat);
        match visit_includes(files, incs, 0, done, path, out, (fuel - 1) as nat) {
            Err(_) => {},
            Ok((done1, out1)) => {
                match contribution(files, v) {
                    Err(_) => {},
                    Ok(_) => {
                        let after = done1.push(v);
                        assert(path.contains(v)) by {
                            assert(path[path.len() - 1] == v);
                        }
                        assert(!done1.contains(v));
                        assert forall|y: usize| includes(files, v, y) implies done1.contains(
                            y,
                        ) by {
                            let j = choose|j: int| 0 <= j < incs.len() && incs[j] == y;
                            assert(done1.contains(incs[j]));
                        }
                        lemma_new_file_off_cycle(files, done1, v);
                        lemma_push_contains(done1, v);
                        assert(closed(files, after));
                        assert(cycle_free(files, after));
                        assert(grown(done, after, on_path)) by {
                            assert forall|x: usize| #[trigger]
                                after.contains(x) && !done.contains(x) implies !on_path.contains(
                                x,
                            ) by {
                                if x != v {
                                    assert(done1.contains(x));
                                    if on_path.contains(x) {
                                        lemma_push_contains(on_path, v);
                                        assert(path.contains(x));
                                    }
                                }
                            }
                        }
                    },
                }
            },
        }
    } else if v < files.len() && !on_path.contains(v) && done.contains(v) {
        assert(grown(done, done, on_path));
    }
}

/// What a sequence with one more value holds.
pub proof fn lemma_push_contains(s: Seq<usize>, v: usize)
    ensures
        forall|x: usize| #[trigger] s.push(v).contains(x) <==> (s.contains(x) || x == v),
{
    assert forall|x: usize| #[trigger] s.push(v).contains(x) <==> (s.contains(x) || x == v) by {
        if s.contains(x) {
            let i = choose|i: int| 0 <= i < s.len() && s[i] == x;
            assert(s.push(v)[i] == x);
        }
        if x == v {
            assert(s.push(v)[s.len() as int] == v);
        }
        if s.push(v).contains(x) {
            let i = choose|i: int| 0 <= i < s.push(v).len() && s.push(v)[i] == x;
            if i < s.len() {
                assert(s[i] == x);
            }
        }
    }
}

/// A walk over includes that succeeds leaves a closed set of files that
/// are on no cycle, with every include among them.
pub proof fn lemma_includes_sound(
    files: Seq<SourceModel>,
    incs: Seq<usize>,
    k: int,
    done: Seq<usize>,
    on_path: Seq<usize>,
    out: Seq<char>,
    fuel: nat,
)
    requires
        closed(files, done),
        cycle_free(files, done),
        0 <= k <= incs.len(),
    ensures
        visit_includes(files, incs, k, done, on_path, out, fuel) matches Ok((after, _))
            ==> closed(files, after) && cycle_free(files, after) && grown(done, after, on_path)
            && forall|j: int| k <= j < incs.len() ==> after.contains(#[trigger] incs[j]),
    decreases fuel, 1nat, incs.len() - k,
{
    if k < incs.len() {
        lemma_visit_sound(files, incs[k], done, on_path, out, fuel);
        match visit(files, incs[k], done, on_path, out, fuel) {
            Err(_) => {},
            Ok((done1, out1)) => {
                lemma_includes_sound(files, incs, k + 1, done1, on_path, out1, fuel);
                match visit_includes(files, incs, k + 1, done1, on_path, out1, fuel) {
                    Err(_) => {},
                    Ok((after, _)) => {
                        assert(after.contains(incs[k]));
                        assert(grown(done, after, on_path));
                    },
                }
            },
        }
    } else {
        assert(grown(done, done, on_path));
    }
}

/// The files that are done are a set: a walk that starts with no file
/// twice among them and succeeds ends with no file twice among them.
pub proof fn lemma_done_once(
    files: Seq<SourceModel>,
    v: usize,
    done: Seq<usize>,
    on_path: Seq<usize>,
    out: Seq<char>,
    fuel: nat,
)
    requires
        done.no_duplicates(),
    ensures
        visit(files, v, done, on_path, out, fuel) matches Ok((after, _))
            ==> after.no_duplicates() && grown(done, after, on_path),
    decreases fuel, 0nat,
{
    if v < files.len() && !on_path.contains(v) && !done.contains(v) && fuel > 0 {
        let path = on_path.push(v);
        let incs = files[v as int].includes;
        lemma_includes_done_once(files, incs, 0, done, path, out, (fuel - 1) as nat);
        match visit_includes(files, incs, 0, done, path, out, (fuel - 1) as nat) {
            Err(_) => {},
            Ok((done1, _)) => {
                match contribution(files, v) {
                    Err(_) => {},
                    Ok(_) => {
                        let after = done1.push(v);
                        assert(path.contains(v)) by {
                            assert(path[path.len() - 1] == v);
                        }
                        assert(!done1.contains(v));
                        lemma_push_contains(done1, v);
                        assert(after.no_duplicates()) by {
                            assert forall|i: int, j: int|
                                0 <= i < after.len() && 0 <= j < after.len() && i != j implies after[i]
                                != after[j] by {
                                if i < done1.len() && j < done1.len() {
                                    assert(done1[i] != done1[j]);
                                } else if i < done1.len() {
                                    assert(done1.contains(done1[i]));
                                } else {
                                    assert(done1.contains(done1[j]));
                                }
                            }
                        }
                        assert(grown(done, after, on_path)) by {
                            assert forall|x: usize| #[trigger]
                                after.contains(x) && !done.contains(x) implies !on_path.contains(
                                x,
                            ) by {
                                if x != v {
                                    assert(done1.contains(x));
                                    if on_path.contains(x) {
                                        lemma_push_contains(on_path, v);
                                        assert(path.contains(x));
                                    }
                                }
                            }
                        }
                    },
                }
            },
        }
    } else if v < files.len() && !on_path.contains(v) && done.contains(v) {
        assert(grown(done, done, on_path));
    }
}

/// A walk over includes that starts with no file twice among those done
/// and succeeds ends with no file twice among them.
pub proof fn lemma_includes_done_once(
    files: Seq<SourceModel>,
    incs: Seq<usize>,
    k: int,
    done: Seq<usize>,
    on_path: Seq<usize>,
    out: Seq<char>,
    fuel: nat,
)
    requires
        done.no_duplicates(),
        0 <= k <= incs.len(),
    ensures
        visit_includes(files, incs, k, done, on_path, out, fuel) matches Ok((after, _))
            ==> after.no_duplicates() && grown(done, after, on_path),
    decreases fuel, 1nat, incs.len() - k,
{
    if k < incs.len() {
        lemma_done_once(files, incs[k], done, on_path, out, fuel);
        match visit(files, incs[k], done, on_path, out, fuel) {
            Err(_) => {},
            Ok((done1, out1)) => {
                lemma_includes_done_once(files, incs, k + 1, done1, on_path, out1, fuel);
                match visit_includes(files, incs, k + 1, done1, on_path, out1, fuel) {
                    Err(_) => {},
                    Ok((after, _)) => {
                        assert(grown(done, after, on_path));
                    },
                }
            },
        }
    } else {
        assert(grown(done, done, on_path));
    }
}

/// Where every include names a file that was read and every file can be
/// turned into code, a walk fails for one reason only: a cycle.
pub proof fn lemma_only_cycles_fail(
    files: Seq<SourceModel>,
    v: usize,
    done: Seq<usize>,
    on_path: Seq<usize>,
    out: Seq<char>,
    fuel: nat,
)
    requires
        all_read(files),
        all_generable(files),
        v < files.len(),
    ensures
        visit(files, v, done, on_path, out, fuel) matches Err(f) ==> f == Failure::Loop,
    decreases fuel, 0nat,
{
    if !on_path.contains(v) && !done.contains(v) && fuel > 0 {
        lemma_only_cycles_fail_includes(
            files,
            v,
            0,
            done,
            on_path.push(v),
            out,
            (fuel - 1) as nat,
        );
    }
}

/// The same for the walk over the includes of the file `v`.
pub proof fn lemma_only_cycles_fail_includes(
    files: Seq<SourceModel>,
    v: usize,
    k: int,
    done: Seq<usize>,
    on_path: Seq<usize>,
    out: Seq<char>,
    fuel: nat,
)
    requires
        all_read(files),
        all_generable(files),
        v < files.len(),
        0 <= k,
    ensures
        visit_includes(files, files[v as int].includes, k, done, on_path, out, fuel) matches Err(
            f,
        ) ==> f == Failure::Loop,
    decreases fuel, 1nat, files[v as int].includes.len() - k,
{
    let incs = files[v as int].includes;
    if k < incs.len() {
        assert(incs[k] < files.len());
        lemma_only_cycles_fail(files, incs[k], done, on_path, out, fuel);
        match visit(files, incs[k], done, on_path, out, fuel) {
            Err(_) => {},
            Ok((done1, out1)) => {
                lemma_only_cycles_fail_includes(files, v, k + 1, done1, on_path, out1, fuel);
            },
        }
    }
}

/// A walk that starts at a file from which a cycle of includes can be
/// reached does not succeed: nothing is generated.
pub proof fn lemma_cycle_refused(
    files: Seq<SourceModel>,
    v: usize,
    done: Seq<usize>,
    on_path: Seq<usize>,
    out: Seq<char>,
    fuel: nat,
)
    requires
        closed(files, done),
        cycle_free(files, done),
        reaches_cycle(files, v),
    ensures
        visit(files, v, done, on_path, out, fuel) is Err,
{
    lemma_visit_sound(files, v, done, on_path, out, fuel);
    match visit(files, v, done, on_path, out, fuel) {
        Err(_) => {},
        Ok((after, _)) => {
            let p = choose|p: Seq<usize>| #[trigger]
                is_chain(files, p) && p.len() >= 1 && p[0] == v && on_cycle(files, p.last());
            lemma_chain_stays(files, after, p, p.len() - 1);
            assert(after.contains(p.last()));
        },
    }
}

/// The roots before a root that reaches a cycle may succeed or fail; the
/// walk over all of them does not succeed.
pub proof fn lemma_roots_refused(
    files: Seq<SourceModel>,
    roots: Seq<usize>,
    k: int,
    bad: int,
    done: Seq<usize>,
    out: Seq<char>,
)
    requires
        closed(files, done),
        cycle_free(files, done),
        0 <= k <= bad < roots.len(),
        reaches_cycle(files, roots[bad]),
    ensures
        visit_roots(files, roots, k, done, out) is Err,
    decreases roots.len() - k,
{
    let fuel = files.len() + 1;
    if k == bad {
        lemma_cycle_refused(files, roots[k], done, Seq::empty(), out, fuel);
    } else {
        lemma_visit_sound(files, roots[k], done, Seq::empty(), out, fuel);
        match visit(files, roots[k], done, Seq::empty(), out, fuel) {
            Err(_) => {},
            Ok((done1, out1)) => {
                lemma_roots_refused(files, roots, k + 1, bad, done1, out1);
            },
        }
    }
}

/// The same for the walk over the roots: it fails for one reason only.
pub proof fn lemma_roots_only_cycles_fail(
    files: Seq<SourceModel>,
    roots: Seq<usize>,
    k: int,
    done: Seq<usize>,
    out: Seq<char>,
)
    requires
        all_read(files),
        all_generable(files),
        0 <= k,
        forall|i: int| 0 <= i < roots.len() ==> (#[trigger] roots[i]) < files.len(),
    ensures
        visit_roots(files, roots, k, done, out) matches Err(f) ==> f == Failure::Loop,
    decreases roots.len() - k,
{
    if k < roots.len() {
        let fuel = files.len() + 1;
        lemma_only_cycles_fail(files, roots[k], done, Seq::empty(), out, fuel);
        match visit(files, roots[k], done, Seq::empty(), out, fuel) {
            Err(_) => {},
            Ok((done1, out1)) => {
                lemma_roots_only_cycles_fail(files, roots, k + 1, done1, out1);
            },
        }
    }
}

/// Where a root reaches a cycle of includes, the generator fails, and
/// gives no source text. Where in addition every include names a file
/// that was read and every file can be turned into code, the failure is
/// the one that reports the cycle.
pub proof fn lemma_include_cycle_fails(files: Seq<SourceModel>, roots: Seq<usize>, bad: int)
    requires
        0 <= bad < roots.len(),
        reaches_cycle(files, roots[bad]),
    ensures
        generated_source(files, roots) is Err,
        all_read(files) && all_generable(files) && (forall|i: int|
            0 <= i < roots.len() ==> (#[trigger] roots[i]) < files.len()) ==> generated_source(
            files,
            roots,
        ) == Err::<Seq<char>, Failure>(Failure::Loop),
{
    let done = Seq::<usize>::empty();
    assert(closed(files, done));
    assert(cycle_free(files, done));
    lemma_roots_refused(files, roots, 0, bad, done, Seq::empty());
    if all_read(files) && all_generable(files) && (forall|i: int|
        0 <= i < roots.len() ==> (#[trigger] roots[i]) < files.len()) {
        lemma_roots_only_cycles_fail(files, roots, 0, done, Seq::empty());
    }
}

} // verus!
