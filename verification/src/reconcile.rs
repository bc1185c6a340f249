use vstd::prelude::*;

use crate::package::{
    contains_id, display_line, display_line_spec, is_installed, same_id, same_identity, views_of,
    PackageData, PackageDataV,
};

verus! {

// ---------------------------------------------------------------------------
// The reconciler: the decisions of the install, purge, update and list
// passes, over the declared set and the installed record. The outer loop —
// running hooks, invoking the native package manager, persisting after each
// unit of work — hands every outcome back into the functions here, so each
// decision and each record change is verified whatever the outside calls did.
// ---------------------------------------------------------------------------
/// What one attempted install does to the record: a success appends the
/// package unless its identity is already present; a failure changes
/// nothing. The record never takes a duplicate identity.
pub open spec fn install_step(inst: Seq<PackageDataV>, p: PackageDataV, success: bool) -> Seq<
    PackageDataV,
> {
    if success && !contains_id(inst, p) {
        inst.push(p)
    } else {
        inst
    }
}

/// An install pass over a declared sequence: each attempt's outcome folded
/// into the record, in declaration order.
pub open spec fn run_install(
    inst: Seq<PackageDataV>,
    d: Seq<PackageDataV>,
    ok: Seq<bool>,
) -> Seq<PackageDataV>
    decreases d.len(),
{
    if d.len() == 0 {
        inst
    } else {
        run_install(install_step(inst, d[0], ok[0]), d.drop_first(), ok.drop_first())
    }
}

/// Which declared packages the install pass must attempt: exactly those
/// whose identity is not yet in the installed record. A declared package
/// already recorded is a no-op for the install pass; this skip is the
/// documented policy, and a changed content hash alone does not reinstall.
pub fn plan_install(declared: &Vec<PackageData>, installed: &Vec<PackageData>) -> (r: Vec<bool>)
    ensures
        r@.len() == declared@.len(),
        forall|i: int|
            0 <= i < r@.len() ==> r@[i] == !contains_id(views_of(installed@), declared@[i]@),
{
    let mut r: Vec<bool> = Vec::new();
    let mut i: usize = 0;
    while i < declared.len()
        invariant
            0 <= i <= declared.len(),
            r@.len() == i,
            forall|j: int|
                0 <= j < i ==> r@[j] == !contains_id(views_of(installed@), declared@[j]@),
        decreases declared.len() - i,
    {
        r.push(!is_installed(&declared[i], installed));
        i += 1;
    }
    r
}

/// The update pass attempts every declared package, bypassing the
/// already-installed skip: an update re-invokes the native manager so each
/// package is re-resolved, and entries whose version or channel changed are
/// installed fresh. The record still takes no duplicate identity.
pub fn plan_update(declared: &Vec<PackageData>) -> (r: Vec<bool>)
    ensures
        r@.len() == declared@.len(),
        forall|i: int| 0 <= i < r@.len() ==> r@[i],
{
    let mut r: Vec<bool> = Vec::new();
    let mut i: usize = 0;
    while i < declared.len()
        invariant
            0 <= i <= declared.len(),
            r@.len() == i,
            forall|j: int| 0 <= j < i ==> r@[j],
        decreases declared.len() - i,
    {
        r.push(true);
        i += 1;
    }
    r
}

/// Folds one attempted install into the record, exactly as `install_step`
/// says: append on success unless the identity is already recorded.
pub fn apply_install(installed: &mut Vec<PackageData>, pkg: &PackageData, success: bool)
    ensures
        views_of(final(installed)@) == install_step(views_of(old(installed)@), pkg@, success),
{
    if success && !is_installed(pkg, installed) {
        let ghost before = installed@;
        installed.push(pkg.clone());
        proof {
            assert(views_of(installed@) =~= views_of(before).push(pkg@));
        }
    }
}

/// Which installed entries the purge pass must attempt to uninstall:
/// exactly those whose identity no longer appears in the declared set.
pub fn plan_purge(declared: &Vec<PackageData>, installed: &Vec<PackageData>) -> (r: Vec<bool>)
    ensures
        r@.len() == installed@.len(),
        forall|i: int|
            0 <= i < r@.len() ==> r@[i] == !contains_id(views_of(declared@), installed@[i]@),
{
    let mut r: Vec<bool> = Vec::new();
    let mut i: usize = 0;
    while i < installed.len()
        invariant
            0 <= i <= installed.len(),
            r@.len() == i,
            forall|j: int|
                0 <= j < i ==> r@[j] == !contains_id(views_of(declared@), installed@[j]@),
        decreases installed.len() - i,
    {
        r.push(!is_installed(&installed[i], declared));
        i += 1;
    }
    r
}

/// Whether some record in `s` declares the same package as `p` but carries
/// a different content hash: its manifest changed without a version or
/// channel bump.
pub open spec fn hash_changed(s: Seq<PackageDataV>, p: PackageDataV) -> bool {
    exists|i: int| 0 <= i < s.len() && same_id(s[i], p) && s[i].hash != p.hash
}

/// Which declared packages should be warned about: exactly those already
/// recorded under the same identity but with another content hash — the
/// manifest's text changed while name, type, version and channel did not.
/// The documented policy is that such a change warns and nothing more: the
/// content hash never gates an install or purge decision.
pub fn plan_hash_warnings(declared: &Vec<PackageData>, installed: &Vec<PackageData>) -> (r: Vec<
    bool,
>)
    ensures
        r@.len() == declared@.len(),
        forall|i: int|
            0 <= i < r@.len() ==> r@[i] == hash_changed(views_of(installed@), declared@[i]@),
{
    let mut r: Vec<bool> = Vec::new();
    let mut i: usize = 0;
    while i < declared.len()
        invariant
            0 <= i <= declared.len(),
            r@.len() == i,
            forall|j: int| 0 <= j < i ==> r@[j] == hash_changed(views_of(installed@), declared@[j]@),
        decreases declared.len() - i,
    {
        let ghost vs = views_of(installed@);
        let p = &declared[i];
        let mut found = false;
        let mut k: usize = 0;
        while k < installed.len()
            invariant
                0 <= k <= installed.len(),
                vs == views_of(installed@),
                0 <= i < declared@.len(),
                p == &declared@[i as int],
                found == exists|j: int|
                    0 <= j < k && same_id(vs[j], p@) && vs[j].hash != p@.hash,
            decreases installed.len() - k,
        {
            if same_identity(&installed[k], p) && !crate::package::str_eq(
                installed[k].hash.as_str(),
                p.hash.as_str(),
            ) {
                proof {
                    assert(same_id(vs[k as int], p@) && vs[k as int].hash != p@.hash);
                }
                found = true;
            }
            k += 1;
        }
        r.push(found);
        i += 1;
    }
    r
}

/// The record after the purge pass: entry by entry, an entry stays unless
/// its uninstall was attempted and succeeded.
pub open spec fn survivors(inst: Seq<PackageDataV>, removed: Seq<bool>) -> Seq<PackageDataV>
    recommends
        inst.len() == removed.len(),
    decreases inst.len(),
{
    if inst.len() == 0 {
        Seq::<PackageDataV>::empty()
    } else {
        survivors(inst.drop_last(), removed.drop_last()) + (if removed.last() {
            Seq::<PackageDataV>::empty()
        } else {
            seq![inst.last()]
        })
    }
}

/// Rebuilds the record after a purge pass. `removed[i]` says whether entry
/// `i`'s uninstall succeeded; a failed or never-attempted uninstall leaves
/// the entry in place, order preserved.
pub fn purge_survivors(installed: &Vec<PackageData>, removed: &Vec<bool>) -> (r: Vec<PackageData>)
    requires
        installed@.len() == removed@.len(),
    ensures
        views_of(r@) == survivors(views_of(installed@), removed@),
{
    let mut r: Vec<PackageData> = Vec::new();
    let mut i: usize = 0;
    while i < installed.len()
        invariant
            0 <= i <= installed.len(),
            installed@.len() == removed@.len(),
            views_of(r@) == survivors(views_of(installed@).take(i as int), removed@.take(i as int)),
        decreases installed.len() - i,
    {
        let ghost before = r@;
        if !removed[i] {
            r.push(installed[i].clone());
        }
        proof {
            let vs = views_of(installed@);
            assert(vs.take(i + 1).drop_last() =~= vs.take(i as int));
            assert(removed@.take(i + 1).drop_last() =~= removed@.take(i as int));
            assert(vs.take(i + 1).last() == vs[i as int]);
            assert(removed@.take(i + 1).last() == removed@[i as int]);
            if !removed@[i as int] {
                assert(views_of(r@) =~= views_of(before).push(installed@[i as int]@));
            }
            assert(views_of(r@) =~= survivors(vs.take(i + 1), removed@.take(i + 1)));
        }
        i += 1;
    }
    proof {
        let vs = views_of(installed@);
        assert(vs.take(vs.len() as int) =~= vs);
        assert(removed@.take(removed@.len() as int) =~= removed@);
    }
    r
}

/// The installed entries whose identity is declared, in their old order:
/// the intersection of the installed record with the declared set.
pub open spec fn retained(inst: Seq<PackageDataV>, d: Seq<PackageDataV>) -> Seq<PackageDataV>
    decreases inst.len(),
{
    if inst.len() == 0 {
        Seq::<PackageDataV>::empty()
    } else {
        retained(inst.drop_last(), d) + (if contains_id(d, inst.last()) {
            seq![inst.last()]
        } else {
            Seq::<PackageDataV>::empty()
        })
    }
}

/// Law (diff correctness): when the purge pass attempts exactly the entries
/// whose identity is not declared and every attempt succeeds, the surviving
/// record is exactly the declared-and-installed intersection, in its old
/// order: the pass removes the installed-but-undeclared entries and touches
/// nothing else.
pub proof fn lemma_purge_exact(inst: Seq<PackageDataV>, d: Seq<PackageDataV>, removed: Seq<bool>)
    requires
        removed.len() == inst.len(),
        forall|i: int| 0 <= i < inst.len() ==> removed[i] == !contains_id(d, inst[i]),
    ensures
        survivors(inst, removed) == retained(inst, d),
    decreases inst.len(),
{
    if inst.len() > 0 {
        assert forall|i: int| 0 <= i < inst.drop_last().len() implies removed.drop_last()[i]
            == !contains_id(d, inst.drop_last()[i]) by {
            assert(removed.drop_last()[i] == removed[i]);
            assert(inst.drop_last()[i] == inst[i]);
        }
        lemma_purge_exact(inst.drop_last(), d, removed.drop_last());
        assert(removed.last() == !contains_id(d, inst[inst.len() - 1]));
        assert(survivors(inst, removed) =~= retained(inst, d));
    }
}

/// Identities already in the record stay in it through any install step.
pub proof fn lemma_install_step_keeps(
    inst: Seq<PackageDataV>,
    p: PackageDataV,
    b: bool,
    q: PackageDataV,
)
    requires
        contains_id(inst, q),
    ensures
        contains_id(install_step(inst, p, b), q),
{
    let w = choose|i: int| 0 <= i < inst.len() && same_id(inst[i], q);
    assert(install_step(inst, p, b)[w] == inst[w]);
}

/// Identities already in the record stay in it through a whole install pass.
pub proof fn lemma_run_install_keeps(
    inst: Seq<PackageDataV>,
    d: Seq<PackageDataV>,
    ok: Seq<bool>,
    q: PackageDataV,
)
    requires
        contains_id(inst, q),
    ensures
        contains_id(run_install(inst, d, ok), q),
    decreases d.len(),
{
    if d.len() > 0 {
        lemma_install_step_keeps(inst, d[0], ok[0], q);
        lemma_run_install_keeps(install_step(inst, d[0], ok[0]), d.drop_first(), ok.drop_first(), q);
    }
}

/// After an install pass in which every attempt succeeded, every declared
/// identity is in the record.
pub proof fn lemma_run_install_covers(inst: Seq<PackageDataV>, d: Seq<PackageDataV>, ok: Seq<bool>)
    requires
        ok.len() == d.len(),
        forall|i: int| 0 <= i < ok.len() ==> ok[i],
    ensures
        forall|i: int| 0 <= i < d.len() ==> contains_id(run_install(inst, d, ok), d[i]),
    decreases d.len(),
{
    if d.len() > 0 {
        let inst1 = install_step(inst, d[0], ok[0]);
        if contains_id(inst, d[0]) {
            lemma_run_install_keeps(inst1, d.drop_first(), ok.drop_first(), d[0]);
        } else {
            assert(inst1 == inst.push(d[0]));
            assert(same_id(inst1[inst.len() as int], d[0]));
            lemma_run_install_keeps(inst1, d.drop_first(), ok.drop_first(), d[0]);
        }
        lemma_run_install_covers(inst1, d.drop_first(), ok.drop_first());
        assert forall|i: int| 0 <= i < d.len() implies contains_id(
            run_install(inst, d, ok),
            d[i],
        ) by {
            if i > 0 {
                assert(d.drop_first()[i - 1] == d[i]);
            }
        }
    }
}

/// A record that already holds every declared identity is a fixed point of
/// the install pass: nothing is appended, whatever each attempt's outcome.
pub proof fn lemma_run_install_fixed(inst: Seq<PackageDataV>, d: Seq<PackageDataV>, ok: Seq<bool>)
    requires
        forall|i: int| 0 <= i < d.len() ==> contains_id(inst, d[i]),
    ensures
        run_install(inst, d, ok) == inst,
    decreases d.len(),
{
    if d.len() > 0 {
        assert(install_step(inst, d[0], ok[0]) == inst);
        assert forall|i: int| 0 <= i < d.drop_first().len() implies contains_id(
            inst,
            d.drop_first()[i],
        ) by {
            assert(d.drop_first()[i] == d[i + 1]);
        }
        lemma_run_install_fixed(inst, d.drop_first(), ok.drop_first());
    }
}

/// No two records in the sequence declare the same package.
pub open spec fn unique_ids(s: Seq<PackageDataV>) -> bool {
    forall|i: int, j: int| 0 <= i < j < s.len() ==> !same_id(s[i], s[j])
}

/// Law (no duplicates): a record without duplicate identities never takes
/// one through any install pass, whatever each attempt's outcome.
pub proof fn lemma_run_install_unique(inst: Seq<PackageDataV>, d: Seq<PackageDataV>, ok: Seq<bool>)
    requires
        unique_ids(inst),
    ensures
        unique_ids(run_install(inst, d, ok)),
    decreases d.len(),
{
    if d.len() > 0 {
        let inst1 = install_step(inst, d[0], ok[0]);
        assert forall|i: int, j: int| 0 <= i < j < inst1.len() implies !same_id(
            inst1[i],
            inst1[j],
        ) by {
            if j == inst.len() {
                assert(!contains_id(inst, d[0]));
                assert(!same_id(inst[i], d[0]));
            }
        }
        lemma_run_install_unique(inst1, d.drop_first(), ok.drop_first());
    }
}

/// Law (idempotence): an install pass in which every attempt succeeds,
/// followed by a second pass over the same declared set, leaves the record
/// exactly as the first pass left it — the second pass appends nothing and
/// no duplicate entries arise, whatever the second pass's outcomes.
pub proof fn lemma_install_idempotent(
    inst: Seq<PackageDataV>,
    d: Seq<PackageDataV>,
    ok1: Seq<bool>,
    ok2: Seq<bool>,
)
    requires
        ok1.len() == d.len(),
        forall|i: int| 0 <= i < ok1.len() ==> ok1[i],
    ensures
        run_install(run_install(inst, d, ok1), d, ok2) == run_install(inst, d, ok1),
{
    lemma_run_install_covers(inst, d, ok1);
    lemma_run_install_fixed(run_install(inst, d, ok1), d, ok2);
}

/// The lines the list command prints, one per record, in order.
pub fn display_lines(ps: &Vec<PackageData>) -> (r: Vec<String>)
    ensures
        r@.len() == ps@.len(),
        forall|i: int| 0 <= i < r@.len() ==> r@[i]@ == display_line_spec(ps@[i]@),
{
    let mut r: Vec<String> = Vec::new();
    let mut i: usize = 0;
    while i < ps.len()
        invariant
            0 <= i <= ps.len(),
            r@.len() == i,
            forall|j: int| 0 <= j < i ==> r@[j]@ == display_line_spec(ps@[j]@),
        decreases ps.len() - i,
    {
        r.push(display_line(&ps[i]));
        i += 1;
    }
    r
}

} // verus!
