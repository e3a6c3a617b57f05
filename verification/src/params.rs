//! Generic parameters and the merged parameter set of a guard.

use vstd::prelude::*;
use crate::lexical::{
    compare_idents, joined_with, lemma_precedes_asymmetric, lemma_precedes_irreflexive,
    lemma_precedes_transitive, order_of, precedes, push_with, IdentOrder,
};

verus! {

/// What a generic parameter stands for.
#[derive(Clone, Copy, Debug, PartialEq, Eq, Structural)]
pub enum ParamKind {
    Type,
    Const,
    /// A lifetime stays where it was declared; it never enters a merged set.
    Lifetime,
}

/// One generic parameter: its kind, its identifier, and its declaration as it
/// was written, bounds included.
#[derive(Debug)]
pub struct GenericParam {
    pub kind: ParamKind,
    pub ident: String,
    pub text: String,
}

/// The mathematical value of a [`GenericParam`].
pub ghost struct ParamView {
    pub kind: ParamKind,
    pub ident: Seq<char>,
    pub text: Seq<char>,
}

impl View for GenericParam {
    type V = ParamView;

    open spec fn view(&self) -> ParamView {
        ParamView { kind: self.kind, ident: self.ident@, text: self.text@ }
    }
}

/// The values of a list of parameters.
pub open spec fn views(params: Seq<GenericParam>) -> Seq<ParamView> {
    params.map_values(|p: GenericParam| p@)
}

impl ParamView {
    /// A type or const parameter is handed on to the guard's function; a
    /// lifetime is not.
    pub open spec fn forwarded(self) -> bool {
        self.kind != ParamKind::Lifetime
    }
}

impl GenericParam {
    /// A parameter of the given kind.
    pub fn new(kind: ParamKind, ident: &str, text: &str) -> (param: GenericParam)
        ensures
            param@ == (ParamView { kind, ident: ident@, text: text@ }),
    {
        GenericParam { kind, ident: String::from_str(ident), text: String::from_str(text) }
    }

    /// A copy of this parameter.
    pub fn duplicate(&self) -> (copy: GenericParam)
        ensures
            copy@ == self@,
    {
        GenericParam { kind: self.kind, ident: self.ident.clone(), text: self.text.clone() }
    }

    /// The identifier of a type or const parameter; a lifetime has none to
    /// hand on.
    pub fn param_ident(&self) -> (ident: Option<&str>)
        ensures
            ident is Some <==> self@.forwarded(),
            ident matches Some(name) ==> name@ == self@.ident,
    {
        match self.kind {
            ParamKind::Lifetime => None,
            _ => Some(self.ident.as_str()),
        }
    }
}

/// How two parameters compare: by their identifiers alone.
pub fn compare_params(left: &GenericParam, right: &GenericParam) -> (order: IdentOrder)
    ensures
        order == order_of(left@.ident, right@.ident),
        order == IdentOrder::Before <==> precedes(left@.ident, right@.ident),
        order == IdentOrder::After <==> precedes(right@.ident, left@.ident),
        order == IdentOrder::Same <==> left@.ident == right@.ident,
{
    compare_idents(left.ident.as_str(), right.ident.as_str())
}

/// Each entry's identifier precedes that of every later entry: the list is
/// sorted and no identifier occurs twice.
pub open spec fn strictly_sorted(params: Seq<ParamView>) -> bool {
    forall|i: int, j: int| 0 <= i < j < params.len() ==> precedes(params[i].ident, params[j].ident)
}

/// `all[k]` is a type or const parameter, and no type or const parameter
/// before it has its identifier.
pub open spec fn first_of_its_name(all: Seq<ParamView>, k: int) -> bool {
    &&& 0 <= k < all.len()
    &&& all[k].forwarded()
    &&& forall|h: int| 0 <= h < k && all[h].forwarded() ==> all[h].ident != all[k].ident
}

/// Two type or const parameters of `all` share an identifier and differ in
/// kind.
pub open spec fn kinds_clash(all: Seq<ParamView>) -> bool {
    exists|i: int, j: int|
        0 <= i < all.len() && 0 <= j < all.len() && all[i].forwarded() && all[j].forwarded()
            && all[i].ident == all[j].ident && all[i].kind != all[j].kind
}

/// The merged parameter set of `all`: the list that meets [`is_merge_of`].
/// There is one such list and no other, see [`lemma_merge_is_unique`].
pub open spec fn merged_set(all: Seq<ParamView>) -> Seq<ParamView> {
    choose|merged: Seq<ParamView>| is_merge_of(merged, all)
}

/// `merged[i]` is, among the type and const parameters of `all`, the first
/// with its identifier.
pub open spec fn taken_from(merged: Seq<ParamView>, all: Seq<ParamView>, i: int) -> bool {
    exists|k: int| first_of_its_name(all, k) && all[k] == merged[i]
}

/// Where `all[k]` is a type or const parameter, `merged` holds its identifier.
pub open spec fn held_by(merged: Seq<ParamView>, all: Seq<ParamView>, k: int) -> bool {
    all[k].forwarded() ==> exists|i: int| 0 <= i < merged.len() && merged[i].ident == all[k].ident
}

/// `merged` is the merged parameter set of `all`: sorted by identifier, each
/// identifier once, holding for each identifier of a type or const parameter
/// of `all` the first such parameter, and nothing else.
pub open spec fn is_merge_of(merged: Seq<ParamView>, all: Seq<ParamView>) -> bool {
    &&& strictly_sorted(merged)
    &&& forall|i: int| 0 <= i < merged.len() ==> #[trigger] taken_from(merged, all, i)
    &&& forall|k: int| 0 <= k < all.len() ==> #[trigger] held_by(merged, all, k)
}

/// Where `param` belongs in a sorted list: the index of the first entry that
/// it does not come after, and whether that entry has its identifier.
fn find_slot(merged: &Vec<GenericParam>, param: &GenericParam) -> (slot: (usize, bool))
    ensures
        slot.0 <= merged.len(),
        forall|h: int| 0 <= h < slot.0 ==> precedes(#[trigger] merged@[h]@.ident, param@.ident),
        slot.1 ==> slot.0 < merged.len() && merged@[slot.0 as int]@.ident == param@.ident,
        !slot.1 && slot.0 < merged.len() ==> precedes(param@.ident, merged@[slot.0 as int]@.ident),
{
    let mut idx: usize = 0;
    while idx < merged.len()
        invariant
            idx <= merged.len(),
            forall|h: int| 0 <= h < idx ==> precedes(#[trigger] merged@[h]@.ident, param@.ident),
        decreases merged.len() - idx,
    {
        match compare_params(&merged[idx], param) {
            IdentOrder::Before => {
                idx += 1;
            },
            IdentOrder::Same => {
                return (idx, true);
            },
            IdentOrder::After => {
                return (idx, false);
            },
        }
    }
    (idx, false)
}

/// A merged set stays the merged set when a lifetime follows.
proof fn lemma_merge_skips_lifetime(merged: Seq<ParamView>, seen: Seq<ParamView>, param: ParamView)
    requires
        is_merge_of(merged, seen),
        !param.forwarded(),
    ensures
        is_merge_of(merged, seen.push(param)),
        kinds_clash(seen.push(param)) == kinds_clash(seen),
{
    let grown = seen.push(param);
    assert forall|i: int| 0 <= i < merged.len() implies #[trigger] taken_from(merged, grown, i) by {
        assert(taken_from(merged, seen, i));
        let k = choose|k: int| first_of_its_name(seen, k) && seen[k] == merged[i];
        assert(first_of_its_name(grown, k) && grown[k] == merged[i]);
    }
    assert forall|k: int| 0 <= k < grown.len() implies #[trigger] held_by(merged, grown, k) by {
        if k < seen.len() {
            assert(held_by(merged, seen, k));
            assert(seen[k] == grown[k]);
        }
    }
    if kinds_clash(grown) {
        let (i, j) = choose|i: int, j: int|
            0 <= i < grown.len() && 0 <= j < grown.len() && grown[i].forwarded()
                && grown[j].forwarded() && grown[i].ident == grown[j].ident && grown[i].kind
                != grown[j].kind;
        assert(seen[i] == grown[i] && seen[j] == grown[j]);
    }
    if kinds_clash(seen) {
        let (i, j) = choose|i: int, j: int|
            0 <= i < seen.len() && 0 <= j < seen.len() && seen[i].forwarded() && seen[j].forwarded()
                && seen[i].ident == seen[j].ident && seen[i].kind != seen[j].kind;
        assert(seen[i] == grown[i] && seen[j] == grown[j]);
    }
}

/// A merged set stays the merged set when a parameter follows whose identifier
/// it holds already, and the kinds clash exactly where the kind held differs.
proof fn lemma_merge_keeps_first(
    merged: Seq<ParamView>,
    seen: Seq<ParamView>,
    param: ParamView,
    slot: int,
)
    requires
        is_merge_of(merged, seen),
        !kinds_clash(seen),
        param.forwarded(),
        0 <= slot < merged.len(),
        merged[slot].ident == param.ident,
    ensures
        is_merge_of(merged, seen.push(param)),
        kinds_clash(seen.push(param)) <==> merged[slot].kind != param.kind,
{
    let grown = seen.push(param);
    let n = seen.len() as int;
    assert(taken_from(merged, seen, slot));
    let k0 = choose|k: int| first_of_its_name(seen, k) && seen[k] == merged[slot];
    assert(grown[k0] == seen[k0] && grown[n] == param);
    assert forall|i: int| 0 <= i < merged.len() implies #[trigger] taken_from(merged, grown, i) by {
        assert(taken_from(merged, seen, i));
        let k = choose|k: int| first_of_its_name(seen, k) && seen[k] == merged[i];
        assert(first_of_its_name(grown, k) && grown[k] == merged[i]);
    }
    assert forall|k: int| 0 <= k < grown.len() implies #[trigger] held_by(merged, grown, k) by {
        if k < n {
            assert(held_by(merged, seen, k));
            assert(seen[k] == grown[k]);
        } else {
            assert(merged[slot].ident == grown[k].ident);
        }
    }
    if merged[slot].kind != param.kind {
        assert(grown[k0].forwarded() && grown[n].forwarded() && grown[k0].ident == grown[n].ident
            && grown[k0].kind != grown[n].kind);
    } else if kinds_clash(grown) {
        let (i, j) = choose|i: int, j: int|
            0 <= i < grown.len() && 0 <= j < grown.len() && grown[i].forwarded()
                && grown[j].forwarded() && grown[i].ident == grown[j].ident && grown[i].kind
                != grown[j].kind;
        if i < n {
            assert(seen[i] == grown[i]);
            assert(seen[i].forwarded() && seen[k0].forwarded() && seen[i].ident == seen[k0].ident);
        }
        if j < n {
            assert(seen[j] == grown[j]);
            assert(seen[j].forwarded() && seen[k0].forwarded() && seen[j].ident == seen[k0].ident);
        }
    }
}

/// A parameter whose identifier a merged set lacks enters it at its place in
/// the order, and no kinds clash on its account.
proof fn lemma_merge_inserts(
    merged: Seq<ParamView>,
    seen: Seq<ParamView>,
    param: ParamView,
    slot: int,
)
    requires
        is_merge_of(merged, seen),
        !kinds_clash(seen),
        param.forwarded(),
        0 <= slot <= merged.len(),
        forall|h: int| 0 <= h < slot ==> precedes(#[trigger] merged[h].ident, param.ident),
        slot < merged.len() ==> precedes(param.ident, merged[slot].ident),
    ensures
        is_merge_of(merged.insert(slot, param), seen.push(param)),
        !kinds_clash(seen.push(param)),
{
    let grown = seen.push(param);
    let after = merged.insert(slot, param);
    let n = seen.len() as int;
    assert forall|h: int| 0 <= h < merged.len() implies #[trigger] merged[h].ident != param.ident by {
        if h < slot {
            lemma_precedes_asymmetric(merged[h].ident, param.ident);
        } else {
            if h > slot {
                lemma_precedes_transitive(param.ident, merged[slot].ident, merged[h].ident);
            }
            lemma_precedes_asymmetric(param.ident, merged[h].ident);
        }
    }
    assert forall|j: int| 0 <= j < n && (#[trigger] seen[j]).forwarded() implies seen[j].ident
        != param.ident by {
        assert(held_by(merged, seen, j));
        let i = choose|i: int| 0 <= i < merged.len() && merged[i].ident == seen[j].ident;
        assert(merged[i].ident != param.ident);
    }
    assert(strictly_sorted(after)) by {
        assert forall|i: int, j: int| 0 <= i < j < after.len() implies precedes(
            after[i].ident,
            after[j].ident,
        ) by {
            if j < slot {
                assert(after[i] == merged[i] && after[j] == merged[j]);
            } else if j == slot {
                assert(after[i] == merged[i]);
            } else if i < slot {
                assert(after[i] == merged[i] && after[j] == merged[j - 1]);
            } else if i == slot {
                assert(after[j] == merged[j - 1]);
                if j - 1 > slot {
                    lemma_precedes_transitive(param.ident, merged[slot].ident, merged[j - 1].ident);
                }
            } else {
                assert(after[i] == merged[i - 1] && after[j] == merged[j - 1]);
            }
        }
    }
    assert forall|i: int| 0 <= i < after.len() implies #[trigger] taken_from(after, grown, i) by {
        if i == slot {
            assert forall|h: int| 0 <= h < n && grown[h].forwarded() implies grown[h].ident
                != grown[n].ident by {
                assert(seen[h] == grown[h]);
            }
            assert(first_of_its_name(grown, n) && grown[n] == after[i]);
        } else {
            let b = if i < slot { i } else { i - 1 };
            assert(after[i] == merged[b]);
            assert(taken_from(merged, seen, b));
            let k = choose|k: int| first_of_its_name(seen, k) && seen[k] == merged[b];
            assert(first_of_its_name(grown, k) && grown[k] == after[i]);
        }
    }
    assert forall|k: int| 0 <= k < grown.len() implies #[trigger] held_by(after, grown, k) by {
        if k < n {
            assert(seen[k] == grown[k]);
            assert(held_by(merged, seen, k));
            if seen[k].forwarded() {
                let i = choose|i: int| 0 <= i < merged.len() && merged[i].ident == seen[k].ident;
                let a = if i < slot { i } else { i + 1 };
                assert(after[a] == merged[i]);
            }
        } else {
            assert(after[slot].ident == grown[k].ident);
        }
    }
    if kinds_clash(grown) {
        let (i, j) = choose|i: int, j: int|
            0 <= i < grown.len() && 0 <= j < grown.len() && grown[i].forwarded()
                && grown[j].forwarded() && grown[i].ident == grown[j].ident && grown[i].kind
                != grown[j].kind;
        if i < n {
            assert(seen[i] == grown[i]);
        }
        if j < n {
            assert(seen[j] == grown[j]);
        }
    }
}

/// Takes one more parameter into a merged set. Returns `false`, and leaves
/// the set as it was, where the parameter shares its identifier with one of
/// another kind.
fn absorb(merged: &mut Vec<GenericParam>, param: &GenericParam, Ghost(seen): Ghost<Seq<ParamView>>) -> (ok: bool)
    requires
        is_merge_of(views(old(merged)@), seen),
        !kinds_clash(seen),
    ensures
        ok <==> !kinds_clash(seen.push(param@)),
        ok ==> is_merge_of(views(final(merged)@), seen.push(param@)),
        !ok ==> final(merged)@ == old(merged)@,
{
    let ghost before = views(merged@);
    if param.kind == ParamKind::Lifetime {
        proof {
            lemma_merge_skips_lifetime(before, seen, param@);
        }
        return true;
    }
    let (idx, hit) = find_slot(merged, param);
    assert(forall|h: int| 0 <= h < before.len() ==> #[trigger] before[h] == merged@[h]@);
    if hit {
        let same_kind = merged[idx].kind == param.kind;
        proof {
            lemma_merge_keeps_first(before, seen, param@, idx as int);
        }
        return same_kind;
    }
    let copy = param.duplicate();
    merged.insert(idx, copy);
    proof {
        assert(views(merged@) =~= before.insert(idx as int, param@));
        lemma_merge_inserts(before, seen, param@, idx as int);
    }
    true
}

/// Kinds that clash among the first entries of a list clash in the list.
proof fn lemma_clash_in_prefix(all: Seq<ParamView>, len: int)
    requires
        0 <= len <= all.len(),
        kinds_clash(all.subrange(0, len)),
    ensures
        kinds_clash(all),
{
    let front = all.subrange(0, len);
    let (i, j) = choose|i: int, j: int|
        0 <= i < front.len() && 0 <= j < front.len() && front[i].forwarded() && front[j].forwarded()
            && front[i].ident == front[j].ident && front[i].kind != front[j].kind;
    assert(all[i] == front[i] && all[j] == front[j]);
}

/// Merges the parameters of a declaration (`left`) with those that a guard
/// introduces (`right`): the type and const parameters of both, sorted by
/// identifier, each identifier once. Where an identifier occurs more than
/// once, its first declaration stays. Lifetimes are left out.
///
/// Returns `None` where two of these parameters share an identifier and differ
/// in kind: such a set has no meaning, and none is made up.
pub fn merge_generic_params(left: &Vec<GenericParam>, right: &Vec<GenericParam>) -> (merged: Option<
    Vec<GenericParam>,
>)
    ensures
        merged is None <==> kinds_clash(views(left@) + views(right@)),
        merged matches Some(set) ==> is_merge_of(views(set@), views(left@) + views(right@)),
        merged matches Some(set) ==> views(set@) == merged_set(views(left@) + views(right@)),
        merged matches Some(set) ==> forall|i: int|
            0 <= i < set@.len() ==> (#[trigger] set@[i])@.forwarded(),
{
    let ghost all = views(left@) + views(right@);
    let mut merged: Vec<GenericParam> = Vec::new();
    proof {
        assert(all.subrange(0, 0) =~= Seq::<ParamView>::empty());
        assert(views(merged@) =~= Seq::<ParamView>::empty());
    }
    let mut i: usize = 0;
    while i < left.len()
        invariant
            i <= left.len(),
            all == views(left@) + views(right@),
            is_merge_of(views(merged@), all.subrange(0, i as int)),
            !kinds_clash(all.subrange(0, i as int)),
        decreases left.len() - i,
    {
        proof {
            assert(all.subrange(0, i + 1) =~= all.subrange(0, i as int).push(left@[i as int]@));
        }
        if !absorb(&mut merged, &left[i], Ghost(all.subrange(0, i as int))) {
            proof {
                lemma_clash_in_prefix(all, i + 1);
            }
            return None;
        }
        i += 1;
    }
    let mut j: usize = 0;
    while j < right.len()
        invariant
            j <= right.len(),
            all == views(left@) + views(right@),
            is_merge_of(views(merged@), all.subrange(0, left.len() + j)),
            !kinds_clash(all.subrange(0, left.len() + j)),
        decreases right.len() - j,
    {
        proof {
            assert(all.subrange(0, left.len() + j + 1) =~= all.subrange(0, left.len() + j).push(
                right@[j as int]@,
            ));
        }
        if !absorb(&mut merged, &right[j], Ghost(all.subrange(0, left.len() + j))) {
            proof {
                lemma_clash_in_prefix(all, left.len() + j + 1);
            }
            return None;
        }
        j += 1;
    }
    proof {
        assert(all.subrange(0, left.len() + right.len()) =~= all);
        lemma_merge_is_unique(views(merged@), merged_set(all), all);
        assert forall|i: int| 0 <= i < merged@.len() implies (#[trigger] merged@[i])@.forwarded() by {
            assert(taken_from(views(merged@), all, i));
        }
    }
    Some(merged)
}

/// Among the type and const parameters of a list, an identifier has one first
/// occurrence.
proof fn lemma_one_first(all: Seq<ParamView>, k1: int, k2: int)
    requires
        first_of_its_name(all, k1),
        first_of_its_name(all, k2),
        all[k1].ident == all[k2].ident,
    ensures
        k1 == k2,
{
}

/// No two entries of a merged set share an identifier: in a list that is
/// [`strictly_sorted`] an identifier occurs at one place.
pub proof fn lemma_sorted_holds_each_once(params: Seq<ParamView>, i: int, j: int)
    requires
        strictly_sorted(params),
        0 <= i < params.len(),
        0 <= j < params.len(),
        params[i].ident == params[j].ident,
    ensures
        i == j,
{
    lemma_precedes_irreflexive(params[i].ident);
}

/// The entry of one merged set that holds the identifier of `a[i]` stands no
/// earlier in the other.
proof fn lemma_not_earlier(a: Seq<ParamView>, b: Seq<ParamView>, all: Seq<ParamView>, i: int, j: int)
    requires
        is_merge_of(a, all),
        is_merge_of(b, all),
        0 <= i < a.len(),
        0 <= j < b.len(),
        a[i].ident == b[j].ident,
    ensures
        i <= j,
    decreases i,
{
    if i > 0 {
        assert(taken_from(a, all, i - 1));
        let k = choose|k: int| first_of_its_name(all, k) && all[k] == a[i - 1];
        assert(held_by(b, all, k));
        let h = choose|h: int| 0 <= h < b.len() && b[h].ident == all[k].ident;
        lemma_not_earlier(a, b, all, i - 1, h);
        assert(precedes(a[i - 1].ident, a[i].ident));
        if j <= h {
            if j < h {
                assert(precedes(b[j].ident, b[h].ident));
            }
            lemma_precedes_asymmetric(a[i - 1].ident, a[i].ident);
        }
    }
}

/// A list of parameters has one merged set: two that meet [`is_merge_of`] for
/// the same list are equal.
pub proof fn lemma_merge_is_unique(a: Seq<ParamView>, b: Seq<ParamView>, all: Seq<ParamView>)
    requires
        is_merge_of(a, all),
        is_merge_of(b, all),
    ensures
        a == b,
{
    assert forall|i: int| 0 <= i < a.len() implies i < b.len() && #[trigger] a[i] == b[i] by {
        assert(taken_from(a, all, i));
        let k = choose|k: int| first_of_its_name(all, k) && all[k] == a[i];
        assert(held_by(b, all, k));
        let j = choose|j: int| 0 <= j < b.len() && b[j].ident == all[k].ident;
        lemma_not_earlier(a, b, all, i, j);
        lemma_not_earlier(b, a, all, j, i);
        assert(taken_from(b, all, j));
        let k2 = choose|k2: int| first_of_its_name(all, k2) && all[k2] == b[j];
        lemma_one_first(all, k, k2);
    }
    if a.len() < b.len() {
        let j = a.len() as int;
        assert(taken_from(b, all, j));
        let k = choose|k: int| first_of_its_name(all, k) && all[k] == b[j];
        assert(held_by(a, all, k));
        let i = choose|i: int| 0 <= i < a.len() && a[i].ident == all[k].ident;
        lemma_not_earlier(b, a, all, j, i);
    }
    if b.len() < a.len() {
        assert(a[b.len() as int] == b[b.len() as int]);
    }
    assert(a =~= b);
}

/// Each identifier has one declaration: type and const parameters of `all`
/// that share an identifier are equal.
pub open spec fn declared_once(all: Seq<ParamView>) -> bool {
    forall|i: int, j: int|
        0 <= i < all.len() && 0 <= j < all.len() && all[i].forwarded() && all[j].forwarded()
            && all[i].ident == all[j].ident ==> all[i] == all[j]
}

/// Every type or const parameter of `one` occurs in `other`.
pub open spec fn found_in(one: Seq<ParamView>, other: Seq<ParamView>) -> bool {
    forall|i: int|
        0 <= i < one.len() && (#[trigger] one[i]).forwarded() ==> exists|j: int|
            0 <= j < other.len() && other[j] == one[i]
}

/// The identifier of a type or const parameter has a first occurrence, at or
/// before the parameter.
proof fn lemma_has_first(all: Seq<ParamView>, j: int) -> (k: int)
    requires
        0 <= j < all.len(),
        all[j].forwarded(),
    ensures
        0 <= k <= j,
        first_of_its_name(all, k),
        all[k].ident == all[j].ident,
    decreases j,
{
    if exists|h: int| 0 <= h < j && all[h].forwarded() && all[h].ident == all[j].ident {
        let h = choose|h: int| 0 <= h < j && all[h].forwarded() && all[h].ident == all[j].ident;
        lemma_has_first(all, h)
    } else {
        j
    }
}

/// The merged set does not depend on the order of declaration: two lists that
/// hold the same type and const parameters, each identifier declared once,
/// have the same merged set.
pub proof fn lemma_merge_ignores_order(merged: Seq<ParamView>, one: Seq<ParamView>, other: Seq<ParamView>)
    requires
        is_merge_of(merged, one),
        declared_once(one),
        found_in(one, other),
        found_in(other, one),
    ensures
        is_merge_of(merged, other),
        !kinds_clash(one),
        !kinds_clash(other),
{
    assert forall|i: int, j: int|
        0 <= i < other.len() && 0 <= j < other.len() && other[i].forwarded() && other[j].forwarded()
            && other[i].ident == other[j].ident implies other[i] == other[j] by {
        let a = choose|a: int| 0 <= a < one.len() && one[a] == other[i];
        let b = choose|b: int| 0 <= b < one.len() && one[b] == other[j];
        assert(one[a] == one[b]);
    }
    assert forall|i: int| 0 <= i < merged.len() implies #[trigger] taken_from(merged, other, i) by {
        assert(taken_from(merged, one, i));
        let k = choose|k: int| first_of_its_name(one, k) && one[k] == merged[i];
        let j = choose|j: int| 0 <= j < other.len() && other[j] == one[k];
        let first = lemma_has_first(other, j);
        assert(other[first] == other[j]);
        assert(first_of_its_name(other, first) && other[first] == merged[i]);
    }
    assert forall|k: int| 0 <= k < other.len() implies #[trigger] held_by(merged, other, k) by {
        if other[k].forwarded() {
            let a = choose|a: int| 0 <= a < one.len() && one[a] == other[k];
            assert(held_by(merged, one, a));
        }
    }
}

/// The identifiers of the type and const parameters of a list, in its order,
/// with a comma between them.
pub open spec fn ident_list(params: Seq<ParamView>) -> Seq<char>
    decreases params.len(),
{
    if params.len() == 0 {
        Seq::empty()
    } else if params.last().forwarded() {
        joined_with(ident_list(params.drop_last()), ", "@, params.last().ident)
    } else {
        ident_list(params.drop_last())
    }
}

/// The declarations of the parameters of a list, in its order, with a comma
/// between them.
pub open spec fn declaration_list(params: Seq<ParamView>) -> Seq<char>
    decreases params.len(),
{
    if params.len() == 0 {
        Seq::empty()
    } else {
        joined_with(declaration_list(params.drop_last()), ", "@, params.last().text)
    }
}

/// The identifiers by which the guard's function is called: those of the type
/// and const parameters, a comma between them.
pub fn param_idents(params: &Vec<GenericParam>) -> (text: String)
    ensures
        text@ == ident_list(views(params@)),
{
    let mut text = String::new();
    let mut i: usize = 0;
    while i < params.len()
        invariant
            i <= params.len(),
            text@ == ident_list(views(params@).subrange(0, i as int)),
        decreases params.len() - i,
    {
        proof {
            let front = views(params@).subrange(0, i + 1);
            assert(front.drop_last() =~= views(params@).subrange(0, i as int));
            assert(front.last() == params@[i as int]@);
        }
        match params[i].param_ident() {
            Some(ident) => {
                push_with(&mut text, ", ", ident);
            },
            None => {},
        }
        i += 1;
    }
    proof {
        assert(views(params@).subrange(0, params.len() as int) =~= views(params@));
    }
    text
}

/// The parameters with which the guard's function is declared: each as it was
/// written, a comma between them.
pub fn param_list(params: &Vec<GenericParam>) -> (text: String)
    ensures
        text@ == declaration_list(views(params@)),
{
    let mut text = String::new();
    let mut i: usize = 0;
    while i < params.len()
        invariant
            i <= params.len(),
            text@ == declaration_list(views(params@).subrange(0, i as int)),
        decreases params.len() - i,
    {
        proof {
            let front = views(params@).subrange(0, i + 1);
            assert(front.drop_last() =~= views(params@).subrange(0, i as int));
            assert(front.last() == params@[i as int]@);
        }
        push_with(&mut text, ", ", params[i].text.as_str());
        i += 1;
    }
    proof {
        assert(views(params@).subrange(0, params.len() as int) =~= views(params@));
    }
    text
}

} // verus!
