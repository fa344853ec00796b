use vstd::prelude::*;
use crate::config::merge_with::MergeWith;
use crate::config::port::Port;
use crate::config::resource_type::ResourceType;
use crate::config::tag::TagSet;
use crate::strutil::{self, dedup_append, views_of};

verus! {

broadcast use vstd::seq_lib::group_seq_properties;

/// One forwarding definition resolved from configuration.
#[derive(Debug)]
pub struct PortForwardConfig {
    /// The file this configuration was loaded from; diagnostics only,
    /// never merged content.
    pub source_file: Option<String>,
    /// An optional name used to refer to this configuration.
    pub name: Option<String>,
    /// Tags used to select the target.
    pub tags: TagSet,
    /// The name of the API context to use.
    pub context: Option<String>,
    /// The name of the API cluster to use.
    pub cluster: Option<String>,
    /// The addresses to listen on; IP addresses or the literal `localhost`.
    pub listen_addrs: Vec<String>,
    /// The namespace to forward to.
    pub namespace: String,
    /// The kind of resource to forward to.
    pub resource_type: ResourceType,
    /// The name of the resource to forward to; the merge key.
    pub target: String,
    /// The ports to forward.
    pub ports: Vec<Port>,
}

/// The view of an optional string.
pub open spec fn opt_view(o: Option<String>) -> Option<Seq<char>> {
    match o {
        Some(s) => Some(s@),
        None => None,
    }
}

/// The more specific value wherever it is present; the other one else.
pub open spec fn first_some(a: Option<Seq<char>>, b: Option<Seq<char>>) -> Option<Seq<char>> {
    if a is Some {
        a
    } else {
        b
    }
}

impl PortForwardConfig {
    /// The record's tag set holds no repeated name and its ports lie in range.
    pub open spec fn wf(&self) -> bool {
        self.tags.wf() && forall|i: int| 0 <= i < self.ports@.len() ==> (
        #[trigger] self.ports@[i]).wf()
    }
}

/// `m` holds the same configuration as `c`, field by field.
pub open spec fn same_record(c: PortForwardConfig, m: PortForwardConfig) -> bool {
    &&& opt_view(m.source_file) == opt_view(c.source_file)
    &&& opt_view(m.name) == opt_view(c.name)
    &&& m.tags@ == c.tags@
    &&& opt_view(m.context) == opt_view(c.context)
    &&& opt_view(m.cluster) == opt_view(c.cluster)
    &&& views_of(m.listen_addrs@) == views_of(c.listen_addrs@)
    &&& m.namespace@ == c.namespace@
    &&& m.resource_type == c.resource_type
    &&& m.target@ == c.target@
    &&& m.ports@ == c.ports@
}

/// `m` is `a` backfilled from the less specific `b`: a value present on `a`
/// is never replaced, absent optional fields are taken from `b`, tag sets
/// are unioned, listen addresses united in order of first appearance, and
/// `b`'s port list is adopted only when `a` has none.
pub open spec fn merged_record(
    a: PortForwardConfig,
    b: PortForwardConfig,
    m: PortForwardConfig,
) -> bool {
    &&& opt_view(m.source_file) == first_some(opt_view(a.source_file), opt_view(b.source_file))
    &&& opt_view(m.name) == first_some(opt_view(a.name), opt_view(b.name))
    &&& m.tags@ == a.tags@.union(b.tags@)
    &&& opt_view(m.context) == first_some(opt_view(a.context), opt_view(b.context))
    &&& opt_view(m.cluster) == first_some(opt_view(a.cluster), opt_view(b.cluster))
    &&& views_of(m.listen_addrs@) == dedup_append(
        dedup_append(Seq::empty(), views_of(a.listen_addrs@)),
        views_of(b.listen_addrs@),
    )
    &&& m.namespace@ == a.namespace@
    &&& m.resource_type == a.resource_type
    &&& m.target@ == a.target@
    &&& m.ports@ == if a.ports@.len() > 0 {
        a.ports@
    } else {
        b.ports@
    }
}

fn clone_opt_string(o: &Option<String>) -> (r: Option<String>)
    ensures
        r == *o,
{
    match o {
        Some(s) => Some(s.clone()),
        None => None,
    }
}

fn clone_ports(v: &Vec<Port>) -> (r: Vec<Port>)
    ensures
        r@ == v@,
{
    let n = v.len();
    let mut r: Vec<Port> = Vec::new();
    let mut i: usize = 0;
    while i < n
        invariant
            0 <= i <= n,
            n == v@.len(),
            r@ =~= v@.take(i as int),
        decreases n - i,
    {
        r.push(v[i]);
        proof {
            assert(r@ =~= v@.take(i as int + 1));
        }
        i += 1;
    }
    proof {
        assert(v@.take(n as int) =~= v@);
    }
    r
}

impl Clone for PortForwardConfig {
    fn clone(&self) -> (r: Self)
        ensures
            same_record(*self, r),
            self.wf() ==> r.wf(),
    {
        PortForwardConfig {
            source_file: clone_opt_string(&self.source_file),
            name: clone_opt_string(&self.name),
            tags: self.tags.clone(),
            context: clone_opt_string(&self.context),
            cluster: clone_opt_string(&self.cluster),
            listen_addrs: strutil::clone_string_vec(&self.listen_addrs),
            namespace: self.namespace.clone(),
            resource_type: self.resource_type,
            target: self.target.clone(),
            ports: clone_ports(&self.ports),
        }
    }
}

impl PartialEq for PortForwardConfig {
    /// Records are compared by their merge key alone.
    fn eq(&self, other: &Self) -> (r: bool) {
        strutil::str_eq(self.target.as_str(), other.target.as_str())
    }
}

impl vstd::std_specs::cmp::PartialEqSpecImpl for PortForwardConfig {
    open spec fn obeys_eq_spec() -> bool {
        true
    }

    open spec fn eq_spec(&self, other: &PortForwardConfig) -> bool {
        self.target@ == other.target@
    }
}

impl PortForwardConfig {
    /// Records the file this configuration came from.
    pub fn set_source_file(&mut self, file: String)
        ensures
            final(self).source_file == Some(file),
            final(self).name == old(self).name,
            final(self).tags == old(self).tags,
            final(self).context == old(self).context,
            final(self).cluster == old(self).cluster,
            final(self).listen_addrs == old(self).listen_addrs,
            final(self).namespace == old(self).namespace,
            final(self).resource_type == old(self).resource_type,
            final(self).target == old(self).target,
            final(self).ports == old(self).ports,
    {
        self.source_file = Some(file);
    }

    /// Unites the listen addresses with `other`'s, dropping repetitions,
    /// in order of first appearance.
    fn merge_listen_addrs(&mut self, other: &Vec<String>)
        ensures
            views_of(final(self).listen_addrs@) == dedup_append(
                dedup_append(Seq::empty(), views_of(old(self).listen_addrs@)),
                views_of(other@),
            ),
            final(self).source_file == old(self).source_file,
            final(self).name == old(self).name,
            final(self).tags == old(self).tags,
            final(self).context == old(self).context,
            final(self).cluster == old(self).cluster,
            final(self).namespace == old(self).namespace,
            final(self).resource_type == old(self).resource_type,
            final(self).target == old(self).target,
            final(self).ports == old(self).ports,
    {
        let mut result: Vec<String> = Vec::new();
        proof {
            assert(views_of(result@) =~= Seq::<Seq<char>>::empty());
        }
        dedup_extend(&mut result, &self.listen_addrs);
        dedup_extend(&mut result, other);
        self.listen_addrs = result;
    }
}

/// Appends to `acc` the strings of `xs` it does not already hold.
fn dedup_extend(acc: &mut Vec<String>, xs: &Vec<String>)
    ensures
        views_of(final(acc)@) == dedup_append(views_of(old(acc)@), views_of(xs@)),
{
    let n = xs.len();
    let mut i: usize = 0;
    proof {
        assert(views_of(xs@).take(0) =~= Seq::<Seq<char>>::empty());
        assert(dedup_append(views_of(acc@), views_of(xs@).take(0)) == views_of(acc@));
    }
    while i < n
        invariant
            0 <= i <= n,
            n == xs@.len(),
            views_of(acc@) == dedup_append(views_of(old(acc)@), views_of(xs@).take(i as int)),
        decreases n - i,
    {
        let ghost pre = views_of(acc@);
        let ghost xv = views_of(xs@);
        proof {
            assert(xv.take(i as int + 1) =~= xv.take(i as int) + seq![xv[i as int]]);
            strutil::lemma_dedup_append_concat(
                views_of(old(acc)@),
                xv.take(i as int),
                seq![xv[i as int]],
            );
            strutil::lemma_dedup_append_one(pre, xv[i as int]);
        }
        if !strutil::vec_contains_str(acc, xs[i].as_str()) {
            acc.push(xs[i].clone());
            proof {
                assert(views_of(acc@) =~= pre.push(xv[i as int]));
            }
        }
        i += 1;
    }
    proof {
        assert(views_of(xs@).take(n as int) =~= views_of(xs@));
    }
}

impl MergeWith<PortForwardConfig> for PortForwardConfig {
    /// Backfills this record from a less specific record of the same target.
    fn merge_with(&mut self, other: &PortForwardConfig)
        ensures
            merged_record(*old(self), *other, *final(self)),
            old(self).wf() && other.wf() ==> final(self).wf(),
    {
        self.source_file.merge_with(&other.source_file);
        self.name.merge_with(&other.name);
        self.tags.merge_with(&other.tags);
        self.context.merge_with(&other.context);
        self.cluster.merge_with(&other.cluster);
        self.merge_listen_addrs(&other.listen_addrs);
        self.ports.merge_with(&other.ports);
    }
}

/// The merge keys of a list of records, in order.
pub open spec fn target_names(s: Seq<PortForwardConfig>) -> Seq<Seq<char>> {
    s.map_values(|c: PortForwardConfig| c.target@)
}

/// No two records of the list share a merge key.
pub open spec fn unique_targets(s: Seq<PortForwardConfig>) -> bool {
    target_names(s).no_duplicates()
}

/// Every record of the list is well formed.
pub open spec fn records_wf(s: Seq<PortForwardConfig>) -> bool {
    forall|i: int| 0 <= i < s.len() ==> (#[trigger] s[i]).wf()
}

/// The position of the first record keyed `name`, or `s.len()` if none is.
pub open spec fn find_target(s: Seq<PortForwardConfig>, name: Seq<char>) -> int
    decreases s.len(),
{
    if s.len() == 0 {
        0
    } else if s.first().target@ == name {
        0
    } else {
        1 + find_target(s.drop_first(), name)
    }
}

/// `find_target` points at the first match, or past the end.
pub broadcast proof fn lemma_find_target(s: Seq<PortForwardConfig>, name: Seq<char>)
    ensures
        0 <= #[trigger] find_target(s, name) <= s.len(),
        find_target(s, name) < s.len() ==> s[find_target(s, name)].target@ == name,
        forall|j: int| 0 <= j < find_target(s, name) ==> (#[trigger] s[j]).target@ != name,
    decreases s.len(),
{
    if s.len() > 0 && s.first().target@ != name {
        lemma_find_target(s.drop_first(), name);
        assert forall|j: int| 0 <= j < find_target(s, name) implies (#[trigger] s[j]).target@
            != name by {
            if j > 0 {
                assert(s.drop_first()[j - 1].target@ != name);
            }
        }
    }
}

/// Finds the first record keyed like `name`.
fn find_by_target(v: &Vec<PortForwardConfig>, name: &str) -> (r: usize)
    ensures
        r == find_target(v@, name@),
{
    broadcast use lemma_find_target;

    let n = v.len();
    let mut i: usize = 0;
    while i < n
        invariant
            0 <= i <= n,
            n == v@.len(),
            forall|j: int| 0 <= j < i ==> (#[trigger] v@[j]).target@ != name@,
        decreases n - i,
    {
        if strutil::str_eq(v[i].target.as_str(), name) {
            proof {
                lemma_find_target(v@, name@);
            }
            return i;
        }
        i += 1;
    }
    proof {
        lemma_find_target(v@, name@);
        if find_target(v@, name@) < v@.len() {
            assert(v@[find_target(v@, name@)].target@ == name@);
        }
    }
    n
}

/// How the merged record at position `i` relates to the lists that met:
/// backfilled from the first matching incoming record, or untouched.
pub open spec fn merge_result_at(
    olds: Seq<PortForwardConfig>,
    others: Seq<PortForwardConfig>,
    finals: Seq<PortForwardConfig>,
    i: int,
) -> bool {
    let ft = find_target(others, olds[i].target@);
    if ft < others.len() {
        merged_record(olds[i], others[ft], finals[i])
    } else {
        finals[i] == olds[i]
    }
}

/// An appended record copies the first incoming record of a key that the
/// accumulated list did not hold.
pub open spec fn appended_at(
    olds: Seq<PortForwardConfig>,
    others: Seq<PortForwardConfig>,
    finals: Seq<PortForwardConfig>,
    k: int,
) -> bool {
    let ft = find_target(others, finals[k].target@);
    &&& ft < others.len()
    &&& same_record(others[ft], finals[k])
    &&& !target_names(olds).contains(finals[k].target@)
}

/// All that absorbing `others` into `olds` guarantees of the outcome:
/// the keys keep first-appearance order and stay unique, records already
/// accumulated are backfilled by the first incoming record of their key,
/// and records of new keys are appended as they are.
pub open spec fn targets_merged(
    olds: Seq<PortForwardConfig>,
    others: Seq<PortForwardConfig>,
    finals: Seq<PortForwardConfig>,
) -> bool {
    &&& (others.len() == 0 ==> finals == olds)
    &&& target_names(finals) == dedup_append(target_names(olds), target_names(others))
    &&& finals.len() >= olds.len()
    &&& (unique_targets(olds) ==> unique_targets(finals))
    &&& (unique_targets(olds) && unique_targets(others) ==> forall|i: int|
        0 <= i < olds.len() ==> #[trigger] merge_result_at(olds, others, finals, i))
    &&& (unique_targets(others) ==> forall|k: int|
        olds.len() <= k < finals.len() ==> #[trigger] appended_at(olds, others, finals, k))
    &&& (records_wf(olds) && records_wf(others) ==> records_wf(finals))
}


/// Merge precedence: for two records of one target that meet in a merge,
/// a value already present on the more specific record `a` is never
/// replaced by the farther record `b`; only absent fields are backfilled.
/// Tag sets union, and `b`'s port list is adopted only when `a` has none.
pub proof fn lemma_merge_precedence(
    a: PortForwardConfig,
    b: PortForwardConfig,
    m: PortForwardConfig,
)
    requires
        merged_record(a, b, m),
    ensures
        opt_view(a.name) is Some ==> opt_view(m.name) == opt_view(a.name),
        opt_view(a.name) is None ==> opt_view(m.name) == opt_view(b.name),
        opt_view(a.context) is Some ==> opt_view(m.context) == opt_view(a.context),
        opt_view(a.context) is None ==> opt_view(m.context) == opt_view(b.context),
        opt_view(a.cluster) is Some ==> opt_view(m.cluster) == opt_view(a.cluster),
        opt_view(a.cluster) is None ==> opt_view(m.cluster) == opt_view(b.cluster),
        m.tags@ == a.tags@.union(b.tags@),
        a.ports@.len() > 0 ==> m.ports@ == a.ports@,
        a.ports@.len() == 0 ==> m.ports@ == b.ports@,
{
}

/// Uniqueness: a merge into a list whose target names are unique yields
/// a list whose target names are unique — no two resolved targets share
/// a name.
pub proof fn lemma_merge_keeps_targets_unique(
    olds: Seq<PortForwardConfig>,
    others: Seq<PortForwardConfig>,
    finals: Seq<PortForwardConfig>,
)
    requires
        targets_merged(olds, others, finals),
        unique_targets(olds),
    ensures
        unique_targets(finals),
{
}

impl MergeWith<Vec<PortForwardConfig>> for Vec<PortForwardConfig> {
    /// Absorbs the less specific records into this list, key by key:
    /// a record whose key is already present backfills the first record of
    /// that key; a record with a new key is appended. First-appearance
    /// order of keys is preserved, and keys stay unique.
    fn merge_with(&mut self, other: &Vec<PortForwardConfig>)
        ensures
            targets_merged(old(self)@, other@, final(self)@),
    {
        broadcast use lemma_find_target;

        let ghost olds = self@;
        let ghost others = other@;
        let n = other.len();
        let mut j: usize = 0;
        proof {
            assert(target_names(others).take(0) =~= Seq::<Seq<char>>::empty());
            assert(dedup_append(target_names(olds), target_names(others).take(0))
                == target_names(olds));
        }
        while j < n
            invariant
                0 <= j <= n,
                n == other@.len(),
                olds == old(self)@,
                others == other@,
                others.len() == 0 ==> self@ == olds,
                self@.len() >= olds.len(),
                target_names(self@) == dedup_append(
                    target_names(olds),
                    target_names(others).take(j as int),
                ),
                unique_targets(olds) ==> unique_targets(self@),
                unique_targets(olds) && unique_targets(others) ==> forall|i: int|
                    0 <= i < olds.len() ==> if find_target(others, #[trigger] olds[i].target@)
                        < j as int {
                        merge_result_at(olds, others, self@, i)
                    } else {
                        self@[i] == olds[i]
                    },
                unique_targets(others) ==> forall|k: int|
                    olds.len() <= k < self@.len() ==> #[trigger] appended_at(
                        olds,
                        others,
                        self@,
                        k,
                    ),
                unique_targets(others) ==> forall|k: int|
                    olds.len() <= k < self@.len() ==> find_target(
                        others,
                        (#[trigger] self@[k]).target@,
                    ) < j as int,
                records_wf(olds) && records_wf(others) ==> records_wf(self@),
            decreases n - j,
        {
            let ghost pre = self@;
            let ghost nm = other@[j as int].target@;
            proof {
                assert(target_names(others).take(j as int + 1) =~= target_names(others).take(
                    j as int,
                ) + seq![nm]);
                strutil::lemma_dedup_append_concat(
                    target_names(olds),
                    target_names(others).take(j as int),
                    seq![nm],
                );
                strutil::lemma_dedup_append_one(target_names(pre), nm);
            }
            let idx = find_by_target(self, other[j].target.as_str());
            if idx < self.len() {
                proof {
                    lemma_find_target(pre, nm);
                    assert(target_names(pre)[idx as int] == nm);
                    assert(target_names(pre).contains(nm));
                    // The dedup of the names is unchanged by a key already present.
                    assert(dedup_append(
                        target_names(olds),
                        target_names(others).take(j as int + 1),
                    ) == target_names(pre));
                }
                let mut rec = self.remove(idx);
                let ghost rec0 = rec;
                rec.merge_with(&other[j]);
                self.insert(idx, rec);
                proof {
                    assert(self@ =~= pre.update(idx as int, self@[idx as int]));
                    let merged = self@[idx as int];
                    assert(merged_record(rec0, others[j as int], merged));
                    assert(target_names(self@) =~= target_names(pre));
                    strutil::lemma_dedup_append_prefix(
                        target_names(olds),
                        target_names(others).take(j as int),
                    );
                    if unique_targets(others) {
                        // This key occurs only here in `other`, so `j` is its
                        // first and only match.
                        assert forall|j2: int| 0 <= j2 < j as int implies (
                        #[trigger] others[j2]).target@ != nm by {
                            if others[j2].target@ == nm {
                                assert(target_names(others)[j2] == nm);
                                assert(target_names(others)[j as int] == nm);
                            }
                        }
                        assert(find_target(others, nm) == j as int) by {
                            lemma_find_target(others, nm);
                            if find_target(others, nm) < j as int {
                                assert(others[find_target(others, nm)].target@ == nm);
                            } else if find_target(others, nm) > j as int {
                                assert(others[j as int].target@ != nm);
                            }
                        }
                        if idx >= olds.len() {
                            // An appended record already carries this key, so a
                            // second incoming record of it would repeat the key.
                            assert(appended_at(olds, others, pre, idx as int));
                            assert(find_target(others, pre[idx as int].target@) < j as int);
                            assert(false);
                        }
                        assert forall|k: int| olds.len() <= k < self@.len() implies
                            #[trigger] appended_at(olds, others, self@, k) && find_target(
                            others,
                            self@[k].target@,
                        ) < j as int + 1 by {
                            assert(self@[k] == pre[k]);
                            assert(appended_at(olds, others, pre, k));
                        }
                        if unique_targets(olds) {
                            // The matched position is the one old record of this key.
                            assert(target_names(pre)[idx as int] == target_names(olds)[idx as int]);
                            assert(olds[idx as int].target@ == nm);
                            assert(pre[idx as int] == olds[idx as int]);
                            assert forall|i: int| 0 <= i < olds.len() implies (if find_target(
                                others,
                                #[trigger] olds[i].target@,
                            ) < j as int + 1 {
                                merge_result_at(olds, others, self@, i)
                            } else {
                                self@[i] == olds[i]
                            }) by {
                                if i == idx as int {
                                    assert(merge_result_at(olds, others, self@, i));
                                } else {
                                    assert(self@[i] == pre[i]);
                                    if olds[i].target@ == nm {
                                        assert(target_names(olds)[i] == nm);
                                        assert(target_names(olds)[idx as int] == nm);
                                        assert(false);
                                    }
                                    lemma_find_target(others, olds[i].target@);
                                    if find_target(others, olds[i].target@) == j as int {
                                        assert(others[j as int].target@ == olds[i].target@);
                                    }
                                    assert(find_target(others, olds[i].target@) != j as int);
                                }
                            }
                        }
                    }
                }
            } else {
                proof {
                    lemma_find_target(pre, nm);
                    assert(!target_names(pre).contains(nm)) by {
                        if target_names(pre).contains(nm) {
                            let x = choose|x: int|
                                0 <= x < target_names(pre).len() && target_names(pre)[x] == nm;
                            assert(pre[x].target@ == nm);
                        }
                    }
                }
                let rec = other[j].clone();
                self.push(rec);
                proof {
                    assert(target_names(self@) =~= target_names(pre).push(nm));
                    assert(target_names(self@) =~= dedup_append(
                        target_names(olds),
                        target_names(others).take(j as int + 1),
                    ));
                    assert(same_record(others[j as int], self@[pre.len() as int]));
                    strutil::lemma_dedup_append_prefix(
                        target_names(olds),
                        target_names(others).take(j as int),
                    );
                    assert(!target_names(olds).contains(nm)) by {
                        if target_names(olds).contains(nm) {
                            let x = choose|x: int|
                                0 <= x < target_names(olds).len() && target_names(olds)[x] == nm;
                            assert(target_names(pre)[x] == nm);
                        }
                    }
                    if unique_targets(others) {
                        assert forall|j2: int| 0 <= j2 < j as int implies (
                        #[trigger] others[j2]).target@ != nm by {
                            if others[j2].target@ == nm {
                                assert(target_names(others)[j2] == nm);
                                assert(target_names(others)[j as int] == nm);
                            }
                        }
                        lemma_find_target(others, nm);
                        assert(find_target(others, nm) == j as int) by {
                            lemma_find_target(others, nm);
                            if find_target(others, nm) < j as int {
                                assert(others[find_target(others, nm)].target@ == nm);
                            } else if find_target(others, nm) > j as int {
                                assert(others[j as int].target@ != nm);
                            }
                        }
                        assert(appended_at(olds, others, self@, pre.len() as int));
                        assert(self@[pre.len() as int].target@ == nm);
                        assert(find_target(others, self@[pre.len() as int].target@) < j as int
                            + 1);
                        assert forall|k: int| olds.len() <= k < self@.len() implies
                            #[trigger] appended_at(olds, others, self@, k) && find_target(
                            others,
                            self@[k].target@,
                        ) < j as int + 1 by {
                            if k < pre.len() {
                                assert(self@[k] == pre[k]);
                                assert(appended_at(olds, others, pre, k));
                                assert(find_target(others, pre[k].target@) < j as int);
                            } else {
                                assert(k == pre.len() as int);
                            }
                        }
                    }
                    if unique_targets(olds) {
                        assert(unique_targets(self@));
                    }
                    if unique_targets(olds) && unique_targets(others) {
                        assert forall|i: int| 0 <= i < olds.len() implies (if find_target(
                            others,
                            #[trigger] olds[i].target@,
                        ) < j as int + 1 {
                            merge_result_at(olds, others, self@, i)
                        } else {
                            self@[i] == olds[i]
                        }) by {
                            assert(self@[i] == pre[i]);
                            if olds[i].target@ == nm {
                                assert(target_names(olds)[i] == nm);
                                assert(false);
                            }
                            lemma_find_target(others, olds[i].target@);
                            if find_target(others, olds[i].target@) == j as int {
                                assert(others[j as int].target@ == olds[i].target@);
                            }
                            assert(find_target(others, olds[i].target@) != j as int);
                        }
                    }
                                }
            }
            j += 1;
        }
        proof {
            assert(target_names(others).take(n as int) =~= target_names(others));
            if unique_targets(olds) && unique_targets(others) {
                assert forall|i: int| 0 <= i < olds.len() implies #[trigger] merge_result_at(
                    olds,
                    others,
                    self@,
                    i,
                ) by {
                    lemma_find_target(others, olds[i].target@);
                }
            }
        }
    }
}

/// The fields of a record, as mathematical values.
#[verifier::ext_equal]
pub ghost struct RecordView {
    pub source_file: Option<Seq<char>>,
    pub name: Option<Seq<char>>,
    pub tags: Set<Seq<char>>,
    pub context: Option<Seq<char>>,
    pub cluster: Option<Seq<char>>,
    pub listen_addrs: Seq<Seq<char>>,
    pub namespace: Seq<char>,
    pub resource_type: ResourceType,
    pub target: Seq<char>,
    pub ports: Seq<Port>,
}

/// A record's fields as a [`RecordView`].
pub open spec fn record_view(c: PortForwardConfig) -> RecordView {
    RecordView {
        source_file: opt_view(c.source_file),
        name: opt_view(c.name),
        tags: c.tags@,
        context: opt_view(c.context),
        cluster: opt_view(c.cluster),
        listen_addrs: views_of(c.listen_addrs@),
        namespace: c.namespace@,
        resource_type: c.resource_type,
        target: c.target@,
        ports: c.ports@,
    }
}

/// The field merge of two records, the first more specific: exactly the
/// field equations of [`merged_record`], as a function.
pub open spec fn merge_view(a: RecordView, b: RecordView) -> RecordView {
    RecordView {
        source_file: first_some(a.source_file, b.source_file),
        name: first_some(a.name, b.name),
        tags: a.tags.union(b.tags),
        context: first_some(a.context, b.context),
        cluster: first_some(a.cluster, b.cluster),
        listen_addrs: dedup_append(dedup_append(Seq::empty(), a.listen_addrs), b.listen_addrs),
        namespace: a.namespace,
        resource_type: a.resource_type,
        target: a.target,
        ports: if a.ports.len() > 0 {
            a.ports
        } else {
            b.ports
        },
    }
}

/// A merged record's fields are the field merge of the two that met.
pub proof fn lemma_merged_record_is_merge_view(
    a: PortForwardConfig,
    b: PortForwardConfig,
    m: PortForwardConfig,
)
    requires
        merged_record(a, b, m),
    ensures
        record_view(m) == merge_view(record_view(a), record_view(b)),
{
    assert(record_view(m) =~= merge_view(record_view(a), record_view(b)));
}

/// Two records that hold the same configuration have the same fields.
pub proof fn lemma_same_record_is_same_view(c: PortForwardConfig, m: PortForwardConfig)
    requires
        same_record(c, m),
    ensures
        record_view(m) == record_view(c),
{
    assert(record_view(m) =~= record_view(c));
}

/// The records of one key, in order.
pub open spec fn key_records(rs: Seq<PortForwardConfig>, nm: Seq<char>) -> Seq<PortForwardConfig>
    decreases rs.len(),
{
    if rs.len() == 0 {
        Seq::empty()
    } else if rs.first().target@ == nm {
        seq![rs.first()] + key_records(rs.drop_first(), nm)
    } else {
        key_records(rs.drop_first(), nm)
    }
}

/// A list without the key yields no records of it.
pub proof fn lemma_key_records_none(rs: Seq<PortForwardConfig>, nm: Seq<char>)
    requires
        forall|j: int| 0 <= j < rs.len() ==> (#[trigger] rs[j]).target@ != nm,
    ensures
        key_records(rs, nm) == Seq::<PortForwardConfig>::empty(),
    decreases rs.len(),
{
    if rs.len() > 0 {
        assert(forall|j: int|
            0 <= j < rs.drop_first().len() ==> (#[trigger] rs.drop_first()[j]).target@ != nm);
        lemma_key_records_none(rs.drop_first(), nm);
    }
}

/// Key extraction distributes over concatenation.
pub proof fn lemma_key_records_concat(
    a: Seq<PortForwardConfig>,
    b: Seq<PortForwardConfig>,
    nm: Seq<char>,
)
    ensures
        key_records(a + b, nm) == key_records(a, nm) + key_records(b, nm),
    decreases a.len(),
{
    if a.len() == 0 {
        assert(a + b =~= b);
        assert(key_records(a, nm) + key_records(b, nm) =~= key_records(b, nm));
    } else {
        assert((a + b).first() == a.first());
        assert((a + b).drop_first() =~= a.drop_first() + b);
        lemma_key_records_concat(a.drop_first(), b, nm);
        if a.first().target@ == nm {
            assert(seq![a.first()] + (key_records(a.drop_first(), nm) + key_records(b, nm)) =~= (
            seq![a.first()] + key_records(a.drop_first(), nm)) + key_records(b, nm));
        }
    }
}

/// In a uniquely keyed list, the records of a key are the first match
/// alone, or nothing.
pub proof fn lemma_key_records_unique(rs: Seq<PortForwardConfig>, nm: Seq<char>)
    requires
        unique_targets(rs),
    ensures
        find_target(rs, nm) == rs.len() ==> key_records(rs, nm) == Seq::<
            PortForwardConfig,
        >::empty(),
        find_target(rs, nm) < rs.len() ==> key_records(rs, nm) == seq![
            rs[find_target(rs, nm)],
        ],
    decreases rs.len(),
{
    lemma_find_target(rs, nm);
    if rs.len() == 0 {
    } else if rs.first().target@ == nm {
        assert(find_target(rs, nm) == 0);
        assert forall|j: int| 0 <= j < rs.drop_first().len() implies (
        #[trigger] rs.drop_first()[j]).target@ != nm by {
            if rs.drop_first()[j].target@ == nm {
                assert(target_names(rs)[0] == nm);
                assert(target_names(rs)[j + 1] == nm);
            }
        }
        lemma_key_records_none(rs.drop_first(), nm);
        assert(key_records(rs, nm) =~= seq![rs[0]]);
    } else {
        assert(unique_targets(rs.drop_first())) by {
            assert forall|x: int, y: int|
                0 <= x < y < rs.drop_first().len() implies target_names(rs.drop_first())[x]
                != target_names(rs.drop_first())[y] by {
                assert(target_names(rs)[x + 1] == rs[x + 1].target@);
                assert(target_names(rs)[y + 1] == rs[y + 1].target@);
            }
        }
        lemma_key_records_unique(rs.drop_first(), nm);
        assert(find_target(rs, nm) == 1 + find_target(rs.drop_first(), nm));
        if find_target(rs, nm) < rs.len() {
            assert(rs.drop_first()[find_target(rs.drop_first(), nm)] == rs[find_target(rs, nm)]);
        }
    }
}

} // verus!
