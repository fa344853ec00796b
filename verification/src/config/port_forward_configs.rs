use vstd::prelude::*;
use crate::config::merge_with::MergeWith;
use crate::config::operational_config::OperationalConfig;
use crate::config::port_forward_config::{
    appended_at, find_target, key_records, lemma_find_target, lemma_key_records_unique,
    lemma_merged_record_is_merge_view, lemma_same_record_is_same_view, merge_result_at,
    merge_view, merged_record, record_view, records_wf, same_record, target_names,
    targets_merged, unique_targets, PortForwardConfig, RecordView,
};
use crate::strutil::{dedup_append, lemma_dedup_append_contains};
use crate::config::retry_delay::RetryDelay;
use crate::config::ConfigMeta;
use crate::config::version::{
    highest_supported_version, lowest_supported_version, spec_version_le, Version,
};

verus! {

/// One parsed configuration document: a format version, optional
/// operational settings, and a list of forwarding targets.
#[derive(Debug)]
pub struct PortForwardConfigs {
    /// The declared format version of the document.
    pub version: Version,
    /// Operational settings, if the document carries any.
    pub config: Option<OperationalConfig>,
    /// The forwarding targets the document defines.
    pub targets: Vec<PortForwardConfig>,
}

/// Rejection of a document whose version lies outside the supported range.
#[derive(Debug, Clone, Copy, PartialEq, Eq, Structural)]
pub struct UnsupportedVersion {
    /// The version the document declared.
    pub version: Version,
}

/// The retry delay a document carries, if any.
pub open spec fn doc_delay(d: PortForwardConfigs) -> Option<RetryDelay> {
    match d.config {
        Some(c) => c.retry_delay_sec,
        None => None,
    }
}

/// `m` holds all the forwarding targets of `c`, with the given provenance.
pub open spec fn sources_set(
    olds: Seq<PortForwardConfig>,
    finals: Seq<PortForwardConfig>,
    f: Seq<char>,
) -> bool {
    &&& finals.len() == olds.len()
    &&& forall|i: int|
        0 <= i < olds.len() ==> #[trigger] finals[i] == (PortForwardConfig {
            source_file: finals[i].source_file,
            ..olds[i]
        }) && (finals[i].source_file matches Some(s) && s@ == f)
}

impl PortForwardConfigs {
    /// Stamps every target with the file the document came from.
    pub fn set_source_file(&mut self, file: &str)
        ensures
            sources_set(old(self).targets@, final(self).targets@, file@),
            final(self).version == old(self).version,
            final(self).config == old(self).config,
    {
        let n = self.targets.len();
        let mut i: usize = 0;
        while i < n
            invariant
                0 <= i <= n,
                n == self.targets@.len(),
                self.targets@.len() == old(self).targets@.len(),
                self.version == old(self).version,
                self.config == old(self).config,
                forall|k: int| i <= k < n ==> #[trigger] self.targets@[k] == old(self).targets@[k],
                forall|k: int|
                    0 <= k < i ==> #[trigger] self.targets@[k] == (PortForwardConfig {
                        source_file: self.targets@[k].source_file,
                        ..old(self).targets@[k]
                    }) && (self.targets@[k].source_file matches Some(s) && s@ == file@),
            decreases n - i,
        {
            let owned: String = file.to_owned();
            let mut rec = self.targets.remove(i);
            rec.set_source_file(owned);
            self.targets.insert(i, rec);
            proof {
                assert(self.targets@ =~= old(self).targets@.take(0).add(self.targets@));
            }
            i += 1;
        }
    }

    /// Whether the declared version lies in `[lowest, highest]`, comparing
    /// numeric triples. The range is a parameter so that callers and tests
    /// can hold documents to any range.
    pub fn is_version_in_range(&self, lowest: &Version, highest: &Version) -> (r: bool)
        ensures
            r == (spec_version_le(*lowest, self.version) && spec_version_le(
                self.version,
                *highest,
            )),
    {
        lowest.le(&self.version) && self.version.le(highest)
    }

    /// Whether the declared version is one this library reads.
    pub fn is_supported_version(&self) -> (r: bool)
        ensures
            r == spec_version_supported(self.version),
    {
        let lowest = lowest_supported_version();
        let highest = highest_supported_version();
        self.is_version_in_range(&lowest, &highest)
    }

    /// Gates the document on its version: a document declaring a version
    /// outside the supported range is rejected, carrying that version.
    pub fn check_version(&self) -> (r: Result<(), UnsupportedVersion>)
        ensures
            r is Ok <==> spec_version_supported(self.version),
            r matches Err(e) ==> e.version == self.version,
    {
        if self.is_supported_version() {
            Ok(())
        } else {
            Err(UnsupportedVersion { version: self.version })
        }
    }

    /// Drops the document's targets, keeping its operational settings; used
    /// for sources that only supply fallback settings.
    pub fn clear_targets(&mut self)
        ensures
            final(self).targets@.len() == 0,
            final(self).version == old(self).version,
            final(self).config == old(self).config,
    {
        self.targets = Vec::new();
    }
}

/// The version the library reads: within the supported range inclusive.
pub open spec fn spec_version_supported(v: Version) -> bool {
    spec_version_le(Version { major: 0, minor: 1, patch: 0 }, v) && spec_version_le(
        v,
        Version { major: 0, minor: 3, patch: 0 },
    )
}

impl MergeWith<PortForwardConfigs> for PortForwardConfigs {
    /// Backfills this document from a less specific one: the version of the
    /// more specific document stands, a present retry delay is kept, and
    /// the target lists merge by key.
    fn merge_with(&mut self, other: &PortForwardConfigs)
        ensures
            final(self).version == old(self).version,
            doc_delay(*final(self)) == (if doc_delay(*old(self)) is Some {
                doc_delay(*old(self))
            } else {
                doc_delay(*other)
            }),
            targets_merged(old(self).targets@, other.targets@, final(self).targets@),
    {
        match &mut self.config {
            None => {
                self.config = *&other.config;
            },
            Some(config) => {
                config.merge_with(&other.config);
            },
        }
        self.targets.merge_with(&other.targets);
    }
}

/// The first retry delay that the documents, most specific first, supply.
pub open spec fn spec_first_delay(ds: Seq<PortForwardConfigs>) -> Option<RetryDelay>
    decreases ds.len(),
{
    if ds.len() == 0 {
        None
    } else if doc_delay(ds.first()) is Some {
        doc_delay(ds.first())
    } else {
        spec_first_delay(ds.drop_first())
    }
}

/// Taking one more document refines the first delay only when none was
/// found among the earlier ones.
proof fn lemma_first_delay_step(ds: Seq<PortForwardConfigs>, i: int)
    requires
        0 <= i < ds.len(),
    ensures
        spec_first_delay(ds.take(i + 1)) == (if spec_first_delay(ds.take(i)) is Some {
            spec_first_delay(ds.take(i))
        } else {
            doc_delay(ds[i])
        }),
    decreases i,
{
    if i == 0 {
        assert(ds.take(1).first() == ds[0]);
        assert(ds.take(1).drop_first() =~= ds.take(0));
    } else {
        assert(ds.take(i + 1).first() == ds[0]);
        assert(ds.take(i).first() == ds[0]);
        assert(ds.take(i + 1).drop_first() =~= ds.drop_first().take(i));
        assert(ds.take(i).drop_first() =~= ds.drop_first().take(i - 1));
        assert(ds.drop_first()[i - 1] == ds[i]);
        lemma_first_delay_step(ds.drop_first(), i - 1);
    }
}


/// The keys of the resolved target list: every document's keys, folded in
/// order with first appearance kept.
pub open spec fn spec_merged_names_from(
    acc: Seq<Seq<char>>,
    ds: Seq<PortForwardConfigs>,
) -> Seq<Seq<char>>
    decreases ds.len(),
{
    if ds.len() == 0 {
        acc
    } else {
        spec_merged_names_from(
            crate::strutil::dedup_append(acc, target_names(ds.first().targets@)),
            ds.drop_first(),
        )
    }
}

proof fn lemma_merged_names_step(acc: Seq<Seq<char>>, ds: Seq<PortForwardConfigs>, i: int)
    requires
        0 <= i < ds.len(),
    ensures
        spec_merged_names_from(acc, ds.take(i + 1)) == crate::strutil::dedup_append(
            spec_merged_names_from(acc, ds.take(i)),
            target_names(ds[i].targets@),
        ),
    decreases i,
{
    let step = crate::strutil::dedup_append(acc, target_names(ds[0].targets@));
    if i == 0 {
        assert(ds.take(1).first() == ds[0]);
        assert(ds.take(1).drop_first() =~= Seq::<PortForwardConfigs>::empty());
        assert(ds.take(0) =~= Seq::<PortForwardConfigs>::empty());
        assert(spec_merged_names_from(step, Seq::<PortForwardConfigs>::empty()) == step);
        assert(spec_merged_names_from(acc, Seq::<PortForwardConfigs>::empty()) == acc);
    } else {
        assert(ds.take(i + 1).first() == ds[0]);
        assert(ds.take(i).first() == ds[0]);
        assert(ds.take(i + 1).drop_first() =~= ds.drop_first().take(i));
        assert(ds.take(i).drop_first() =~= ds.drop_first().take(i - 1));
        assert(ds.drop_first()[i - 1] == ds[i]);
        assert(spec_merged_names_from(acc, ds.take(i + 1)) == spec_merged_names_from(
            step,
            ds.drop_first().take(i),
        ));
        assert(spec_merged_names_from(acc, ds.take(i)) == spec_merged_names_from(
            step,
            ds.drop_first().take(i - 1),
        ));
        lemma_merged_names_step(step, ds.drop_first(), i - 1);
    }
}


/// All target records of the documents, most specific first, in order.
pub open spec fn all_records(ds: Seq<PortForwardConfigs>) -> Seq<PortForwardConfig>
    decreases ds.len(),
{
    if ds.len() == 0 {
        Seq::empty()
    } else {
        ds.first().targets@ + all_records(ds.drop_first())
    }
}

/// The records of one key across the documents, in order.
pub open spec fn records_of(ds: Seq<PortForwardConfigs>, nm: Seq<char>) -> Seq<PortForwardConfig> {
    key_records(all_records(ds), nm)
}

/// Every document's target keys are unique within the document.
pub open spec fn docs_unique(ds: Seq<PortForwardConfigs>) -> bool {
    forall|i: int| 0 <= i < ds.len() ==> unique_targets((#[trigger] ds[i]).targets@)
}

/// The resolved fields of one key: its records folded left through the
/// field merge.
pub open spec fn fold_records(rs: Seq<PortForwardConfig>) -> RecordView
    recommends
        rs.len() >= 1,
    decreases rs.len(),
{
    if rs.len() <= 1 {
        record_view(rs.first())
    } else {
        merge_view(fold_records(rs.drop_last()), record_view(rs.last()))
    }
}

proof fn lemma_fold_records_push(rs: Seq<PortForwardConfig>, x: PortForwardConfig)
    requires
        rs.len() >= 1,
    ensures
        fold_records(rs.push(x)) == merge_view(fold_records(rs), record_view(x)),
{
    assert(rs.push(x).drop_last() =~= rs);
    assert(rs.push(x).last() == x);
}

proof fn lemma_all_records_step(ds: Seq<PortForwardConfigs>, i: int)
    requires
        0 <= i < ds.len(),
    ensures
        all_records(ds.take(i + 1)) =~= all_records(ds.take(i)) + ds[i].targets@,
    decreases i,
{
    if i == 0 {
        assert(ds.take(1).first() == ds[0]);
        assert(ds.take(1).drop_first() =~= Seq::<PortForwardConfigs>::empty());
        assert(ds.take(0) =~= Seq::<PortForwardConfigs>::empty());
        assert(all_records(ds.take(1).drop_first()) =~= Seq::<PortForwardConfig>::empty());
        assert(all_records(ds.take(1)) =~= ds[0].targets@);
        assert(all_records(ds.take(0)) + ds[0].targets@ =~= ds[0].targets@);
    } else {
        assert(ds.take(i + 1).first() == ds[0]);
        assert(ds.take(i).first() == ds[0]);
        assert(ds.take(i + 1).drop_first() =~= ds.drop_first().take(i));
        assert(ds.take(i).drop_first() =~= ds.drop_first().take(i - 1));
        assert(ds.drop_first()[i - 1] == ds[i]);
        lemma_all_records_step(ds.drop_first(), i - 1);
        assert(ds[0].targets@ + (all_records(ds.drop_first().take(i - 1)) + ds[i].targets@) =~= (
        ds[0].targets@ + all_records(ds.drop_first().take(i - 1))) + ds[i].targets@);
    }
}

proof fn lemma_records_of_step(ds: Seq<PortForwardConfigs>, i: int, nm: Seq<char>)
    requires
        0 <= i < ds.len(),
    ensures
        records_of(ds.take(i + 1), nm) == records_of(ds.take(i), nm) + key_records(
            ds[i].targets@,
            nm,
        ),
{
    lemma_all_records_step(ds, i);
    crate::config::port_forward_config::lemma_key_records_concat(
        all_records(ds.take(i)),
        ds[i].targets@,
        nm,
    );
}

/// A key stands in the folded name sequence exactly when the accumulator
/// or some document's targets hold it.
proof fn lemma_merged_names_contains(
    acc: Seq<Seq<char>>,
    ds: Seq<PortForwardConfigs>,
    nm: Seq<char>,
)
    ensures
        spec_merged_names_from(acc, ds).contains(nm) <==> acc.contains(nm) || exists|x: int|
            0 <= x < ds.len() && target_names((#[trigger] ds[x]).targets@).contains(nm),
    decreases ds.len(),
{
    if ds.len() == 0 {
        assert(!(exists|x: int|
            0 <= x < ds.len() && target_names((#[trigger] ds[x]).targets@).contains(nm)));
    } else {
        let step = dedup_append(acc, target_names(ds.first().targets@));
        lemma_merged_names_contains(step, ds.drop_first(), nm);
        lemma_dedup_append_contains(acc, target_names(ds.first().targets@), nm);
        if exists|x: int|
            0 <= x < ds.drop_first().len() && target_names(
                (#[trigger] ds.drop_first()[x]).targets@,
            ).contains(nm) {
            let x = choose|x: int|
                0 <= x < ds.drop_first().len() && target_names(
                    (#[trigger] ds.drop_first()[x]).targets@,
                ).contains(nm);
            assert(target_names(ds[x + 1].targets@).contains(nm));
        }
        if target_names(ds.first().targets@).contains(nm) {
            assert(target_names(ds[0].targets@).contains(nm));
        }
        if exists|x: int|
            0 <= x < ds.len() && target_names((#[trigger] ds[x]).targets@).contains(nm) {
            let x = choose|x: int|
                0 <= x < ds.len() && target_names((#[trigger] ds[x]).targets@).contains(nm);
            if x > 0 {
                assert(target_names(ds.drop_first()[x - 1].targets@).contains(nm));
            }
        }
    }
}

/// Documents none of which hold a key contribute no record of it.
proof fn lemma_records_of_absent(ds: Seq<PortForwardConfigs>, nm: Seq<char>)
    requires
        forall|x: int|
            0 <= x < ds.len() ==> !target_names((#[trigger] ds[x]).targets@).contains(nm),
    ensures
        records_of(ds, nm) == Seq::<PortForwardConfig>::empty(),
    decreases ds.len(),
{
    if ds.len() == 0 {
        assert(all_records(ds) =~= Seq::<PortForwardConfig>::empty());
    } else {
        assert(forall|x: int|
            0 <= x < ds.drop_first().len() ==> !target_names(
                (#[trigger] ds.drop_first()[x]).targets@,
            ).contains(nm)) by {
            assert forall|x: int| 0 <= x < ds.drop_first().len() implies !target_names(
                (#[trigger] ds.drop_first()[x]).targets@,
            ).contains(nm) by {
                assert(ds.drop_first()[x] == ds[x + 1]);
            }
        }
        lemma_records_of_absent(ds.drop_first(), nm);
        assert forall|j: int| 0 <= j < ds.first().targets@.len() implies (
        #[trigger] ds.first().targets@[j]).target@ != nm by {
            if ds.first().targets@[j].target@ == nm {
                assert(target_names(ds[0].targets@)[j] == nm);
            }
        }
        crate::config::port_forward_config::lemma_key_records_none(ds.first().targets@, nm);
        crate::config::port_forward_config::lemma_key_records_concat(
            ds.first().targets@,
            all_records(ds.drop_first()),
            nm,
        );
        assert(records_of(ds, nm) =~= Seq::<PortForwardConfig>::empty());
    }
}

/// Every document's target records are well formed.
pub open spec fn docs_wf(ds: Seq<PortForwardConfigs>) -> bool {
    forall|i: int| 0 <= i < ds.len() ==> records_wf((#[trigger] ds[i]).targets@)
}

/// Each resolved record's fields are exactly the fold of the per-key
/// field merges over the documents' records of its key, most specific
/// first.
pub open spec fn resolved_from(
    ds: Seq<PortForwardConfigs>,
    finals: Seq<PortForwardConfig>,
) -> bool {
    forall|k: int|
        0 <= k < finals.len() ==> record_view(#[trigger] finals[k]) == fold_records(
            records_of(ds, finals[k].target@),
        ) && records_of(ds, finals[k].target@).len() >= 1
}

/// Folds an ordered list of documents, most specific first, into one
/// resolved document: the closest document's version stands, the first
/// retry delay found wins, and the targets of all documents accumulate by
/// key in first-appearance order. The resolved target list never holds two
/// records of the same key.
pub fn merge_documents(docs: &Vec<PortForwardConfigs>) -> (r: PortForwardConfigs)
    requires
        docs@.len() > 0,
    ensures
        r.version == docs@[0].version,
        unique_targets(r.targets@),
        target_names(r.targets@) == spec_merged_names_from(Seq::empty(), docs@),
        docs_unique(docs@) ==> resolved_from(docs@, r.targets@),
        doc_delay(r) == spec_first_delay(docs@),
        docs_wf(docs@) ==> records_wf(r.targets@),
{
    let mut r = PortForwardConfigs {
        version: docs[0].version,
        config: None,
        targets: Vec::new(),
    };
    let n = docs.len();
    let mut i: usize = 0;
    proof {
        assert(docs@.take(0) =~= Seq::<PortForwardConfigs>::empty());
        assert(target_names(r.targets@) =~= Seq::<Seq<char>>::empty());
    }
    while i < n
        invariant
            0 <= i <= n,
            n == docs@.len(),
            n > 0,
            r.version == docs@[0].version,
            unique_targets(r.targets@),
            target_names(r.targets@) == spec_merged_names_from(
                Seq::empty(),
                docs@.take(i as int),
            ),
            docs_unique(docs@) ==> resolved_from(docs@.take(i as int), r.targets@),
            doc_delay(r) == spec_first_delay(docs@.take(i as int)),
            docs_wf(docs@) ==> records_wf(r.targets@),
        decreases n - i,
    {
        let ghost olds = r.targets@;
        proof {
            lemma_first_delay_step(docs@, i as int);
            lemma_merged_names_step(Seq::empty(), docs@, i as int);
        }
        r.merge_with(&docs[i]);
        proof {
            if docs_unique(docs@) {
                let others = docs@[i as int].targets@;
                let finals = r.targets@;
                assert(unique_targets(others));
                crate::strutil::lemma_dedup_append_prefix(
                    target_names(olds),
                    target_names(others),
                );
                assert forall|k: int| 0 <= k < finals.len() implies record_view(
                    #[trigger] finals[k],
                ) == fold_records(records_of(docs@.take(i as int + 1), finals[k].target@))
                    && records_of(docs@.take(i as int + 1), finals[k].target@).len() >= 1 by {
                    let nm = finals[k].target@;
                    let prev = records_of(docs@.take(i as int), nm);
                    lemma_records_of_step(docs@, i as int, nm);
                    lemma_find_target(others, nm);
                    lemma_key_records_unique(others, nm);
                    if k < olds.len() {
                        assert(merge_result_at(olds, others, finals, k));
                        assert(target_names(finals)[k] == target_names(olds)[k]);
                        assert(olds[k].target@ == nm);
                        assert(record_view(olds[k]) == fold_records(prev));
                        let ft = find_target(others, nm);
                        if ft < others.len() {
                            assert(merged_record(olds[k], others[ft], finals[k]));
                            lemma_merged_record_is_merge_view(olds[k], others[ft], finals[k]);
                            assert(key_records(others, nm) == seq![others[ft]]);
                            assert(records_of(docs@.take(i as int + 1), nm) =~= prev.push(
                                others[ft],
                            ));
                            lemma_fold_records_push(prev, others[ft]);
                        } else {
                            assert(finals[k] == olds[k]);
                            assert(key_records(others, nm) == Seq::<
                                PortForwardConfig,
                            >::empty());
                            assert(records_of(docs@.take(i as int + 1), nm) =~= prev);
                        }
                    } else {
                        assert(appended_at(olds, others, finals, k));
                        let ft = find_target(others, nm);
                        assert(ft < others.len());
                        assert(same_record(others[ft], finals[k]));
                        lemma_same_record_is_same_view(others[ft], finals[k]);
                        assert(!target_names(olds).contains(nm));
                        lemma_merged_names_contains(Seq::empty(), docs@.take(i as int), nm);
                        assert(!Seq::<Seq<char>>::empty().contains(nm));
                        lemma_records_of_absent(docs@.take(i as int), nm);
                        assert(key_records(others, nm) == seq![others[ft]]);
                        assert(records_of(docs@.take(i as int + 1), nm) =~= seq![others[ft]]);
                        assert(seq![others[ft]].first() == others[ft]);
                        assert(fold_records(seq![others[ft]]) == record_view(others[ft]));
                    }
                }
            }
        }
        i += 1;
    }
    proof {
        assert(docs@.take(n as int) =~= docs@);
    }
    r
}

/// The ways reading a configuration document can fail; the surrounding
/// application maps its parser's and file errors into these.
#[derive(Debug)]
pub enum FromYamlError {
    /// The document is malformed or violates the schema.
    InvalidConfiguration(String),
    /// The file could not be read.
    FileReadFailed(String),
}

/// Finishes a freshly parsed document for its source: a settings-only
/// source keeps its operational settings but loses its targets; any other
/// source stamps each target with its provenance.
pub fn finalize_document(config: &mut PortForwardConfigs, source: &ConfigMeta)
    ensures
        final(config).version == old(config).version,
        final(config).config == old(config).config,
        source.load_config_only ==> final(config).targets@.len() == 0,
        !source.load_config_only ==> sources_set(
            old(config).targets@,
            final(config).targets@,
            source.path@,
        ),
{
    if source.load_config_only {
        config.clear_targets();
    } else {
        config.set_source_file(source.path.as_str());
    }
}

} // verus!
