//! Configuration model: discovery metadata, documents, targets and their
//! building blocks.

pub mod config_id;
pub mod listen_addr;
pub mod merge_with;
pub mod operational_config;
pub mod port;
pub mod port_forward_config;
pub mod port_forward_configs;
pub mod resource_type;
pub mod retry_delay;
pub mod tag;
pub mod tag_selection;
pub mod version;
pub mod visit_tracker;

use vstd::prelude::*;
use vstd::string::StringExecFns;

pub use config_id::ConfigId;
pub use merge_with::MergeWith;
pub use operational_config::OperationalConfig;
pub use port::Port;
pub use port_forward_config::PortForwardConfig;
pub use port_forward_configs::PortForwardConfigs;
pub use resource_type::ResourceType;
pub use retry_delay::RetryDelay;
pub use tag::{Tag, TagSet};
pub use tag_selection::TagSelection;
pub use version::Version;
pub use visit_tracker::{FileIdentity, VisitTracker};

verus! {

/// Describes the source and handling of a configuration document.
#[derive(Debug)]
pub struct ConfigMeta {
    /// The path under which the source is reported.
    pub path: String,
    /// Whether the source was discovered automatically (`true`) or named
    /// explicitly by the caller (`false`).
    pub auto_detected: bool,
    /// Whether only the operational settings of the source apply; its
    /// targets are discarded after parsing.
    pub load_config_only: bool,
}

/// The ways configuration discovery can fail.
#[derive(Debug)]
pub enum FindConfigFileError {
    /// No configuration source was found anywhere in the discovery order.
    FileNotFound,
    /// The working directory could not be read.
    InvalidWorkingDirectory(String),
}

/// What the context resolver must ask the API client for one target.
#[derive(Debug)]
pub enum AutofillAction {
    /// Both fields are present; nothing to ask.
    Keep,
    /// Only the context is present: look up its cluster.
    LookupClusterOf { context: String },
    /// Only the cluster is present: look up its context.
    LookupContextOf { cluster: String },
    /// Neither is present: use the currently active context and cluster.
    UseCurrent,
}

/// The answer the API client gave, ready to be applied to the target.
/// A failed lookup is a `None`: resolution is best-effort and a failure
/// leaves the field unset.
#[derive(Debug)]
pub enum AutofillAnswer {
    /// Nothing to change.
    Keep,
    /// The cluster looked up for the target's context, if one was found.
    Cluster(Option<String>),
    /// The context looked up for the target's cluster, if one was found.
    Context(Option<String>),
    /// The currently active context and cluster.
    Current { context: String, cluster: Option<String> },
}

/// Decides what the resolver must ask for one target: nothing when both
/// context and cluster are present, the missing one of the two otherwise,
/// and the currently active pair when both are absent.
pub fn autofill_action(target: &PortForwardConfig) -> (r: AutofillAction)
    ensures
        match (target.context, target.cluster) {
            (Some(_), Some(_)) => r is Keep,
            (Some(c), None) => r matches AutofillAction::LookupClusterOf { context } && context@
                == c@,
            (None, Some(c)) => r matches AutofillAction::LookupContextOf { cluster } && cluster@
                == c@,
            (None, None) => r is UseCurrent,
        },
{
    match (&target.context, &target.cluster) {
        (Some(_), Some(_)) => AutofillAction::Keep,
        (Some(c), None) => AutofillAction::LookupClusterOf { context: c.clone() },
        (None, Some(c)) => AutofillAction::LookupContextOf { cluster: c.clone() },
        (None, None) => AutofillAction::UseCurrent,
    }
}

/// Applies an answer to the target: a found name fills the missing field,
/// a failed lookup leaves it unset, and the active pair fills both.
/// Nothing else of the target changes.
pub fn apply_autofill(target: &mut PortForwardConfig, answer: AutofillAnswer)
    ensures
        match answer {
            AutofillAnswer::Keep => final(target).context == old(target).context
                && final(target).cluster == old(target).cluster,
            AutofillAnswer::Cluster(c) => final(target).context == old(target).context && match c {
                Some(v) => final(target).cluster == Some(v),
                None => final(target).cluster == old(target).cluster,
            },
            AutofillAnswer::Context(c) => final(target).cluster == old(target).cluster && match c {
                Some(v) => final(target).context == Some(v),
                None => final(target).context == old(target).context,
            },
            AutofillAnswer::Current { context, cluster } => final(target).context == Some(context)
                && final(target).cluster == cluster,
        },
        final(target).source_file == old(target).source_file,
        final(target).name == old(target).name,
        final(target).tags == old(target).tags,
        final(target).listen_addrs == old(target).listen_addrs,
        final(target).namespace == old(target).namespace,
        final(target).resource_type == old(target).resource_type,
        final(target).target == old(target).target,
        final(target).ports == old(target).ports,
{
    match answer {
        AutofillAnswer::Keep => (),
        AutofillAnswer::Cluster(c) => {
            match c {
                Some(v) => {
                    target.cluster = Some(v);
                },
                None => (),
            }
        },
        AutofillAnswer::Context(c) => {
            match c {
                Some(v) => {
                    target.context = Some(v);
                },
                None => (),
            }
        },
        AutofillAnswer::Current { context, cluster } => {
            target.context = Some(context);
            target.cluster = cluster;
        },
    }
}

/// Fills the default operational settings where the merged configuration
/// supplies none; a configured retry delay is kept as it is. The targets
/// themselves are not touched here: their context and cluster backfill is
/// driven by [`autofill_action`] and [`apply_autofill`].
pub fn sanitize_config(config: &mut PortForwardConfigs)
    ensures
        final(config).config matches Some(c) && c.retry_delay_sec is Some,
        port_forward_configs::doc_delay(*old(config)) matches Some(d)
            ==> (final(config).config matches Some(c) && c.retry_delay_sec == Some(d)),
        port_forward_configs::doc_delay(*old(config)) is None ==> (final(config).config
            matches Some(c) && c.retry_delay_sec matches Some(d) && d@
            == retry_delay::DEFAULT_RETRY_DELAY_MILLIS),
        final(config).version == old(config).version,
        final(config).targets == old(config).targets,
{
    match &mut config.config {
        Some(operational) => {
            operational.sanitize();
        },
        None => {
            config.config = Some(OperationalConfig::default());
        },
    }
}

/// An explicitly named configuration file, already opened by the caller.
#[derive(Debug)]
pub struct ExplicitSource {
    /// The path under which the source is reported.
    pub path: String,
    /// The file's own canonical identity, for duplicate detection.
    pub file_identity: FileIdentity,
    /// The identity of the directory holding the file, if it has one.
    pub parent_identity: Option<FileIdentity>,
}

/// One directory of the search order, with what the caller found there.
#[derive(Debug)]
pub struct DirCandidate {
    /// The directory's canonical identity.
    pub identity: FileIdentity,
    /// The default-named file joined to the directory's path as given.
    pub file_path: String,
    /// The same file under its canonical path.
    pub canonical_file_path: String,
    /// Whether a readable default-named file lies in the directory.
    pub has_config: bool,
}

/// What the `pathdiff` crate computes: the path of `path` relative to
/// `base`, a function of the two texts alone. Path-component semantics
/// (separators, prefixes) are those of the compile target, like any other
/// platform constant.
pub uninterp spec fn relative_path(path: Seq<char>, base: Seq<char>) -> Option<Seq<char>>;

/// Relies on `pathdiff::diff_paths`: pure path arithmetic from a base
/// directory to a target path, nothing read from the machine.
#[verifier::external_body]
fn diff_path(path: &str, base: &str) -> (r: Option<String>)
    ensures
        r is Some == relative_path(path@, base@) is Some,
        r matches Some(p) ==> relative_path(path@, base@) == Some(p@),
{
    pathdiff::diff_paths(std::path::Path::new(path), std::path::Path::new(base)).map(
        |p| p.to_string_lossy().into_owned(),
    )
}

/// The reportable view of one planned source: its path, whether it was
/// auto-detected, and whether only its settings apply.
pub open spec fn metas_view(v: Seq<ConfigMeta>) -> Seq<(Seq<char>, bool, bool)> {
    v.map_values(|m: ConfigMeta| (m.path@, m.auto_detected, m.load_config_only))
}

/// An explicit source is kept when no earlier explicit source names the
/// same physical file.
pub open spec fn explicit_kept(es: Seq<ExplicitSource>, i: int) -> bool {
    forall|j: int| 0 <= j < i ==> (#[trigger] es[j]).file_identity != es[i].file_identity
}

/// The sources the explicit pass yields, in the order given.
pub open spec fn spec_explicit_metas(es: Seq<ExplicitSource>) -> Seq<(Seq<char>, bool, bool)>
    decreases es.len(),
{
    if es.len() == 0 {
        Seq::empty()
    } else if explicit_kept(es, es.len() - 1) {
        spec_explicit_metas(es.drop_last()).push((es.last().path@, false, false))
    } else {
        spec_explicit_metas(es.drop_last())
    }
}

/// The directories that the kept explicit sources mark as visited.
pub open spec fn explicit_parents(es: Seq<ExplicitSource>) -> Set<FileIdentity> {
    Set::new(
        |id: FileIdentity|
            exists|i: int|
                0 <= i < es.len() && explicit_kept(es, i) && (#[trigger] es[i]).parent_identity
                    == Some(id),
    )
}

/// Whether hierarchy directory `k` contributes a source: it holds a
/// default-named file, the explicit pass did not visit it, and no earlier
/// hierarchy step reached the same physical directory.
pub open spec fn hierarchy_selected(es: Seq<ExplicitSource>, hs: Seq<DirCandidate>, k: int) -> bool {
    &&& hs[k].has_config
    &&& !explicit_parents(es).contains(hs[k].identity)
    &&& forall|j: int| 0 <= j < k ==> (#[trigger] hs[j]).identity != hs[k].identity
}

/// The path under which a hierarchy source is reported: relative to the
/// working directory while close to it, canonical further up.
pub open spec fn spec_display_path(c: DirCandidate, depth: int, wd: Seq<char>) -> Seq<char> {
    if depth <= 4 {
        match relative_path(c.file_path@, wd) {
            Some(p) => p,
            None => c.file_path@,
        }
    } else {
        c.canonical_file_path@
    }
}

/// The sources the hierarchy walk yields, nearest directory first.
pub open spec fn spec_hierarchy_metas(
    es: Seq<ExplicitSource>,
    hs: Seq<DirCandidate>,
    wd: Seq<char>,
    lo: bool,
) -> Seq<(Seq<char>, bool, bool)>
    decreases hs.len(),
{
    if hs.len() == 0 {
        Seq::empty()
    } else if hierarchy_selected(es, hs, hs.len() - 1) {
        spec_hierarchy_metas(es, hs.drop_last(), wd, lo).push(
            (spec_display_path(hs.last(), hs.len() as int, wd), true, lo),
        )
    } else {
        spec_hierarchy_metas(es, hs.drop_last(), wd, lo)
    }
}

/// The identities of all the directories of the hierarchy walk.
pub open spec fn hierarchy_ids(hs: Seq<DirCandidate>) -> Set<FileIdentity> {
    Set::new(
        |id: FileIdentity|
            exists|k: int| 0 <= k < hs.len() && (#[trigger] hs[k]).identity == id,
    )
}

/// Whether a once-per-run directory contributes a source.
pub open spec fn extra_dir_selected(c: DirCandidate, visited: Set<FileIdentity>) -> bool {
    c.has_config && !visited.contains(c.identity)
}

/// The sources the home and platform configuration directories yield.
pub open spec fn spec_extra_metas(
    home: Option<DirCandidate>,
    config_dir: Option<DirCandidate>,
    visited: Set<FileIdentity>,
    lo: bool,
) -> Seq<(Seq<char>, bool, bool)> {
    let hmeta: Seq<(Seq<char>, bool, bool)> = match home {
        Some(c) => if extra_dir_selected(c, visited) {
            seq![(c.file_path@, true, lo)]
        } else {
            Seq::empty()
        },
        None => Seq::empty(),
    };
    let visited2 = match home {
        Some(c) => visited.insert(c.identity),
        None => visited,
    };
    let cmeta: Seq<(Seq<char>, bool, bool)> = match config_dir {
        Some(c) => if extra_dir_selected(c, visited2) {
            seq![(c.file_path@, true, lo)]
        } else {
            Seq::empty()
        },
        None => Seq::empty(),
    };
    hmeta + cmeta
}

/// The whole discovery plan: the kept explicit sources in the order
/// given, then the hierarchy walk nearest-first, then the home and
/// platform configuration directories, each physical directory at most
/// once. Auto-discovered sources supply only settings when any explicit
/// source was named.
pub open spec fn spec_plan(
    es: Seq<ExplicitSource>,
    hs: Seq<DirCandidate>,
    home: Option<DirCandidate>,
    config_dir: Option<DirCandidate>,
    wd: Seq<char>,
) -> Seq<(Seq<char>, bool, bool)> {
    let lo = es.len() > 0;
    spec_explicit_metas(es) + spec_hierarchy_metas(es, hs, wd, lo) + spec_extra_metas(
        home,
        config_dir,
        explicit_parents(es).union(hierarchy_ids(hs)),
        lo,
    )
}

/// Two distinct selected hierarchy steps never report the same physical
/// directory: a directory reached both directly and through a symbolic
/// link is visited exactly once.
pub proof fn lemma_hierarchy_selected_distinct(
    es: Seq<ExplicitSource>,
    hs: Seq<DirCandidate>,
    k1: int,
    k2: int,
)
    requires
        0 <= k1 < k2 < hs.len(),
        hierarchy_selected(es, hs, k1),
        hierarchy_selected(es, hs, k2),
    ensures
        hs[k1].identity != hs[k2].identity,
{
}

/// Across one discovery plan, every physical directory yields at most one
/// auto-discovered source, however it is reached: selected hierarchy
/// steps are pairwise distinct, and the home and platform configuration
/// directories contribute only when their identity differs from every
/// directory already visited — the kept explicit files' directories, the
/// whole hierarchy, and each other.
pub proof fn lemma_plan_visits_each_directory_once(
    es: Seq<ExplicitSource>,
    hs: Seq<DirCandidate>,
    home: Option<DirCandidate>,
    config_dir: Option<DirCandidate>,
)
    ensures
        forall|k1: int, k2: int|
            #![trigger hs[k1].identity, hs[k2].identity]
            0 <= k1 < k2 < hs.len() && hierarchy_selected(es, hs, k1) && hierarchy_selected(
                es,
                hs,
                k2,
            ) ==> hs[k1].identity != hs[k2].identity,
        match home {
            Some(h) => extra_dir_selected(h, explicit_parents(es).union(hierarchy_ids(hs)))
                ==> !hierarchy_ids(hs).contains(h.identity) && !explicit_parents(es).contains(
                h.identity,
            ),
            None => true,
        },
        match (home, config_dir) {
            (Some(h), Some(c)) => extra_dir_selected(
                c,
                explicit_parents(es).union(hierarchy_ids(hs)).insert(h.identity),
            ) ==> c.identity != h.identity && !hierarchy_ids(hs).contains(c.identity)
                && !explicit_parents(es).contains(c.identity),
            _ => true,
        },
{
}

fn id_in(v: &Vec<FileIdentity>, id: FileIdentity) -> (r: bool)
    ensures
        r == v@.contains(id),
{
    let n = v.len();
    let mut i: usize = 0;
    while i < n
        invariant
            0 <= i <= n,
            n == v@.len(),
            forall|j: int| 0 <= j < i ==> v@[j] != id,
        decreases n - i,
    {
        if v[i] == id {
            return true;
        }
        i += 1;
    }
    proof {
        assert(!v@.contains(id));
    }
    false
}

proof fn lemma_kept_prefix(es: Seq<ExplicitSource>, n: int, x: int)
    requires
        0 <= x < n <= es.len(),
    ensures
        explicit_kept(es.take(n), x) == explicit_kept(es, x),
{
    let t = es.take(n);
    if explicit_kept(t, x) {
        assert forall|j: int| 0 <= j < x implies (#[trigger] es[j]).file_identity != es[
            x
        ].file_identity by {
            assert(t[j].file_identity != t[x].file_identity);
        }
    }
    if explicit_kept(es, x) {
        assert forall|j: int| 0 <= j < x implies (#[trigger] t[j]).file_identity != t[
            x
        ].file_identity by {
            assert(es[j].file_identity != es[x].file_identity);
        }
    }
}

proof fn lemma_selected_prefix(es: Seq<ExplicitSource>, hs: Seq<DirCandidate>, n: int, x: int)
    requires
        0 <= x < n <= hs.len(),
    ensures
        hierarchy_selected(es, hs.take(n), x) == hierarchy_selected(es, hs, x),
{
    let t = hs.take(n);
    assert(t[x] == hs[x]);
    if forall|j: int| 0 <= j < x ==> (#[trigger] t[j]).identity != t[x].identity {
        assert forall|j: int| 0 <= j < x implies (#[trigger] hs[j]).identity != hs[
            x
        ].identity by {
            assert(t[j].identity != t[x].identity);
        }
    }
    if forall|j: int| 0 <= j < x ==> (#[trigger] hs[j]).identity != hs[x].identity {
        assert forall|j: int| 0 <= j < x implies (#[trigger] t[j]).identity != t[x].identity by {
            assert(hs[j].identity != hs[x].identity);
        }
    }
}

proof fn lemma_explicit_step(es: Seq<ExplicitSource>, i: int)
    requires
        0 <= i < es.len(),
    ensures
        explicit_kept(es.take(i + 1), i) == explicit_kept(es, i),
        spec_explicit_metas(es.take(i + 1)) == (if explicit_kept(es, i) {
            spec_explicit_metas(es.take(i)).push((es[i].path@, false, false))
        } else {
            spec_explicit_metas(es.take(i))
        }),
{
    let t = es.take(i + 1);
    assert(t.drop_last() =~= es.take(i));
    assert(t.last() == es[i]);
    lemma_kept_prefix(es, i + 1, i);
}

proof fn lemma_explicit_parents_step(es: Seq<ExplicitSource>, i: int)
    requires
        0 <= i < es.len(),
    ensures
        explicit_parents(es.take(i + 1)) =~= (match es[i].parent_identity {
            Some(p) => if explicit_kept(es, i) {
                explicit_parents(es.take(i)).insert(p)
            } else {
                explicit_parents(es.take(i))
            },
            None => explicit_parents(es.take(i)),
        }),
{
    let t = es.take(i + 1);
    let prev = es.take(i);
    assert forall|x: int| 0 <= x < t.len() implies #[trigger] t[x] == es[x] by {}
    assert forall|x: int| 0 <= x < prev.len() implies #[trigger] prev[x] == es[x] by {}
    assert forall|x: int| 0 <= x <= i implies explicit_kept(t, x) == explicit_kept(es, x) by {
        lemma_kept_prefix(es, i + 1, x);
    }
    assert forall|x: int| 0 <= x < i implies explicit_kept(prev, x) == explicit_kept(es, x) by {
        lemma_kept_prefix(es, i, x);
    }
    assert forall|id: FileIdentity| explicit_parents(t).contains(id) implies (match es[
        i
    ].parent_identity {
        Some(p) => if explicit_kept(es, i) {
            explicit_parents(prev).insert(p)
        } else {
            explicit_parents(prev)
        },
        None => explicit_parents(prev),
    }).contains(id) by {
        let w = choose|w: int|
            0 <= w < t.len() && explicit_kept(t, w) && (#[trigger] t[w]).parent_identity == Some(
                id,
            );
        if w < i {
            assert(explicit_kept(prev, w) && prev[w].parent_identity == Some(id));
            assert(explicit_parents(prev).contains(id));
        }
    }
    assert forall|id: FileIdentity| (match es[i].parent_identity {
        Some(p) => if explicit_kept(es, i) {
            explicit_parents(prev).insert(p)
        } else {
            explicit_parents(prev)
        },
        None => explicit_parents(prev),
    }).contains(id) implies explicit_parents(t).contains(id) by {
        if explicit_parents(prev).contains(id) {
            let w = choose|w: int|
                0 <= w < prev.len() && explicit_kept(prev, w) && (
                #[trigger] prev[w]).parent_identity == Some(id);
            assert(explicit_kept(t, w) && t[w].parent_identity == Some(id));
        } else {
            assert(explicit_kept(t, i) && t[i].parent_identity == Some(id));
        }
    }
}

proof fn lemma_hierarchy_step(es: Seq<ExplicitSource>, hs: Seq<DirCandidate>, wd: Seq<char>, lo: bool, k: int)
    requires
        0 <= k < hs.len(),
    ensures
        hierarchy_selected(es, hs.take(k + 1), k) == hierarchy_selected(es, hs, k),
        spec_hierarchy_metas(es, hs.take(k + 1), wd, lo) == (if hierarchy_selected(es, hs, k) {
            spec_hierarchy_metas(es, hs.take(k), wd, lo).push(
                (spec_display_path(hs[k], k + 1, wd), true, lo),
            )
        } else {
            spec_hierarchy_metas(es, hs.take(k), wd, lo)
        }),
{
    let t = hs.take(k + 1);
    assert(t.drop_last() =~= hs.take(k));
    assert(t.last() == hs[k]);
    lemma_selected_prefix(es, hs, k + 1, k);
}

proof fn lemma_hierarchy_ids_step(hs: Seq<DirCandidate>, k: int)
    requires
        0 <= k < hs.len(),
    ensures
        hierarchy_ids(hs.take(k + 1)) =~= hierarchy_ids(hs.take(k)).insert(hs[k].identity),
{
    let t = hs.take(k + 1);
    let prev = hs.take(k);
    assert forall|id: FileIdentity| hierarchy_ids(t).contains(id) implies hierarchy_ids(
        prev,
    ).insert(hs[k].identity).contains(id) by {
        let w = choose|w: int| 0 <= w < t.len() && (#[trigger] t[w]).identity == id;
        if w < k {
            assert(prev[w].identity == id);
        }
    }
    assert forall|id: FileIdentity| hierarchy_ids(prev).insert(hs[k].identity).contains(
        id,
    ) implies hierarchy_ids(t).contains(id) by {
        if hierarchy_ids(prev).contains(id) {
            let w = choose|w: int| 0 <= w < prev.len() && (#[trigger] prev[w]).identity == id;
            assert(t[w].identity == id);
        } else {
            assert(t[k].identity == id);
        }
    }
}

proof fn lemma_hierarchy_selected_check(es: Seq<ExplicitSource>, hs: Seq<DirCandidate>, k: int)
    requires
        0 <= k < hs.len(),
    ensures
        hierarchy_selected(es, hs, k) == (hs[k].has_config && !explicit_parents(es).union(
            hierarchy_ids(hs.take(k)),
        ).contains(hs[k].identity)),
{
    let prev = hs.take(k);
    if hierarchy_ids(prev).contains(hs[k].identity) {
        let w = choose|w: int|
            0 <= w < prev.len() && (#[trigger] prev[w]).identity == hs[k].identity;
        assert(hs[w].identity == hs[k].identity);
    }
    if exists|j: int| 0 <= j < k && (#[trigger] hs[j]).identity == hs[k].identity {
        let j = choose|j: int| 0 <= j < k && (#[trigger] hs[j]).identity == hs[k].identity;
        assert(prev[j].identity == hs[k].identity);
        assert(hierarchy_ids(prev).contains(hs[k].identity));
    }
}

/// Orders the configuration sources of one run: the explicit files first
/// (duplicates by file identity skipped), then the directory hierarchy
/// nearest-first, then the home directory and the platform configuration
/// directory, visiting each physical directory at most once. When any
/// explicit file was named, auto-discovered sources only supply settings.
/// Fails when no source at all was found.
pub fn plan_config_sources(
    explicit: &Vec<ExplicitSource>,
    hierarchy: &Vec<DirCandidate>,
    home: &Option<DirCandidate>,
    config_dir: &Option<DirCandidate>,
    working_dir: &str,
) -> (r: Result<Vec<ConfigMeta>, FindConfigFileError>)
    ensures
        match r {
            Ok(v) => metas_view(v@) == spec_plan(
                explicit@,
                hierarchy@,
                *home,
                *config_dir,
                working_dir@,
            ) && v@.len() > 0,
            Err(e) => e is FileNotFound && spec_plan(
                explicit@,
                hierarchy@,
                *home,
                *config_dir,
                working_dir@,
            ).len() == 0,
        },
{
    let ghost es = explicit@;
    let ghost hs = hierarchy@;
    let ghost wd = working_dir@;
    let load_only = explicit.len() > 0;
    let ghost lo = es.len() > 0;
    let mut metas: Vec<ConfigMeta> = Vec::new();
    let mut seen: Vec<FileIdentity> = Vec::new();
    let mut tracker = VisitTracker::default();

    let en = explicit.len();
    let mut i: usize = 0;
    proof {
        assert(es.take(0) =~= Seq::<ExplicitSource>::empty());
        assert(metas_view(metas@) =~= spec_explicit_metas(es.take(0)));
        assert(seen@ =~= es.take(0).map_values(|e: ExplicitSource| e.file_identity));
        assert(tracker@ =~= explicit_parents(es.take(0))) by {
            assert forall|id: FileIdentity| !explicit_parents(es.take(0)).contains(id) by {
                if explicit_parents(es.take(0)).contains(id) {
                    let w = choose|w: int|
                        0 <= w < es.take(0).len() && explicit_kept(es.take(0), w) && (
                        #[trigger] es.take(0)[w]).parent_identity == Some(id);
                }
            }
        }
    }
    while i < en
        invariant
            0 <= i <= en,
            en == es.len(),
            es == explicit@,
            lo == (es.len() > 0),
            load_only == lo,
            metas_view(metas@) == spec_explicit_metas(es.take(i as int)),
            seen@ == es.take(i as int).map_values(|e: ExplicitSource| e.file_identity),
            tracker@ == explicit_parents(es.take(i as int)),
        decreases en - i,
    {
        let ghost prev_metas = metas@;
        proof {
            lemma_explicit_step(es, i as int);
            lemma_explicit_parents_step(es, i as int);
            assert(seen@.len() == i as int);
            assert forall|j: int| 0 <= j < i as int implies #[trigger] seen@[j] == es[
                j
            ].file_identity by {
                assert(es.take(i as int).map_values(|e: ExplicitSource| e.file_identity)[j]
                    == es.take(i as int)[j].file_identity);
            }
        }
        let kept = !id_in(&seen, explicit[i].file_identity);
        proof {
            assert(kept == explicit_kept(es, i as int)) by {
                if seen@.contains(es[i as int].file_identity) {
                    let w = choose|w: int|
                        0 <= w < seen@.len() && seen@[w] == es[i as int].file_identity;
                    assert(es[w].file_identity == es[i as int].file_identity);
                } else if !explicit_kept(es, i as int) {
                    let w = choose|w: int|
                        0 <= w < i as int && (#[trigger] es[w]).file_identity == es[
                            i as int
                        ].file_identity;
                    assert(seen@[w] == es[i as int].file_identity);
                }
            }
        }
        seen.push(explicit[i].file_identity);
        if kept {
            match &explicit[i].parent_identity {
                Some(p) => {
                    tracker.track_directory(*p);
                },
                None => (),
            }
            metas.push(
                ConfigMeta {
                    path: explicit[i].path.clone(),
                    auto_detected: false,
                    load_config_only: false,
                },
            );
            proof {
                assert(metas_view(metas@) =~= metas_view(prev_metas).push(
                    (es[i as int].path@, false, false),
                ));
            }
        }
        proof {
            assert(es.take(i as int + 1).map_values(|e: ExplicitSource| e.file_identity)
                =~= es.take(i as int).map_values(|e: ExplicitSource| e.file_identity).push(
                es[i as int].file_identity,
            ));
            assert(seen@ =~= es.take(i as int + 1).map_values(
                |e: ExplicitSource| e.file_identity,
            ));
        }
        i += 1;
    }
    proof {
        assert(es.take(en as int) =~= es);
    }

    let hn = hierarchy.len();
    let mut k: usize = 0;
    proof {
        assert(hs.take(0) =~= Seq::<DirCandidate>::empty());
        assert(spec_hierarchy_metas(es, hs.take(0), wd, lo) =~= Seq::<
            (Seq<char>, bool, bool),
        >::empty());
        assert(metas_view(metas@) =~= spec_explicit_metas(es) + spec_hierarchy_metas(
            es,
            hs.take(0),
            wd,
            lo,
        ));
        assert(hierarchy_ids(hs.take(0)) =~= Set::<FileIdentity>::empty()) by {
            assert forall|id: FileIdentity| !hierarchy_ids(hs.take(0)).contains(id) by {
                if hierarchy_ids(hs.take(0)).contains(id) {
                    let w = choose|w: int|
                        0 <= w < hs.take(0).len() && (#[trigger] hs.take(0)[w]).identity == id;
                }
            }
        }
        assert(tracker@ =~= explicit_parents(es).union(hierarchy_ids(hs.take(0))));
    }
    while k < hn
        invariant
            0 <= k <= hn,
            hn == hs.len(),
            hs == hierarchy@,
            es == explicit@,
            wd == working_dir@,
            lo == (es.len() > 0),
            load_only == lo,
            metas_view(metas@) == spec_explicit_metas(es) + spec_hierarchy_metas(
                es,
                hs.take(k as int),
                wd,
                lo,
            ),
            tracker@ == explicit_parents(es).union(hierarchy_ids(hs.take(k as int))),
        decreases hn - k,
    {
        let ghost prev_metas = metas@;
        proof {
            lemma_hierarchy_step(es, hs, wd, lo, k as int);
            lemma_hierarchy_ids_step(hs, k as int);
            lemma_hierarchy_selected_check(es, hs, k as int);
        }
        let visited = tracker.track_directory(hierarchy[k].identity);
        proof {
            assert(tracker@ =~= explicit_parents(es).union(hierarchy_ids(hs.take(k as int + 1))));
        }
        if !visited && hierarchy[k].has_config {
            let display: String = if k < 4 {
                match diff_path(hierarchy[k].file_path.as_str(), working_dir) {
                    Some(p) => p,
                    None => hierarchy[k].file_path.clone(),
                }
            } else {
                hierarchy[k].canonical_file_path.clone()
            };
            proof {
                assert(display@ == spec_display_path(hs[k as int], k as int + 1, wd));
            }
            metas.push(
                ConfigMeta { path: display, auto_detected: true, load_config_only: load_only },
            );
            proof {
                assert(metas_view(metas@) =~= metas_view(prev_metas).push(
                    (spec_display_path(hs[k as int], k as int + 1, wd), true, lo),
                ));
                assert(metas_view(metas@) =~= spec_explicit_metas(es) + spec_hierarchy_metas(
                    es,
                    hs.take(k as int + 1),
                    wd,
                    lo,
                ));
            }
        } else {
            proof {
                assert(!hierarchy_selected(es, hs, k as int));
                assert(metas_view(metas@) =~= spec_explicit_metas(es) + spec_hierarchy_metas(
                    es,
                    hs.take(k as int + 1),
                    wd,
                    lo,
                ));
            }
        }
        k += 1;
    }
    proof {
        assert(hs.take(hn as int) =~= hs);
    }

    let ghost visited_auto = explicit_parents(es).union(hierarchy_ids(hs));
    let ghost before_extra = metas_view(metas@);
    match home {
        Some(c) => {
            let visited = tracker.track_directory(c.identity);
            if !visited && c.has_config {
                metas.push(
                    ConfigMeta {
                        path: c.file_path.clone(),
                        auto_detected: true,
                        load_config_only: load_only,
                    },
                );
                proof {
                    assert(metas_view(metas@) =~= before_extra.push((c.file_path@, true, lo)));
                }
            }
            proof {
                assert(tracker@ =~= visited_auto.insert(c.identity));
            }
        },
        None => (),
    }
    let ghost after_home = metas_view(metas@);
    match config_dir {
        Some(c) => {
            let visited = tracker.track_directory(c.identity);
            if !visited && c.has_config {
                metas.push(
                    ConfigMeta {
                        path: c.file_path.clone(),
                        auto_detected: true,
                        load_config_only: load_only,
                    },
                );
                proof {
                    assert(metas_view(metas@) =~= after_home.push((c.file_path@, true, lo)));
                }
            }
        },
        None => (),
    }
    proof {
        assert(metas_view(metas@) =~= spec_plan(es, hs, *home, *config_dir, wd));
    }

    if metas.len() == 0 {
        Err(FindConfigFileError::FileNotFound)
    } else {
        Ok(metas)
    }
}

/// The reported line for each discovery failure.
pub open spec fn spec_find_error_message(e: FindConfigFileError) -> Seq<char> {
    match e {
        FindConfigFileError::FileNotFound =>
            "No config file could be found in the path hierarchy"@,
        FindConfigFileError::InvalidWorkingDirectory(m) => m@,
    }
}

impl FindConfigFileError {
    /// One concise line saying why discovery failed.
    pub fn message(&self) -> (r: String)
        ensures
            r@ == spec_find_error_message(*self),
    {
        match self {
            FindConfigFileError::FileNotFound => {
                String::from_str("No config file could be found in the path hierarchy")
            },
            FindConfigFileError::InvalidWorkingDirectory(m) => m.clone(),
        }
    }
}

} // verus!
