use vstd::prelude::*;
use crate::config::config_id::ConfigId;
use crate::config::port_forward_config::{opt_view, PortForwardConfig};
use crate::config::tag_selection::{spec_selections_match, TagSelection, TagSelectionUtils};
use crate::strutil::{self, is_prefix, lower_chars};

verus! {

/// A filter for selecting a target by name prefix.
#[derive(Debug)]
pub struct TargetFilter {
    filter: String,
}

impl View for TargetFilter {
    type V = Seq<char>;

    closed spec fn view(&self) -> Seq<char> {
        self.filter@
    }
}

impl Clone for TargetFilter {
    fn clone(&self) -> (r: Self)
        ensures
            r@ == self@,
    {
        TargetFilter { filter: self.filter.clone() }
    }
}

impl TargetFilter {
    /// Whether the filter is the empty filter, which matches everything.
    pub fn is_empty(&self) -> (r: bool)
        ensures
            r == (self@.len() == 0),
    {
        self.filter.as_str().unicode_len() == 0
    }

    /// A filter from its text; any text is a filter.
    pub fn from_str(s: &str) -> (r: TargetFilter)
        ensures
            r@ == s@,
    {
        TargetFilter { filter: s.to_owned() }
    }
}

/// A target matches a filter when its target name or its display name
/// starts with the filter text, ASCII-case-insensitively; the empty
/// filter matches every target.
pub open spec fn spec_filter_matches(f: Seq<char>, c: PortForwardConfig) -> bool {
    if f.len() == 0 {
        true
    } else {
        is_prefix(lower_chars(f), lower_chars(c.target@)) || (match opt_view(c.name) {
            Some(n) => is_prefix(lower_chars(f), lower_chars(n)),
            None => false,
        })
    }
}

/// The name dimension of selection: no filters at all selects every
/// target, else any one filter must match.
pub open spec fn spec_filters_match(fs: Seq<TargetFilter>, c: PortForwardConfig) -> bool {
    fs.len() == 0 || exists|i: int| 0 <= i < fs.len() && spec_filter_matches((#[trigger] fs[i])@, c)
}

/// Matching a target against one filter or a list of them.
pub trait MatchesAnyFilter {
    /// Whether the target passes this filter.
    fn matches(&self, config: &PortForwardConfig) -> bool;
}

impl MatchesAnyFilter for TargetFilter {
    /// Whether the target's name or display name starts with the filter.
    fn matches(&self, config: &PortForwardConfig) -> (r: bool)
        ensures
            r == spec_filter_matches(self@, *config),
    {
        if self.is_empty() {
            return true;
        }
        let filter = strutil::ascii_lowercase(self.filter.as_str());
        let target = strutil::ascii_lowercase(config.target.as_str());
        if strutil::starts_with_str(target.as_str(), filter.as_str()) {
            return true;
        }
        match &config.name {
            Some(name) => {
                let name_l = strutil::ascii_lowercase(name.as_str());
                strutil::starts_with_str(name_l.as_str(), filter.as_str())
            },
            None => false,
        }
    }
}

impl MatchesAnyFilter for Vec<TargetFilter> {
    /// Whether the target passes the filter list: everything passes an
    /// empty list, else some filter must match.
    fn matches(&self, config: &PortForwardConfig) -> (r: bool)
        ensures
            r == spec_filters_match(self@, *config),
    {
        let n = self.len();
        if n == 0 {
            return true;
        }
        let mut i: usize = 0;
        while i < n
            invariant
                0 <= i <= n,
                n == self@.len(),
                forall|j: int| 0 <= j < i ==> !spec_filter_matches((#[trigger] self@[j])@, *config),
            decreases n - i,
        {
            if self[i].matches(config) {
                return true;
            }
            i += 1;
        }
        false
    }
}

/// Whether a target is selected: the tag dimension and the name
/// dimension must both select it.
pub open spec fn spec_selected(
    c: PortForwardConfig,
    sels: Seq<TagSelection>,
    fs: Seq<TargetFilter>,
) -> bool {
    spec_selections_match(sels, c.tags@) && spec_filters_match(fs, c)
}


/// With no tag expressions at all, the tag dimension selects every
/// target: selection then rests on the name filters alone.
pub proof fn lemma_no_expressions_select_all(
    c: PortForwardConfig,
    sels: Seq<TagSelection>,
    fs: Seq<TargetFilter>,
)
    requires
        sels.len() == 0,
    ensures
        spec_selected(c, sels, fs) == spec_filters_match(fs, c),
{
}

/// The selected targets, in their given order.
pub open spec fn spec_selected_targets(
    ts: Seq<PortForwardConfig>,
    sels: Seq<TagSelection>,
    fs: Seq<TargetFilter>,
) -> Seq<PortForwardConfig>
    decreases ts.len(),
{
    if ts.len() == 0 {
        Seq::empty()
    } else if spec_selected(ts.first(), sels, fs) {
        seq![ts.first()] + spec_selected_targets(ts.drop_first(), sels, fs)
    } else {
        spec_selected_targets(ts.drop_first(), sels, fs)
    }
}

/// Filters the resolved targets by tag expressions and name filters and
/// hands each selected target an identifier, assigned sequentially in
/// selection order.
pub fn select_targets(
    targets: Vec<PortForwardConfig>,
    tags: &Vec<TagSelection>,
    filters: &Vec<TargetFilter>,
) -> (r: Vec<(ConfigId, PortForwardConfig)>)
    ensures
        r@.map_values(|p: (ConfigId, PortForwardConfig)| p.1) == spec_selected_targets(
            targets@,
            tags@,
            filters@,
        ),
        forall|i: int| 0 <= i < r@.len() ==> (#[trigger] r@[i].0)@ == i,
{
    let ghost orig = targets@;
    let mut rest = targets;
    let mut r: Vec<(ConfigId, PortForwardConfig)> = Vec::new();
    proof {
        assert(r@.map_values(|p: (ConfigId, PortForwardConfig)| p.1) =~= Seq::<
            PortForwardConfig,
        >::empty());
    }
    while rest.len() > 0
        invariant
            spec_selected_targets(orig, tags@, filters@) == r@.map_values(
                |p: (ConfigId, PortForwardConfig)| p.1,
            ) + spec_selected_targets(rest@, tags@, filters@),
            forall|i: int| 0 <= i < r@.len() ==> (#[trigger] r@[i].0)@ == i,
        decreases rest@.len(),
    {
        let ghost pre = rest@;
        let ghost taken = r@.map_values(|p: (ConfigId, PortForwardConfig)| p.1);
        let c = rest.remove(0);
        proof {
            assert(rest@ =~= pre.drop_first());
            assert(pre.first() == c);
        }
        let selected = tags.matches_tags(&c.tags) && filters.matches(&c);
        if selected {
            let id = ConfigId::new(r.len());
            let ghost prev = r@;
            r.push((id, c));
            proof {
                assert(r@.map_values(|p: (ConfigId, PortForwardConfig)| p.1) =~= taken.push(
                    pre.first(),
                ));
                assert(taken.push(pre.first()) =~= taken + seq![pre.first()]);
                assert(taken + (seq![pre.first()] + spec_selected_targets(
                    pre.drop_first(),
                    tags@,
                    filters@,
                )) =~= (taken + seq![pre.first()]) + spec_selected_targets(
                    pre.drop_first(),
                    tags@,
                    filters@,
                ));
            }
        }
    }
    proof {
        assert(spec_selected_targets(rest@, tags@, filters@) =~= Seq::<PortForwardConfig>::empty());
        assert(r@.map_values(|p: (ConfigId, PortForwardConfig)| p.1) + Seq::<
            PortForwardConfig,
        >::empty() =~= r@.map_values(|p: (ConfigId, PortForwardConfig)| p.1));
    }
    r
}

} // verus!
