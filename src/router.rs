//! The link graph: which channels each channel's messages are mirrored to.
use vstd::prelude::*;
use crate::channel::{ChannelIdentifier, ChannelView, parse_channel};
use crate::config::{Bridge, FilterMode, bridge_bidirectional, bridge_insert_zws, bridge_patterns};
use crate::filter::{ExcludeFilter, patterns_of, pattern_compiles, duplicate_all};

verus! {

/// One directed destination of a link, with its own formatting and filters.
pub struct MirroredChannel {
    pub channel: ChannelIdentifier,
    pub insert_zws: bool,
    pub exclude_filters: Vec<ExcludeFilter>,
    pub filter_mode: FilterMode,
}

/// What a destination denotes.
pub struct EdgeView {
    pub channel: ChannelView,
    pub insert_zws: bool,
    pub filters: Seq<Seq<char>>,
    pub filter_mode: FilterMode,
}

impl View for MirroredChannel {
    type V = EdgeView;

    open spec fn view(&self) -> EdgeView {
        EdgeView {
            channel: self.channel@,
            insert_zws: self.insert_zws,
            filters: patterns_of(self.exclude_filters@),
            filter_mode: self.filter_mode,
        }
    }
}

/// A directed link: messages of `source` go to `target`.
pub struct Link {
    pub source: ChannelIdentifier,
    pub target: MirroredChannel,
}

impl View for Link {
    type V = (ChannelView, EdgeView);

    open spec fn view(&self) -> (ChannelView, EdgeView) {
        (self.source@, self.target@)
    }
}

/// The link graph, as its links in configuration order.
pub struct MessageRouter {
    pub channel_links: Vec<Link>,
}

impl View for MessageRouter {
    type V = Seq<(ChannelView, EdgeView)>;

    open spec fn view(&self) -> Seq<(ChannelView, EdgeView)> {
        self.channel_links@.map_values(|l: Link| l@)
    }
}

/// Why the link graph could not be built.
pub enum ConfigError {
    /// A bridge's exclude filter is not a valid regular expression.
    InvalidFilter { bridge_index: usize, pattern: String },
}

/// The links that one bridge adds: the forward one, then the reverse one where
/// the bridge is bidirectional, with the same settings.
pub open spec fn bridge_links(b: Bridge) -> Seq<(ChannelView, EdgeView)> {
    let source = parse_channel(b.channels@[0]@);
    let target = parse_channel(b.channels@[1]@);
    let forward = EdgeView {
        channel: target,
        insert_zws: bridge_insert_zws(b),
        filters: bridge_patterns(b),
        filter_mode: b.filter_mode,
    };
    let reverse = EdgeView { channel: source, ..forward };
    if bridge_bidirectional(b) {
        seq![(source, forward), (target, reverse)]
    } else {
        seq![(source, forward)]
    }
}

/// The links of a list of bridges, in configuration order.
pub open spec fn graph_of(bs: Seq<Bridge>) -> Seq<(ChannelView, EdgeView)>
    decreases bs.len(),
{
    if bs.len() == 0 {
        seq![]
    } else {
        graph_of(bs.drop_last()) + bridge_links(bs.last())
    }
}

/// The destinations of `source`, in configuration order.
pub open spec fn targets_of(g: Seq<(ChannelView, EdgeView)>, source: ChannelView) -> Seq<EdgeView>
    decreases g.len(),
{
    if g.len() == 0 {
        seq![]
    } else if g.last().0 == source {
        targets_of(g.drop_last(), source).push(g.last().1)
    } else {
        targets_of(g.drop_last(), source)
    }
}

/// The first pattern at or after `j` that does not compile.
pub open spec fn first_bad_pattern(ps: Seq<Seq<char>>, j: int) -> Option<int>
    decreases ps.len() - j,
{
    if j < 0 || j >= ps.len() {
        None
    } else if !pattern_compiles(ps[j]) {
        Some(j)
    } else {
        first_bad_pattern(ps, j + 1)
    }
}

/// The first bridge at or after `i` with a pattern that does not compile.
pub open spec fn first_bad_bridge(bs: Seq<Bridge>, i: int) -> Option<int>
    decreases bs.len() - i,
{
    if i < 0 || i >= bs.len() {
        None
    } else if first_bad_pattern(bridge_patterns(bs[i]), 0) is Some {
        Some(i)
    } else {
        first_bad_bridge(bs, i + 1)
    }
}

proof fn lemma_first_bad_pattern(ps: Seq<Seq<char>>, j: int)
    requires
        0 <= j,
    ensures
        match first_bad_pattern(ps, j) {
            Some(k) => j <= k < ps.len() && !pattern_compiles(ps[k]),
            None => true,
        },
    decreases ps.len() - j,
{
    if j < ps.len() && pattern_compiles(ps[j]) {
        lemma_first_bad_pattern(ps, j + 1);
    }
}

/// Compiles the exclude filters of one bridge, or names the first that fails.
fn compile_filters(b: &Bridge) -> (r: Result<Vec<ExcludeFilter>, String>)
    ensures
        match r {
            Ok(fs) => first_bad_pattern(bridge_patterns(*b), 0) is None && patterns_of(fs@) == bridge_patterns(*b),
            Err(p) => first_bad_pattern(bridge_patterns(*b), 0) is Some
                && p@ == bridge_patterns(*b)[first_bad_pattern(bridge_patterns(*b), 0)->0],
        },
{
    let ghost ps = bridge_patterns(*b);
    let mut out: Vec<ExcludeFilter> = Vec::new();
    let mut j: usize = 0;
    while j < b.exclude_filters.len()
        invariant
            ps == bridge_patterns(*b),
            ps.len() == b.exclude_filters@.len(),
            j <= ps.len(),
            first_bad_pattern(ps, 0) == first_bad_pattern(ps, j as int),
            patterns_of(out@) =~= ps.subrange(0, j as int),
        decreases ps.len() - j,
    {
        let pattern = &b.exclude_filters[j];
        match ExcludeFilter::compile(pattern.as_str()) {
            Some(f) => {
                let ghost before = out@;
                out.push(f);
                proof {
                    assert(ps[j as int] == b.exclude_filters@[j as int]@);
                    assert(out@ == before.push(f));
                    assert(patterns_of(out@) =~= patterns_of(before).push(f@));
                    assert(ps.subrange(0, j + 1) =~= ps.subrange(0, j as int).push(ps[j as int]));
                }
                j = j + 1;
            },
            None => {
                return Err(pattern.clone());
            },
        }
    }
    assert(ps.subrange(0, ps.len() as int) =~= ps);
    Ok(out)
}

/// Each bridge appends its own links to the graph: a bidirectional bridge (the
/// default) adds a forward and a reverse link with the same marking, filters
/// and filter mode; a one-way bridge adds the forward link only.
pub proof fn lemma_bridge_adds_links(bs: Seq<Bridge>, b: Bridge)
    ensures
        graph_of(bs.push(b)) == graph_of(bs) + bridge_links(b),
        ({
            let source = parse_channel(b.channels@[0]@);
            let target = parse_channel(b.channels@[1]@);
            let added = bridge_links(b);
            &&& added[0].0 == source
            &&& added[0].1.channel == target
            &&& bridge_bidirectional(b) ==> {
                &&& added.len() == 2
                &&& added[1].0 == target
                &&& added[1].1.channel == source
                &&& added[1].1.insert_zws == added[0].1.insert_zws
                &&& added[1].1.filters == added[0].1.filters
                &&& added[1].1.filter_mode == added[0].1.filter_mode
            }
            &&& !bridge_bidirectional(b) ==> added.len() == 1
        }),
{
    assert(bs.push(b).drop_last() =~= bs);
}

/// The destinations of a source in a graph made of two parts: those of the
/// first part, then those of the second.
pub proof fn lemma_targets_concat(a: Seq<(ChannelView, EdgeView)>, b: Seq<(ChannelView, EdgeView)>, source: ChannelView)
    ensures
        targets_of(a + b, source) == targets_of(a, source) + targets_of(b, source),
    decreases b.len(),
{
    if b.len() == 0 {
        assert(a + b =~= a);
        assert(targets_of(a, source) + targets_of(b, source) =~= targets_of(a, source));
    } else {
        assert((a + b).drop_last() =~= a + b.drop_last());
        lemma_targets_concat(a, b.drop_last(), source);
    }
}

/// Two bridges from the same source, whose targets are other channels: a
/// message of that source goes to the first bridge's target, then the second's.
pub proof fn lemma_shared_source(b1: Bridge, b2: Bridge)
    requires
        parse_channel(b1.channels@[0]@) == parse_channel(b2.channels@[0]@),
        parse_channel(b1.channels@[1]@) != parse_channel(b1.channels@[0]@),
        parse_channel(b2.channels@[1]@) != parse_channel(b1.channels@[0]@),
    ensures
        targets_of(graph_of(seq![b1, b2]), parse_channel(b1.channels@[0]@))
            == seq![bridge_links(b1)[0].1, bridge_links(b2)[0].1],
{
    let source = parse_channel(b1.channels@[0]@);
    lemma_bridge_adds_links(seq![], b1);
    lemma_bridge_adds_links(seq![b1], b2);
    assert(seq![b1, b2] =~= seq![b1].push(b2));
    assert(Seq::<Bridge>::empty().push(b1) =~= seq![b1]);
    assert(graph_of(Seq::<Bridge>::empty()) =~= Seq::<(ChannelView, EdgeView)>::empty());
    assert(graph_of(seq![b1]) =~= bridge_links(b1));
    lemma_targets_concat(bridge_links(b1), bridge_links(b2), source);
    lemma_bridge_targets(b1, source);
    lemma_bridge_targets(b2, source);
}

/// The destinations that one bridge gives its own source, where its target is
/// another channel: its forward link alone.
proof fn lemma_bridge_targets(b: Bridge, source: ChannelView)
    requires
        parse_channel(b.channels@[0]@) == source,
        parse_channel(b.channels@[1]@) != source,
    ensures
        targets_of(bridge_links(b), source) == seq![bridge_links(b)[0].1],
{
    let l = bridge_links(b);
    let first = seq![l[0]];
    let empty = Seq::<(ChannelView, EdgeView)>::empty();
    assert(first.drop_last() =~= empty);
    assert(targets_of(empty, source) == Seq::<EdgeView>::empty());
    assert(targets_of(first, source) == targets_of(empty, source).push(l[0].1));
    if l.len() == 2 {
        assert(l.drop_last() =~= first);
        assert(targets_of(l, source) == targets_of(first, source));
    } else {
        assert(l =~= first);
    }
    assert(targets_of(l, source) =~= seq![l[0].1]);
}

impl MessageRouter {
    /// Builds the link graph from the bridges, in order. Fails on the first
    /// bridge with an exclude filter that does not compile, naming that bridge's
    /// position and its first such pattern.
    pub fn new(config: &Vec<Bridge>) -> (r: Result<MessageRouter, ConfigError>)
        ensures
            match r {
                Ok(router) => first_bad_bridge(config@, 0) is None && router@ == graph_of(config@),
                Err(ConfigError::InvalidFilter { bridge_index, pattern }) => {
                    let i = first_bad_bridge(config@, 0);
                    &&& i == Some(bridge_index as int)
                    &&& first_bad_pattern(bridge_patterns(config@[i->0]), 0) is Some
                    &&& pattern@ == bridge_patterns(config@[i->0])[first_bad_pattern(bridge_patterns(config@[i->0]), 0)->0]
                },
            },
    {
        let mut links: Vec<Link> = Vec::new();
        let mut i: usize = 0;
        while i < config.len()
            invariant
                i <= config@.len(),
                first_bad_bridge(config@, 0) == first_bad_bridge(config@, i as int),
                links@.map_values(|l: Link| l@) =~= graph_of(config@.subrange(0, i as int)),
            decreases config@.len() - i,
        {
            let bridge = &config[i];
            let filters = match compile_filters(bridge) {
                Ok(fs) => fs,
                Err(pattern) => {
                    return Err(ConfigError::InvalidFilter { bridge_index: i, pattern });
                },
            };
            let source = ChannelIdentifier::from_str(bridge.channels[0].as_str());
            let target = ChannelIdentifier::from_str(bridge.channels[1].as_str());
            let insert_zws = bridge.inserts_zws();
            let ghost before = links@.map_values(|l: Link| l@);
            if bridge.is_bidirectional() {
                let reverse = MirroredChannel {
                    channel: source.duplicate(),
                    insert_zws,
                    exclude_filters: duplicate_all(&filters),
                    filter_mode: bridge.filter_mode,
                };
                let back_source = target.duplicate();
                links.push(Link {
                    source,
                    target: MirroredChannel { channel: target, insert_zws, exclude_filters: filters, filter_mode: bridge.filter_mode },
                });
                links.push(Link { source: back_source, target: reverse });
            } else {
                links.push(Link {
                    source,
                    target: MirroredChannel { channel: target, insert_zws, exclude_filters: filters, filter_mode: bridge.filter_mode },
                });
            }
            proof {
                let sub = config@.subrange(0, i + 1);
                assert(sub.drop_last() =~= config@.subrange(0, i as int));
                assert(links@.map_values(|l: Link| l@) =~= before + bridge_links(config@[i as int]));
            }
            i = i + 1;
        }
        assert(config@.subrange(0, config@.len() as int) =~= config@);
        Ok(MessageRouter { channel_links: links })
    }

    /// The destinations of `source`, in configuration order, as positions of
    /// `channel_links`.
    pub fn targets(&self, source: &ChannelIdentifier) -> (r: Vec<usize>)
        ensures
            r@.map_values(|k: usize| self@[k as int].1) == targets_of(self@, source@),
            forall|j: int| 0 <= j < r@.len() ==> r@[j] < self@.len(),
    {
        let mut out: Vec<usize> = Vec::new();
        let mut k: usize = 0;
        while k < self.channel_links.len()
            invariant
                k <= self@.len(),
                self@.len() == self.channel_links@.len(),
                out@.map_values(|x: usize| self@[x as int].1) =~= targets_of(self@.subrange(0, k as int), source@),
                forall|j: int| 0 <= j < out@.len() ==> out@[j] < k,
            decreases self@.len() - k,
        {
            proof {
                assert(self@.subrange(0, k + 1).drop_last() =~= self@.subrange(0, k as int));
            }
            if self.channel_links[k].source.same_as(source) {
                out.push(k);
            }
            k = k + 1;
        }
        assert(self@.subrange(0, self@.len() as int) =~= self@);
        out
    }
}

} // verus!
