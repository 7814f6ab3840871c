//! The mirroring engine: renders, filters and routes each incoming message.
use vstd::prelude::*;
use vstd::string::StrSliceExecFns;
use vstd::string::StringExecFns;
use crate::channel::{ChannelIdentifier, ChannelView, opt_view, clone_opt};
use crate::config::{FilterMode, Message};
use crate::filter::{first_match, first_match_from, patterns_of};
use crate::router::{EdgeView, MessageRouter, targets_of};

verus! {

/// A chat message as a platform adapter reports it.
pub struct IncomingMessage {
    pub channel_id: Option<String>,
    pub user_id: Option<String>,
    pub user_name: Option<String>,
    pub user_color: Option<String>,
    pub contents: String,
}

/// What an incoming message holds.
pub struct IncomingView {
    pub channel_id: Option<Seq<char>>,
    pub user_id: Option<Seq<char>>,
    pub user_name: Option<Seq<char>>,
    pub user_color: Option<Seq<char>>,
    pub contents: Seq<char>,
}

impl View for IncomingMessage {
    type V = IncomingView;

    open spec fn view(&self) -> IncomingView {
        IncomingView {
            channel_id: opt_view(self.channel_id),
            user_id: opt_view(self.user_id),
            user_name: opt_view(self.user_name),
            user_color: opt_view(self.user_color),
            contents: self.contents@,
        }
    }
}

impl IncomingMessage {
    /// Copies the message.
    pub fn duplicate(&self) -> (r: IncomingMessage)
        ensures
            r@ == self@,
    {
        IncomingMessage {
            channel_id: clone_opt(&self.channel_id),
            user_id: clone_opt(&self.user_id),
            user_name: clone_opt(&self.user_name),
            user_color: clone_opt(&self.user_color),
            contents: self.contents.clone(),
        }
    }
}

/// A message handed to a platform adapter: the rendered text, the channel it
/// goes to, and the structured fields of the message it came from, for
/// adapters that format on their own.
pub struct OutgoingMessage {
    pub content: String,
    pub target_channel_id: Option<String>,
    pub source_platform_name: String,
    pub source_msg: IncomingMessage,
}

/// What an outgoing message holds.
pub struct OutgoingView {
    pub content: Seq<char>,
    pub target_channel_id: Option<Seq<char>>,
    pub source_platform_name: Seq<char>,
    pub source_msg: IncomingView,
}

impl View for OutgoingMessage {
    type V = OutgoingView;

    open spec fn view(&self) -> OutgoingView {
        OutgoingView {
            content: self.content@,
            target_channel_id: opt_view(self.target_channel_id),
            source_platform_name: self.source_platform_name@,
            source_msg: self.source_msg@,
        }
    }
}

/// An outgoing message and the platform whose queue it goes to.
pub struct Dispatch {
    pub platform: String,
    pub message: OutgoingMessage,
}

impl View for Dispatch {
    type V = (Seq<char>, OutgoingView);

    open spec fn view(&self) -> (Seq<char>, OutgoingView) {
        (self.platform@, self.message@)
    }
}

/// The invisible character put into a marked name.
pub open spec fn zws_marker() -> char {
    '\u{E0000}'
}

/// A name with the marker put right after its first character.
pub open spec fn marked_name(name: Seq<char>) -> Seq<char> {
    name.subrange(0, 1).push(zws_marker()) + name.subrange(1, name.len() as int)
}

/// The name as shown: marked where marking is asked for and the name has more
/// than one character.
pub open spec fn shown_name(name: Seq<char>, mark: bool) -> Seq<char> {
    if mark && name.len() >= 2 {
        marked_name(name)
    } else {
        name
    }
}

/// `[display] name: contents`, or `[display] contents` without a name.
pub open spec fn rendered(display: Seq<char>, name: Option<Seq<char>>, contents: Seq<char>) -> Seq<char> {
    match name {
        Some(n) => seq!['['] + display + seq![']', ' '] + n + seq![':', ' '] + contents,
        None => seq!['['] + display + seq![']', ' '] + contents,
    }
}

/// The display name of a platform: its first alias, else the platform itself.
pub open spec fn alias_of(aliases: Seq<(String, String)>, platform: Seq<char>) -> Seq<char>
    decreases aliases.len(),
{
    if aliases.len() == 0 {
        platform
    } else if aliases[0].0@ == platform {
        aliases[0].1@
    } else {
        alias_of(aliases.drop_first(), platform)
    }
}

/// Whether a platform can carry the marker: its first entry says, and an
/// unknown platform cannot.
pub open spec fn zws_flag(table: Seq<(String, bool)>, platform: Seq<char>) -> bool
    decreases table.len(),
{
    if table.len() == 0 {
        false
    } else if table[0].0@ == platform {
        table[0].1
    } else {
        zws_flag(table.drop_first(), platform)
    }
}

/// The text a link's filters are matched against.
pub open spec fn filtered_text(mode: FilterMode, msg: IncomingView, content: Seq<char>) -> Seq<char> {
    match mode {
        FilterMode::SourceMessage => msg.contents,
        FilterMode::FinalMessage => content,
    }
}

/// The rendered text of a message for one link.
pub open spec fn edge_content(edge: EdgeView, zws: Seq<(String, bool)>, display: Seq<char>, msg: IncomingView) -> Seq<char> {
    let mark = edge.insert_zws && zws_flag(zws, edge.channel.platform);
    match msg.user_name {
        Some(n) => rendered(display, Some(shown_name(n, mark)), msg.contents),
        None => rendered(display, None, msg.contents),
    }
}

/// What one link makes of a message: nothing where one of its filters matches.
pub open spec fn edge_dispatch(
    edge: EdgeView,
    zws: Seq<(String, bool)>,
    display: Seq<char>,
    msg: IncomingView,
) -> Option<(Seq<char>, OutgoingView)> {
    let content = edge_content(edge, zws, display, msg);
    if first_match_from(edge.filters, filtered_text(edge.filter_mode, msg, content), 0) is Some {
        None
    } else {
        Some((edge.channel.platform, OutgoingView {
            content,
            target_channel_id: edge.channel.value,
            source_platform_name: display,
            source_msg: msg,
        }))
    }
}

/// What a list of links makes of a message, in their order.
pub open spec fn dispatches_of(
    edges: Seq<EdgeView>,
    zws: Seq<(String, bool)>,
    display: Seq<char>,
    msg: IncomingView,
) -> Seq<(Seq<char>, OutgoingView)>
    decreases edges.len(),
{
    if edges.len() == 0 {
        seq![]
    } else {
        let prev = dispatches_of(edges.drop_last(), zws, display, msg);
        match edge_dispatch(edges.last(), zws, display, msg) {
            Some(d) => prev.push(d),
            None => prev,
        }
    }
}

/// The channel a message of `source` comes from.
pub open spec fn source_channel(source: Seq<char>, msg: IncomingView) -> ChannelView {
    ChannelView { platform: source, value: msg.channel_id }
}

/// Everything the engine sends for a message of platform `source`.
pub open spec fn mirror_spec(
    graph: Seq<(crate::channel::ChannelView, EdgeView)>,
    zws: Seq<(String, bool)>,
    aliases: Seq<(String, String)>,
    source: Seq<char>,
    msg: IncomingView,
) -> Seq<(Seq<char>, OutgoingView)> {
    dispatches_of(targets_of(graph, source_channel(source, msg)), zws, alias_of(aliases, source), msg)
}

/// A marked name has exactly one more character, the marker, at position 1;
/// taking it out gives the name back.
pub proof fn lemma_marked_name(name: Seq<char>)
    requires
        name.len() >= 2,
    ensures
        shown_name(name, true) == marked_name(name),
        marked_name(name).len() == name.len() + 1,
        marked_name(name)[1] == zws_marker(),
        marked_name(name).remove(1) == name,
        marked_name(name) != name,
{
    assert(marked_name(name).remove(1) =~= name);
}

/// On a link that asks for marking toward a platform that can carry the
/// marker, a name of two or more characters is shown marked.
pub proof fn lemma_marker_inserted(edge: EdgeView, zws: Seq<(String, bool)>, display: Seq<char>, msg: IncomingView)
    requires
        edge.insert_zws,
        zws_flag(zws, edge.channel.platform),
        msg.user_name is Some,
        msg.user_name->0.len() >= 2,
    ensures
        edge_content(edge, zws, display, msg) == rendered(display, Some(marked_name(msg.user_name->0)), msg.contents),
{
}

/// Toward a platform that cannot carry the marker, the name is shown as it is,
/// whatever the link asks.
pub proof fn lemma_no_marker(edge: EdgeView, zws: Seq<(String, bool)>, display: Seq<char>, msg: IncomingView)
    requires
        !zws_flag(zws, edge.channel.platform),
    ensures
        edge_content(edge, zws, display, msg) == rendered(display, msg.user_name, msg.contents),
{
}

/// What a list of links makes of a message is what each part makes of it, in order.
pub proof fn lemma_dispatches_concat(
    a: Seq<EdgeView>,
    b: Seq<EdgeView>,
    zws: Seq<(String, bool)>,
    display: Seq<char>,
    msg: IncomingView,
)
    ensures
        dispatches_of(a + b, zws, display, msg) == dispatches_of(a, zws, display, msg) + dispatches_of(b, zws, display, msg),
    decreases b.len(),
{
    if b.len() == 0 {
        assert(a + b =~= a);
        assert(dispatches_of(a, zws, display, msg) + dispatches_of(b, zws, display, msg) =~= dispatches_of(a, zws, display, msg));
    } else {
        assert((a + b).drop_last() =~= a + b.drop_last());
        lemma_dispatches_concat(a, b.drop_last(), zws, display, msg);
        let prev = dispatches_of(a, zws, display, msg) + dispatches_of(b.drop_last(), zws, display, msg);
        match edge_dispatch(b.last(), zws, display, msg) {
            Some(d) => {
                assert(prev.push(d) =~= dispatches_of(a, zws, display, msg) + dispatches_of(b.drop_last(), zws, display, msg).push(d));
            },
            None => {},
        }
    }
}

/// Links do not affect each other: the dispatches of a message are those of the
/// links before link `j`, then what link `j` alone makes of it (nothing where
/// one of its filters matches), then those of the links after it.
pub proof fn lemma_links_independent(
    edges: Seq<EdgeView>,
    j: int,
    zws: Seq<(String, bool)>,
    display: Seq<char>,
    msg: IncomingView,
)
    requires
        0 <= j < edges.len(),
    ensures
        dispatches_of(edges, zws, display, msg) == dispatches_of(edges.subrange(0, j), zws, display, msg) + match edge_dispatch(
            edges[j],
            zws,
            display,
            msg,
        ) {
            Some(d) => seq![d],
            None => Seq::empty(),
        } + dispatches_of(edges.subrange(j + 1, edges.len() as int), zws, display, msg),
{
    let pre = edges.subrange(0, j);
    let one = seq![edges[j]];
    let post = edges.subrange(j + 1, edges.len() as int);
    assert(edges =~= pre + one + post);
    lemma_dispatches_concat(pre + one, post, zws, display, msg);
    lemma_dispatches_concat(pre, one, zws, display, msg);
    let empty = Seq::<EdgeView>::empty();
    assert(one.drop_last() =~= empty);
    assert(dispatches_of(empty, zws, display, msg) == Seq::<(Seq<char>, OutgoingView)>::empty());
    match edge_dispatch(edges[j], zws, display, msg) {
        Some(d) => {
            assert(dispatches_of(one, zws, display, msg) =~= seq![d]);
        },
        None => {
            assert(dispatches_of(one, zws, display, msg) =~= Seq::<(Seq<char>, OutgoingView)>::empty());
        },
    }
}

impl Message {
    /// The display name of a platform: its alias, else its own name.
    pub fn display_name(&self, platform: &str) -> (r: String)
        ensures
            r@ == alias_of(self.platform_aliases@, platform@),
    {
        let p = String::from_str(platform);
        let mut i: usize = 0;
        assert(self.platform_aliases@.subrange(0, self.platform_aliases@.len() as int) =~= self.platform_aliases@);
        while i < self.platform_aliases.len()
            invariant
                i <= self.platform_aliases@.len(),
                p@ == platform@,
                alias_of(self.platform_aliases@, platform@) == alias_of(self.platform_aliases@.subrange(i as int, self.platform_aliases@.len() as int), platform@),
            decreases self.platform_aliases@.len() - i,
        {
            let ghost rest = self.platform_aliases@.subrange(i as int, self.platform_aliases@.len() as int);
            assert(rest.drop_first() =~= self.platform_aliases@.subrange(i + 1, self.platform_aliases@.len() as int));
            if self.platform_aliases[i].0 == p {
                return self.platform_aliases[i].1.clone();
            }
            i = i + 1;
        }
        p
    }
}

/// Whether the table says `platform` can carry the marker; `false` for a
/// platform it does not list.
pub fn supports_zws(table: &Vec<(String, bool)>, platform: &String) -> (r: bool)
    ensures
        r == zws_flag(table@, platform@),
{
    let mut i: usize = 0;
    assert(table@.subrange(0, table@.len() as int) =~= table@);
    while i < table.len()
        invariant
            i <= table@.len(),
            zws_flag(table@, platform@) == zws_flag(table@.subrange(i as int, table@.len() as int), platform@),
        decreases table@.len() - i,
    {
        let ghost rest = table@.subrange(i as int, table@.len() as int);
        assert(rest.drop_first() =~= table@.subrange(i + 1, table@.len() as int));
        if table[i].0 == *platform {
            return table[i].1;
        }
        i = i + 1;
    }
    false
}

/// Puts the marker right after the first character of `name`.
pub fn mark_name(name: &str) -> (r: String)
    requires
        name@.len() >= 1,
    ensures
        r@ == marked_name(name@),
{
    let n = name.unicode_len();
    let mut out = String::from_str(name.substring_char(0, 1));
    out.append("\u{E0000}");
    proof { reveal_strlit("\u{E0000}"); }
    out.append(name.substring_char(1, n));
    assert(out@ =~= marked_name(name@));
    out
}

/// Renders a message: `[display] name: contents`, or `[display] contents`
/// without a name; the name is marked where `mark` holds and it has more than
/// one character.
pub fn render_content(display: &str, name: &Option<String>, contents: &str, mark: bool) -> (r: String)
    ensures
        r@ == (match opt_view(*name) {
            Some(n) => rendered(display@, Some(shown_name(n, mark)), contents@),
            None => rendered(display@, None, contents@),
        }),
{
    let mut out = String::from_str("[");
    out.append(display);
    out.append("] ");
    proof {
        reveal_strlit("[");
        reveal_strlit("] ");
        reveal_strlit(": ");
    }
    match name {
        Some(n) => {
            if mark && n.as_str().unicode_len() >= 2 {
                let m = mark_name(n.as_str());
                out.append(m.as_str());
            } else {
                out.append(n.as_str());
            }
            out.append(": ");
        },
        None => {},
    }
    out.append(contents);
    proof {
        match opt_view(*name) {
            Some(n) => {
                assert(out@ =~= rendered(display@, Some(shown_name(n, mark)), contents@));
            },
            None => {
                assert(out@ =~= rendered(display@, None, contents@));
            },
        }
    }
    out
}

/// Everything to send for a message of platform `source`: one dispatch per
/// destination of its channel, in configuration order, but for those whose
/// filters exclude it. A channel without destinations gives nothing.
pub fn mirror_message(
    router: &MessageRouter,
    zws_support: &Vec<(String, bool)>,
    message_config: &Message,
    source: &str,
    msg: &IncomingMessage,
) -> (r: Vec<Dispatch>)
    ensures
        r@.map_values(|d: Dispatch| d@) == mirror_spec(router@, zws_support@, message_config.platform_aliases@, source@, msg@),
{
    let id = ChannelIdentifier::new(String::from_str(source), clone_opt(&msg.channel_id));
    let targets = router.targets(&id);
    let ghost edges = targets@.map_values(|k: usize| router@[k as int].1);
    let display = message_config.display_name(source);
    let mut out: Vec<Dispatch> = Vec::new();
    let mut t: usize = 0;
    while t < targets.len()
        invariant
            t <= targets@.len(),
            edges == targets@.map_values(|k: usize| router@[k as int].1),
            forall|j: int| 0 <= j < targets@.len() ==> targets@[j] < router@.len(),
            router@.len() == router.channel_links@.len(),
            display@ == alias_of(message_config.platform_aliases@, source@),
            out@.map_values(|d: Dispatch| d@) =~= dispatches_of(edges.subrange(0, t as int), zws_support@, display@, msg@),
        decreases targets@.len() - t,
    {
        let k = targets[t];
        let edge = &router.channel_links[k].target;
        assert(edge@ == edges[t as int]);
        let mark = edge.insert_zws && supports_zws(zws_support, &edge.channel.platform);
        let content = render_content(display.as_str(), &msg.user_name, msg.contents.as_str(), mark);
        let hit = match edge.filter_mode {
            FilterMode::SourceMessage => first_match(&edge.exclude_filters, msg.contents.as_str()),
            FilterMode::FinalMessage => first_match(&edge.exclude_filters, content.as_str()),
        };
        let ghost before = out@.map_values(|d: Dispatch| d@);
        assert(edges.subrange(0, t + 1).drop_last() =~= edges.subrange(0, t as int));
        if hit.is_none() {
            let d = Dispatch {
                platform: edge.channel.platform.clone(),
                message: OutgoingMessage {
                    content,
                    target_channel_id: clone_opt(&edge.channel.value),
                    source_platform_name: display.clone(),
                    source_msg: msg.duplicate(),
                },
            };
            out.push(d);
            assert(out@.map_values(|d: Dispatch| d@) =~= before.push(d@));
        }
        t = t + 1;
    }
    assert(edges.subrange(0, targets@.len() as int) =~= edges);
    out
}

} // verus!
