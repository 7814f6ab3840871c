//! Channel identifiers: `platform` or `platform:value`.
use vstd::prelude::*;
use vstd::string::StrSliceExecFns;
use vstd::string::StringExecFns;

verus! {

/// The mathematical form of an optional string.
pub open spec fn opt_view(o: Option<String>) -> Option<Seq<char>> {
    match o {
        Some(s) => Some(s@),
        None => None,
    }
}

/// A channel on a platform. `value == None` stands for the whole platform.
pub struct ChannelIdentifier {
    pub platform: String,
    pub value: Option<String>,
}

/// What a channel identifier denotes: its platform name and its optional value.
pub struct ChannelView {
    pub platform: Seq<char>,
    pub value: Option<Seq<char>>,
}

impl View for ChannelIdentifier {
    type V = ChannelView;

    open spec fn view(&self) -> ChannelView {
        ChannelView { platform: self.platform@, value: opt_view(self.value) }
    }
}

/// The position of the first `:` of `s` at or after `i`, if there is one.
pub open spec fn colon_from(s: Seq<char>, i: int) -> Option<int>
    decreases s.len() - i,
{
    if i < 0 || i >= s.len() {
        None
    } else if s[i] == ':' {
        Some(i)
    } else {
        colon_from(s, i + 1)
    }
}

/// The position of the first `:` of `s`, if it has one.
pub open spec fn first_colon(s: Seq<char>) -> Option<int> {
    colon_from(s, 0)
}

/// A position found from `i` lies at or after `i`, holds a `:`, and none comes before it.
pub proof fn lemma_colon_from(s: Seq<char>, i: int)
    requires
        0 <= i,
    ensures
        match colon_from(s, i) {
            Some(k) => i <= k < s.len() && s[k] == ':' && forall|j: int| i <= j < k ==> s[j] != ':',
            None => forall|j: int| i <= j < s.len() ==> s[j] != ':',
        },
    decreases s.len() - i,
{
    if i < s.len() && s[i] != ':' {
        lemma_colon_from(s, i + 1);
    }
}

/// The identifier that a text denotes: split once at its first `:`.
pub open spec fn parse_channel(s: Seq<char>) -> ChannelView {
    match first_colon(s) {
        Some(i) => ChannelView { platform: s.subrange(0, i), value: Some(s.subrange(i + 1, s.len() as int)) },
        None => ChannelView { platform: s, value: None },
    }
}

/// The text of an identifier: the platform, then `:value` where there is a value.
pub open spec fn render_channel(c: ChannelView) -> Seq<char> {
    match c.value {
        Some(v) => c.platform + seq![':'] + v,
        None => c.platform,
    }
}

/// Copies an optional string.
pub fn clone_opt(o: &Option<String>) -> (r: Option<String>)
    ensures
        opt_view(r) == opt_view(*o),
{
    match o {
        Some(s) => Some(s.clone()),
        None => None,
    }
}

/// Compares two optional strings.
pub fn opt_eq(a: &Option<String>, b: &Option<String>) -> (r: bool)
    ensures
        r == (opt_view(*a) == opt_view(*b)),
{
    match a {
        Some(x) => match b {
            Some(y) => {
                let same = *x == *y;
                same
            },
            None => false,
        },
        None => b.is_none(),
    }
}

impl ChannelIdentifier {
    /// Builds an identifier from its two parts.
    pub fn new(platform: String, value: Option<String>) -> (r: Self)
        ensures
            r@ == (ChannelView { platform: platform@, value: opt_view(value) }),
    {
        ChannelIdentifier { platform, value }
    }

    /// Parses `platform:value`, split at the first `:`, or a bare `platform`.
    pub fn from_str(s: &str) -> (r: Self)
        ensures
            r@ == parse_channel(s@),
    {
        let n = s.unicode_len();
        let mut i: usize = 0;
        while i < n
            invariant
                n == s@.len(),
                i <= n,
                first_colon(s@) == colon_from(s@, i as int),
            decreases n - i,
        {
            if s.get_char(i) == ':' {
                let platform = String::from_str(s.substring_char(0, i));
                let value = String::from_str(s.substring_char(i + 1, n));
                return ChannelIdentifier { platform, value: Some(value) };
            }
            i = i + 1;
        }
        ChannelIdentifier { platform: String::from_str(s), value: None }
    }

    /// The text of the identifier: the platform, then `:value` where there is a value.
    pub fn render(&self) -> (r: String)
        ensures
            r@ == render_channel(self@),
    {
        let mut out = self.platform.clone();
        match &self.value {
            Some(v) => {
                out.append(":");
                proof { reveal_strlit(":"); }
                out.append(v.as_str());
            },
            None => {},
        }
        out
    }

    /// Whether two identifiers name the same channel: both parts equal.
    pub fn same_as(&self, other: &ChannelIdentifier) -> (r: bool)
        ensures
            r == (self@ == other@),
    {
        self.platform == other.platform && opt_eq(&self.value, &other.value)
    }

    /// Copies the identifier.
    pub fn duplicate(&self) -> (r: Self)
        ensures
            r@ == self@,
    {
        ChannelIdentifier { platform: self.platform.clone(), value: clone_opt(&self.value) }
    }
}

/// Rendering a parsed text gives the text back: the first `:` is put back where it was.
pub proof fn lemma_render_parse(s: Seq<char>)
    ensures
        render_channel(parse_channel(s)) == s,
{
    lemma_colon_from(s, 0);
    match first_colon(s) {
        Some(i) => {
            assert(s.subrange(0, i) + seq![':'] + s.subrange(i + 1, s.len() as int) =~= s);
        },
        None => {},
    }
}

/// Parsing a rendered identifier gives it back, where its platform holds no `:`.
pub proof fn lemma_parse_render(c: ChannelView)
    requires
        forall|j: int| 0 <= j < c.platform.len() ==> c.platform[j] != ':',
    ensures
        parse_channel(render_channel(c)) == c,
{
    let s = render_channel(c);
    lemma_colon_from(s, 0);
    match c.value {
        Some(v) => {
            let k = c.platform.len() as int;
            assert(s[k] == ':');
            let j = first_colon(s)->0;
            if j < k {
                assert(c.platform[j] == s[j]);
            }
            assert(s.subrange(0, k) =~= c.platform);
            assert(s.subrange(k + 1, s.len() as int) =~= v);
        },
        None => {
            if first_colon(s) is Some {
                let j = first_colon(s)->0;
                assert(c.platform[j] == s[j]);
            }
        },
    }
}

} // verus!
