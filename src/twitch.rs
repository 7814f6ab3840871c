//! The streaming-chat platform's side: incoming chat events, subscriptions
//! and the sign-in flow.
use vstd::prelude::*;
use vstd::string::StrSliceExecFns;
use vstd::string::StringExecFns;
use crate::channel::opt_view;
use crate::mirror::{IncomingMessage, IncomingView};
use crate::harness::texts;

verus! {

/// The query of a sign-in request.
pub struct AuthenticateParams {
    pub mode: AuthenticationMode,
}

/// Whom a sign-in is for: a channel that lets the bot in, or the bot's user.
#[derive(Clone, Copy, Debug, PartialEq, Eq, Structural)]
pub enum AuthenticationMode {
    Channel,
    User,
}

impl AuthenticationMode {
    /// The mode's name: `Channel` or `User`.
    pub fn name(&self) -> (r: &'static str)
        ensures
            r@ == (match *self {
                AuthenticationMode::Channel => "Channel"@,
                AuthenticationMode::User => "User"@,
            }),
    {
        match self {
            AuthenticationMode::Channel => "Channel",
            AuthenticationMode::User => "User",
        }
    }
}

/// A permission that a sign-in asks for.
#[derive(Clone, Copy, Debug, PartialEq, Eq, Structural)]
pub enum BotScope {
    ChannelBot,
    UserBot,
    UserReadChat,
    UserWriteChat,
}

/// The permissions a sign-in asks for: the channel's consent to the bot, or
/// the bot user's right to read and write chat.
pub fn scopes_for(mode: AuthenticationMode) -> (r: Vec<BotScope>)
    ensures
        r@ == (match mode {
            AuthenticationMode::Channel => seq![BotScope::ChannelBot],
            AuthenticationMode::User => seq![BotScope::UserBot, BotScope::UserReadChat, BotScope::UserWriteChat],
        }),
{
    match mode {
        AuthenticationMode::Channel => vec![BotScope::ChannelBot],
        AuthenticationMode::User => vec![BotScope::UserBot, BotScope::UserReadChat, BotScope::UserWriteChat],
    }
}

/// The query of the redirect that ends a sign-in.
pub struct AuthRedirectParams {
    pub state: String,
    pub error_description: Option<String>,
    pub code: Option<String>,
    pub scope: Option<String>,
}

/// What to do with the redirect that ends a sign-in.
pub enum RedirectOutcome {
    /// Answer at once with this status and body.
    Reply { status: u16, body: String },
    /// Trade the code for a token granting these scopes.
    Trade { code: String, scopes: String },
}

/// The redirect's answer: the platform's error as is (422); an unknown state
/// (401); a missing code or scope (400); else the trade.
pub open spec fn redirect_outcome(
    error_description: Option<Seq<char>>,
    state_known: bool,
    code: Option<Seq<char>>,
    scope: Option<Seq<char>>,
) -> (u16, Seq<char>) {
    match error_description {
        Some(e) => (422, e),
        None => if !state_known {
            (401, "Invalid state provided"@)
        } else {
            match (code, scope) {
                (Some(c), Some(_)) => (200, c),
                _ => (400, "missing code or scopes param"@),
            }
        },
    }
}

/// Decides on the redirect that ends a sign-in; `state_known` tells whether its
/// state names a sign-in that was started here.
pub fn check_auth_redirect(params: &AuthRedirectParams, state_known: bool) -> (r: RedirectOutcome)
    ensures
        ({
            let (status, text) = redirect_outcome(opt_view(params.error_description), state_known, opt_view(params.code), opt_view(params.scope));
            match r {
                RedirectOutcome::Reply { status: s, body } => s == status && s != 200 && body@ == text,
                RedirectOutcome::Trade { code, scopes } => status == 200 && code@ == text && Some(scopes@) == opt_view(params.scope),
            }
        }),
{
    match &params.error_description {
        Some(e) => RedirectOutcome::Reply { status: 422, body: e.clone() },
        None => {
            if !state_known {
                RedirectOutcome::Reply { status: 401, body: String::from_str("Invalid state provided") }
            } else {
                match &params.code {
                    Some(c) => match &params.scope {
                        Some(s) => RedirectOutcome::Trade { code: c.clone(), scopes: s.clone() },
                        None => RedirectOutcome::Reply { status: 400, body: String::from_str("missing code or scopes param") },
                    },
                    None => RedirectOutcome::Reply { status: 400, body: String::from_str("missing code or scopes param") },
                }
            }
        },
    }
}

/// A colour without its leading `#` characters.
pub open spec fn trim_hashes(c: Seq<char>) -> Seq<char>
    decreases c.len(),
{
    if c.len() > 0 && c[0] == '#' {
        trim_hashes(c.drop_first())
    } else {
        c
    }
}

/// A chat event as a message: from the broadcaster's channel, with the
/// chatter's id and name, and the colour without `#`, absent where empty.
pub open spec fn chat_message(
    broadcaster_id: Seq<char>,
    chatter_id: Seq<char>,
    chatter_name: Seq<char>,
    text: Seq<char>,
    color: Seq<char>,
) -> IncomingView {
    IncomingView {
        channel_id: Some(broadcaster_id),
        user_id: Some(chatter_id),
        user_name: Some(chatter_name),
        user_color: if trim_hashes(color).len() == 0 { None } else { Some(trim_hashes(color)) },
        contents: text,
    }
}

/// Turns a chat event into a message.
pub fn incoming_chat_message(broadcaster_id: &str, chatter_id: &str, chatter_name: &str, text: &str, color: &str) -> (r: IncomingMessage)
    ensures
        r@ == chat_message(broadcaster_id@, chatter_id@, chatter_name@, text@, color@),
{
    let n = color.unicode_len();
    let mut i: usize = 0;
    assert(color@.subrange(0, n as int) =~= color@);
    while i < n && color.get_char(i) == '#'
        invariant
            n == color@.len(),
            i <= n,
            trim_hashes(color@) == trim_hashes(color@.subrange(i as int, n as int)),
        decreases n - i,
    {
        assert(color@.subrange(i as int, n as int).drop_first() =~= color@.subrange(i + 1, n as int));
        i = i + 1;
    }
    let trimmed = String::from_str(color.substring_char(i, n));
    proof {
        let rest = color@.subrange(i as int, n as int);
        assert(rest.len() == 0 || rest[0] != '#');
    }
    let user_color = if trimmed.as_str().unicode_len() == 0 { None } else { Some(trimmed) };
    IncomingMessage {
        channel_id: Some(String::from_str(broadcaster_id)),
        user_id: Some(String::from_str(chatter_id)),
        user_name: Some(String::from_str(chatter_name)),
        user_color,
        contents: String::from_str(text),
    }
}

/// The channels still to subscribe to: those of `channel_ids` that no active
/// subscription covers, in order.
pub open spec fn unsubscribed(channel_ids: Seq<Seq<char>>, subscribed: Seq<Seq<char>>) -> Seq<Seq<char>> {
    channel_ids.filter(|c: Seq<char>| !subscribed.contains(c))
}

/// Picks the channels that still need a chat subscription.
pub fn channels_to_subscribe(channel_ids: &Vec<String>, subscribed: &Vec<String>) -> (r: Vec<String>)
    ensures
        texts(r@) == unsubscribed(texts(channel_ids@), texts(subscribed@)),
{
    let mut out: Vec<String> = Vec::new();
    let mut i: usize = 0;
    while i < channel_ids.len()
        invariant
            i <= channel_ids@.len(),
            texts(out@) == unsubscribed(texts(channel_ids@.subrange(0, i as int)), texts(subscribed@)),
        decreases channel_ids@.len() - i,
    {
        let c = &channel_ids[i];
        let mut found = false;
        let mut j: usize = 0;
        while j < subscribed.len()
            invariant
                j <= subscribed@.len(),
                found == (exists|m: int| 0 <= m < j && subscribed@[m]@ == c@),
            decreases subscribed@.len() - j,
        {
            if subscribed[j] == *c {
                found = true;
            }
            j = j + 1;
        }
        proof {
            if found {
                let m = choose|m: int| 0 <= m < subscribed@.len() && subscribed@[m]@ == c@;
                assert(texts(subscribed@)[m] == c@);
            } else {
                assert forall|m: int| 0 <= m < texts(subscribed@).len() implies texts(subscribed@)[m] != c@ by {
                    assert(texts(subscribed@)[m] == subscribed@[m]@);
                }
            }
        }
        let ghost before = texts(out@);
        if !found {
            out.push(c.clone());
        }
        proof {
            let pre = texts(channel_ids@.subrange(0, i as int));
            let next = texts(channel_ids@.subrange(0, i + 1));
            assert(next =~= pre.push(c@));
            assert(next.drop_last() =~= pre);
            assert(next.filter(|x: Seq<char>| !texts(subscribed@).contains(x))
                == pre.filter(|x: Seq<char>| !texts(subscribed@).contains(x)) + (if !texts(subscribed@).contains(c@) { seq![c@] } else { Seq::empty() })) by {
                reveal(Seq::filter);
                assert(next.last() == c@);
                if !texts(subscribed@).contains(c@) {
                    assert(pre.filter(|x: Seq<char>| !texts(subscribed@).contains(x)).push(c@)
                        =~= pre.filter(|x: Seq<char>| !texts(subscribed@).contains(x)) + seq![c@]);
                } else {
                    assert(pre.filter(|x: Seq<char>| !texts(subscribed@).contains(x))
                        =~= pre.filter(|x: Seq<char>| !texts(subscribed@).contains(x)) + Seq::<Seq<char>>::empty());
                }
            }
            if !found {
                assert(texts(out@) =~= before.push(c@));
                assert(before.push(c@) =~= before + seq![c@]);
            } else {
                assert(before + Seq::<Seq<char>>::empty() =~= before);
            }
        }
        i = i + 1;
    }
    assert(channel_ids@.subrange(0, channel_ids@.len() as int) =~= channel_ids@);
    out
}

/// The address the platform delivers chat events to: `<base_url>/platform/twitch/eventsub`.
pub fn eventsub_callback_url(base_url: &str) -> (r: String)
    ensures
        r@ == base_url@ + "/platform/twitch/eventsub"@,
{
    let mut url = String::from_str(base_url);
    url.append("/platform/twitch/eventsub");
    url
}

/// The address a sign-in returns to: `<base_url>/platform/twitch/auth/redirect`.
pub fn auth_redirect_url(base_url: &str) -> (r: String)
    ensures
        r@ == base_url@ + "/platform/twitch/auth/redirect"@,
{
    let mut url = String::from_str(base_url);
    url.append("/platform/twitch/auth/redirect");
    url
}

} // verus!
