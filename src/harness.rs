//! Startup decisions of the orchestration harness and the supervisor's policy.
use vstd::prelude::*;
use vstd::string::StringExecFns;
use crate::channel::ChannelView;
use crate::router::MessageRouter;

verus! {

/// Whether `v` is the value of a source channel of `platform` in the graph.
pub open spec fn is_channel_value(g: Seq<(ChannelView, crate::router::EdgeView)>, platform: Seq<char>, v: Seq<char>) -> bool {
    exists|k: int| 0 <= k < g.len() && g[k].0.platform == platform && g[k].0.value == Some(v)
}

/// The texts of a list of strings.
pub open spec fn texts(v: Seq<String>) -> Seq<Seq<char>> {
    v.map_values(|s: String| s@)
}

/// The channel values of `platform`: each value of a source channel of that
/// platform in the graph, once.
pub fn channel_values(router: &MessageRouter, platform: &str) -> (r: Vec<String>)
    ensures
        texts(r@).no_duplicates(),
        forall|v: Seq<char>| texts(r@).contains(v) <==> is_channel_value(router@, platform@, v),
{
    let p = String::from_str(platform);
    let mut out: Vec<String> = Vec::new();
    let mut k: usize = 0;
    while k < router.channel_links.len()
        invariant
            k <= router@.len(),
            router@.len() == router.channel_links@.len(),
            p@ == platform@,
            texts(out@).no_duplicates(),
            forall|v: Seq<char>| texts(out@).contains(v) <==>
                (exists|j: int| 0 <= j < k && router@[j].0.platform == platform@ && router@[j].0.value == Some(v)),
        decreases router@.len() - k,
    {
        let source = &router.channel_links[k].source;
        assert(router@[k as int].0 == source@);
        let ghost old_t = texts(out@);
        if source.platform == p {
            match &source.value {
                Some(v) => {
                    let mut seen = false;
                    let mut j: usize = 0;
                    while j < out.len()
                        invariant
                            j <= out@.len(),
                            seen == (exists|m: int| 0 <= m < j && out@[m]@ == v@),
                        decreases out@.len() - j,
                    {
                        if out[j] == *v {
                            seen = true;
                        }
                        j = j + 1;
                    }
                    if !seen {
                        let ghost before = out@;
                        out.push(v.clone());
                        proof {
                            assert(texts(out@) =~= texts(before).push(v@));
                            assert(texts(out@)[texts(before).len() as int] == v@);
                            assert forall|a: int, b: int| 0 <= a < b < texts(out@).len() implies texts(out@)[a] != texts(out@)[b] by {
                                if b == texts(before).len() {
                                    assert(before[a]@ == texts(before)[a]);
                                }
                            }
                        }
                    } else {
                        proof {
                            let m = choose|m: int| 0 <= m < j && out@[m]@ == v@;
                            assert(texts(out@)[m] == v@);
                        }
                    }
                },
                None => {},
            }
        }
        proof {
            let src = router@[k as int].0;
            assert(texts(out@) == old_t || (src.platform == platform@ && src.value is Some && texts(out@) == old_t.push(src.value->0)));
            assert((src.platform == platform@ && src.value is Some) ==> texts(out@).contains(src.value->0));
            assert forall|v: Seq<char>| texts(out@).contains(v) <==>
                (exists|j: int| 0 <= j < k + 1 && router@[j].0.platform == platform@ && router@[j].0.value == Some(v)) by {
                if texts(out@).contains(v) && !old_t.contains(v) {
                    let m = choose|m: int| 0 <= m < texts(out@).len() && texts(out@)[m] == v;
                    assert(router@[k as int].0.platform == platform@ && router@[k as int].0.value == Some(v));
                }
                if exists|j: int| 0 <= j < k + 1 && router@[j].0.platform == platform@ && router@[j].0.value == Some(v) {
                    let j = choose|j: int| 0 <= j < k + 1 && router@[j].0.platform == platform@ && router@[j].0.value == Some(v);
                    if j < k {
                        assert(old_t.contains(v));
                        let m = choose|m: int| 0 <= m < old_t.len() && old_t[m] == v;
                        if texts(out@) != old_t {
                            assert(texts(out@)[m] == v);
                        }
                    }
                }
            }
        }
        k = k + 1;
    }
    out
}

/// What the harness does with one compiled-in platform.
pub enum PlatformStep {
    /// The platform has no configuration: it is left out, which is no error.
    Skip,
    /// The platform is configured: build it for these channel values.
    Start { channel_values: Vec<String> },
}

/// Why startup stops.
pub enum StartupError {
    /// Not one compiled-in platform was configured.
    NoPlatforms,
}

/// The platforms that run after bring-up takes in `platforms`, each a name and
/// whether the configuration has an entry for it, in order: the configured ones.
pub open spec fn started_after(platforms: Seq<(Seq<char>, bool)>) -> Seq<Seq<char>>
    decreases platforms.len(),
{
    if platforms.len() == 0 {
        seq![]
    } else {
        let prev = started_after(platforms.drop_last());
        if platforms.last().1 {
            prev.push(platforms.last().0)
        } else {
            prev
        }
    }
}

/// Startup has a platform to run exactly when at least one platform is
/// configured: where every platform is skipped, `finish` fails.
pub proof fn lemma_startup_needs_a_platform(platforms: Seq<(Seq<char>, bool)>)
    ensures
        started_after(platforms).len() == 0 <==> forall|i: int| 0 <= i < platforms.len() ==> !platforms[i].1,
    decreases platforms.len(),
{
    if platforms.len() > 0 {
        let rest = platforms.drop_last();
        lemma_startup_needs_a_platform(rest);
        if started_after(platforms).len() == 0 {
            assert forall|i: int| 0 <= i < platforms.len() implies !platforms[i].1 by {
                if i < rest.len() {
                    assert(rest[i] == platforms[i]);
                }
            }
        } else {
            if forall|i: int| 0 <= i < platforms.len() ==> !platforms[i].1 {
                assert(!platforms[platforms.len() - 1].1);
                assert forall|i: int| 0 <= i < rest.len() implies !rest[i].1 by {
                    assert(rest[i] == platforms[i]);
                }
            }
        }
    }
}

/// The platform runtime table as it is filled at startup: each platform's
/// marker capability, and the platforms that run.
pub struct PlatformsBuilder {
    pub zws_support: Vec<(String, bool)>,
    pub started: Vec<String>,
}

impl PlatformsBuilder {
    /// An empty table.
    pub fn new() -> (r: Self)
        ensures
            r.zws_support@.len() == 0,
            r.started@.len() == 0,
    {
        PlatformsBuilder { zws_support: Vec::new(), started: Vec::new() }
    }

    /// Takes in one compiled-in platform: records its capability in every case,
    /// and where it is configured, records it as running and gives the channel
    /// values it is built for.
    pub fn init_platform(&mut self, router: &MessageRouter, name: &str, supports_zws: bool, configured: bool) -> (r: PlatformStep)
        ensures
            final(self).zws_support@.len() == old(self).zws_support@.len() + 1,
            final(self).zws_support@.drop_last() == old(self).zws_support@,
            final(self).zws_support@.last().0@ == name@,
            final(self).zws_support@.last().1 == supports_zws,
            configured ==> texts(final(self).started@) == texts(old(self).started@).push(name@),
            !configured ==> final(self).started@ == old(self).started@,
            forall|ps: Seq<(Seq<char>, bool)>| texts(old(self).started@) == started_after(ps)
                ==> texts(final(self).started@) == #[trigger] started_after(ps.push((name@, configured))),
            match r {
                PlatformStep::Skip => !configured,
                PlatformStep::Start { channel_values } => configured
                    && texts(channel_values@).no_duplicates()
                    && forall|v: Seq<char>| texts(channel_values@).contains(v) <==> is_channel_value(router@, name@, v),
            },
    {
        self.zws_support.push((String::from_str(name), supports_zws));
        assert forall|ps: Seq<(Seq<char>, bool)>| #[trigger] started_after(ps.push((name@, configured)))
            == (if configured { started_after(ps).push(name@) } else { started_after(ps) }) by {
            assert(ps.push((name@, configured)).drop_last() =~= ps);
        }
        if configured {
            let ghost before = self.started@;
            self.started.push(String::from_str(name));
            assert(texts(self.started@) =~= texts(before).push(name@));
            PlatformStep::Start { channel_values: channel_values(router, name) }
        } else {
            PlatformStep::Skip
        }
    }

    /// Ends startup: it fails where no platform was configured.
    pub fn finish(&self) -> (r: Result<usize, StartupError>)
        ensures
            r is Err <==> self.started@.len() == 0,
            r is Ok ==> r->Ok_0 == self.started@.len(),
    {
        if self.started.len() == 0 {
            Err(StartupError::NoPlatforms)
        } else {
            Ok(self.started.len())
        }
    }
}

/// The status the process exits with when a tracked task stops.
pub const TASK_EXIT_STATUS: i32 = 1;

/// What the supervisor does when a tracked task stops: it names the task and
/// its result, and ends the process with a failure status.
pub struct Shutdown {
    pub message: String,
    pub exit_status: i32,
}

/// The report for a stopped task: `Worker '<task>' exited unexpectedly: <outcome>`,
/// where the outcome is `Ok(())` or `Err(<error>)`.
pub open spec fn shutdown_message(task: Seq<char>, result: Result<Seq<char>, Seq<char>>) -> Seq<char> {
    let outcome = match result {
        Ok(_) => "Ok(())"@,
        Err(e) => "Err("@ + e + ")"@,
    };
    "Worker '"@ + task + "' exited unexpectedly: "@ + outcome
}

/// The supervisor's answer to a tracked task that stopped, by success or by
/// error alike: every task is meant to run forever.
pub fn task_exited(task: &str, result: &Result<(), String>) -> (r: Shutdown)
    ensures
        r.exit_status == TASK_EXIT_STATUS,
        r.message@ == shutdown_message(task@, match result {
            Ok(_) => Ok(Seq::<char>::empty()),
            Err(e) => Err(e@),
        }),
{
    let mut message = String::from_str("Worker '");
    message.append(task);
    message.append("' exited unexpectedly: ");
    match result {
        Ok(_) => message.append("Ok(())"),
        Err(e) => {
            message.append("Err(");
            message.append(e.as_str());
            message.append(")");
        },
    }
    Shutdown { message, exit_status: TASK_EXIT_STATUS }
}

} // verus!
