use vstd::prelude::*;

use crate::config::{first_missing, opt_view, resolve_config, resolves_to, Config, Param, RawConfig, Resolved};
use crate::transcript::{build_transcript, script_text, transcript, PublicIps};

verus! {

/// Why a run ends without updating the zone.
#[derive(Clone, Copy, Debug, PartialEq, Eq)]
pub enum Failure {
    /// A required parameter is not configured.
    MissingParam(Param),
    /// The host's public IPv4 address could not be fetched.
    Ipv4Lookup,
    /// The update tool exited unsuccessfully, with this exit code where it
    /// exited with one.
    ToolFailed(Option<i32>),
}

/// What the outside world reports to a run.
pub enum Event {
    /// The configuration was read.
    Configured(RawConfig),
    /// The IPv4 lookup ended, with the address where it succeeded.
    Ipv4Fetched(Option<String>),
    /// The IPv6 lookup ended, with the address where it succeeded.
    Ipv6Fetched(Option<String>),
    /// The update tool exited, with its exit code where it has one.
    ToolExited(Option<i32>),
}

/// What a run asks the outside world to do next.
pub enum Action {
    /// Look up the host's public IPv4 address.
    FetchIpv4,
    /// Look up the host's public IPv6 address.
    FetchIpv6,
    /// Start `program`, write `script` to its input, close it, and wait.
    RunTool { program: String, script: String },
    /// End the process with `code`.
    Exit { code: i32, failure: Option<Failure> },
}

/// Where a run stands.
pub enum State {
    /// Waiting for the configuration.
    Start,
    /// Configured; waiting for the IPv4 address.
    AwaitIpv4 { config: Config, ttl_warning: bool },
    /// Waiting for the IPv6 address.
    AwaitIpv6 { config: Config, v4: String },
    /// Waiting for the update tool to exit.
    AwaitTool,
    /// Finished.
    Done,
}

/// Whether `e` is the event that a run in state `s` waits for.
pub open spec fn awaits(s: State, e: Event) -> bool {
    match (s, e) {
        (State::Start, Event::Configured(_)) => true,
        (State::AwaitIpv4 { .. }, Event::Ipv4Fetched(_)) => true,
        (State::AwaitIpv6 { .. }, Event::Ipv6Fetched(_)) => true,
        (State::AwaitTool, Event::ToolExited(_)) => true,
        _ => false,
    }
}

/// The process exit code after the update tool exited with `code`: success
/// only for a zero exit code.
pub open spec fn tool_exit_code(code: Option<i32>) -> i32 {
    if code == Some(0i32) {
        0
    } else {
        1
    }
}

impl State {
    /// Whether `e` is the event that this run waits for.
    pub fn awaits_event(&self, e: &Event) -> (r: bool)
        ensures
            r == awaits(*self, *e),
    {
        match (self, e) {
            (State::Start, Event::Configured(_)) => true,
            (State::AwaitIpv4 { .. }, Event::Ipv4Fetched(_)) => true,
            (State::AwaitIpv6 { .. }, Event::Ipv6Fetched(_)) => true,
            (State::AwaitTool, Event::ToolExited(_)) => true,
            _ => false,
        }
    }
}

/// Advances a run by one event: returns the next state and the action to
/// perform. A missing parameter ends the run before any lookup; a failed IPv4
/// lookup ends it before the tool runs; a failed IPv6 lookup does not; the
/// tool's exit code decides the process's.
pub fn step(s: State, e: Event) -> (r: (State, Action))
    requires
        awaits(s, e),
    ensures
        match (s, e) {
            (State::Start, Event::Configured(raw)) => match first_missing(raw) {
                Some(p) => r.0 is Done && r.1 == (Action::Exit {
                    code: 1,
                    failure: Some(Failure::MissingParam(p)),
                }),
                None => r.1 is FetchIpv4 && (r.0 matches State::AwaitIpv4 { config, ttl_warning }
                    && resolves_to(raw, Resolved { config, ttl_warning }) && config.wf()),
            },
            (State::AwaitIpv4 { config, .. }, Event::Ipv4Fetched(v4)) => match v4 {
                Some(a) => r.1 is FetchIpv6 && r.0 == (State::AwaitIpv6 { config, v4: a }),
                None => r.0 is Done && r.1 == (Action::Exit {
                    code: 1,
                    failure: Some(Failure::Ipv4Lookup),
                }),
            },
            (State::AwaitIpv6 { config, v4 }, Event::Ipv6Fetched(v6)) => r.0 is AwaitTool && (
            r.1 matches Action::RunTool { program, script } && program@ == config.nsupdate@
                && script@ == script_text(transcript(config, v4@, opt_view(v6)))),
            (State::AwaitTool, Event::ToolExited(code)) => r.0 is Done && r.1 == (Action::Exit {
                code: tool_exit_code(code),
                failure: if code == Some(0i32) {
                    None
                } else {
                    Some(Failure::ToolFailed(code))
                },
            }),
            _ => false,
        },
{
    match (s, e) {
        (State::Start, Event::Configured(raw)) => match resolve_config(raw) {
            Ok(resolved) => (
                State::AwaitIpv4 { config: resolved.config, ttl_warning: resolved.ttl_warning },
                Action::FetchIpv4,
            ),
            Err(p) => (State::Done, Action::Exit { code: 1, failure: Some(Failure::MissingParam(p)) }),
        },
        (State::AwaitIpv4 { config, .. }, Event::Ipv4Fetched(v4)) => match v4 {
            Some(a) => (State::AwaitIpv6 { config, v4: a }, Action::FetchIpv6),
            None => (State::Done, Action::Exit { code: 1, failure: Some(Failure::Ipv4Lookup) }),
        },
        (State::AwaitIpv6 { config, v4 }, Event::Ipv6Fetched(v6)) => {
            let ips = PublicIps { v4, v6 };
            let script = build_transcript(&config, &ips);
            (State::AwaitTool, Action::RunTool { program: config.nsupdate, script })
        },
        (State::AwaitTool, Event::ToolExited(code)) => {
            let ok = match code {
                Some(c) => c == 0,
                None => false,
            };
            if ok {
                (State::Done, Action::Exit { code: 0, failure: None })
            } else {
                (State::Done, Action::Exit { code: 1, failure: Some(Failure::ToolFailed(code)) })
            }
        },
        _ => (State::Done, Action::Exit { code: 1, failure: None }),
    }
}

} // verus!
