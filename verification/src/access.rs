//! Who may use the dashboard: the bearer token check of its routes, the
//! origin check of its live-update socket, and the decisions of that socket.
use vstd::prelude::*;
use crate::text::{has_prefix, str_eq, to_chars, matches_at, push_chars};

verus! {

/// A request may use the dashboard when no token is configured, or when its
/// `Authorization` header reads `Bearer <token>` exactly.
pub open spec fn dashboard_access(expected: Option<Seq<char>>, authorization: Option<Seq<char>>) -> bool {
    match expected {
        None => true,
        Some(t) => match authorization {
            Some(h) => h == "Bearer "@ + t,
            None => false,
        },
    }
}

/// `s` with `p` removed from its start as often as it occurs there, as
/// `str::trim_start_matches` does with a non-empty pattern.
pub open spec fn strip_all_prefixes(s: Seq<char>, p: Seq<char>) -> Seq<char>
    decreases s.len(),
{
    if p.len() > 0 && has_prefix(s, p) {
        strip_all_prefixes(s.skip(p.len() as int), p)
    } else {
        s
    }
}

/// With no token configured the dashboard is open; with a token `t` a
/// request gets in exactly when its `Authorization` header is `Bearer t`,
/// so a missing header, another token or another scheme is turned away.
pub proof fn dashboard_admits_only_the_bearer_token(t: Seq<char>, authorization: Option<Seq<char>>)
    ensures
        dashboard_access(None, authorization),
        dashboard_access(Some(t), authorization) <==> (authorization matches Some(h) && h
            == "Bearer "@ + t),
        authorization is None ==> !dashboard_access(Some(t), authorization),
{
}

/// Whether a dashboard request is let through. `authorization` is the text
/// of the `Authorization` header, `None` where it is missing or not readable.
pub fn is_authorized(expected: Option<&str>, authorization: Option<&str>) -> (r: bool)
    ensures
        r == dashboard_access(
            match expected {
                Some(t) => Some(t@),
                None => None,
            },
            match authorization {
                Some(h) => Some(h@),
                None => None,
            },
        ),
{
    match expected {
        None => true,
        Some(token) => match authorization {
            None => false,
            Some(header) => {
                let v = to_chars(header);
                let prefix = to_chars("Bearer ");
                proof {
                    reveal_strlit("Bearer ");
                }
                if !matches_at(&v, 0, &prefix) {
                    proof {
                        if v@ == "Bearer "@ + token@ {
                            assert(v@.subrange(0, 7) =~= prefix@);
                        }
                    }
                    return false;
                }
                let mut rest = String::new();
                push_chars(&mut rest, &v, 7, v.len());
                let r = str_eq(rest.as_str(), token);
                proof {
                    assert(v@.subrange(0, 7) == prefix@);
                    if r {
                        assert(v@ =~= prefix@ + v@.subrange(7, v@.len() as int));
                    }
                    if v@ == "Bearer "@ + token@ {
                        assert(v@.subrange(7, v@.len() as int) =~= token@);
                    }
                }
                r
            },
        },
    }
}

fn strip_prefixes(v: &Vec<char>, p: &Vec<char>) -> (r: usize)
    requires
        p@.len() > 0,
    ensures
        r <= v@.len(),
        v@.skip(r as int) == strip_all_prefixes(v@, p@),
{
    let mut i: usize = 0;
    assert(v@.skip(0) =~= v@);
    while i <= v.len() && matches_at(v, i, p)
        invariant
            0 <= i <= v@.len(),
            p@.len() > 0,
            strip_all_prefixes(v@.skip(i as int), p@) == strip_all_prefixes(v@, p@),
        decreases v@.len() - i,
    {
        proof {
            let s = v@.skip(i as int);
            assert(s.take(p@.len() as int) =~= v@.subrange(i as int, i + p@.len()));
            assert(s.skip(p@.len() as int) =~= v@.skip(i + p@.len()));
        }
        i = i + p.len();
    }
    proof {
        let s = v@.skip(i as int);
        if has_prefix(s, p@) {
            assert(s.take(p@.len() as int) =~= v@.subrange(i as int, i + p@.len()));
        }
    }
    i
}

/// The origin check of the live-update socket: with a token configured, the
/// `Origin` header with its leading `https://` and then `http://` prefixes
/// removed must equal the `Host` header (an unreadable or missing `Host`
/// reads as empty); without a token every origin is accepted.
pub open spec fn origin_accepted(
    token_configured: bool,
    host: Option<Seq<char>>,
    origin: Option<Seq<char>>,
) -> bool {
    !token_configured || match origin {
        Some(o) => strip_all_prefixes(strip_all_prefixes(o, "https://"@), "http://"@) == match host {
            Some(h) => h,
            None => Seq::empty(),
        },
        None => false,
    }
}

/// Whether a socket upgrade is accepted; refused upgrades get 403.
pub fn origin_allowed(token_configured: bool, host: Option<&str>, origin: Option<&str>) -> (r: bool)
    ensures
        r == origin_accepted(
            token_configured,
            match host {
                Some(h) => Some(h@),
                None => None,
            },
            match origin {
                Some(o) => Some(o@),
                None => None,
            },
        ),
{
    if !token_configured {
        return true;
    }
    match origin {
        None => false,
        Some(o) => {
            let v = to_chars(o);
            let https = to_chars("https://");
            let http = to_chars("http://");
            proof {
                reveal_strlit("https://");
                reveal_strlit("http://");
            }
            let a = strip_prefixes(&v, &https);
            let mut rest: Vec<char> = Vec::new();
            let mut i = a;
            while i < v.len()
                invariant
                    a <= i <= v@.len(),
                    rest@ == v@.subrange(a as int, i as int),
                decreases v@.len() - i,
            {
                rest.push(v[i]);
                assert(rest@ =~= v@.subrange(a as int, i + 1));
                i = i + 1;
            }
            assert(rest@ =~= v@.skip(a as int));
            let b = strip_prefixes(&rest, &http);
            let mut bare = String::new();
            push_chars(&mut bare, &rest, b, rest.len());
            assert(rest@.subrange(b as int, rest@.len() as int) =~= rest@.skip(b as int));
            let host_text: &str = match host {
                Some(h) => h,
                None => "",
            };
            proof {
                reveal_strlit("");
                assert(""@ =~= Seq::<char>::empty());
            }
            str_eq(bare.as_str(), host_text)
        },
    }
}

/// What happened while the live-update socket waits.
#[derive(Clone, Copy, PartialEq, Eq, Structural)]
pub enum SocketEvent {
    /// A logged transaction arrived on the broadcast channel and parsed.
    Transaction,
    /// A broadcast message arrived that is not valid JSON.
    UnreadableTransaction,
    /// The socket fell behind the broadcast channel and missed messages.
    Lagged,
    /// The broadcast channel closed.
    ChannelClosed,
    /// The client closed the socket, or its stream ended.
    ClientClosed,
    /// The client sent some other message.
    ClientMessage,
    /// Sending a card to the client failed.
    SendFailed,
}

/// What the socket does next.
#[derive(Clone, Copy, PartialEq, Eq, Structural)]
pub enum SocketAction {
    /// Send the new transaction's card to the client and keep waiting.
    SendCard,
    /// Keep waiting.
    Wait,
    /// Close the connection.
    Stop,
}

/// The socket stops on a closed channel, a closed client or a failed send;
/// it sends a card for each readable transaction and otherwise waits.
pub open spec fn socket_step_spec(event: SocketEvent) -> SocketAction {
    match event {
        SocketEvent::Transaction => SocketAction::SendCard,
        SocketEvent::UnreadableTransaction => SocketAction::Wait,
        SocketEvent::Lagged => SocketAction::Wait,
        SocketEvent::ChannelClosed => SocketAction::Stop,
        SocketEvent::ClientClosed => SocketAction::Stop,
        SocketEvent::ClientMessage => SocketAction::Wait,
        SocketEvent::SendFailed => SocketAction::Stop,
    }
}

/// The socket's next action after an event.
pub fn socket_step(event: SocketEvent) -> (r: SocketAction)
    ensures
        r == socket_step_spec(event),
{
    match event {
        SocketEvent::Transaction => SocketAction::SendCard,
        SocketEvent::UnreadableTransaction => SocketAction::Wait,
        SocketEvent::Lagged => SocketAction::Wait,
        SocketEvent::ChannelClosed => SocketAction::Stop,
        SocketEvent::ClientClosed => SocketAction::Stop,
        SocketEvent::ClientMessage => SocketAction::Wait,
        SocketEvent::SendFailed => SocketAction::Stop,
    }
}

} // verus!
