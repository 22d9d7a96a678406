//! The LiveReload wire protocol: recognizing a handshake frame, building the
//! handshake reply and the reload command, and the per-connection session
//! discipline that ties them together.

use vstd::prelude::*;
use vstd::string::StrSliceExecFns;
use vstd::string::StringExecFns;

verus! {

/// `pat` occurs in `s` at position `i`.
pub open spec fn contains_at(s: Seq<char>, pat: Seq<char>, i: int) -> bool {
    0 <= i && i + pat.len() <= s.len() && s.subrange(i, i + pat.len() as int) == pat
}

/// `pat` occurs somewhere in `s`.
pub open spec fn contains_seq(s: Seq<char>, pat: Seq<char>) -> bool {
    exists|i: int| contains_at(s, pat, i)
}

/// The token whose presence in an inbound frame marks it as a handshake
/// request: the quoted word hello.
pub open spec fn hello_token() -> Seq<char> {
    "\"hello\""@
}

/// An inbound frame is a handshake request.
pub open spec fn is_handshake_spec(frame: Seq<char>) -> bool {
    contains_seq(frame, hello_token())
}

/// The fixed handshake reply, naming the supported protocol and the server.
pub open spec fn handshake_reply_spec() -> Seq<char> {
    "{\"command\":\"hello\",\"protocols\":[\"http://livereload.com/protocols/official-7\"],\"serverName\":\"devserve\"}"@
}

/// The reload command for `path`: a full-page refresh when `path` is the
/// forced-refresh sentinel, an asset swap otherwise.
pub open spec fn reload_message_spec(path: Seq<char>) -> Seq<char> {
    "{\"command\":\"reload\",\"path\":\""@ + path
        + "\",\"originalPath\":\"\",\"liveCSS\":true,\"liveImg\":true,\"protocol\":[\"http://livereload.com/protocols/official-7\"]}"@
}

/// `pat` occurs in `s`.
pub fn str_contains(s: &str, pat: &str) -> (r: bool)
    ensures
        r == contains_seq(s@, pat@),
{
    let n = s.unicode_len();
    let m = pat.unicode_len();
    if m > n {
        proof {
            assert(forall|i: int| !contains_at(s@, pat@, i));
        }
        return false;
    }
    if m == 0 {
        proof {
            assert(s@.subrange(0, 0) =~= pat@);
            assert(contains_at(s@, pat@, 0));
        }
        return true;
    }
    let mut i: usize = 0;
    while i <= n - m
        invariant
            0 < m <= n,
            n == s@.len(),
            m == pat@.len(),
            i <= n - m + 1,
            forall|j: int| 0 <= j < i ==> !contains_at(s@, pat@, j),
        decreases n - m + 1 - i,
    {
        let cand = s.substring_char(i, i + m);
        if crate::strutil::str_eq(cand, pat) {
            proof {
                assert(contains_at(s@, pat@, i as int));
            }
            return true;
        }
        proof {
            assert(!contains_at(s@, pat@, i as int));
        }
        i = i + 1;
    }
    proof {
        assert(forall|j: int| 0 <= j < i ==> !contains_at(s@, pat@, j));
        assert(forall|j: int| j >= i ==> !contains_at(s@, pat@, j));
    }
    false
}

/// Whether an inbound frame is a handshake request: it holds the quoted
/// hello token somewhere in its text.
pub fn is_handshake_frame(frame: &str) -> (r: bool)
    ensures
        r == is_handshake_spec(frame@),
{
    str_contains(frame, "\"hello\"")
}

/// The fixed handshake reply frame.
pub fn handshake_reply() -> (r: String)
    ensures
        r@ == handshake_reply_spec(),
{
    String::from_str(
        "{\"command\":\"hello\",\"protocols\":[\"http://livereload.com/protocols/official-7\"],\"serverName\":\"devserve\"}",
    )
}

/// The reload command frame carrying `path`.
pub fn reload_message(path: &str) -> (r: String)
    ensures
        r@ == reload_message_spec(path@),
{
    let mut m = String::from_str("{\"command\":\"reload\",\"path\":\"");
    m.append(path);
    m.append(
        "\",\"originalPath\":\"\",\"liveCSS\":true,\"liveImg\":true,\"protocol\":[\"http://livereload.com/protocols/official-7\"]}",
    );
    m
}

/// A reload command is never mistaken for the handshake reply, whatever path
/// it carries.
pub proof fn lemma_reload_not_handshake(path: Seq<char>)
    ensures
        reload_message_spec(path) != handshake_reply_spec(),
{
    reveal_strlit("{\"command\":\"reload\",\"path\":\"");
    reveal_strlit(
        "{\"command\":\"hello\",\"protocols\":[\"http://livereload.com/protocols/official-7\"],\"serverName\":\"devserve\"}",
    );
    let pre = "{\"command\":\"reload\",\"path\":\""@;
    if reload_message_spec(path) == handshake_reply_spec() {
        assert(reload_message_spec(path)[12] == pre[12]);
        assert(handshake_reply_spec()[12] == 'h');
    }
}

/// One event seen by a connection: an inbound client frame, or a reload
/// message handed to the broadcaster.
pub enum ConnEvent {
    Inbound(String),
    Broadcast(String),
}

/// The frames a connection sends in answer to one event: exactly one
/// handshake reply for a handshake request, nothing for any other inbound
/// frame, and the broadcast message itself for a broadcast.
pub open spec fn event_outputs_spec(e: ConnEvent) -> Seq<Seq<char>> {
    match e {
        ConnEvent::Inbound(f) => if is_handshake_spec(f@) {
            seq![handshake_reply_spec()]
        } else {
            Seq::empty()
        },
        ConnEvent::Broadcast(m) => seq![m@],
    }
}

/// The frames a connection sends over a whole session, in event order.
pub open spec fn session_outputs_spec(events: Seq<ConnEvent>) -> Seq<Seq<char>>
    decreases events.len(),
{
    if events.len() == 0 {
        Seq::empty()
    } else {
        session_outputs_spec(events.drop_last()) + event_outputs_spec(events.last())
    }
}

/// Run a connection session over its events, producing the frames it sends,
/// in order.
pub fn session_outputs(events: &Vec<ConnEvent>) -> (out: Vec<String>)
    ensures
        out@.map_values(|s: String| s@) == session_outputs_spec(events@),
{
    let mut out: Vec<String> = Vec::new();
    let mut i: usize = 0;
    proof {
        assert(out@.map_values(|s: String| s@) =~= session_outputs_spec(events@.take(0)));
    }
    while i < events.len()
        invariant
            i <= events@.len(),
            out@.map_values(|s: String| s@) == session_outputs_spec(events@.take(i as int)),
        decreases events@.len() - i,
    {
        match &events[i] {
            ConnEvent::Inbound(f) => {
                if is_handshake_frame(f.as_str()) {
                    out.push(handshake_reply());
                }
            },
            ConnEvent::Broadcast(m) => {
                out.push(m.clone());
            },
        }
        proof {
            assert(events@.take(i + 1 as int).drop_last() =~= events@.take(i as int));
            assert(events@.take(i + 1 as int).last() == events@[i as int]);
            assert(out@.map_values(|s: String| s@) =~= session_outputs_spec(
                events@.take(i + 1 as int),
            ));
        }
        i = i + 1;
    }
    proof {
        assert(events@.take(i as int) =~= events@);
    }
    out
}

/// How many of a session's events are handshake requests.
pub open spec fn count_handshakes(events: Seq<ConnEvent>) -> int
    decreases events.len(),
{
    if events.len() == 0 {
        0
    } else {
        count_handshakes(events.drop_last()) + (match events.last() {
            ConnEvent::Inbound(f) => if is_handshake_spec(f@) {
                1int
            } else {
                0
            },
            ConnEvent::Broadcast(_) => 0,
        })
    }
}

/// How many of the sent frames are the handshake reply.
pub open spec fn count_replies(outs: Seq<Seq<char>>) -> int
    decreases outs.len(),
{
    if outs.len() == 0 {
        0
    } else {
        count_replies(outs.drop_last()) + if outs.last() == handshake_reply_spec() {
            1int
        } else {
            0
        }
    }
}

/// Counting replies distributes over concatenation.
proof fn lemma_count_replies_concat(a: Seq<Seq<char>>, b: Seq<Seq<char>>)
    ensures
        count_replies(a + b) == count_replies(a) + count_replies(b),
    decreases b.len(),
{
    if b.len() == 0 {
        assert(a + b =~= a);
    } else {
        lemma_count_replies_concat(a, b.drop_last());
        assert((a + b).drop_last() =~= a + b.drop_last());
        assert((a + b).last() == b.last());
    }
}

/// Every handshake request is answered by exactly one handshake reply: over
/// any session whose broadcast messages are genuine reload frames (never the
/// handshake reply itself), the replies sent and the handshake requests
/// received agree in number.
pub proof fn lemma_one_reply_per_handshake(events: Seq<ConnEvent>)
    requires
        forall|i: int| 0 <= i < events.len() ==> ((#[trigger] events[i]) matches
            ConnEvent::Broadcast(m) ==> m@ != handshake_reply_spec()),
    ensures
        count_replies(session_outputs_spec(events)) == count_handshakes(events),
    decreases events.len(),
{
    if events.len() > 0 {
        assert(forall|i: int| 0 <= i < events.drop_last().len()
            ==> events.drop_last()[i] == events[i]);
        lemma_one_reply_per_handshake(events.drop_last());
        lemma_count_replies_concat(
            session_outputs_spec(events.drop_last()),
            event_outputs_spec(events.last()),
        );
        assert(events.last() == events[events.len() - 1]);
        match events.last() {
            ConnEvent::Inbound(f) => {
                if is_handshake_spec(f@) {
                    lemma_count_replies_single(handshake_reply_spec());
                }
            },
            ConnEvent::Broadcast(m) => {
                lemma_count_replies_single(m@);
            },
        }
    }
}

/// Counting replies in a one-frame sequence.
proof fn lemma_count_replies_single(x: Seq<char>)
    ensures
        count_replies(seq![x]) == if x == handshake_reply_spec() {
            1int
        } else {
            0
        },
{
    assert(seq![x].drop_last() =~= Seq::<Seq<char>>::empty());
    assert(seq![x].last() == x);
    assert(count_replies(Seq::<Seq<char>>::empty()) == 0);
}

/// Broadcast frames reach the connection in the order the rebuilds behind
/// them completed: the frames sent once a broadcast is processed extend the
/// frames sent before it by exactly that message.
pub proof fn lemma_broadcast_in_order(events: Seq<ConnEvent>, i: int)
    requires
        0 <= i < events.len(),
        events[i] matches ConnEvent::Broadcast(m),
    ensures
        events[i] matches ConnEvent::Broadcast(m) ==> session_outputs_spec(events.take(i + 1))
            == session_outputs_spec(events.take(i)).push(m@),
{
    assert(events.take(i + 1).drop_last() =~= events.take(i));
    assert(events.take(i + 1).last() == events[i]);
    if let ConnEvent::Broadcast(m) = events[i] {
        assert(session_outputs_spec(events.take(i)) + event_outputs_spec(events[i])
            =~= session_outputs_spec(events.take(i)).push(m@));
    }
}

/// A handshake is answered on the spot: the frames sent once it is processed
/// extend the frames sent before it by exactly the handshake reply. The
/// reply therefore precedes everything sent for any later event — in
/// particular every reload frame broadcast after the handshake.
pub proof fn lemma_handshake_reply_immediate(events: Seq<ConnEvent>, i: int)
    requires
        0 <= i < events.len(),
        events[i] matches ConnEvent::Inbound(f) && is_handshake_spec(f@),
    ensures
        session_outputs_spec(events.take(i + 1)) == session_outputs_spec(events.take(i)).push(
            handshake_reply_spec(),
        ),
{
    assert(events.take(i + 1).drop_last() =~= events.take(i));
    assert(events.take(i + 1).last() == events[i]);
    assert(session_outputs_spec(events.take(i)) + event_outputs_spec(events[i])
        =~= session_outputs_spec(events.take(i)).push(handshake_reply_spec()));
}

} // verus!
