//! What holds of the engine as a whole: statements about every session,
//! every delivery and every round of deliveries, proved from the
//! definitions of their steps.
use vstd::prelude::*;
use vstd::string::*;
use crate::client_handler::{
    address_after, body_step, client_step, parse, react, request_of, send_body, session_step,
    Progress, Session, SessionState,
};
use crate::config::Policy;
use crate::error::Fault;
use crate::mail::{fan_out, group_orders, Letter, Order};
use crate::send_mail::{record, record_all, step, Cause, Demand, Phase, Round, Run, Signal};
use crate::smtp::{strip_brackets, terminator, Command};
use crate::stream::{first_line, line_feed};
use crate::text::{
    is_space, join, lemma_join_pieces, lemma_run_back, lemma_run_back_bounds, lemma_run_front,
    lemma_run_front_bounds, lemma_seek_bounds, occurs, pieces, run_back, run_front, seek, trim,
    trim_back, trim_front, upper_all, CharClass,
};

verus! {

/// The table of the session: which state can follow which. A peer that has
/// connected stays a stranger or becomes known. An idle session stays as it
/// is, takes a sender with no recipient yet, or makes the peer a stranger
/// again. A session with a sender stays as it is, takes one more recipient
/// at the end, or waits for the body with the envelope as it stands. A
/// session that waits for a body goes on waiting or is idle again under the
/// same name.
pub open spec fn follows(before: SessionState, after: SessionState) -> bool {
    match before {
        SessionState::Connected => after is Connected || after is Idle,
        SessionState::Idle { foreign_host } => {
            ||| after == before
            ||| after is Connected
            ||| after matches SessionState::MailFrom { foreign_host: host, recipients, .. }
                && host == foreign_host && recipients.len() == 0
        },
        SessionState::MailFrom { foreign_host, sender, recipients } => {
            ||| after == before
            ||| after matches SessionState::MailFrom { foreign_host: h, sender: s, recipients: r }
                && h == foreign_host && s == sender && r.len() == recipients.len() + 1
                && r.drop_last() == recipients
            ||| after == (SessionState::ReceivingData { foreign_host, sender, recipients })
        },
        SessionState::ReceivingData { foreign_host, .. } => {
            ||| after == before
            ||| after == (SessionState::Idle { foreign_host })
        },
    }
}

/// Whatever comes in, a step takes a session from its state to one that the
/// table allows, and a step that ends in an error leaves the state as it
/// was.
pub proof fn law_steps_follow_the_table(session: Session, policy: Policy)
    ensures
        follows(session.state, session_step(session, policy).0.state),
        follows(session.state, client_step(session, policy).0.state),
        session_step(session, policy).1 is Err ==> session_step(session, policy).0.state
            == session.state,
        client_step(session, policy).1 is Err ==> client_step(session, policy).0.state
            == session.state,
{
    match session.state {
        SessionState::MailFrom { foreign_host, sender, recipients } => {
            let after = session_step(session, policy).0.state;
            if after is MailFrom && after != session.state {
                assert(after->MailFrom_recipients.drop_last() =~= recipients);
            }
        },
        _ => {},
    }
}

/// The states that a session passes through when it is fed one piece of
/// input after another and takes one step after each: the state at the
/// start, then the state after each step.
pub open spec fn visited(session: Session, feeds: Seq<Seq<u8>>, policy: Policy) -> Seq<
    SessionState,
>
    decreases feeds.len(),
{
    if feeds.len() == 0 {
        seq![session.state]
    } else {
        let fed = Session { inbound: session.inbound + feeds[0], ..session };
        seq![session.state] + visited(client_step(fed, policy).0, feeds.drop_first(), policy)
    }
}

/// Whatever a peer sends, in whatever pieces, the session passes only
/// through states that follow one another by the table.
pub proof fn law_sessions_follow_the_table(session: Session, feeds: Seq<Seq<u8>>, policy: Policy)
    ensures
        visited(session, feeds, policy).len() == feeds.len() + 1,
        visited(session, feeds, policy)[0] == session.state,
        forall|i: int|
            0 <= i < feeds.len() ==> follows(
                #[trigger] visited(session, feeds, policy)[i],
                visited(session, feeds, policy)[i + 1],
            ),
    decreases feeds.len(),
{
    if feeds.len() > 0 {
        let fed = Session { inbound: session.inbound + feeds[0], ..session };
        let next = client_step(fed, policy).0;
        law_steps_follow_the_table(fed, policy);
        law_sessions_follow_the_table(next, feeds.drop_first(), policy);
        let rest = visited(next, feeds.drop_first(), policy);
        let all = visited(session, feeds, policy);
        assert forall|i: int| 0 <= i < feeds.len() implies follows(#[trigger] all[i], all[i + 1]) by {
            if i > 0 {
                assert(all[i] == rest[i - 1]);
                assert(all[i + 1] == rest[i]);
            } else {
                assert(all[1] == rest[0]);
            }
        }
    }
}

/// A step reads from the front of what has come in and adds to the end of
/// what is to go out: no byte that has come in is lost or read twice, and
/// no byte that was queued is taken back. That holds of the step that moves
/// the session under TLS as of any other.
pub proof fn law_steps_keep_the_buffers(session: Session, policy: Policy)
    ensures
        exists|k: int|
            0 <= k <= session.inbound.len() && #[trigger] session.inbound.skip(k) == client_step(
                session,
                policy,
            ).0.inbound,
        session.outbound.is_prefix_of(client_step(session, policy).0.outbound),
{
    let next = client_step(session, policy).0;
    let inner = session_step(session, policy).0;
    assert(next.inbound == inner.inbound);
    match session.state {
        SessionState::ReceivingData { .. } => {
            let k = seek(session.inbound, terminator()) as int;
            if k + 5 > session.inbound.len() {
                assert(session.inbound.skip(0) =~= session.inbound);
            } else {
                assert(session.inbound.skip(k + 5) == next.inbound);
            }
        },
        _ => {
            match first_line(session.inbound) {
                None => {
                    assert(session.inbound.skip(0) =~= session.inbound);
                },
                Some(line) => {
                    lemma_seek_bounds(session.inbound, line_feed());
                    assert(session.inbound.skip(line.len() as int) == next.inbound);
                },
            }
        },
    }
    assert(session.outbound.is_prefix_of(inner.outbound)) by {
        assert(inner.outbound.subrange(0, session.outbound.len() as int) =~= session.outbound);
    }
    assert(inner.outbound.is_prefix_of(next.outbound)) by {
        assert(next.outbound.subrange(0, inner.outbound.len() as int) =~= inner.outbound);
    }
    assert(next.outbound.subrange(0, session.outbound.len() as int) =~= session.outbound);
}

/// The arguments of a line are what follows its verb, no more and no less:
/// put together again with a space between them, they are the line from
/// behind the white space that ends the verb.
pub proof fn law_arguments_are_the_rest(line: Seq<char>)
    requires
        parse(line) is Some,
    ensures
        ({
            let t = trim(line);
            let k = run_front(t, CharClass::NotSpace) as int;
            let parsed = parse(line)->0;
            &&& 0 < k <= t.len()
            &&& parsed.command == upper_all(t.subrange(0, k))
            &&& k < t.len() ==> join(parsed.args, seq![' ']) == t.subrange(k + 1, t.len() as int)
            &&& k == t.len() ==> parsed.args.len() == 0
        }),
{
    let t = trim(line);
    let k = run_front(t, CharClass::NotSpace) as int;
    lemma_run_front_bounds(t, CharClass::NotSpace);
    let front = trim_front(line, CharClass::Space);
    lemma_run_front_bounds(line, CharClass::Space);
    lemma_run_back_bounds(front, CharClass::Space);
    assert(t[0] == front[0]);
    assert(front[0] == line[run_front(line, CharClass::Space) as int]);
    assert(!is_space(t[0]));
    if k < t.len() {
        lemma_join_pieces(t.subrange(k + 1, t.len() as int), seq![' ']);
    } else {
        assert(t.subrange(0, k) =~= t);
    }
}

proof fn lemma_trim_keeps_clean(s: Seq<char>, front: CharClass, back: CharClass, c: char)
    requires
        !s.contains(c),
    ensures
        !trim_back(trim_front(s, front), back).contains(c),
{
    lemma_run_front_bounds(s, front);
    let f = trim_front(s, front);
    lemma_run_back_bounds(f, back);
    let t = trim_back(f, back);
    if t.contains(c) {
        let i = choose|i: int| 0 <= i < t.len() && t[i] == c;
        assert(t[i] == f[i]);
        assert(f[i] == s[i + run_front(s, front)]);
    }
}

proof fn lemma_first_piece_is_clean(s: Seq<char>, c: char)
    ensures
        pieces(s, seq![c]).len() > 0,
        !pieces(s, seq![c])[0].contains(c),
{
    let pat = seq![c];
    let k = seek(s, pat) as int;
    lemma_seek_bounds(s, pat);
    let first = pieces(s, pat)[0];
    if first.contains(c) {
        let i = choose|i: int| 0 <= i < first.len() && first[i] == c;
        assert(first[i] == s[i]);
        assert(i < k);
        assert(s.subrange(i, i + 1) =~= pat);
        assert(occurs(s, pat, i));
    }
}

/// An address that is read behind a prefix holds no space.
pub proof fn lemma_address_is_clean(rest: Seq<char>, prefix: Seq<char>)
    ensures
        address_after(rest, prefix) matches Some(address) ==> !address.contains(' '),
{
    if occurs(rest, prefix, 0) {
        let tail = trim(rest.skip(prefix.len() as int));
        let end = run_front(tail, CharClass::IsNot(' ')) as int;
        lemma_run_front_bounds(tail, CharClass::IsNot(' '));
        let token = tail.subrange(0, end);
        if token.contains(' ') {
            let i = choose|i: int| 0 <= i < token.len() && token[i] == ' ';
            assert(token[i] == tail[i]);
        }
        lemma_trim_keeps_clean(token, CharClass::Is('<'), CharClass::Is('>'), ' ');
    }
}

/// No address that a line yields holds a space, and no host: a host is one
/// argument, and arguments are what stands between spaces; an address ends
/// at the first space.
pub proof fn law_addresses_hold_no_space(line: Seq<char>)
    ensures
        match request_of(line) {
            Ok(Command::Mail { from }) => !from.contains(' '),
            Ok(Command::Rcpt { to }) => !to.contains(' '),
            Ok(Command::Helo { host }) => !host.contains(' '),
            Ok(Command::Ehlo { host }) => !host.contains(' '),
            _ => true,
        },
{
    if parse(line) is Some {
        let parsed = parse(line)->0;
        let t = trim(line);
        let k = run_front(t, CharClass::NotSpace) as int;
        let rest = join(parsed.args, " "@);
        lemma_address_is_clean(rest, "FROM:"@);
        lemma_address_is_clean(rest, "TO:"@);
        if parsed.args.len() > 0 {
            lemma_first_piece_is_clean(t.subrange(k + 1, t.len() as int), ' ');
        }
    }
}

/// Where what follows the prefix holds no space once the white space around
/// it is gone, the address is all of it, without its angle brackets: white
/// space between the prefix and the address does no harm.
pub proof fn law_address_without_space_is_whole(rest: Seq<char>, prefix: Seq<char>)
    requires
        occurs(rest, prefix, 0),
        !trim(rest.skip(prefix.len() as int)).contains(' '),
    ensures
        address_after(rest, prefix) == Some(
            strip_brackets(trim(rest.skip(prefix.len() as int))),
        ),
{
    let tail = trim(rest.skip(prefix.len() as int));
    assert forall|j: int| 0 <= j < tail.len() implies CharClass::IsNot(' ').has(
        #[trigger] tail[j],
    ) by {
        if tail[j] == ' ' {
            assert(tail.contains(' '));
        }
    }
    lemma_run_front(tail, CharClass::IsNot(' '), tail.len() as int);
    assert(tail.subrange(0, tail.len() as int) =~= tail);
}

/// Once a sender is named, `DATA` announces the body whatever the number of
/// recipients, none included: the session waits for the body with the
/// envelope as it stands.
pub proof fn law_data_needs_no_recipient(
    foreign_host: Seq<char>,
    sender: Seq<char>,
    recipients: Seq<Seq<char>>,
    secure: bool,
)
    ensures
        react(
            SessionState::MailFrom { foreign_host, sender, recipients },
            secure,
            Command::Data,
        ).next == (SessionState::ReceivingData { foreign_host, sender, recipients }),
        react(
            SessionState::MailFrom { foreign_host, sender, recipients },
            secure,
            Command::Data,
        ).result == Ok::<Progress, Fault>(Progress::Continue),
        react(
            SessionState::MailFrom { foreign_host, sender, recipients },
            secure,
            Command::Data,
        ).reply == send_body().bytes(),
{
}

/// `STARTTLS` works once. The first moves the session under TLS and makes
/// the peer a stranger; when the peer has said who it is again, a second is
/// refused as a misuse and changes nothing: not the state, not the layer,
/// and nothing is queued.
pub proof fn law_starttls_once(first_host: Seq<char>, second_host: Seq<char>)
    ensures
        ({
            let first = react(
                SessionState::Idle { foreign_host: first_host },
                false,
                Command::StartTls,
            );
            let second = react(
                SessionState::Idle { foreign_host: second_host },
                first.secure,
                Command::StartTls,
            );
            &&& first.result == Ok::<Progress, Fault>(Progress::Upgrade)
            &&& first.secure
            &&& first.next is Connected
            &&& second.result == Err::<Progress, Fault>(Fault::ProtocolMisuse)
            &&& second.next == (SessionState::Idle { foreign_host: second_host })
            &&& second.secure == first.secure
            &&& second.reply == Seq::<u8>::empty()
        }),
{
}

/// A session under TLS stays under TLS, whatever the command, and
/// `STARTTLS` is refused in every state.
pub proof fn law_tls_is_kept(state: SessionState, command: Command)
    ensures
        react(state, true, command).secure,
        react(state, true, Command::StartTls).result is Err,
        react(state, true, Command::StartTls).next == state,
{
}

/// A round serves every member, whatever comes of the deliveries: after as
/// many outcomes as there are members, every member has had its turn.
pub proof fn law_group_serves_all(round: Round, outcomes: Seq<bool>)
    requires
        round.attempted == 0,
        outcomes.len() <= round.members.len(),
    ensures
        record_all(round, outcomes).attempted == outcomes.len(),
        record_all(round, outcomes).members == round.members,
        record_all(round, outcomes).failures.len() <= round.failures.len() + outcomes.len(),
    decreases outcomes.len(),
{
    if outcomes.len() > 0 {
        law_group_serves_all(round, outcomes.drop_last());
    }
}

/// Where the delivery to one member fails and all the others succeed, every
/// member has had its turn and the one failure is noted, against that
/// member.
pub proof fn law_group_notes_one_failure(round: Round, outcomes: Seq<bool>, failed: int)
    requires
        round.attempted == 0,
        round.failures.len() == 0,
        outcomes.len() == round.members.len(),
        0 <= failed < outcomes.len(),
        forall|i: int| 0 <= i < outcomes.len() ==> (outcomes[i] <==> i != failed),
    ensures
        record_all(round, outcomes).attempted == round.members.len(),
        record_all(round, outcomes).failures == seq![round.members[failed]],
{
    lemma_one_failure(round, outcomes, failed, outcomes.len() as int);
    assert(outcomes.take(outcomes.len() as int) =~= outcomes);
}

proof fn lemma_one_failure(round: Round, outcomes: Seq<bool>, failed: int, n: int)
    requires
        round.attempted == 0,
        round.failures.len() == 0,
        outcomes.len() == round.members.len(),
        0 <= failed < outcomes.len(),
        forall|i: int| 0 <= i < outcomes.len() ==> (outcomes[i] <==> i != failed),
        0 <= n <= outcomes.len(),
    ensures
        record_all(round, outcomes.take(n)).attempted == n,
        record_all(round, outcomes.take(n)).members == round.members,
        record_all(round, outcomes.take(n)).failures == if n > failed {
            seq![round.members[failed]]
        } else {
            Seq::<Seq<char>>::empty()
        },
    decreases n,
{
    if n > 0 {
        lemma_one_failure(round, outcomes, failed, n - 1);
        assert(outcomes.take(n).drop_last() =~= outcomes.take(n - 1));
        let before = record_all(round, outcomes.take(n - 1));
        let after = record(before, outcomes.take(n).last());
        assert(outcomes.take(n).last() == outcomes[n - 1]);
        if n - 1 == failed {
            assert(after.failures =~= seq![round.members[failed]]);
        }
    } else {
        assert(record_all(round, outcomes.take(0)).failures =~= Seq::<Seq<char>>::empty());
    }
}

/// An address without its angle brackets has none left to lose: taking
/// them off a second time changes nothing.
pub proof fn law_strip_once_is_enough(address: Seq<char>)
    ensures
        strip_brackets(strip_brackets(address)) == strip_brackets(address),
{
    let open = CharClass::Is('<');
    let close = CharClass::Is('>');
    let front = trim_front(address, open);
    let bare = trim_back(front, close);
    lemma_run_front_bounds(address, open);
    lemma_run_back_bounds(front, close);
    if bare.len() > 0 {
        assert(bare[0] == front[0]);
        assert(front[0] == address[run_front(address, open) as int]);
        assert(bare.last() == front[front.len() - run_back(front, close) - 1]);
    }
    lemma_run_front(bare, open, 0);
    assert(trim_front(bare, open) =~= bare);
    lemma_run_back(bare, close, 0);
    assert(trim_back(bare, close) =~= bare);
}

/// The message that a session hands on bears the envelope of the session,
/// as it stands: the sender and the recipients are those that the session
/// took. What is done with the message names no address that the envelope
/// does not hold: a relay goes to the first recipient in the name of the
/// sender, a group order bears a recipient's address.
pub proof fn law_envelope_is_handed_on(session: Session, policy: Policy)
    requires
        session.state is ReceivingData,
        body_step(session, policy).2 is Some,
    ensures
        ({
            let letter = body_step(session, policy).2->0;
            &&& letter.from == session.state->ReceivingData_sender
            &&& letter.to == session.state->ReceivingData_recipients
            &&& match fan_out(letter, policy) {
                Some(plan) => forall|i: int|
                    0 <= i < plan.len() ==> match #[trigger] plan[i] {
                        Order::Forward { to, from, .. } => letter.to.len() > 0 && to == letter.to[0]
                            && from == letter.from,
                        Order::Group { from, .. } => letter.to.contains(from),
                    },
                None => true,
            }
        }),
{
    let letter = body_step(session, policy).2->0;
    lemma_group_orders(letter.to, policy);
}

proof fn lemma_group_orders(to: Seq<Seq<char>>, policy: Policy)
    ensures
        forall|i: int|
            0 <= i < group_orders(to, policy.lists).len() ==> (#[trigger] group_orders(
                to,
                policy.lists,
            )[i] matches Order::Group { from, .. } && to.contains(from)),
    decreases to.len(),
{
    if to.len() > 0 {
        lemma_group_orders(to.drop_last(), policy);
        let before = group_orders(to.drop_last(), policy.lists);
        let all = group_orders(to, policy.lists);
        assert forall|i: int| 0 <= i < all.len() implies (#[trigger] all[i] matches Order::Group {
            from,
            ..
        } && to.contains(from)) by {
            if i < before.len() {
                let from = before[i]->Group_from;
                assert(to.drop_last().contains(from));
                let at = choose|at: int| 0 <= at < to.drop_last().len() && to.drop_last()[at] == from;
                assert(to[at] == from);
            } else {
                assert(to[to.len() - 1] == to.last());
            }
        }
    }
}

/// A message is relayed only where it is for no list: a plan is made of
/// group orders alone, or of one relay and nothing else.
pub proof fn law_relay_only_without_lists(letter: Letter, policy: Policy)
    ensures
        match fan_out(letter, policy) {
            Some(plan) => {
                ||| forall|i: int| 0 <= i < plan.len() ==> #[trigger] plan[i] is Group
                ||| plan.len() == 1 && plan[0] is Forward && group_orders(
                    letter.to,
                    policy.lists,
                ).len() == 0
            },
            None => group_orders(letter.to, policy.lists).len() == 0,
        },
{
    lemma_group_orders(letter.to, policy);
}

/// `QUIT` ends a session that is idle, and no other: in any other state it
/// is refused like any command that is out of place.
pub proof fn law_quit_ends_an_idle_session_only(state: SessionState, secure: bool)
    ensures
        react(state, secure, Command::Quit).result == Err::<Progress, Fault>(Fault::Quit)
            <==> state is Idle,
        react(state, secure, Command::Quit).next == state,
{
}

/// The demands of a delivery in answer to a run of signals, one for each.
pub open spec fn demands(run: Run, signals: Seq<Signal>) -> Seq<Demand>
    decreases signals.len(),
{
    if signals.len() == 0 {
        Seq::empty()
    } else {
        seq![step(run, signals[0]).1] + demands(step(run, signals[0]).0, signals.drop_first())
    }
}

/// How far a phase is along the way of a delivery.
pub open spec fn rank(phase: Phase) -> nat {
    match phase {
        Phase::Start => 0,
        Phase::Literal => 1,
        Phase::Exchange => 1,
        Phase::Address => 2,
        Phase::Connect => 3,
        Phase::Greeting => 4,
        Phase::Hello => 5,
        Phase::StartTls => 6,
        Phase::Handshake => 7,
        Phase::SecureHello => 8,
        Phase::Ready => 9,
        Phase::MailFrom => 10,
        Phase::RcptTo => 11,
        Phase::Data => 12,
        Phase::Payload => 13,
        Phase::Done => 14,
        Phase::Failed(_) => 15,
    }
}

/// How many of the demands ask for a connection.
pub open spec fn connections(demands: Seq<Demand>) -> nat
    decreases demands.len(),
{
    if demands.len() == 0 {
        0
    } else if demands[0] is Connect {
        1 + connections(demands.drop_first())
    } else {
        connections(demands.drop_first())
    }
}

/// A delivery never goes back: each step leaves it where it is or takes it
/// further along. It asks for a connection only on the step that takes it
/// to the phase that waits for one; once under TLS it stays there; and it
/// comes to wait for the reply to the body only from waiting for the reply
/// to `DATA`.
pub proof fn law_delivery_moves_forward(run: Run, signal: Signal)
    ensures
        rank(step(run, signal).0.phase) >= rank(run.phase),
        step(run, signal).1 is Connect ==> rank(run.phase) < rank(Phase::Connect) && step(
            run,
            signal,
        ).0.phase == Phase::Connect,
        run.secure ==> step(run, signal).0.secure,
        step(run, signal).0.phase == Phase::Payload ==> run.phase == Phase::Data || run.phase
            == Phase::Payload,
{
}

/// Nothing is tried twice: whatever a delivery is told, it asks for a
/// connection once at most, and not at all once it has asked or has gone
/// past asking.
pub proof fn law_connects_at_most_once(run: Run, signals: Seq<Signal>)
    ensures
        connections(demands(run, signals)) <= 1,
        rank(run.phase) >= rank(Phase::Connect) ==> connections(demands(run, signals)) == 0,
    decreases signals.len(),
{
    if signals.len() > 0 {
        let next = step(run, signals[0]).0;
        law_delivery_moves_forward(run, signals[0]);
        law_connects_at_most_once(next, signals.drop_first());
        let all = demands(run, signals);
        assert(all.drop_first() =~= demands(next, signals.drop_first()));
        assert(all[0] == step(run, signals[0]).1);
    }
}

/// A delivery that has failed stays failed: whatever it is told, it says
/// again that it has ended so, and asks for nothing.
pub proof fn law_failure_is_final(run: Run, cause: Cause, signals: Seq<Signal>)
    requires
        run.phase == Phase::Failed(cause),
    ensures
        demands(run, signals).len() == signals.len(),
        forall|i: int|
            0 <= i < signals.len() ==> #[trigger] demands(run, signals)[i] == Demand::Finish(
                Err(cause),
            ),
    decreases signals.len(),
{
    if signals.len() > 0 {
        law_failure_is_final(run, cause, signals.drop_first());
        let rest = demands(step(run, signals[0]).0, signals.drop_first());
        assert forall|i: int| 0 <= i < signals.len() implies #[trigger] demands(run, signals)[i]
            == Demand::Finish(Err(cause)) by {
            if i > 0 {
                assert(demands(run, signals)[i] == rest[i - 1]);
            }
        }
    }
}

/// A domain without mail exchanger gets no connection: the delivery that
/// waits for the exchangers and is told that there are none fails as
/// `InvalidMail`, and neither then nor at any later time asks to connect.
pub proof fn law_no_exchanger_no_connection(run: Run, later: Seq<Signal>)
    requires
        run.phase == Phase::Exchange,
    ensures
        ({
            let signals = seq![Signal::Exchanges(Seq::empty())] + later;
            &&& step(run, Signal::Exchanges(Seq::empty())).0.phase == Phase::Failed(
                Cause::InvalidMail,
            )
            &&& demands(run, signals).len() == signals.len()
            &&& forall|i: int|
                0 <= i < signals.len() ==> #[trigger] demands(run, signals)[i] == Demand::Finish(
                    Err(Cause::InvalidMail),
                )
            &&& connections(demands(run, signals)) == 0
        }),
{
    let none = Signal::Exchanges(Seq::empty());
    lemma_no_connection(run, seq![none] + later);
    let signals = seq![none] + later;
    let failed = step(run, none).0;
    assert(signals.drop_first() =~= later);
    law_failure_is_final(failed, Cause::InvalidMail, later);
    assert forall|i: int| 0 <= i < signals.len() implies #[trigger] demands(run, signals)[i]
        == Demand::Finish(Err(Cause::InvalidMail)) by {
        if i > 0 {
            assert(demands(run, signals)[i] == demands(failed, later)[i - 1]);
        }
    }
}

proof fn lemma_no_connection(run: Run, signals: Seq<Signal>)
    requires
        run.phase == Phase::Exchange,
        signals.len() > 0,
        signals[0] == Signal::Exchanges(Seq::empty()),
    ensures
        connections(demands(run, signals)) == 0,
{
    let failed = step(run, signals[0]).0;
    law_connects_at_most_once(failed, signals.drop_first());
    let all = demands(run, signals);
    assert(all.drop_first() =~= demands(failed, signals.drop_first()));
    assert(all[0] == step(run, signals[0]).1);
}

} // verus!
