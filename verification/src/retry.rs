//! The retrying invoker: one provider call is a sequence of attempts, each
//! classified as success, fatal, or retryable, with exponential backoff
//! between attempts and a shared budget for transport failures, rate
//! limiting, server errors, undecodable bodies and contract-violating
//! replies. The machine here decides; the surrounding program performs the
//! request and the sleep.

use vstd::prelude::*;
use crate::provider::{Provider, UnifiedClient, UnifiedResponse, spec_parse_response};
use crate::validate::check_summary_spec;

verus! {

/// The default retry budget: a failing attempt is repeated at most this many
/// times.
pub const MAX_RETRIES: u32 = 6;

/// The backoff before the first retry, in milliseconds; it doubles with each
/// further retry.
pub const INITIAL_BACKOFF_MS: u64 = 1000;

pub open spec fn pow2(n: nat) -> nat
    decreases n,
{
    if n == 0 {
        1
    } else {
        2 * pow2((n - 1) as nat)
    }
}

proof fn lemma_pow2_le(a: nat, b: nat)
    requires
        a <= b,
    ensures
        pow2(a) <= pow2(b),
    decreases b,
{
    if a < b {
        lemma_pow2_le(a, (b - 1) as nat);
    }
}

proof fn lemma_pow2_49()
    ensures
        pow2(49) == 0x2000000000000,
{
    reveal_with_fuel(pow2, 50);
}

/// What one attempt at the provider produced: a transport-level failure, or
/// an HTTP response with its status and body.
pub enum ProviderEvent {
    Transport,
    Response { status: u16, body: String },
}

/// How a chat terminally fails. A client error other than rate limiting is
/// fatal at once; the other variants report an exhausted retry budget and
/// what the last attempt looked like.
#[derive(Debug)]
#[allow(inconsistent_fields)]
pub enum ChatError {
    /// An HTTP client error other than 429: no retry.
    NonRetriable { status: u16, body: String },
    /// Budget exhausted; the last reply decoded but violated the contract.
    InvalidSummary,
    /// Budget exhausted; the last reply could not be decoded.
    Decode,
    /// Budget exhausted on a transport failure (`status` empty), rate limit
    /// or server error.
    Exhausted { status: Option<u16>, body: Option<String> },
}

/// What the machine does after one attempt: return the reply, fail for good,
/// or sleep this many milliseconds and try again.
pub enum ChatStep {
    Done(UnifiedResponse),
    Failed(ChatError),
    Backoff(u64),
}

/// The retry bookkeeping owned by one in-flight call.
pub struct RetryState {
    pub retries: u32,
    pub max_retries: u32,
    pub backoff_ms: u64,
}

impl RetryState {
    /// The backoff always equals the initial backoff doubled once per retry
    /// made, and the budget is small enough that it cannot overflow.
    pub open spec fn wf(&self) -> bool {
        &&& self.retries <= self.max_retries
        &&& self.max_retries <= 50
        &&& self.backoff_ms == INITIAL_BACKOFF_MS * pow2(self.retries as nat)
    }

    /// A fresh state with the given budget.
    pub fn new(max_retries: u32) -> (r: RetryState)
        requires
            max_retries <= 50,
        ensures
            r.wf(),
            r.retries == 0,
            r.max_retries == max_retries,
            r.backoff_ms == INITIAL_BACKOFF_MS,
    {
        RetryState { retries: 0, max_retries, backoff_ms: INITIAL_BACKOFF_MS }
    }
}

pub open spec fn is_http_success(status: u16) -> bool {
    200 <= status < 300
}

pub open spec fn is_server_error(status: u16) -> bool {
    500 <= status < 600
}

/// The reply text when the attempt succeeds: a success status whose body
/// decodes and whose text meets the file's contract (which diff mode does
/// not ask for).
pub open spec fn spec_event_success(
    p: Provider,
    path: Seq<char>,
    diff_only: bool,
    e: ProviderEvent,
) -> Option<Seq<char>> {
    match e {
        ProviderEvent::Transport => None,
        ProviderEvent::Response { status, body } => {
            if is_http_success(status) {
                match spec_parse_response(p, body@) {
                    Some(content) => if diff_only || check_summary_spec(path, content) {
                        Some(content)
                    } else {
                        None
                    },
                    None => None,
                }
            } else {
                None
            }
        },
    }
}

/// A definitive client error other than rate limiting: fatal, no retry.
pub open spec fn spec_event_fatal(e: ProviderEvent) -> bool {
    match e {
        ProviderEvent::Transport => false,
        ProviderEvent::Response { status, body } => !is_http_success(status) && !is_server_error(
            status,
        ) && status != 429,
    }
}

/// The error reported when the budget runs out on this attempt.
pub open spec fn spec_exhaust_error(
    p: Provider,
    path: Seq<char>,
    diff_only: bool,
    e: ProviderEvent,
) -> ChatError {
    match e {
        ProviderEvent::Transport => ChatError::Exhausted { status: None, body: None },
        ProviderEvent::Response { status, body } => {
            if is_http_success(status) {
                match spec_parse_response(p, body@) {
                    Some(_) => ChatError::InvalidSummary,
                    None => ChatError::Decode,
                }
            } else {
                ChatError::Exhausted { status: Some(status), body: Some(body) }
            }
        },
    }
}

impl UnifiedClient {
    /// Advances one in-flight call by one attempt: classifies the event and
    /// either returns the reply, fails for good, or charges the budget and
    /// schedules the next attempt after the current backoff.
    pub fn chat_step(
        &self,
        state: &mut RetryState,
        event: &ProviderEvent,
        file_path: &str,
        diff_only: bool,
    ) -> (r: ChatStep)
        requires
            old(state).wf(),
        ensures
            final(state).wf(),
            final(state).max_retries == old(state).max_retries,
            ({
                let succ = spec_event_success(self.provider, file_path@, diff_only, *event);
                match r {
                    ChatStep::Done(u) => succ == Some(u.content@) && *final(state) == *old(state),
                    ChatStep::Failed(err) => {
                        &&& succ is None
                        &&& *final(state) == *old(state)
                        &&& if spec_event_fatal(*event) {
                            err == spec_fatal_error(*event)
                        } else {
                            &&& old(state).retries >= old(state).max_retries
                            &&& err == spec_exhaust_error(
                                self.provider,
                                file_path@,
                                diff_only,
                                *event,
                            )
                        }
                    },
                    ChatStep::Backoff(ms) => {
                        &&& succ is None
                        &&& !spec_event_fatal(*event)
                        &&& old(state).retries < old(state).max_retries
                        &&& ms == old(state).backoff_ms
                        &&& final(state).retries == old(state).retries + 1
                        &&& final(state).backoff_ms == 2 * old(state).backoff_ms
                    },
                }
            }),
    {
        match event {
            ProviderEvent::Transport => self.retry_or_fail(state, event, file_path, diff_only),
            ProviderEvent::Response { status, body } => {
                let st = *status;
                if 200 <= st && st < 300 {
                    match self.parse_response(body.as_str()) {
                        Ok(parsed) => {
                            let ok = diff_only || crate::validate::check_summary(
                                file_path,
                                parsed.content.as_str(),
                            );
                            if ok {
                                ChatStep::Done(parsed)
                            } else {
                                self.retry_or_fail(state, event, file_path, diff_only)
                            }
                        },
                        Err(_) => self.retry_or_fail(state, event, file_path, diff_only),
                    }
                } else if !(500 <= st && st < 600) && st != 429 {
                    ChatStep::Failed(
                        ChatError::NonRetriable { status: st, body: body.clone() },
                    )
                } else {
                    self.retry_or_fail(state, event, file_path, diff_only)
                }
            },
        }
    }

    /// Charges the budget for a retryable outcome: schedules a backoff, or
    /// fails with the error describing the exhausted attempt.
    fn retry_or_fail(
        &self,
        state: &mut RetryState,
        event: &ProviderEvent,
        file_path: &str,
        diff_only: bool,
    ) -> (r: ChatStep)
        requires
            old(state).wf(),
            spec_event_success(self.provider, file_path@, diff_only, *event) is None,
            !spec_event_fatal(*event),
        ensures
            final(state).wf(),
            final(state).max_retries == old(state).max_retries,
            match r {
                ChatStep::Failed(err) => old(state).retries >= old(state).max_retries
                    && *final(state) == *old(state) && err == spec_exhaust_error(
                    self.provider,
                    file_path@,
                    diff_only,
                    *event,
                ),
                ChatStep::Backoff(ms) => {
                    &&& old(state).retries < old(state).max_retries
                    &&& ms == old(state).backoff_ms
                    &&& final(state).retries == old(state).retries + 1
                    &&& final(state).backoff_ms == 2 * old(state).backoff_ms
                },
                ChatStep::Done(_) => false,
            },
    {
        if state.retries >= state.max_retries {
            match event {
                ProviderEvent::Transport => ChatStep::Failed(
                    ChatError::Exhausted { status: None, body: None },
                ),
                ProviderEvent::Response { status, body } => {
                    let st = *status;
                    if 200 <= st && st < 300 {
                        match self.parse_response(body.as_str()) {
                            Ok(_) => ChatStep::Failed(ChatError::InvalidSummary),
                            Err(_) => ChatStep::Failed(ChatError::Decode),
                        }
                    } else {
                        ChatStep::Failed(
                            ChatError::Exhausted { status: Some(st), body: Some(body.clone()) },
                        )
                    }
                },
            }
        } else {
            proof {
                lemma_pow2_le(state.retries as nat, 49);
                lemma_pow2_49();
            }
            let ms = state.backoff_ms;
            state.retries = state.retries + 1;
            state.backoff_ms = state.backoff_ms * 2;
            ChatStep::Backoff(ms)
        }
    }
}

/// The fatal error for a definitive client error.
pub open spec fn spec_fatal_error(e: ProviderEvent) -> ChatError {
    match e {
        ProviderEvent::Transport => ChatError::Exhausted { status: None, body: None },
        ProviderEvent::Response { status, body } => ChatError::NonRetriable { status, body },
    }
}

/// What a whole call does on a given sequence of attempt outcomes: the
/// terminal result if one is reached (`None` when the scripted events run
/// out first), and the backoff sleeps taken along the way.
pub open spec fn spec_run_chat(
    p: Provider,
    path: Seq<char>,
    diff_only: bool,
    events: Seq<ProviderEvent>,
    st: RetryState,
) -> (Option<Result<Seq<char>, ChatError>>, Seq<u64>)
    decreases events.len(),
{
    if events.len() == 0 {
        (None, Seq::<u64>::empty())
    } else {
        let e = events[0];
        match spec_event_success(p, path, diff_only, e) {
            Some(c) => (Some(Ok(c)), Seq::<u64>::empty()),
            None => {
                if spec_event_fatal(e) {
                    (Some(Err(spec_fatal_error(e))), Seq::<u64>::empty())
                } else if st.retries >= st.max_retries {
                    (Some(Err(spec_exhaust_error(p, path, diff_only, e))), Seq::<u64>::empty())
                } else {
                    let next = RetryState {
                        retries: (st.retries + 1) as u32,
                        max_retries: st.max_retries,
                        backoff_ms: (st.backoff_ms * 2) as u64,
                    };
                    let rec = spec_run_chat(p, path, diff_only, events.drop_first(), next);
                    (rec.0, seq![st.backoff_ms] + rec.1)
                }
            },
        }
    }
}

/// An attempt whose reply arrives with a success status and decodes, but
/// violates the file's comment contract.
pub open spec fn is_contract_violation(p: Provider, path: Seq<char>, e: ProviderEvent) -> bool {
    match e {
        ProviderEvent::Transport => false,
        ProviderEvent::Response { status, body } => {
            &&& is_http_success(status)
            &&& spec_parse_response(p, body@) is Some
            &&& !check_summary_spec(path, spec_parse_response(p, body@).unwrap())
        },
    }
}

/// A provider that always returns a contract-violating reply costs exactly
/// one attempt more than the retry budget: the call consumes
/// `max_retries - retries + 1` attempts, sleeps the doubling backoffs
/// between them, and fails with the invalid-summary error.
pub proof fn lemma_contract_violations_exhaust_budget(
    p: Provider,
    path: Seq<char>,
    events: Seq<ProviderEvent>,
    st: RetryState,
)
    requires
        st.wf(),
        events.len() >= st.max_retries - st.retries + 1,
        forall|i: int| 0 <= i < events.len() ==> is_contract_violation(p, path, #[trigger] events[i]),
    ensures
        ({
            let r = spec_run_chat(p, path, false, events, st);
            &&& r.0 == Some(Result::<Seq<char>, ChatError>::Err(ChatError::InvalidSummary))
            &&& r.1.len() == st.max_retries - st.retries
            &&& forall|j: int| 0 <= j < r.1.len() ==> r.1[j] == st.backoff_ms * pow2(j as nat)
        }),
    decreases st.max_retries - st.retries,
{
    let e = events[0];
    assert(spec_event_success(p, path, false, e) is None);
    assert(!spec_event_fatal(e));
    if st.retries >= st.max_retries {
        assert(spec_exhaust_error(p, path, false, e) == ChatError::InvalidSummary);
    } else {
        lemma_pow2_le(st.retries as nat, 49);
        lemma_pow2_49();
        let next = RetryState {
            retries: (st.retries + 1) as u32,
            max_retries: st.max_retries,
            backoff_ms: (st.backoff_ms * 2) as u64,
        };
        assert(pow2((st.retries + 1) as nat) == 2 * pow2(st.retries as nat));
        assert(next.wf());
        let rest = events.drop_first();
        assert forall|i: int| 0 <= i < rest.len() implies is_contract_violation(
            p,
            path,
            #[trigger] rest[i],
        ) by {
            assert(rest[i] == events[i + 1]);
        }
        lemma_contract_violations_exhaust_budget(p, path, rest, next);
        let r = spec_run_chat(p, path, false, events, st);
        let rec = spec_run_chat(p, path, false, rest, next);
        assert(r.1 == seq![st.backoff_ms] + rec.1);
        assert forall|j: int| 0 <= j < r.1.len() implies r.1[j] == st.backoff_ms * pow2(j as nat)
            by {
            if j == 0 {
                assert(pow2(0) == 1);
                assert(r.1[0] == st.backoff_ms);
            } else {
                assert(r.1[j] == rec.1[j - 1]);
                assert(rec.1[j - 1] == next.backoff_ms * pow2((j - 1) as nat));
                assert(pow2(j as nat) == 2 * pow2((j - 1) as nat));
                assert((st.backoff_ms * 2) * pow2((j - 1) as nat) == st.backoff_ms * (2 * pow2(
                    (j - 1) as nat,
                ))) by (nonlinear_arith);
            }
        }
    }
}

/// A rate-limited response followed by a success whose body meets the
/// contract: the call succeeds after exactly one retry, with one backoff
/// sleep at the current backoff.
pub proof fn lemma_rate_limit_then_success(
    p: Provider,
    path: Seq<char>,
    e1: ProviderEvent,
    e2: ProviderEvent,
    st: RetryState,
)
    requires
        st.wf(),
        st.retries < st.max_retries,
        e1 matches ProviderEvent::Response { status: 429u16, body: _ },
        spec_event_success(p, path, false, e2) is Some,
    ensures
        ({
            let r = spec_run_chat(p, path, false, seq![e1, e2], st);
            &&& r.0 == Some(
                Result::<Seq<char>, ChatError>::Ok(
                    spec_event_success(p, path, false, e2).unwrap(),
                ),
            )
            &&& r.1 == seq![st.backoff_ms]
        }),
{
    let events = seq![e1, e2];
    assert(events[0] == e1);
    assert(spec_event_success(p, path, false, e1) is None);
    assert(!spec_event_fatal(e1));
    lemma_pow2_le(st.retries as nat, 49);
    lemma_pow2_49();
    let next = RetryState {
        retries: (st.retries + 1) as u32,
        max_retries: st.max_retries,
        backoff_ms: (st.backoff_ms * 2) as u64,
    };
    let rest = events.drop_first();
    assert(rest =~= seq![e2]);
    assert(rest[0] == e2);
    let rec = spec_run_chat(p, path, false, rest, next);
    assert(rec.0 == Some(
        Result::<Seq<char>, ChatError>::Ok(spec_event_success(p, path, false, e2).unwrap()),
    ));
    assert(seq![st.backoff_ms] + rec.1 =~= seq![st.backoff_ms]);
}

/// The decimal digit characters of `n`.
pub open spec fn dec_spec(n: nat) -> Seq<char>
    decreases n,
{
    if n < 10 {
        seq![digit_char(n)]
    } else {
        dec_spec(n / 10) + seq![digit_char(n % 10)]
    }
}

pub open spec fn digit_char(d: nat) -> char {
    if d == 0 {
        '0'
    } else if d == 1 {
        '1'
    } else if d == 2 {
        '2'
    } else if d == 3 {
        '3'
    } else if d == 4 {
        '4'
    } else if d == 5 {
        '5'
    } else if d == 6 {
        '6'
    } else if d == 7 {
        '7'
    } else if d == 8 {
        '8'
    } else {
        '9'
    }
}

/// Appends the decimal rendering of `n`.
fn push_dec(v: &mut Vec<char>, n: u64)
    ensures
        final(v)@ == old(v)@ + dec_spec(n as nat),
    decreases n,
{
    if n < 10 {
        let d: char = match n {
            0 => '0',
            1 => '1',
            2 => '2',
            3 => '3',
            4 => '4',
            5 => '5',
            6 => '6',
            7 => '7',
            8 => '8',
            _ => '9',
        };
        v.push(d);
        proof {
            assert(old(v)@ + dec_spec(n as nat) =~= old(v)@.push(digit_char(n as nat)));
        }
    } else {
        push_dec(v, n / 10);
        let d: char = match n % 10 {
            0 => '0',
            1 => '1',
            2 => '2',
            3 => '3',
            4 => '4',
            5 => '5',
            6 => '6',
            7 => '7',
            8 => '8',
            _ => '9',
        };
        v.push(d);
        proof {
            assert(old(v)@ + dec_spec(n as nat) =~= (old(v)@ + dec_spec((n as nat) / 10)).push(
                digit_char((n as nat) % 10),
            ));
        }
    }
}

/// The message a chat failure is reported with.
pub open spec fn spec_error_message(e: ChatError) -> Seq<char> {
    match e {
        ChatError::NonRetriable { status, body } => {
            "API request failed with non-retriable error: "@ + body@
        },
        ChatError::InvalidSummary => {
            "Max retries exceeded. Could not generate valid summary format"@
        },
        ChatError::Decode => "Max retries exceeded. Could not parse response"@,
        ChatError::Exhausted { status, body } => {
            "Max retries exceeded. Last error: "@ + (match status {
                Some(st) => dec_spec(st as nat),
                None => "transport failure"@,
            }) + (match body {
                Some(b) => seq![' '] + b@,
                None => Seq::<char>::empty(),
            })
        },
    }
}

impl ChatError {
    /// Renders the failure as its report message.
    pub fn message(&self) -> (r: String)
        ensures
            r@ == spec_error_message(*self),
    {
        match self {
            ChatError::NonRetriable { status, body } => {
                let mut msg = crate::text::chars_of(
                    "API request failed with non-retriable error: ",
                );
                crate::text::append_str(&mut msg, body.as_str());
                crate::text::string_of(msg.as_slice())
            },
            ChatError::InvalidSummary => {
                String::from_str("Max retries exceeded. Could not generate valid summary format")
            },
            ChatError::Decode => {
                String::from_str("Max retries exceeded. Could not parse response")
            },
            ChatError::Exhausted { status, body } => {
                let mut msg = crate::text::chars_of("Max retries exceeded. Last error: ");
                match status {
                    Some(st) => {
                        push_dec(&mut msg, *st as u64);
                    },
                    None => {
                        crate::text::append_str(&mut msg, "transport failure");
                    },
                }
                match body {
                    Some(b) => {
                        msg.push(' ');
                        crate::text::append_str(&mut msg, b.as_str());
                    },
                    None => {},
                }
                proof {
                    assert(msg@ =~= spec_error_message(*self));
                }
                crate::text::string_of(msg.as_slice())
            },
        }
    }
}

impl UnifiedClient {
    /// Runs the whole retry loop over a scripted sequence of attempt
    /// outcomes: the pure core of one provider call, with the backoff sleeps
    /// it would take recorded instead of slept.
    pub fn run_chat(
        &self,
        events: &Vec<ProviderEvent>,
        file_path: &str,
        diff_only: bool,
        max_retries: u32,
    ) -> (r: (Option<Result<UnifiedResponse, ChatError>>, Vec<u64>))
        requires
            max_retries <= 50,
        ensures
            ({
                let spec = spec_run_chat(
                    self.provider,
                    file_path@,
                    diff_only,
                    events@,
                    RetryState { retries: 0, max_retries, backoff_ms: INITIAL_BACKOFF_MS },
                );
                &&& r.1@ == spec.1
                &&& match r.0 {
                    None => spec.0 is None,
                    Some(Ok(u)) => spec.0 == Some(Result::<Seq<char>, ChatError>::Ok(u.content@)),
                    Some(Err(err)) => spec.0 == Some(Result::<Seq<char>, ChatError>::Err(err)),
                }
            }),
    {
        let mut state = RetryState::new(max_retries);
        let ghost st0 = state;
        let mut sleeps: Vec<u64> = Vec::new();
        let mut i: usize = 0;
        proof {
            assert(events@.skip(0) =~= events@);
        }
        while i < events.len()
            invariant
                st0 == (RetryState { retries: 0u32, max_retries, backoff_ms: INITIAL_BACKOFF_MS }),
                state.wf(),
                i <= events@.len(),
                spec_run_chat(self.provider, file_path@, diff_only, events@, st0) == ({
                    let rec = spec_run_chat(
                        self.provider,
                        file_path@,
                        diff_only,
                        events@.skip(i as int),
                        state,
                    );
                    (rec.0, sleeps@ + rec.1)
                }),
            decreases events@.len() - i,
        {
            let ghost pre_state = state;
            let step = self.chat_step(&mut state, &events[i], file_path, diff_only);
            proof {
                assert(events@.skip(i as int)[0] == events@[i as int]);
                assert(events@.skip(i as int).drop_first() =~= events@.skip(i as int + 1));
            }
            match step {
                ChatStep::Done(u) => {
                    proof {
                        let ev = events@.skip(i as int);
                        assert(ev[0] == events@[i as int]);
                        assert(spec_run_chat(self.provider, file_path@, diff_only, ev, state)
                            == (Some(Result::<Seq<char>, ChatError>::Ok(u.content@)), Seq::<
                            u64,
                        >::empty()));
                        assert(sleeps@ + Seq::<u64>::empty() =~= sleeps@);
                    }
                    return (Some(Ok(u)), sleeps);
                },
                ChatStep::Failed(err) => {
                    proof {
                        let ev = events@.skip(i as int);
                        assert(ev[0] == events@[i as int]);
                        assert(spec_run_chat(self.provider, file_path@, diff_only, ev, state)
                            == (Some(Result::<Seq<char>, ChatError>::Err(err)), Seq::<
                            u64,
                        >::empty()));
                        assert(sleeps@ + Seq::<u64>::empty() =~= sleeps@);
                    }
                    return (Some(Err(err)), sleeps);
                },
                ChatStep::Backoff(ms) => {
                    let ghost old_sleeps = sleeps@;
                    sleeps.push(ms);
                    i = i + 1;
                    proof {
                        let rec = spec_run_chat(
                            self.provider,
                            file_path@,
                            diff_only,
                            events@.skip(i as int),
                            state,
                        );
                        assert(old_sleeps + (seq![ms] + rec.1) =~= sleeps@ + rec.1);
                    }
                },
            }
        }
        proof {
            assert(events@.skip(events@.len() as int) =~= Seq::<ProviderEvent>::empty());
            assert(sleeps@ + Seq::<u64>::empty() =~= sleeps@);
        }
        (None, sleeps)
    }
}

} // verus!
