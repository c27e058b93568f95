//! What holds of hosted calls, from the request to the counters.
use crate::error::{Failure, SystemOneError};
use crate::jev::{
    all_digits, batch_bounds, batch_failure, client_failure, digits_value, endpoint_failure,
    header_view, kind_matches, measured_texts, response_matches, unsigned_part, url_parts,
    whole_number, JevAction, JevCall, JevClient, JevEvent, JevStats, DEFAULT_ENDPOINT,
};
use crate::table::{has_key, lookup, place};
use crate::text::texts;
use crate::text_laws::{blank_texts_hold_white_space_alone, value_of, white_space};
use crate::tokens::{encodes_all, encoding, joined};
use crate::tokens_laws::{counts_agree, token_count};
use crate::types::{
    described, Answer, ChoiceCriteria, Question, SystemOneRequest, SystemOneResponse,
};
use tokenizers::Tokenizer;
use vstd::prelude::*;

verus! {

/// The answer is a choice to a choice, a score to a score and a probability to
/// a statement.
pub open spec fn answers_in_kind(q: Question, a: Answer) -> bool {
    ||| q is Choice && a is Choice
    ||| q is Score && a is Score
    ||| q is Noul && a is Noul
}

/// Some answer under the name of question `k` is of the kind it asks for.
pub open spec fn question_answered(
    request: &SystemOneRequest,
    response: &SystemOneResponse,
    k: int,
) -> bool {
    exists|j: int|
        0 <= j < response.answers@.len() && (#[trigger] response.answers@[j]).0
            == request.questions@[k].0 && answers_in_kind(
            request.questions@[k].1,
            response.answers@[j].1,
        )
}

/// A response is accepted where it names a model and has as many answers as
/// there are questions, one in kind under the name of each. It is then handed
/// on as it is and counted as a success. Any other is refused, and nothing is
/// counted.
pub proof fn responses_are_accepted_by_model_and_answers(
    call: JevCall,
    request: &SystemOneRequest,
    response: SystemOneResponse,
    before: JevStats,
    action: JevAction,
    next: JevCall,
    after: JevStats,
)
    requires
        response.answers.wf(),
        call.receives(request, JevEvent::Body(Some(response)), before, action, next, after),
    ensures
        ({
            let fits = {
                &&& response.model@ != Seq::<char>::empty()
                &&& response.answers@.len() == request.questions@.len()
                &&& forall|k: int|
                    0 <= k < request.questions@.len() ==> #[trigger] question_answered(
                        request,
                        &response,
                        k,
                    )
            };
            &&& fits ==> action == JevAction::Finish(response) && after == (JevStats {
                successes: before.successes.wrapping_add(1),
                calls: before.calls,
                attempts: before.attempts,
                retries: before.retries,
                questions: before.questions,
            })
            &&& !fits ==> action is Fail && action->Fail_0@ == Failure::Remote(
                "response answers do not match request questions"@,
            ) && after == before
        }),
        next.attempt == call.attempt,
        next.model == call.model,
{
    response.answers.keys_are_distinct();
    let entries = response.answers@;
    assert forall|k: int| 0 <= k < request.questions@.len() implies (#[trigger] question_answered(
        request,
        &response,
        k,
    ) <==> has_key(entries, request.questions@[k].0) && kind_matches(
        &request.questions@[k].1,
        &lookup(entries, request.questions@[k].0),
    )) by {
        let key = request.questions@[k].0;
        if has_key(entries, key) {
            let p = place(entries, key);
            assert(entries[p].0 == key);
            if question_answered(request, &response, k) {
                let j = choose|j: int|
                    0 <= j < entries.len() && (#[trigger] entries[j]).0 == key && answers_in_kind(
                        request.questions@[k].1,
                        entries[j].1,
                    );
                assert(j == p);
            }
        }
    }
    if response_matches(request, &response) {
        assert forall|k: int| 0 <= k < request.questions@.len() implies #[trigger] question_answered(
            request,
            &response,
            k,
        ) by {
            assert(has_key(entries, request.questions@[k].0));
        }
        assert(response.model@ != Seq::<char>::empty());
    } else if response.model@ != Seq::<char>::empty() && entries.len() == request.questions@.len() {
        assert(response.model@.len() > 0) by {
            if response.model@.len() == 0 {
                assert(response.model@ =~= Seq::<char>::empty());
            }
        }
        let k = choose|k: int|
            0 <= k < request.questions@.len() && !(has_key(
                entries,
                (#[trigger] request.questions@[k]).0,
            ) && kind_matches(
                &request.questions@[k].1,
                &lookup(entries, request.questions@[k].0),
            ));
        assert(!question_answered(request, &response, k));
    }
}

/// What a response says of its cost has no part in whether it is accepted:
/// two responses with the same model name and the same answers are treated
/// alike.
pub proof fn usage_does_not_decide(
    call: JevCall,
    request: &SystemOneRequest,
    one: SystemOneResponse,
    other: SystemOneResponse,
    before: JevStats,
    action: JevAction,
    next: JevCall,
    after: JevStats,
    other_action: JevAction,
    other_next: JevCall,
    other_after: JevStats,
)
    requires
        one.model@ == other.model@,
        one.answers@ == other.answers@,
        call.receives(request, JevEvent::Body(Some(one)), before, action, next, after),
        call.receives(
            request,
            JevEvent::Body(Some(other)),
            before,
            other_action,
            other_next,
            other_after,
        ),
    ensures
        action is Finish <==> other_action is Finish,
        action is Fail <==> other_action is Fail,
        action is Finish ==> action->Finish_0 == one && other_action->Finish_0 == other,
        after == other_after,
{
}

/// The digits of a whole number: what is left of it without a plus sign.
pub open spec fn digits_of(text: Seq<char>) -> Seq<char> {
    if text.len() > 0 && text[0] == '+' {
        text.subrange(1, text.len() as int)
    } else {
        text
    }
}

/// The text is a whole number that fits in 64 bits.
pub open spec fn is_whole(text: Seq<char>) -> bool {
    let digits = digits_of(text);
    &&& digits.len() > 0
    &&& forall|i: int| 0 <= i < digits.len() ==> '0' <= #[trigger] digits[i] <= '9'
    &&& value_of(digits) < 0x1_0000_0000_0000_0000
}

proof fn digit_values_agree(s: Seq<char>)
    ensures
        digits_value(s) == value_of(s),
    decreases s.len(),
{
    if s.len() > 0 {
        digit_values_agree(s.drop_last());
    }
}

/// Whole numbers are read as the numbers they stand for, and nothing else is
/// read as one.
pub proof fn whole_numbers_are_read_as_written(text: Seq<char>)
    ensures
        whole_number(text) is Some <==> is_whole(text),
        whole_number(text) matches Some(n) ==> n == value_of(digits_of(text)),
{
    assert(unsigned_part(text) =~= digits_of(text));
    digit_values_agree(digits_of(text));
}

/// How long the server asks to wait, in seconds: its number where it gives
/// one, else one second after the first attempt and two after the second.
pub open spec fn asked_to_wait(attempt: int, retry_after: Option<String>) -> int {
    match retry_after {
        Some(text) => if is_whole(text@) {
            value_of(digits_of(text@)) as int
        } else if attempt == 0 {
            1
        } else {
            2
        },
        None => if attempt == 0 {
            1
        } else {
            2
        },
    }
}

/// A busy status (429, 503 or 529) on the first or second of three attempts is
/// retried after the wait that the server asks for, unless that is longer than
/// a minute; the retry is counted. Any other status of success leads to the
/// body. What is left fails with the status, and nothing is counted.
pub proof fn busy_statuses_are_retried(
    call: JevCall,
    request: &SystemOneRequest,
    status: u16,
    retry_after: Option<String>,
    before: JevStats,
    action: JevAction,
    next: JevCall,
    after: JevStats,
)
    requires
        call.receives(
            request,
            JevEvent::Status { status, retry_after },
            before,
            action,
            next,
            after,
        ),
    ensures
        ({
            let busy = status == 429 || status == 503 || status == 529;
            let wait = asked_to_wait(call.attempt as int, retry_after);
            if busy && call.attempt <= 1 && wait <= 60 {
                &&& action is Wait
                &&& action->Wait_0 == wait
                &&& next.attempt == call.attempt + 1
                &&& after == (JevStats {
                    retries: before.retries.wrapping_add(1),
                    calls: before.calls,
                    attempts: before.attempts,
                    successes: before.successes,
                    questions: before.questions,
                })
            } else {
                &&& next.attempt == call.attempt
                &&& after == before
                &&& status / 100 == 2 ==> action is Read
                &&& status / 100 != 2 ==> action is Fail && action->Fail_0@ == Failure::HttpStatus(
                    status,
                )
            }
        }),
        next.model == call.model,
{
    if let Some(text) = retry_after {
        whole_numbers_are_read_as_written(text@);
    }
    assert(header_view(retry_after) == match retry_after {
        Some(t) => Some(t@),
        None => None,
    });
}

/// Without a response, and without a body that parses, the call fails at once
/// and nothing is counted.
pub proof fn lost_responses_fail(
    call: JevCall,
    request: &SystemOneRequest,
    event: JevEvent,
    before: JevStats,
    action: JevAction,
    next: JevCall,
    after: JevStats,
)
    requires
        call.receives(request, event, before, action, next, after),
        event is Unreachable || event == JevEvent::Body(None),
    ensures
        action is Fail,
        event is Unreachable ==> action->Fail_0@ == Failure::Remote(
            "HTTP connection or timeout failure"@,
        ),
        event is Body ==> action->Fail_0@ == Failure::Remote("invalid response JSON"@),
        after == before,
        next.attempt == call.attempt,
{
}

/// A call is sent with the client's model, whatever model the request names,
/// and is counted once with all its questions. A request without questions is
/// refused, and nothing is counted.
pub proof fn calls_go_to_the_clients_model(
    client: &JevClient,
    request: &SystemOneRequest,
    before: JevStats,
    after: JevStats,
    result: Result<JevCall, SystemOneError>,
)
    requires
        client.starts(request, before, after, result),
    ensures
        result is Err <==> request.questions@.len() == 0,
        result matches Ok(call) ==> {
            &&& call.model@ == client.model@
            &&& call.attempt == 0
            &&& after.calls == before.calls.wrapping_add(1)
            &&& after.questions == before.questions.wrapping_add(
                request.questions@.len() as usize,
            )
            &&& after.attempts == before.attempts
            &&& after.retries == before.retries
            &&& after.successes == before.successes
        },
        result matches Err(e) ==> e@ == Failure::Config("Jev requires at least one question"@)
            && after == before,
{
}

/// Every attempt is counted, and nothing else is with it.
pub proof fn attempts_are_counted(before: JevStats, after: JevStats)
    requires
        JevCall::counts(before, after),
    ensures
        after.attempts == before.attempts.wrapping_add(1),
        after.calls == before.calls,
        after.retries == before.retries,
        after.successes == before.successes,
        after.questions == before.questions,
{
}

/// Batch `k` holds as many requests as may be sent at a time, from number `k`
/// times that many on; the last one holds what is left.
pub proof fn batches_take_requests_in_turn(from: nat, n: nat, size: nat, k: int)
    requires
        size > 0,
        from <= n <= usize::MAX,
        0 <= k < batch_bounds(from, n, size).len(),
    ensures
        batch_bounds(from, n, size)[k].0 == from + k * size,
        batch_bounds(from, n, size)[k].0 < n,
        batch_bounds(from, n, size)[k].1 == if from + (k + 1) * size <= n {
            from + (k + 1) * size
        } else {
            n as int
        },
        batch_bounds(from, n, size).last().1 == n,
    decreases n - from,
{
    let to = if n - from <= size {
        n
    } else {
        from + size
    };
    let all = batch_bounds(from, n, size);
    let rest = batch_bounds(to, n, size);
    assert(all == seq![(from as usize, to as usize)] + rest);
    assert(all[0] == (from as usize, to as usize));
    assert(0 * size == 0 && 1 * size == size);
    if rest.len() > 0 {
        batches_take_requests_in_turn(to, n, size, 0);
        assert(all.last() == rest.last());
    } else {
        assert(to == n) by {
            if to < n {
                assert(batch_bounds(to, n, size).len() > 0);
            }
        }
    }
    if k > 0 {
        batches_take_requests_in_turn(to, n, size, k - 1);
        assert(all[k] == rest[k - 1]);
        assert(k * size == (k - 1) * size + size) by (nonlinear_arith);
        assert((k + 1) * size == k * size + size) by (nonlinear_arith);
        assert(to == from + size);
    }
}

/// No request is left out of the batches.
pub proof fn batches_leave_no_request_out(from: nat, n: nat, size: nat)
    requires
        size > 0,
        from <= n <= usize::MAX,
    ensures
        batch_bounds(from, n, size).len() == 0 <==> from == n,
        batch_bounds(from, n, size).len() * size >= n - from,
    decreases n - from,
{
    if from < n {
        let to = if n - from <= size {
            n
        } else {
            from + size
        };
        batches_leave_no_request_out(to, n, size);
        let m = batch_bounds(to, n, size).len();
        assert(batch_bounds(from, n, size).len() == m + 1);
        assert((m + 1) * size == m * size + size) by (nonlinear_arith);
        assert(m * size >= 0);
    }
}

/// The failure of a batch is its first: every call before it succeeded. There
/// is none where every call succeeded.
pub proof fn the_first_failure_decides(
    outcomes: Seq<Option<Result<SystemOneResponse, SystemOneError>>>,
)
    ensures
        batch_failure(outcomes) is None <==> forall|i: int|
            0 <= i < outcomes.len() ==> (#[trigger] outcomes[i]) is Some && outcomes[i]->0 is Ok,
        batch_failure(outcomes) matches Some(failure) ==> exists|i: int|
            {
                &&& 0 <= i < outcomes.len()
                &&& match #[trigger] outcomes[i] {
                    None => failure == Failure::Remote("HTTP worker panicked"@),
                    Some(Err(e)) => failure == e@,
                    Some(Ok(_)) => false,
                }
                &&& forall|j: int|
                    0 <= j < i ==> (#[trigger] outcomes[j]) is Some && outcomes[j]->0 is Ok
            },
    decreases outcomes.len(),
{
    if outcomes.len() > 0 {
        let rest = outcomes.drop_last();
        let n = rest.len() as int;
        the_first_failure_decides(rest);
        if let Some(failure) = batch_failure(rest) {
            let i = choose|i: int|
                {
                    &&& 0 <= i < rest.len()
                    &&& match #[trigger] rest[i] {
                        None => failure == Failure::Remote("HTTP worker panicked"@),
                        Some(Err(e)) => failure == e@,
                        Some(Ok(_)) => false,
                    }
                    &&& forall|j: int|
                        0 <= j < i ==> (#[trigger] rest[j]) is Some && rest[j]->0 is Ok
                };
            assert(outcomes[i] == rest[i]);
            assert forall|j: int| 0 <= j < i implies (#[trigger] outcomes[j]) is Some
                && outcomes[j]->0 is Ok by {
                assert(rest[j] is Some);
            }
        } else {
            assert forall|j: int| 0 <= j < n implies (#[trigger] outcomes[j]) is Some
                && outcomes[j]->0 is Ok by {
                assert(rest[j] is Some);
            }
            assert(outcomes[n] == outcomes.last());
        }
    }
}

/// The text of an option: what the caller says of it, or its label.
pub open spec fn option_text(q: &Question, k: int) -> Seq<char> {
    match q {
        Question::Choice(c) => match c.criteria {
            ChoiceCriteria::Labels(labels) => labels@[k]@,
            ChoiceCriteria::Labelled(options) => match options@[k].description {
                Some(d) => d.text@,
                None => options@[k].label@,
            },
        },
        Question::Score(s) => s.criteria@[k].text@,
        Question::Noul(n) => match n.criteria {
            Some(c) => match if k == 0 {
                c.yes
            } else {
                c.no
            } {
                Some(d) => d.text@,
                None => if k == 0 {
                    "true"@
                } else {
                    "false"@
                },
            },
            None => if k == 0 {
                "true"@
            } else {
                "false"@
            },
        },
    }
}

/// How many options a question has.
pub open spec fn option_count(q: &Question) -> nat {
    match q {
        Question::Choice(c) => match c.criteria {
            ChoiceCriteria::Labels(labels) => labels@.len(),
            ChoiceCriteria::Labelled(options) => options@.len(),
        },
        Question::Score(s) => s.criteria@.len(),
        Question::Noul(_) => 2,
    }
}

/// A question is measured by its instructions and by the text of every option.
pub proof fn questions_are_measured_whole(q: &Question)
    ensures
        measured_texts(q).len() == option_count(q) + 1,
        q matches Question::Choice(c) ==> measured_texts(q)[0] == c.instructions.text@,
        q matches Question::Score(s) ==> measured_texts(q)[0] == s.instructions.text@,
        q matches Question::Noul(n) ==> measured_texts(q)[0] == n.instructions.text@,
        forall|k: int|
            0 <= k < option_count(q) ==> #[trigger] measured_texts(q)[k + 1] == option_text(q, k),
{
    assert forall|k: int| 0 <= k < option_count(q) implies #[trigger] measured_texts(q)[k + 1]
        == option_text(q, k) by {
        assert(measured_texts(q)[k + 1] == q.option_texts()[k]);
        match q {
            Question::Choice(c) => match c.criteria {
                ChoiceCriteria::Labels(labels) => {
                    assert(texts(labels@)[k] == labels@[k]@);
                },
                ChoiceCriteria::Labelled(options) => {
                    assert(q.option_texts()[k] == described(
                        options@[k].description,
                        options@[k].label@,
                    ));
                },
            },
            Question::Score(_) => {},
            Question::Noul(_) => {},
        }
    }
}

/// A question fits where the tokens of the state, of its instructions and of
/// all its options are together no more than the budget.
pub proof fn questions_fit_within_the_budget(
    client: &JevClient,
    tokenizer: Tokenizer,
    state: Seq<u32>,
    q: &Question,
    fits: bool,
)
    requires
        client.may_measure(tokenizer, state, q, fits),
    ensures
        exists|lists: Seq<Seq<u32>>|
            {
                &&& lists.len() == option_count(q) + 1
                &&& forall|i: int|
                    0 <= i < lists.len() ==> encoding(
                        tokenizer,
                        measured_texts(q)[i],
                        false,
                        Ok(#[trigger] lists[i]),
                    )
                &&& fits <==> state.len() + #[trigger] token_count(lists) <= client.context_tokens
            },
{
    let lists = choose|lists: Seq<Seq<u32>>|
        #[trigger] encodes_all(tokenizer, measured_texts(q), lists) && fits == (state.len()
            + joined(lists, lists.len()).len() <= client.context_tokens);
    questions_are_measured_whole(q);
    counts_agree(lists, lists.len());
    assert(lists.subrange(0, lists.len() as int) =~= lists);
    assert forall|i: int| 0 <= i < lists.len() implies encoding(
        tokenizer,
        measured_texts(q)[i],
        false,
        Ok(#[trigger] lists[i]),
    ) by {
        assert(encoding(tokenizer, measured_texts(q)[i], false, Ok(lists[i])));
    }
    assert(fits <==> state.len() + token_count(lists) <= client.context_tokens);
}

proof fn header_chars(c: char)
    ensures
        crate::jev::header_char(c) == (c == '\t' || c >= ' ' && c != '\u{7f}'),
{
}

/// A client needs a key and a model that say something, and a key that can
/// stand in a header: no control character but the tab.
pub proof fn clients_need_a_key_and_a_model(key: Seq<char>, model: Seq<char>)
    ensures
        client_failure(key, model) is None <==> {
            &&& exists|i: int| 0 <= i < key.len() && !white_space().contains(#[trigger] key[i])
            &&& exists|i: int| 0 <= i < model.len() && !white_space().contains(#[trigger] model[i])
            &&& forall|i: int|
                0 <= i < key.len() ==> (#[trigger] key[i] == '\t' || key[i] >= ' ' && key[i]
                    != '\u{7f}')
        },
        client_failure(key, model) matches Some(failure) ==> failure == Failure::Config(
            "Jev requires a nonempty API key and model"@,
        ) || failure == Failure::Config("invalid Jev API key"@),
        client_failure(key, model) == Some(
            Failure::Config("Jev requires a nonempty API key and model"@),
        ) <== (forall|i: int| 0 <= i < key.len() ==> white_space().contains(#[trigger] key[i]))
            || (forall|i: int| 0 <= i < model.len() ==> white_space().contains(#[trigger] model[i])),
        client_failure(key, model) == Some(Failure::Config("invalid Jev API key"@)) <== {
            &&& exists|i: int| 0 <= i < key.len() && !white_space().contains(#[trigger] key[i])
            &&& exists|i: int| 0 <= i < model.len() && !white_space().contains(#[trigger] model[i])
            &&& exists|i: int|
                0 <= i < key.len() && !(#[trigger] key[i] == '\t' || key[i] >= ' ' && key[i]
                    != '\u{7f}')
        },
{
    blank_texts_hold_white_space_alone(key);
    blank_texts_hold_white_space_alone(model);
    assert forall|i: int| 0 <= i < key.len() implies crate::jev::header_char(#[trigger] key[i])
        == (key[i] == '\t' || key[i] >= ' ' && key[i] != '\u{7f}') by {
        header_chars(key[i]);
    }
    if exists|i: int|
        0 <= i < key.len() && !(#[trigger] key[i] == '\t' || key[i] >= ' ' && key[i] != '\u{7f}') {
        let i = choose|i: int|
            0 <= i < key.len() && !(#[trigger] key[i] == '\t' || key[i] >= ' ' && key[i]
                != '\u{7f}');
        assert(!crate::jev::header_char(key[i]));
    }
    if forall|i: int|
        0 <= i < key.len() ==> (#[trigger] key[i] == '\t' || key[i] >= ' ' && key[i] != '\u{7f}') {
        assert forall|i: int| 0 <= i < key.len() implies crate::jev::header_char(
            #[trigger] key[i],
        ) by {}
    }
}

/// An endpoint is an address of the web that holds neither a user name nor a
/// password. Unless told otherwise, calls go to the hosted service.
pub proof fn endpoints_hold_no_credentials(endpoint: Seq<char>)
    ensures
        endpoint_failure(endpoint) is None <==> match url_parts(endpoint) {
            Some((scheme, user, password)) => {
                &&& scheme == "http"@ || scheme == "https"@
                &&& user == Seq::<char>::empty()
                &&& password is None
            },
            None => false,
        },
        endpoint_failure(endpoint) is Some && url_parts(endpoint) is None
            ==> endpoint_failure(endpoint)->0 == Failure::Config("invalid Jev endpoint"@),
        endpoint_failure(endpoint) is Some && url_parts(endpoint) is Some
            ==> endpoint_failure(endpoint)->0 == Failure::Config(
            "Jev endpoint must be HTTP(S) without embedded credentials"@,
        ),
        DEFAULT_ENDPOINT@ == "https://api.typesafe.ai/v1/systemone"@,
{
    if let Some(parts) = url_parts(endpoint) {
        if parts.1.len() == 0 {
            assert(parts.1 =~= Seq::<char>::empty());
        }
    }
}

} // verus!
