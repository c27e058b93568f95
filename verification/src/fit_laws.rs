//! When a request is found to fit a model's context, and when it is refused.
use crate::error::Failure;
use crate::gliner_decide::input::{tasks_of, GlinerDecide, InputView};
use crate::gliner_decide::schema::{normalized, task_of, TaskView};
use crate::gliner_decide::schema_laws::{marked, marks_are_reserved};
use crate::jev::JevClient;
use crate::openjev::model::{InputView as PromptView, OpenJev};
use crate::openjev::prompt::formatted;
use crate::text::decimal;
use crate::tokens::encoding;
use crate::tokens_laws::{counts_agree, token_count};
use crate::types::{Question, SystemOneRequest};
use vstd::prelude::*;

verus! {

/// Question `k` has a prompt, and the prompt may come to this many tokens.
pub open spec fn prompt_takes(
    model: &OpenJev,
    request: &SystemOneRequest,
    k: int,
    ids: Seq<u32>,
) -> bool {
    let made = formatted(
        request.state.text@,
        request.questions@[k].0,
        &request.questions@[k].1,
        model.config.max_num_classes as nat,
    );
    match made {
        Ok((text, _)) => encoding(model.whole, text, true, Ok(ids)),
        Err(_) => false,
    }
}

/// OpenJev finds that a request fits where each question's own prompt is no
/// longer than the context, and that it does not fit where one is longer.
pub proof fn requests_fit_where_every_prompt_does(
    model: &OpenJev,
    request: &SystemOneRequest,
    fits: bool,
    q: int,
)
    requires
        model.measures(request, Ok(fits)),
        0 <= q < request.questions@.len(),
    ensures
        fits ==> exists|ids: Seq<u32>|
            #[trigger] prompt_takes(model, request, q, ids) && ids.len() <= model.max_len,
        !fits ==> exists|k: int, ids: Seq<u32>|
            0 <= k < request.questions@.len() && #[trigger] prompt_takes(model, request, k, ids)
                && ids.len() > model.max_len,
{
    if fits {
        assert(model.may_fit(request, q));
        let needed = choose|needed: nat|
            needed <= model.max_len && #[trigger] model.may_measure(request, q, Ok(needed));
        let ids = prompt_of(model, request, q, needed);
    } else {
        let (k, needed) = choose|k: int, needed: nat|
            {
                &&& 0 <= k < request.questions@.len()
                &&& model.may_fit_up_to(request, k)
                &&& needed > model.max_len
                &&& #[trigger] model.may_measure(request, k, Ok(needed))
            };
        let ids = prompt_of(model, request, k, needed);
    }
}

proof fn prompt_of(model: &OpenJev, request: &SystemOneRequest, k: int, needed: nat) -> (ids: Seq<
    u32,
>)
    requires
        model.may_measure(request, k, Ok(needed)),
    ensures
        prompt_takes(model, request, k, ids),
        ids.len() == needed,
{
    let outcome: Result<nat, Failure> = Ok(needed);
    let made = formatted(
        request.state.text@,
        request.questions@[k].0,
        &request.questions@[k].1,
        model.config.max_num_classes as nat,
    );
    let (text, names) = made->Ok_0;
    let encoded = choose|encoded: Result<Seq<u32>, Seq<char>>|
        #[trigger] encoding(model.whole, text, true, encoded) && outcome == (match encoded {
            Err(message) => Err::<nat, Failure>(Failure::Tokenizer(message)),
            Ok(ids) => Ok(ids.len()),
        });
    encoded->Ok_0
}

/// A question that cannot be put is refused for that reason, when it is
/// measured as when it is built; one that can be is refused by the tokenizer,
/// or because its candidates were cut off.
pub proof fn prompts_are_refused_for_their_question(
    model: &OpenJev,
    state: Seq<char>,
    id: Seq<char>,
    q: &Question,
    needed: Result<nat, Failure>,
    outcome: Result<PromptView, Failure>,
)
    requires
        model.may_need(state, id, q, needed),
        model.may_build(state, id, q, outcome),
    ensures
        formatted(state, id, q, model.config.max_num_classes as nat) matches Err(failure)
            ==> needed == Err::<nat, Failure>(failure) && outcome == Err::<PromptView, Failure>(
            failure,
        ),
        formatted(state, id, q, model.config.max_num_classes as nat) is Ok ==> {
            &&& needed matches Err(failure) ==> failure is Tokenizer
            &&& outcome matches Err(failure) ==> failure is Tokenizer || failure
                == (Failure::Question {
                id,
                reason: "candidate header was truncated; shorten the descriptions"@,
            })
        },
{
}

/// GLiNER finds that a request fits exactly where an input of it drops nothing.
pub proof fn requests_fit_where_nothing_is_dropped(
    model: &GlinerDecide,
    request: &SystemOneRequest,
    fits: bool,
)
    requires
        model.measures(request, Ok(fits)),
    ensures
        fits ==> exists|input: InputView|
            #[trigger] model.may_build(request, Ok(input)) && input.dropped_tokens == 0,
        !fits ==> exists|input: InputView|
            #[trigger] model.may_build(request, Ok(input)) && input.dropped_tokens > 0,
{
}

/// A request without questions is refused, and so is one with a question that
/// cannot be asked: the first such question says why.
pub proof fn requests_need_questions_that_can_be_asked(
    model: &GlinerDecide,
    request: &SystemOneRequest,
    k: int,
    failure: Failure,
    outcome: Result<InputView, Failure>,
)
    requires
        model.may_build(request, outcome),
    ensures
        request.questions@.len() == 0 ==> outcome == Err::<InputView, Failure>(
            Failure::Config("request has no questions"@),
        ),
        0 <= k < request.questions@.len() && task_of(
            request.questions@[k].0,
            &request.questions@[k].1,
        ) == Err::<TaskView, Failure>(failure) && (forall|j: int|
            0 <= j < k ==> task_of(
                (#[trigger] request.questions@[j]).0,
                &request.questions@[j].1,
            ) is Ok) ==> outcome == Err::<InputView, Failure>(failure),
{
    if 0 <= k < request.questions@.len() && task_of(
        request.questions@[k].0,
        &request.questions@[k].1,
    ) == Err::<TaskView, Failure>(failure) && (forall|j: int|
        0 <= j < k ==> task_of(
            (#[trigger] request.questions@[j]).0,
            &request.questions@[j].1,
        ) is Ok) {
        first_refused(request, k, failure, request.questions@.len());
    }
}

proof fn first_refused(request: &SystemOneRequest, k: int, failure: Failure, n: nat)
    requires
        0 <= k < request.questions@.len(),
        n <= request.questions@.len(),
        task_of(request.questions@[k].0, &request.questions@[k].1) == Err::<TaskView, Failure>(
            failure,
        ),
        forall|j: int|
            0 <= j < k ==> task_of(
                (#[trigger] request.questions@[j]).0,
                &request.questions@[j].1,
            ) is Ok,
    ensures
        n <= k ==> tasks_of(request, n) is Ok,
        n > k ==> tasks_of(request, n) == Err::<Seq<TaskView>, Failure>(failure),
    decreases n,
{
    if n > 0 {
        first_refused(request, k, failure, (n - 1) as nat);
        if n <= k {
            let before = request.questions@[n - 1];
            assert(task_of(before.0, &before.1) is Ok);
        }
    }
}

/// Questions that take more tokens than the context has are refused with both
/// numbers; a state that holds a reserved mark is refused too; and questions
/// that fit beside a state without marks are refused by the tokenizer alone.
pub proof fn long_questions_and_marks_are_refused(
    model: &GlinerDecide,
    request: &SystemOneRequest,
    tasks: Seq<TaskView>,
    schema: Seq<Seq<u32>>,
    outcome: Result<InputView, Failure>,
)
    requires
        model.may_follow(tasks, schema, request.state.text@, outcome),
    ensures
        token_count(schema) > model.max_len ==> outcome == Err::<InputView, Failure>(
            Failure::Config(
                "questions need "@ + decimal(token_count(schema)) + " tokens, over the "@ + decimal(
                    model.max_len as nat,
                ) + "-token context"@,
            ),
        ),
        token_count(schema) <= model.max_len && marked(normalized(request.state.text@))
            ==> outcome == Err::<InputView, Failure>(
            Failure::Config("state contains a reserved GLiNER2 marker"@),
        ),
        token_count(schema) <= model.max_len && !marked(normalized(request.state.text@)) ==> (
        outcome matches Err(failure) ==> failure is Tokenizer),
{
    counts_agree(schema, schema.len());
    assert(schema.subrange(0, schema.len() as int) =~= schema);
    marks_are_reserved(normalized(request.state.text@));
}

/// Jev finds that a request fits where the state fits together with each of
/// its questions, and that it does not where one question is too much.
pub proof fn requests_fit_question_by_question(
    client: &JevClient,
    request: &SystemOneRequest,
    fits: bool,
    q: int,
)
    requires
        client.measures(request, Ok(fits)),
        0 <= q < request.questions@.len(),
    ensures
        fits ==> exists|state: Seq<u32>|
            #[trigger] encoding(client.tokenizer->0, request.state.text@, false, Ok(state))
                && client.may_measure(client.tokenizer->0, state, &request.questions@[q].1, true),
        !fits ==> exists|state: Seq<u32>, k: int|
            0 <= k < request.questions@.len() && #[trigger] encoding(
                client.tokenizer->0,
                request.state.text@,
                false,
                Ok(state),
            ) && #[trigger] client.may_measure(
                client.tokenizer->0,
                state,
                &request.questions@[k].1,
                false,
            ),
{
    let tokenizer = client.tokenizer->0;
    if fits {
        let state = choose|ids: Seq<u32>|
            #[trigger] encoding(tokenizer, request.state.text@, false, Ok(ids))
                && client.may_fit_up_to(tokenizer, ids, request, request.questions@.len() as int);
        let question = &request.questions@[q].1;
        assert(client.may_measure(tokenizer, state, question, true));
    }
}

} // verus!
