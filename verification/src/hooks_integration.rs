//! The hook pipeline: ordered lists of hooks, and the rule by which their
//! verdicts let a request pass, replace it, or abort it.

use vstd::prelude::*;
use vstd::string::*;
use crate::errors::broker_error::BrokerError;
use crate::hooks::{
    AfterResponseSend, BaseHookResult, BeforeResponseSend, OnRequestExecuted, OnRequestReceived,
};
use crate::request::Request;
use crate::response::Response;

verus! {

/// The error a hook reports.
#[derive(Debug)]
pub struct BrokerHookError {
    pub message: String,
}

/// The hook result type of the simple broker.
pub type HookResultType = BaseHookResult<Request, Response, BrokerHookError>;

/// The detail of the error for a hook that stopped the request.
pub open spec fn stopped_text() -> Seq<char> {
    "Processing stopped by hook"@
}

/// What one verdict of a request-received hook does to the current request:
/// the request to go on with, or the detail of the error that aborts it.
pub open spec fn request_step<Req: Send + Sync, Resp: Send + Sync>(
    current: Req,
    verdict: BaseHookResult<Req, Resp, BrokerHookError>,
) -> Result<Req, Seq<char>> {
    match verdict {
        BaseHookResult::Continue => Ok(current),
        BaseHookResult::StopProcessing => Err(stopped_text()),
        BaseHookResult::ModifyRequest(replacement) => Ok(replacement),
        BaseHookResult::ModifyResponse(_) => Ok(current),
        BaseHookResult::Error(error) => Err(error.message@),
    }
}

/// What one verdict of a request-executed hook does to the current response.
pub open spec fn response_step<Req: Send + Sync, Resp: Send + Sync>(
    current: Resp,
    verdict: BaseHookResult<Req, Resp, BrokerHookError>,
) -> Result<Resp, Seq<char>> {
    match verdict {
        BaseHookResult::Continue => Ok(current),
        BaseHookResult::StopProcessing => Err(stopped_text()),
        BaseHookResult::ModifyRequest(_) => Ok(current),
        BaseHookResult::ModifyResponse(replacement) => Ok(replacement),
        BaseHookResult::Error(error) => Err(error.message@),
    }
}

/// The outcome of a list of request-received verdicts, taken in order: the
/// first verdict that aborts decides, and no later verdict counts.
pub open spec fn fold_request<Req: Send + Sync, Resp: Send + Sync>(
    verdicts: Seq<BaseHookResult<Req, Resp, BrokerHookError>>,
    request: Req,
) -> Result<Req, Seq<char>>
    decreases verdicts.len(),
{
    if verdicts.len() == 0 {
        Ok(request)
    } else {
        match fold_request(verdicts.drop_last(), request) {
            Ok(current) => request_step(current, verdicts.last()),
            Err(detail) => Err(detail),
        }
    }
}

/// The outcome of a list of request-executed verdicts, taken in order.
pub open spec fn fold_response<Req: Send + Sync, Resp: Send + Sync>(
    verdicts: Seq<BaseHookResult<Req, Resp, BrokerHookError>>,
    response: Resp,
) -> Result<Resp, Seq<char>>
    decreases verdicts.len(),
{
    if verdicts.len() == 0 {
        Ok(response)
    } else {
        match fold_response(verdicts.drop_last(), response) {
            Ok(current) => response_step(current, verdicts.last()),
            Err(detail) => Err(detail),
        }
    }
}

/// The outcome of a pipeline as the caller sees it: the value to go on
/// with, or the detail of the hook error.
pub open spec fn outcome_of<T>(result: Result<T, BrokerError>) -> Result<T, Seq<char>> {
    match result {
        Ok(value) => Ok(value),
        Err(BrokerError::HookError(detail)) => Err(detail@),
        Err(_) => Err(Seq::empty()),
    }
}

/// Applies the verdict of a request-received hook to the current request.
pub fn apply_request_verdict<Req: Send + Sync, Resp: Send + Sync>(
    current: Req,
    verdict: BaseHookResult<Req, Resp, BrokerHookError>,
) -> (result: Result<Req, BrokerError>)
    ensures
        result matches Err(e) ==> e is HookError,
        outcome_of(result) == request_step(current, verdict),
{
    match verdict {
        BaseHookResult::Continue => Ok(current),
        BaseHookResult::StopProcessing => Err(
            BrokerError::HookError(String::from_str("Processing stopped by hook")),
        ),
        BaseHookResult::ModifyRequest(replacement) => Ok(replacement),
        BaseHookResult::ModifyResponse(_) => Ok(current),
        BaseHookResult::Error(error) => Err(BrokerError::HookError(error.message)),
    }
}

/// Applies the verdict of a request-executed hook to the current response.
pub fn apply_response_verdict<Req: Send + Sync, Resp: Send + Sync>(
    current: Resp,
    verdict: BaseHookResult<Req, Resp, BrokerHookError>,
) -> (result: Result<Resp, BrokerError>)
    ensures
        result matches Err(e) ==> e is HookError,
        outcome_of(result) == response_step(current, verdict),
{
    match verdict {
        BaseHookResult::Continue => Ok(current),
        BaseHookResult::StopProcessing => Err(
            BrokerError::HookError(String::from_str("Processing stopped by hook")),
        ),
        BaseHookResult::ModifyRequest(_) => Ok(current),
        BaseHookResult::ModifyResponse(replacement) => Ok(replacement),
        BaseHookResult::Error(error) => Err(BrokerError::HookError(error.message)),
    }
}

/// Request-received hook number `k` of `hooks` returned verdict number `k`
/// of `verdicts`, on the request as the verdicts before it left it, none
/// of which aborted.
pub open spec fn request_hook_returned<H, Req: Send + Sync, Resp: Send + Sync>(
    hooks: Seq<H>,
    request: Req,
    verdicts: Seq<BaseHookResult<Req, Resp, BrokerHookError>>,
    k: int,
) -> bool where
    H: OnRequestReceived<Request = Req, HookResult = BaseHookResult<Req, Resp, BrokerHookError>>,
 {
    fold_request(verdicts.subrange(0, k), request) matches Ok(current) && call_ensures(
        H::on_request_received,
        (&hooks[k], &current),
        verdicts[k],
    )
}

/// The request-received hooks `hooks` were run on `request` and returned
/// `verdicts`: hook number `k` returned verdict number `k`, on the request
/// as the hooks before it left it; no hook was asked after one had aborted;
/// and unless a hook aborted, every hook was asked.
pub open spec fn ran_request_hooks<H, Req: Send + Sync, Resp: Send + Sync>(
    hooks: Seq<H>,
    request: Req,
    verdicts: Seq<BaseHookResult<Req, Resp, BrokerHookError>>,
) -> bool where
    H: OnRequestReceived<Request = Req, HookResult = BaseHookResult<Req, Resp, BrokerHookError>>,
 {
    &&& verdicts.len() <= hooks.len()
    &&& forall|k: int|
        0 <= k < verdicts.len() ==> #[trigger] request_hook_returned(hooks, request, verdicts, k)
    &&& fold_request(verdicts, request) is Ok ==> verdicts.len() == hooks.len()
}

/// Request-executed hook number `k` of `hooks` returned verdict number `k`
/// of `verdicts`, on the request and on the response as the verdicts
/// before it left it, none of which aborted.
pub open spec fn executed_hook_returned<H, Req: Send + Sync, Resp: Send + Sync>(
    hooks: Seq<H>,
    request: Req,
    response: Resp,
    verdicts: Seq<BaseHookResult<Req, Resp, BrokerHookError>>,
    k: int,
) -> bool where
    H: OnRequestExecuted<
        Request = Req,
        Response = Resp,
        HookResult = BaseHookResult<Req, Resp, BrokerHookError>,
    >,
 {
    fold_response(verdicts.subrange(0, k), response) matches Ok(current) && call_ensures(
        H::on_request_executed,
        (&hooks[k], &request, &current),
        verdicts[k],
    )
}

/// The request-executed hooks `hooks` were run on `request` and `response`
/// and returned `verdicts`: hook number `k` returned verdict number `k`, on
/// the response as the hooks before it left it; no hook was asked after one
/// had aborted; and unless a hook aborted, every hook was asked.
pub open spec fn ran_executed_hooks<H, Req: Send + Sync, Resp: Send + Sync>(
    hooks: Seq<H>,
    request: Req,
    response: Resp,
    verdicts: Seq<BaseHookResult<Req, Resp, BrokerHookError>>,
) -> bool where
    H: OnRequestExecuted<
        Request = Req,
        Response = Resp,
        HookResult = BaseHookResult<Req, Resp, BrokerHookError>,
    >,
 {
    &&& verdicts.len() <= hooks.len()
    &&& forall|k: int|
        0 <= k < verdicts.len() ==> #[trigger] executed_hook_returned(
            hooks,
            request,
            response,
            verdicts,
            k,
        )
    &&& fold_response(verdicts, response) is Ok ==> verdicts.len() == hooks.len()
}

proof fn lemma_request_hook_asked<H, Req: Send + Sync, Resp: Send + Sync>(
    hooks: Seq<H>,
    request: Req,
    verdicts: Seq<BaseHookResult<Req, Resp, BrokerHookError>>,
    current: Req,
    verdict: BaseHookResult<Req, Resp, BrokerHookError>,
) where
    H: OnRequestReceived<Request = Req, HookResult = BaseHookResult<Req, Resp, BrokerHookError>>,

    requires
        verdicts.len() < hooks.len(),
        forall|k: int|
            0 <= k < verdicts.len() ==> #[trigger] request_hook_returned(hooks, request, verdicts, k),
        fold_request(verdicts, request) == Ok::<Req, Seq<char>>(current),
        call_ensures(H::on_request_received, (&hooks[verdicts.len() as int], &current), verdict),
    ensures
        forall|k: int|
            0 <= k < verdicts.len() + 1 ==> #[trigger] request_hook_returned(
                hooks,
                request,
                verdicts.push(verdict),
                k,
            ),
        fold_request(verdicts.push(verdict), request) == request_step(current, verdict),
{
    let seen = verdicts.push(verdict);
    assert(seen.drop_last() =~= verdicts);
    assert forall|k: int| 0 <= k < seen.len() implies #[trigger] request_hook_returned(
        hooks,
        request,
        seen,
        k,
    ) by {
        if k < verdicts.len() {
            assert(request_hook_returned(hooks, request, verdicts, k));
            assert(seen.subrange(0, k) =~= verdicts.subrange(0, k));
            assert(seen[k] == verdicts[k]);
        } else {
            assert(seen.subrange(0, k) =~= verdicts);
        }
    }
}

proof fn lemma_executed_hook_asked<H, Req: Send + Sync, Resp: Send + Sync>(
    hooks: Seq<H>,
    request: Req,
    response: Resp,
    verdicts: Seq<BaseHookResult<Req, Resp, BrokerHookError>>,
    current: Resp,
    verdict: BaseHookResult<Req, Resp, BrokerHookError>,
) where
    H: OnRequestExecuted<
        Request = Req,
        Response = Resp,
        HookResult = BaseHookResult<Req, Resp, BrokerHookError>,
    >,

    requires
        verdicts.len() < hooks.len(),
        forall|k: int|
            0 <= k < verdicts.len() ==> #[trigger] executed_hook_returned(
                hooks,
                request,
                response,
                verdicts,
                k,
            ),
        fold_response(verdicts, response) == Ok::<Resp, Seq<char>>(current),
        call_ensures(
            H::on_request_executed,
            (&hooks[verdicts.len() as int], &request, &current),
            verdict,
        ),
    ensures
        forall|k: int|
            0 <= k < verdicts.len() + 1 ==> #[trigger] executed_hook_returned(
                hooks,
                request,
                response,
                verdicts.push(verdict),
                k,
            ),
        fold_response(verdicts.push(verdict), response) == response_step(current, verdict),
{
    let seen = verdicts.push(verdict);
    assert(seen.drop_last() =~= verdicts);
    assert forall|k: int| 0 <= k < seen.len() implies #[trigger] executed_hook_returned(
        hooks,
        request,
        response,
        seen,
        k,
    ) by {
        if k < verdicts.len() {
            assert(executed_hook_returned(hooks, request, response, verdicts, k));
            assert(seen.subrange(0, k) =~= verdicts.subrange(0, k));
            assert(seen[k] == verdicts[k]);
        } else {
            assert(seen.subrange(0, k) =~= verdicts);
        }
    }
}

/// Runs the request-received hooks in registration order. Each hook sees
/// the request as the hooks before it left it; the first hook that stops or
/// fails ends the run, and the hooks after it are not invoked.
///
/// What a hook returns is its own to decide: the result is the outcome, by
/// the rule of [`fold_request`], of the verdicts that the hooks returned.
pub fn run_request_hooks<H, Req: Send + Sync, Resp: Send + Sync>(hooks: &Vec<H>, request: Req) -> (result:
    Result<Req, BrokerError>) where
    H: OnRequestReceived<Request = Req, HookResult = BaseHookResult<Req, Resp, BrokerHookError>>,

    ensures
        result matches Err(e) ==> e is HookError,
        exists|verdicts: Seq<BaseHookResult<Req, Resp, BrokerHookError>>|
            #[trigger] ran_request_hooks(hooks@, request, verdicts) && outcome_of(result)
                == fold_request(verdicts, request),
        hooks@.len() == 0 ==> result == Ok::<Req, BrokerError>(request),
{
    let ghost mut verdicts: Seq<BaseHookResult<Req, Resp, BrokerHookError>> = Seq::empty();
    let mut current = request;
    let mut i: usize = 0;
    while i < hooks.len()
        invariant
            i <= hooks@.len(),
            verdicts.len() == i,
            fold_request(verdicts, request) == Ok::<Req, Seq<char>>(current),
            i == 0 ==> current == request,
            forall|k: int|
                0 <= k < verdicts.len() ==> #[trigger] request_hook_returned(
                    hooks@,
                    request,
                    verdicts,
                    k,
                ),
        decreases hooks@.len() - i,
    {
        let verdict = hooks[i].on_request_received(&current);
        let ghost seen = verdicts.push(verdict);
        proof {
            lemma_request_hook_asked(hooks@, request, verdicts, current, verdict);
        }
        match apply_request_verdict(current, verdict) {
            Ok(next) => {
                current = next;
            },
            Err(e) => {
                assert(ran_request_hooks(hooks@, request, seen));
                return Err(e);
            },
        }
        proof {
            verdicts = seen;
        }
        i = i + 1;
    }
    assert(ran_request_hooks(hooks@, request, verdicts));
    Ok(current)
}

/// Runs the request-executed hooks in registration order, each on the
/// request and the response as the hooks before it left it; the first hook
/// that stops or fails ends the run.
pub fn run_executed_hooks<H, Req: Send + Sync, Resp: Send + Sync>(
    hooks: &Vec<H>,
    request: &Req,
    response: Resp,
) -> (result: Result<Resp, BrokerError>) where
    H: OnRequestExecuted<
        Request = Req,
        Response = Resp,
        HookResult = BaseHookResult<Req, Resp, BrokerHookError>,
    >,

    ensures
        result matches Err(e) ==> e is HookError,
        exists|verdicts: Seq<BaseHookResult<Req, Resp, BrokerHookError>>|
            #[trigger] ran_executed_hooks(hooks@, *request, response, verdicts) && outcome_of(
                result,
            ) == fold_response(verdicts, response),
        hooks@.len() == 0 ==> result == Ok::<Resp, BrokerError>(response),
{
    let ghost mut verdicts: Seq<BaseHookResult<Req, Resp, BrokerHookError>> = Seq::empty();
    let mut current = response;
    let mut i: usize = 0;
    while i < hooks.len()
        invariant
            i <= hooks@.len(),
            verdicts.len() == i,
            fold_response(verdicts, response) == Ok::<Resp, Seq<char>>(current),
            i == 0 ==> current == response,
            forall|k: int|
                0 <= k < verdicts.len() ==> #[trigger] executed_hook_returned(
                    hooks@,
                    *request,
                    response,
                    verdicts,
                    k,
                ),
        decreases hooks@.len() - i,
    {
        let verdict = hooks[i].on_request_executed(request, &current);
        let ghost seen = verdicts.push(verdict);
        proof {
            lemma_executed_hook_asked(hooks@, *request, response, verdicts, current, verdict);
        }
        match apply_response_verdict(current, verdict) {
            Ok(next) => {
                current = next;
            },
            Err(e) => {
                assert(ran_executed_hooks(hooks@, *request, response, seen));
                return Err(e);
            },
        }
        proof {
            verdicts = seen;
        }
        i = i + 1;
    }
    assert(ran_executed_hooks(hooks@, *request, response, verdicts));
    Ok(current)
}

/// A hook whose verdict stops or fails the request is the last hook that
/// was asked, and its verdict is the outcome of the run.
pub proof fn lemma_aborting_verdict_is_last<H, Req: Send + Sync, Resp: Send + Sync>(
    hooks: Seq<H>,
    request: Req,
    verdicts: Seq<BaseHookResult<Req, Resp, BrokerHookError>>,
    k: int,
) where
    H: OnRequestReceived<Request = Req, HookResult = BaseHookResult<Req, Resp, BrokerHookError>>,

    requires
        ran_request_hooks(hooks, request, verdicts),
        0 <= k < verdicts.len(),
        verdicts[k] is StopProcessing || verdicts[k] is Error,
    ensures
        k == verdicts.len() - 1,
        verdicts[k] is StopProcessing ==> fold_request(verdicts, request) == Err::<Req, Seq<char>>(
            stopped_text(),
        ),
        verdicts[k] matches BaseHookResult::Error(error) ==> fold_request(verdicts, request) == Err::<
            Req,
            Seq<char>,
        >(error.message@),
{
    assert(request_hook_returned(hooks, request, verdicts, k));
    let upto = verdicts.subrange(0, k + 1);
    assert(upto.drop_last() =~= verdicts.subrange(0, k));
    assert(upto.last() == verdicts[k]);
    assert(fold_request(upto, request) is Err);
    if k + 1 < verdicts.len() {
        assert(request_hook_returned(hooks, request, verdicts, k + 1));
    }
    assert(upto =~= verdicts);
}

proof fn lemma_continuing_hooks_keep_request<H, Req: Send + Sync, Resp: Send + Sync>(
    hooks: Seq<H>,
    request: Req,
    verdicts: Seq<BaseHookResult<Req, Resp, BrokerHookError>>,
    j: int,
    k: int,
) where
    H: OnRequestReceived<Request = Req, HookResult = BaseHookResult<Req, Resp, BrokerHookError>>,

    requires
        ran_request_hooks(hooks, request, verdicts),
        0 <= k <= j,
        k <= verdicts.len(),
        forall|i: int, v: BaseHookResult<Req, Resp, BrokerHookError>|
            0 <= i < j && #[trigger] call_ensures(H::on_request_received, (&hooks[i], &request), v)
                ==> v is Continue,
    ensures
        fold_request(verdicts.subrange(0, k), request) == Ok::<Req, Seq<char>>(request),
    decreases k,
{
    if k > 0 {
        lemma_continuing_hooks_keep_request(hooks, request, verdicts, j, k - 1);
        assert(request_hook_returned(hooks, request, verdicts, k - 1));
        assert(verdicts[k - 1] is Continue);
        let upto = verdicts.subrange(0, k);
        assert(upto.drop_last() =~= verdicts.subrange(0, k - 1));
        assert(upto.last() == verdicts[k - 1]);
    }
}

/// A hook that stops the request at hand, behind hooks that let it
/// continue, aborts the run with the error of a stopped request, whatever
/// hooks are registered behind it and whatever any of them does with
/// another request.
pub proof fn lemma_stopping_hook_aborts<H, Req: Send + Sync, Resp: Send + Sync>(
    hooks: Seq<H>,
    request: Req,
    verdicts: Seq<BaseHookResult<Req, Resp, BrokerHookError>>,
    j: int,
) where
    H: OnRequestReceived<Request = Req, HookResult = BaseHookResult<Req, Resp, BrokerHookError>>,

    requires
        ran_request_hooks(hooks, request, verdicts),
        0 <= j < hooks.len(),
        forall|v: BaseHookResult<Req, Resp, BrokerHookError>| #[trigger]
            call_ensures(H::on_request_received, (&hooks[j], &request), v) ==> v is StopProcessing,
        forall|i: int, v: BaseHookResult<Req, Resp, BrokerHookError>|
            0 <= i < j && #[trigger] call_ensures(H::on_request_received, (&hooks[i], &request), v)
                ==> v is Continue,
    ensures
        fold_request(verdicts, request) == Err::<Req, Seq<char>>(stopped_text()),
{
    if verdicts.len() <= j {
        lemma_continuing_hooks_keep_request(hooks, request, verdicts, j, verdicts.len() as int);
        assert(verdicts.subrange(0, verdicts.len() as int) =~= verdicts);
    } else {
        lemma_continuing_hooks_keep_request(hooks, request, verdicts, j, j);
        assert(request_hook_returned(hooks, request, verdicts, j));
        lemma_aborting_verdict_is_last(hooks, request, verdicts, j);
    }
}

/// Hooks that let the request at hand continue leave it as it was, and
/// every one of them is asked.
pub proof fn lemma_continuing_hooks_admit<H, Req: Send + Sync, Resp: Send + Sync>(
    hooks: Seq<H>,
    request: Req,
    verdicts: Seq<BaseHookResult<Req, Resp, BrokerHookError>>,
) where
    H: OnRequestReceived<Request = Req, HookResult = BaseHookResult<Req, Resp, BrokerHookError>>,

    requires
        ran_request_hooks(hooks, request, verdicts),
        forall|i: int, v: BaseHookResult<Req, Resp, BrokerHookError>|
            0 <= i < hooks.len() && #[trigger] call_ensures(
                H::on_request_received,
                (&hooks[i], &request),
                v,
            ) ==> v is Continue,
    ensures
        fold_request(verdicts, request) == Ok::<Req, Seq<char>>(request),
        verdicts.len() == hooks.len(),
{
    lemma_continuing_hooks_keep_request(
        hooks,
        request,
        verdicts,
        hooks.len() as int,
        verdicts.len() as int,
    );
    assert(verdicts.subrange(0, verdicts.len() as int) =~= verdicts);
}

/// A request-executed hook whose verdict stops or fails the request is
/// the last hook that was asked, and its verdict is the outcome of the run.
pub proof fn lemma_aborting_executed_verdict_is_last<H, Req: Send + Sync, Resp: Send + Sync>(
    hooks: Seq<H>,
    request: Req,
    response: Resp,
    verdicts: Seq<BaseHookResult<Req, Resp, BrokerHookError>>,
    k: int,
) where
    H: OnRequestExecuted<
        Request = Req,
        Response = Resp,
        HookResult = BaseHookResult<Req, Resp, BrokerHookError>,
    >,

    requires
        ran_executed_hooks(hooks, request, response, verdicts),
        0 <= k < verdicts.len(),
        verdicts[k] is StopProcessing || verdicts[k] is Error,
    ensures
        k == verdicts.len() - 1,
        verdicts[k] is StopProcessing ==> fold_response(verdicts, response) == Err::<
            Resp,
            Seq<char>,
        >(stopped_text()),
        verdicts[k] matches BaseHookResult::Error(error) ==> fold_response(verdicts, response)
            == Err::<Resp, Seq<char>>(error.message@),
{
    assert(executed_hook_returned(hooks, request, response, verdicts, k));
    let upto = verdicts.subrange(0, k + 1);
    assert(upto.drop_last() =~= verdicts.subrange(0, k));
    assert(upto.last() == verdicts[k]);
    assert(fold_response(upto, response) is Err);
    if k + 1 < verdicts.len() {
        assert(executed_hook_returned(hooks, request, response, verdicts, k + 1));
    }
    assert(upto =~= verdicts);
}

proof fn lemma_continuing_hooks_keep_response<H, Req: Send + Sync, Resp: Send + Sync>(
    hooks: Seq<H>,
    request: Req,
    response: Resp,
    verdicts: Seq<BaseHookResult<Req, Resp, BrokerHookError>>,
    j: int,
    k: int,
) where
    H: OnRequestExecuted<
        Request = Req,
        Response = Resp,
        HookResult = BaseHookResult<Req, Resp, BrokerHookError>,
    >,

    requires
        ran_executed_hooks(hooks, request, response, verdicts),
        0 <= k <= j,
        k <= verdicts.len(),
        forall|i: int, v: BaseHookResult<Req, Resp, BrokerHookError>|
            0 <= i < j && #[trigger] call_ensures(
                H::on_request_executed,
                (&hooks[i], &request, &response),
                v,
            ) ==> v is Continue,
    ensures
        fold_response(verdicts.subrange(0, k), response) == Ok::<Resp, Seq<char>>(response),
    decreases k,
{
    if k > 0 {
        lemma_continuing_hooks_keep_response(hooks, request, response, verdicts, j, k - 1);
        assert(executed_hook_returned(hooks, request, response, verdicts, k - 1));
        assert(verdicts[k - 1] is Continue);
        let upto = verdicts.subrange(0, k);
        assert(upto.drop_last() =~= verdicts.subrange(0, k - 1));
        assert(upto.last() == verdicts[k - 1]);
    }
}

/// A request-executed hook that stops on the request and response at
/// hand, behind hooks that let them pass, aborts the run with the error of
/// a stopped request, whatever hooks are registered behind it.
pub proof fn lemma_stopping_executed_hook_aborts<H, Req: Send + Sync, Resp: Send + Sync>(
    hooks: Seq<H>,
    request: Req,
    response: Resp,
    verdicts: Seq<BaseHookResult<Req, Resp, BrokerHookError>>,
    j: int,
) where
    H: OnRequestExecuted<
        Request = Req,
        Response = Resp,
        HookResult = BaseHookResult<Req, Resp, BrokerHookError>,
    >,

    requires
        ran_executed_hooks(hooks, request, response, verdicts),
        0 <= j < hooks.len(),
        forall|v: BaseHookResult<Req, Resp, BrokerHookError>| #[trigger]
            call_ensures(H::on_request_executed, (&hooks[j], &request, &response), v)
                ==> v is StopProcessing,
        forall|i: int, v: BaseHookResult<Req, Resp, BrokerHookError>|
            0 <= i < j && #[trigger] call_ensures(
                H::on_request_executed,
                (&hooks[i], &request, &response),
                v,
            ) ==> v is Continue,
    ensures
        fold_response(verdicts, response) == Err::<Resp, Seq<char>>(stopped_text()),
{
    if verdicts.len() <= j {
        lemma_continuing_hooks_keep_response(
            hooks,
            request,
            response,
            verdicts,
            j,
            verdicts.len() as int,
        );
        assert(verdicts.subrange(0, verdicts.len() as int) =~= verdicts);
    } else {
        lemma_continuing_hooks_keep_response(hooks, request, response, verdicts, j, j);
        assert(executed_hook_returned(hooks, request, response, verdicts, j));
        lemma_aborting_executed_verdict_is_last(hooks, request, response, verdicts, j);
    }
}

/// The hooks of a broker, one ordered list for each point of request
/// processing. Hooks run in the order in which they were added.
pub struct HookRegistry<R, X, B, A> {
    pub on_request_received_hooks: Vec<R>,
    pub on_request_executed_hooks: Vec<X>,
    pub before_response_send_hooks: Vec<B>,
    pub after_response_send_hooks: Vec<A>,
}

impl<R, X, B, A> HookRegistry<R, X, B, A> {
    /// Creates a registry without hooks.
    pub fn new() -> (registry: Self)
        ensures
            registry.on_request_received_hooks@.len() == 0,
            registry.on_request_executed_hooks@.len() == 0,
            registry.before_response_send_hooks@.len() == 0,
            registry.after_response_send_hooks@.len() == 0,
    {
        Self {
            on_request_received_hooks: Vec::new(),
            on_request_executed_hooks: Vec::new(),
            before_response_send_hooks: Vec::new(),
            after_response_send_hooks: Vec::new(),
        }
    }

    /// Adds a request-received hook behind those already registered.
    pub fn add_on_request_received_hook(&mut self, hook: R)
        ensures
            final(self).on_request_received_hooks@ == old(self).on_request_received_hooks@.push(hook),
            final(self).on_request_executed_hooks == old(self).on_request_executed_hooks,
            final(self).before_response_send_hooks == old(self).before_response_send_hooks,
            final(self).after_response_send_hooks == old(self).after_response_send_hooks,
    {
        self.on_request_received_hooks.push(hook);
    }

    /// Adds a request-executed hook behind those already registered.
    pub fn add_on_request_executed_hook(&mut self, hook: X)
        ensures
            final(self).on_request_executed_hooks@ == old(self).on_request_executed_hooks@.push(hook),
            final(self).on_request_received_hooks == old(self).on_request_received_hooks,
            final(self).before_response_send_hooks == old(self).before_response_send_hooks,
            final(self).after_response_send_hooks == old(self).after_response_send_hooks,
    {
        self.on_request_executed_hooks.push(hook);
    }
}

} // verus!
