use omnifs_sdk::async_runtime::AsyncRuntime;
use omnifs_sdk::blob::{BlobId, BlobReader, BlobRef};
use omnifs_sdk::cx::{join_all, CalloutTask, Cx, CxShared, Polled};
use omnifs_sdk::error::{ProviderError, ProviderErrorKind};
use omnifs_sdk::file_attrs::VersionToken;
use omnifs_sdk::helpers::{err, err_step, pretty_json};
use omnifs_sdk::init::Init;
use omnifs_sdk::range_handles::RangeReaders;
use omnifs_sdk::rate_limit::RateLimitBreaker;
use omnifs_sdk::time::Duration;
use omnifs_sdk::wire::{
    BlobFetched, Callout, CalloutResult, ErrorKind, GitRepoInfo, Header, HttpResponse, OpResult,
    ProviderInfo, ProviderReturn, ProviderStep,
};

fn now() -> Duration {
    Duration::from_secs(100)
}

fn ok_response(body: &[u8]) -> CalloutResult {
    CalloutResult::HttpResponse(HttpResponse {
        status: 200,
        headers: Vec::new(),
        body: body.to_vec(),
    })
}

#[test]
fn join_all_yields_all_callouts_in_a_single_batch() {
    let mut breaker = RateLimitBreaker::new();
    let mut cx = Cx::new(1, ());

    let f1 = cx
        .http()
        .get("https://a.example/".to_string())
        .send(&mut breaker, now());
    let f2 = cx
        .http()
        .get("https://b.example/".to_string())
        .send(&mut breaker, now());
    let f3 = cx
        .http()
        .get("https://c.example/".to_string())
        .send(&mut breaker, now());

    let mut combined = join_all(vec![f1, f2, f3]);
    assert!(matches!(combined.poll(cx.erase_state()), Polled::Pending));

    let yielded = cx.erase_state().take_yielded_callouts();
    assert_eq!(yielded.len(), 3);

    for body in ["a", "b", "c"] {
        cx.erase_state()
            .push_delivered(CalloutResult::HttpResponse(HttpResponse {
                status: 200,
                headers: Vec::new(),
                body: body.as_bytes().to_vec(),
            }));
    }

    let Polled::Ready(results) = combined.poll(cx.erase_state()) else {
        panic!("expected ready after delivery");
    };
    let bodies: Vec<Vec<u8>> = results
        .into_iter()
        .map(|r| match r {
            Ok(resp) => resp.into_body(),
            Err(_) => panic!("expected a response"),
        })
        .collect();
    assert_eq!(bodies, vec![b"a".to_vec(), b"b".to_vec(), b"c".to_vec()]);
}

#[test]
fn join_all_keeps_finished_children() {
    let mut breaker = RateLimitBreaker::new();
    let mut cx = Cx::new(1, ());
    let failed = cx
        .http()
        .get("https://a.example/".to_string())
        .header("bad name", "v")
        .send(&mut breaker, now());
    let sent = cx
        .http()
        .get("https://b.example/".to_string())
        .send(&mut breaker, now());
    let mut combined = join_all(vec![failed, sent]);
    assert!(matches!(combined.poll(cx.erase_state()), Polled::Pending));
    assert_eq!(cx.erase_state().take_yielded_callouts().len(), 1);
    cx.erase_state().push_delivered(ok_response(b"x"));
    let Polled::Ready(mut results) = combined.poll(cx.erase_state()) else {
        panic!("expected both results");
    };
    assert_eq!(results.len(), 2);
    assert!(results.remove(0).is_err());
    assert_eq!(results.remove(0).ok().map(|r| r.into_body()), Some(b"x".to_vec()));
}

#[test]
fn an_empty_join_is_ready_at_once() {
    let mut cx = CxShared::new(7, None);
    let mut combined = join_all(Vec::<Count>::new());
    let Polled::Ready(results) = combined.poll(&mut cx) else {
        panic!("nothing to wait for");
    };
    assert!(results.is_empty());
}

#[test]
fn contexts_carry_id_state_and_version() {
    let mut cx = Cx::new(9, 5u32).with_version(Some(VersionToken::new("v1")));
    assert_eq!(cx.id(), 9);
    assert_eq!(cx.version().map(|v| v.as_str()), Some("v1"));
    *cx.state_mut() = 6;
    assert_eq!(*cx.state(), 6);
    assert_eq!(Cx::from_event(3, ()).version(), None);
    let shared = cx.erase_state();
    shared.push_delivered(CalloutResult::BlobRead(vec![1]));
    shared.push_delivered(CalloutResult::BlobRead(vec![2]));
    assert!(matches!(shared.pop_delivered(), Some(CalloutResult::BlobRead(b)) if b == vec![1]));
    assert!(matches!(shared.pop_delivered(), Some(CalloutResult::BlobRead(b)) if b == vec![2]));
    assert!(shared.pop_delivered().is_none());
}

/// Asks for one more blob with each step, and answers when none is left.
struct Count {
    left: u64,
}

impl CalloutTask for Count {
    type Output = ProviderReturn;

    fn poll(&mut self, cx: &mut CxShared) -> Polled<ProviderReturn> {
        while cx.pop_delivered().is_some() {
            self.left -= 1;
        }
        if self.left == 0 {
            return Polled::Ready(err(ProviderError::not_found("done")));
        }
        match BlobReader::new(BlobId(self.left)).read().poll(cx) {
            Polled::Ready(_) => panic!("nothing was delivered"),
            Polled::Pending => Polled::Pending,
        }
    }
}

fn outcome() -> Vec<CalloutResult> {
    vec![CalloutResult::BlobRead(Vec::new())]
}

fn message(step: &ProviderStep) -> Option<&str> {
    match step {
        ProviderStep::Returned(ProviderReturn {
            result: OpResult::Error(error),
            ..
        }) => Some(error.message.as_str()),
        _ => None,
    }
}

fn asked(step: ProviderStep) -> u64 {
    match step {
        ProviderStep::Suspended(callouts) => match &callouts[..] {
            [Callout::ReadBlob(read)] => read.blob,
            _ => panic!("expected one read"),
        },
        ProviderStep::Returned(_) => panic!("expected a suspension"),
    }
}

#[test]
fn operations_park_until_they_are_resumed() {
    let mut runtime = AsyncRuntime::<Count, ()>::new();
    assert_eq!(asked(runtime.start(1, Cx::new(1, ()), Count { left: 1 })), 1);
    assert_eq!(asked(runtime.start(2, Cx::new(2, ()), Count { left: 4 })), 4);

    assert!(runtime.resume(3, outcome()).is_none());
    assert_eq!(asked(runtime.resume(2, outcome()).unwrap()), 3);
    let step = runtime.resume(1, outcome()).unwrap();
    assert_eq!(message(&step), Some("done"));
    assert!(runtime.resume(1, outcome()).is_none());
    assert_eq!(asked(runtime.resume(2, outcome()).unwrap()), 2);
}

#[test]
fn a_resume_without_results_drops_the_operation() {
    let mut runtime = AsyncRuntime::<Count, ()>::new();
    assert_eq!(asked(runtime.start(1, Cx::new(1, ()), Count { left: 2 })), 2);
    let step = runtime.resume(1, Vec::new()).unwrap();
    assert_eq!(message(&step), Some("expected at least one callout result"));
    assert!(runtime.resume(1, outcome()).is_none());
}

/// Suspends without asking for anything.
struct Stalled;

impl CalloutTask for Stalled {
    type Output = ProviderReturn;

    fn poll(&mut self, _cx: &mut CxShared) -> Polled<ProviderReturn> {
        Polled::Pending
    }
}

/// Answers while a callout is still staged.
struct Hasty;

impl CalloutTask for Hasty {
    type Output = ProviderReturn;

    fn poll(&mut self, cx: &mut CxShared) -> Polled<ProviderReturn> {
        let mut read = BlobReader::new(BlobId(1)).read();
        assert!(matches!(read.poll(cx), Polled::Pending));
        Polled::Ready(err(ProviderError::not_found("done")))
    }
}

#[test]
fn inconsistent_operations_are_internal_errors() {
    let mut stalled = AsyncRuntime::<Stalled, ()>::new();
    let step = stalled.start(1, Cx::new(1, ()), Stalled);
    assert_eq!(
        message(&step),
        Some("future polled Pending without yielding callouts")
    );
    assert!(stalled.resume(1, outcome()).is_none());

    let mut hasty = AsyncRuntime::<Hasty, ()>::new();
    let step = hasty.start(1, Cx::new(1, ()), Hasty);
    assert_eq!(
        message(&step),
        Some("future returned while yielding callouts")
    );
}

#[test]
fn cancelled_and_cleared_operations_are_gone() {
    let mut runtime = AsyncRuntime::<Count, ()>::default();
    for id in 0..10 {
        let step = runtime.start(id, Cx::new(id, ()), Count { left: 20 + id });
        assert_eq!(asked(step), 20 + id);
    }
    runtime.cancel(3);
    runtime.cancel(77);
    assert!(runtime.resume(3, outcome()).is_none());
    assert_eq!(asked(runtime.resume(9, outcome()).unwrap()), 28);
    assert_eq!(asked(runtime.resume(4, outcome()).unwrap()), 23);
    assert_eq!(asked(runtime.resume(0, outcome()).unwrap()), 19);
    runtime.clear();
    for id in 0..10 {
        assert!(runtime.resume(id, outcome()).is_none());
    }
    let step = runtime.start(4, Cx::new(4, ()), Count { left: 0 });
    assert_eq!(message(&step), Some("done"));
    assert!(runtime.resume(4, outcome()).is_none());
}

#[test]
fn restarting_an_operation_replaces_it() {
    let mut runtime = AsyncRuntime::<Count, ()>::new();
    assert_eq!(asked(runtime.start(1, Cx::new(1, ()), Count { left: 9 })), 9);
    assert_eq!(asked(runtime.start(1, Cx::new(1, ()), Count { left: 3 })), 3);
    assert_eq!(asked(runtime.resume(1, outcome()).unwrap()), 2);
}

#[test]
fn range_handles_are_distinct_and_released() {
    let mut readers = RangeReaders::new();
    let a = readers.allocate("a").unwrap();
    let b = readers.allocate("b").unwrap();
    assert_ne!(a, b);
    assert_eq!(readers.get(a), Some(&"a"));
    assert_eq!(readers.get(b), Some(&"b"));
    readers.remove(a);
    assert_eq!(readers.get(a), None);
    let c = readers.allocate("c").unwrap();
    assert_ne!(c, a, "a released handle is not reused at once");
    assert_ne!(c, b);
    readers.clear();
    assert_eq!(readers.get(b), None);
    assert_eq!(RangeReaders::<u8>::default().get(1), None);
}

#[test]
fn blob_reads_ask_for_their_range() {
    let mut cx = Cx::new(1, ());
    let mut whole = cx.blob(BlobId(8)).read();
    assert!(matches!(whole.poll(cx.erase_state()), Polled::Pending));
    let mut part = cx.blob(BlobId(8)).read_range(16, 4);
    assert!(matches!(part.poll(cx.erase_state()), Polled::Pending));
    let yielded = cx.erase_state().take_yielded_callouts();
    assert!(matches!(&yielded[..],
        [Callout::ReadBlob(a), Callout::ReadBlob(b)]
            if (a.blob, a.offset, a.len) == (8, 0, None)
                && (b.blob, b.offset, b.len) == (8, 16, Some(4))));
    cx.erase_state()
        .push_delivered(CalloutResult::BlobRead(b"abcd".to_vec()));
    assert!(matches!(whole.poll(cx.erase_state()), Polled::Ready(Ok(b)) if b == b"abcd".to_vec()));
    cx.erase_state().push_delivered(ok_response(b""));
    assert!(matches!(
        part.poll(cx.erase_state()),
        Polled::Ready(Err(e)) if e.kind() == ProviderErrorKind::Internal
    ));
}

#[test]
fn fetched_blobs_keep_their_metadata() {
    let blob = BlobRef::from_fetched(BlobFetched {
        blob: 3,
        size: 12,
        content_type: Some("text/plain".to_string()),
        etag: None,
        status: 200,
        response_headers: vec![Header {
            name: "X-Size".to_string(),
            value: "12".to_string(),
        }],
    });
    assert_eq!(blob.id().raw(), 3);
    assert_eq!(blob.header("x-size"), Some("12"));
    assert_eq!(blob.header("etag"), None);
    assert!(blob.error_for_status().is_ok());
}

#[test]
fn repositories_open_by_callout() {
    let mut cx = Cx::new(1, ());
    let mut open = cx
        .git()
        .open_repo("k".to_string(), "https://git.test/r.git".to_string());
    assert!(matches!(open.poll(cx.erase_state()), Polled::Pending));
    let yielded = cx.erase_state().take_yielded_callouts();
    assert!(matches!(&yielded[..], [Callout::GitOpenRepo(r)]
        if r.cache_key == "k" && r.clone_url == "https://git.test/r.git"));
    cx.erase_state()
        .push_delivered(CalloutResult::GitRepoOpened(GitRepoInfo { tree: 4 }));
    assert!(matches!(open.poll(cx.erase_state()), Polled::Ready(Ok(info)) if info.tree == 4));
}

#[test]
fn errors_answer_without_effects() {
    let ProviderReturn { result, effects } = err(ProviderError::too_large("big"));
    let OpResult::Error(error) = result else {
        panic!("expected an error");
    };
    assert_eq!(error.kind, ErrorKind::TooLarge);
    assert_eq!(error.message, "big");
    assert!(effects.canonical.is_empty() && effects.fs.is_empty());
    assert!(effects.invalidations.is_empty());
    assert_eq!(
        message(&err_step(ProviderError::internal("x"))),
        Some("x")
    );
}

#[test]
fn pretty_json_ends_with_a_newline() {
    assert_eq!(pretty_json(Ok(b"{}".to_vec())).unwrap(), b"{}\n".to_vec());
    let error = pretty_json(Err("nope".to_string())).unwrap_err();
    assert_eq!(error.kind(), ProviderErrorKind::Internal);
    assert_eq!(error.message(), "JSON encode: nope");
}

#[test]
fn init_carries_the_provider_metadata() {
    let (state, info) = Init::new(1u8, "demo".to_string(), "0.1".to_string())
        .description("a demo".to_string())
        .into_parts();
    assert_eq!(state, 1);
    let ProviderInfo {
        name,
        version,
        description,
    } = info;
    assert_eq!((name.as_str(), version.as_str()), ("demo", "0.1"));
    assert_eq!(description, "a demo");
}
