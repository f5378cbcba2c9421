use std::cell::RefCell;
use std::rc::Rc;

use proxy_wasm::dispatcher::Dispatcher;
use proxy_wasm::error::FatalError;
use proxy_wasm::traits::{
    Context, HttpContext, HttpFactory, RootContext, RootFactory, StreamContext, StreamFactory,
};
use proxy_wasm::types::{Action, ContextType, PeerType};

type Log = Rc<RefCell<Vec<String>>>;

struct TestRoot {
    id: u32,
    log: Log,
    child_kind: Option<ContextType>,
    adhoc_http: bool,
    adhoc_stream: bool,
}

impl Context for TestRoot {
    fn on_done(&mut self) -> bool {
        self.log.borrow_mut().push(format!("root {} done", self.id));
        true
    }

    fn on_log(&mut self) {
        self.log.borrow_mut().push(format!("root {} log", self.id));
    }

    fn on_http_call_response(
        &mut self,
        token_id: u32,
        _num_headers: usize,
        _body_size: usize,
        _num_trailers: usize,
    ) {
        self.log.borrow_mut().push(format!("root {} call_response {}", self.id, token_id));
    }
}

impl RootContext<TestStream, TestHttp> for TestRoot {
    fn on_vm_start(&mut self, vm_configuration_size: usize) -> bool {
        self.log.borrow_mut().push(format!("root {} vm_start {}", self.id, vm_configuration_size));
        true
    }

    fn on_configure(&mut self, plugin_configuration_size: usize) -> bool {
        self.log
            .borrow_mut()
            .push(format!("root {} configure {}", self.id, plugin_configuration_size));
        true
    }

    fn on_tick(&mut self) {
        self.log.borrow_mut().push(format!("root {} tick", self.id));
    }

    fn on_queue_ready(&mut self, queue_id: u32) {
        self.log.borrow_mut().push(format!("root {} queue_ready {}", self.id, queue_id));
    }

    fn create_http_context(&mut self, context_id: u32) -> Option<TestHttp> {
        if self.adhoc_http {
            self.log.borrow_mut().push(format!("root {} adhoc http {}", self.id, context_id));
            Some(TestHttp { id: context_id, log: self.log.clone() })
        } else {
            None
        }
    }

    fn create_stream_context(&mut self, context_id: u32) -> Option<TestStream> {
        if self.adhoc_stream {
            self.log.borrow_mut().push(format!("root {} adhoc stream {}", self.id, context_id));
            Some(TestStream { id: context_id, log: self.log.clone() })
        } else {
            None
        }
    }

    fn get_type(&self) -> Option<ContextType> {
        self.child_kind
    }
}

struct TestStream {
    id: u32,
    log: Log,
}

impl Context for TestStream {
    fn on_http_call_response(
        &mut self,
        token_id: u32,
        _num_headers: usize,
        _body_size: usize,
        _num_trailers: usize,
    ) {
        self.log.borrow_mut().push(format!("stream {} call_response {}", self.id, token_id));
    }
}

impl StreamContext for TestStream {
    fn on_new_connection(&mut self) -> Action {
        self.log.borrow_mut().push(format!("stream {} new_connection", self.id));
        Action::Continue
    }

    fn on_downstream_data(&mut self, data_size: usize, end_of_stream: bool) -> Action {
        self.log
            .borrow_mut()
            .push(format!("stream {} downstream_data {} {}", self.id, data_size, end_of_stream));
        Action::Pause
    }

    fn on_upstream_data(&mut self, data_size: usize, end_of_stream: bool) -> Action {
        self.log
            .borrow_mut()
            .push(format!("stream {} upstream_data {} {}", self.id, data_size, end_of_stream));
        Action::Continue
    }
}

struct TestHttp {
    id: u32,
    log: Log,
}

impl Context for TestHttp {
    fn on_http_call_response(
        &mut self,
        token_id: u32,
        _num_headers: usize,
        _body_size: usize,
        _num_trailers: usize,
    ) {
        self.log.borrow_mut().push(format!("http {} call_response {}", self.id, token_id));
    }
}

impl HttpContext for TestHttp {
    fn on_http_request_headers(&mut self, num_headers: usize, end_of_stream: bool) -> Action {
        self.log
            .borrow_mut()
            .push(format!("http {} request_headers {} {}", self.id, num_headers, end_of_stream));
        Action::Continue
    }

    fn on_http_response_body(&mut self, body_size: usize, end_of_stream: bool) -> Action {
        self.log
            .borrow_mut()
            .push(format!("http {} response_body {} {}", self.id, body_size, end_of_stream));
        Action::Pause
    }
}

struct TestRootFactory {
    log: Log,
    child_kind: Option<ContextType>,
    adhoc_http: bool,
    adhoc_stream: bool,
}

impl RootFactory<TestRoot> for TestRootFactory {
    fn new_root_context(&mut self, context_id: u32) -> TestRoot {
        self.log.borrow_mut().push(format!("root factory {}", context_id));
        TestRoot {
            id: context_id,
            log: self.log.clone(),
            child_kind: self.child_kind,
            adhoc_http: self.adhoc_http,
            adhoc_stream: self.adhoc_stream,
        }
    }
}

struct TestStreamFactory {
    log: Log,
}

impl StreamFactory<TestStream> for TestStreamFactory {
    fn new_stream_context(&mut self, context_id: u32, root_context_id: u32) -> TestStream {
        self.log.borrow_mut().push(format!("stream factory {} {}", context_id, root_context_id));
        TestStream { id: context_id, log: self.log.clone() }
    }
}

struct TestHttpFactory {
    log: Log,
}

impl HttpFactory<TestHttp> for TestHttpFactory {
    fn new_http_context(&mut self, context_id: u32, root_context_id: u32) -> TestHttp {
        self.log.borrow_mut().push(format!("http factory {} {}", context_id, root_context_id));
        TestHttp { id: context_id, log: self.log.clone() }
    }
}

type TestDispatcher =
    Dispatcher<TestStream, TestHttp, TestRoot, TestRootFactory, TestStreamFactory, TestHttpFactory>;

fn new_log() -> Log {
    Rc::new(RefCell::new(Vec::new()))
}

fn plain_root_factory(log: &Log) -> TestRootFactory {
    TestRootFactory { log: log.clone(), child_kind: None, adhoc_http: false, adhoc_stream: false }
}

#[test]
fn test_create_http_child_and_route() {
    let log = new_log();
    let mut d: TestDispatcher = Dispatcher::new();
    d.set_root_context(plain_root_factory(&log));
    d.set_http_context(TestHttpFactory { log: log.clone() });

    d.on_create_context(1, 0).unwrap();
    assert!(d.is_root_context(1));

    d.on_create_context(2, 1).unwrap();
    assert!(d.is_http_context(2));
    assert!(!d.is_stream_context(2));
    assert!(!d.is_root_context(2));

    let action = d.on_http_request_headers(2, 5, false).unwrap();
    assert_eq!(action, Action::Continue);
    assert_eq!(d.active_context_id(), 2);
    assert!(log.borrow().contains(&"http 2 request_headers 5 false".to_string()));

    d.on_delete(2).unwrap();
    assert_eq!(
        d.on_http_request_headers(2, 1, true),
        Err(FatalError::InvalidContextId { context_id: 2 })
    );
}

#[test]
fn test_duplicate_context_id_fatal() {
    let log = new_log();
    let mut d: TestDispatcher = Dispatcher::new();
    d.set_root_context(plain_root_factory(&log));
    d.set_http_context(TestHttpFactory { log: log.clone() });

    d.on_create_context(1, 0).unwrap();
    assert_eq!(
        d.on_create_context(1, 0),
        Err(FatalError::DuplicateContextId { context_id: 1 })
    );

    d.on_create_context(2, 1).unwrap();
    assert_eq!(
        d.on_create_context(2, 1),
        Err(FatalError::DuplicateContextId { context_id: 2 })
    );
    // The same id may not recur in another role either.
    assert_eq!(
        d.on_create_context(1, 1),
        Err(FatalError::DuplicateContextId { context_id: 1 })
    );
}

#[test]
fn test_route_to_unknown_id_fatal() {
    let log = new_log();
    let mut d: TestDispatcher = Dispatcher::new();
    d.set_root_context(plain_root_factory(&log));
    d.on_create_context(1, 0).unwrap();

    assert_eq!(d.on_tick(9), Err(FatalError::InvalidContextId { context_id: 9 }));
    assert_eq!(d.on_done(9), Err(FatalError::InvalidContextId { context_id: 9 }));
    assert_eq!(d.on_log(9), Err(FatalError::InvalidContextId { context_id: 9 }));
    assert_eq!(d.on_new_connection(9), Err(FatalError::InvalidContextId { context_id: 9 }));
    assert_eq!(
        d.on_http_request_headers(9, 0, false),
        Err(FatalError::InvalidContextId { context_id: 9 })
    );
    assert_eq!(d.on_delete(9), Err(FatalError::InvalidContextId { context_id: 9 }));
}

#[test]
fn test_construction_precedence_global_over_adhoc() {
    let log = new_log();
    let mut d: TestDispatcher = Dispatcher::new();
    // The root offers ad-hoc stream synthesis that always succeeds...
    d.set_root_context(TestRootFactory {
        log: log.clone(),
        child_kind: None,
        adhoc_http: false,
        adhoc_stream: true,
    });
    // ...but a global HTTP factory is also configured, and takes precedence.
    d.set_http_context(TestHttpFactory { log: log.clone() });

    d.on_create_context(1, 0).unwrap();
    d.on_create_context(2, 1).unwrap();

    assert!(d.is_http_context(2));
    assert!(!d.is_stream_context(2));
    assert!(log.borrow().contains(&"http factory 2 1".to_string()));
    assert!(!log.borrow().iter().any(|line| line.starts_with("root 1 adhoc")));
}

#[test]
fn test_construction_strategies() {
    // No factories at all: the root table receives the built-in no-op
    // handler, which accepts every event and cannot parent children.
    let mut bare: TestDispatcher = Dispatcher::new();
    bare.on_create_context(1, 0).unwrap();
    assert!(bare.is_root_context(1));
    assert_eq!(bare.on_vm_start(1, 11), Ok(true));
    assert_eq!(bare.on_configure(1, 22), Ok(true));
    assert_eq!(bare.on_done(1), Ok(true));
    assert_eq!(bare.on_log(1), Ok(()));
    assert_eq!(
        bare.on_create_context(2, 1),
        Err(FatalError::MissingContextType { root_context_id: 1 })
    );

    // A child of an unregistered parent is fatal.
    assert_eq!(
        bare.on_create_context(3, 7),
        Err(FatalError::InvalidRootContextId { root_context_id: 7 })
    );

    // Global stream factory, with no HTTP factory: children are streams.
    let log = new_log();
    let mut streaming: TestDispatcher = Dispatcher::new();
    streaming.set_root_context(plain_root_factory(&log));
    streaming.set_stream_context(TestStreamFactory { log: log.clone() });
    streaming.on_create_context(1, 0).unwrap();
    streaming.on_create_context(2, 1).unwrap();
    assert!(streaming.is_stream_context(2));

    // Ad-hoc synthesis: HTTP is preferred over stream when the root
    // offers both.
    let log2 = new_log();
    let mut adhoc: TestDispatcher = Dispatcher::new();
    adhoc.set_root_context(TestRootFactory {
        log: log2.clone(),
        child_kind: None,
        adhoc_http: true,
        adhoc_stream: true,
    });
    adhoc.on_create_context(1, 0).unwrap();
    adhoc.on_create_context(2, 1).unwrap();
    assert!(adhoc.is_http_context(2));

    // Ad-hoc synthesis falls back to the stream kind when the root
    // declines an HTTP child.
    let log3 = new_log();
    let mut adhoc_stream: TestDispatcher = Dispatcher::new();
    adhoc_stream.set_root_context(TestRootFactory {
        log: log3.clone(),
        child_kind: None,
        adhoc_http: false,
        adhoc_stream: true,
    });
    adhoc_stream.on_create_context(1, 0).unwrap();
    adhoc_stream.on_create_context(2, 1).unwrap();
    assert!(adhoc_stream.is_stream_context(2));

    // A root that only announces a kind but then declines to synthesize
    // the child is fatal, naming the announced kind.
    let log4 = new_log();
    let mut announcing: TestDispatcher = Dispatcher::new();
    announcing.set_root_context(TestRootFactory {
        log: log4.clone(),
        child_kind: Some(ContextType::HttpContext),
        adhoc_http: false,
        adhoc_stream: false,
    });
    announcing.on_create_context(1, 0).unwrap();
    assert_eq!(
        announcing.on_create_context(2, 1),
        Err(FatalError::HttpChildDeclined { context_id: 2 })
    );

    let log5 = new_log();
    let mut announcing_stream: TestDispatcher = Dispatcher::new();
    announcing_stream.set_root_context(TestRootFactory {
        log: log5.clone(),
        child_kind: Some(ContextType::StreamContext),
        adhoc_http: false,
        adhoc_stream: false,
    });
    announcing_stream.on_create_context(1, 0).unwrap();
    assert_eq!(
        announcing_stream.on_create_context(2, 1),
        Err(FatalError::StreamChildDeclined { context_id: 2 })
    );
}

#[test]
fn test_creation_sequence_one_table_per_id() {
    let log = new_log();
    let mut d: TestDispatcher = Dispatcher::new();
    d.set_root_context(plain_root_factory(&log));
    d.set_stream_context(TestStreamFactory { log: log.clone() });

    d.on_create_context(1, 0).unwrap();
    d.on_create_context(2, 1).unwrap();
    d.on_create_context(3, 0).unwrap();
    d.on_create_context(4, 3).unwrap();
    d.on_create_context(5, 1).unwrap();

    for id in [1u32, 2, 3, 4, 5] {
        assert!(d.contains_context(id));
        let tables = [d.is_root_context(id), d.is_stream_context(id), d.is_http_context(id)];
        assert_eq!(tables.iter().filter(|held| **held).count(), 1);
    }
    assert!(!d.contains_context(6));
}

#[test]
fn test_stream_events() {
    let log = new_log();
    let mut d: TestDispatcher = Dispatcher::new();
    d.set_root_context(plain_root_factory(&log));
    d.set_stream_context(TestStreamFactory { log: log.clone() });
    d.on_create_context(1, 0).unwrap();
    d.on_create_context(2, 1).unwrap();

    assert_eq!(d.on_new_connection(2), Ok(Action::Continue));
    assert_eq!(d.on_downstream_data(2, 128, false), Ok(Action::Pause));
    assert_eq!(d.on_upstream_data(2, 64, true), Ok(Action::Continue));
    assert_eq!(d.on_downstream_close(2, PeerType::Remote), Ok(()));
    assert_eq!(d.on_upstream_close(2, PeerType::Local), Ok(()));
    assert_eq!(d.active_context_id(), 2);

    // A stream id is not an HTTP id: HTTP events to it are fatal.
    assert_eq!(
        d.on_http_request_headers(2, 1, false),
        Err(FatalError::InvalidContextId { context_id: 2 })
    );

    assert!(log.borrow().contains(&"stream 2 downstream_data 128 false".to_string()));
}

#[test]
fn test_root_events() {
    let log = new_log();
    let mut d: TestDispatcher = Dispatcher::new();
    d.set_root_context(plain_root_factory(&log));
    d.on_create_context(1, 0).unwrap();

    assert_eq!(d.on_vm_start(1, 100), Ok(true));
    assert_eq!(d.on_configure(1, 200), Ok(true));
    assert_eq!(d.on_tick(1), Ok(()));
    assert_eq!(d.on_queue_ready(1, 17), Ok(()));
    assert_eq!(d.active_context_id(), 1);

    let lines = log.borrow().clone();
    assert!(lines.contains(&"root 1 vm_start 100".to_string()));
    assert!(lines.contains(&"root 1 configure 200".to_string()));
    assert!(lines.contains(&"root 1 tick".to_string()));
    assert!(lines.contains(&"root 1 queue_ready 17".to_string()));
}

#[test]
fn test_callout_register_and_resolve() {
    let log = new_log();
    let mut d: TestDispatcher = Dispatcher::new();
    d.set_root_context(plain_root_factory(&log));
    d.on_create_context(1, 0).unwrap();
    d.on_tick(1).unwrap();

    d.register_callout(42).unwrap();
    assert!(d.has_outstanding_callout(42));
    assert_eq!(d.register_callout(42), Err(FatalError::DuplicateToken { token_id: 42 }));

    assert_eq!(d.resolve_callout(42), Ok(Some(1)));
    assert!(!d.has_outstanding_callout(42));
    assert_eq!(d.resolve_callout(42), Err(FatalError::UnknownToken { token_id: 42 }));

    // Deliver the response to the still-live owner.
    d.register_callout(43).unwrap();
    assert_eq!(d.resolve_callout(43), Ok(Some(1)));
    assert!(d.deliver_http_call_response(1, 43, 3, 16, 0));
    assert_eq!(d.active_context_id(), 1);
    assert!(log.borrow().contains(&"root 1 call_response 43".to_string()));
}

#[test]
fn test_callout_response_for_deleted_context() {
    let log = new_log();
    let mut d: TestDispatcher = Dispatcher::new();
    d.set_root_context(plain_root_factory(&log));
    d.on_create_context(5, 0).unwrap();
    d.on_tick(5).unwrap();

    d.register_callout(42).unwrap();
    d.on_delete(5).unwrap();

    // The response arrives for a deleted context: the token is consumed,
    // nothing is fatal, and no handler is invoked.
    assert_eq!(d.resolve_callout(42), Ok(None));
    assert!(!d.has_outstanding_callout(42));
    assert!(!d.deliver_http_call_response(5, 42, 0, 0, 0));
    assert!(!log.borrow().iter().any(|line| line.contains("call_response")));
}

#[test]
fn test_remove_is_not_idempotent() {
    let log = new_log();
    let mut d: TestDispatcher = Dispatcher::new();
    d.set_root_context(plain_root_factory(&log));
    d.on_create_context(1, 0).unwrap();

    assert_eq!(d.on_delete(1), Ok(()));
    assert_eq!(d.on_delete(1), Err(FatalError::InvalidContextId { context_id: 1 }));
}

#[test]
fn test_handler_origin_reaches_table() {
    let log = new_log();
    let mut d: TestDispatcher = Dispatcher::new();
    d.set_root_context(TestRootFactory {
        log: log.clone(),
        child_kind: None,
        adhoc_http: true,
        adhoc_stream: false,
    });
    d.on_create_context(1, 0).unwrap();
    d.on_create_context(2, 1).unwrap();
    assert!(d.is_http_context(2));
    assert!(log.borrow().contains(&"root 1 adhoc http 2".to_string()));

    // The ad-hoc handler, not a factory-made one, receives the events.
    d.on_http_response_body(2, 9, true).unwrap();
    assert!(log.borrow().contains(&"http 2 response_body 9 true".to_string()));
}
