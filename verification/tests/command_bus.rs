use busstop::Busstop;
use busstop::CommandHandler;
use busstop::CommandMiddleware;
use busstop::DispatchedCommand;
use busstop::DispatchedCommandView;
use busstop::DispatchedQuery;
use busstop::DispatchedQueryView;
use busstop::MiddlewareFlow;
use busstop::QueryHandler;
use busstop::QueryMiddleware;

/// Payload union for the command tests in this file.
#[derive(Debug, PartialEq)]
enum Payload {
    Foo,
    Broadcast { message: String, attempts: i32 },
    CreateUser { email: String },
}

const FOO_KEY: u64 = 1;
const BROADCAST_KEY: u64 = 2;
const CREATE_USER_KEY: u64 = 3;

enum TestCommandHandler {
    Echo,
    CheckBroadcastRef,
    CheckBroadcastMutRef,
    TakeBroadcast,
    CheckCreateUser,
}

impl CommandHandler<Payload> for TestCommandHandler {
    // The ghost half of the trait; never consulted at run time.
    fn spec_handle(&self, command: DispatchedCommandView<Payload>) -> DispatchedCommandView<Payload> {
        command
    }

    fn handle_command(&self, command: DispatchedCommand<Payload>) -> DispatchedCommand<Payload> {
        let mut dispatched = command;
        match self {
            TestCommandHandler::Echo => dispatched,
            TestCommandHandler::CheckBroadcastRef => {
                let command = dispatched.the_command(BROADCAST_KEY);
                assert_eq!(command.is_some(), true, "Could not get the dispatched command");
                match command.unwrap() {
                    Payload::Broadcast { message, .. } => assert_eq!(message, "--test--"),
                    _ => panic!("wrong payload variant"),
                }
                dispatched
            }
            TestCommandHandler::CheckBroadcastMutRef => {
                let command = dispatched.the_command_mut(BROADCAST_KEY);
                assert_eq!(command.is_some(), true, "Could not get the dispatched command");
                if let Some(Payload::Broadcast { message, attempts }) = command {
                    assert_eq!(message, "--test--");
                    *attempts = 10;
                    assert_eq!(*attempts, 10);
                } else {
                    panic!("wrong payload variant");
                }
                dispatched
            }
            TestCommandHandler::TakeBroadcast => {
                let command = dispatched.take_command(BROADCAST_KEY);
                assert_eq!(command.is_some(), true, "Could not get the dispatched command");
                if let Some(Payload::Broadcast { message, mut attempts }) = command {
                    assert_eq!(message, "--test--");
                    attempts += 10;
                    assert_eq!(attempts, 10);
                } else {
                    panic!("wrong payload variant");
                }
                let command = dispatched.take_command(BROADCAST_KEY);
                assert_eq!(command.is_none(), true, "Expect none");
                dispatched
            }
            TestCommandHandler::CheckCreateUser => {
                match dispatched.the_command(CREATE_USER_KEY) {
                    Some(Payload::CreateUser { email }) => assert_eq!(email, "a@b.com"),
                    _ => panic!("handler did not observe the payload"),
                }
                dispatched
            }
        }
    }

    fn command_handler_name(&self) -> String {
        "TestCommandHandler".to_string()
    }
}

struct NoCommandMiddleware;

impl CommandMiddleware<Payload> for NoCommandMiddleware {
    // The ghost half of the trait; never consulted at run time.
    fn spec_on_command(
        &self,
        command: DispatchedCommandView<Payload>,
    ) -> MiddlewareFlow<DispatchedCommandView<Payload>> {
        MiddlewareFlow::Continue(command)
    }

    fn on_command(
        &self,
        command: DispatchedCommand<Payload>,
    ) -> MiddlewareFlow<DispatchedCommand<Payload>> {
        MiddlewareFlow::Continue(command)
    }
}

struct NoQueryHandler;

impl QueryHandler<Payload> for NoQueryHandler {
    // The ghost half of the trait; never consulted at run time.
    fn spec_handle(&self, query: DispatchedQueryView<Payload>) -> DispatchedQueryView<Payload> {
        query
    }

    fn handle_query(&self, query: DispatchedQuery<Payload>) -> DispatchedQuery<Payload> {
        query
    }

    fn query_handler_name(&self) -> String {
        "NoQueryHandler".to_string()
    }
}

struct NoQueryMiddleware;

impl QueryMiddleware<Payload> for NoQueryMiddleware {
    // The ghost half of the trait; never consulted at run time.
    fn spec_on_query(
        &self,
        query: DispatchedQueryView<Payload>,
    ) -> MiddlewareFlow<DispatchedQueryView<Payload>> {
        MiddlewareFlow::Continue(query)
    }

    fn on_query(
        &self,
        query: DispatchedQuery<Payload>,
    ) -> MiddlewareFlow<DispatchedQuery<Payload>> {
        MiddlewareFlow::Continue(query)
    }
}

type TestBus = Busstop<
    Payload,
    TestCommandHandler,
    NoCommandMiddleware,
    NoQueryHandler,
    NoQueryMiddleware,
>;

#[test]
fn test_command_without_handler() {
    let bus: TestBus = Busstop::new();
    let handled = bus.dispatch_command(Payload::Foo, FOO_KEY);
    assert_eq!(handled, false);
}

#[test]
fn test_command_with_handler() {
    let mut bus: TestBus = Busstop::new();
    bus.register_command(FOO_KEY, TestCommandHandler::Echo).unwrap();
    let handled = bus.dispatch_command(Payload::Foo, FOO_KEY);
    assert_eq!(handled, true);
}

#[test]
fn test_get_command_ref() {
    let mut bus: TestBus = Busstop::new();
    bus.register_command(BROADCAST_KEY, TestCommandHandler::CheckBroadcastRef).unwrap();
    let handled = bus.dispatch_command(
        Payload::Broadcast { message: String::from("--test--"), attempts: 0 },
        BROADCAST_KEY,
    );
    assert_eq!(handled, true);
}

#[test]
fn test_get_command_mut_ref() {
    let mut bus: TestBus = Busstop::new();
    bus.register_command(BROADCAST_KEY, TestCommandHandler::CheckBroadcastMutRef).unwrap();
    let handled = bus.dispatch_command(
        Payload::Broadcast { message: String::from("--test--"), attempts: 0 },
        BROADCAST_KEY,
    );
    assert_eq!(handled, true);
}

#[test]
fn test_take_command() {
    let mut bus: TestBus = Busstop::new();
    bus.register_command(BROADCAST_KEY, TestCommandHandler::TakeBroadcast).unwrap();
    let handled = bus.dispatch_command(
        Payload::Broadcast { message: String::from("--test--"), attempts: 0 },
        BROADCAST_KEY,
    );
    assert_eq!(handled, true);
}

#[test]
fn test_register_command_handler_observes_payload() {
    let mut bus: TestBus = Busstop::new();
    bus.register_command(CREATE_USER_KEY, TestCommandHandler::CheckCreateUser).unwrap();
    let handled = bus.dispatch_command(
        Payload::CreateUser { email: "a@b.com".to_string() },
        CREATE_USER_KEY,
    );
    assert_eq!(handled, true);
}

#[test]
fn test_duplicate_command_registration_fails_and_keeps_first() {
    let mut bus: TestBus = Busstop::new();
    bus.register_command(BROADCAST_KEY, TestCommandHandler::CheckBroadcastRef).unwrap();
    let second = bus.register_command(BROADCAST_KEY, TestCommandHandler::Echo);
    assert_eq!(second.is_err(), true);
    assert_eq!(second.unwrap_err().key, BROADCAST_KEY);
    // The first handler is still active and callable: it checks the payload.
    let handled = bus.dispatch_command(
        Payload::Broadcast { message: String::from("--test--"), attempts: 0 },
        BROADCAST_KEY,
    );
    assert_eq!(handled, true);
    assert_eq!(bus.command_has_handler(BROADCAST_KEY), true);
}

#[test]
fn test_command_has_handler_reports_registration() {
    let mut bus: TestBus = Busstop::new();
    assert_eq!(bus.command_has_handler(FOO_KEY), false);
    bus.register_command(FOO_KEY, TestCommandHandler::Echo).unwrap();
    assert_eq!(bus.command_has_handler(FOO_KEY), true);
    assert_eq!(bus.command_has_handler(BROADCAST_KEY), false);
}
