use busstop::DispatchedCommand;
use busstop::DispatchedQuery;

const Q_KEY: u64 = 31;
const INT_KEY: u64 = 32;
const STRING_KEY: u64 = 33;
const CMD_KEY: u64 = 34;
const OTHER_KEY: u64 = 35;

#[test]
fn test_set_value_is_write_once() {
    let mut q: DispatchedQuery<i64> = DispatchedQuery::new(0, Q_KEY);
    assert_eq!(q.set_value(42, INT_KEY), true);
    // The value reads back under the key it was set with, and only that one.
    assert_eq!(q.value(INT_KEY), Some(&42));
    assert_eq!(q.value(STRING_KEY), None);
    // A second write is dropped: the first-set value wins.
    assert_eq!(q.set_value(7, INT_KEY), false);
    assert_eq!(q.value(INT_KEY), Some(&42));
}

#[test]
fn test_take_value_consumes_the_result() {
    let mut q: DispatchedQuery<i64> = DispatchedQuery::new(0, Q_KEY);
    q.set_value(42, INT_KEY);
    assert_eq!(q.take_value(INT_KEY), Some(42));
    assert_eq!(q.take_value(INT_KEY), None);
    assert_eq!(q.value(INT_KEY), None);
}

#[test]
fn test_take_value_with_wrong_key_consumes_without_returning() {
    let mut q: DispatchedQuery<i64> = DispatchedQuery::new(0, Q_KEY);
    q.set_value(42, INT_KEY);
    assert_eq!(q.take_value(STRING_KEY), None);
    assert_eq!(q.value(INT_KEY), None);
}

#[test]
fn test_value_type_is_checks_without_unwrapping() {
    let mut q: DispatchedQuery<i64> = DispatchedQuery::new(0, Q_KEY);
    assert_eq!(q.value_type_is(INT_KEY), false);
    q.set_value(42, INT_KEY);
    assert_eq!(q.value_type_is(INT_KEY), true);
    assert_eq!(q.value_type_is(STRING_KEY), false);
}

#[test]
fn test_take_query_is_one_shot() {
    let mut q: DispatchedQuery<String> = DispatchedQuery::new("payload".to_string(), Q_KEY);
    assert_eq!(q.the_query(Q_KEY), Some(&"payload".to_string()));
    assert_eq!(q.take_query(Q_KEY), Some("payload".to_string()));
    assert_eq!(q.take_query(Q_KEY), None);
    assert_eq!(q.the_query(Q_KEY), None);
}

#[test]
fn test_take_command_is_one_shot() {
    let mut c: DispatchedCommand<u32> = DispatchedCommand::new(9, CMD_KEY);
    assert_eq!(c.the_command(CMD_KEY), Some(&9));
    assert_eq!(c.take_command(CMD_KEY), Some(9));
    assert_eq!(c.take_command(CMD_KEY), None);
    assert_eq!(c.the_command(CMD_KEY), None);
}

#[test]
fn test_command_accessors_check_the_key() {
    let mut c: DispatchedCommand<u32> = DispatchedCommand::new(9, CMD_KEY);
    assert_eq!(c.the_command(OTHER_KEY), None);
    assert_eq!(c.the_command_mut(OTHER_KEY), None);
    assert_eq!(c.the_command(CMD_KEY), Some(&9));
}

#[test]
fn test_take_command_with_wrong_key_consumes_without_returning() {
    let mut c: DispatchedCommand<u32> = DispatchedCommand::new(9, CMD_KEY);
    assert_eq!(c.take_command(OTHER_KEY), None);
    assert_eq!(c.the_command(CMD_KEY), None);
}

#[test]
fn test_envelope_identity() {
    let c: DispatchedCommand<u32> = DispatchedCommand::new(9, CMD_KEY);
    assert_eq!(c.name(), CMD_KEY);
    assert_eq!(c.is(CMD_KEY), true);
    assert_eq!(c.is(OTHER_KEY), false);
    assert_eq!(c.handled(), false);

    let q: DispatchedQuery<u32> = DispatchedQuery::new(9, Q_KEY);
    assert_eq!(q.name(), Q_KEY);
    assert_eq!(q.is(Q_KEY), true);
    assert_eq!(q.is(OTHER_KEY), false);
    assert_eq!(q.handled(), false);
}

#[test]
fn test_the_query_mut_rewrites_the_payload() {
    let mut q: DispatchedQuery<i64> = DispatchedQuery::new(10, Q_KEY);
    if let Some(v) = q.the_query_mut(Q_KEY) {
        *v += 2;
    }
    assert_eq!(q.the_query(Q_KEY), Some(&12));
}
