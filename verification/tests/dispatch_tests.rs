use std::cell::RefCell;
use std::rc::Rc;

use dbus_nonblock::Connection;
use dbus_nonblock::FilterHandler;
use dbus_nonblock::MatchRule;
use dbus_nonblock::Message;
use dbus_nonblock::MsgArg;
use dbus_nonblock::MsgKind;
use dbus_nonblock::ReplyHandler;
use dbus_nonblock::Transport;

struct MockTransport {
    sent: Rc<RefCell<Vec<Message>>>,
    next_serial: u32,
    fail_send: bool,
}

impl MockTransport {
    fn new(first_serial: u32) -> (Self, Rc<RefCell<Vec<Message>>>) {
        let sent = Rc::new(RefCell::new(Vec::new()));
        (MockTransport { sent: sent.clone(), next_serial: first_serial, fail_send: false }, sent)
    }
}

impl Transport for MockTransport {
    fn send_msg(&mut self, m: Message) -> Result<u32, ()> {
        if self.fail_send {
            return Err(());
        }
        let s = self.next_serial;
        self.next_serial += 1;
        self.sent.borrow_mut().push(m);
        Ok(s)
    }

    fn pop_message(&mut self) -> Option<Message> {
        None
    }

    fn unique_name(&self) -> Option<String> {
        Some(":1.0".to_string())
    }
}

struct CountingFilter {
    hits: Rc<RefCell<u32>>,
    keep: bool,
}

impl FilterHandler for CountingFilter {
    fn handle(&mut self, _m: &Message) -> bool {
        *self.hits.borrow_mut() += 1;
        self.keep
    }
}

struct RecordingReply {
    delivered: Rc<RefCell<Vec<Message>>>,
}

impl ReplyHandler for RecordingReply {
    fn complete(self, m: Message) {
        self.delivered.borrow_mut().push(m);
    }
}

type TestConn = Connection<MockTransport, CountingFilter, RecordingReply>;

fn signal(member: &str) -> Message {
    Message {
        kind: MsgKind::Signal,
        serial: 0,
        reply_serial: None,
        sender: Some(":1.9".to_string()),
        destination: None,
        path: Some("/org/example".to_string()),
        interface: Some("org.example.Iface".to_string()),
        member: Some(member.to_string()),
        expects_reply: false,
        body: Vec::new(),
    }
}

fn reply_to(serial: u64) -> Message {
    Message {
        kind: MsgKind::MethodReturn,
        serial: 0,
        reply_serial: Some(serial),
        sender: Some(":1.9".to_string()),
        destination: None,
        path: None,
        interface: None,
        member: None,
        expects_reply: false,
        body: vec![MsgArg::U32(1)],
    }
}

fn member_rule(member: &str) -> MatchRule {
    let mut r = MatchRule::match_all();
    r.member = Some(member.to_string());
    r
}

fn outgoing_call() -> Message {
    Message {
        kind: MsgKind::MethodCall,
        serial: 0,
        reply_serial: None,
        sender: None,
        destination: Some("org.example.Svc".to_string()),
        path: Some("/org/example".to_string()),
        interface: Some("org.example.Iface".to_string()),
        member: Some("Frob".to_string()),
        expects_reply: true,
        body: Vec::new(),
    }
}

#[test]
fn reply_table_holds_one_entry_per_token() {
    let (t, _sent) = MockTransport::new(1);
    let mut conn: TestConn = Connection::new(t);
    let delivered = Rc::new(RefCell::new(Vec::new()));
    let t1 = conn
        .send_with_reply(outgoing_call(), RecordingReply { delivered: delivered.clone() })
        .unwrap();
    let t2 = conn
        .send_with_reply(outgoing_call(), RecordingReply { delivered: delivered.clone() })
        .unwrap();
    assert_ne!(t1, t2);
    assert_eq!(conn.reply_count(), 2);

    // a reply correlated with t1 removes exactly that entry and fires it once
    conn.process_batch(vec![reply_to(t1)]);
    assert_eq!(delivered.borrow().len(), 1);
    assert!(!conn.has_pending_reply(t1));
    assert!(conn.has_pending_reply(t2));
    assert_eq!(conn.reply_count(), 1);

    // a second reply with the same correlation finds no entry
    conn.process_batch(vec![reply_to(t1)]);
    assert_eq!(delivered.borrow().len(), 1);
    assert_eq!(conn.reply_count(), 1);
}

#[test]
fn filter_returning_false_never_fires_again() {
    let (t, _sent) = MockTransport::new(1);
    let mut conn: TestConn = Connection::new(t);
    let hits = Rc::new(RefCell::new(0));
    conn.start_receive(MatchRule::match_all(), CountingFilter { hits: hits.clone(), keep: false });
    conn.process_batch(vec![signal("A"), signal("B")]);
    assert_eq!(*hits.borrow(), 1);
    assert_eq!(conn.filter_count(), 0);
    conn.process_batch(vec![signal("C")]);
    assert_eq!(*hits.borrow(), 1);
}

#[test]
fn filter_returning_true_remains_registered() {
    let (t, _sent) = MockTransport::new(1);
    let mut conn: TestConn = Connection::new(t);
    let hits = Rc::new(RefCell::new(0));
    let tok = conn
        .start_receive(MatchRule::match_all(), CountingFilter { hits: hits.clone(), keep: true });
    conn.process_batch(vec![signal("A"), signal("B")]);
    assert_eq!(*hits.borrow(), 2);
    assert_eq!(conn.filter_count(), 1);
    assert!(conn.stop_receive(tok).is_some());
    assert_eq!(conn.filter_count(), 0);
}

#[test]
fn reply_delivery_takes_precedence_over_filters() {
    let (t, _sent) = MockTransport::new(5);
    let mut conn: TestConn = Connection::new(t);
    let hits = Rc::new(RefCell::new(0));
    conn.start_receive(MatchRule::match_all(), CountingFilter { hits: hits.clone(), keep: true });
    let delivered = Rc::new(RefCell::new(Vec::new()));
    let tok = conn
        .send_with_reply(outgoing_call(), RecordingReply { delivered: delivered.clone() })
        .unwrap();
    assert_eq!(tok, 5);

    // this message matches the catch-all filter and carries a live correlation
    conn.process_batch(vec![reply_to(tok)]);
    assert_eq!(delivered.borrow().len(), 1);
    assert_eq!(*hits.borrow(), 0);
    assert_eq!(conn.filter_count(), 1);
    assert!(!conn.has_pending_reply(tok));

    // with the entry consumed, the same message now goes to the filter
    conn.process_batch(vec![reply_to(tok)]);
    assert_eq!(*hits.borrow(), 1);
}

#[test]
fn first_matching_filter_fires_in_insertion_order() {
    let (t, _sent) = MockTransport::new(1);
    let mut conn: TestConn = Connection::new(t);
    let hits_a = Rc::new(RefCell::new(0));
    let hits_all = Rc::new(RefCell::new(0));
    conn.start_receive(member_rule("A"), CountingFilter { hits: hits_a.clone(), keep: true });
    conn.start_receive(MatchRule::match_all(), CountingFilter { hits: hits_all.clone(), keep: true });

    conn.process_batch(vec![signal("A")]);
    assert_eq!(*hits_a.borrow(), 1);
    assert_eq!(*hits_all.borrow(), 0);

    // the surviving first filter keeps its place in the order
    conn.process_batch(vec![signal("A"), signal("B")]);
    assert_eq!(*hits_a.borrow(), 2);
    assert_eq!(*hits_all.borrow(), 1);
}

#[test]
fn unhandled_call_gets_one_default_error_reply() {
    let (t, sent) = MockTransport::new(1);
    let mut conn: TestConn = Connection::new(t);
    let incoming = Message {
        kind: MsgKind::MethodCall,
        serial: 42,
        reply_serial: None,
        sender: Some(":1.5".to_string()),
        destination: None,
        path: Some("/org/example".to_string()),
        interface: Some("org.example.Iface".to_string()),
        member: Some("Frob".to_string()),
        expects_reply: true,
        body: Vec::new(),
    };
    conn.process_batch(vec![incoming]);
    let s = sent.borrow();
    assert_eq!(s.len(), 1);
    assert!(matches!(s[0].kind, MsgKind::Error));
    assert_eq!(s[0].reply_serial, Some(42));
    assert_eq!(s[0].destination.as_deref(), Some(":1.5"));
    assert_eq!(s[0].expects_reply, false);
}

#[test]
fn failed_default_reply_is_swallowed() {
    let sent = Rc::new(RefCell::new(Vec::new()));
    let t = MockTransport { sent: sent.clone(), next_serial: 1, fail_send: true };
    let mut conn: TestConn = Connection::new(t);
    let incoming = Message {
        kind: MsgKind::MethodCall,
        serial: 42,
        reply_serial: None,
        sender: Some(":1.5".to_string()),
        destination: None,
        path: None,
        interface: None,
        member: None,
        expects_reply: true,
        body: Vec::new(),
    };
    conn.process_batch(vec![incoming]);
    assert_eq!(sent.borrow().len(), 0);
    assert_eq!(conn.filter_count(), 0);
    assert_eq!(conn.reply_count(), 0);
}

#[test]
fn no_reply_demanded_no_default_reply() {
    let (t, sent) = MockTransport::new(1);
    let mut conn: TestConn = Connection::new(t);
    // a signal matches nothing and demands nothing
    conn.process_batch(vec![signal("A")]);
    assert_eq!(sent.borrow().len(), 0);
}

#[test]
fn empty_batch_is_side_effect_free() {
    let (t, sent) = MockTransport::new(3);
    let mut conn: TestConn = Connection::new(t);
    let hits = Rc::new(RefCell::new(0));
    let ftok = conn
        .start_receive(MatchRule::match_all(), CountingFilter { hits: hits.clone(), keep: true });
    let delivered = Rc::new(RefCell::new(Vec::new()));
    let rtok = conn
        .send_with_reply(outgoing_call(), RecordingReply { delivered: delivered.clone() })
        .unwrap();

    conn.process_batch(Vec::new());

    assert_eq!(conn.filter_count(), 1);
    assert_eq!(conn.reply_count(), 1);
    assert!(conn.has_pending_reply(rtok));
    assert_eq!(*hits.borrow(), 0);
    assert_eq!(delivered.borrow().len(), 0);
    assert_eq!(sent.borrow().len(), 1);
    assert!(conn.stop_receive(ftok).is_some());
}

#[test]
fn send_failure_registers_nothing() {
    let sent = Rc::new(RefCell::new(Vec::new()));
    let t = MockTransport { sent, next_serial: 1, fail_send: true };
    let mut conn: TestConn = Connection::new(t);
    let delivered = Rc::new(RefCell::new(Vec::new()));
    let r = conn.send_with_reply(outgoing_call(), RecordingReply { delivered });
    assert!(r.is_err());
    assert_eq!(conn.reply_count(), 0);
}

#[test]
fn cancel_reply_never_runs_the_callback() {
    let (t, _sent) = MockTransport::new(1);
    let mut conn: TestConn = Connection::new(t);
    let delivered = Rc::new(RefCell::new(Vec::new()));
    let tok = conn
        .send_with_reply(outgoing_call(), RecordingReply { delivered: delivered.clone() })
        .unwrap();
    let cb = conn.cancel_reply(tok);
    assert!(cb.is_some());
    assert!(!conn.has_pending_reply(tok));
    assert_eq!(delivered.borrow().len(), 0);
    // a late reply for the cancelled token goes nowhere
    conn.process_batch(vec![reply_to(tok)]);
    assert_eq!(delivered.borrow().len(), 0);
}

struct PlainTransport;

impl Transport for PlainTransport {
    fn send_msg(&mut self, _m: Message) -> Result<u32, ()> {
        Ok(1)
    }

    fn pop_message(&mut self) -> Option<Message> {
        None
    }

    fn unique_name(&self) -> Option<String> {
        Some(":1.0".to_string())
    }
}

struct PlainFilter;

impl FilterHandler for PlainFilter {
    fn handle(&mut self, _m: &Message) -> bool {
        true
    }
}

struct PlainReply;

impl ReplyHandler for PlainReply {
    fn complete(self, _m: Message) {}
}

#[test]
fn test_conn_send_sync() {
    fn is_send<T: Send>(_: &T) {}
    fn is_sync<T: Sync>(_: &T) {}
    let c: Connection<PlainTransport, PlainFilter, PlainReply> = Connection::new(PlainTransport);
    is_send(&c);
    is_sync(&c);

    let c: Connection<PlainTransport, PlainFilter, PlainReply> = Connection::new(PlainTransport);
    is_send(&c);
}

#[test]
fn fresh_connection_accepts_filters() {
    let (t, _sent) = MockTransport::new(1);
    let conn: TestConn = Connection::new(t);
    assert!(conn.accepts_more_filters());
}
