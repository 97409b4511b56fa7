use std::cell::{Cell, RefCell};
use std::rc::Rc;

use eventsource::{
    dispatch_event, dispatch_open_event, handle_stream_body, handle_stream_header, Endpoint,
    parse_field, same_text, split_lines, update_event, Action, Event, ListenerRegistry, OpenError,
    State, StreamParser,
};

type Registry = ListenerRegistry<Box<dyn Fn(Event)>, Box<dyn Fn()>>;

fn event(t: &str, d: &str) -> Event {
    Event { type_: t.to_string(), data: d.to_string() }
}

fn dispatched(actions: &[Action]) -> Vec<(String, String)> {
    let mut out = Vec::new();
    for a in actions {
        if let Action::Dispatch(e) = a {
            out.push((e.type_.clone(), e.data.clone()));
        }
    }
    out
}

fn opens(actions: &[Action]) -> usize {
    actions.iter().filter(|a| matches!(a, Action::Open)).count()
}

fn pair(t: &str, d: &str) -> (String, String) {
    (t.to_string(), d.to_string())
}

#[test]
fn message_after_blank_line_is_a_message_event() {
    let mut parser = StreamParser::new();
    let actions = parser.feed_text("\ndata: some message\n\n");
    assert_eq!(dispatched(&actions), vec![pair("message", "some message")]);
    assert_eq!(opens(&actions), 1);
    assert!(matches!(actions[0], Action::Open));
}

#[test]
fn comments_add_nothing_to_the_event() {
    let mut parser = StreamParser::new();
    parser.feed_text("\n");
    let actions = parser.feed_text(":comment\n:comment\ndata: m\n\n");
    assert_eq!(dispatched(&actions), vec![pair("message", "m")]);
}

#[test]
fn extra_blank_lines_dispatch_nothing() {
    let mut parser = StreamParser::new();
    let actions = parser.feed_text("\ndata: x\n\n\n\ndata: y\n\n");
    assert_eq!(dispatched(&actions), vec![pair("message", "x"), pair("message", "y")]);
}

#[test]
fn named_event_reaches_only_its_listeners() {
    let mut parser = StreamParser::new();
    let mut registry: Registry = ListenerRegistry::new();
    let custom = Rc::new(RefCell::new(Vec::new()));
    let messages = Rc::new(Cell::new(0));
    let c = Rc::clone(&custom);
    registry.add_event_listener("custom", Box::new(move |e: Event| c.borrow_mut().push(e.data)));
    let m = Rc::clone(&messages);
    registry.on_message(Box::new(move |_| m.set(m.get() + 1)));
    for a in parser.feed_text("\nevent: custom\ndata: v\n\n") {
        if let Action::Dispatch(e) = a {
            assert_eq!(e.type_, "custom");
            if let Some(ls) = dispatch_event(&registry, &e) {
                for l in ls.iter() {
                    l(e.clone());
                }
            }
        }
    }
    assert_eq!(*custom.borrow(), vec!["v".to_string()]);
    assert_eq!(messages.get(), 0);
}

#[test]
fn closed_parser_ignores_later_lines() {
    let mut parser = StreamParser::new();
    parser.feed_text("\ndata: a\n");
    parser.close();
    let actions = parser.feed_text("\n\ndata: b\n\n");
    assert!(actions.iter().all(|a| matches!(a, Action::Nothing)));
    assert_eq!(actions.len(), 4);
    assert_eq!(parser.state(), State::CLOSED);
}

#[test]
fn new_parser_is_connecting() {
    assert_eq!(StreamParser::new().state(), State::CONNECTING);
}

#[test]
fn only_first_blank_line_opens() {
    let mut parser = StreamParser::new();
    let actions = parser.feed_text("HTTP/1.1 200 OK\nX: y\n\n\n\ndata: z\n\n");
    assert_eq!(opens(&actions), 1);
    assert!(matches!(actions[0], Action::Nothing));
    assert!(matches!(actions[1], Action::Nothing));
    assert!(matches!(actions[2], Action::Open));
    assert_eq!(dispatched(&actions), vec![pair("message", "z")]);
}

#[test]
fn open_listeners_run_in_order() {
    let mut registry: Registry = ListenerRegistry::new();
    let order = Rc::new(RefCell::new(Vec::new()));
    for k in 0..3 {
        let o = Rc::clone(&order);
        registry.on_open(Box::new(move || o.borrow_mut().push(k)));
    }
    for l in dispatch_open_event(&registry).iter() {
        l();
    }
    assert_eq!(*order.borrow(), vec![0, 1, 2]);
}

#[test]
fn event_listeners_run_in_order_and_unknown_types_are_dropped() {
    let mut registry: Registry = ListenerRegistry::new();
    let order = Rc::new(RefCell::new(Vec::new()));
    for k in 0..3 {
        let o = Rc::clone(&order);
        registry.add_event_listener("tick", Box::new(move |_| o.borrow_mut().push(k)));
    }
    registry.add_event_listener("tock", Box::new(|_| panic!("wrong listener")));
    let ls = dispatch_event(&registry, &event("tick", "")).unwrap();
    assert_eq!(ls.len(), 3);
    for l in ls.iter() {
        l(event("tick", ""));
    }
    assert_eq!(*order.borrow(), vec![0, 1, 2]);
    assert!(dispatch_event(&registry, &event("Tick", "")).is_none());
    assert!(dispatch_event(&registry, &event("none", "")).is_none());
}

#[test]
fn field_without_colon_is_all_name() {
    let line = "justaname".to_string();
    assert_eq!(parse_field(&line), ("justaname", ""));
}

#[test]
fn field_value_keeps_later_colons_and_loses_leading_space() {
    let line = "data: \t a:b ".to_string();
    assert_eq!(parse_field(&line), ("data", "a:b "));
    let line = "data:".to_string();
    assert_eq!(parse_field(&line), ("data", ""));
    let line = ":x".to_string();
    assert_eq!(parse_field(&line), ("", "x"));
}

#[test]
fn update_event_sets_fields() {
    let e = update_event(None, "data: hello".to_string()).unwrap();
    assert_eq!((e.type_.as_str(), e.data.as_str()), ("message", "hello"));
    let e = update_event(Some(e), "event: greet".to_string()).unwrap();
    assert_eq!((e.type_.as_str(), e.data.as_str()), ("greet", "hello"));
    let e = update_event(Some(e), "id: 7".to_string()).unwrap();
    assert_eq!((e.type_.as_str(), e.data.as_str()), ("greet", "hello"));
    assert!(update_event(None, "retry: 10".to_string()).is_none());
    assert!(update_event(None, "id: 5".to_string()).is_none());
}

#[test]
fn unknown_fields_alone_dispatch_nothing() {
    let mut parser = StreamParser::new();
    let actions = parser.feed_text("\nid: 1\n\nretry: 10\n:c\n\ndata: d\nid: 2\n\n");
    assert_eq!(dispatched(&actions), vec![pair("message", "d")]);
}

#[test]
fn header_handling() {
    assert_eq!(handle_stream_header(String::new()), State::OPEN);
    assert_eq!(handle_stream_header("HTTP/1.1 200 OK".to_string()), State::CONNECTING);
}

#[test]
fn body_handling() {
    let (p, done) = handle_stream_body(None, String::new());
    assert!(p.is_none() && done.is_none());
    let (p, done) = handle_stream_body(None, "data: d".to_string());
    assert!(done.is_none());
    let (p, done) = handle_stream_body(p, ":note".to_string());
    assert!(done.is_none());
    assert_eq!(p.as_ref().unwrap().data, "d");
    let (p, done) = handle_stream_body(p, String::new());
    assert!(p.is_none());
    let e = done.unwrap();
    assert_eq!((e.type_.as_str(), e.data.as_str()), ("message", "d"));
}

#[test]
fn lines_are_split_like_a_buffered_reader() {
    assert_eq!(split_lines("a\r\nb\n\nc"), vec!["a", "b", "", "c"]);
    assert_eq!(split_lines("x\n"), vec!["x"]);
    assert_eq!(split_lines("\n"), vec![""]);
    assert!(split_lines("").is_empty());
    assert_eq!(split_lines("\r\n"), vec![""]);
    assert_eq!(split_lines("a\nb\r"), vec!["a", "b\r"]);
    assert_eq!(split_lines("\r"), vec!["\r"]);
}

#[test]
fn same_text_compares_characters() {
    assert!(same_text("event", "event"));
    assert!(!same_text("event", "Event"));
    assert!(!same_text("event", "even"));
    assert!(same_text("", ""));
}

#[test]
fn endpoints() {
    assert!(Endpoint::new("http://localhost:8080/sub").is_ok());
    assert_eq!(Endpoint::new("").unwrap_err(), OpenError::Endpoint);
    assert_eq!(Endpoint::new("not a url").unwrap_err(), OpenError::Endpoint);
}
