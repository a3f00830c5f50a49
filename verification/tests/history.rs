use device_simulator::command::{Command, CommandHistory, Commands, DEFAULT_MAX_SIZE};
use device_simulator::payload::{render_payload, Rendered};

fn command(n: usize) -> Command {
    Command { name: format!("command-{n}"), payload: Some(vec![n as u8]) }
}

#[test]
fn history_keeps_the_most_recent_two_hundred() {
    let mut history = CommandHistory::new();
    assert_eq!(history.capacity(), 200);
    assert_eq!(DEFAULT_MAX_SIZE, 200);
    for n in 0..250 {
        history.push(command(n));
    }
    assert_eq!(history.len(), 200);
    let held = history.to_vec();
    assert_eq!(held.len(), 200);
    for (i, held) in held.iter().enumerate() {
        assert_eq!(*held, command(50 + i));
    }
}

#[test]
fn history_below_its_capacity_keeps_everything() {
    let mut history = CommandHistory::with_capacity(3);
    assert_eq!(history.len(), 0);
    history.push(command(1));
    history.push(command(2));
    assert_eq!(history.to_vec(), vec![command(1), command(2)]);
    history.push(command(3));
    history.push(command(4));
    assert_eq!(history.to_vec(), vec![command(2), command(3), command(4)]);
}

#[test]
fn history_without_room_holds_nothing() {
    let mut history = CommandHistory::with_capacity(0);
    history.push(command(1));
    assert_eq!(history.len(), 0);
    assert!(history.to_vec().is_empty());
    assert_eq!(CommandHistory::default().capacity(), 200);
}

#[test]
fn commands_compare_by_name_and_payload() {
    let with = Command { name: "a".to_string(), payload: Some(vec![1, 2]) };
    let without = Command { name: "a".to_string(), payload: None };
    assert_eq!(with.clone(), with);
    assert_ne!(with, without);
    assert_ne!(with, Command { name: "a".to_string(), payload: Some(vec![1, 3]) });
    assert_ne!(with, Command { name: "b".to_string(), payload: Some(vec![1, 2]) });
    assert_ne!(with, Command { name: "a".to_string(), payload: Some(vec![1]) });
}

#[test]
fn payloads_read_as_json_text_or_neither() {
    assert_eq!(
        render_payload(br#" { "b" : [1, 2],  "a": true } "#, false),
        Rendered::Json(r#"{"a":true,"b":[1,2]}"#.to_string())
    );
    assert_eq!(
        render_payload(br#"{"a": {"b": 1}}"#, true),
        Rendered::Json("{\n  \"a\": {\n    \"b\": 1\n  }\n}".to_string())
    );
    assert_eq!(render_payload(b"12", true), Rendered::Json("12".to_string()));
    assert_eq!(render_payload(b"hello", false), Rendered::Text("hello".to_string()));
    assert_eq!(render_payload(b"", false), Rendered::Text(String::new()));
    assert_eq!(render_payload("grüße".as_bytes(), true), Rendered::Text("grüße".to_string()));
    assert_eq!(render_payload(&[0xff, 0xfe], false), Rendered::Binary);
    assert_eq!(render_payload(&[b'a', 0x80], true), Rendered::Binary);
}

#[test]
fn the_page_lists_the_newest_command_first() {
    let mut list = Commands::new();
    assert!(list.commands().is_empty());
    assert_eq!(list.total_received(), 0);

    list.set((0..250).map(command).collect());
    assert_eq!(list.commands().len(), 200);
    assert_eq!(list.commands()[0], command(249));
    assert_eq!(list.commands()[199], command(50));
    assert_eq!(list.total_received(), 200);

    list.add(command(250));
    assert_eq!(list.commands().len(), 200);
    assert_eq!(list.commands()[0], command(250));
    assert_eq!(list.commands()[1], command(249));
    assert_eq!(list.commands()[199], command(51));
    assert_eq!(list.total_received(), 201);

    list.clear();
    assert!(list.commands().is_empty());
    assert_eq!(list.total_received(), 201);
    list.add(command(1));
    list.add(command(2));
    assert_eq!(*list.commands(), vec![command(2), command(1)]);
    assert_eq!(list.total_received(), 203);

    // a history that is taken in follows what the list holds
    list.set(vec![command(3), command(4)]);
    assert_eq!(*list.commands(), vec![command(2), command(1), command(4), command(3)]);
    assert_eq!(list.total_received(), 4);
    list.set(vec![]);
    assert_eq!(list.commands().len(), 4);
    assert_eq!(Commands::default().total_received(), 0);
}
