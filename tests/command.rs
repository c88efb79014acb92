use steel_text::command::{command_handler, sender_name, CommandSender, TextArgument};

#[test]
fn text_argument_joins_words() {
    let arg = TextArgument;
    assert_eq!(arg.parse(&["{text:\"hi\",", "bold:1b}"]), Some("{text:\"hi\", bold:1b}".to_string()));
    assert_eq!(arg.parse(&["one"]), Some("one".to_string()));
    assert_eq!(arg.parse(&[]), Some(String::new()));
}

#[test]
fn tellraw_handler_description() {
    let h = command_handler();
    assert_eq!(h.names, vec!["tellraw".to_string()]);
    assert_eq!(h.description, "Sends a JSON message to players.");
    assert_eq!(h.permission, "minecraft:command.tellraw");
    assert_eq!(h.argument, "message");
}

#[test]
fn sender_names() {
    assert_eq!(sender_name(&CommandSender::Player("Steve".to_string())), "Steve");
    assert_eq!(sender_name(&CommandSender::Console), "Console");
    assert_eq!(sender_name(&CommandSender::Rcon), "Rcon");
}
