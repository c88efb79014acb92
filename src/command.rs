//! The `tellraw` command: its description, its single text argument, and how
//! the sender is named.
use vstd::prelude::*;
use vstd::string::StringExecFns;

verus! {

/// The words of `s`, in order, separated by single spaces.
pub open spec fn joined_words(s: Seq<&str>) -> Seq<char>
    decreases s.len(),
{
    if s.len() == 0 {
        Seq::empty()
    } else if s.len() == 1 {
        s[0]@
    } else {
        joined_words(s.drop_last()) + " "@ + s.last()@
    }
}

/// An argument that takes every remaining word as one text.
pub struct TextArgument;

impl TextArgument {
    /// Consumes all of `args` and returns them joined by single spaces.
    pub fn parse(&self, args: &[&str]) -> (r: Option<String>)
        ensures
            r is Some,
            r->0@ == joined_words(args@),
    {
        let mut out = String::new();
        let mut i: usize = 0;
        while i < args.len()
            invariant
                i <= args@.len(),
                out@ == joined_words(args@.take(i as int)),
            decreases args@.len() - i,
        {
            if i > 0 {
                out.append(" ");
            }
            out.append(args[i]);
            proof {
                assert(args@.take(i + 1).drop_last() =~= args@.take(i as int));
                if i == 0 {
                    assert(out@ =~= joined_words(args@.take(1)));
                }
            }
            i = i + 1;
        }
        assert(args@.take(args@.len() as int) =~= args@);
        Some(out)
    }
}

/// A command as the dispatcher sees it: the names it answers to, its help
/// text, the permission it needs, and the name of its one text argument.
pub struct CommandHandler {
    pub names: Vec<String>,
    pub description: String,
    pub permission: String,
    pub argument: String,
}

/// The `tellraw` command: one text argument, `message`.
pub fn command_handler() -> (r: CommandHandler)
    ensures
        r.names@.len() == 1,
        r.names@[0]@ == "tellraw"@,
        r.description@ == "Sends a JSON message to players."@,
        r.permission@ == "minecraft:command.tellraw"@,
        r.argument@ == "message"@,
{
    let mut names: Vec<String> = Vec::new();
    names.push(String::from_str("tellraw"));
    CommandHandler {
        names,
        description: String::from_str("Sends a JSON message to players."),
        permission: String::from_str("minecraft:command.tellraw"),
        argument: String::from_str("message"),
    }
}

/// Who runs a command.
pub enum CommandSender {
    /// A player, with the name of their profile.
    Player(String),
    Console,
    Rcon,
}

/// The name under which a sender's message is reported.
pub fn sender_name(sender: &CommandSender) -> (r: String)
    ensures
        match sender {
            CommandSender::Player(name) => r@ == name@,
            CommandSender::Console => r@ == "Console"@,
            CommandSender::Rcon => r@ == "Rcon"@,
        },
{
    match sender {
        CommandSender::Player(name) => name.clone(),
        CommandSender::Console => String::from_str("Console"),
        CommandSender::Rcon => String::from_str("Rcon"),
    }
}

} // verus!
