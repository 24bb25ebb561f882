//! The command registry and the dispatcher that runs a message through it.
use vstd::prelude::*;

use crate::options::{extract_spec, norm_name, BotOptions, Extraction};
use crate::text::to_lower;

verus! {

/// A registered command: its handler maps the argument text to the reply.
pub struct Command<F: Fn(&str) -> String> {
    pub reply: F,
}

/// The handler table after registering `reply` under `name`; a later
/// registration of the same normalized name replaces the earlier one.
pub open spec fn register_spec<F>(
    table: Map<Seq<char>, F>,
    ignore_caps: bool,
    name: Seq<char>,
    reply: F,
) -> Map<Seq<char>, F> {
    table.insert(norm_name(ignore_caps, name), reply)
}

/// The handler to run for `raw` and the arguments it receives, or `None`
/// when `raw` is no command or names none that is registered.
pub open spec fn dispatch_spec<F>(
    options: BotOptions,
    table: Map<Seq<char>, F>,
    raw: Seq<char>,
) -> Option<(F, Seq<char>)> {
    match extract_spec(options.prefix@, options.suffix@, options.ignore_caps, raw) {
        None => None,
        Some((trigger, args)) => if table.contains_key(trigger) {
            Some((table[trigger], args))
        } else {
            None
        },
    }
}

/// A handler that accepts every argument text.
pub open spec fn total<F: Fn(&str) -> String>(f: F) -> bool {
    forall|a: &str| call_requires(f, (a,))
}

/// The dispatcher: a trigger configuration and the commands registered under it.
pub struct Bot<F: Fn(&str) -> String> {
    options: BotOptions,
    uses_prefix: bool,
    commands: Vec<(String, Command<F>)>,
    table: Ghost<Map<Seq<char>, F>>,
}

impl<F: Fn(&str) -> String> Bot<F> {
    /// The entries hold unique names, agree with `commands()`, and every
    /// handler accepts any argument text.
    pub closed spec fn wf(&self) -> bool {
        &&& self.uses_prefix == (self.options.prefix@.len() > 0)
        &&& forall|i: int|
            0 <= i < self.commands@.len() ==> {
                &&& #[trigger] self.table@.contains_key(self.commands@[i].0@)
                &&& self.table@[self.commands@[i].0@] == self.commands@[i].1.reply
            }
        &&& forall|k: Seq<char>|
            #[trigger] self.table@.contains_key(k) ==> exists|i: int|
                0 <= i < self.commands@.len() && self.commands@[i].0@ == k
        &&& forall|i: int, j: int|
            0 <= i < j < self.commands@.len() ==> self.commands@[i].0@ != self.commands@[j].0@
        &&& forall|k: Seq<char>| #[trigger] self.table@.contains_key(k) ==> total(self.table@[k])
    }

    /// The trigger configuration.
    pub closed spec fn options(&self) -> BotOptions {
        self.options
    }

    /// The handler registered under each normalized name.
    pub closed spec fn commands(&self) -> Map<Seq<char>, F> {
        self.table@
    }

    /// A bot with no commands.
    pub fn new(options: BotOptions) -> (r: Bot<F>)
        ensures
            r.wf(),
            r.options() == options,
            r.commands() == Map::<Seq<char>, F>::empty(),
    {
        let uses_prefix = options.is_prefix_mode();
        Bot { options, uses_prefix, commands: Vec::new(), table: Ghost(Map::empty()) }
    }

    /// Whether commands are recognised by their prefix.
    pub fn uses_prefix(&self) -> (r: bool)
        requires
            self.wf(),
        ensures
            r == (self.options().prefix@.len() > 0),
    {
        self.uses_prefix
    }

    /// The trigger configuration.
    pub fn bot_options(&self) -> (r: &BotOptions)
        ensures
            *r == self.options(),
    {
        &self.options
    }

    /// Position of the entry registered under `name`, if any.
    fn position(&self, name: &String) -> (r: Option<usize>)
        requires
            self.wf(),
        ensures
            r is None <==> !self.commands().contains_key(name@),
            r matches Some(i) ==> i < self.commands@.len() && self.commands@[i as int].0@ == name@,
    {
        let mut i: usize = 0;
        while i < self.commands.len()
            invariant
                self.wf(),
                0 <= i <= self.commands@.len(),
                forall|j: int| 0 <= j < i ==> self.commands@[j].0@ != name@,
            decreases self.commands@.len() - i,
        {
            if self.commands[i].0 == *name {
                assert(self.table@.contains_key(self.commands@[i as int].0@));
                return Some(i);
            }
            i = i + 1;
        }
        proof {
            if self.table@.contains_key(name@) {
                let j = choose|j: int|
                    0 <= j < self.commands@.len() && self.commands@[j].0@ == name@;
                assert(self.commands@[j].0@ != name@);
            }
        }
        None
    }

    /// Registers `command` under `pat`, normalized as the configuration asks,
    /// replacing any command already registered under that name.
    pub fn on(&mut self, pat: &str, command: Command<F>)
        requires
            old(self).wf(),
            total(command.reply),
        ensures
            final(self).wf(),
            final(self).options() == old(self).options(),
            final(self).commands() == register_spec(
                old(self).commands(),
                old(self).options().ignore_caps,
                pat@,
                command.reply,
            ),
    {
        let name = if self.options.ignore_caps {
            to_lower(pat)
        } else {
            pat.to_owned()
        };
        let ghost key = name@;
        let ghost reply = command.reply;
        let ghost table = self.table@.insert(key, reply);
        let ghost old_cmds = self.commands@;
        match self.position(&name) {
            Some(i) => {
                self.commands.set(i, (name, command));
                proof {
                    assert forall|j: int| 0 <= j < old_cmds.len() && j != i implies
                        old_cmds[j].0@ != key by {
                        assert(old_cmds[i as int].0@ == key);
                    }
                    assert forall|j: int| 0 <= j < self.commands@.len() implies {
                        &&& #[trigger] table.contains_key(self.commands@[j].0@)
                        &&& table[self.commands@[j].0@] == self.commands@[j].1.reply
                    } by {
                        if j != i {
                            assert(old(self).table@.contains_key(old_cmds[j].0@));
                        }
                    }
                }
                self.table = Ghost(table);
                assert forall|k: Seq<char>| #[trigger] table.contains_key(k) implies exists|j: int|
                    0 <= j < self.commands@.len() && self.commands@[j].0@ == k by {
                    if k != key {
                        assert(old(self).table@.contains_key(k));
                        let j = choose|j: int| 0 <= j < old_cmds.len() && old_cmds[j].0@ == k;
                        assert(self.commands@[j].0@ == k);
                    } else {
                        assert(self.commands@[i as int].0@ == k);
                    }
                }
            },
            None => {
                self.commands.push((name, command));
                proof {
                    assert forall|j: int| 0 <= j < old_cmds.len() implies old_cmds[j].0@ != key by {
                        assert(old(self).table@.contains_key(old_cmds[j].0@));
                    }
                    assert forall|j: int| 0 <= j < self.commands@.len() implies {
                        &&& #[trigger] table.contains_key(self.commands@[j].0@)
                        &&& table[self.commands@[j].0@] == self.commands@[j].1.reply
                    } by {
                        if j < old_cmds.len() {
                            assert(old(self).table@.contains_key(old_cmds[j].0@));
                        }
                    }
                }
                self.table = Ghost(table);
                assert forall|k: Seq<char>| #[trigger] table.contains_key(k) implies exists|j: int|
                    0 <= j < self.commands@.len() && self.commands@[j].0@ == k by {
                    if k != key {
                        assert(old(self).table@.contains_key(k));
                        let j = choose|j: int| 0 <= j < old_cmds.len() && old_cmds[j].0@ == k;
                        assert(self.commands@[j].0@ == k);
                    } else {
                        assert(self.commands@[old_cmds.len() as int].0@ == k);
                    }
                }
            },
        }
    }

    /// The command registered under the already normalized `trigger`.
    pub fn lookup(&self, trigger: &str) -> (r: Option<&Command<F>>)
        requires
            self.wf(),
        ensures
            r is Some <==> self.commands().contains_key(trigger@),
            r matches Some(c) ==> c.reply == self.commands()[trigger@],
    {
        let name = trigger.to_owned();
        match self.position(&name) {
            Some(i) => Some(&self.commands[i].1),
            None => None,
        }
    }

    /// Runs `raw` through extraction and lookup and returns the reply of the
    /// handler it names, or `None` when there is nothing to send.
    pub fn handle(&self, raw: &str) -> (r: Option<String>)
        requires
            self.wf(),
        ensures
            match dispatch_spec(self.options(), self.commands(), raw@) {
                None => r is None,
                Some((f, args)) => r matches Some(reply) && exists|a: &str|
                    a@ == args && call_ensures(f, (a,), reply),
            },
    {
        match self.options.extract(raw) {
            Extraction::NotATrigger => None,
            Extraction::Matched { trigger, args } => {
                match self.lookup(trigger.as_str()) {
                    Some(command) => {
                        let a = args.as_str();
                        let reply = (command.reply)(a);
                        Some(reply)
                    },
                    None => None,
                }
            },
        }
    }
}

} // verus!
