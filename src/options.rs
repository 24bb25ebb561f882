//! Trigger configuration and the extraction of a command from message text.
use vstd::prelude::*;
use vstd::string::StrSliceExecFns;

use crate::text::{
    ends_with, first_word, first_word_spec, has_prefix, has_suffix, lower_of, starts_with,
    to_lower, trim, trim_end, trim_end_spec, trim_spec, trim_start, trim_start_spec,
};

verus! {

/// How a command invocation is recognised.
///
/// A non-empty `prefix` selects prefix mode; otherwise the bot runs in
/// suffix mode. With `ignore_caps`, the active marker is stored lowercased.
pub struct BotOptions {
    pub prefix: String,
    pub suffix: String,
    pub ignore_caps: bool,
}

/// A configuration the bot cannot start with.
#[derive(Debug, PartialEq, Eq, Structural)]
pub enum ConfigError {
    /// Both the prefix and the suffix are empty.
    NoMarker,
}

/// The outcome of inspecting one message.
#[derive(Debug, PartialEq, Eq)]
pub enum Extraction {
    NotATrigger,
    Matched { trigger: String, args: String },
}

impl View for Extraction {
    type V = Option<(Seq<char>, Seq<char>)>;

    open spec fn view(&self) -> Option<(Seq<char>, Seq<char>)> {
        match self {
            Extraction::NotATrigger => None,
            Extraction::Matched { trigger, args } => Some((trigger@, args@)),
        }
    }
}

/// A command name as the registry and the extractor compare it.
pub open spec fn norm_name(ignore_caps: bool, s: Seq<char>) -> Seq<char> {
    if ignore_caps {
        lower_of(s)
    } else {
        s
    }
}

/// Trigger and arguments found in `raw`, or `None` when it is no command.
///
/// In prefix mode the first word must start with the prefix, and the trigger
/// is that word without it. In suffix mode the whole trimmed message must end
/// with the suffix, and the trigger is the first word as it stands. The
/// arguments are what follows the trigger, with surrounding whitespace (and in
/// suffix mode the suffix) removed.
pub open spec fn extract_spec(
    prefix: Seq<char>,
    suffix: Seq<char>,
    ignore_caps: bool,
    raw: Seq<char>,
) -> Option<(Seq<char>, Seq<char>)> {
    let content = trim_spec(raw);
    let word = first_word_spec(content);
    if content.len() == 0 {
        None
    } else if prefix.len() > 0 {
        if has_prefix(word, prefix) {
            let trigger = word.skip(prefix.len() as int);
            let rest = content.skip(prefix.len() as int);
            let args = trim_start_spec(rest.skip(trigger.len() as int));
            Some((norm_name(ignore_caps, trigger), args))
        } else {
            None
        }
    } else if has_suffix(content, suffix) {
        let rest = trim_end_spec(content.take(content.len() - suffix.len()));
        let cut = if word.len() <= rest.len() {
            word.len() as int
        } else {
            rest.len() as int
        };
        let args = trim_start_spec(rest.skip(cut));
        Some((norm_name(ignore_caps, word), args))
    } else {
        None
    }
}

impl BotOptions {
    /// Builds a configuration, lowercasing the active marker when case is ignored.
    pub fn new(prefix: &str, suffix: &str, ignore_caps: bool) -> (r: Result<BotOptions, ConfigError>)
        ensures
            r is Err <==> prefix@.len() == 0 && suffix@.len() == 0,
            r is Err ==> r == Err::<BotOptions, ConfigError>(ConfigError::NoMarker),
            r matches Ok(o) ==> {
                &&& o.ignore_caps == ignore_caps
                &&& o.prefix@ == (if prefix@.len() > 0 { norm_name(ignore_caps, prefix@) } else { prefix@ })
                &&& o.suffix@ == (if prefix@.len() == 0 { norm_name(ignore_caps, suffix@) } else { suffix@ })
            },
    {
        let uses_prefix = prefix.unicode_len() > 0;
        if !uses_prefix && suffix.unicode_len() == 0 {
            return Err(ConfigError::NoMarker);
        }
        let mut p = prefix.to_owned();
        let mut s = suffix.to_owned();
        if ignore_caps {
            if uses_prefix {
                p = to_lower(prefix);
            } else {
                s = to_lower(suffix);
            }
        }
        Ok(BotOptions { prefix: p, suffix: s, ignore_caps })
    }

    /// Whether commands are recognised by their prefix.
    pub fn is_prefix_mode(&self) -> (r: bool)
        ensures
            r == (self.prefix@.len() > 0),
    {
        self.prefix.as_str().unicode_len() > 0
    }

    /// Decides whether `raw` invokes a command and splits it into trigger and arguments.
    pub fn extract(&self, raw: &str) -> (r: Extraction)
        ensures
            r@ == extract_spec(self.prefix@, self.suffix@, self.ignore_caps, raw@),
    {
        let content = trim(raw);
        let n = content.unicode_len();
        if n == 0 {
            return Extraction::NotATrigger;
        }
        let word = first_word(content);
        let wn = word.unicode_len();
        proof {
            crate::text::lemma_space_bounds(content@, 0);
        }
        let prefix = self.prefix.as_str();
        let suffix = self.suffix.as_str();
        let trigger: &str;
        let args: &str;
        if self.is_prefix_mode() {
            if !starts_with(word, prefix) {
                return Extraction::NotATrigger;
            }
            let pn = prefix.unicode_len();
            trigger = word.substring_char(pn, wn);
            let rest = content.substring_char(pn, n);
            let tail = rest.substring_char(wn - pn, n - pn);
            args = trim_start(tail);
        } else {
            if !ends_with(content, suffix) {
                return Extraction::NotATrigger;
            }
            let sn = suffix.unicode_len();
            trigger = word;
            let rest = trim_end(content.substring_char(0, n - sn));
            let rn = rest.unicode_len();
            let cut = if wn <= rn {
                wn
            } else {
                rn
            };
            args = trim_start(rest.substring_char(cut, rn));
        }
        let name = if self.ignore_caps {
            to_lower(trigger)
        } else {
            trigger.to_owned()
        };
        Extraction::Matched { trigger: name, args: args.to_owned() }
    }
}

} // verus!
