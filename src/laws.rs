//! Properties that relate extraction, registration and dispatch.
use vstd::prelude::*;

use crate::bot::{dispatch_spec, register_spec};
use crate::options::{extract_spec, norm_name, BotOptions};
use crate::text::{
    first_word_spec, is_ws, lead, lemma_lead_bounds, lemma_space_at, lemma_space_bounds,
    lemma_trim_ends, lemma_trim_fixed, space_from, trim_spec, trim_start_spec,
};

verus! {

/// A message that is empty once trimmed is never a command.
pub proof fn lemma_blank_is_no_trigger(
    prefix: Seq<char>,
    suffix: Seq<char>,
    ignore_caps: bool,
    raw: Seq<char>,
)
    requires
        trim_spec(raw).len() == 0,
    ensures
        extract_spec(prefix, suffix, ignore_caps, raw) is None,
{
}

/// The text that a case-sensitive prefix-mode match is rebuilt into:
/// prefix, trigger, and the arguments after one space when there are any.
pub open spec fn rebuild(prefix: Seq<char>, trigger: Seq<char>, args: Seq<char>) -> Seq<char> {
    if args.len() > 0 {
        prefix + trigger + seq![' '] + args
    } else {
        prefix + trigger
    }
}

/// In case-sensitive prefix mode, extracting again from the rebuilt text of a
/// match gives back the same trigger and arguments.
pub proof fn lemma_prefix_round_trip(
    prefix: Seq<char>,
    suffix: Seq<char>,
    raw: Seq<char>,
    trigger: Seq<char>,
    args: Seq<char>,
)
    requires
        prefix.len() > 0,
        extract_spec(prefix, suffix, false, raw) == Some((trigger, args)),
    ensures
        extract_spec(prefix, suffix, false, rebuild(prefix, trigger, args)) == Some(
            (trigger, args),
        ),
{
    let c = trim_spec(raw);
    lemma_trim_ends(raw);
    lemma_space_bounds(c, 0);
    let sp = space_from(c, 0);
    let w = first_word_spec(c);
    let plen = prefix.len() as int;
    assert(w.take(plen) == prefix);
    assert(trigger == w.skip(plen));
    assert(c.skip(plen).skip(trigger.len() as int) =~= c.skip(sp));
    let tail = c.skip(sp);
    lemma_lead_bounds(tail, 0);
    assert(args == tail.skip(lead(tail, 0)));
    let r = rebuild(prefix, trigger, args);
    assert(prefix + trigger =~= w);
    if sp == c.len() {
        assert(args.len() == 0);
        assert(r =~= c);
        lemma_trim_fixed(c);
    } else {
        assert(tail[tail.len() - 1] == c[c.len() - 1]);
        assert(lead(tail, 0) < tail.len());
        assert(args.len() > 0);
        assert(args[0] == tail[lead(tail, 0)]);
        assert(args[args.len() - 1] == c[c.len() - 1]);
        assert(r =~= w + seq![' '] + args);
        assert(r[0] == c[0]);
        assert(r[r.len() - 1] == args[args.len() - 1]);
        lemma_trim_fixed(r);
        assert forall|k: int| 0 <= k < sp implies r[k] != ' ' by {
            assert(r[k] == c[k]);
        }
        assert(r[sp] == ' ');
        lemma_space_at(r, 0, sp);
        assert(first_word_spec(r) =~= w);
        let x = r.skip(plen).skip(trigger.len() as int);
        assert(x =~= seq![' '] + args);
        assert(lead(x, 1) == 1);
        assert(lead(x, 0) == 1);
        assert(trim_start_spec(x) =~= args);
    }
}

/// Registering a second handler under a name that normalizes to the same
/// trigger leaves only the second one to be dispatched to.
pub proof fn lemma_last_registration_wins<F>(
    options: BotOptions,
    table: Map<Seq<char>, F>,
    first: Seq<char>,
    second: Seq<char>,
    h1: F,
    h2: F,
    raw: Seq<char>,
    args: Seq<char>,
)
    requires
        norm_name(options.ignore_caps, first) == norm_name(options.ignore_caps, second),
        extract_spec(options.prefix@, options.suffix@, options.ignore_caps, raw) == Some(
            (norm_name(options.ignore_caps, second), args),
        ),
    ensures
        dispatch_spec(
            options,
            register_spec(
                register_spec(table, options.ignore_caps, first, h1),
                options.ignore_caps,
                second,
                h2,
            ),
            raw,
        ) == Some((h2, args)),
{
}

/// A match whose trigger names no registered command dispatches nothing.
pub proof fn lemma_unknown_trigger_is_silent<F>(
    options: BotOptions,
    table: Map<Seq<char>, F>,
    raw: Seq<char>,
    trigger: Seq<char>,
    args: Seq<char>,
)
    requires
        extract_spec(options.prefix@, options.suffix@, options.ignore_caps, raw) == Some(
            (trigger, args),
        ),
        !table.contains_key(trigger),
    ensures
        dispatch_spec(options, table, raw) is None,
{
}

} // verus!
