//! The command dispatcher: parses one input line into a command and
//! executes it against the store and the counters, producing the
//! protocol reply and a connection-close flag.
//!
//! `spec_parse` is the grammar of the protocol written down as a
//! function on the line's bytes; `spec_dispatch` is the full
//! input/output relation of one dispatched line.

use vstd::prelude::*;
use vstd::string::StringSliceAdditionalSpecFns;
use crate::protocol;
use crate::protocol::spec_bulk;
use crate::protocol::spec_err;
use crate::protocol::spec_integer;
use crate::stats::Stats;
use crate::stats::spec_inc;
use crate::stats::spec_render;
use crate::store::Store;
use crate::store::spec_del_post;
use crate::store::spec_del_result;
use crate::store::spec_expire_post;
use crate::store::spec_expire_result;
use crate::store::spec_get_result;
use crate::store::spec_read_post;
use crate::store::spec_set_post;
use crate::store::spec_ttl_result;
use crate::text::bytes_eq;
use crate::text::find_sub;
use crate::text::join_tokens;
use crate::text::parse_u64;
use crate::text::spec_find;
use crate::text::spec_join;
use crate::text::spec_parse_u64;
use crate::text::spec_tokens;
use crate::text::spec_trim;
use crate::text::spec_upper;
use crate::text::split_ws;
use crate::text::to_upper;
use crate::text::trim_bytes;
use crate::text::views_of;

verus! {

/// The largest value, in bytes, that a SET command accepts.
pub const MAX_VALUE_BYTES: usize = 1048576;

/// One parsed input line: a recognized command with its arguments, or
/// the precise way the line was malformed.
pub enum Command {
    Empty,
    Ping,
    Help,
    Quit,
    Stats,
    Get { key: Vec<u8> },
    GetNoKey,
    SetValue { key: Vec<u8>, value: Vec<u8>, ex_seconds: Option<u64> },
    SetNoKey,
    SetParse,
    SetNoValue,
    SetBadSeconds,
    SetTooLarge,
    Del { key: Vec<u8> },
    DelNoKey,
    Ttl { key: Vec<u8> },
    TtlNoKey,
    Expire { key: Vec<u8>, seconds: u64 },
    ExpireNoKey,
    ExpireNoSeconds,
    ExpireBadSeconds,
    Unknown,
}

/// The mathematical shape of a parsed line.
pub enum CommandModel {
    Empty,
    Ping,
    Help,
    Quit,
    Stats,
    Get { key: Seq<u8> },
    GetNoKey,
    SetValue { key: Seq<u8>, value: Seq<u8>, ex_seconds: Option<u64> },
    SetNoKey,
    SetParse,
    SetNoValue,
    SetBadSeconds,
    SetTooLarge,
    Del { key: Seq<u8> },
    DelNoKey,
    Ttl { key: Seq<u8> },
    TtlNoKey,
    Expire { key: Seq<u8>, seconds: u64 },
    ExpireNoKey,
    ExpireNoSeconds,
    ExpireBadSeconds,
    Unknown,
}

impl View for Command {
    type V = CommandModel;

    open spec fn view(&self) -> CommandModel {
        match self {
            Command::Empty => CommandModel::Empty,
            Command::Ping => CommandModel::Ping,
            Command::Help => CommandModel::Help,
            Command::Quit => CommandModel::Quit,
            Command::Stats => CommandModel::Stats,
            Command::Get { key } => CommandModel::Get { key: key@ },
            Command::GetNoKey => CommandModel::GetNoKey,
            Command::SetValue { key, value, ex_seconds } => CommandModel::SetValue {
                key: key@,
                value: value@,
                ex_seconds: *ex_seconds,
            },
            Command::SetNoKey => CommandModel::SetNoKey,
            Command::SetParse => CommandModel::SetParse,
            Command::SetNoValue => CommandModel::SetNoValue,
            Command::SetBadSeconds => CommandModel::SetBadSeconds,
            Command::SetTooLarge => CommandModel::SetTooLarge,
            Command::Del { key } => CommandModel::Del { key: key@ },
            Command::DelNoKey => CommandModel::DelNoKey,
            Command::Ttl { key } => CommandModel::Ttl { key: key@ },
            Command::TtlNoKey => CommandModel::TtlNoKey,
            Command::Expire { key, seconds } => CommandModel::Expire {
                key: key@,
                seconds: *seconds,
            },
            Command::ExpireNoKey => CommandModel::ExpireNoKey,
            Command::ExpireNoSeconds => CommandModel::ExpireNoSeconds,
            Command::ExpireBadSeconds => CommandModel::ExpireBadSeconds,
            Command::Unknown => CommandModel::Unknown,
        }
    }
}

/// How a SET line is parsed, given the whole line and its tokens.
/// The value is everything after the first occurrence of `SET <key>`
/// in the raw line, trimmed; if its last two tokens are `EX` (any
/// case) and an integer, they are the time-to-live and the value is
/// the remaining tokens joined with single spaces, else the value is
/// all its tokens joined with single spaces.
pub open spec fn spec_parse_set(l: Seq<u8>, toks: Seq<Seq<u8>>) -> CommandModel {
    if toks.len() < 2 {
        CommandModel::SetNoKey
    } else {
        let key = toks[1];
        let needle = ("SET ").spec_bytes() + key;
        match spec_find(l, needle) {
            None => CommandModel::SetParse,
            Some(pos) => {
                let rest = spec_trim(l.skip(pos + needle.len()));
                if rest.len() == 0 {
                    CommandModel::SetNoValue
                } else {
                    let rtoks = spec_tokens(rest);
                    if rtoks.len() >= 3 && spec_upper(rtoks[rtoks.len() - 2]) == (
                    "EX").spec_bytes() {
                        match spec_parse_u64(rtoks[rtoks.len() - 1]) {
                            None => CommandModel::SetBadSeconds,
                            Some(secs) => {
                                let value = spec_join(rtoks.take(rtoks.len() - 2));
                                if value.len() > MAX_VALUE_BYTES {
                                    CommandModel::SetTooLarge
                                } else {
                                    CommandModel::SetValue { key, value, ex_seconds: Some(secs) }
                                }
                            },
                        }
                    } else {
                        let value = spec_join(rtoks);
                        if value.len() > MAX_VALUE_BYTES {
                            CommandModel::SetTooLarge
                        } else {
                            CommandModel::SetValue { key, value, ex_seconds: None }
                        }
                    }
                }
            },
        }
    }
}

/// The grammar of one input line: the first token, upper-cased, picks
/// the verb; the rest are its arguments.
pub open spec fn spec_parse(l: Seq<u8>) -> CommandModel {
    let toks = spec_tokens(l);
    if toks.len() == 0 {
        CommandModel::Empty
    } else {
        let verb = spec_upper(toks[0]);
        if verb == ("PING").spec_bytes() {
            CommandModel::Ping
        } else if verb == ("HELP").spec_bytes() {
            CommandModel::Help
        } else if verb == ("QUIT").spec_bytes() {
            CommandModel::Quit
        } else if verb == ("STATS").spec_bytes() {
            CommandModel::Stats
        } else if verb == ("GET").spec_bytes() {
            if toks.len() < 2 {
                CommandModel::GetNoKey
            } else {
                CommandModel::Get { key: toks[1] }
            }
        } else if verb == ("SET").spec_bytes() {
            spec_parse_set(l, toks)
        } else if verb == ("DEL").spec_bytes() {
            if toks.len() < 2 {
                CommandModel::DelNoKey
            } else {
                CommandModel::Del { key: toks[1] }
            }
        } else if verb == ("TTL").spec_bytes() {
            if toks.len() < 2 {
                CommandModel::TtlNoKey
            } else {
                CommandModel::Ttl { key: toks[1] }
            }
        } else if verb == ("EXPIRE").spec_bytes() {
            if toks.len() < 2 {
                CommandModel::ExpireNoKey
            } else if toks.len() < 3 {
                CommandModel::ExpireNoSeconds
            } else {
                match spec_parse_u64(toks[2]) {
                    None => CommandModel::ExpireBadSeconds,
                    Some(seconds) => CommandModel::Expire { key: toks[1], seconds },
                }
            }
        } else {
            CommandModel::Unknown
        }
    }
}

proof fn lemma_find_bounds(s: Seq<u8>, pat: Seq<u8>)
    ensures
        spec_find(s, pat) matches Some(i) ==> 0 <= i && i + pat.len() <= s.len(),
    decreases s.len(),
{
    if s.len() >= pat.len() && s.take(pat.len() as int) != pat && s.len() > 0 {
        lemma_find_bounds(s.drop_first(), pat);
    }
}

/// Parses one input line.
pub fn parse_line(l: &[u8]) -> (c: Command)
    ensures
        c@ == spec_parse(l@),
{
    let toks = split_ws(l);
    if toks.len() == 0 {
        return Command::Empty;
    }
    proof {
        assert(views_of(toks@)[0] == toks@[0]@);
    }
    let verb = to_upper(toks[0].as_slice());
    if bytes_eq(verb.as_slice(), "PING".as_bytes()) {
        Command::Ping
    } else if bytes_eq(verb.as_slice(), "HELP".as_bytes()) {
        Command::Help
    } else if bytes_eq(verb.as_slice(), "QUIT".as_bytes()) {
        Command::Quit
    } else if bytes_eq(verb.as_slice(), "STATS".as_bytes()) {
        Command::Stats
    } else if bytes_eq(verb.as_slice(), "GET".as_bytes()) {
        if toks.len() < 2 {
            Command::GetNoKey
        } else {
            proof {
                assert(views_of(toks@)[1] == toks@[1]@);
            }
            Command::Get { key: vstd::slice::slice_to_vec(toks[1].as_slice()) }
        }
    } else if bytes_eq(verb.as_slice(), "SET".as_bytes()) {
        parse_set(l, &toks)
    } else if bytes_eq(verb.as_slice(), "DEL".as_bytes()) {
        if toks.len() < 2 {
            Command::DelNoKey
        } else {
            proof {
                assert(views_of(toks@)[1] == toks@[1]@);
            }
            Command::Del { key: vstd::slice::slice_to_vec(toks[1].as_slice()) }
        }
    } else if bytes_eq(verb.as_slice(), "TTL".as_bytes()) {
        if toks.len() < 2 {
            Command::TtlNoKey
        } else {
            proof {
                assert(views_of(toks@)[1] == toks@[1]@);
            }
            Command::Ttl { key: vstd::slice::slice_to_vec(toks[1].as_slice()) }
        }
    } else if bytes_eq(verb.as_slice(), "EXPIRE".as_bytes()) {
        if toks.len() < 2 {
            Command::ExpireNoKey
        } else if toks.len() < 3 {
            Command::ExpireNoSeconds
        } else {
            proof {
                assert(views_of(toks@)[1] == toks@[1]@);
                assert(views_of(toks@)[2] == toks@[2]@);
            }
            match parse_u64(toks[2].as_slice()) {
                None => Command::ExpireBadSeconds,
                Some(seconds) => Command::Expire {
                    key: vstd::slice::slice_to_vec(toks[1].as_slice()),
                    seconds,
                },
            }
        }
    } else {
        Command::Unknown
    }
}

fn parse_set(l: &[u8], toks: &Vec<Vec<u8>>) -> (c: Command)
    requires
        spec_tokens(l@) == views_of(toks@),
        toks@.len() > 0,
    ensures
        c@ == spec_parse_set(l@, views_of(toks@)),
{
    if toks.len() < 2 {
        return Command::SetNoKey;
    }
    proof {
        assert(views_of(toks@)[1] == toks@[1]@);
    }
    let key: Vec<u8> = vstd::slice::slice_to_vec(toks[1].as_slice());
    let mut needle: Vec<u8> = vstd::slice::slice_to_vec("SET ".as_bytes());
    let mut i: usize = 0;
    while i < key.len()
        invariant
            i <= key@.len(),
            needle@ == ("SET ").spec_bytes() + key@.take(i as int),
        decreases key@.len() - i,
    {
        needle.push(key[i]);
        proof {
            assert(needle@ =~= ("SET ").spec_bytes() + key@.take(i + 1));
        }
        i += 1;
    }
    proof {
        assert(key@.take(key@.len() as int) =~= key@);
    }
    let pos = match find_sub(l, needle.as_slice()) {
        None => {
            return Command::SetParse;
        },
        Some(p) => p,
    };
    let llen = l.len();
    proof {
        lemma_find_bounds(l@, needle@);
    }
    let rest = trim_bytes(vstd::slice::slice_subrange(l, pos + needle.len(), llen));
    proof {
        assert(l@.subrange(pos + needle@.len(), l@.len() as int) =~= l@.skip(
            pos + needle@.len(),
        ));
    }
    if rest.len() == 0 {
        return Command::SetNoValue;
    }
    let rtoks = split_ws(rest.as_slice());
    let n = rtoks.len();
    let has_ex = n >= 3 && {
        proof {
            assert(views_of(rtoks@)[n - 2] == rtoks@[n - 2]@);
        }
        let up = to_upper(rtoks[n - 2].as_slice());
        bytes_eq(up.as_slice(), "EX".as_bytes())
    };
    if has_ex {
        proof {
            assert(views_of(rtoks@)[n - 1] == rtoks@[n - 1]@);
        }
        match parse_u64(rtoks[n - 1].as_slice()) {
            None => Command::SetBadSeconds,
            Some(secs) => {
                let value = join_tokens(&rtoks, 0, n - 2);
                proof {
                    assert(views_of(rtoks@).subrange(0, n - 2) =~= views_of(rtoks@).take(
                        n - 2,
                    ));
                }
                if value.len() > MAX_VALUE_BYTES {
                    Command::SetTooLarge
                } else {
                    Command::SetValue { key, value, ex_seconds: Some(secs) }
                }
            },
        }
    } else {
        let value = join_tokens(&rtoks, 0, n);
        proof {
            assert(views_of(rtoks@).subrange(0, n as int) =~= views_of(rtoks@));
        }
        if value.len() > MAX_VALUE_BYTES {
            Command::SetTooLarge
        } else {
            Command::SetValue { key, value, ex_seconds: None }
        }
    }
}

/// The static command summary.
pub open spec fn spec_help_text() -> Seq<char> {
    "+COMMANDS:\nPING\nGET <key>\nSET <key> <value...> [EX <seconds>]\nDEL <key>\nTTL <key>\nEXPIRE <key> <seconds>\nSTATS\nHELP\nQUIT\n"@
}

/// The full effect of dispatching one parsed command at `now_ms`:
/// the reply text, the close flag, the store afterwards, and the
/// counters afterwards.
pub open spec fn spec_dispatch(
    c: CommandModel,
    m: Map<Seq<u8>, (Seq<u8>, Option<u64>)>,
    st: Stats,
    now_ms: u64,
) -> (Seq<char>, bool, Map<Seq<u8>, (Seq<u8>, Option<u64>)>, Stats) {
    match c {
        CommandModel::Empty => (spec_err("empty command"@), false, m, st),
        CommandModel::Ping => ("+PONG\n"@, false, m, st),
        CommandModel::Help => (spec_help_text(), false, m, st),
        CommandModel::Quit => ("+BYE\n"@, true, m, st),
        CommandModel::Stats => (spec_render(st), false, m, st),
        CommandModel::Get { key } => (
            match spec_get_result(m, key, now_ms) {
                Some(v) => spec_bulk(v),
                None => "$-1\n"@,
            },
            false,
            spec_read_post(m, key, now_ms),
            if spec_get_result(m, key, now_ms) is Some {
                Stats { gets: spec_inc(st.gets), hits: spec_inc(st.hits), ..st }
            } else {
                Stats { gets: spec_inc(st.gets), misses: spec_inc(st.misses), ..st }
            },
        ),
        CommandModel::GetNoKey => (
            spec_err("GET requires key"@),
            false,
            m,
            (Stats { gets: spec_inc(st.gets), ..st }),
        ),
        CommandModel::SetValue { key, value, ex_seconds } => (
            "+OK\n"@,
            false,
            spec_set_post(m, key, value, ex_seconds, now_ms),
            (Stats { sets: spec_inc(st.sets), ..st }),
        ),
        CommandModel::SetNoKey => (
            spec_err("SET requires key"@),
            false,
            m,
            (Stats { sets: spec_inc(st.sets), ..st }),
        ),
        CommandModel::SetParse => (
            spec_err("SET parse error"@),
            false,
            m,
            (Stats { sets: spec_inc(st.sets), ..st }),
        ),
        CommandModel::SetNoValue => (
            spec_err("SET requires value"@),
            false,
            m,
            (Stats { sets: spec_inc(st.sets), ..st }),
        ),
        CommandModel::SetBadSeconds => (
            spec_err("EX requires integer seconds"@),
            false,
            m,
            (Stats { sets: spec_inc(st.sets), ..st }),
        ),
        CommandModel::SetTooLarge => (
            spec_err("value too large"@),
            false,
            m,
            (Stats { sets: spec_inc(st.sets), ..st }),
        ),
        CommandModel::Del { key } => (
            spec_integer(if spec_del_result(m, key) { 1 } else { 0 }),
            false,
            spec_del_post(m, key),
            (Stats { dels: spec_inc(st.dels), ..st }),
        ),
        CommandModel::DelNoKey => (
            spec_err("DEL requires key"@),
            false,
            m,
            (Stats { dels: spec_inc(st.dels), ..st }),
        ),
        CommandModel::Ttl { key } => (
            spec_integer(spec_ttl_result(m, key, now_ms)),
            false,
            spec_read_post(m, key, now_ms),
            (Stats { ttl: spec_inc(st.ttl), ..st }),
        ),
        CommandModel::TtlNoKey => (
            spec_err("TTL requires key"@),
            false,
            m,
            (Stats { ttl: spec_inc(st.ttl), ..st }),
        ),
        CommandModel::Expire { key, seconds } => (
            spec_integer(if spec_expire_result(m, key) { 1 } else { 0 }),
            false,
            spec_expire_post(m, key, seconds, now_ms),
            (Stats { expire: spec_inc(st.expire), ..st }),
        ),
        CommandModel::ExpireNoKey => (
            spec_err("EXPIRE requires key"@),
            false,
            m,
            (Stats { expire: spec_inc(st.expire), ..st }),
        ),
        CommandModel::ExpireNoSeconds => (
            spec_err("EXPIRE requires seconds"@),
            false,
            m,
            (Stats { expire: spec_inc(st.expire), ..st }),
        ),
        CommandModel::ExpireBadSeconds => (
            spec_err("EXPIRE requires integer seconds"@),
            false,
            m,
            (Stats { expire: spec_inc(st.expire), ..st }),
        ),
        CommandModel::Unknown => (spec_err("unknown command"@), false, m, st),
    }
}

/// Executes one parsed command against the store and the counters.
pub fn handle_command(cmd: Command, store: &mut Store, stats: &mut Stats, now_ms: u64) -> (r: (
    String,
    bool,
))
    requires
        old(store).wf(),
    ensures
        final(store).wf(),
        ({
            let (resp, close, m2, st2) = spec_dispatch(cmd@, old(store)@, *old(stats), now_ms);
            r.0@ == resp && r.1 == close && final(store)@ == m2 && *final(stats) == st2
        }),
{
    match cmd {
        Command::Empty => (protocol::err("empty command"), false),
        Command::Ping => (protocol::pong(), false),
        Command::Help => (
            String::from_str(
                "+COMMANDS:\nPING\nGET <key>\nSET <key> <value...> [EX <seconds>]\nDEL <key>\nTTL <key>\nEXPIRE <key> <seconds>\nSTATS\nHELP\nQUIT\n",
            ),
            false,
        ),
        Command::Quit => (String::from_str("+BYE\n"), true),
        Command::Stats => (stats.render(), false),
        Command::Get { key } => {
            stats.inc_gets();
            let resp = match store.get(key.as_slice(), now_ms) {
                None => {
                    stats.inc_misses();
                    protocol::nil()
                },
                Some(v) => {
                    stats.inc_hits();
                    protocol::bulk_string(v.as_slice())
                },
            };
            (resp, false)
        },
        Command::GetNoKey => {
            stats.inc_gets();
            (protocol::err("GET requires key"), false)
        },
        Command::SetValue { key, value, ex_seconds } => {
            stats.inc_sets();
            store.set(key, value, ex_seconds, now_ms);
            (protocol::ok(), false)
        },
        Command::SetNoKey => {
            stats.inc_sets();
            (protocol::err("SET requires key"), false)
        },
        Command::SetParse => {
            stats.inc_sets();
            (protocol::err("SET parse error"), false)
        },
        Command::SetNoValue => {
            stats.inc_sets();
            (protocol::err("SET requires value"), false)
        },
        Command::SetBadSeconds => {
            stats.inc_sets();
            (protocol::err("EX requires integer seconds"), false)
        },
        Command::SetTooLarge => {
            stats.inc_sets();
            (protocol::err("value too large"), false)
        },
        Command::Del { key } => {
            stats.inc_dels();
            let removed = store.del(key.as_slice());
            (protocol::integer(if removed { 1 } else { 0 }), false)
        },
        Command::DelNoKey => {
            stats.inc_dels();
            (protocol::err("DEL requires key"), false)
        },
        Command::Ttl { key } => {
            stats.inc_ttl();
            let t = store.ttl(key.as_slice(), now_ms);
            (protocol::integer(t), false)
        },
        Command::TtlNoKey => {
            stats.inc_ttl();
            (protocol::err("TTL requires key"), false)
        },
        Command::Expire { key, seconds } => {
            stats.inc_expire();
            let existed = store.expire(key.as_slice(), seconds, now_ms);
            (protocol::integer(if existed { 1 } else { 0 }), false)
        },
        Command::ExpireNoKey => {
            stats.inc_expire();
            (protocol::err("EXPIRE requires key"), false)
        },
        Command::ExpireNoSeconds => {
            stats.inc_expire();
            (protocol::err("EXPIRE requires seconds"), false)
        },
        Command::ExpireBadSeconds => {
            stats.inc_expire();
            (protocol::err("EXPIRE requires integer seconds"), false)
        },
        Command::Unknown => (protocol::err("unknown command"), false),
    }
}

/// Parses one input line and executes it: the whole handling of one
/// request, as `spec_parse` composed with `spec_dispatch`. The caller
/// counts the line on the global command counter before dispatching,
/// as the connection loop does.
pub fn handle_line(line: &[u8], store: &mut Store, stats: &mut Stats, now_ms: u64) -> (r: (
    String,
    bool,
))
    requires
        old(store).wf(),
    ensures
        final(store).wf(),
        ({
            let (resp, close, m2, st2) = spec_dispatch(
                spec_parse(line@),
                old(store)@,
                *old(stats),
                now_ms,
            );
            r.0@ == resp && r.1 == close && final(store)@ == m2 && *final(stats) == st2
        }),
{
    let cmd = parse_line(line);
    handle_command(cmd, store, stats, now_ms)
}

} // verus!
