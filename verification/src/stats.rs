//! Usage counters: one unsigned 64-bit counter per tracked event, each
//! monotonically non-decreasing, rendered as a plain-text block.

use vstd::prelude::*;
use crate::text::spec_dec_u64;
use crate::text::fmt_u64;

verus! {

/// A counter bumped by one, staying put at the top of its range so it
/// never decreases.
pub open spec fn spec_inc(c: u64) -> u64 {
    if c == u64::MAX {
        c
    } else {
        (c + 1) as u64
    }
}

fn inc(c: u64) -> (r: u64)
    ensures
        r == spec_inc(c),
{
    if c == u64::MAX {
        c
    } else {
        c + 1
    }
}

/// The process-wide usage counters.
pub struct Stats {
    pub connections: u64,
    pub commands: u64,
    pub gets: u64,
    pub hits: u64,
    pub misses: u64,
    pub sets: u64,
    pub dels: u64,
    pub ttl: u64,
    pub expire: u64,
    pub expired_removed: u64,
}

/// The rendered counter block: a status line, then one `name=value`
/// line per counter.
pub open spec fn spec_render(s: Stats) -> Seq<char> {
    "+STATS\nconnections="@ + spec_dec_u64(s.connections as int) + "\ncommands="@ + spec_dec_u64(
        s.commands as int,
    ) + "\ngets="@ + spec_dec_u64(s.gets as int) + "\nhits="@ + spec_dec_u64(s.hits as int)
        + "\nmisses="@ + spec_dec_u64(s.misses as int) + "\nsets="@ + spec_dec_u64(s.sets as int)
        + "\ndels="@ + spec_dec_u64(s.dels as int) + "\nttl="@ + spec_dec_u64(s.ttl as int)
        + "\nexpire="@ + spec_dec_u64(s.expire as int) + "\nexpired_removed="@ + spec_dec_u64(
        s.expired_removed as int,
    ) + "\n"@
}

impl Stats {
    pub fn new() -> (s: Stats)
        ensures
            s.connections == 0 && s.commands == 0 && s.gets == 0 && s.hits == 0 && s.misses == 0
                && s.sets == 0 && s.dels == 0 && s.ttl == 0 && s.expire == 0
                && s.expired_removed == 0,
    {
        Stats {
            connections: 0,
            commands: 0,
            gets: 0,
            hits: 0,
            misses: 0,
            sets: 0,
            dels: 0,
            ttl: 0,
            expire: 0,
            expired_removed: 0,
        }
    }

    pub fn inc_connections(&mut self)
        ensures
            *final(self) == (Stats { connections: spec_inc(old(self).connections), ..*old(self) }),
    {
        self.connections = inc(self.connections);
    }

    pub fn inc_commands(&mut self)
        ensures
            *final(self) == (Stats { commands: spec_inc(old(self).commands), ..*old(self) }),
    {
        self.commands = inc(self.commands);
    }

    pub fn inc_gets(&mut self)
        ensures
            *final(self) == (Stats { gets: spec_inc(old(self).gets), ..*old(self) }),
    {
        self.gets = inc(self.gets);
    }

    pub fn inc_hits(&mut self)
        ensures
            *final(self) == (Stats { hits: spec_inc(old(self).hits), ..*old(self) }),
    {
        self.hits = inc(self.hits);
    }

    pub fn inc_misses(&mut self)
        ensures
            *final(self) == (Stats { misses: spec_inc(old(self).misses), ..*old(self) }),
    {
        self.misses = inc(self.misses);
    }

    pub fn inc_sets(&mut self)
        ensures
            *final(self) == (Stats { sets: spec_inc(old(self).sets), ..*old(self) }),
    {
        self.sets = inc(self.sets);
    }

    pub fn inc_dels(&mut self)
        ensures
            *final(self) == (Stats { dels: spec_inc(old(self).dels), ..*old(self) }),
    {
        self.dels = inc(self.dels);
    }

    pub fn inc_ttl(&mut self)
        ensures
            *final(self) == (Stats { ttl: spec_inc(old(self).ttl), ..*old(self) }),
    {
        self.ttl = inc(self.ttl);
    }

    pub fn inc_expire(&mut self)
        ensures
            *final(self) == (Stats { expire: spec_inc(old(self).expire), ..*old(self) }),
    {
        self.expire = inc(self.expire);
    }

    /// Adds the count removed by one sweep, staying put at the top of
    /// the range so the counter never decreases.
    pub fn add_expired_removed(&mut self, n: u64)
        ensures
            *final(self) == (Stats {
                expired_removed: if old(self).expired_removed + n <= u64::MAX {
                    (old(self).expired_removed + n) as u64
                } else {
                    u64::MAX
                },
                ..*old(self)
            }),
    {
        self.expired_removed = self.expired_removed.saturating_add(n);
    }

    /// Renders every counter as a point-in-time snapshot.
    pub fn render(&self) -> (r: String)
        ensures
            r@ == spec_render(*self),
    {
        let mut r = String::from_str("+STATS\nconnections=");
        r.append(fmt_u64(self.connections).as_str());
        r.append("\ncommands=");
        r.append(fmt_u64(self.commands).as_str());
        r.append("\ngets=");
        r.append(fmt_u64(self.gets).as_str());
        r.append("\nhits=");
        r.append(fmt_u64(self.hits).as_str());
        r.append("\nmisses=");
        r.append(fmt_u64(self.misses).as_str());
        r.append("\nsets=");
        r.append(fmt_u64(self.sets).as_str());
        r.append("\ndels=");
        r.append(fmt_u64(self.dels).as_str());
        r.append("\nttl=");
        r.append(fmt_u64(self.ttl).as_str());
        r.append("\nexpire=");
        r.append(fmt_u64(self.expire).as_str());
        r.append("\nexpired_removed=");
        r.append(fmt_u64(self.expired_removed).as_str());
        r.append("\n");
        r
    }
}

} // verus!
