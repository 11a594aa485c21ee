//! Today's token gauges: input, output, and prompt-cache hit and miss
//! tokens, set back to zero when the local date changes.

use vstd::prelude::*;

verus! {

/// The four gauges of one day.
pub struct Gauges {
    pub day: Seq<char>,
    pub input: i64,
    pub output: i64,
    pub cache_hit: i64,
    pub cache_miss: i64,
}

/// The gauges as seen on `today`: unchanged on the same day, zero on a new
/// one.
pub open spec fn rolled(g: Gauges, today: Seq<char>) -> Gauges {
    if g.day == today { g } else { Gauges { day: today, input: 0, output: 0, cache_hit: 0, cache_miss: 0 } }
}

/// `v` raised by `n`; it stops at `i64::MAX`.
pub open spec fn raised(v: i64, n: u32) -> i64 {
    if v + n <= i64::MAX { (v + n) as i64 } else { i64::MAX }
}

fn raise(v: i64, n: u32) -> (r: i64)
    ensures
        r == raised(v, n),
{
    if v <= i64::MAX - n as i64 { v + n as i64 } else { i64::MAX }
}

/// Token gauges of the current day.
pub struct DailyTokenGauges {
    current_day: String,
    input: i64,
    output: i64,
    cache_hit: i64,
    cache_miss: i64,
}

impl View for DailyTokenGauges {
    type V = Gauges;

    closed spec fn view(&self) -> Gauges {
        Gauges {
            day: self.current_day@,
            input: self.input,
            output: self.output,
            cache_hit: self.cache_hit,
            cache_miss: self.cache_miss,
        }
    }
}

impl DailyTokenGauges {
    /// Zero gauges for `today` (`YYYY-MM-DD`).
    pub fn new(today: String) -> (r: Self)
        ensures
            r@ == (Gauges { day: today@, input: 0, output: 0, cache_hit: 0, cache_miss: 0 }),
    {
        DailyTokenGauges { current_day: today, input: 0, output: 0, cache_hit: 0, cache_miss: 0 }
    }

    /// Starts a new day where `today` differs from the current one.
    pub fn rollover_if_needed(&mut self, today: &str)
        ensures
            final(self)@ == rolled(old(self)@, today@),
    {
        let t = String::from_str(today);
        if self.current_day != t {
            self.input = 0;
            self.output = 0;
            self.cache_hit = 0;
            self.cache_miss = 0;
            self.current_day = t;
        }
    }

    pub fn record_input_tokens(&mut self, today: &str, tokens: u32)
        ensures
            final(self)@ == (Gauges { input: raised(rolled(old(self)@, today@).input, tokens), ..rolled(old(self)@, today@) }),
    {
        self.rollover_if_needed(today);
        self.input = raise(self.input, tokens);
    }

    pub fn record_output_tokens(&mut self, today: &str, tokens: u32)
        ensures
            final(self)@ == (Gauges { output: raised(rolled(old(self)@, today@).output, tokens), ..rolled(old(self)@, today@) }),
    {
        self.rollover_if_needed(today);
        self.output = raise(self.output, tokens);
    }

    pub fn record_prompt_cache_hit_tokens(&mut self, today: &str, tokens: u32)
        ensures
            final(self)@ == (Gauges { cache_hit: raised(rolled(old(self)@, today@).cache_hit, tokens), ..rolled(old(self)@, today@) }),
    {
        self.rollover_if_needed(today);
        self.cache_hit = raise(self.cache_hit, tokens);
    }

    pub fn record_prompt_cache_miss_tokens(&mut self, today: &str, tokens: u32)
        ensures
            final(self)@ == (Gauges { cache_miss: raised(rolled(old(self)@, today@).cache_miss, tokens), ..rolled(old(self)@, today@) }),
    {
        self.rollover_if_needed(today);
        self.cache_miss = raise(self.cache_miss, tokens);
    }

    /// Sets the four gauges, as when restoring a saved day.
    pub fn restore(&mut self, today: &str, input: i64, output: i64, cache_hit: i64, cache_miss: i64)
        ensures
            final(self)@ == (Gauges { day: today@, input, output, cache_hit, cache_miss }),
    {
        self.current_day = String::from_str(today);
        self.input = input;
        self.output = output;
        self.cache_hit = cache_hit;
        self.cache_miss = cache_miss;
    }

    /// The gauges: input, output, cache hit, cache miss.
    pub fn values(&self) -> (r: (i64, i64, i64, i64))
        ensures
            r == (self@.input, self@.output, self@.cache_hit, self@.cache_miss),
    {
        (self.input, self.output, self.cache_hit, self.cache_miss)
    }
}

} // verus!
