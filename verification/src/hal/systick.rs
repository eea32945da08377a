//! The clock of a node: a counter that never stops, and an alarm on it.

use vstd::prelude::*;

verus! {

/// The counter runs at this fraction of the system clock.
pub const SYSTICK_DIVIDER: u32 = 8;

/// How the counter relates to the clock that programs see.
#[derive(Clone, Copy, PartialEq, Eq, Structural, Debug)]
pub struct SystickDriver {
    cnt_per_tick: u32,
}

impl View for SystickDriver {
    type V = int;

    /// How many counts make a tick.
    closed spec fn view(&self) -> int {
        self.cnt_per_tick as int
    }
}

/// What to do about an alarm.
#[derive(Clone, Copy, PartialEq, Eq, Structural, Debug)]
pub enum AlarmStep {
    /// It is due already.
    Due,
    /// Set the two halves of the compare register.
    Arm { high: u32, low: u32 },
}

/// How many counts make a tick, given the system clock.
pub open spec fn counts_per_tick(hclk: int, tick_hz: int) -> int {
    hclk / SYSTICK_DIVIDER as int / tick_hz
}

/// The tick that a count falls into.
pub open spec fn tick_at(cnt: int, cnt_per_tick: int) -> int {
    cnt / cnt_per_tick
}

/// The count at which a tick begins.
pub open spec fn tick_start(ticks: int, cnt_per_tick: int) -> int {
    ticks * cnt_per_tick
}

/// What to do about an alarm at `next_alarm_cnt` when the counter is at `raw_cnt`.
pub open spec fn alarm_step(next_alarm_cnt: u64, raw_cnt: u64) -> AlarmStep {
    if next_alarm_cnt <= raw_cnt {
        AlarmStep::Due
    } else {
        AlarmStep::Arm {
            high: (next_alarm_cnt / 0x1_0000_0000) as u32,
            low: (next_alarm_cnt % 0x1_0000_0000) as u32,
        }
    }
}

impl SystickDriver {
    /// A driver that has not been told how fast the counter is.
    pub fn new() -> (driver: SystickDriver)
        ensures
            driver@ == 1,
    {
        // avoid div by zero
        SystickDriver { cnt_per_tick: 1 }
    }

    /// Learns how fast the system clock and how long a tick is.
    pub fn init(&mut self, hclk: u32, tick_hz: u64)
        requires
            tick_hz > 0,
        ensures
            final(self)@ == counts_per_tick(hclk as int, tick_hz as int),
            final(self)@ == hclk as int / SYSTICK_DIVIDER as int / tick_hz as int,
    {
        let cnt_per_second: u64 = hclk as u64 / SYSTICK_DIVIDER as u64;
        let cnt_per_tick: u64 = cnt_per_second / tick_hz;
        assert(cnt_per_tick <= cnt_per_second) by (nonlinear_arith)
            requires
                cnt_per_tick == cnt_per_second / tick_hz,
                tick_hz > 0,
        ;
        self.cnt_per_tick = cnt_per_tick as u32;
    }

    /// Whether ticks can be told: with a tick that is shorter than a count they
    /// cannot.
    pub fn can_tell(&self) -> (can_tell: bool)
        ensures
            can_tell == (self@ > 0),
    {
        self.cnt_per_tick > 0
    }

    /// Whether the counter gets to a tick before it comes round.
    pub fn can_wake(&self, ticks: u64) -> (can_wake: bool)
        ensures
            can_wake == (ticks * self@ <= u64::MAX),
    {
        ticks.checked_mul(self.cnt_per_tick as u64).is_some()
    }

    /// The tick that a count falls into.
    pub fn now(&self, raw_cnt: u64) -> (ticks: u64)
        requires
            self@ > 0,
        ensures
            ticks == tick_at(raw_cnt as int, self@),
            ticks == raw_cnt as int / self@,
    {
        raw_cnt / self.cnt_per_tick as u64
    }

    /// The count at which a tick begins.
    pub fn wake_cnt(&self, ticks: u64) -> (cnt: u64)
        requires
            ticks * self@ <= u64::MAX,
        ensures
            cnt == tick_start(ticks as int, self@),
            cnt == ticks * self@,
    {
        ticks * self.cnt_per_tick as u64
    }
}

/// What to do about an alarm at `next_alarm_cnt` when the counter is at `raw_cnt`.
pub fn set_alarm(next_alarm_cnt: u64, raw_cnt: u64) -> (step: AlarmStep)
    ensures
        step == alarm_step(next_alarm_cnt, raw_cnt),
        next_alarm_cnt <= raw_cnt ==> step is Due,
        next_alarm_cnt > raw_cnt ==> step == (AlarmStep::Arm {
            high: (next_alarm_cnt / 0x1_0000_0000) as u32,
            low: (next_alarm_cnt % 0x1_0000_0000) as u32,
        }),
{
    if next_alarm_cnt <= raw_cnt {
        return AlarmStep::Due;
    }
    AlarmStep::Arm {
        high: (next_alarm_cnt / 0x1_0000_0000) as u32,
        low: (next_alarm_cnt % 0x1_0000_0000) as u32,
    }
}

/// Whether an alarm that was set is going to fire: if the counter has passed
/// it by then it is not, and has to be disarmed.
pub fn is_armed(next_alarm_cnt: u64, raw_cnt: u64) -> (armed: bool)
    ensures
        armed == (next_alarm_cnt > raw_cnt),
{
    next_alarm_cnt > raw_cnt
}

/// The two halves of the compare register are the count of the alarm.
pub proof fn law_alarm_is_set_exactly(next_alarm_cnt: u64)
    ensures
        0x1_0000_0000 * ((next_alarm_cnt / 0x1_0000_0000) as u32) + (next_alarm_cnt
            % 0x1_0000_0000) as u32 == next_alarm_cnt,
{
}

/// A tick has come exactly when the counter has reached its first count:
/// nobody is woken too soon.
pub proof fn law_nobody_is_woken_too_soon(cnt_per_tick: int, raw_cnt: int, ticks: int)
    requires
        cnt_per_tick > 0,
        raw_cnt >= 0,
        ticks >= 0,
    ensures
        raw_cnt >= ticks * cnt_per_tick <==> raw_cnt / cnt_per_tick >= ticks,
{
    assert(raw_cnt >= ticks * cnt_per_tick <==> raw_cnt / cnt_per_tick >= ticks)
        by (nonlinear_arith)
        requires
            cnt_per_tick > 0,
            raw_cnt >= 0,
            ticks >= 0,
    ;
}

/// A tick begins at the first count that falls into it, and the counts before
/// fall into earlier ticks.
pub proof fn law_ticks_begin_where_they_should(cnt_per_tick: int, ticks: int, cnt: int)
    requires
        cnt_per_tick > 0,
        ticks >= 0,
        cnt >= 0,
    ensures
        cnt >= tick_start(ticks, cnt_per_tick) <==> tick_at(cnt, cnt_per_tick) >= ticks,
        tick_at(tick_start(ticks, cnt_per_tick), cnt_per_tick) == ticks,
{
    law_nobody_is_woken_too_soon(cnt_per_tick, cnt, ticks);
    vstd::arithmetic::div_mod::lemma_fundamental_div_mod_converse(
        ticks * cnt_per_tick,
        cnt_per_tick,
        ticks,
        0,
    );
}

/// With eight cycles to a count, a second has as many ticks as were asked for,
/// where the frequencies divide.
pub proof fn law_ticks_fill_a_second(tick_hz: int, cnt_per_tick: int)
    requires
        tick_hz > 0,
        cnt_per_tick >= 0,
    ensures
        counts_per_tick(8 * (cnt_per_tick * tick_hz), tick_hz) == cnt_per_tick,
{
    assert((8 * (cnt_per_tick * tick_hz)) / 8 == cnt_per_tick * tick_hz);
    vstd::arithmetic::div_mod::lemma_fundamental_div_mod_converse(
        cnt_per_tick * tick_hz,
        tick_hz,
        cnt_per_tick,
        0,
    );
}

/// An alarm is armed exactly if it lies ahead, and then for its own count.
pub proof fn law_alarm_is_armed_for_its_count(next_alarm_cnt: u64, raw_cnt: u64)
    ensures
        alarm_step(next_alarm_cnt, raw_cnt) is Arm <==> next_alarm_cnt > raw_cnt,
        alarm_step(next_alarm_cnt, raw_cnt) matches AlarmStep::Arm { high, low } ==> 0x1_0000_0000
            * high + low == next_alarm_cnt,
{
}

} // verus!
