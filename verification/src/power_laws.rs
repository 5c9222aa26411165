//! What can be relied on when the state of the power supplies is read.

use crate::power::{BatteryHealth, BatteryStatus, PowerData};
use crate::property::{
    all_digits, decimal_value, digits_of, is_digit, is_white_space, parse_u32, trimmed,
    trimmed_end, trimmed_start,
};
use crate::sysfs::{
    first_error, is_battery, is_online, law_first_battery_counts, law_no_battery_without_one,
    read_health, read_power_data, read_status, read_string, read_u32, Listing, PowerSupply,
    SysfsClient, SysfsMonitor, POLL_INTERVAL_SECS,
};
use std::time::SystemTime;
use vstd::prelude::*;

verus! {

/// Whether `c` is blank: one of the characters that Unicode calls white space.
pub open spec fn is_blank(c: char) -> bool {
    let n = c as int;
    ||| 9 <= n <= 13
    ||| n == 32
    ||| n == 0x85
    ||| n == 0xa0
    ||| n == 0x1680
    ||| 0x2000 <= n <= 0x200a
    ||| n == 0x2028
    ||| n == 0x2029
    ||| n == 0x202f
    ||| n == 0x205f
    ||| n == 0x3000
}

/// Whether `t` is what is left of `s` from `from` to `to` when the blanks at both
/// ends are cut off.
pub open spec fn is_cut(s: Seq<char>, t: Seq<char>, from: int, to: int) -> bool {
    &&& 0 <= from <= to <= s.len()
    &&& t == s.subrange(from, to)
    &&& forall|i: int| 0 <= i < from || to <= i < s.len() ==> is_blank(#[trigger] s[i])
    &&& from < to ==> !is_blank(s[from]) && !is_blank(s[to - 1])
}

proof fn lemma_blank(c: char)
    ensures
        is_blank(c) == is_white_space(c),
{
    assert(c as u32 == c as int);
}

proof fn lemma_cut_start(s: Seq<char>) -> (from: int)
    ensures
        0 <= from <= s.len(),
        trimmed_start(s) == s.skip(from),
        forall|i: int| 0 <= i < from ==> is_blank(#[trigger] s[i]),
        from < s.len() ==> !is_blank(s[from]),
    decreases s.len(),
{
    if s.len() > 0 && is_white_space(s[0]) {
        let rest = s.skip(1);
        let from = lemma_cut_start(rest) + 1;
        assert(rest.skip(from - 1) =~= s.skip(from));
        assert forall|i: int| 0 <= i < from implies is_blank(#[trigger] s[i]) by {
            lemma_blank(s[0]);
            if i > 0 {
                assert(rest[i - 1] == s[i]);
            }
        }
        from
    } else {
        assert(s.skip(0) =~= s);
        if s.len() > 0 {
            lemma_blank(s[0]);
        }
        0
    }
}

proof fn lemma_cut_end(s: Seq<char>) -> (to: int)
    ensures
        0 <= to <= s.len(),
        trimmed_end(s) == s.take(to),
        forall|i: int| to <= i < s.len() ==> is_blank(#[trigger] s[i]),
        to > 0 ==> !is_blank(s[to - 1]),
    decreases s.len(),
{
    if s.len() > 0 && is_white_space(s.last()) {
        let rest = s.drop_last();
        let to = lemma_cut_end(rest);
        assert(rest.take(to) =~= s.take(to));
        assert forall|i: int| to <= i < s.len() implies is_blank(#[trigger] s[i]) by {
            lemma_blank(s.last());
            if i < rest.len() {
                assert(rest[i] == s[i]);
            }
        }
        to
    } else {
        assert(s.take(s.len() as int) =~= s);
        if s.len() > 0 {
            lemma_blank(s.last());
        }
        s.len() as int
    }
}

/// A file that could be read says its text without the blanks at both ends, and
/// all of what is between them.
pub proof fn law_texts_are_cut(file: Option<String>, text: Option<String>) -> (ends: (int, int))
    requires
        call_ensures(read_string, (&file,), text),
    ensures
        match file {
            Some(whole) => text matches Some(t) && is_cut(whole@, t@, ends.0, ends.1),
            None => text is None,
        },
{
    match file {
        Some(whole) => {
            let from = lemma_cut_start(whole@);
            let rest = whole@.skip(from);
            let to = lemma_cut_end(rest) + from;
            assert(rest.take(to - from) =~= whole@.subrange(from, to));
            assert forall|i: int| 0 <= i < from || to <= i < whole@.len() implies is_blank(
                #[trigger] whole@[i],
            ) by {
                if i >= to {
                    assert(rest[i - from] == whole@[i]);
                }
            }
            (from, to)
        },
        None => (0, 0),
    }
}

/// The decimal digits of a number, without zeros in front.
pub open spec fn decimal_text(n: int) -> Seq<char>
    decreases n,
{
    if n < 10 {
        seq![((n + 48) as u8) as char]
    } else {
        decimal_text(n / 10).push(((n % 10 + 48) as u8) as char)
    }
}

/// Whether `s` is the decimal form of `n`, with any number of zeros in front.
pub open spec fn spells(s: Seq<char>, n: int) -> bool {
    let t = decimal_text(n);
    &&& s.len() >= t.len()
    &&& s.skip(s.len() - t.len()) == t
    &&& forall|i: int| 0 <= i < s.len() - t.len() ==> #[trigger] s[i] == '0'
}

proof fn lemma_digit(d: int)
    requires
        0 <= d < 10,
    ensures
        ((d + 48) as u8) as char as int == d + 48,
        '0' <= ((d + 48) as u8) as char <= '9',
{
}

proof fn lemma_decimal_text(n: int)
    requires
        n >= 0,
    ensures
        decimal_text(n).len() > 0,
        decimal_value(decimal_text(n)) == n,
        all_digits(decimal_text(n)),
    decreases n,
{
    let t = decimal_text(n);
    if n < 10 {
        lemma_digit(n);
        assert(t.drop_last() =~= Seq::<char>::empty());
        reveal_with_fuel(decimal_value, 2);
    } else {
        lemma_digit(n % 10);
        lemma_decimal_text(n / 10);
        assert(t.drop_last() =~= decimal_text(n / 10));
        assert forall|i: int| 0 <= i < t.len() implies is_digit(#[trigger] t[i]) by {
            if i < t.len() - 1 {
                assert(t[i] == decimal_text(n / 10)[i]);
            }
        }
    }
}

proof fn lemma_digits_spell(s: Seq<char>)
    requires
        s.len() > 0,
        all_digits(s),
    ensures
        spells(s, decimal_value(s) as int),
    decreases s.len(),
{
    let n = decimal_value(s) as int;
    let rest = s.drop_last();
    let m = decimal_value(rest) as int;
    let d = s.last() as int - 48;
    let t = decimal_text(n);
    assert(is_digit(s[s.len() - 1]));
    lemma_digit(d);
    assert(((d + 48) as u8) as char == s.last());
    assert(n == 10 * m + d);
    if rest.len() == 0 {
        assert(s.skip(0) =~= t);
    } else {
        assert forall|i: int| 0 <= i < rest.len() implies is_digit(
            #[trigger] rest[i],
        ) by {
            assert(rest[i] == s[i]);
        }
        lemma_digits_spell(rest);
        let r = decimal_text(m);
        if m == 0 {
            assert(r =~= seq!['0']);
            assert forall|i: int| 0 <= i < rest.len() implies #[trigger] rest[i] == '0' by {
                if i == rest.len() - 1 {
                    assert(rest.skip(rest.len() - 1)[0] == rest[i]);
                }
            }
            assert(s.skip(s.len() - 1) =~= t);
            assert forall|i: int| 0 <= i < s.len() - t.len() implies #[trigger] s[i] == '0' by {
                assert(rest[i] == s[i]);
            }
        } else {
            assert(n / 10 == m && n % 10 == d);
            assert(t == r.push(s.last()));
            assert(s.skip(s.len() - t.len()) =~= t) by {
                assert(rest.skip(rest.len() - r.len()).push(s.last()) =~= s.skip(
                    s.len() - t.len(),
                ));
            }
            assert forall|i: int| 0 <= i < s.len() - t.len() implies #[trigger] s[i] == '0' by {
                assert(rest[i] == s[i]);
            }
        }
    }
}

proof fn lemma_spelled(s: Seq<char>, n: int)
    requires
        n >= 0,
        spells(s, n),
    ensures
        s.len() > 0,
        all_digits(s),
        decimal_value(s) == n,
    decreases s.len(),
{
    let t = decimal_text(n);
    lemma_decimal_text(n);
    if s.len() == t.len() {
        assert(s.skip(0) =~= s);
    } else {
        let rest = s.skip(1);
        assert(rest.skip(rest.len() - t.len()) =~= s.skip(s.len() - t.len()));
        assert forall|i: int| 0 <= i < rest.len() - t.len() implies #[trigger] rest[i] == '0' by {
            assert(rest[i] == s[i + 1]);
        }
        lemma_spelled(rest, n);
        assert forall|i: int| 0 <= i < s.len() implies is_digit(#[trigger] s[i]) by {
            if i > 0 {
                assert(rest[i - 1] == s[i]);
            }
        }
        lemma_zero_in_front(rest);
        assert(s =~= seq!['0'] + rest);
    }
}

proof fn lemma_zero_in_front(s: Seq<char>)
    ensures
        decimal_value(seq!['0'] + s) == decimal_value(s),
    decreases s.len(),
{
    let t = seq!['0'] + s;
    if s.len() == 0 {
        reveal_with_fuel(decimal_value, 2);
        assert(t.drop_last() =~= Seq::<char>::empty());
    } else {
        lemma_zero_in_front(s.drop_last());
        assert(t.drop_last() =~= seq!['0'] + s.drop_last());
    }
}

/// A text is read as the number `n` if and only if `n` fits in 32 bits and the
/// text is its decimal form, with or without zeros in front, and with or without
/// a plus sign in front of all.
pub proof fn law_numbers_are_parsed(text: &str, r: Option<u32>, n: int)
    requires
        call_ensures(parse_u32, (text,), r),
        n >= 0,
    ensures
        (r matches Some(v) && v == n) <==> n <= 0xffff_ffff && (spells(text@, n) || (text@.len() > 0
            && text@[0] == '+' && spells(text@.skip(1), n))),
{
    let digits = digits_of(text@);
    if let Some(v) = r {
        lemma_digits_spell(digits);
    }
    if spells(text@, n) {
        lemma_spelled(text@, n);
        assert(is_digit(text@[0]));
    } else if text@.len() > 0 && text@[0] == '+' && spells(text@.skip(1), n) {
        lemma_spelled(text@.skip(1), n);
    }
}

/// The number that a file holds is the one that its text, without the blanks at
/// both ends, is read as, and 0 where it is read as none.
pub proof fn law_numbers_in_files(
    file: Option<String>,
    n: u32,
    text: Option<String>,
    word: &str,
    parsed: Option<u32>,
)
    requires
        call_ensures(read_u32, (&file,), n),
        call_ensures(read_string, (&file,), text),
        text matches Some(t) ==> t@ == word@,
        call_ensures(parse_u32, (word,), parsed),
    ensures
        n == (match (text, parsed) {
            (Some(_), Some(v)) => v,
            _ => 0u32,
        }),
{
}

/// The four words for a status each tell their status, and nothing else tells
/// one.
pub proof fn law_statuses(file: Option<String>, text: Option<String>, status: BatteryStatus)
    requires
        call_ensures(read_string, (&file,), text),
        call_ensures(read_status, (&file,), status),
    ensures
        ({
            let told = |word: Seq<char>| text matches Some(t) && t@ == word;
            &&& status is Charging <==> told("Charging"@)
            &&& status is Discharging <==> told("Discharging"@)
            &&& status is NotCharging <==> told("Full"@) || told("Not charging"@)
        }),
{
    reveal_strlit("Charging");
    reveal_strlit("Discharging");
    reveal_strlit("Full");
    reveal_strlit("Not charging");
    assert("Charging"@.len() == 8 && "Discharging"@.len() == 11 && "Full"@.len() == 4
        && "Not charging"@.len() == 12);
}

/// The words for a health each tell their health, and nothing else tells one.
pub proof fn law_healths(file: Option<String>, text: Option<String>, health: BatteryHealth)
    requires
        call_ensures(read_string, (&file,), text),
        call_ensures(read_health, (&file,), health),
    ensures
        ({
            let told = |word: Seq<char>| text matches Some(t) && t@ == word;
            &&& health is Good <==> told("Good"@)
            &&& health is Overheat <==> told("Overheat"@)
            &&& health is Dead <==> told("Dead"@)
            &&& health is OverVoltage <==> told("Over voltage"@)
            &&& health is UnspecifiedFailure <==> told("Unspecified failure"@)
            &&& health is Cold <==> told("Cold"@)
            &&& health is WatchdogTimerExpire <==> told("Watchdog timer expire"@)
            &&& health is SafetyTimerExpire <==> told("Safety timer expire"@)
            &&& health is OverCurrent <==> told("Over current"@)
            &&& health is CalibrationRequired <==> told("Calibration required"@)
            &&& health is Warm <==> told("Warm"@)
            &&& health is Cool <==> told("Cool"@)
            &&& health is Hot <==> told("Hot"@)
            &&& health is NoBattery <==> told("No battery"@)
        }),
{
    reveal_strlit("Good");
    reveal_strlit("Overheat");
    reveal_strlit("Dead");
    reveal_strlit("Over voltage");
    reveal_strlit("Unspecified failure");
    reveal_strlit("Cold");
    reveal_strlit("Watchdog timer expire");
    reveal_strlit("Safety timer expire");
    reveal_strlit("Over current");
    reveal_strlit("Calibration required");
    reveal_strlit("Warm");
    reveal_strlit("Cool");
    reveal_strlit("Hot");
    reveal_strlit("No battery");
    assert("Good"@.len() == 4 && "Good"@[0] == 'G');
    assert("Dead"@.len() == 4 && "Dead"@[0] == 'D');
    assert("Cold"@.len() == 4 && "Cold"@[0] == 'C' && "Cold"@[2] == 'l');
    assert("Warm"@.len() == 4 && "Warm"@[0] == 'W');
    assert("Cool"@.len() == 4 && "Cool"@[0] == 'C' && "Cool"@[2] == 'o');
    assert("Hot"@.len() == 3);
    assert("Overheat"@.len() == 8);
    assert("No battery"@.len() == 10);
    assert("Over voltage"@.len() == 12 && "Over voltage"@[5] == 'v');
    assert("Over current"@.len() == 12 && "Over current"@[5] == 'c');
    assert("Unspecified failure"@.len() == 19 && "Unspecified failure"@[0] == 'U');
    assert("Safety timer expire"@.len() == 19 && "Safety timer expire"@[0] == 'S');
    assert("Calibration required"@.len() == 20);
    assert("Watchdog timer expire"@.len() == 21);
}

/// Whether a file says `word`, blanks at both ends aside.
pub open spec fn tells(file: Option<String>, word: Seq<char>) -> bool {
    file matches Some(text) && trimmed(text@) == word
}

/// Whether an entry is a supply from outside that is online.
pub open spec fn feeds(entry: Result<PowerSupply, String>) -> bool {
    entry matches Ok(supply) && tells(supply.online, "1"@) && {
        ||| tells(supply.kind, "Mains"@)
        ||| tells(supply.kind, "USB"@)
        ||| tells(supply.kind, "USB_C"@)
        ||| tells(supply.kind, "USB_DCP"@)
        ||| tells(supply.kind, "USB_CDP"@)
        ||| tells(supply.kind, "USB_ACA"@)
    }
}

/// Whether an entry is a battery that does not say that it is absent.
pub open spec fn stores(entry: Result<PowerSupply, String>) -> bool {
    entry matches Ok(supply) && tells(supply.kind, "Battery"@) && !tells(supply.present, "0"@)
}

/// A listing that fails, or the first of its entries that does, is the error
/// that comes out; without one, a state comes out.
pub proof fn law_errors_come_first(
    listing: Listing,
    r: Result<PowerData, String>,
    i: int,
)
    requires
        call_ensures(read_power_data, (&listing,), r),
    ensures
        match listing {
            Err(text) => r == Err::<PowerData, String>(text),
            Ok(entries) => {
                &&& (0 <= i < entries@.len() && entries@[i] is Err && forall|k: int|
                    0 <= k < i ==> #[trigger] entries@[k] is Ok) ==> r == Err::<PowerData, String>(
                    entries@[i]->Err_0,
                )
                &&& (forall|k: int| 0 <= k < entries@.len() ==> #[trigger] entries@[k] is Ok)
                    ==> r is Ok
            },
        },
{
    if let Ok(entries) = listing {
        if 0 <= i < entries@.len() && entries@[i] is Err && forall|k: int|
            0 <= k < i ==> #[trigger] entries@[k] is Ok {
            lemma_first_error(entries@, i);
        }
        if forall|k: int| 0 <= k < entries@.len() ==> #[trigger] entries@[k] is Ok {
            lemma_no_error(entries@);
        }
    }
}

proof fn lemma_first_error(entries: Seq<Result<PowerSupply, String>>, i: int)
    requires
        0 <= i < entries.len(),
        entries[i] is Err,
        forall|k: int| 0 <= k < i ==> #[trigger] entries[k] is Ok,
    ensures
        first_error(entries) == Some(entries[i]->Err_0),
    decreases i,
{
    if i > 0 {
        let rest = entries.skip(1);
        assert(rest[i - 1] == entries[i]);
        assert(entries[0] is Ok);
        assert forall|k: int| 0 <= k < i - 1 implies #[trigger] rest[k] is Ok by {
            assert(rest[k] == entries[k + 1]);
        }
        lemma_first_error(rest, i - 1);
    }
}

proof fn lemma_no_error(entries: Seq<Result<PowerSupply, String>>)
    requires
        forall|k: int| 0 <= k < entries.len() ==> #[trigger] entries[k] is Ok,
    ensures
        first_error(entries) is None,
    decreases entries.len(),
{
    if entries.len() > 0 {
        let rest = entries.skip(1);
        assert(entries[0] is Ok);
        assert forall|k: int| 0 <= k < rest.len() implies #[trigger] rest[k] is Ok by {
            assert(rest[k] == entries[k + 1]);
        }
        lemma_no_error(rest);
    }
}

/// Power from outside is told if and only if some supply from outside is online,
/// whatever the other entries are.
pub proof fn law_outside_power(listing: Listing, r: Result<PowerData, String>)
    requires
        call_ensures(read_power_data, (&listing,), r),
    ensures
        (listing, r) matches (Ok(entries), Ok(data)) ==> (data.ac_online <==> exists|i: int|
            0 <= i < entries@.len() && feeds(#[trigger] entries@[i])),
{
    if let (Ok(entries), Ok(data)) = (listing, r) {
        if data.ac_online {
            let i = choose|i: int|
                0 <= i < entries@.len() && is_online(#[trigger] entries@[i]);
            assert(feeds(entries@[i]));
        }
        if exists|i: int| 0 <= i < entries@.len() && feeds(#[trigger] entries@[i]) {
            let i = choose|i: int| 0 <= i < entries@.len() && feeds(#[trigger] entries@[i]);
            assert(is_online(entries@[i]));
        }
    }
}

/// A battery more or less, wherever it is listed, does not change whether power
/// from outside is told.
pub proof fn law_batteries_do_not_matter_outside(
    entries: Vec<Result<PowerSupply, String>>,
    more: Vec<Result<PowerSupply, String>>,
    at: int,
    battery: PowerSupply,
    r: Result<PowerData, String>,
    s: Result<PowerData, String>,
)
    requires
        tells(battery.kind, "Battery"@),
        0 <= at <= entries@.len(),
        more@ == entries@.insert(at, Ok(battery)),
        call_ensures(read_power_data, (&Ok(entries),), r),
        call_ensures(read_power_data, (&Ok(more),), s),
    ensures
        (r, s) matches (Ok(a), Ok(b)) ==> a.ac_online == b.ac_online,
{
    law_outside_power(Ok(entries), r);
    law_outside_power(Ok(more), s);
    lemma_kinds_differ();
    assert(!feeds(more@[at]));
    if let (Ok(a), Ok(b)) = (r, s) {
        if a.ac_online {
            let i = choose|i: int| 0 <= i < entries@.len() && feeds(#[trigger] entries@[i]);
            assert(feeds(more@[if i < at { i } else { i + 1 }]));
        }
        if b.ac_online {
            let i = choose|i: int| 0 <= i < more@.len() && feeds(#[trigger] more@[i]);
            assert(feeds(entries@[if i < at { i } else { i - 1 }]));
        }
    }
}

proof fn lemma_kinds_differ()
    ensures
        "Battery"@ != "Mains"@,
        "Battery"@ != "USB"@,
        "Battery"@ != "USB_C"@,
        "Battery"@ != "USB_DCP"@,
        "Battery"@ != "USB_CDP"@,
        "Battery"@ != "USB_ACA"@,
{
    reveal_strlit("Battery");
    reveal_strlit("Mains");
    reveal_strlit("USB");
    reveal_strlit("USB_C");
    reveal_strlit("USB_DCP");
    reveal_strlit("USB_CDP");
    reveal_strlit("USB_ACA");
    assert("Battery"@[0] == 'B');
    assert("Mains"@[0] == 'M');
    assert("USB"@[0] == 'U');
    assert("USB_C"@[0] == 'U');
    assert("USB_DCP"@[0] == 'U');
    assert("USB_CDP"@[0] == 'U');
    assert("USB_ACA"@[0] == 'U');
}

/// The battery that is told is the first in place. Its status, its health and
/// its numbers are what its files hold, its charge held down to 100.
pub proof fn law_battery_is_told(
    entries: Vec<Result<PowerSupply, String>>,
    r: Result<PowerData, String>,
    i: int,
    status: BatteryStatus,
    health: BatteryHealth,
    numbers: Seq<u32>,
)
    requires
        call_ensures(read_power_data, (&Ok(entries),), r),
        0 <= i < entries@.len(),
        stores(entries@[i]),
        forall|k: int| 0 <= k < i ==> !stores(#[trigger] entries@[k]),
        numbers.len() == 5,
        ({
            let supply = entries@[i]->Ok_0;
            &&& call_ensures(read_status, (&supply.status,), status)
            &&& call_ensures(read_health, (&supply.health,), health)
            &&& call_ensures(read_u32, (&supply.capacity,), numbers[0])
            &&& call_ensures(read_u32, (&supply.voltage_now,), numbers[1])
            &&& call_ensures(read_u32, (&supply.current_now,), numbers[2])
            &&& call_ensures(read_u32, (&supply.charge_now,), numbers[3])
            &&& call_ensures(read_u32, (&supply.charge_full,), numbers[4])
        }),
    ensures
        r matches Ok(data) ==> (data.battery matches Some(b) && {
            &&& b.status == status
            &&& b.health == health
            &&& b.percent == (if numbers[0] < 100 {
                numbers[0]
            } else {
                100
            })
            &&& b.voltage == numbers[1]
            &&& b.current == numbers[2]
            &&& b.charge_counter == numbers[3]
            &&& b.charge_full == numbers[4]
        }),
{
    assert forall|k: int| 0 <= k < i implies !(#[trigger] entries@[k] matches Ok(supply)
        && is_battery(supply)) by {
        assert(!stores(entries@[k]));
    }
    law_first_battery_counts(entries@, i);
}

/// Where no entry is a battery in place, none is told.
pub proof fn law_no_battery_is_told(
    entries: Vec<Result<PowerSupply, String>>,
    r: Result<PowerData, String>,
)
    requires
        call_ensures(read_power_data, (&Ok(entries),), r),
        forall|k: int| 0 <= k < entries@.len() ==> !stores(#[trigger] entries@[k]),
    ensures
        r matches Ok(data) ==> data.battery is None,
{
    assert forall|k: int| 0 <= k < entries@.len() implies !(#[trigger] entries@[k] matches Ok(
        supply,
    ) && is_battery(supply)) by {
        assert(!stores(entries@[k]));
    }
    law_no_battery_without_one(entries@);
}

/// A monitor tells the state that it finds if and only if it is not the one that
/// it found last, which is the first one that it was connected with or the last
/// one that could be read since. A listing that fails comes out as its error and
/// leaves what was found last.
pub proof fn law_monitor(
    listings: Seq<Listing>,
    states: Seq<Result<PowerData, String>>,
    connected: SysfsMonitor,
    one: &mut SysfsMonitor,
    two: &mut SysfsMonitor,
    first: Result<Option<PowerData>, String>,
    second: Result<Option<PowerData>, String>,
)
    requires
        listings.len() == 3 && states.len() == 3,
        call_ensures(read_power_data, (&listings[0],), states[0]),
        call_ensures(read_power_data, (&listings[1],), states[1]),
        call_ensures(read_power_data, (&listings[2],), states[2]),
        call_ensures(SysfsMonitor::connect, (&listings[0],), connected),
        *old(one) == connected,
        call_ensures(SysfsMonitor::read_message, (one, &listings[1]), first),
        *old(two) == *final(one),
        call_ensures(SysfsMonitor::read_message, (two, &listings[2]), second),
    ensures
        match states[1] {
            Err(text) => first == Err::<Option<PowerData>, String>(text),
            Ok(data) => first == Ok::<Option<PowerData>, String>(
                if states[0] == Ok::<PowerData, String>(data) {
                    None
                } else {
                    Some(data)
                },
            ),
        },
        match states[2] {
            Err(text) => second == Err::<Option<PowerData>, String>(text),
            Ok(data) => second == Ok::<Option<PowerData>, String>(
                if states[1] == Ok::<PowerData, String>(data) || (states[1] is Err && states[0]
                    == Ok::<PowerData, String>(data)) {
                    None
                } else {
                    Some(data)
                },
            ),
        },
{
}

/// A monitor looks where it was connected to and nowhere else, and starts from
/// what it was connected with.
pub proof fn law_monitor_place(
    path: String,
    listing: Listing,
    state: Result<PowerData, String>,
    monitor: SysfsMonitor,
    place: &str,
    standard: SysfsMonitor,
    standard_place: &str,
    one: &mut SysfsMonitor,
    next: Listing,
    next_state: Result<PowerData, String>,
    told: Result<Option<PowerData>, String>,
    place_after: &str,
)
    requires
        call_ensures(read_power_data, (&listing,), state),
        call_ensures(read_power_data, (&next,), next_state),
        call_ensures(SysfsMonitor::connect_at, (path, &listing), monitor),
        call_ensures(SysfsMonitor::root, (&monitor,), place),
        call_ensures(SysfsMonitor::connect, (&listing,), standard),
        call_ensures(SysfsMonitor::root, (&standard,), standard_place),
        *old(one) == monitor,
        call_ensures(SysfsMonitor::read_message, (one, &next), told),
        call_ensures(SysfsMonitor::root, (&*final(one),), place_after),
    ensures
        place@ == path@ && place_after@ == path@,
        standard_place@ == "/sys/class/power_supply"@,
        next_state matches Ok(data) ==> told == Ok::<Option<PowerData>, String>(
            if state == Ok::<PowerData, String>(data) {
                None
            } else {
                Some(data)
            },
        ),
{
}

/// A client gives the state that it finds, and notes the time of each request,
/// also of one that fails; before the first there is none.
pub proof fn law_client(
    connected: Result<SysfsClient, String>,
    none: Option<SystemTime>,
    place: &str,
    client: &mut SysfsClient,
    now: SystemTime,
    listing: Listing,
    state: Result<PowerData, String>,
    given: Result<PowerData, String>,
    noted: Option<SystemTime>,
    place_after: &str,
)
    requires
        call_ensures(SysfsClient::connect, (), connected),
        connected == Ok::<SysfsClient, String>(*old(client)),
        call_ensures(SysfsClient::last_request_timestamp, (&*old(client),), none),
        call_ensures(SysfsClient::root, (&*old(client),), place),
        call_ensures(read_power_data, (&listing,), state),
        call_ensures(SysfsClient::get_power_data, (client, now, &listing), given),
        call_ensures(SysfsClient::last_request_timestamp, (&*final(client),), noted),
        call_ensures(SysfsClient::root, (&*final(client),), place_after),
    ensures
        none is None,
        given == state,
        noted == Some(now),
        place@ == "/sys/class/power_supply"@ && place_after@ == place@,
{
}

/// A monitor looks once a second.
pub proof fn law_monitor_interval()
    ensures
        POLL_INTERVAL_SECS == 1,
{
}

} // verus!
