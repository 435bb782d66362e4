//! Reading a battery report out of raw command output, and classifying the
//! charge level against the configured threshold.

use vstd::prelude::*;
use vstd::string::{StrSliceExecFns, StringExecFns};
use crate::text::{
    chars_of, contains_seq, contains_sub, dec_value, digit_run_end, digit_run_end_exec,
    digit_run_value_capped, find_from, find_sub_from, is_digit, is_digit_exec,
    lemma_dec_value_nonneg, lemma_digit_run_end, lower_chars, lower_seq, match_at, pat_match_at,
    sub_vec,
};
use crate::types::{BatteryError, BatteryInfo, BatteryState, ChargingStatus};

verus! {

/// `prefix`, `name` and `suffix` glued together.
fn build_pattern(prefix: &str, name: &str, suffix: &str) -> (r: String)
    ensures
        r@ == prefix@ + name@ + suffix@,
{
    let mut s = prefix.to_owned();
    s.append(name);
    s.append(suffix);
    s
}

/// Key pattern of a numeric top-level field of the registry dump.
pub open spec fn num_field_pattern(name: Seq<char>) -> Seq<char> {
    "\""@ + name + "\" = "@
}

/// Key pattern of an affirmative boolean field of the registry dump.
pub open spec fn bool_field_pattern(name: Seq<char>) -> Seq<char> {
    "\""@ + name + "\" = Yes"@
}

/// Key pattern of a numeric field inside the battery-data block.
pub open spec fn inner_field_pattern(name: Seq<char>) -> Seq<char> {
    "\""@ + name + "\"="@
}

/// Error text for a field that the battery-data block does not hold.
pub open spec fn missing_field_msg(name: Seq<char>) -> Seq<char> {
    "Could not find "@ + name + " in BatteryData"@
}

/// Error text for a field whose digits are out of range.
pub open spec fn invalid_field_msg(name: Seq<char>) -> Seq<char> {
    "Invalid "@ + name + " value"@
}

/// First position from `i` of an occurrence of the key pattern `p` that is
/// directly followed by a digit; -1 if none. A key occurrence with no digit
/// after it is scanned past, like any other text.
pub open spec fn key_num_pos_from(t: Seq<char>, p: Seq<char>, i: int) -> int
    decreases t.len() - i when 0 <= i <= t.len()
{
    if i >= t.len() {
        -1
    } else if match_at(t, p, i) && i + p.len() < t.len() && is_digit(t[i + p.len()]) {
        i
    } else {
        key_num_pos_from(t, p, i + 1)
    }
}

/// Raw value of a numeric top-level field: the run of digits after the
/// first key occurrence that has digits; nothing when no occurrence does.
pub open spec fn spec_field_u64(t: Seq<char>, name: Seq<char>) -> Option<int> {
    let p = num_field_pattern(name);
    let i = key_num_pos_from(t, p, 0);
    if i < 0 {
        Option::None
    } else {
        let s = i + p.len();
        Option::Some(dec_value(t.subrange(s, digit_run_end(t, s))))
    }
}

/// A boolean field is set when its affirmative key pattern occurs.
pub open spec fn spec_field_bool(t: Seq<char>, name: Seq<char>) -> bool {
    contains_seq(t, bool_field_pattern(name))
}

/// A complete battery-data group starts at `i`: the marker
/// `"BatteryData" = {`, then at least one character that is no closing
/// brace, then a closing brace further on.
pub open spec fn block_match_at(t: Seq<char>, i: int) -> bool {
    let s = i + "\"BatteryData\" = {"@.len();
    &&& match_at(t, "\"BatteryData\" = {"@, i)
    &&& s < t.len()
    &&& t[s] != '}'
    &&& find_from(t, "}"@, s) >= 0
}

/// Start of the first complete battery-data group, scanning from `i`; -1
/// if none. A marker whose group is empty or never closed is scanned past.
pub open spec fn block_pos_from(t: Seq<char>, i: int) -> int
    decreases t.len() - i when 0 <= i <= t.len()
{
    if i >= t.len() {
        -1
    } else if block_match_at(t, i) {
        i
    } else {
        block_pos_from(t, i + 1)
    }
}

/// The first complete battery-data group of `t`, from its marker up to and
/// including the first closing brace after the opening one.
pub open spec fn spec_battery_data_block(t: Seq<char>) -> Option<Seq<char>> {
    let i = block_pos_from(t, 0);
    if i < 0 {
        Option::None
    } else {
        let e = find_from(t, "}"@, i + "\"BatteryData\" = {"@.len());
        Option::Some(t.subrange(i, e + 1))
    }
}

/// Raw value of a numeric field inside the battery-data group, with the
/// same key-followed-by-digits matching as the top-level fields.
pub open spec fn spec_battery_data_field(t: Seq<char>, name: Seq<char>) -> Option<int> {
    match spec_battery_data_block(t) {
        Option::None => Option::None,
        Option::Some(b) => {
            let p = inner_field_pattern(name);
            let i = key_num_pos_from(b, p, 0);
            if i < 0 {
                Option::None
            } else {
                let s = i + p.len();
                Option::Some(dec_value(b.subrange(s, digit_run_end(b, s))))
            }
        },
    }
}

/// Position of the first occurrence of `pat` that is directly followed by
/// a digit.
fn find_key_num(hay: &Vec<char>, pat: &str) -> (r: Option<usize>)
    ensures
        match r {
            Some(i) => {
                &&& key_num_pos_from(hay@, pat@, 0) == i
                &&& match_at(hay@, pat@, i as int)
                &&& i + pat@.len() < hay@.len()
                &&& is_digit(hay@[i + pat@.len()])
            },
            None => key_num_pos_from(hay@, pat@, 0) == -1,
        },
{
    let n = hay.len();
    let m = pat.unicode_len();
    let mut i: usize = 0;
    while i < n
        invariant
            i <= n,
            n == hay@.len(),
            m == pat@.len(),
            key_num_pos_from(hay@, pat@, 0) == key_num_pos_from(hay@, pat@, i as int),
        decreases n - i,
    {
        if m < n - i {
            if pat_match_at(hay, pat, i, m) {
                if is_digit_exec(hay[i + m]) {
                    proof {
                        assert(key_num_pos_from(hay@, pat@, i as int) == i);
                    }
                    return Some(i);
                }
            }
        }
        proof {
            assert(key_num_pos_from(hay@, pat@, i as int) == key_num_pos_from(hay@, pat@, i + 1));
        }
        i += 1;
    }
    proof {
        assert(key_num_pos_from(hay@, pat@, i as int) == -1);
    }
    None
}

/// Start of the first complete battery-data group, and the position of its
/// closing brace.
fn find_block(hay: &Vec<char>) -> (r: Option<(usize, usize)>)
    ensures
        match r {
            Some(p) => {
                &&& block_pos_from(hay@, 0) == p.0
                &&& p.1 == find_from(hay@, "}"@, p.0 + "\"BatteryData\" = {"@.len())
                &&& p.0 <= p.1
                &&& p.1 + 1 <= hay@.len()
            },
            None => block_pos_from(hay@, 0) == -1,
        },
{
    let n = hay.len();
    let marker_len = "\"BatteryData\" = {".unicode_len();
    let mut i: usize = 0;
    while i < n
        invariant
            i <= n,
            n == hay@.len(),
            marker_len == "\"BatteryData\" = {"@.len(),
            block_pos_from(hay@, 0) == block_pos_from(hay@, i as int),
        decreases n - i,
    {
        if marker_len <= n - i {
            if pat_match_at(hay, "\"BatteryData\" = {", i, marker_len) {
                let s = i + marker_len;
                if s < n {
                    if hay[s] != '}' {
                        match find_sub_from(hay, "}", s) {
                            Some(e) => {
                                proof {
                                    reveal_strlit("}");
                                    assert(block_match_at(hay@, i as int));
                                    assert(block_pos_from(hay@, i as int) == i);
                                    assert(e + 1 <= n);
                                }
                                return Some((i, e));
                            },
                            None => {},
                        }
                    }
                }
            }
        }
        proof {
            assert(block_pos_from(hay@, i as int) == block_pos_from(hay@, i + 1));
        }
        i += 1;
    }
    proof {
        assert(block_pos_from(hay@, i as int) == -1);
    }
    None
}

/// Reads the whole-number value of a top-level field; `None` when no
/// occurrence of the key is followed by digits, or the value does not fit
/// in a `u64`.
pub fn parse_field_u64(output: &str, field_name: &str) -> (r: Option<u64>)
    ensures
        match spec_field_u64(output@, field_name@) {
            Option::None => r is None,
            Option::Some(v) => v >= 0 && if v > u64::MAX {
                r is None
            } else {
                r == Some(v as u64)
            },
        },
{
    let hay = chars_of(output);
    let pat = build_pattern("\"", field_name, "\" = ");
    let m = pat.as_str().unicode_len();
    let n = hay.len();
    match find_key_num(&hay, pat.as_str()) {
        None => None,
        Some(i) => {
            proof {
                assert(i + m < n);
            }
            let s = i + m;
            let e = digit_run_end_exec(&hay, s);
            proof {
                lemma_digit_run_end(hay@, s as int);
            }
            digit_run_value_capped(&hay, s, e, u64::MAX)
        },
    }
}

/// Whether an affirmative boolean field of the registry dump is set.
pub fn parse_field_bool(output: &str, field_name: &str) -> (r: bool)
    ensures
        r == spec_field_bool(output@, field_name@),
{
    let hay = chars_of(output);
    let pat = build_pattern("\"", field_name, "\" = Yes");
    contains_sub(&hay, pat.as_str())
}

/// Reads a percentage-sized field out of the battery-data group, reporting
/// a parse error that names the field when it is missing or out of range.
pub fn parse_battery_data_field(output: &str, field_name: &str) -> (r: Result<
    u8,
    BatteryError,
>)
    ensures
        match spec_battery_data_field(output@, field_name@) {
            Option::None => r matches Err(BatteryError::ParseError(m)) && m@
                == missing_field_msg(field_name@),
            Option::Some(v) => v >= 0 && if v <= 100 {
                r matches Ok(p) && p == v
            } else {
                r matches Err(BatteryError::ParseError(m)) && m@ == invalid_field_msg(field_name@)
            },
        },
{
    let hay = chars_of(output);
    match find_block(&hay) {
        None => Err(
            BatteryError::ParseError(
                build_pattern("Could not find ", field_name, " in BatteryData"),
            ),
        ),
        Some((bs, be)) => {
            let n = hay.len();
            proof {
                assert(be + 1 <= n);
            }
            let b = sub_vec(&hay, bs, be + 1);
            let pat = build_pattern("\"", field_name, "\"=");
            let m = pat.as_str().unicode_len();
            match find_key_num(&b, pat.as_str()) {
                None => Err(
                    BatteryError::ParseError(
                        build_pattern("Could not find ", field_name, " in BatteryData"),
                    ),
                ),
                Some(i) => {
                    let s = i + m;
                    let e = digit_run_end_exec(&b, s);
                    proof {
                        lemma_digit_run_end(b@, s as int);
                    }
                    match digit_run_value_capped(&b, s, e, 100) {
                        Some(v) => Ok(v as u8),
                        None => Err(
                            BatteryError::ParseError(
                                build_pattern("Invalid ", field_name, " value"),
                            ),
                        ),
                    }
                },
            }
        },
    }
}

/// The status that a combination of the three registry flags means: a set
/// fully-charged flag wins, then the charging flag, then external power
/// (treated as charged), and a battery on its own is discharging.
pub open spec fn spec_status_a(
    is_charging: bool,
    external_connected: bool,
    fully_charged: bool,
) -> ChargingStatus {
    if fully_charged {
        ChargingStatus::Charged
    } else if is_charging {
        ChargingStatus::Charging
    } else if external_connected {
        ChargingStatus::Charged
    } else {
        ChargingStatus::Discharging
    }
}

/// Derives the charging status from the three registry flags.
pub fn determine_charging_status(
    is_charging: bool,
    external_connected: bool,
    fully_charged: bool,
) -> (r: ChargingStatus)
    ensures
        r == spec_status_a(is_charging, external_connected, fully_charged),
{
    if fully_charged {
        ChargingStatus::Charged
    } else if is_charging {
        ChargingStatus::Charging
    } else if external_connected {
        ChargingStatus::Charged
    } else {
        ChargingStatus::Discharging
    }
}

/// A minute count as seconds, when that fits in a `u64`.
pub open spec fn spec_minutes_to_secs(v: int) -> Option<u64> {
    if 0 <= v && v * 60 <= u64::MAX {
        Option::Some((v * 60) as u64)
    } else {
        Option::None
    }
}

/// The discharge estimate of a registry dump: the minute count of the
/// time-remaining field, read only when the battery powers the machine.
pub open spec fn spec_time_remaining_a(t: Seq<char>) -> Option<u64> {
    if !spec_field_bool(t, "IsCharging"@) && !spec_field_bool(t, "ExternalConnected"@) {
        match spec_field_u64(t, "TimeRemaining"@) {
            Option::None => Option::None,
            Option::Some(v) => spec_minutes_to_secs(v),
        }
    } else {
        Option::None
    }
}

/// The charge estimate of a registry dump: the minute count of the
/// time-to-full field, read only while charging; the sentinel 65535 means
/// that no estimate is available.
pub open spec fn spec_time_to_full_a(t: Seq<char>) -> Option<u64> {
    if spec_field_bool(t, "IsCharging"@) {
        match spec_field_u64(t, "AvgTimeToFull"@) {
            Option::None => Option::None,
            Option::Some(v) => if v == 65535 {
                Option::None
            } else {
                spec_minutes_to_secs(v)
            },
        }
    } else {
        Option::None
    }
}

/// A sentinel time-to-full of 65535 minutes means that no estimate is
/// available: the reading never carries it as a value.
pub proof fn lemma_time_to_full_sentinel(t: Seq<char>)
    requires
        spec_field_u64(t, "AvgTimeToFull"@) == Option::Some(65535int),
    ensures
        spec_time_to_full_a(t) is None,
{
}

/// The charging status that the flags of a registry dump mean.
pub open spec fn spec_status_flags(t: Seq<char>) -> ChargingStatus {
    spec_status_a(
        spec_field_bool(t, "IsCharging"@),
        spec_field_bool(t, "ExternalConnected"@),
        spec_field_bool(t, "FullyCharged"@),
    )
}

/// What a registry-dump parse returns: the nested charge fraction decides
/// between success and the two parse errors, and on success every field of
/// the reading is pinned down.
pub open spec fn parses_registry_dump(t: Seq<char>, r: Result<BatteryInfo, BatteryError>) -> bool {
    &&& (spec_battery_data_field(t, "UISoc"@) is None ==> (r matches Err(
        BatteryError::ParseError(m),
    ) && m@ == missing_field_msg("UISoc"@)))
    &&& (forall|v: int|
        spec_battery_data_field(t, "UISoc"@) == Option::Some(v) && v > 100 ==> (r matches Err(
            BatteryError::ParseError(m),
        ) && m@ == invalid_field_msg("UISoc"@)))
    &&& (forall|v: int|
        spec_battery_data_field(t, "UISoc"@) == Option::Some(v) && 0 <= v <= 100 ==> (r matches Ok(
            info,
        ) && {
            &&& info.percentage == v
            &&& info.status == spec_status_flags(t)
            &&& info.time_remaining == spec_time_remaining_a(t)
            &&& info.time_to_full == spec_time_to_full_a(t)
            &&& info.wf()
        }))
}

/// Parses the structured registry dump into a battery reading.
pub fn parse_ioreg_output(output: &str) -> (r: Result<BatteryInfo, BatteryError>)
    ensures
        parses_registry_dump(output@, r),
{
    let percentage = match parse_battery_data_field(output, "UISoc") {
        Ok(p) => p,
        Err(e) => {
            return Err(e);
        },
    };
    let is_charging = parse_field_bool(output, "IsCharging");
    let external_connected = parse_field_bool(output, "ExternalConnected");
    let fully_charged = parse_field_bool(output, "FullyCharged");
    let status = determine_charging_status(is_charging, external_connected, fully_charged);
    let time_remaining: Option<u64> = if !is_charging && !external_connected {
        match parse_field_u64(output, "TimeRemaining") {
            Some(mins) => if mins <= u64::MAX / 60 {
                Some(mins * 60)
            } else {
                None
            },
            None => None,
        }
    } else {
        None
    };
    let time_to_full: Option<u64> = if is_charging {
        match parse_field_u64(output, "AvgTimeToFull") {
            Some(mins) => if mins != 65535 && mins <= u64::MAX / 60 {
                Some(mins * 60)
            } else {
                None
            },
            None => None,
        }
    } else {
        None
    };
    Ok(BatteryInfo { percentage, status, time_remaining, time_to_full })
}

/// Start of the first run of digits that is directly followed by a percent
/// sign, scanning from `i`; -1 if none.
pub open spec fn percent_pos_from(t: Seq<char>, i: int) -> int
    decreases t.len() - i when 0 <= i <= t.len()
{
    if i >= t.len() {
        -1
    } else if is_digit(t[i]) && digit_run_end(t, i) < t.len() && t[digit_run_end(t, i)] == '%' {
        i
    } else {
        percent_pos_from(t, i + 1)
    }
}

/// The percentage of a status line: the digits of the first
/// digits-then-percent-sign group.
pub open spec fn spec_percent_b(l: Seq<char>) -> Option<int> {
    let i = percent_pos_from(l, 0);
    if i < 0 {
        Option::None
    } else {
        Option::Some(dec_value(l.subrange(i, digit_run_end(l, i))))
    }
}

/// A clock group `hours:minutes` starts at `i` and its minute digits are
/// directly followed by `suffix`.
pub open spec fn clock_match_at(t: Seq<char>, i: int, suffix: Seq<char>) -> bool {
    let a = digit_run_end(t, i);
    &&& is_digit(t[i])
    &&& a < t.len()
    &&& t[a] == ':'
    &&& digit_run_end(t, a + 1) > a + 1
    &&& match_at(t, suffix, digit_run_end(t, a + 1))
}

/// Start of the first clock group followed by `suffix`, scanning from `i`;
/// -1 if none.
pub open spec fn clock_pos_from(t: Seq<char>, i: int, suffix: Seq<char>) -> int
    decreases t.len() - i when 0 <= i <= t.len()
{
    if i >= t.len() {
        -1
    } else if clock_match_at(t, i, suffix) {
        i
    } else {
        clock_pos_from(t, i + 1, suffix)
    }
}

/// Seconds encoded by the clock group at `i`: hours times 3600 plus
/// minutes times 60.
pub open spec fn clock_secs_at(t: Seq<char>, i: int) -> int {
    let a = digit_run_end(t, i);
    let b = digit_run_end(t, a + 1);
    dec_value(t.subrange(i, a)) * 3600 + dec_value(t.subrange(a + 1, b)) * 60
}

/// Seconds of the first clock group followed by `suffix`, when there is one
/// and the count fits in a `u64`.
pub open spec fn spec_clock_b(l: Seq<char>, suffix: Seq<char>) -> Option<u64> {
    let i = clock_pos_from(l, 0, suffix);
    if i < 0 {
        Option::None
    } else if clock_secs_at(l, i) <= u64::MAX {
        Option::Some(clock_secs_at(l, i) as u64)
    } else {
        Option::None
    }
}

/// The status that a lowercased status line means. The discharging test
/// must come right after the charging one: "discharging" contains
/// "charging", so "charging present" alone cannot mean charging.
pub open spec fn spec_status_b(l: Seq<char>) -> ChargingStatus {
    if contains_seq(l, "charging"@) && !contains_seq(l, "discharging"@) {
        ChargingStatus::Charging
    } else if contains_seq(l, "discharging"@) {
        ChargingStatus::Discharging
    } else if contains_seq(l, "charged"@) || contains_seq(l, "ac attached"@) {
        ChargingStatus::Charged
    } else {
        ChargingStatus::Unknown
    }
}

/// A lowercased status line carries a no-estimate marker.
pub open spec fn spec_no_estimate(l: Seq<char>) -> bool {
    contains_seq(l, "no estimate"@) || contains_seq(l, "calculating"@)
}

/// The discharge estimate of a status line: the first clock group followed
/// by " remaining", read only while discharging and without a no-estimate
/// marker.
pub open spec fn spec_time_remaining_b(l: Seq<char>) -> Option<u64> {
    if spec_status_b(l) == ChargingStatus::Discharging && !spec_no_estimate(l) {
        spec_clock_b(l, " remaining"@)
    } else {
        Option::None
    }
}

/// The charge estimate of a status line: the first clock group followed by
/// " until charged", read only while charging and without a no-estimate
/// marker.
pub open spec fn spec_time_to_full_b(l: Seq<char>) -> Option<u64> {
    if spec_status_b(l) == ChargingStatus::Charging && !spec_no_estimate(l) {
        spec_clock_b(l, " until charged"@)
    } else {
        Option::None
    }
}

/// What a status-line parse returns, all of it on the lowercased text: the
/// first percentage group decides between success and the two parse errors,
/// and on success every field of the reading is pinned down.
pub open spec fn parses_status_line(t: Seq<char>, r: Result<BatteryInfo, BatteryError>) -> bool {
    let l = lower_seq(t);
    &&& (spec_percent_b(l) is None ==> (r matches Err(BatteryError::ParseError(m)) && m@
        == "Could not find percentage"@))
    &&& (forall|v: int|
        spec_percent_b(l) == Option::Some(v) && v > 100 ==> (r matches Err(
            BatteryError::ParseError(m),
        ) && m@ == "Invalid percentage value"@))
    &&& (forall|v: int|
        spec_percent_b(l) == Option::Some(v) && 0 <= v <= 100 ==> (r matches Ok(info) && {
            &&& info.percentage == v
            &&& info.status == spec_status_b(l)
            &&& info.time_remaining == spec_time_remaining_b(l)
            &&& info.time_to_full == spec_time_to_full_b(l)
            &&& info.wf()
        }))
}

/// Position of the first digits-then-percent-sign group.
fn find_percent(low: &Vec<char>) -> (r: Option<usize>)
    ensures
        match r {
            Some(i) => {
                &&& percent_pos_from(low@, 0) == i
                &&& i < low@.len()
                &&& is_digit(low@[i as int])
            },
            None => percent_pos_from(low@, 0) == -1,
        },
{
    let n = low.len();
    let mut i: usize = 0;
    while i < n
        invariant
            0 <= i <= n,
            n == low@.len(),
            percent_pos_from(low@, 0) == percent_pos_from(low@, i as int),
        decreases n - i,
    {
        if is_digit_exec(low[i]) {
            let e = digit_run_end_exec(low, i);
            if e < n && low[e] == '%' {
                proof {
                    assert(percent_pos_from(low@, i as int) == i);
                }
                return Some(i);
            }
        }
        proof {
            assert(percent_pos_from(low@, i as int) == percent_pos_from(low@, i + 1));
        }
        i += 1;
    }
    proof {
        assert(percent_pos_from(low@, i as int) == -1);
    }
    None
}

/// Whether a clock group followed by `suffix` starts at `i`.
fn clock_check_at(low: &Vec<char>, i: usize, suffix: &str) -> (r: bool)
    requires
        i < low@.len(),
    ensures
        r == clock_match_at(low@, i as int, suffix@),
{
    let n = low.len();
    if !is_digit_exec(low[i]) {
        return false;
    }
    let a = digit_run_end_exec(low, i);
    if a >= n {
        return false;
    }
    if low[a] != ':' {
        return false;
    }
    let b = digit_run_end_exec(low, a + 1);
    if b == a + 1 {
        return false;
    }
    let m = suffix.unicode_len();
    if m > n - b {
        proof {
            assert(!match_at(low@, suffix@, b as int));
        }
        return false;
    }
    pat_match_at(low, suffix, b, m)
}

/// Position of the first clock group followed by `suffix`.
fn find_clock(low: &Vec<char>, suffix: &str) -> (r: Option<usize>)
    ensures
        match r {
            Some(i) => {
                &&& clock_pos_from(low@, 0, suffix@) == i
                &&& i < low@.len()
                &&& clock_match_at(low@, i as int, suffix@)
            },
            None => clock_pos_from(low@, 0, suffix@) == -1,
        },
{
    let n = low.len();
    let mut i: usize = 0;
    while i < n
        invariant
            0 <= i <= n,
            n == low@.len(),
            clock_pos_from(low@, 0, suffix@) == clock_pos_from(low@, i as int, suffix@),
        decreases n - i,
    {
        if clock_check_at(low, i, suffix) {
            proof {
                assert(clock_pos_from(low@, i as int, suffix@) == i);
            }
            return Some(i);
        }
        proof {
            assert(clock_pos_from(low@, i as int, suffix@) == clock_pos_from(
                low@,
                i + 1,
                suffix@,
            ));
        }
        i += 1;
    }
    proof {
        assert(clock_pos_from(low@, i as int, suffix@) == -1);
    }
    None
}

/// Seconds of the clock group at `i`, when the count fits in a `u64`.
fn clock_secs_exec(low: &Vec<char>, i: usize) -> (r: Option<u64>)
    requires
        i < low@.len(),
        is_digit(low@[i as int]),
        digit_run_end(low@, i as int) < low@.len(),
        low@[digit_run_end(low@, i as int)] == ':',
    ensures
        ({
            let v = clock_secs_at(low@, i as int);
            &&& v >= 0
            &&& if v <= u64::MAX {
                r == Some(v as u64)
            } else {
                r is None
            }
        }),
{
    let n = low.len();
    let a = digit_run_end_exec(low, i);
    proof {
        assert(a < n);
    }
    let b = digit_run_end_exec(low, a + 1);
    proof {
        lemma_digit_run_end(low@, i as int);
        lemma_digit_run_end(low@, a + 1);
        lemma_dec_value_nonneg(low@.subrange(i as int, a as int));
        lemma_dec_value_nonneg(low@.subrange(a + 1, b as int));
    }
    let ghost vh = dec_value(low@.subrange(i as int, a as int));
    let ghost vm = dec_value(low@.subrange(a + 1, b as int));
    let h = match digit_run_value_capped(low, i, a, u64::MAX) {
        Some(h) => h,
        None => {
            proof {
                assert(vh * 3600 >= vh);
                assert(vm * 60 >= 0);
            }
            return None;
        },
    };
    if h > u64::MAX / 3600 {
        proof {
            assert(vh * 3600 > u64::MAX);
            assert(vm * 60 >= 0);
        }
        return None;
    }
    let hs = h * 3600;
    let m = match digit_run_value_capped(low, a + 1, b, u64::MAX) {
        Some(m) => m,
        None => {
            proof {
                assert(vm * 60 >= vm);
                assert(vh * 3600 >= 0);
            }
            return None;
        },
    };
    if m > (u64::MAX - hs) / 60 {
        proof {
            assert(vm * 60 > u64::MAX - hs);
        }
        return None;
    }
    Some(hs + m * 60)
}

/// Parses the flat status line into a battery reading. All matching is
/// done on a lowercased copy of the text.
pub fn parse_pmset_output(output: &str) -> (r: Result<BatteryInfo, BatteryError>)
    ensures
        parses_status_line(output@, r),
{
    let low = lower_chars(output);
    let percentage: u8 = match find_percent(&low) {
        None => {
            return Err(BatteryError::ParseError("Could not find percentage".to_owned()));
        },
        Some(i) => {
            let e = digit_run_end_exec(&low, i);
            proof {
                lemma_digit_run_end(low@, i as int);
            }
            match digit_run_value_capped(&low, i, e, 100) {
                Some(v) => v as u8,
                None => {
                    return Err(BatteryError::ParseError("Invalid percentage value".to_owned()));
                },
            }
        },
    };
    let has_charging = contains_sub(&low, "charging");
    let has_discharging = contains_sub(&low, "discharging");
    let has_charged = contains_sub(&low, "charged");
    let has_ac = contains_sub(&low, "ac attached");
    let status = if has_charging && !has_discharging {
        ChargingStatus::Charging
    } else if has_discharging {
        ChargingStatus::Discharging
    } else if has_charged || has_ac {
        ChargingStatus::Charged
    } else {
        ChargingStatus::Unknown
    };
    let no_estimate = contains_sub(&low, "no estimate") || contains_sub(&low, "calculating");
    let time_remaining: Option<u64> = if status == ChargingStatus::Discharging && !no_estimate {
        match find_clock(&low, " remaining") {
            Some(i) => clock_secs_exec(&low, i),
            None => None,
        }
    } else {
        None
    };
    let time_to_full: Option<u64> = if status == ChargingStatus::Charging && !no_estimate {
        match find_clock(&low, " until charged") {
            Some(i) => clock_secs_exec(&low, i),
            None => None,
        }
    } else {
        None
    };
    Ok(BatteryInfo { percentage, status, time_remaining, time_to_full })
}

/// The two raw-text dialects the parser understands.
#[derive(Debug, Clone, Copy, PartialEq, Eq, Structural)]
pub enum Dialect {
    RegistryDump,
    StatusLine,
}

/// Parses raw command output according to the chosen dialect.
pub fn parse_battery_text(dialect: Dialect, output: &str) -> (r: Result<BatteryInfo, BatteryError>)
    ensures
        dialect == Dialect::RegistryDump ==> parses_registry_dump(output@, r),
        dialect == Dialect::StatusLine ==> parses_status_line(output@, r),
{
    match dialect {
        Dialect::RegistryDump => parse_ioreg_output(output),
        Dialect::StatusLine => parse_pmset_output(output),
    }
}

/// The classification rule: below half the threshold the level is critical,
/// below the threshold it is a warning, otherwise it is normal. The halving
/// truncates, so a threshold of 1 makes `Critical` unreachable.
pub open spec fn spec_classify(percentage: u8, threshold: u8) -> BatteryState {
    if percentage < threshold / 2 {
        BatteryState::Critical
    } else if percentage < threshold {
        BatteryState::Warning
    } else {
        BatteryState::Normal
    }
}

/// Rank of a state on the severity scale: `Critical` lowest, `Normal` highest.
pub open spec fn severity(s: BatteryState) -> int {
    match s {
        BatteryState::Critical => 0,
        BatteryState::Warning => 1,
        BatteryState::Normal => 2,
    }
}

/// Maps a percentage and a threshold to a severity state.
pub fn determine_battery_state(percentage: u8, threshold: u8) -> (r: BatteryState)
    ensures
        r == spec_classify(percentage, threshold),
{
    let critical_threshold = threshold / 2;
    if percentage < critical_threshold {
        BatteryState::Critical
    } else if percentage < threshold {
        BatteryState::Warning
    } else {
        BatteryState::Normal
    }
}

/// For a fixed threshold the classification never gets more severe as the
/// percentage rises: the state is monotone on the severity scale.
pub proof fn lemma_classify_monotonic(p1: u8, p2: u8, threshold: u8)
    requires
        p1 <= p2,
    ensures
        severity(spec_classify(p1, threshold)) <= severity(spec_classify(p2, threshold)),
{
}

} // verus!
