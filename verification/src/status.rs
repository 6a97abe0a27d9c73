//! The status report of the daemon.

use vstd::prelude::*;

use crate::human;
use crate::json;
use crate::session;
use crate::text;
use crate::value;
use crate::value::{Members, Tree, Value};

verus! {

/// How many of the collected roots the report lists.
pub const REAPED_SHOWN: usize = 64;

/// The integer under `key`, 0 where there is none.
pub open spec fn int_under(e: Seq<(Seq<char>, Tree)>, key: Seq<char>) -> i64 {
    match value::lookup(e, key) {
        Some(Tree::Int(i)) => i,
        _ => 0,
    }
}

/// The text under `key`, `default` where there is none.
pub open spec fn text_under(
    e: Seq<(Seq<char>, Tree)>,
    key: Seq<char>,
    default: Seq<char>,
) -> Seq<char> {
    match value::lookup(e, key) {
        Some(Tree::Text(s)) => s,
        _ => default,
    }
}

/// The elements of the array under `key`, none where there is no array.
pub open spec fn list_under(e: Seq<(Seq<char>, Tree)>, key: Seq<char>) -> Seq<Tree> {
    match value::lookup(e, key) {
        Some(Tree::Array(a)) => a,
        _ => seq![],
    }
}

/// The members of the object under `key`, none where there is no object.
pub open spec fn members_under(e: Seq<(Seq<char>, Tree)>, key: Seq<char>) -> Seq<
    (Seq<char>, Tree),
> {
    match value::lookup(e, key) {
        Some(Tree::Object(m)) => m,
        _ => seq![],
    }
}

/// `i` as an unsigned number: what is negative wraps around.
pub open spec fn unsigned(i: i64) -> u64 {
    if i < 0 {
        (i + 0x1_0000_0000_0000_0000) as u64
    } else {
        i as u64
    }
}

/// `i`, or 0 where `i` is negative.
pub open spec fn clamped(i: int) -> u64 {
    if i < 0 {
        0
    } else {
        i as u64
    }
}

/// Who is reporting.
pub open spec fn daemon_line(e: Seq<(Seq<char>, Tree)>) -> Seq<char> {
    "watchwoman "@ + text_under(e, "version"@, ""@) + "  (pid "@ + text::signed_text(
        int_under(e, "pid"@) as int,
    ) + ", up "@ + human::duration_text(unsigned(int_under(e, "uptime_seconds"@))) + ")\n"@
}

/// Where it listens.
pub open spec fn socket_line(e: Seq<(Seq<char>, Tree)>) -> Seq<char> {
    "socket:  "@ + text_under(e, "sockname"@, ""@) + "\n"@
}

/// What it uses.
pub open spec fn usage_line(e: Seq<(Seq<char>, Tree)>) -> Seq<char> {
    "memory:  "@ + human::bytes_text(unsigned(int_under(e, "rss_bytes"@))) + " rss   cpu: "@
        + human::duration_ms_text(unsigned(int_under(e, "user_cpu_ms"@))) + " user / "@
        + human::duration_ms_text(unsigned(int_under(e, "system_cpu_ms"@))) + " system\n"@
}

/// What the tracked files cost, where anything is tracked.
pub open spec fn tracked_line(e: Seq<(Seq<char>, Tree)>) -> Seq<char> {
    let memory = members_under(e, "memory"@);
    let tree_bytes = int_under(memory, "tree_bytes_est"@);
    let unaccounted = int_under(memory, "unaccounted_bytes"@);
    if tree_bytes > 0 || int_under(e, "total_tracked_files"@) > 0 {
        "         "@ + human::bytes_text(unsigned(tree_bytes)) + " tracked data (est) · "@
            + human::bytes_text(clamped(unaccounted as int))
            + " unaccounted (allocator / OS-held)\n"@
    } else {
        seq![]
    }
}

/// What is watched in all.
pub open spec fn totals_line(e: Seq<(Seq<char>, Tree)>) -> Seq<char> {
    let files = int_under(e, "total_tracked_files"@);
    let tombstones = int_under(e, "total_tombstones"@);
    "roots:   "@ + text::decimal_text(list_under(e, "roots"@).len()) + " watched · "@
        + human::count_text(unsigned(files)) + " files ("@ + human::count_text(
        clamped(files - tombstones),
    ) + " live, "@ + human::count_text(clamped(tombstones as int)) + " tombstones) · "@
        + text::signed_text(int_under(e, "total_subscriptions"@) as int) + " subs · "@
        + text::signed_text(int_under(e, "total_triggers"@) as int) + " triggers\n"@
}

/// Six cells of the table of roots, and its last column.
pub open spec fn table_line(
    root: Seq<char>,
    files: Seq<char>,
    ghosts: Seq<char>,
    memory: Seq<char>,
    subs: Seq<char>,
    triggers: Seq<char>,
    health: Seq<char>,
) -> Seq<char> {
    text::left_aligned(root, 54) + " "@ + text::right_aligned(files, 10) + " "@
        + text::right_aligned(ghosts, 8) + " "@ + text::right_aligned(memory, 8) + " "@
        + text::right_aligned(subs, 4) + " "@ + text::right_aligned(triggers, 4) + "  "@ + health
        + "\n"@
}

/// The line of a root.
pub open spec fn root_line(e: Seq<(Seq<char>, Tree)>) -> Seq<char> {
    table_line(
        human::tail_text(text_under(e, "path"@, "?"@), 54),
        human::count_text(unsigned(int_under(e, "num_files"@))),
        human::count_text(clamped(int_under(e, "tombstones"@) as int)),
        human::bytes_text(clamped(int_under(e, "tree_bytes_est"@) as int)),
        text::signed_text(int_under(e, "subscriptions"@) as int),
        text::signed_text(int_under(e, "triggers"@) as int),
        text_under(e, "health"@, "?"@),
    )
}

/// The lines of the first `n` roots. What is not an object has no line.
pub open spec fn root_lines(roots: Seq<Tree>, n: int) -> Seq<char>
    decreases n,
{
    if n <= 0 {
        seq![]
    } else {
        root_lines(roots, n - 1) + (match roots[n - 1] {
            Tree::Object(e) => root_line(e),
            _ => seq![],
        })
    }
}

/// The table of roots.
pub open spec fn roots_section(roots: Seq<Tree>) -> Seq<char> {
    if roots.len() == 0 {
        "(no roots watched)\n"@
    } else {
        table_line("ROOT"@, "FILES"@, "GHOSTS"@, "MEM~"@, "SUB"@, "TRG"@, "HEALTH"@)
            + root_lines(roots, roots.len() as int)
    }
}

/// The time from `at` to `now`, 0 where `at` is later.
pub open spec fn elapsed(now: u64, at: u64) -> u64 {
    if now >= at {
        (now - at) as u64
    } else {
        0
    }
}

/// The line of a root that was collected.
pub open spec fn reaped_line(e: Seq<(Seq<char>, Tree)>, now: u64) -> Seq<char> {
    "  ["@ + text_under(e, "reason"@, "?"@) + "] "@ + human::tail_text(
        text_under(e, "path"@, "?"@),
        70,
    ) + "  ("@ + human::duration_text(elapsed(now, unsigned(int_under(e, "at_unix"@))))
        + " ago)\n"@
}

/// The lines of the last `n` collected roots, the last one first. What is not an object has no
/// line.
pub open spec fn reaped_lines(reaped: Seq<Tree>, now: u64, n: int) -> Seq<char>
    decreases n,
{
    if n <= 0 {
        seq![]
    } else {
        reaped_lines(reaped, now, n - 1) + (match reaped[reaped.len() - n] {
            Tree::Object(e) => reaped_line(e, now),
            _ => seq![],
        })
    }
}

/// The collected roots: how many there are, and the newest `REAPED_SHOWN` of them.
pub open spec fn reaped_section(reaped: Seq<Tree>, now: u64) -> Seq<char> {
    if reaped.len() == 0 {
        seq![]
    } else {
        "\ngarbage-collected ("@ + text::decimal_text(reaped.len())
            + " recent, newest first):\n"@ + reaped_lines(
            reaped,
            now,
            if reaped.len() < REAPED_SHOWN {
                reaped.len() as int
            } else {
                REAPED_SHOWN as int
            },
        )
    }
}

/// The report on the status `e` at the time `now`.
pub open spec fn report(e: Seq<(Seq<char>, Tree)>, now: u64) -> Seq<char> {
    daemon_line(e) + socket_line(e) + usage_line(e) + tracked_line(e) + totals_line(e) + "\n"@
        + roots_section(list_under(e, "roots"@)) + reaped_section(list_under(e, "reaped"@), now)
}

/// The number of live files can be computed.
pub open spec fn countable(e: Seq<(Seq<char>, Tree)>) -> bool {
    i64::MIN <= int_under(e, "total_tracked_files"@) - int_under(e, "total_tombstones"@)
        <= i64::MAX
}

fn int_at(m: &Members, key: &str) -> (r: i64)
    ensures
        r == int_under(m@, key@),
{
    match m.get(key) {
        Some(v) => match v.as_i64() {
            Some(i) => i,
            None => 0,
        },
        None => 0,
    }
}

fn text_at<'a>(m: &'a Members, key: &str, default: &'a str) -> (r: &'a str)
    ensures
        r@ == text_under(m@, key@, default@),
{
    match m.get(key) {
        Some(v) => match v.as_str() {
            Some(s) => s,
            None => default,
        },
        None => default,
    }
}

fn list_at<'a>(m: &'a Members, key: &str, none: &'a Vec<Value>) -> (r: &'a Vec<Value>)
    requires
        none@.len() == 0,
    ensures
        value::trees_of(r@) == list_under(m@, key@),
{
    assert(value::trees_of(none@) =~= seq![]);
    match m.get(key) {
        Some(v) => match v.as_array() {
            Some(a) => a,
            None => none,
        },
        None => none,
    }
}

fn members_at<'a>(m: &'a Members, key: &str, none: &'a Members) -> (r: &'a Members)
    requires
        none@.len() == 0,
    ensures
        r@ == members_under(m@, key@),
{
    assert(none@ =~= seq![]);
    match m.get(key) {
        Some(v) => match v.as_object() {
            Some(o) => o,
            None => none,
        },
        None => none,
    }
}

fn to_unsigned(i: i64) -> (r: u64)
    ensures
        r == unsigned(i),
{
    if i < 0 {
        (i as i128 + 0x1_0000_0000_0000_0000i128) as u64
    } else {
        i as u64
    }
}

fn clamp(i: i64) -> (r: u64)
    ensures
        r == clamped(i as int),
{
    if i < 0 {
        0
    } else {
        i as u64
    }
}

fn write_daemon_line(m: &Members) -> (r: String)
    ensures
        r@ == daemon_line(m@),
{
    let mut r = "watchwoman ".to_owned();
    r.append(text_at(m, "version", ""));
    r.append("  (pid ");
    r.append(text::signed(int_at(m, "pid")).as_str());
    r.append(", up ");
    r.append(human::format_duration(to_unsigned(int_at(m, "uptime_seconds"))).as_str());
    r.append(")\n");
    r
}

fn write_socket_line(m: &Members) -> (r: String)
    ensures
        r@ == socket_line(m@),
{
    let mut r = "socket:  ".to_owned();
    r.append(text_at(m, "sockname", ""));
    r.append("\n");
    r
}

fn write_usage_line(m: &Members) -> (r: String)
    ensures
        r@ == usage_line(m@),
{
    let mut r = "memory:  ".to_owned();
    r.append(human::format_bytes(to_unsigned(int_at(m, "rss_bytes"))).as_str());
    r.append(" rss   cpu: ");
    r.append(human::format_duration_ms(to_unsigned(int_at(m, "user_cpu_ms"))).as_str());
    r.append(" user / ");
    r.append(human::format_duration_ms(to_unsigned(int_at(m, "system_cpu_ms"))).as_str());
    r.append(" system\n");
    r
}

fn write_tracked_line(m: &Members) -> (r: String)
    ensures
        r@ == tracked_line(m@),
{
    let none = Members::new();
    let memory = members_at(m, "memory", &none);
    let tree_bytes: i64 = int_at(memory, "tree_bytes_est");
    let unaccounted: i64 = int_at(memory, "unaccounted_bytes");
    if tree_bytes > 0 || int_at(m, "total_tracked_files") > 0 {
        let mut r = "         ".to_owned();
        r.append(human::format_bytes(to_unsigned(tree_bytes)).as_str());
        r.append(" tracked data (est) · ");
        r.append(human::format_bytes(clamp(unaccounted)).as_str());
        r.append(" unaccounted (allocator / OS-held)\n");
        r
    } else {
        String::new()
    }
}

fn write_totals_line(m: &Members, roots: usize) -> (r: String)
    requires
        countable(m@),
        roots == list_under(m@, "roots"@).len(),
    ensures
        r@ == totals_line(m@),
{
    let files: i64 = int_at(m, "total_tracked_files");
    let tombstones: i64 = int_at(m, "total_tombstones");
    let mut r = "roots:   ".to_owned();
    r.append(text::decimal(roots as u64).as_str());
    r.append(" watched · ");
    r.append(human::format_count(to_unsigned(files)).as_str());
    r.append(" files (");
    r.append(human::format_count(clamp(files - tombstones)).as_str());
    r.append(" live, ");
    r.append(human::format_count(clamp(tombstones)).as_str());
    r.append(" tombstones) · ");
    r.append(text::signed(int_at(m, "total_subscriptions")).as_str());
    r.append(" subs · ");
    r.append(text::signed(int_at(m, "total_triggers")).as_str());
    r.append(" triggers\n");
    r
}

fn write_table_line(
    root: &str,
    files: &str,
    ghosts: &str,
    memory: &str,
    subs: &str,
    triggers: &str,
    health: &str,
) -> (r: String)
    ensures
        r@ == table_line(root@, files@, ghosts@, memory@, subs@, triggers@, health@),
{
    let mut r = text::align_left(root, 54);
    r.append(" ");
    r.append(text::align_right(files, 10).as_str());
    r.append(" ");
    r.append(text::align_right(ghosts, 8).as_str());
    r.append(" ");
    r.append(text::align_right(memory, 8).as_str());
    r.append(" ");
    r.append(text::align_right(subs, 4).as_str());
    r.append(" ");
    r.append(text::align_right(triggers, 4).as_str());
    r.append("  ");
    r.append(health);
    r.append("\n");
    r
}

fn write_root_line(m: &Members) -> (r: String)
    ensures
        r@ == root_line(m@),
{
    write_table_line(
        human::truncate_left(text_at(m, "path", "?"), 54).as_str(),
        human::format_count(to_unsigned(int_at(m, "num_files"))).as_str(),
        human::format_count(clamp(int_at(m, "tombstones"))).as_str(),
        human::format_bytes(clamp(int_at(m, "tree_bytes_est"))).as_str(),
        text::signed(int_at(m, "subscriptions")).as_str(),
        text::signed(int_at(m, "triggers")).as_str(),
        text_at(m, "health", "?"),
    )
}

fn write_roots_section(roots: &Vec<Value>) -> (r: String)
    ensures
        r@ == roots_section(value::trees_of(roots@)),
{
    if roots.len() == 0 {
        return "(no roots watched)\n".to_owned();
    }
    let mut lines = String::new();
    let mut i: usize = 0;
    while i < roots.len()
        invariant
            i <= roots@.len(),
            lines@ == root_lines(value::trees_of(roots@), i as int),
        decreases roots@.len() - i,
    {
        assert(value::trees_of(roots@)[i as int] == roots@[i as int]@);
        match roots[i].as_object() {
            Some(m) => lines.append(write_root_line(m).as_str()),
            None => {
                assert(lines@ + Seq::<char>::empty() =~= lines@);
            },
        }
        i = i + 1;
    }
    let mut r = write_table_line("ROOT", "FILES", "GHOSTS", "MEM~", "SUB", "TRG", "HEALTH");
    r.append(lines.as_str());
    r
}

fn write_reaped_line(m: &Members, now: u64) -> (r: String)
    ensures
        r@ == reaped_line(m@, now),
{
    let at: u64 = to_unsigned(int_at(m, "at_unix"));
    let ago: u64 = if now >= at {
        now - at
    } else {
        0
    };
    let mut r = "  [".to_owned();
    r.append(text_at(m, "reason", "?"));
    r.append("] ");
    r.append(human::truncate_left(text_at(m, "path", "?"), 70).as_str());
    r.append("  (");
    r.append(human::format_duration(ago).as_str());
    r.append(" ago)\n");
    r
}

fn write_reaped_section(reaped: &Vec<Value>, now: u64) -> (r: String)
    ensures
        r@ == reaped_section(value::trees_of(reaped@), now),
{
    let len: usize = reaped.len();
    if len == 0 {
        return String::new();
    }
    let shown: usize = if len < REAPED_SHOWN {
        len
    } else {
        REAPED_SHOWN
    };
    let mut lines = String::new();
    let mut i: usize = 0;
    while i < shown
        invariant
            len == reaped@.len(),
            i <= shown <= len,
            lines@ == reaped_lines(value::trees_of(reaped@), now, i as int),
        decreases shown - i,
    {
        let k: usize = len - 1 - i;
        assert(value::trees_of(reaped@)[k as int] == reaped@[k as int]@);
        match reaped[k].as_object() {
            Some(m) => lines.append(write_reaped_line(m, now).as_str()),
            None => {
                assert(lines@ + Seq::<char>::empty() =~= lines@);
            },
        }
        i = i + 1;
    }
    let mut r = "\ngarbage-collected (".to_owned();
    r.append(text::decimal(len as u64).as_str());
    r.append(" recent, newest first):\n");
    r.append(lines.as_str());
    r
}

/// Writes the report on a status at the time `now`, in seconds since the epoch.
pub fn status_report(m: &Members, now: u64) -> (r: String)
    requires
        countable(m@),
    ensures
        r@ == report(m@, now),
{
    let none: Vec<Value> = Vec::new();
    let roots = list_at(m, "roots", &none);
    let reaped = list_at(m, "reaped", &none);
    let mut r = write_daemon_line(m);
    r.append(write_socket_line(m).as_str());
    r.append(write_usage_line(m).as_str());
    r.append(write_tracked_line(m).as_str());
    r.append(write_totals_line(m, roots.len()).as_str());
    r.append("\n");
    r.append(write_roots_section(roots).as_str());
    r.append(write_reaped_section(reaped, now).as_str());
    r
}

/// The response is shown as a report: JSON was not asked for, and it is an object that tells of
/// no error.
pub open spec fn is_reported(t: Tree, want_json: bool) -> bool {
    !want_json && t is Object && !session::tells_of_error(t)
}

/// What is printed for the response `t` to a status request.
pub open spec fn status_output(t: Tree, want_json: bool, no_pretty: bool, now: u64) -> Seq<char> {
    if is_reported(t, want_json) {
        report(t->Object_0, now)
    } else {
        json::printed(t, no_pretty)
    }
}

/// Tells whether the report on a response can be written.
pub fn can_report(response: &Value, want_json: bool) -> (r: bool)
    ensures
        r == (is_reported(response@, want_json) ==> countable(response@->Object_0)),
{
    match response.as_object() {
        None => true,
        Some(m) => {
            let d: i128 = int_at(m, "total_tracked_files") as i128 - int_at(
                m,
                "total_tombstones",
            ) as i128;
            want_json || session::has_error(response) || (i64::MIN as i128 <= d && d
                <= i64::MAX as i128)
        },
    }
}

/// Writes what is printed for the response to a status request: a report, or JSON, on one line
/// where `no_pretty` asks for that.
pub fn status_text(response: &Value, want_json: bool, no_pretty: bool, now: u64) -> (r: String)
    requires
        is_reported(response@, want_json) ==> countable(response@->Object_0),
    ensures
        r@ == status_output(response@, want_json, no_pretty, now),
        no_pretty && !is_reported(response@, want_json) ==> text::is_line(r@),
{
    if want_json || session::has_error(response) {
        return json::response_text(response, no_pretty);
    }
    match response.as_object() {
        Some(m) => status_report(m, now),
        None => json::response_text(response, no_pretty),
    }
}

/// A member is read as it is where it is of the kind that is asked for. Where it is of another
/// kind, it counts as missing: an integer as 0, a text as the default, a list or an object as
/// empty.
pub proof fn members_of_another_kind_count_as_missing(
    e: Seq<(Seq<char>, Tree)>,
    key: Seq<char>,
    default: Seq<char>,
)
    ensures
        match value::lookup(e, key) {
            Some(Tree::Int(i)) => int_under(e, key) == i,
            _ => int_under(e, key) == 0,
        },
        match value::lookup(e, key) {
            Some(Tree::Text(t)) => text_under(e, key, default) == t,
            _ => text_under(e, key, default) == default,
        },
        match value::lookup(e, key) {
            Some(Tree::Array(a)) => list_under(e, key) == a,
            _ => list_under(e, key).len() == 0,
        },
        match value::lookup(e, key) {
            Some(Tree::Object(m)) => members_under(e, key) == m,
            _ => members_under(e, key).len() == 0,
        },
{
}

/// What was stored last is what is read, and a member is not touched by what is stored under
/// another key.
pub proof fn stored_member_is_read(
    e: Seq<(Seq<char>, Tree)>,
    key: Seq<char>,
    i: i64,
    t: Seq<char>,
    other: Seq<char>,
    default: Seq<char>,
)
    requires
        value::keys_distinct(e),
    ensures
        int_under(value::stored(e, key, Tree::Int(i)), key) == i,
        text_under(value::stored(e, key, Tree::Text(t)), key, default) == t,
        other != key ==> int_under(value::stored(e, key, Tree::Int(i)), other) == int_under(
            e,
            other,
        ),
        other != key ==> text_under(value::stored(e, key, Tree::Text(t)), other, default)
            == text_under(e, other, default),
{
    value::stored_then_found(e, key, Tree::Int(i), other);
    value::stored_then_found(e, key, Tree::Text(t), other);
}

/// A number that is not negative is shown as it is. A negative one shows as the number from which
/// it differs by 2^64 where it wraps around, and as 0 where it is clamped.
pub proof fn negative_numbers_wrap_or_vanish(i: i64, d: int)
    requires
        d <= u64::MAX,
    ensures
        i >= 0 ==> unsigned(i) == i,
        i < 0 ==> unsigned(i) == i + 0x1_0000_0000_0000_0000,
        d >= 0 ==> clamped(d) == d,
        d < 0 ==> clamped(d) == 0,
{
}

/// The time that has passed since then, added to then, is now; from the future on, none has.
pub proof fn passed_time_leads_to_now(now: u64, at: u64)
    ensures
        now >= at ==> elapsed(now, at) + at == now,
        now <= at ==> elapsed(now, at) == 0,
{
}

/// The first line shows the version, the process and how long it has been up, whatever they are.
pub proof fn first_line_shows_the_daemon(
    e: Seq<(Seq<char>, Tree)>,
    version: Seq<char>,
    pid: i64,
    uptime: i64,
)
    requires
        value::lookup(e, "version"@) == Some(Tree::Text(version)),
        value::lookup(e, "pid"@) == Some(Tree::Int(pid)),
        value::lookup(e, "uptime_seconds"@) == Some(Tree::Int(uptime)),
    ensures
        daemon_line(e) == "watchwoman "@ + version + "  (pid "@ + text::signed_text(pid as int)
            + ", up "@ + human::duration_text(unsigned(uptime)) + ")\n"@,
{
}

/// The second line shows the socket, whatever its path.
pub proof fn second_line_shows_the_socket(e: Seq<(Seq<char>, Tree)>, socket: Seq<char>)
    requires
        value::lookup(e, "sockname"@) == Some(Tree::Text(socket)),
    ensures
        socket_line(e) == "socket:  "@ + socket + "\n"@,
{
}

/// The third line shows the memory, then the time spent for the user, then for the system.
pub proof fn third_line_shows_memory_and_time(
    e: Seq<(Seq<char>, Tree)>,
    rss: i64,
    user: i64,
    system: i64,
)
    requires
        value::lookup(e, "rss_bytes"@) == Some(Tree::Int(rss)),
        value::lookup(e, "user_cpu_ms"@) == Some(Tree::Int(user)),
        value::lookup(e, "system_cpu_ms"@) == Some(Tree::Int(system)),
    ensures
        usage_line(e) == "memory:  "@ + human::bytes_text(unsigned(rss)) + " rss   cpu: "@
            + human::duration_ms_text(unsigned(user)) + " user / "@ + human::duration_ms_text(
            unsigned(system),
        ) + " system\n"@,
{
}

/// What the tracked files cost is shown exactly when it is estimated at something or when there
/// are tracked files; what cannot be accounted for is shown as 0 where it is negative.
pub proof fn cost_is_shown_where_files_are_tracked(
    e: Seq<(Seq<char>, Tree)>,
    memory: Seq<(Seq<char>, Tree)>,
    files: i64,
    tree: i64,
    unaccounted: i64,
)
    requires
        value::lookup(e, "memory"@) == Some(Tree::Object(memory)),
        value::lookup(e, "total_tracked_files"@) == Some(Tree::Int(files)),
        value::lookup(memory, "tree_bytes_est"@) == Some(Tree::Int(tree)),
        value::lookup(memory, "unaccounted_bytes"@) == Some(Tree::Int(unaccounted)),
    ensures
        tree <= 0 && files <= 0 ==> tracked_line(e).len() == 0,
        tree > 0 || files > 0 ==> tracked_line(e) == "         "@ + human::bytes_text(
            unsigned(tree),
        ) + " tracked data (est) · "@ + human::bytes_text(
            if unaccounted < 0 {
                0
            } else {
                unaccounted as u64
            },
        ) + " unaccounted (allocator / OS-held)\n"@,
{
}

/// The totals show how many roots there are, the files, how many of them are live, the others,
/// and then subscriptions and triggers. Live files and tombstones make up the files, and neither
/// number falls below 0.
pub proof fn totals_add_up(
    e: Seq<(Seq<char>, Tree)>,
    roots: Seq<Tree>,
    files: i64,
    tombstones: i64,
    subs: i64,
    triggers: i64,
    live: u64,
)
    requires
        value::lookup(e, "roots"@) == Some(Tree::Array(roots)),
        countable(e),
        live == if files > tombstones {
            files - tombstones
        } else {
            0
        },
        value::lookup(e, "total_tracked_files"@) == Some(Tree::Int(files)),
        value::lookup(e, "total_tombstones"@) == Some(Tree::Int(tombstones)),
        value::lookup(e, "total_subscriptions"@) == Some(Tree::Int(subs)),
        value::lookup(e, "total_triggers"@) == Some(Tree::Int(triggers)),
    ensures
        totals_line(e) == "roots:   "@ + text::decimal_text(roots.len()) + " watched · "@
            + human::count_text(unsigned(files)) + " files ("@ + human::count_text(live)
            + " live, "@ + human::count_text(
            if tombstones < 0 {
                0
            } else {
                tombstones as u64
            },
        ) + " tombstones) · "@ + text::signed_text(subs as int) + " subs · "@ + text::signed_text(triggers as int)
            + " triggers\n"@,
{
}

/// A report can be written whenever no count is negative, and otherwise exactly where the
/// tombstones and some integer of the protocol make up the files.
pub proof fn sensible_counts_are_countable(e: Seq<(Seq<char>, Tree)>, live: i64)
    ensures
        int_under(e, "total_tracked_files"@) >= 0 && int_under(e, "total_tombstones"@) >= 0
            ==> countable(e),
        int_under(e, "total_tracked_files"@) == live + int_under(e, "total_tombstones"@)
            ==> countable(e),
        countable(e) ==> ({
            let d = (int_under(e, "total_tracked_files"@) - int_under(
                e,
                "total_tombstones"@,
            )) as i64;
            d + int_under(e, "total_tombstones"@) == int_under(e, "total_tracked_files"@)
        }),
{
}

/// The line of a root shows its path, its files, its tombstones, its memory, its subscriptions
/// and its triggers, each in its own column, and ends with two blanks and its health.
pub proof fn root_line_shows_each_member(
    e: Seq<(Seq<char>, Tree)>,
    path: Seq<char>,
    files: i64,
    ghosts: i64,
    memory: i64,
    subs: i64,
    triggers: i64,
    health: Seq<char>,
)
    requires
        value::lookup(e, "path"@) == Some(Tree::Text(path)),
        value::lookup(e, "num_files"@) == Some(Tree::Int(files)),
        value::lookup(e, "tombstones"@) == Some(Tree::Int(ghosts)),
        value::lookup(e, "tree_bytes_est"@) == Some(Tree::Int(memory)),
        value::lookup(e, "subscriptions"@) == Some(Tree::Int(subs)),
        value::lookup(e, "triggers"@) == Some(Tree::Int(triggers)),
        value::lookup(e, "health"@) == Some(Tree::Text(health)),
    ensures
        root_line(e) == text::left_aligned(human::tail_text(path, 54), 54) + " "@
            + text::right_aligned(human::count_text(unsigned(files)), 10) + " "@
            + text::right_aligned(human::count_text(clamped(ghosts as int)), 8) + " "@
            + text::right_aligned(human::bytes_text(clamped(memory as int)), 8) + " "@
            + text::right_aligned(text::signed_text(subs as int), 4) + " "@ + text::right_aligned(
            text::signed_text(triggers as int),
            4,
        ) + "  "@ + health + "\n"@,
{
}

/// The line of a root ends with two blanks, its health and a line feed, whatever the health is;
/// a root that does not say how it is ends with a question mark there. What stands before does
/// not depend on the health.
pub proof fn root_line_ends_with_its_health(e: Seq<(Seq<char>, Tree)>, f: Seq<(Seq<char>, Tree)>)
    ensures
        ({
            let h = match value::lookup(e, "health"@) {
                Some(Tree::Text(t)) => t,
                _ => "?"@,
            };
            let tail = "  "@ + h + "\n"@;
            &&& root_line(e).len() >= tail.len()
            &&& root_line(e).skip(root_line(e).len() - tail.len()) == tail
        }),
        (forall|key: Seq<char>|
            key != "health"@ ==> #[trigger] value::lookup(e, key) == value::lookup(f, key)) ==> {
            &&& text_under(e, "health"@, "?"@) == text_under(f, "health"@, "?"@) <==> root_line(e)
                == root_line(f)
        },
{
    let h = text_under(e, "health"@, "?"@);
    let g = text_under(f, "health"@, "?"@);
    let tail = "  "@ + h + "\n"@;
    let head = head_of_root_line(e);
    assert(root_line(e) =~= head + tail);
    assert(root_line(e).skip(root_line(e).len() - tail.len()) =~= tail);
    if forall|key: Seq<char>|
        key != "health"@ ==> #[trigger] value::lookup(e, key) == value::lookup(f, key) {
        keys_of_a_root_differ();
        assert(head_of_root_line(f) == head) by {
            assert(value::lookup(e, "path"@) == value::lookup(f, "path"@));
            assert(value::lookup(e, "num_files"@) == value::lookup(f, "num_files"@));
            assert(value::lookup(e, "tombstones"@) == value::lookup(f, "tombstones"@));
            assert(value::lookup(e, "tree_bytes_est"@) == value::lookup(f, "tree_bytes_est"@));
            assert(value::lookup(e, "subscriptions"@) == value::lookup(f, "subscriptions"@));
            assert(value::lookup(e, "triggers"@) == value::lookup(f, "triggers"@));
        }
        let other = "  "@ + g + "\n"@;
        assert(root_line(f) =~= head + other);
        if root_line(e) == root_line(f) {
            assert(tail =~= root_line(e).skip(head.len() as int));
            assert(other =~= root_line(f).skip(head.len() as int));
            let n = "  "@.len() as int;
            assert(h =~= tail.subrange(n, tail.len() - "\n"@.len()));
            assert(g =~= other.subrange(n, other.len() - "\n"@.len()));
        }
    }
}

/// The line of a root up to its health.
spec fn head_of_root_line(e: Seq<(Seq<char>, Tree)>) -> Seq<char> {
    root_line(e).take(
        root_line(e).len() - ("  "@ + text_under(e, "health"@, "?"@) + "\n"@).len(),
    )
}

proof fn keys_of_a_root_differ()
    ensures
        "path"@ != "health"@,
        "num_files"@ != "health"@,
        "tombstones"@ != "health"@,
        "tree_bytes_est"@ != "health"@,
        "subscriptions"@ != "health"@,
        "triggers"@ != "health"@,
{
    reveal_strlit("path");
    reveal_strlit("num_files");
    reveal_strlit("tombstones");
    reveal_strlit("tree_bytes_est");
    reveal_strlit("subscriptions");
    reveal_strlit("triggers");
    reveal_strlit("health");
    assert("health"@.len() == 6);
    assert("path"@.len() == 4);
    assert("num_files"@.len() == 9);
    assert("tombstones"@.len() == 10);
    assert("tree_bytes_est"@.len() == 14);
    assert("subscriptions"@.len() == 13);
    assert("triggers"@.len() == 8);
}

/// A root that lacks a member is shown as one that has the default under it: a question mark for
/// the path and the health, and 0 for every number.
pub proof fn missing_members_of_a_root_show_as_defaults(
    e: Seq<(Seq<char>, Tree)>,
    f: Seq<(Seq<char>, Tree)>,
)
    requires
        same_text(e, f, "path"@, "?"@),
        same_text(e, f, "health"@, "?"@),
        same_int(e, f, "num_files"@),
        same_int(e, f, "tombstones"@),
        same_int(e, f, "tree_bytes_est"@),
        same_int(e, f, "subscriptions"@),
        same_int(e, f, "triggers"@),
    ensures
        root_line(e) == root_line(f),
{
}

/// Both have the same text under `key`, where to have none is to have `default`.
pub open spec fn same_text(
    e: Seq<(Seq<char>, Tree)>,
    f: Seq<(Seq<char>, Tree)>,
    key: Seq<char>,
    default: Seq<char>,
) -> bool {
    let (a, b) = (value::lookup(e, key), value::lookup(f, key));
    ||| a == b
    ||| (a matches Some(Tree::Text(t)) ==> t == default) && (b matches Some(Tree::Text(t)) ==> t
        == default)
}

/// Both have the same number under `key`, where to have none is to have 0.
pub open spec fn same_int(
    e: Seq<(Seq<char>, Tree)>,
    f: Seq<(Seq<char>, Tree)>,
    key: Seq<char>,
) -> bool {
    let (a, b) = (value::lookup(e, key), value::lookup(f, key));
    ||| a == b
    ||| (a matches Some(Tree::Int(i)) ==> i == 0) && (b matches Some(Tree::Int(i)) ==> i == 0)
}

/// Both have the same list under `key`, where to have none is to have an empty one.
pub open spec fn same_list(
    e: Seq<(Seq<char>, Tree)>,
    f: Seq<(Seq<char>, Tree)>,
    key: Seq<char>,
) -> bool {
    let (a, b) = (value::lookup(e, key), value::lookup(f, key));
    ||| a == b
    ||| (a matches Some(Tree::Array(l)) ==> l.len() == 0) && (b matches Some(Tree::Array(l))
        ==> l.len() == 0)
}

/// The table of roots has one line for each root that is an object, with no line for anything
/// else, below a heading; without roots, one sentence says so.
pub proof fn each_root_has_its_line(e: Seq<(Seq<char>, Tree)>, t: Tree, roots: Seq<Tree>)
    ensures
        root_lines(seq![Tree::Object(e)], 1) == root_line(e),
        !(t is Object) ==> root_lines(seq![t], 1) == Seq::<char>::empty(),
        root_lines(roots, 0) == Seq::<char>::empty(),
        roots.len() == 0 ==> roots_section(roots) == "(no roots watched)\n"@,
        roots.len() > 0 ==> roots_section(roots) == text::left_aligned("ROOT"@, 54) + " "@
            + text::right_aligned("FILES"@, 10) + " "@ + text::right_aligned("GHOSTS"@, 8) + " "@
            + text::right_aligned("MEM~"@, 8) + " "@ + text::right_aligned("SUB"@, 4) + " "@
            + text::right_aligned("TRG"@, 4) + "  "@ + "HEALTH"@ + "\n"@ + root_lines(
            roots,
            roots.len() as int,
        ),
{
    reveal_with_fuel(root_lines, 2);
    assert(Seq::<char>::empty() + root_line(e) =~= root_line(e));
    assert(root_lines(seq![Tree::Object(e)], 1) =~= root_line(e));
    assert(Seq::<char>::empty() + Seq::<char>::empty() =~= Seq::<char>::empty());
}

/// The line of a collected root shows why it was collected, its path and how long ago that was.
pub proof fn reaped_line_shows_each_member(
    e: Seq<(Seq<char>, Tree)>,
    reason: Seq<char>,
    path: Seq<char>,
    ago: u64,
    at: i64,
)
    requires
        value::lookup(e, "reason"@) == Some(Tree::Text(reason)),
        value::lookup(e, "path"@) == Some(Tree::Text(path)),
        value::lookup(e, "at_unix"@) == Some(Tree::Int(at)),
        unsigned(at) + ago <= u64::MAX,
    ensures
        reaped_line(e, (unsigned(at) + ago) as u64) == "  ["@ + reason + "] "@ + human::tail_text(path, 70)
            + "  ("@ + human::duration_text(ago) + " ago)\n"@,
{
}

/// A collected root of the future was collected just now; one that lacks a member is shown as one
/// that has the default under it.
pub proof fn missing_members_of_a_reaped_root_show_as_defaults(
    e: Seq<(Seq<char>, Tree)>,
    f: Seq<(Seq<char>, Tree)>,
    now: u64,
)
    requires
        same_text(e, f, "path"@, "?"@),
        same_text(e, f, "reason"@, "?"@),
        same_int(e, f, "at_unix"@),
    ensures
        reaped_line(e, now) == reaped_line(f, now),
        unsigned(int_under(e, "at_unix"@)) >= now ==> reaped_line(e, now) == reaped_line(e, 0),
{
}

/// What is not an object has no line among the collected roots and does not change the others.
pub proof fn only_objects_are_listed(reaped: Seq<Tree>, t: Tree, now: u64, n: int)
    requires
        0 <= n <= reaped.len(),
        !(t is Object),
    ensures
        reaped_lines(reaped.push(t), now, n + 1) == reaped_lines(reaped, now, n),
        reaped_lines(reaped, now, 0) == Seq::<char>::empty(),
    decreases n,
{
    let longer = reaped.push(t);
    if n == 0 {
        reveal_with_fuel(reaped_lines, 2);
        assert(longer[longer.len() - 1] == t);
        assert(reaped_lines(longer, now, 0) =~= seq![]);
        assert(Seq::<char>::empty() + Seq::<char>::empty() =~= Seq::<char>::empty());
    } else {
        only_objects_are_listed(reaped, t, now, n - 1);
        assert(longer[longer.len() - (n + 1)] == reaped[reaped.len() - n]);
    }
}

/// All collected roots are counted. They are all listed where there are at most 64 of them, and
/// otherwise the last 64: those before them do not show. Without any, nothing is said.
pub proof fn last_reaped_roots_are_listed(older: Seq<Tree>, reaped: Seq<Tree>, now: u64)
    requires
        0 < reaped.len() <= 64,
        older.len() == 0 || reaped.len() == 64,
    ensures
        reaped_section(older + reaped, now) == "\ngarbage-collected ("@ + text::decimal_text(
            older.len() + reaped.len(),
        ) + " recent, newest first):\n"@ + reaped_lines(reaped, now, reaped.len() as int),
        reaped_section(seq![], now) == Seq::<char>::empty(),
{
    reaped_lines_of_suffix(older, reaped, now, reaped.len() as int);
}

proof fn reaped_lines_of_suffix(older: Seq<Tree>, reaped: Seq<Tree>, now: u64, n: int)
    requires
        0 <= n <= reaped.len(),
    ensures
        reaped_lines(older + reaped, now, n) == reaped_lines(reaped, now, n),
    decreases n,
{
    if n > 0 {
        reaped_lines_of_suffix(older, reaped, now, n - 1);
        let all = older + reaped;
        assert(all[all.len() - n] == reaped[reaped.len() - n]);
    }
}

/// The report is made of its lines, a blank line, the table of roots and the collected roots, in
/// this order, with nothing between them. Without collected roots the time does not show.
pub proof fn report_is_made_of_its_parts(e: Seq<(Seq<char>, Tree)>, now: u64, later: u64)
    ensures
        ({
            let lines = daemon_line(e) + socket_line(e) + usage_line(e) + tracked_line(e)
                + totals_line(e);
            let rest = report(e, now).skip(lines.len() as int);
            &&& lines.is_prefix_of(report(e, now))
            &&& rest == seq!['\n'] + roots_section(list_under(e, "roots"@)) + reaped_section(
                list_under(e, "reaped"@),
                now,
            )
        }),
        list_under(e, "reaped"@).len() == 0 ==> report(e, now) == report(e, later),
{
    reveal_strlit("\n");
    assert("\n"@ =~= seq!['\n']);
    let lines = daemon_line(e) + socket_line(e) + usage_line(e) + tracked_line(e) + totals_line(e);
    let rest = seq!['\n'] + roots_section(list_under(e, "roots"@)) + reaped_section(
        list_under(e, "reaped"@),
        now,
    );
    assert(report(e, now) =~= lines + rest);
    assert(report(e, now).take(lines.len() as int) =~= lines);
    assert(report(e, now).skip(lines.len() as int) =~= rest);
}

/// Only what the report speaks of shows in it: two statuses that agree there have the same
/// report, whatever else they hold. A number that is missing counts as 0, a text as empty.
pub proof fn only_known_members_show(
    e: Seq<(Seq<char>, Tree)>,
    f: Seq<(Seq<char>, Tree)>,
    now: u64,
)
    requires
        same_text(e, f, "version"@, ""@),
        same_text(e, f, "sockname"@, ""@),
        same_int(e, f, "pid"@),
        same_int(e, f, "uptime_seconds"@),
        same_int(e, f, "rss_bytes"@),
        same_int(e, f, "user_cpu_ms"@),
        same_int(e, f, "system_cpu_ms"@),
        same_int(e, f, "total_tracked_files"@),
        same_int(e, f, "total_tombstones"@),
        same_int(e, f, "total_subscriptions"@),
        same_int(e, f, "total_triggers"@),
        same_list(e, f, "roots"@),
        same_list(e, f, "reaped"@),
        same_int(members_under(e, "memory"@), members_under(f, "memory"@), "tree_bytes_est"@),
        same_int(members_under(e, "memory"@), members_under(f, "memory"@), "unaccounted_bytes"@),
    ensures
        report(e, now) == report(f, now),
        countable(e) == countable(f),
{
    assert(list_under(e, "roots"@) =~= list_under(f, "roots"@));
    assert(list_under(e, "reaped"@) =~= list_under(f, "reaped"@));
}

/// A status is reported exactly when JSON was not asked for and the response is an object in
/// which a lookup of `error` finds nothing. The report does not depend on how JSON is written.
/// Anything else is printed as JSON, the same at every time.
pub proof fn status_is_reported_or_printed(
    t: Tree,
    want_json: bool,
    no_pretty: bool,
    now: u64,
    later: u64,
)
    ensures
        is_reported(t, want_json) <==> !want_json && t is Object && value::lookup(
            t->Object_0,
            "error"@,
        ) is None,
        !want_json && t is Object && value::lookup(t->Object_0, "error"@) is None ==> {
            &&& status_output(t, want_json, no_pretty, now) == report(t->Object_0, now)
            &&& status_output(t, want_json, no_pretty, now) == status_output(
                t,
                want_json,
                !no_pretty,
                now,
            )
        },
        want_json || !(t is Object) || value::lookup(t->Object_0, "error"@) is Some ==> {
            &&& status_output(t, want_json, no_pretty, now) == json::printed(t, no_pretty)
            &&& status_output(t, want_json, no_pretty, now) == status_output(
                t,
                want_json,
                no_pretty,
                later,
            )
        },
{
}

/// The columns of the table of roots line up: whatever the path of a root, its cell is as wide
/// as the one of the heading.
pub proof fn root_cells_line_up(e: Seq<(Seq<char>, Tree)>)
    ensures
        text::left_aligned(human::tail_text(text_under(e, "path"@, "?"@), 54), 54).len() == 54,
        text::left_aligned("ROOT"@, 54).len() == 54,
{
    human::shortened_text_fits(text_under(e, "path"@, "?"@), 54);
    reveal_strlit("ROOT");
}

/// The newest comes first: when one more root was collected, its line stands before those of
/// the roots that were collected earlier, which keep their order.
pub proof fn newest_comes_first(reaped: Seq<Tree>, e: Seq<(Seq<char>, Tree)>, now: u64, n: int)
    requires
        0 <= n <= reaped.len(),
    ensures
        reaped_lines(reaped.push(Tree::Object(e)), now, n + 1) == reaped_line(e, now)
            + reaped_lines(reaped, now, n),
    decreases n,
{
    let longer = reaped.push(Tree::Object(e));
    if n == 0 {
        assert(longer[longer.len() - 1] == Tree::Object(e));
        assert(reaped_lines(longer, now, 0) =~= seq![]);
    } else {
        newest_comes_first(reaped, e, now, n - 1);
        assert(longer[longer.len() - (n + 1)] == reaped[reaped.len() - n]);
    }
    assert(reaped_lines(longer, now, n + 1) =~= reaped_line(e, now) + reaped_lines(reaped, now, n));
}

/// Each root has its own line or none, whatever stands before and after it: the lines of two
/// lists of roots are those of the first, then those of the second.
pub proof fn root_lines_of_sum(a: Seq<Tree>, b: Seq<Tree>)
    ensures
        root_lines(a + b, (a + b).len() as int) == root_lines(a, a.len() as int) + root_lines(
            b,
            b.len() as int,
        ),
{
    root_lines_of_prefix(a, b, a.len() as int);
    root_lines_of_suffix(a, b, b.len() as int);
}

proof fn root_lines_of_prefix(a: Seq<Tree>, b: Seq<Tree>, n: int)
    requires
        n <= a.len(),
    ensures
        root_lines(a + b, n) == root_lines(a, n),
    decreases n,
{
    if n > 0 {
        root_lines_of_prefix(a, b, n - 1);
    }
}

proof fn root_lines_of_suffix(a: Seq<Tree>, b: Seq<Tree>, n: int)
    requires
        0 <= n <= b.len(),
    ensures
        root_lines(a + b, a.len() + n) == root_lines(a + b, a.len() as int) + root_lines(b, n),
    decreases n,
{
    if n > 0 {
        root_lines_of_suffix(a, b, n - 1);
    }
    assert(root_lines(a + b, a.len() + n) =~= root_lines(a + b, a.len() as int) + root_lines(
        b,
        n,
    ));
}

} // verus!
