//! Log lines of a sandbox: their times, the order of their fields, and cutting text to length.

use vstd::prelude::*;
use vstd::utf8::{encode_scalar, encode_utf8, is_char_boundary};

use crate::number;
use crate::string_map::{self, StringMap};
use crate::text;

verus! {

/// A structured log line.
#[derive(Debug)]
pub struct LogLine {
    pub timestamp_ms: i64,
    pub source: String,
    pub level: String,
    pub target: String,
    pub message: String,
    pub fields: StringMap,
}

// ---------------------------------------------------------------------------
// Times
// ---------------------------------------------------------------------------

/// The time of day of an instant, in UTC. An instant that is not after the epoch counts as unknown.
pub open spec fn short_time(epoch_ms: int) -> Seq<char> {
    if epoch_ms <= 0 {
        "--:--:--"@
    } else {
        let second_of_day = epoch_ms / 1000 % 86400;
        number::two_digits(second_of_day / 3600) + ":"@ + number::two_digits(
            second_of_day / 60 % 60,
        ) + ":"@ + number::two_digits(second_of_day % 60)
    }
}

/// The time of day of an instant, as `HH:MM:SS`.
pub fn format_short_time(epoch_ms: i64) -> (s: String)
    ensures
        s@ == short_time(epoch_ms as int),
{
    if epoch_ms <= 0 {
        return "--:--:--".to_owned();
    }
    let second_of_day: u64 = (epoch_ms as u64) / 1000 % 86400;
    let hours: u8 = (second_of_day / 3600) as u8;
    let minutes: u8 = (second_of_day / 60 % 60) as u8;
    let seconds: u8 = (second_of_day % 60) as u8;
    let mut s = String::new();
    number::push_two_digits(&mut s, hours);
    s.append(":");
    number::push_two_digits(&mut s, minutes);
    s.append(":");
    number::push_two_digits(&mut s, seconds);
    assert(second_of_day == epoch_ms as int / 1000 % 86400);
    s
}

// ---------------------------------------------------------------------------
// Truncation
// ---------------------------------------------------------------------------

/// How many bytes `s` takes in UTF-8.
pub open spec fn byte_len(s: Seq<char>) -> nat {
    encode_utf8(s).len()
}

/// The longest prefix of `s` that takes at most `max` bytes in UTF-8.
pub open spec fn fitting(s: Seq<char>, max: int) -> Seq<char>
    decreases s.len(),
{
    if s.len() == 0 {
        Seq::empty()
    } else {
        let width = encode_scalar(s[0] as u32).len();
        if width <= max {
            seq![s[0]] + fitting(s.drop_first(), max - width)
        } else {
            Seq::empty()
        }
    }
}

/// [`fitting`] gives the longest prefix that fits: it fits, and one character more would not.
pub proof fn law_fitting_is_the_longest_prefix(s: Seq<char>, max: int)
    requires
        max >= 0,
    ensures
        fitting(s, max).len() <= s.len(),
        fitting(s, max) == s.take(fitting(s, max).len() as int),
        byte_len(fitting(s, max)) <= max,
        fitting(s, max).len() < s.len() ==> byte_len(s.take(fitting(s, max).len() as int + 1)) > max,
    decreases s.len(),
{
    let f = fitting(s, max);
    if s.len() == 0 {
        assert(f =~= s.take(0));
    } else {
        let width = encode_scalar(s[0] as u32).len();
        let rest = s.drop_first();
        if width <= max {
            law_fitting_is_the_longest_prefix(rest, max - width);
            let g = fitting(rest, max - width);
            assert(f.drop_first() =~= g);
            assert(f =~= s.take(f.len() as int));
            if f.len() < s.len() {
                let t = s.take(f.len() as int + 1);
                assert(t.drop_first() =~= rest.take(g.len() as int + 1));
                assert(t[0] == s[0]);
            }
        } else {
            assert(f =~= s.take(0));
            let t = s.take(1);
            assert(t[0] == s[0]);
        }
    }
}

/// A string that fits is its own longest prefix.
proof fn lemma_fitting_all(s: Seq<char>, max: int)
    requires
        byte_len(s) <= max,
    ensures
        fitting(s, max) == s,
    decreases s.len(),
{
    if s.len() > 0 {
        lemma_fitting_all(s.drop_first(), max - encode_scalar(s[0] as u32).len());
    }
    assert(fitting(s, max) =~= s);
}

/// The last character boundary up to `max` ends the longest prefix that fits.
proof fn lemma_fitting_boundary(s: Seq<char>, max: int, end: int)
    requires
        0 <= end <= max < byte_len(s),
        is_char_boundary(encode_utf8(s), end),
        forall|j: int| end < j <= max ==> !#[trigger] is_char_boundary(encode_utf8(s), j),
    ensures
        encode_utf8(fitting(s, max)) == encode_utf8(s).subrange(0, end),
    decreases s.len(),
{
    let bytes = encode_utf8(s);
    vstd::utf8::encode_utf8_valid_utf8(s);
    if s.len() > 0 {
        let rest = s.drop_first();
        let width = encode_scalar(s[0] as u32).len() as int;
        vstd::utf8::encode_utf8_first_scalar(s);
        vstd::utf8::encode_utf8_valid_utf8(rest);
        assert(vstd::utf8::pop_first_scalar(bytes) == encode_utf8(rest));
        assert(vstd::utf8::length_of_first_scalar(bytes) == width);
        if width <= max {
            assert(is_char_boundary(encode_utf8(rest), 0));
            assert(is_char_boundary(bytes, width));
            assert(width <= end);
            assert forall|j: int| end - width < j <= max - width implies !#[trigger] is_char_boundary(
                encode_utf8(rest),
                j,
            ) by {
                assert(is_char_boundary(bytes, j + width) == is_char_boundary(encode_utf8(rest), j));
            }
            lemma_fitting_boundary(rest, max - width, end - width);
            let f = fitting(s, max);
            assert(f.drop_first() =~= fitting(rest, max - width));
            assert(encode_utf8(f) =~= bytes.subrange(0, end));
        } else {
            if end > 0 {
                assert(is_char_boundary(encode_utf8(rest), end - width));
                assert(end - width < 0);
            }
            assert(fitting(s, max) =~= Seq::empty());
            assert(bytes.subrange(0, 0) =~= Seq::empty());
        }
    }
}

/// Truncate a string to at most `max_bytes` bytes on a valid UTF-8 char boundary.
pub fn safe_truncate(s: &str, max_bytes: usize) -> (r: &str)
    ensures
        r@ == fitting(s@, max_bytes as int),
{
    if s.as_bytes().len() <= max_bytes {
        proof {
            lemma_fitting_all(s@, max_bytes as int);
        }
        return s;
    }
    let mut end: usize = max_bytes;
    proof {
        vstd::utf8::encode_utf8_valid_utf8(s@);
    }
    while end > 0 && !s.is_char_boundary(end)
        invariant
            end <= max_bytes < byte_len(s@),
            vstd::utf8::valid_utf8(encode_utf8(s@)),
            forall|j: int|
                end < j <= max_bytes ==> !#[trigger] is_char_boundary(encode_utf8(s@), j),
        decreases end,
    {
        end -= 1;
    }
    let (head, _) = s.split_at(end);
    proof {
        lemma_fitting_boundary(s@, max_bytes as int, end as int);
        vstd::utf8::encode_utf8_decode_utf8(head@);
        vstd::utf8::encode_utf8_decode_utf8(fitting(s@, max_bytes as int));
    }
    head
}

// ---------------------------------------------------------------------------
// Field ordering
// ---------------------------------------------------------------------------

/// Priority field order for CONNECT log lines.
pub open spec fn connect_field_order() -> Seq<Seq<char>> {
    seq![
        "action"@,
        "dst_host"@,
        "dst_port"@,
        "policy"@,
        "engine"@,
        "src_addr"@,
        "src_port"@,
        "binary"@,
        "binary_pid"@,
        "cmdline"@,
        "ancestors"@,
        "proxy_addr"@,
        "reason"@,
    ]
}

/// Priority field order for L7_REQUEST log lines.
pub open spec fn l7_field_order() -> Seq<Seq<char>> {
    seq![
        "l7_action"@,
        "l7_target"@,
        "l7_decision"@,
        "dst_host"@,
        "dst_port"@,
        "l7_protocol"@,
        "policy"@,
        "l7_deny_reason"@,
    ]
}

/// The fields that come first for a message, in their order.
pub open spec fn priority_order(message: Seq<char>) -> Seq<Seq<char>> {
    if text::begins(message, "CONNECT"@) {
        connect_field_order()
    } else if text::begins(message, "L7_REQUEST"@) {
        l7_field_order()
    } else {
        Seq::empty()
    }
}

/// Those of `fields` whose keys are in `keys`, in the order of `keys`.
pub open spec fn fields_in(
    keys: Seq<Seq<char>>,
    fields: Map<Seq<char>, Seq<char>>,
) -> Seq<(Seq<char>, Seq<char>)>
    decreases keys.len(),
{
    if keys.len() == 0 {
        Seq::empty()
    } else {
        let rest = fields_in(keys.drop_last(), fields);
        if fields.dom().contains(keys.last()) {
            rest.push((keys.last(), fields[keys.last()]))
        } else {
            rest
        }
    }
}

/// Those of `keys` that are not in `priority`.
pub open spec fn without(keys: Seq<Seq<char>>, priority: Seq<Seq<char>>) -> Seq<Seq<char>>
    decreases keys.len(),
{
    if keys.len() == 0 {
        Seq::empty()
    } else {
        let rest = without(keys.drop_last(), priority);
        if priority.contains(keys.last()) {
            rest
        } else {
            rest.push(keys.last())
        }
    }
}

/// The fields of a log line as they are shown: those that come first for its message, then the
/// others alphabetically.
pub open spec fn shown_fields(
    message: Seq<char>,
    fields: Map<Seq<char>, Seq<char>>,
) -> Seq<(Seq<char>, Seq<char>)> {
    let priority = priority_order(message);
    fields_in(priority, fields) + fields_in(
        without(string_map::sorted_keys(fields), priority),
        fields,
    )
}

/// The contents of a list of pairs of borrowed strings.
pub open spec fn ref_views(v: Seq<(&str, &str)>) -> Seq<(Seq<char>, Seq<char>)> {
    Seq::new(v.len(), |i: int| (v[i].0@, v[i].1@))
}

/// The contents of a list of borrowed strings.
pub open spec fn str_views(v: Seq<&'static str>) -> Seq<Seq<char>> {
    Seq::new(v.len(), |i: int| v[i]@)
}

fn priority_keys(message: &str) -> (v: Vec<&'static str>)
    ensures
        str_views(v@) == priority_order(message@),
{
    if text::starts_with(message, "CONNECT") {
        let v: Vec<&'static str> = vec![
            "action",
            "dst_host",
            "dst_port",
            "policy",
            "engine",
            "src_addr",
            "src_port",
            // Trailing process ancestry fields
            "binary",
            "binary_pid",
            "cmdline",
            "ancestors",
            "proxy_addr",
            "reason",
        ];
        assert(str_views(v@) =~= connect_field_order());
        v
    } else if text::starts_with(message, "L7_REQUEST") {
        let v: Vec<&'static str> = vec![
            "l7_action",
            "l7_target",
            "l7_decision",
            "dst_host",
            "dst_port",
            "l7_protocol",
            "policy",
            "l7_deny_reason",
        ];
        assert(str_views(v@) =~= l7_field_order());
        v
    } else {
        let v: Vec<&'static str> = Vec::new();
        assert(str_views(v@) =~= Seq::empty());
        v
    }
}

fn is_among(keys: &Vec<&'static str>, key: &str) -> (r: bool)
    ensures
        r == str_views(keys@).contains(key@),
{
    let mut i: usize = 0;
    while i < keys.len()
        invariant
            i <= keys@.len(),
            forall|j: int| 0 <= j < i ==> (#[trigger] str_views(keys@)[j]) != key@,
        decreases keys@.len() - i,
    {
        assert(str_views(keys@)[i as int] == keys@[i as int]@);
        if text::same(keys[i], key) {
            return true;
        }
        i += 1;
    }
    false
}

/// Return fields in a smart order based on the log message type.
pub fn ordered_fields<'a>(log: &'a LogLine) -> (r: Vec<(&'a str, &'a str)>)
    ensures
        ref_views(r@) == shown_fields(log.message@, log.fields@),
{
    let ghost m = log.fields@;
    let priority = priority_keys(log.message.as_str());
    let ghost first = str_views(priority@);
    let mut r: Vec<(&'a str, &'a str)> = Vec::new();
    let mut i: usize = 0;
    assert(first.take(0) =~= Seq::empty());
    assert(ref_views(r@) =~= fields_in(first.take(0), m));
    while i < priority.len()
        invariant
            i <= priority@.len(),
            first == str_views(priority@),
            m == log.fields@,
            ref_views(r@) == fields_in(first.take(i as int), m),
        decreases priority@.len() - i,
    {
        let ghost sofar = r@;
        proof {
            let t = first.take(i + 1);
            assert(t.drop_last() =~= first.take(i as int));
            assert(t.last() == priority@[i as int]@);
        }
        if let Some(value) = log.fields.get(priority[i]) {
            r.push((priority[i], value.as_str()));
            assert(ref_views(r@) =~= ref_views(sofar).push((priority@[i as int]@, value@)));
        }
        i += 1;
    }
    assert(first.take(i as int) =~= first);
    let entries = log.fields.entries();
    let ghost keys = string_map::keys_of(entries@);
    proof {
        string_map::lemma_lists_unique(keys, string_map::sorted_keys(m), m.dom());
    }
    let ghost head = fields_in(first, m);
    let mut k: usize = 0;
    assert(keys.take(0) =~= Seq::empty());
    assert(head + fields_in(without(keys.take(0), first), m) =~= head);
    while k < entries.len()
        invariant
            k <= entries@.len(),
            first == str_views(priority@),
            keys == string_map::keys_of(entries@),
            string_map::lists(keys, m.dom()),
            forall|j: int| 0 <= j < entries@.len() ==> m[(#[trigger] entries@[j]).0@]
                == entries@[j].1@,
            ref_views(r@) == head + fields_in(without(keys.take(k as int), first), m),
        decreases entries@.len() - k,
    {
        let ghost sofar = r@;
        let ghost chosen = without(keys.take(k as int), first);
        proof {
            let t = keys.take(k + 1);
            assert(t.drop_last() =~= keys.take(k as int));
            assert(t.last() == entries@[k as int].0@);
            assert(keys.contains(keys[k as int]));
        }
        if !is_among(&priority, entries[k].0.as_str()) {
            r.push((entries[k].0.as_str(), entries[k].1.as_str()));
            proof {
                let pair = (entries@[k as int].0@, entries@[k as int].1@);
                assert(ref_views(r@) =~= ref_views(sofar).push(pair));
                assert(chosen.push(pair.0).drop_last() =~= chosen);
                assert(fields_in(chosen.push(pair.0), m) == fields_in(chosen, m).push(pair));
                assert(head + fields_in(chosen, m).push(pair) =~= (head + fields_in(
                    chosen,
                    m,
                )).push(pair));
            }
        }
        k += 1;
    }
    assert(keys.take(k as int) =~= keys);
    r
}

/// Whether no two of `keys` are the same.
pub open spec fn distinct(keys: Seq<Seq<char>>) -> bool {
    forall|i: int, j: int| 0 <= i < j < keys.len() ==> #[trigger] keys[i] != #[trigger] keys[j]
}

proof fn lemma_connect_order_distinct()
    ensures
        distinct(connect_field_order()),
{
    let o = connect_field_order();
    reveal_strlit("action");
    reveal_strlit("dst_host");
    reveal_strlit("dst_port");
    reveal_strlit("policy");
    reveal_strlit("engine");
    reveal_strlit("src_addr");
    reveal_strlit("src_port");
    reveal_strlit("binary");
    reveal_strlit("binary_pid");
    reveal_strlit("cmdline");
    reveal_strlit("ancestors");
    reveal_strlit("proxy_addr");
    reveal_strlit("reason");
    assert(o[0].len() == 6 && o[0][0] == 'a' && o[0][4] == 'o');
    assert(o[1].len() == 8 && o[1][0] == 'd' && o[1][4] == 'h');
    assert(o[2].len() == 8 && o[2][0] == 'd' && o[2][4] == 'p');
    assert(o[3].len() == 6 && o[3][0] == 'p' && o[3][4] == 'c');
    assert(o[4].len() == 6 && o[4][0] == 'e' && o[4][4] == 'n');
    assert(o[5].len() == 8 && o[5][0] == 's' && o[5][4] == 'a');
    assert(o[6].len() == 8 && o[6][0] == 's' && o[6][4] == 'p');
    assert(o[7].len() == 6 && o[7][0] == 'b' && o[7][4] == 'r');
    assert(o[8].len() == 10 && o[8][0] == 'b' && o[8][4] == 'r');
    assert(o[9].len() == 7 && o[9][0] == 'c' && o[9][4] == 'i');
    assert(o[10].len() == 9 && o[10][0] == 'a' && o[10][4] == 's');
    assert(o[11].len() == 10 && o[11][0] == 'p' && o[11][4] == 'y');
    assert(o[12].len() == 6 && o[12][0] == 'r' && o[12][4] == 'o');
}

proof fn lemma_l7_order_distinct()
    ensures
        distinct(l7_field_order()),
{
    let o = l7_field_order();
    reveal_strlit("l7_action");
    reveal_strlit("l7_target");
    reveal_strlit("l7_decision");
    reveal_strlit("dst_host");
    reveal_strlit("dst_port");
    reveal_strlit("l7_protocol");
    reveal_strlit("policy");
    reveal_strlit("l7_deny_reason");
    assert(o[0].len() == 9 && o[0][3] == 'a' && o[0][4] == 'c');
    assert(o[1].len() == 9 && o[1][3] == 't' && o[1][4] == 'a');
    assert(o[2].len() == 11 && o[2][3] == 'd' && o[2][4] == 'e');
    assert(o[3].len() == 8 && o[3][3] == '_' && o[3][4] == 'h');
    assert(o[4].len() == 8 && o[4][3] == '_' && o[4][4] == 'p');
    assert(o[5].len() == 11 && o[5][3] == 'p' && o[5][4] == 'r');
    assert(o[6].len() == 6 && o[6][3] == 'i' && o[6][4] == 'c');
    assert(o[7].len() == 14 && o[7][3] == 'd' && o[7][4] == 'e');
}

/// The fields under distinct keys: the keys are distinct, and are those of `keys` that are there.
proof fn lemma_fields_in(keys: Seq<Seq<char>>, fields: Map<Seq<char>, Seq<char>>)
    requires
        distinct(keys),
    ensures
        forall|i: int|
            0 <= i < fields_in(keys, fields).len() ==> {
                let f = #[trigger] fields_in(keys, fields)[i];
                keys.contains(f.0) && fields.dom().contains(f.0) && f.1 == fields[f.0]
            },
        forall|k: Seq<char>|
            keys.contains(k) && #[trigger] fields.dom().contains(k) ==> fields_in(
                keys,
                fields,
            ).contains((k, fields[k])),
        forall|i: int, j: int|
            0 <= i < j < fields_in(keys, fields).len() ==> (#[trigger] fields_in(keys, fields)[i]).0
                != (#[trigger] fields_in(keys, fields)[j]).0,
    decreases keys.len(),
{
    if keys.len() > 0 {
        let front = keys.drop_last();
        let last = keys.last();
        assert(distinct(front)) by {
            assert forall|i: int, j: int| 0 <= i < j < front.len() implies #[trigger] front[i]
                != #[trigger] front[j] by {
                assert(keys[i] != keys[j]);
            }
        }
        lemma_fields_in(front, fields);
        let rest = fields_in(front, fields);
        let all = fields_in(keys, fields);
        assert(keys[keys.len() - 1] == last);
        assert(!front.contains(last)) by {
            if front.contains(last) {
                let i = choose|i: int| 0 <= i < front.len() && front[i] == last;
                assert(keys[i] != keys[keys.len() - 1]);
            }
        }
        assert forall|i: int| 0 <= i < all.len() implies {
            let f = #[trigger] all[i];
            keys.contains(f.0) && fields.dom().contains(f.0) && f.1 == fields[f.0]
        } by {
            if i < rest.len() {
                let k = rest[i].0;
                assert(front.contains(k));
                let j = choose|j: int| 0 <= j < front.len() && front[j] == k;
                assert(keys[j] == k);
            }
        }
        assert forall|k: Seq<char>|
            keys.contains(k) && #[trigger] fields.dom().contains(k) implies all.contains(
            (k, fields[k]),
        ) by {
            if k == last {
                assert(all[all.len() - 1] == (k, fields[k]));
            } else {
                let j = choose|j: int| 0 <= j < keys.len() && keys[j] == k;
                assert(front[j] == k);
                assert(rest.contains((k, fields[k])));
                let i = choose|i: int| 0 <= i < rest.len() && rest[i] == (k, fields[k]);
                assert(all[i] == (k, fields[k]));
            }
        }
        assert forall|i: int, j: int| 0 <= i < j < all.len() implies (#[trigger] all[i]).0 != (
        #[trigger] all[j]).0 by {
            if j < rest.len() {
                assert(rest[i].0 != rest[j].0);
            } else {
                assert(front.contains(rest[i].0));
            }
        }
    }
}

proof fn lemma_without(keys: Seq<Seq<char>>, priority: Seq<Seq<char>>)
    requires
        distinct(keys),
    ensures
        distinct(without(keys, priority)),
        forall|k: Seq<char>| #[trigger]
            without(keys, priority).contains(k) <==> keys.contains(k) && !priority.contains(k),
    decreases keys.len(),
{
    if keys.len() > 0 {
        let front = keys.drop_last();
        let last = keys.last();
        assert(distinct(front)) by {
            assert forall|i: int, j: int| 0 <= i < j < front.len() implies #[trigger] front[i]
                != #[trigger] front[j] by {
                assert(keys[i] != keys[j]);
            }
        }
        lemma_without(front, priority);
        let rest = without(front, priority);
        let all = without(keys, priority);
        assert(keys[keys.len() - 1] == last);
        assert forall|k: Seq<char>| keys.contains(k) <==> (#[trigger] front.contains(k) || k
            == last) by {
            if keys.contains(k) {
                let j = choose|j: int| 0 <= j < keys.len() && keys[j] == k;
                if j < front.len() {
                    assert(front[j] == k);
                }
            }
            if front.contains(k) {
                let j = choose|j: int| 0 <= j < front.len() && front[j] == k;
                assert(keys[j] == k);
            }
        }
        assert forall|k: Seq<char>| rest.push(last).contains(k) <==> (#[trigger] rest.contains(k)
            || k == last) by {
            if rest.push(last).contains(k) {
                let j = choose|j: int| 0 <= j < rest.push(last).len() && rest.push(last)[j] == k;
                if j < rest.len() {
                    assert(rest[j] == k);
                }
            }
            if rest.contains(k) {
                let j = choose|j: int| 0 <= j < rest.len() && rest[j] == k;
                assert(rest.push(last)[j] == k);
            }
            assert(rest.push(last)[rest.len() as int] == last);
        }
        assert forall|k: Seq<char>| #[trigger] all.contains(k) <==> keys.contains(k)
            && !priority.contains(k) by {
            assert(rest.contains(k) <==> front.contains(k) && !priority.contains(k));
        }
        assert(!front.contains(last)) by {
            if front.contains(last) {
                let i = choose|i: int| 0 <= i < front.len() && front[i] == last;
                assert(keys[i] != keys[keys.len() - 1]);
            }
        }
        assert forall|i: int, j: int| 0 <= i < j < all.len() implies #[trigger] all[i]
            != #[trigger] all[j] by {
            if j == rest.len() {
                assert(rest.contains(rest[i]));
                assert(front.contains(rest[i]));
            } else {
                assert(rest[i] != rest[j]);
            }
        }
    }
}

/// Every field of a log line is shown, once, with its value, whatever the message; and nothing
/// else is shown.
pub proof fn law_every_field_is_shown_once(
    message: Seq<char>,
    fields: Map<Seq<char>, Seq<char>>,
    keys: Seq<Seq<char>>,
)
    requires
        string_map::lists(keys, fields.dom()),
    ensures
        forall|k: Seq<char>, v: Seq<char>| #[trigger]
            shown_fields(message, fields).contains((k, v)) <==> fields.dom().contains(k)
                && fields[k] == v,
        forall|i: int, j: int|
            0 <= i < j < shown_fields(message, fields).len() ==> (#[trigger] shown_fields(
                message,
                fields,
            )[i]).0 != (#[trigger] shown_fields(message, fields)[j]).0,
{
    let priority = priority_order(message);
    lemma_connect_order_distinct();
    lemma_l7_order_distinct();
    string_map::lemma_lists_unique(keys, string_map::sorted_keys(fields), fields.dom());
    assert(distinct(keys)) by {
        assert forall|i: int, j: int| 0 <= i < j < keys.len() implies #[trigger] keys[i]
            != #[trigger] keys[j] by {
            assert(string_map::before(keys[i], keys[j]));
            string_map::lemma_before_irreflexive(keys[i]);
        }
    }
    let others = without(keys, priority);
    lemma_without(keys, priority);
    lemma_fields_in(priority, fields);
    lemma_fields_in(others, fields);
    let a = fields_in(priority, fields);
    let b = fields_in(others, fields);
    let all = shown_fields(message, fields);
    assert(all == a + b);
    assert forall|k: Seq<char>, v: Seq<char>| #[trigger]
        all.contains((k, v)) <==> fields.dom().contains(k) && fields[k] == v by {
        if all.contains((k, v)) {
            let i = choose|i: int| 0 <= i < all.len() && all[i] == (k, v);
            if i < a.len() {
                assert(a[i] == (k, v));
            } else {
                assert(b[i - a.len()] == (k, v));
            }
        }
        if fields.dom().contains(k) && fields[k] == v {
            assert(keys.contains(k));
            if priority.contains(k) {
                assert(a.contains((k, v)));
                let i = choose|i: int| 0 <= i < a.len() && a[i] == (k, v);
                assert(all[i] == (k, v));
            } else {
                assert(others.contains(k));
                assert(b.contains((k, v)));
                let i = choose|i: int| 0 <= i < b.len() && b[i] == (k, v);
                assert(all[a.len() + i] == (k, v));
            }
        }
    }
    assert forall|i: int, j: int| 0 <= i < j < all.len() implies (#[trigger] all[i]).0 != (
    #[trigger] all[j]).0 by {
        if j < a.len() {
            assert(a[i].0 != a[j].0);
        } else if i >= a.len() {
            assert(b[i - a.len()].0 != b[j - a.len()].0);
        } else {
            assert(priority.contains(a[i].0));
            assert(others.contains(b[j - a.len()].0));
        }
    }
}

/// The contents of a list of borrowed pairs are those of its members, one for one.
pub proof fn law_contents_of_borrowed_pairs(pairs: Seq<(&str, &str)>)
    ensures
        ref_views(pairs).len() == pairs.len(),
        forall|i: int|
            0 <= i < pairs.len() ==> #[trigger] ref_views(pairs)[i] == (pairs[i].0@, pairs[i].1@),
{
}

/// The time of day of an instant is the hour, the minute and the second that it falls in, whatever
/// the day. An instant that is not after the epoch has none.
pub proof fn law_time_of_day(day: int, hour: int, minute: int, second: int, milli: int)
    requires
        day >= 0,
        0 <= hour < 24,
        0 <= minute < 60,
        0 <= second < 60,
        0 <= milli < 1000,
    ensures
        ({
            let ms = (((day * 24 + hour) * 60 + minute) * 60 + second) * 1000 + milli;
            ms > 0 ==> short_time(ms) == number::two_digits(hour) + ":"@ + number::two_digits(
                minute,
            ) + ":"@ + number::two_digits(second)
        }),
        short_time(-milli) == "--:--:--"@,
{
    let secs = ((day * 24 + hour) * 60 + minute) * 60 + second;
    let of_day = hour * 3600 + minute * 60 + second;
    let ms = secs * 1000 + milli;
    assert(ms / 1000 == secs);
    assert(secs == day * 86400 + of_day);
    assert(secs % 86400 == of_day);
    assert(of_day / 3600 == hour);
    assert(of_day / 60 == hour * 60 + minute);
    assert(of_day / 60 % 60 == minute);
    assert(of_day % 60 == second);
}

/// Which fields come first, and in which order, goes by how the message begins.
pub proof fn law_first_fields_go_by_the_message(rest: Seq<char>, message: Seq<char>)
    ensures
        priority_order("CONNECT"@ + rest) == seq![
            "action"@,
            "dst_host"@,
            "dst_port"@,
            "policy"@,
            "engine"@,
            "src_addr"@,
            "src_port"@,
            "binary"@,
            "binary_pid"@,
            "cmdline"@,
            "ancestors"@,
            "proxy_addr"@,
            "reason"@,
        ],
        priority_order("L7_REQUEST"@ + rest) == seq![
            "l7_action"@,
            "l7_target"@,
            "l7_decision"@,
            "dst_host"@,
            "dst_port"@,
            "l7_protocol"@,
            "policy"@,
            "l7_deny_reason"@,
        ],
        !text::begins(message, "CONNECT"@) && !text::begins(message, "L7_REQUEST"@)
            ==> priority_order(message).len() == 0,
{
    reveal_strlit("CONNECT");
    reveal_strlit("L7_REQUEST");
    let c = "CONNECT"@ + rest;
    let l = "L7_REQUEST"@ + rest;
    assert(c.subrange(0, 7) =~= "CONNECT"@);
    assert(l.subrange(0, 10) =~= "L7_REQUEST"@);
    assert(l[0] == 'L');
    if text::begins(l, "CONNECT"@) {
        assert(l.subrange(0, 7)[0] == 'C');
    }
}

/// Whether a field of key `a` is shown before one of key `b`: the fields that come first in their
/// order, then the others in the order of the alphabet.
pub open spec fn shown_before(priority: Seq<Seq<char>>, a: Seq<char>, b: Seq<char>) -> bool {
    if priority.contains(a) && priority.contains(b) {
        exists|p: int, q: int|
            0 <= p < q < priority.len() && #[trigger] priority[p] == a && #[trigger] priority[q]
                == b
    } else if priority.contains(a) || priority.contains(b) {
        priority.contains(a)
    } else {
        string_map::before(a, b)
    }
}

/// The fields of a log line are shown in order: those that come first for its message as the list
/// has them, then the others alphabetically.
pub proof fn law_fields_are_shown_in_order(
    message: Seq<char>,
    fields: Map<Seq<char>, Seq<char>>,
    keys: Seq<Seq<char>>,
    i: int,
    j: int,
)
    requires
        string_map::lists(keys, fields.dom()),
        0 <= i < j < shown_fields(message, fields).len(),
    ensures
        shown_before(
            priority_order(message),
            shown_fields(message, fields)[i].0,
            shown_fields(message, fields)[j].0,
        ),
{
    let priority = priority_order(message);
    lemma_connect_order_distinct();
    lemma_l7_order_distinct();
    string_map::lemma_lists_unique(keys, string_map::sorted_keys(fields), fields.dom());
    assert(distinct(keys)) by {
        assert forall|p: int, q: int| 0 <= p < q < keys.len() implies #[trigger] keys[p]
            != #[trigger] keys[q] by {
            assert(string_map::before(keys[p], keys[q]));
            string_map::lemma_before_irreflexive(keys[p]);
        }
    }
    let others = without(keys, priority);
    lemma_without(keys, priority);
    lemma_without_ascends(keys, priority);
    lemma_fields_in(priority, fields);
    lemma_fields_in(others, fields);
    lemma_fields_in_order(priority, fields);
    lemma_fields_in_order(others, fields);
    let a = fields_in(priority, fields);
    let b = fields_in(others, fields);
    let all = shown_fields(message, fields);
    assert(all == a + b);
    if j < a.len() {
        let (p, q) = choose|p: int, q: int|
            0 <= p < q < priority.len() && #[trigger] priority[p] == a[i].0
                && #[trigger] priority[q] == a[j].0;
        assert(priority.contains(a[i].0) && priority.contains(a[j].0));
        assert(priority[p] == all[i].0 && priority[q] == all[j].0);
    } else if i < a.len() {
        assert(priority.contains(a[i].0));
        assert(others.contains(b[j - a.len()].0));
        assert(!priority.contains(all[j].0));
    } else {
        let x = i - a.len();
        let y = j - a.len();
        assert(others.contains(b[x].0) && others.contains(b[y].0));
        let (p, q) = choose|p: int, q: int|
            0 <= p < q < others.len() && #[trigger] others[p] == b[x].0 && #[trigger] others[q]
                == b[y].0;
        assert(string_map::before(others[p], others[q]));
    }
}

proof fn lemma_fields_in_order(keys: Seq<Seq<char>>, fields: Map<Seq<char>, Seq<char>>)
    ensures
        forall|i: int|
            0 <= i < fields_in(keys, fields).len() ==> exists|p: int|
                0 <= p < keys.len() && #[trigger] keys[p] == (#[trigger] fields_in(
                    keys,
                    fields,
                )[i]).0,
        forall|i: int, j: int|
            0 <= i < j < fields_in(keys, fields).len() ==> exists|p: int, q: int|
                0 <= p < q < keys.len() && #[trigger] keys[p] == (#[trigger] fields_in(
                    keys,
                    fields,
                )[i]).0 && #[trigger] keys[q] == (#[trigger] fields_in(keys, fields)[j]).0,
    decreases keys.len(),
{
    if keys.len() > 0 {
        let front = keys.drop_last();
        lemma_fields_in_order(front, fields);
        let rest = fields_in(front, fields);
        let all = fields_in(keys, fields);
        assert forall|i: int| 0 <= i < all.len() implies exists|p: int|
            0 <= p < keys.len() && #[trigger] keys[p] == (#[trigger] all[i]).0 by {
            if i < rest.len() {
                assert(all[i] == rest[i]);
                let p = choose|p: int| 0 <= p < front.len() && #[trigger] front[p] == rest[i].0;
                assert(keys[p] == all[i].0);
            } else {
                assert(keys[keys.len() - 1] == all[i].0);
            }
        }
        assert forall|i: int, j: int| 0 <= i < j < all.len() implies exists|p: int, q: int|
            0 <= p < q < keys.len() && #[trigger] keys[p] == (#[trigger] all[i]).0
                && #[trigger] keys[q] == (#[trigger] all[j]).0 by {
            if j < rest.len() {
                assert(all[i] == rest[i] && all[j] == rest[j]);
                let (p, q) = choose|p: int, q: int|
                    0 <= p < q < front.len() && #[trigger] front[p] == rest[i].0
                        && #[trigger] front[q] == rest[j].0;
                assert(keys[p] == all[i].0 && keys[q] == all[j].0);
            } else {
                assert(all[i] == rest[i]);
                let p = choose|p: int| 0 <= p < front.len() && #[trigger] front[p] == rest[i].0;
                assert(keys[p] == all[i].0 && keys[keys.len() - 1] == all[j].0);
            }
        }
    }
}

proof fn lemma_without_ascends(keys: Seq<Seq<char>>, priority: Seq<Seq<char>>)
    requires
        string_map::ascending(keys),
        distinct(keys),
    ensures
        string_map::ascending(without(keys, priority)),
    decreases keys.len(),
{
    if keys.len() > 0 {
        let front = keys.drop_last();
        assert forall|i: int, j: int| 0 <= i < j < front.len() implies string_map::before(
            #[trigger] front[i],
            #[trigger] front[j],
        ) && front[i] != front[j] by {
            assert(string_map::before(keys[i], keys[j]));
            assert(keys[i] != keys[j]);
        }
        lemma_without_ascends(front, priority);
        lemma_without(front, priority);
        let rest = without(front, priority);
        let all = without(keys, priority);
        assert forall|i: int, j: int| 0 <= i < j < all.len() implies string_map::before(
            #[trigger] all[i],
            #[trigger] all[j],
        ) by {
            if j < rest.len() {
                assert(string_map::before(rest[i], rest[j]));
            } else {
                assert(rest.contains(rest[i]));
                assert(front.contains(rest[i]));
                let k = choose|k: int| 0 <= k < front.len() && front[k] == rest[i];
                assert(string_map::before(keys[k], keys[keys.len() - 1]));
            }
        }
    }
}

} // verus!
