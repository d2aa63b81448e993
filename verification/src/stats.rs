//! The metric store: the latest value of each named metric, in the order in
//! which the names were first written.
use crate::text::str_eq;
use std::fmt::Display;
use vstd::prelude::*;
use vstd::string::{to_string_from_display_ensures, StringExecFns};

verus! {

/// Whether some entry of `s` is named `name`.
pub open spec fn has_name<V>(s: Seq<(Seq<char>, V)>, name: Seq<char>) -> bool {
    exists|i: int| 0 <= i < s.len() && (#[trigger] s[i]).0 == name
}

/// No two entries of `s` share a name.
pub open spec fn distinct_names<V>(s: Seq<(Seq<char>, V)>) -> bool {
    forall|i: int, j: int| 0 <= i < j < s.len() ==> (#[trigger] s[i]).0 != (#[trigger] s[j]).0
}

/// The value stored under `name`, if any.
pub open spec fn lookup<V>(s: Seq<(Seq<char>, V)>, name: Seq<char>) -> Option<V> {
    if has_name(s, name) {
        Some(s[choose|i: int| 0 <= i < s.len() && (#[trigger] s[i]).0 == name].1)
    } else {
        None
    }
}

/// The entries after writing `value` under `name`: the entry of that name
/// takes the value where it stands, and a new name goes to the end.
pub open spec fn upsert<V>(s: Seq<(Seq<char>, V)>, name: Seq<char>, value: V) -> Seq<
    (Seq<char>, V),
> {
    if has_name(s, name) {
        Seq::new(
            s.len(),
            |i: int|
                if s[i].0 == name {
                    (name, value)
                } else {
                    s[i]
                },
        )
    } else {
        s.push((name, value))
    }
}

/// The entries after the writes `writes`, each a name with a value, made in
/// order.
pub open spec fn upsert_all<V>(s: Seq<(Seq<char>, V)>, writes: Seq<(Seq<char>, V)>) -> Seq<
    (Seq<char>, V),
>
    decreases writes.len(),
{
    if writes.len() == 0 {
        s
    } else {
        upsert(upsert_all(s, writes.drop_last()), writes.last().0, writes.last().1)
    }
}

/// The value of the latest of `writes` under `name`, if there is one.
pub open spec fn last_write<V>(writes: Seq<(Seq<char>, V)>, name: Seq<char>) -> Option<V>
    decreases writes.len(),
{
    if writes.len() == 0 {
        None
    } else if writes.last().0 == name {
        Some(writes.last().1)
    } else {
        last_write(writes.drop_last(), name)
    }
}

/// Where names are distinct, the entry of a name is the only one of that
/// name, and `lookup` gives its value.
pub proof fn lemma_lookup_at<V>(s: Seq<(Seq<char>, V)>, i: int)
    requires
        distinct_names(s),
        0 <= i < s.len(),
    ensures
        lookup(s, s[i].0) == Some(s[i].1),
{
    let name = s[i].0;
    let k = choose|k: int| 0 <= k < s.len() && (#[trigger] s[k]).0 == name;
    if k != i {
        assert(s[k].0 != s[i].0);
    }
}

/// A write keeps names distinct, sets the value under its own name and
/// leaves every other name's value, or absence, as it was.
pub proof fn lemma_upsert_lookup<V>(
    s: Seq<(Seq<char>, V)>,
    name: Seq<char>,
    value: V,
    other: Seq<char>,
)
    requires
        distinct_names(s),
    ensures
        distinct_names(upsert(s, name, value)),
        lookup(upsert(s, name, value), other) == if other == name {
            Some(value)
        } else {
            lookup(s, other)
        },
{
    let t = upsert(s, name, value);
    assert forall|i: int| 0 <= i < s.len() implies (#[trigger] t[i]).0 == s[i].0 by {}
    assert forall|i: int, j: int| 0 <= i < j < t.len() implies (#[trigger] t[i]).0 != (
    #[trigger] t[j]).0 by {
        if j < s.len() {
            assert(s[i].0 != s[j].0);
        } else {
            assert(s[i].0 != name);
        }
    }
    if other == name {
        if has_name(s, name) {
            let i = choose|i: int| 0 <= i < s.len() && (#[trigger] s[i]).0 == name;
            assert(t[i] == (name, value));
            lemma_lookup_at(t, i);
        } else {
            assert(t[s.len() as int] == (name, value));
            lemma_lookup_at(t, s.len() as int);
        }
    } else if has_name(s, other) {
        let i = choose|i: int| 0 <= i < s.len() && (#[trigger] s[i]).0 == other;
        assert(t[i] == s[i]);
        lemma_lookup_at(t, i);
        lemma_lookup_at(s, i);
    } else {
        if has_name(t, other) {
            let i = choose|i: int| 0 <= i < t.len() && (#[trigger] t[i]).0 == other;
            if i < s.len() {
                assert(s[i].0 == other);
            }
        }
    }
}

/// Last write wins: after any writes the names are still distinct, and each
/// name holds the value of the latest write under it, or, unwritten, what it
/// held before.
pub proof fn lemma_last_write_wins<V>(
    s: Seq<(Seq<char>, V)>,
    writes: Seq<(Seq<char>, V)>,
    name: Seq<char>,
)
    requires
        distinct_names(s),
    ensures
        distinct_names(upsert_all(s, writes)),
        lookup(upsert_all(s, writes), name) == match last_write(writes, name) {
            Some(v) => Some(v),
            None => lookup(s, name),
        },
    decreases writes.len(),
{
    if writes.len() > 0 {
        lemma_last_write_wins(s, writes.drop_last(), name);
        lemma_upsert_lookup(
            upsert_all(s, writes.drop_last()),
            writes.last().0,
            writes.last().1,
            name,
        );
    }
}

/// The exposition line of one metric, given the text of its value.
pub open spec fn metric_line(name: Seq<char>, text: Seq<char>) -> Seq<char> {
    name + "{version=\"rust\"} "@ + text + "\n"@
}

/// The exposition lines of the metrics `lines`, each a name with the text of
/// its value, in their order.
pub open spec fn metric_lines(lines: Seq<(Seq<char>, Seq<char>)>) -> Seq<char>
    decreases lines.len(),
{
    if lines.len() == 0 {
        Seq::empty()
    } else {
        metric_lines(lines.drop_last()) + metric_line(lines.last().0, lines.last().1)
    }
}

/// The closing line of an exposition, given the text of the uptime.
pub open spec fn uptime_line(text: Seq<char>) -> Seq<char> {
    "uptime_seconds "@ + text + "\n"@
}

/// The whole exposition: one line for each metric, then the uptime line.
pub open spec fn exposition(lines: Seq<(Seq<char>, Seq<char>)>, uptime: Seq<char>) -> Seq<char> {
    metric_lines(lines) + uptime_line(uptime)
}

/// The names and texts of `lines` as plain sequences.
pub open spec fn lines_view(lines: Seq<(&'static str, String)>) -> Seq<(Seq<char>, Seq<char>)> {
    Seq::new(lines.len(), |i: int| (lines[i].0@, lines[i].1@))
}

/// `texts` holds, for each entry of `s` in order, a text that its value
/// displays as.
pub open spec fn shows<V: Display>(s: Seq<(Seq<char>, V)>, texts: Seq<String>) -> bool {
    &&& texts.len() == s.len()
    &&& forall|i: int|
        0 <= i < s.len() ==> to_string_from_display_ensures::<V>(&s[i].1, #[trigger] texts[i])
}

/// The names of `s`, each with its text out of `texts`.
pub open spec fn with_texts<V>(s: Seq<(Seq<char>, V)>, texts: Seq<String>) -> Seq<
    (Seq<char>, Seq<char>),
> {
    Seq::new(s.len(), |i: int| (s[i].0, texts[i]@))
}

/// `out` is the exposition of `s` at `uptime`, where the values display as
/// `texts` and the uptime displays as `up`.
pub open spec fn renders_as<V: Display>(
    s: Seq<(Seq<char>, V)>,
    uptime: V,
    texts: Seq<String>,
    up: String,
    out: Seq<char>,
) -> bool {
    &&& shows(s, texts)
    &&& to_string_from_display_ensures::<V>(&uptime, up)
    &&& out == exposition(with_texts(s, texts), up@)
}

/// Rendering the same store twice, with values that display the same way,
/// gives texts that agree on every metric line; what follows is the uptime
/// line of each, so equal uptime texts give equal outputs.
pub proof fn lemma_renderings_differ_in_uptime_only<V: Display>(
    s: Seq<(Seq<char>, V)>,
    texts: Seq<String>,
    uptime_a: V,
    up_a: String,
    out_a: Seq<char>,
    uptime_b: V,
    up_b: String,
    out_b: Seq<char>,
)
    requires
        renders_as(s, uptime_a, texts, up_a, out_a),
        renders_as(s, uptime_b, texts, up_b, out_b),
    ensures
        ({
            let n = metric_lines(with_texts(s, texts)).len() as int;
            &&& n <= out_a.len() && n <= out_b.len()
            &&& out_a.subrange(0, n) == out_b.subrange(0, n)
            &&& out_a.subrange(n, out_a.len() as int) == uptime_line(up_a@)
            &&& out_b.subrange(n, out_b.len() as int) == uptime_line(up_b@)
        }),
        up_a@ == up_b@ ==> out_a == out_b,
{
    let body = metric_lines(with_texts(s, texts));
    let n = body.len() as int;
    assert(out_a.subrange(0, n) =~= body);
    assert(out_b.subrange(0, n) =~= body);
    assert(out_a.subrange(n, out_a.len() as int) =~= uptime_line(up_a@));
    assert(out_b.subrange(n, out_b.len() as int) =~= uptime_line(up_b@));
}

/// One metric: its name and its latest value.
struct MetricEntry<V> {
    name: &'static str,
    value: V,
}

/// The names and values that a list of entries holds.
spec fn entries_view<V>(entries: Seq<MetricEntry<V>>) -> Seq<(Seq<char>, V)> {
    Seq::new(entries.len(), |i: int| (entries[i].name@, entries[i].value))
}

/// The latest value of each metric, in order of first appearance.
pub struct MetricStore<V> {
    entries: Vec<MetricEntry<V>>,
}

impl<V> View for MetricStore<V> {
    type V = Seq<(Seq<char>, V)>;

    closed spec fn view(&self) -> Seq<(Seq<char>, V)> {
        entries_view(self.entries@)
    }
}

impl<V> MetricStore<V> {
    #[verifier::type_invariant]
    spec fn names_are_distinct(&self) -> bool {
        distinct_names(self@)
    }

    /// A store without entries.
    pub fn new() -> (stats: Self)
        ensures
            stats@ == Seq::<(Seq<char>, V)>::empty(),
    {
        MetricStore { entries: Vec::new() }
    }

    /// The number of metrics in the store.
    pub fn len(&self) -> (n: usize)
        ensures
            n == self@.len(),
    {
        self.entries.len()
    }

    /// The latest value written under `name`, if any was.
    pub fn get(&self, name: &str) -> (value: Option<&V>)
        ensures
            match value {
                Some(v) => lookup(self@, name@) == Some(*v),
                None => lookup(self@, name@) is None,
            },
            distinct_names(self@),
    {
        proof {
            use_type_invariant(self);
        }
        let n = self.entries.len();
        let mut i: usize = 0;
        while i < n
            invariant
                i <= n,
                n == self.entries@.len(),
                distinct_names(self@),
                forall|j: int| 0 <= j < i ==> (#[trigger] self@[j]).0 != name@,
            decreases n - i,
        {
            if str_eq(self.entries[i].name, name) {
                proof {
                    lemma_lookup_at(self@, i as int);
                }
                return Some(&self.entries[i].value);
            }
            i += 1;
        }
        None
    }
}

/// Writes `value` under `name`: replaces the value of the entry of that name,
/// or appends a new entry.
pub fn store<V>(stats: &mut MetricStore<V>, name: &'static str, value: V)
    ensures
        final(stats)@ == upsert(old(stats)@, name@, value),
        distinct_names(old(stats)@),
        distinct_names(final(stats)@),
{
    proof {
        use_type_invariant(&*stats);
    }
    // The entries leave the store while they change: whatever happens, the
    // store itself never holds a name twice.
    let mut entries: Vec<MetricEntry<V>> = Vec::new();
    std::mem::swap(&mut stats.entries, &mut entries);
    let ghost before = old(stats)@;
    assert(before =~= entries_view(entries@));
    let n = entries.len();
    let mut i: usize = 0;
    while i < n
        invariant
            i <= n,
            n == entries@.len(),
            before == old(stats)@,
            before == entries_view(entries@),
            distinct_names(before),
            forall|j: int| 0 <= j < i ==> entries@[j].name@ != name@,
        decreases n - i,
    {
        if str_eq(entries[i].name, name) {
            assert(before[i as int].0 == name@);
            entries.set(i, MetricEntry { name, value });
            assert forall|k: int| 0 <= k < n && k != i implies (#[trigger] before[k]).0
                != name@ by {
                assert(before[k].0 != before[i as int].0);
            }
            assert(entries_view(entries@) =~= upsert(before, name@, value));
            stats.entries = entries;
            return ;
        }
        i += 1;
    }
    assert(!has_name(before, name@));
    entries.push(MetricEntry { name, value });
    assert(entries_view(entries@) =~= upsert(before, name@, value));
    stats.entries = entries;
}

/// The exposition text of metrics whose values are already texts: a line
/// `name{version="rust"} text` for each, in order, then `uptime_seconds` with
/// the uptime's text.
pub fn exposition_text(lines: &Vec<(&'static str, String)>, uptime: &str) -> (out: String)
    ensures
        out@ == exposition(lines_view(lines@), uptime@),
{
    let mut out = String::new();
    let n = lines.len();
    let mut i: usize = 0;
    while i < n
        invariant
            i <= n,
            n == lines@.len(),
            out@ == metric_lines(lines_view(lines@).take(i as int)),
        decreases n - i,
    {
        let ghost done = out@;
        out.append(lines[i].0);
        out.append("{version=\"rust\"} ");
        out.append(lines[i].1.as_str());
        out.append("\n");
        proof {
            let upto = lines_view(lines@).take(i + 1);
            assert(upto.drop_last() =~= lines_view(lines@).take(i as int));
            assert(upto.last() == (lines[i as int].0@, lines[i as int].1@));
            assert(out@ =~= done + metric_line(lines[i as int].0@, lines[i as int].1@));
        }
        i += 1;
    }
    assert(lines_view(lines@).take(n as int) =~= lines_view(lines@));
    let ghost body = out@;
    out.append("uptime_seconds ");
    out.append(uptime);
    out.append("\n");
    assert(out@ =~= body + uptime_line(uptime@));
    out
}

/// The exposition text of the store at the given uptime: every metric in
/// store order, then the uptime. The store is left as it is.
pub fn render<V: Display>(stats: &MetricStore<V>, uptime: V) -> (out: String)
    ensures
        exists|texts: Seq<String>, up: String| #[trigger]
            renders_as(stats@, uptime, texts, up, out@),
{
    let mut lines: Vec<(&'static str, String)> = Vec::new();
    let ghost mut texts = Seq::<String>::empty();
    let n = stats.entries.len();
    let mut i: usize = 0;
    while i < n
        invariant
            i <= n,
            n == stats.entries@.len(),
            texts.len() == i,
            lines@.len() == i,
            forall|j: int|
                0 <= j < i ==> to_string_from_display_ensures::<V>(
                    &stats@[j].1,
                    #[trigger] texts[j],
                ),
            forall|j: int| 0 <= j < i ==> #[trigger] lines@[j] == (stats.entries@[j].name, texts[j]),
        decreases n - i,
    {
        let text = stats.entries[i].value.to_string();
        proof {
            texts = texts.push(text);
        }
        lines.push((stats.entries[i].name, text));
        i += 1;
    }
    let up = uptime.to_string();
    assert(lines_view(lines@) =~= with_texts(stats@, texts));
    let out = exposition_text(&lines, up.as_str());
    assert(renders_as(stats@, uptime, texts, up, out@));
    out
}

} // verus!
