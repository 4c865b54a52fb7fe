//! The report of the statistics that passes collected.
use vstd::prelude::*;
use vstd::string::*;
use crate::pass::manager::PassDisplayMode;
use crate::pass::statistics::{value_merged, value_text, AnyStatistic, StatValue, Statistic};
use crate::pass::tree::{self, ManagerTree, OpPassManager, PassEntry, PassInfo, PassTree};
use crate::text::{self, chars_of, same_text};

verus! {

/// A statistic.
pub ghost struct StatView {
    pub name: Seq<char>,
    pub description: Seq<char>,
    pub value: StatValue,
}

/// What a statistic is.
pub open spec fn stat_view(stat: AnyStatistic) -> StatView {
    StatView {
        name: stat.title(),
        description: stat.meaning(),
        value: stat.value(),
    }
}

/// A statistic with the value of another merged into it.
pub open spec fn stat_merged(a: StatView, b: StatView) -> StatView {
    StatView { value: value_merged(a.value, b.value), ..a }
}

fn merge_stat(stat: &mut AnyStatistic, other: &mut AnyStatistic)
    ensures
        stat_view(*final(stat)) == stat_merged(stat_view(*old(stat)), stat_view(*old(other))),
{
    let _ = stat.try_merge(other);
}

fn copy_stat(stat: &AnyStatistic) -> (copy: AnyStatistic)
    ensures
        stat_view(copy) == stat_view(*stat),
{
    stat.duplicate()
}

/// What statistics are.
pub open spec fn stat_views(stats: Seq<AnyStatistic>) -> Seq<StatView> {
    stats.map_values(|stat: AnyStatistic| stat_view(stat))
}

/// The passes in the tree of a pass manager, in the order in which they run.
pub open spec fn leaves(manager: ManagerTree) -> Seq<PassInfo>
    decreases manager, 0int,
{
    leaves_of_passes(manager.passes, manager.passes.len() as int)
}

/// The passes in the trees of the first `n` passes.
pub open spec fn leaves_of_passes(passes: Seq<PassTree>, n: int) -> Seq<PassInfo>
    decreases passes, n,
{
    if n <= 0 || n > passes.len() {
        Seq::empty()
    } else {
        leaves_of_passes(passes, n - 1) + leaves_of_pass(passes[n - 1])
    }
}

/// The passes in the tree of a pass.
pub open spec fn leaves_of_pass(pass: PassTree) -> Seq<PassInfo>
    decreases pass, 0int,
{
    match pass {
        PassTree::Pass(info) => seq![info],
        PassTree::Adaptor(pms) => leaves_of_managers(pms, pms.len() as int),
    }
}

/// The passes in the trees of the first `n` pass managers.
pub open spec fn leaves_of_managers(pms: Seq<ManagerTree>, n: int) -> Seq<PassInfo>
    decreases pms, n,
{
    if n <= 0 || n > pms.len() {
        Seq::empty()
    } else {
        leaves_of_managers(pms, n - 1) + leaves(pms[n - 1])
    }
}

/// What references refer to.
pub open spec fn referred(infos: Seq<&PassInfo>) -> Seq<PassInfo> {
    infos.map_values(|info: &PassInfo| *info)
}

fn push_leaves_of_passes<'a>(passes: &'a Vec<PassEntry>, n: usize, out: &mut Vec<&'a PassInfo>)
    requires
        n <= passes@.len(),
    ensures
        referred(final(out)@) == referred(old(out)@) + leaves_of_passes(
            tree::entry_trees(passes@),
            n as int,
        ),
    decreases passes, n,
{
    if n > 0 {
        push_leaves_of_passes(passes, n - 1, out);
        push_leaves_of_pass(&passes[n - 1], out);
    }
    assert(referred(out@) =~= referred(old(out)@) + leaves_of_passes(
        tree::entry_trees(passes@),
        n as int,
    ));
}

fn push_leaves_of_pass<'a>(pass: &'a PassEntry, out: &mut Vec<&'a PassInfo>)
    ensures
        referred(final(out)@) == referred(old(out)@) + leaves_of_pass(tree::entry_tree(*pass)),
    decreases pass, 0usize,
{
    match pass {
        PassEntry::Pass(info) => {
            out.push(info);
            assert(referred(out@) =~= referred(old(out)@) + seq![*info]);
        },
        PassEntry::Adaptor(adaptor) => {
            proof {
                tree::adaptor_tree_is(*adaptor);
            }
            let len: usize = adaptor.pms.len();
            push_leaves_of_managers(&adaptor.pms, len, out);
        },
    }
}

fn push_leaves_of_managers<'a>(pms: &'a Vec<OpPassManager>, n: usize, out: &mut Vec<&'a PassInfo>)
    requires
        n <= pms@.len(),
    ensures
        referred(final(out)@) == referred(old(out)@) + leaves_of_managers(
            tree::manager_trees(pms@),
            n as int,
        ),
    decreases pms, n,
{
    if n > 0 {
        push_leaves_of_managers(pms, n - 1, out);
        push_leaves(&pms[n - 1], out);
    }
    assert(referred(out@) =~= referred(old(out)@) + leaves_of_managers(
        tree::manager_trees(pms@),
        n as int,
    ));
}

pub(crate) fn push_leaves<'a>(manager: &'a OpPassManager, out: &mut Vec<&'a PassInfo>)
    ensures
        referred(final(out)@) == referred(old(out)@) + leaves(tree::manager_tree(*manager)),
    decreases manager, 0usize,
{
    proof {
        tree::manager_tree_is(*manager);
    }
    let len: usize = manager.passes.len();
    push_leaves_of_passes(&manager.passes, len, out);
}

/// The statistics of the passes of one name.
pub ghost struct EntryView {
    pub name: Seq<char>,
    pub stats: Seq<StatView>,
}

/// The statistics of the passes of one name.
pub struct StatEntry {
    pub name: String,
    pub stats: Vec<AnyStatistic>,
}

/// What entries are.
pub open spec fn entry_views(entries: Seq<StatEntry>) -> Seq<EntryView> {
    entries.map_values(
        |entry: StatEntry| EntryView { name: entry.name@, stats: stat_views(entry.stats@) },
    )
}

/// Where the entry of a name is, or is to be put, among entries that are in order of their names.
pub open spec fn entry_place(entries: Seq<EntryView>, name: Seq<char>, from: int) -> int
    decreases entries.len() - from,
{
    if from < 0 || from >= entries.len() {
        entries.len() as int
    } else if text::precedes(entries[from].name, name) {
        entry_place(entries, name, from + 1)
    } else {
        from
    }
}

/// The statistics of a pass merged into those of others, one by one.
pub open spec fn stats_merged(a: Seq<StatView>, b: Seq<StatView>) -> Seq<StatView> {
    Seq::new(a.len(), |i: int| stat_merged(a[i], b[i]))
}

/// The entries with the statistics of one more pass.
pub open spec fn entry_added(entries: Seq<EntryView>, info: PassInfo) -> Seq<EntryView> {
    let at = entry_place(entries, info.name@, 0);
    let stats = stat_views(info.statistics@);
    if stats.len() == 0 {
        entries
    } else if at < entries.len() && entries[at].name == info.name@ {
        entries.update(
            at,
            EntryView { name: info.name@, stats: stats_merged(entries[at].stats, stats) },
        )
    } else {
        entries.insert(at, EntryView { name: info.name@, stats })
    }
}

/// The entries of the first `n` passes.
pub open spec fn entries_of(infos: Seq<PassInfo>, n: int) -> Seq<EntryView>
    decreases n,
{
    if n <= 0 {
        Seq::empty()
    } else {
        entry_added(entries_of(infos, n - 1), infos[n - 1])
    }
}

/// Passes of the same name have as many statistics.
pub open spec fn stats_agree(infos: Seq<PassInfo>) -> bool {
    forall|i: int, j: int|
        0 <= i < infos.len() && 0 <= j < infos.len() && (#[trigger] infos[i]).name@ == (
        #[trigger] infos[j]).name@ && infos[i].statistics@.len() > 0 && infos[j].statistics@.len()
            > 0 ==> infos[i].statistics@.len() == infos[j].statistics@.len()
}

proof fn place_bounds(entries: Seq<EntryView>, name: Seq<char>, from: int)
    requires
        0 <= from <= entries.len(),
    ensures
        from <= entry_place(entries, name, from) <= entries.len(),
    decreases entries.len() - from,
{
    if from < entries.len() && text::precedes(entries[from].name, name) {
        place_bounds(entries, name, from + 1);
    }
}

proof fn entry_has_a_pass(infos: Seq<PassInfo>, n: int, i: int)
    requires
        0 <= n <= infos.len(),
        0 <= i < entries_of(infos, n).len(),
    ensures
        exists|k: int|
            0 <= k < n && (#[trigger] infos[k]).name@ == entries_of(infos, n)[i].name
                && infos[k].statistics@.len() == entries_of(infos, n)[i].stats.len()
                && infos[k].statistics@.len() > 0,
    decreases n,
{
    if n > 0 {
        let before = entries_of(infos, n - 1);
        let info = infos[n - 1];
        let at = entry_place(before, info.name@, 0);
        place_bounds(before, info.name@, 0);
        if info.statistics@.len() == 0 {
            entry_has_a_pass(infos, n - 1, i);
        } else if at < before.len() && before[at].name == info.name@ {
            entry_has_a_pass(infos, n - 1, i);
        } else if i < at {
            entry_has_a_pass(infos, n - 1, i);
        } else if i > at {
            entry_has_a_pass(infos, n - 1, i - 1);
        } else {
            assert(infos[n - 1].name@ == entries_of(infos, n)[i].name);
        }
    }
}

fn copy_stats(stats: &Vec<AnyStatistic>) -> (copy: Vec<AnyStatistic>)
    ensures
        stat_views(copy@) == stat_views(stats@),
{
    let mut copy: Vec<AnyStatistic> = Vec::new();
    let mut i: usize = 0;
    while i < stats.len()
        invariant
            i <= stats@.len(),
            copy@.len() == i,
            forall|j: int|
                0 <= j < i ==> stat_view(#[trigger] copy@[j]) == stat_view(stats@[j]),
        decreases stats@.len() - i,
    {
        copy.push(copy_stat(&stats[i]));
        i = i + 1;
    }
    assert(stat_views(copy@) =~= stat_views(stats@));
    copy
}

fn merge_stats(stats: &mut Vec<AnyStatistic>, others: Vec<AnyStatistic>)
    requires
        old(stats)@.len() == others@.len(),
    ensures
        stat_views(final(stats)@) == stats_merged(stat_views(old(stats)@), stat_views(others@)),
{
    let mut others = others;
    let ghost b = others@;
    let mut i: usize = 0;
    while i < stats.len()
        invariant
            i <= stats@.len(),
            stats@.len() == old(stats)@.len() == b.len() == others@.len(),
            forall|j: int|
                0 <= j < i ==> stat_view(#[trigger] stats@[j]) == stat_merged(
                    stat_view(old(stats)@[j]),
                    stat_view(b[j]),
                ),
            forall|j: int| i <= j < stats@.len() ==> #[trigger] stats@[j] == old(stats)@[j],
            forall|j: int| i <= j < others@.len() ==> #[trigger] others@[j] == b[j],
        decreases stats@.len() - i,
    {
        assert(stats@[i as int] == old(stats)@[i as int]);
        assert(others@[i as int] == b[i as int]);
        merge_stat(&mut stats[i], &mut others[i]);
        i = i + 1;
    }
    assert(stat_views(stats@) =~= stats_merged(stat_views(old(stats)@), stat_views(b)));
}

fn add_stats(entries: &mut Vec<StatEntry>, info: &PassInfo)
    requires
        forall|i: int|
            0 <= i < old(entries)@.len() && (#[trigger] old(entries)@[i]).name@ == info.name@
                && info.statistics@.len() > 0 ==> old(entries)@[i].stats@.len()
                == info.statistics@.len(),
    ensures
        entry_views(final(entries)@) == entry_added(entry_views(old(entries)@), *info),
{
    let ghost views = entry_views(entries@);
    let ghost before = entries@;
    if info.statistics.len() == 0 {
        return;
    }
    let stats = copy_stats(&info.statistics);
    assert(stat_views(stats@).len() == stats@.len());
    assert(stat_views(info.statistics@).len() == info.statistics@.len());
    let mut at: usize = 0;
    while at < entries.len() && text::comes_before(entries[at].name.as_str(), info.name.as_str())
        invariant
            at <= entries@.len(),
            entries@ == before,
            views == entry_views(before),
            entry_place(views, info.name@, 0) == entry_place(views, info.name@, at as int),
        decreases entries@.len() - at,
    {
        at = at + 1;
    }
    assert(entry_place(views, info.name@, 0) == at);
    if at < entries.len() && same_text(entries[at].name.as_str(), info.name.as_str()) {
        assert(before[at as int].name@ == info.name@);
        merge_stats(&mut entries[at].stats, stats);
        assert(entries@ =~= before.update(at as int, entries@[at as int]));
        assert(entry_views(entries@) =~= entry_added(views, *info));
    } else {
        let entry = StatEntry { name: info.name.as_str().to_owned(), stats };
        entries.insert(at, entry);
        assert(entry_views(entries@) =~= entry_added(views, *info));
    }
}

/// How many bytes a character takes.
pub open spec fn char_width(c: char) -> nat {
    if (c as u32) < 0x80 {
        1
    } else if (c as u32) < 0x800 {
        2
    } else if (c as u32) < 0x10000 {
        3
    } else {
        4
    }
}

/// How many bytes a text takes.
pub open spec fn byte_len(s: Seq<char>) -> nat
    decreases s.len(),
{
    if s.len() == 0 {
        0
    } else {
        byte_len(s.drop_last()) + char_width(s.last())
    }
}

/// `n` times the same character.
pub open spec fn repeated(c: char, n: int) -> Seq<char> {
    Seq::new(
        if n > 0 {
            n as nat
        } else {
            0
        },
        |i: int| c,
    )
}

/// A text, filled up with spaces to the given width.
pub open spec fn padded(s: Seq<char>, width: int) -> Seq<char> {
    s + repeated(' ', width - s.len())
}

/// How many bytes a text takes, if that can be counted.
fn count_bytes(s: &str) -> (n: u64)
    ensures
        n == byte_len(s@) || (n == u64::MAX && byte_len(s@) > u64::MAX),
{
    let chars = chars_of(s);
    let mut n: u64 = 0;
    let mut i: usize = 0;
    assert(byte_len(chars@.take(0)) == 0);
    while i < chars.len()
        invariant
            i <= chars@.len(),
            chars@ == s@,
            n == byte_len(chars@.take(i as int)),
        decreases chars@.len() - i,
    {
        let c = chars[i];
        let code: u32 = c as u32;
        let width: u64 = if code < 0x80 {
            1
        } else if code < 0x800 {
            2
        } else if code < 0x10000 {
            3
        } else {
            4
        };
        assert(chars@.take(i + 1).drop_last() == chars@.take(i as int));
        if n > u64::MAX - width {
            proof {
                prefix_is_shorter(chars@, i + 1);
            }
            return u64::MAX;
        }
        n = n + width;
        i = i + 1;
    }
    assert(chars@.take(chars@.len() as int) == chars@);
    n
}

proof fn prefix_is_shorter(s: Seq<char>, n: int)
    requires
        0 <= n <= s.len(),
    ensures
        byte_len(s.take(n)) <= byte_len(s),
    decreases s.len(),
{
    if n < s.len() {
        assert(s.take(n) == s.drop_last().take(n));
        prefix_is_shorter(s.drop_last(), n);
    } else {
        assert(s.take(n) == s);
    }
}

fn push_repeated(out: &mut String, c: char, n: u64)
    ensures
        final(out)@ == old(out)@ + repeated(c, n as int),
{
    let mut i: u64 = 0;
    assert(out@ =~= old(out)@ + repeated(c, 0));
    while i < n
        invariant
            i <= n,
            out@ == old(out)@ + repeated(c, i as int),
        decreases n - i,
    {
        out.push(c);
        i = i + 1;
        assert(out@ =~= old(out)@ + repeated(c, i as int));
    }
}

fn push_padded(out: &mut String, s: &str, width: u64)
    ensures
        final(out)@ == old(out)@ + padded(s@, width as int),
{
    out.append(s);
    let len: u64 = s.unicode_len() as u64;
    if len < width {
        push_repeated(out, ' ', width - len);
    } else {
        assert(repeated(' ', width - s@.len()) =~= Seq::empty());
    }
    assert(out@ =~= old(out)@ + padded(s@, width as int));
}

/// The greatest number of bytes of the names of the first `n` statistics.
pub open spec fn widest_name(stats: Seq<StatView>, n: int) -> nat
    decreases n,
{
    if n <= 0 {
        0
    } else {
        let rest = widest_name(stats, n - 1);
        if byte_len(stats[n - 1].name) > rest {
            byte_len(stats[n - 1].name)
        } else {
            rest
        }
    }
}

/// The greatest number of bytes of the values of the first `n` statistics.
pub open spec fn widest_value(stats: Seq<StatView>, n: int) -> nat
    decreases n,
{
    if n <= 0 {
        0
    } else {
        let rest = widest_value(stats, n - 1);
        if byte_len(value_text(stats[n - 1].value)) > rest {
            byte_len(value_text(stats[n - 1].value))
        } else {
            rest
        }
    }
}

/// Where a statistic is put among those that are in order of their names: after equal names.
pub open spec fn stat_place(stats: Seq<StatView>, name: Seq<char>, from: int) -> int
    decreases stats.len() - from,
{
    if from < 0 || from >= stats.len() {
        stats.len() as int
    } else if text::precedes(name, stats[from].name) {
        from
    } else {
        stat_place(stats, name, from + 1)
    }
}

/// The first `n` statistics in order of their names.
pub open spec fn stats_in_order(stats: Seq<StatView>, n: int) -> Seq<StatView>
    decreases n,
{
    if n <= 0 {
        Seq::empty()
    } else {
        let rest = stats_in_order(stats, n - 1);
        rest.insert(stat_place(rest, stats[n - 1].name, 0), stats[n - 1])
    }
}

/// The line of a statistic.
pub open spec fn stat_line(
    stat: StatView,
    indent: int,
    value_width: int,
    name_width: int,
) -> Seq<char> {
    padded(Seq::empty(), indent) + " (S) "@ + padded(value_text(stat.value), value_width) + " "@
        + padded(stat.name, name_width) + (if stat.description.len() == 0 {
        Seq::empty()
    } else {
        " - "@ + stat.description
    }) + "\n"@
}

/// The lines of the first `n` statistics.
pub open spec fn stat_lines(
    stats: Seq<StatView>,
    n: int,
    indent: int,
    value_width: int,
    name_width: int,
) -> Seq<char>
    decreases n,
{
    if n <= 0 {
        Seq::empty()
    } else {
        stat_lines(stats, n - 1, indent, value_width, name_width) + stat_line(
            stats[n - 1],
            indent,
            value_width,
            name_width,
        )
    }
}

/// The part of the report for the passes of one name.
pub open spec fn entry_text(entry: EntryView, indent: int) -> Seq<char> {
    let n = entry.stats.len() as int;
    padded(entry.name, indent) + "\n"@ + stat_lines(
        stats_in_order(entry.stats, n),
        n,
        indent,
        widest_value(entry.stats, n) as int,
        widest_name(entry.stats, n) as int,
    )
}

/// The parts of the report for the first `n` entries.
pub open spec fn entries_text(entries: Seq<EntryView>, n: int, indent: int) -> Seq<char>
    decreases n,
{
    if n <= 0 {
        Seq::empty()
    } else {
        entries_text(entries, n - 1, indent) + entry_text(entries[n - 1], indent)
    }
}

/// The line above and below the title of the report.
pub open spec fn ruler() -> Seq<char> {
    "=="@ + repeated('-', 73) + "==\n"@
}

/// What the report begins with.
pub open spec fn report_head() -> Seq<char> {
    ruler() + padded("... Pass statistics report ..."@, 50) + "\n"@ + ruler()
}

/// The report of the statistics of passes, by the names of the passes.
pub open spec fn report_text(infos: Seq<PassInfo>) -> Seq<char> {
    let entries = entries_of(infos, infos.len() as int);
    report_head() + entries_text(entries, entries.len() as int, 2)
}

/// A statistic with its value as text.
struct Rendered<'a> {
    stat: &'a AnyStatistic,
    value: String,
}

spec fn rendered_views(items: Seq<Rendered>) -> Seq<StatView> {
    items.map_values(|item: Rendered| stat_view(*item.stat))
}

spec fn values_match(items: Seq<Rendered>) -> bool {
    forall|i: int|
        0 <= i < items.len() ==> (#[trigger] items[i]).value@ == value_text(
            stat_view(*items[i].stat).value,
        )
}

/// The texts of a statistic are short enough to be printed in columns.
pub open spec fn printable(stats: Seq<StatView>) -> bool {
    forall|i: int|
        0 <= i < stats.len() ==> byte_len((#[trigger] stats[i]).name) < u64::MAX && byte_len(
            value_text(stats[i].value),
        ) < u64::MAX
}

fn render_stats<'a>(stats: &'a Vec<AnyStatistic>) -> (rendered: (Vec<Rendered<'a>>, u64, u64))
    requires
        printable(stat_views(stats@)),
    ensures
        rendered_views(rendered.0@) == stats_in_order(
            stat_views(stats@),
            stats@.len() as int,
        ),
        values_match(rendered.0@),
        rendered.1 == widest_value(stat_views(stats@), stats@.len() as int),
        rendered.2 == widest_name(stat_views(stats@), stats@.len() as int),
{
    let ghost views = stat_views(stats@);
    let mut items: Vec<Rendered> = Vec::new();
    let mut value_width: u64 = 0;
    let mut name_width: u64 = 0;
    let mut i: usize = 0;
    assert(rendered_views(items@) =~= stats_in_order(views, 0));
    while i < stats.len()
        invariant
            i <= stats@.len(),
            views == stat_views(stats@),
            printable(views),
            rendered_views(items@) == stats_in_order(views, i as int),
            values_match(items@),
            value_width == widest_value(views, i as int),
            name_width == widest_name(views, i as int),
        decreases stats@.len() - i,
    {
        let stat = &stats[i];
        let ghost view = views[i as int];
        assert(view == stat_view(*stat));
        assert(byte_len(view.name) < u64::MAX);
        let value = stat.pretty_print();
        let name = stat.name();
        let name_len: u64 = count_bytes(name);
        let value_len: u64 = count_bytes(value.as_str());
        if name_len > name_width {
            name_width = name_len;
        }
        if value_len > value_width {
            value_width = value_len;
        }
        let ghost before = items@;
        let ghost sorted = rendered_views(before);
        let mut at: usize = 0;
        while at < items.len() && !text::comes_before(name, items[at].stat.name())
            invariant
                at <= items@.len(),
                items@ == before,
                sorted == rendered_views(before),
                name@ == view.name,
                stat_place(sorted, view.name, 0) == stat_place(sorted, view.name, at as int),
            decreases items@.len() - at,
        {
            assert(sorted[at as int].name == before[at as int].stat.title());
            at = at + 1;
        }
        proof {
            if at < before.len() {
                assert(sorted[at as int].name == before[at as int].stat.title());
            }
            assert(stat_place(sorted, view.name, 0) == at);
        }
        let item = Rendered { stat, value };
        items.insert(at, item);
        proof {
            assert(rendered_views(items@) =~= sorted.insert(at as int, view));
            assert forall|k: int| 0 <= k < items@.len() implies (#[trigger] items@[k]).value@
                == value_text(stat_view(*items@[k].stat).value) by {
                if k < at {
                    assert(items@[k] == before[k]);
                } else if k > at {
                    assert(items@[k] == before[k - 1]);
                }
            }
        }
        i = i + 1;
    }
    (items, value_width, name_width)
}

proof fn ordering_keeps_count(stats: Seq<StatView>, n: int)
    requires
        0 <= n <= stats.len(),
    ensures
        stats_in_order(stats, n).len() == n,
    decreases n,
{
    if n > 0 {
        ordering_keeps_count(stats, n - 1);
        let rest = stats_in_order(stats, n - 1);
        stat_place_bounds(rest, stats[n - 1].name, 0);
    }
}

proof fn stat_place_bounds(stats: Seq<StatView>, name: Seq<char>, from: int)
    requires
        0 <= from <= stats.len(),
    ensures
        from <= stat_place(stats, name, from) <= stats.len(),
    decreases stats.len() - from,
{
    if from < stats.len() && !text::precedes(name, stats[from].name) {
        stat_place_bounds(stats, name, from + 1);
    }
}

/// Appends the part of the report for the passes of one name.
pub fn print_pass_entry(out: &mut String, indent: u64, pass: &str, stats: &Vec<AnyStatistic>)
    requires
        printable(stat_views(stats@)),
    ensures
        final(out)@ == old(out)@ + entry_text(
            EntryView { name: pass@, stats: stat_views(stats@) },
            indent as int,
        ),
{
    let ghost views = stat_views(stats@);
    let ghost n = stats@.len() as int;
    push_padded(out, pass, indent);
    out.append("\n");
    let ghost head = out@;
    let (items, value_width, name_width) = render_stats(stats);
    let ghost sorted = stats_in_order(views, n);
    proof {
        ordering_keeps_count(views, n);
        assert(rendered_views(items@).len() == items@.len());
    }
    let mut i: usize = 0;
    assert(out@ =~= head + stat_lines(sorted, 0, indent as int, value_width as int, name_width as int));
    while i < items.len()
        invariant
            i <= items@.len(),
            sorted == rendered_views(items@),
            values_match(items@),
            out@ == head + stat_lines(
                sorted,
                i as int,
                indent as int,
                value_width as int,
                name_width as int,
            ),
        decreases items@.len() - i,
    {
        let item = &items[i];
        let ghost stat = sorted[i as int];
        let ghost before = out@;
        assert(stat == stat_view(*item.stat));
        assert(item.value@ == value_text(stat.value));
        push_padded(out, "", indent);
        out.append(" (S) ");
        push_padded(out, item.value.as_str(), value_width);
        out.append(" ");
        push_padded(out, item.stat.name(), name_width);
        let description = item.stat.description();
        if description.unicode_len() > 0 {
            out.append(" - ");
            out.append(description);
        }
        out.append("\n");
        proof {
            reveal_strlit("");
            assert(""@ =~= Seq::<char>::empty());
            assert(out@ =~= before + stat_line(
                stat,
                indent as int,
                value_width as int,
                name_width as int,
            ));
        }
        i = i + 1;
        assert(out@ =~= head + stat_lines(
            sorted,
            i as int,
            indent as int,
            value_width as int,
            name_width as int,
        ));
    }
    assert(out@ =~= old(out)@ + entry_text(
        EntryView { name: pass@, stats: views },
        indent as int,
    ));
}

/// The texts of all entries are short enough to be printed in columns.
pub open spec fn all_printable(entries: Seq<EntryView>) -> bool {
    forall|i: int| 0 <= i < entries.len() ==> printable((#[trigger] entries[i]).stats)
}

fn push_ruler(out: &mut String)
    ensures
        final(out)@ == old(out)@ + ruler(),
{
    out.append("==");
    push_repeated(out, '-', 73);
    out.append("==\n");
    assert(out@ =~= old(out)@ + ruler());
}

impl OpPassManager {
    /// The report of the statistics that the passes collected, as a list that is sorted by the
    /// names of the passes. The statistics of passes of the same name are merged.
    pub fn print_statistics(&self, display_mode: PassDisplayMode) -> (out: String)
        requires
            display_mode == PassDisplayMode::List,
            stats_agree(leaves(tree::manager_tree(*self))),
            ({
                let infos = leaves(tree::manager_tree(*self));
                all_printable(entries_of(infos, infos.len() as int))
            }),
        ensures
            out@ == report_text(leaves(tree::manager_tree(*self))),
    {
        let ghost all = leaves(tree::manager_tree(*self));
        let mut infos: Vec<&PassInfo> = Vec::new();
        push_leaves(self, &mut infos);
        assert(referred(infos@) =~= all);
        let mut entries: Vec<StatEntry> = Vec::new();
        let mut i: usize = 0;
        assert(entry_views(entries@) =~= entries_of(all, 0));
        while i < infos.len()
            invariant
                i <= infos@.len(),
                referred(infos@) == all,
                stats_agree(all),
                entry_views(entries@) == entries_of(all, i as int),
            decreases infos@.len() - i,
        {
            let info = infos[i];
            assert(all[i as int] == *info);
            proof {
                assert forall|k: int|
                    0 <= k < entries@.len() && (#[trigger] entries@[k]).name@ == info.name@
                        && info.statistics@.len() > 0 implies entries@[k].stats@.len()
                    == info.statistics@.len() by {
                    entry_has_a_pass(all, i as int, k);
                    assert(entry_views(entries@)[k].name == entries@[k].name@);
                    assert(entry_views(entries@)[k].stats.len() == entries@[k].stats@.len());
                }
            }
            add_stats(&mut entries, info);
            i = i + 1;
        }
        let ghost views = entry_views(entries@);
        let mut out = String::new();
        push_ruler(&mut out);
        push_padded(&mut out, "... Pass statistics report ...", 50);
        out.append("\n");
        push_ruler(&mut out);
        assert(out@ =~= report_head());
        let mut k: usize = 0;
        assert(out@ =~= report_head() + entries_text(views, 0, 2));
        while k < entries.len()
            invariant
                k <= entries@.len(),
                views == entry_views(entries@),
                all_printable(views),
                out@ == report_head() + entries_text(views, k as int, 2),
            decreases entries@.len() - k,
        {
            let entry = &entries[k];
            assert(printable(views[k as int].stats));
            print_pass_entry(&mut out, 2, entry.name.as_str(), &entry.stats);
            k = k + 1;
            assert(out@ =~= report_head() + entries_text(views, k as int, 2));
        }
        out
    }
}

} // verus!
