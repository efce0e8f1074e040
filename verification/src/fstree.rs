//! A model of a directory tree and of the scan walk over it. The walk's
//! guarantees are stated and proved here: a target-named directory is
//! reported and not descended into, so no reported directory lies inside
//! another, and the event stream carries one terminal event after all the
//! finds.

use vstd::prelude::*;

use crate::deleter::sat_u64;
use crate::text::{chars_to_string, starts_with, str_to_chars};

verus! {

// ─── The tree ─────────────────────────────────────────────────────────────────

/// A directory tree as the walk sees it: named files with sizes, and named
/// directories with entries.
pub enum FsNode {
    File { name: String, size: u64 },
    Dir { name: String, entries: Vec<FsNode> },
}

/// The node's name.
pub open spec fn node_name(n: FsNode) -> Seq<char> {
    match n {
        FsNode::File { name, .. } => name@,
        FsNode::Dir { name, .. } => name@,
    }
}

/// A usable file or directory name: nonempty, without separators.
pub open spec fn spec_name_ok(name: Seq<char>) -> bool {
    name.len() > 0 && !name.contains('/')
}

/// Every name in the tree is usable and sibling names are distinct, as on a
/// real filesystem.
pub open spec fn spec_tree_wf(n: FsNode) -> bool
    decreases n,
{
    match n {
        FsNode::File { name, .. } => spec_name_ok(name@),
        FsNode::Dir { name, entries } => spec_name_ok(name@) && spec_forest_wf(entries@),
    }
}

/// Well-formedness of a directory's entries.
pub open spec fn spec_forest_wf(s: Seq<FsNode>) -> bool
    decreases s,
{
    &&& forall|i: int| 0 <= i < s.len() ==> spec_tree_wf(#[trigger] s[i])
    &&& forall|i: int, j: int|
        0 <= i < s.len() && 0 <= j < s.len() && i != j ==> node_name(s[i]) != node_name(s[j])
}

// ─── Sizes ────────────────────────────────────────────────────────────────────

/// Total size of the files in the subtree.
pub open spec fn spec_tree_size(n: FsNode) -> int
    decreases n,
{
    match n {
        FsNode::File { size, .. } => size as int,
        FsNode::Dir { entries, .. } => spec_forest_size(entries@),
    }
}

/// Total size of the files under a directory's entries.
pub open spec fn spec_forest_size(s: Seq<FsNode>) -> int
    decreases s,
{
    if s.len() == 0 {
        0
    } else {
        spec_forest_size(s.drop_last()) + spec_tree_size(s.last())
    }
}

/// Subtree sizes are never negative.
pub proof fn lemma_tree_size_nonneg(n: FsNode)
    ensures
        spec_tree_size(n) >= 0,
    decreases n,
{
    match n {
        FsNode::File { .. } => {},
        FsNode::Dir { entries, .. } => {
            lemma_forest_size_nonneg(entries@);
        },
    }
}

/// Forest sizes are never negative.
pub proof fn lemma_forest_size_nonneg(s: Seq<FsNode>)
    ensures
        spec_forest_size(s) >= 0,
    decreases s,
{
    if s.len() > 0 {
        lemma_forest_size_nonneg(s.drop_last());
        lemma_tree_size_nonneg(s.last());
    }
}

/// Size of a modelled subtree, saturating at the top of the range.
pub fn tree_size(n: &FsNode) -> (r: u64)
    ensures
        r == sat_u64(spec_tree_size(*n)),
    decreases *n,
{
    match n {
        FsNode::File { size, .. } => *size,
        FsNode::Dir { entries, .. } => forest_size(entries),
    }
}

/// Size of the files under the given entries, saturating at the top of the
/// range.
pub fn forest_size(s: &Vec<FsNode>) -> (r: u64)
    ensures
        r == sat_u64(spec_forest_size(s@)),
    decreases s@,
{
    let mut total: u64 = 0;
    for i in 0..s.len()
        invariant
            total == sat_u64(spec_forest_size(s@.take(i as int))),
    {
        proof {
            assert(s@.take(i + 1).drop_last() =~= s@.take(i as int));
            assert(s@.take(i + 1).last() == s@[i as int]);
            lemma_forest_size_nonneg(s@.take(i as int));
            lemma_tree_size_nonneg(s@[i as int]);
        }
        let sz = tree_size(&s[i]);
        if total > u64::MAX - sz {
            total = u64::MAX;
        } else {
            total = total + sz;
        }
    }
    proof {
        assert(s@.take(s@.len() as int) =~= s@);
    }
    total
}

// ─── The walk ─────────────────────────────────────────────────────────────────

/// One discovered directory of the model: its path and its total size.
pub ghost struct ScanItem {
    pub path: Seq<char>,
    pub size: int,
}

/// What the walk reports among the entries `s` of the directory whose own
/// path is `base`: a target-named child directory is reported with its total
/// size and not descended into; any other directory is walked on; files
/// report nothing, and the directory at `base` itself is never reported.
pub open spec fn spec_scan_forest(s: Seq<FsNode>, base: Seq<char>) -> Seq<ScanItem>
    decreases s,
{
    if s.len() == 0 {
        Seq::empty()
    } else {
        spec_scan_forest(s.drop_last(), base) + spec_scan_node(s.last(), base)
    }
}

/// What the walk reports for one child of the directory at `base`.
pub open spec fn spec_scan_node(c: FsNode, base: Seq<char>) -> Seq<ScanItem>
    decreases c,
{
    match c {
        FsNode::File { .. } => Seq::empty(),
        FsNode::Dir { name, entries } => {
            let p = base + seq!['/'] + name@;
            if name@ == "node_modules"@ {
                seq![ScanItem { path: p, size: spec_forest_size(entries@) }]
            } else {
                spec_scan_forest(entries@, p)
            }
        },
    }
}

/// A directory the executable scan reports.
pub struct FoundDir {
    pub path: String,
    pub size: u64,
}

/// The executable walk over the model: reports exactly what
/// `spec_scan_forest` describes, with sizes saturating at the top of the
/// range.
pub fn scan_forest(s: &Vec<FsNode>, base: &Vec<char>) -> (r: Vec<FoundDir>)
    ensures
        r@.len() == spec_scan_forest(s@, base@).len(),
        forall|k: int|
            0 <= k < r@.len() ==> (#[trigger] r@[k]).path@ == spec_scan_forest(s@, base@)[k].path
                && r@[k].size == sat_u64(spec_scan_forest(s@, base@)[k].size),
    decreases s@,
{
    let ghost full = spec_scan_forest(s@, base@);
    let mut out: Vec<FoundDir> = Vec::new();
    for i in 0..s.len()
        invariant
            full == spec_scan_forest(s@, base@),
            out@.len() == spec_scan_forest(s@.take(i as int), base@).len(),
            forall|k: int|
                0 <= k < out@.len() ==> (#[trigger] out@[k]).path@ == spec_scan_forest(
                    s@.take(i as int),
                    base@,
                )[k].path && out@[k].size == sat_u64(
                    spec_scan_forest(s@.take(i as int), base@)[k].size,
                ),
    {
        let ghost sofar = spec_scan_forest(s@.take(i as int), base@);
        proof {
            assert(s@.take(i + 1).drop_last() =~= s@.take(i as int));
            assert(s@.take(i + 1).last() == s@[i as int]);
            assert(s@.take(i + 1).len() == i + 1);
            assert(spec_scan_forest(s@.take(i + 1), base@) == spec_scan_forest(
                s@.take(i + 1).drop_last(),
                base@,
            ) + spec_scan_node(s@.take(i + 1).last(), base@));
            assert(spec_scan_forest(s@.take(i + 1), base@) == sofar + spec_scan_node(
                s@[i as int],
                base@,
            ));
        }
        match &s[i] {
            FsNode::File { .. } => {
                proof {
                    assert(spec_scan_forest(s@.take(i + 1), base@) =~= sofar);
                }
            },
            FsNode::Dir { name, entries } => {
                let name_chars = str_to_chars(name);
                let p = crate::scanner::join_exec(base, &name_chars);
                if crate::is_target_dir_name(name.as_str()) {
                    let size = forest_size(entries);
                    out.push(FoundDir { path: chars_to_string(&p), size });
                    proof {
                        assert(spec_scan_forest(s@.take(i + 1), base@) =~= sofar.push(
                            (ScanItem {
                                path: base@ + seq!['/'] + name@,
                                size: spec_forest_size(entries@),
                            }),
                        ));
                    }
                } else {
                    let mut sub = scan_forest(entries, &p);
                    let ghost subspec = spec_scan_forest(entries@, p@);
                    let ghost subv = sub@;
                    let ghost out0 = out@;
                    out.append(&mut sub);
                    proof {
                        assert(spec_scan_forest(s@.take(i + 1), base@) =~= sofar + subspec);
                        assert forall|k: int| 0 <= k < out@.len() implies (#[trigger] out@[k]).path@
                            == (sofar + subspec)[k].path && out@[k].size == sat_u64(
                            (sofar + subspec)[k].size,
                        ) by {
                            if k < out0.len() {
                                assert(out@[k] == out0[k]);
                            } else {
                                assert(out@[k] == subv[k - out0.len()]);
                            }
                        }
                    }
                }
            },
        }
    }
    proof {
        assert(s@.take(s@.len() as int) =~= s@);
    }
    out
}

// ─── The event stream ─────────────────────────────────────────────────────────

/// One scan event as the engine's protocol sees it.
pub ghost enum ScanEvent {
    Found(ScanItem),
    Finished,
}

/// The full event stream of a scan over the entries of the root directory:
/// one `Found` per reported directory, in discovery order, then the
/// terminal event.
pub open spec fn spec_scan_events(s: Seq<FsNode>, base: Seq<char>) -> Seq<ScanEvent> {
    spec_scan_forest(s, base).map_values(|it: ScanItem| ScanEvent::Found(it)).push(
        ScanEvent::Finished,
    )
}

/// The terminal event of a scan appears exactly once, at the end, after
/// zero or more finds.
pub proof fn lemma_single_terminal_event(s: Seq<FsNode>, base: Seq<char>)
    ensures
        spec_scan_events(s, base).len() > 0,
        spec_scan_events(s, base).last() == ScanEvent::Finished,
        forall|k: int|
            0 <= k < spec_scan_events(s, base).len() - 1 ==> spec_scan_events(s, base)[k]
                is Found,
{
}

// ─── No reported directory inside another ─────────────────────────────────────

/// The path `p` lies strictly inside the directory at `q`.
pub open spec fn spec_nested_inside(p: Seq<char>, q: Seq<char>) -> bool {
    starts_with(p, q + seq!['/'])
}

/// No item of the report lies inside another item of the report.
pub open spec fn items_non_nested(items: Seq<ScanItem>) -> bool {
    forall|i: int, j: int|
        0 <= i < items.len() && 0 <= j < items.len() && i != j ==> !spec_nested_inside(
            items[j].path,
            items[i].path,
        )
}

/// The path `p` names something at or under the child `name` of the
/// directory at `base`: it extends `base/name`, and what follows, if
/// anything, begins at a separator.
spec fn seg_ok(p: Seq<char>, base: Seq<char>, name: Seq<char>) -> bool {
    &&& starts_with(p, base + seq!['/'] + name)
    &&& (p.len() == base.len() + 1 + name.len() || p[base.len() as int + 1 + name.len() as int]
        == '/')
}

proof fn lemma_starts_with_index(h: Seq<char>, n: Seq<char>)
    requires
        starts_with(h, n),
    ensures
        forall|t: int| 0 <= t < n.len() ==> h[t] == n[t],
{
    assert forall|t: int| 0 <= t < n.len() implies h[t] == n[t] by {
        assert(h.subrange(0, n.len() as int)[t] == n[t]);
    }
}

/// Paths under different children of one directory never contain each
/// other: they part ways inside the name segment.
proof fn lemma_diverging_segments(
    p: Seq<char>,
    q: Seq<char>,
    base: Seq<char>,
    n1: Seq<char>,
    n2: Seq<char>,
)
    requires
        seg_ok(p, base, n1),
        seg_ok(q, base, n2),
        spec_name_ok(n1),
        spec_name_ok(n2),
        n1 != n2,
    ensures
        !spec_nested_inside(q, p),
{
    let b = base.len() as int;
    let x1 = base + seq!['/'] + n1;
    let x2 = base + seq!['/'] + n2;
    lemma_starts_with_index(p, x1);
    lemma_starts_with_index(q, x2);
    if spec_nested_inside(q, p) {
        lemma_starts_with_index(q, p + seq!['/']);
        assert(q.len() > p.len());
        assert(forall|t: int| 0 <= t < p.len() ==> q[t] == p[t]);
        assert(q[p.len() as int] == '/');
        if n1.len() == n2.len() {
            assert forall|t: int| 0 <= t < n1.len() implies n1[t] == n2[t] by {
                assert(p[b + 1 + t] == x1[b + 1 + t]);
                assert(x1[b + 1 + t] == n1[t]);
                assert(q[b + 1 + t] == n2[t]);
                assert(b + 1 + t < p.len());
            }
            assert(n1 =~= n2);
        } else if n1.len() < n2.len() {
            let pos = b + 1 + n1.len() as int;
            assert(pos <= p.len());
            if p.len() == pos {
                assert(q[pos] == '/');
            } else {
                assert(p[pos] == '/');
                assert(q[pos] == '/');
            }
            assert(q[pos] == x2[pos]);
            assert(x2[pos] == n2[n1.len() as int]);
            assert(n2.contains('/')) by {
                assert(n2[n1.len() as int] == '/');
            }
        } else {
            let pos = b + 1 + n2.len() as int;
            assert(pos < b + 1 + n1.len());
            assert(b + 1 + n1.len() <= p.len());
            assert(pos < q.len());
            assert(q[pos] == '/');
            assert(q[pos] == p[pos]);
            assert(p[pos] == x1[pos]);
            assert(x1[pos] == n1[n2.len() as int]);
            assert(n1.contains('/')) by {
                assert(n1[n2.len() as int] == '/');
            }
        }
    }
}

/// What the walk reports for one child is localised under that child's name
/// and contains no nesting among itself.
proof fn lemma_scan_node_ok(c: FsNode, base: Seq<char>)
    requires
        spec_tree_wf(c),
    ensures
        forall|k: int|
            0 <= k < spec_scan_node(c, base).len() ==> seg_ok(
                #[trigger] spec_scan_node(c, base)[k].path,
                base,
                node_name(c),
            ),
        items_non_nested(spec_scan_node(c, base)),
    decreases c,
{
    match c {
        FsNode::File { .. } => {},
        FsNode::Dir { name, entries } => {
            let p = base + seq!['/'] + name@;
            if name@ == "node_modules"@ {
                let items = spec_scan_node(c, base);
                assert(items.len() == 1);
                assert(items[0].path == p);
                assert(p.subrange(0, p.len() as int) =~= p);
                assert(seg_ok(p, base, name@));
            } else {
                lemma_scan_forest_ok(entries@, p);
                let items = spec_scan_forest(entries@, p);
                assert(spec_scan_node(c, base) == items);
                assert forall|k: int| 0 <= k < items.len() implies seg_ok(
                    #[trigger] items[k].path,
                    base,
                    name@,
                ) by {
                    let childname = node_name(entries@[choose|t: int|
                        0 <= t < entries@.len() && seg_ok(items[k].path, p, node_name(entries@[t]))]);
                    let t = choose|t: int|
                        0 <= t < entries@.len() && seg_ok(items[k].path, p, node_name(entries@[t]));
                    assert(seg_ok(items[k].path, p, node_name(entries@[t])));
                    let ip = items[k].path;
                    // ip extends p + '/' + childname, so it extends p and has a
                    // separator right after p.
                    let x = p + seq!['/'] + node_name(entries@[t]);
                    lemma_starts_with_index(ip, x);
                    assert(ip.len() >= x.len());
                    assert forall|u: int| 0 <= u < p.len() implies ip[u] == p[u] by {
                        assert(ip[u] == x[u]);
                    }
                    assert(ip.subrange(0, p.len() as int) =~= p);
                    assert(starts_with(ip, base + seq!['/'] + name@));
                    assert(ip[p.len() as int] == x[p.len() as int]);
                    assert(x[p.len() as int] == '/');
                }
            }
        },
    }
}

/// What the walk reports among sibling entries: each item is localised
/// under the child it came from, and no item lies inside another.
proof fn lemma_scan_forest_ok(s: Seq<FsNode>, base: Seq<char>)
    requires
        spec_forest_wf(s),
    ensures
        forall|k: int|
            0 <= k < spec_scan_forest(s, base).len() ==> exists|t: int|
                0 <= t < s.len() && seg_ok(
                    #[trigger] spec_scan_forest(s, base)[k].path,
                    base,
                    node_name(s[t]),
                ),
        items_non_nested(spec_scan_forest(s, base)),
    decreases s,
{
    if s.len() == 0 {
    } else {
        let prev_nodes = s.drop_last();
        let lastnode = s.last();
        let prev = spec_scan_forest(prev_nodes, base);
        let lastitems = spec_scan_node(lastnode, base);
        let items = spec_scan_forest(s, base);
        assert(items == prev + lastitems);
        assert(spec_forest_wf(prev_nodes)) by {
            assert(forall|i: int| 0 <= i < prev_nodes.len() ==> prev_nodes[i] == s[i]);
        }
        lemma_scan_forest_ok(prev_nodes, base);
        assert(spec_tree_wf(lastnode));
        lemma_scan_node_ok(lastnode, base);
        let lastidx = s.len() - 1;
        assert forall|k: int| 0 <= k < items.len() implies exists|t: int|
            0 <= t < s.len() && seg_ok(#[trigger] items[k].path, base, node_name(s[t])) by {
            if k < prev.len() {
                assert(items[k] == prev[k]);
                let t = choose|t: int|
                    0 <= t < prev_nodes.len() && seg_ok(prev[k].path, base, node_name(prev_nodes[t]));
                assert(seg_ok(prev[k].path, base, node_name(prev_nodes[t])));
                assert(prev_nodes[t] == s[t]);
                assert(seg_ok(items[k].path, base, node_name(s[t])));
            } else {
                assert(items[k] == lastitems[k - prev.len()]);
                assert(seg_ok(items[k].path, base, node_name(lastnode)));
                assert(s[lastidx] == lastnode);
                assert(seg_ok(items[k].path, base, node_name(s[lastidx])));
            }
        }
        assert forall|i: int, j: int|
            0 <= i < items.len() && 0 <= j < items.len() && i != j implies !spec_nested_inside(
            items[j].path,
            items[i].path,
        ) by {
            if i < prev.len() && j < prev.len() {
                assert(items[i] == prev[i]);
                assert(items[j] == prev[j]);
                assert(!spec_nested_inside(prev[j].path, prev[i].path));
            } else if i >= prev.len() && j >= prev.len() {
                assert(items[i] == lastitems[i - prev.len()]);
                assert(items[j] == lastitems[j - prev.len()]);
                assert(!spec_nested_inside(
                    lastitems[j - prev.len()].path,
                    lastitems[i - prev.len()].path,
                ));
            } else {
                let a = if i < prev.len() {
                    i
                } else {
                    j
                };
                let z = if i < prev.len() {
                    j
                } else {
                    i
                };
                // `a` indexes an item from an earlier sibling, `z` one from
                // the last; their child names differ, so neither nests in
                // the other.
                assert(items[a] == prev[a]);
                assert(items[z] == lastitems[z - prev.len()]);
                let t = choose|t: int|
                    0 <= t < prev_nodes.len() && seg_ok(prev[a].path, base, node_name(prev_nodes[t]));
                assert(seg_ok(prev[a].path, base, node_name(prev_nodes[t])));
                assert(seg_ok(items[z].path, base, node_name(lastnode)));
                assert(prev_nodes[t] == s[t]);
                assert(node_name(s[t]) != node_name(s[lastidx]));
                assert(spec_name_ok(node_name(s[t]))) by {
                    assert(spec_tree_wf(s[t]));
                }
                assert(spec_name_ok(node_name(lastnode))) by {
                    assert(spec_tree_wf(s[lastidx]));
                }
                lemma_diverging_segments(
                    items[a].path,
                    items[z].path,
                    base,
                    node_name(s[t]),
                    node_name(lastnode),
                );
                lemma_diverging_segments(
                    items[z].path,
                    items[a].path,
                    base,
                    node_name(lastnode),
                    node_name(s[t]),
                );
            }
        }
    }
}

/// The set of reported directories never includes one nested inside
/// another: a reported directory is not descended into, so everything below
/// it stays unreported.
pub proof fn lemma_scan_reports_not_nested(s: Seq<FsNode>, base: Seq<char>)
    requires
        spec_forest_wf(s),
    ensures
        items_non_nested(spec_scan_forest(s, base)),
{
    lemma_scan_forest_ok(s, base);
}

/// The same, read off the executable walk's output: any sequence of paths
/// that matches the report — as `scan_forest` promises of its result — has
/// no path inside another.
pub proof fn lemma_scan_paths_not_nested(s: Seq<FsNode>, base: Seq<char>, paths: Seq<Seq<char>>)
    requires
        spec_forest_wf(s),
        paths.len() == spec_scan_forest(s, base).len(),
        forall|k: int|
            0 <= k < paths.len() ==> #[trigger] paths[k] == spec_scan_forest(s, base)[k].path,
    ensures
        forall|i: int, j: int|
            0 <= i < paths.len() && 0 <= j < paths.len() && i != j ==> !spec_nested_inside(
                paths[j],
                paths[i],
            ),
{
    lemma_scan_forest_ok(s, base);
}

} // verus!
