//! What is shown before a plan runs: the destination tree, the conflicts, the files
//! left out, and previews of folders that need answers.
use vstd::prelude::*;

use crate::config::str_eq;
use crate::order::{group_by_key, indices_with_key, is_grouping, is_sorted, lex_le, lex_lt, lemma_lex_lt_le, lemma_lex_irreflexive, lemma_lex_total, lemma_lex_trans, members_view, sort_strings, str_less};
use crate::parser::MediaInfo;
use crate::paths::{file_name, file_name_of, first_component, first_component_of, parent, parent_of, strip_prefix, stripped};
use crate::planner::{details_view, skips_view, ConflictKind, Plan, UnparseableItem, UnparseableReason};
use crate::resolve::ShowPromptGroup;
use crate::text::{chars_of, concat, copy_str, decimal, join_strings, join_with, string_from_range, usize_to_string};

verus! {

broadcast use vstd::seq_lib::group_to_multiset_ensures;

// ---------------------------------------------------------------------------
// Shortening long names
// ---------------------------------------------------------------------------

/// `value` when it has at most `max_len` characters (or `max_len` is below 8); else its
/// first and last `(max_len - 3) / 2` characters around `...`.
pub open spec fn truncated(value: Seq<char>, max_len: nat) -> Seq<char> {
    if value.len() <= max_len || max_len < 8 {
        value
    } else {
        let keep = (max_len - 3) / 2;
        value.subrange(0, keep as int) + "..."@ + value.subrange(value.len() - keep, value.len() as int)
    }
}

pub fn truncate_middle(value: &str, max_len: usize) -> (r: String)
    ensures
        r@ == truncated(value@, max_len as nat),
{
    let cs = chars_of(value);
    let n = cs.len();
    if n <= max_len || max_len < 8 {
        return copy_str(value);
    }
    let keep = (max_len - 3) / 2;
    let start = string_from_range(&cs, 0, keep);
    let end = string_from_range(&cs, n - keep, n);
    let mut out = concat(start.as_str(), "...");
    out.append(end.as_str());
    out
}

// ---------------------------------------------------------------------------
// The destination tree
// ---------------------------------------------------------------------------

/// The first component of the first destination below `destination`.
pub open spec fn collection_name(plan: Plan, destination: Seq<char>) -> Option<Seq<char>> {
    if plan.operations@.len() == 0 {
        None
    } else {
        match stripped(plan.operations@[0].destination@, destination) {
            Some(rel) => first_component_of(rel),
            None => None,
        }
    }
}

pub fn infer_collection_name(plan: &Plan, destination: &str) -> (r: Option<String>)
    ensures
        r.deep_view() == collection_name(*plan, destination@),
{
    if plan.operations.len() == 0 {
        return None;
    }
    match strip_prefix(plan.operations[0].destination.as_str(), destination) {
        Some(rel) => first_component(rel.as_str()),
        None => None,
    }
}

/// A destination as shown: below `destination` when it lies there.
pub open spec fn shown_path(dest: Seq<char>, destination: Seq<char>) -> Seq<char> {
    match stripped(dest, destination) {
        Some(rel) => rel,
        None => dest,
    }
}

/// The folder a destination is listed under (`.` for none).
pub open spec fn shown_folder(dest: Seq<char>, destination: Seq<char>) -> Seq<char> {
    match parent_of(shown_path(dest, destination)) {
        Some(p) => p,
        None => "."@,
    }
}

/// The name a destination is listed by.
pub open spec fn shown_name(dest: Seq<char>, destination: Seq<char>) -> Seq<char> {
    match file_name_of(shown_path(dest, destination)) {
        Some(n) => n,
        None => shown_path(dest, destination),
    }
}

/// One listed file: its name and whether its destination is taken.
#[derive(Debug, Clone)]
pub struct PreviewFile {
    pub name: String,
    pub conflict: bool,
}

impl View for PreviewFile {
    type V = (Seq<char>, bool);

    open spec fn view(&self) -> (Seq<char>, bool) {
        (self.name@, self.conflict)
    }
}

pub open spec fn files_view(v: Seq<PreviewFile>) -> Seq<(Seq<char>, bool)> {
    v.map_values(|f: PreviewFile| f@)
}

/// Names in ascending order.
pub open spec fn files_sorted(v: Seq<(Seq<char>, bool)>) -> bool {
    forall|i: int, j: int| 0 <= i < j < v.len() ==> lex_le(#[trigger] v[i].0, #[trigger] v[j].0)
}

/// The files of `v` named `name`, in their order in `v`.
pub open spec fn named(v: Seq<(Seq<char>, bool)>, name: Seq<char>) -> Seq<(Seq<char>, bool)> {
    v.filter(|e: (Seq<char>, bool)| e.0 == name)
}

/// Files of one name keep their relative order.
pub open spec fn same_order_per_name(r: Seq<(Seq<char>, bool)>, v: Seq<(Seq<char>, bool)>) -> bool {
    forall|name: Seq<char>| #[trigger] named(r, name) == named(v, name)
}

/// The files in ascending order of name; files of one name stay in their order.
pub fn sort_files(v: Vec<PreviewFile>) -> (r: Vec<PreviewFile>)
    ensures
        files_sorted(files_view(r@)),
        files_view(r@).to_multiset() == files_view(v@).to_multiset(),
        same_order_per_name(files_view(r@), files_view(v@)),
{
    let mut out: Vec<PreviewFile> = Vec::new();
    let ghost all = files_view(v@);
    assert(files_view(out@) =~= Seq::<(Seq<char>, bool)>::empty());
    assert(all.subrange(0, 0) =~= Seq::<(Seq<char>, bool)>::empty());
    let n = v.len();
    let mut i: usize = 0;
    while i < n
        invariant
            n == v.len(),
            all == files_view(v@),
            i <= n,
            files_sorted(files_view(out@)),
            files_view(out@).to_multiset() == all.subrange(0, i as int).to_multiset(),
            same_order_per_name(files_view(out@), all.subrange(0, i as int)),
        decreases n - i,
    {
        let x = &v[i];
        let mut j: usize = 0;
        while j < out.len() && !str_less(x.name.as_str(), out[j].name.as_str())
            invariant
                j <= out.len(),
                forall|k: int| 0 <= k < j ==> lex_le(#[trigger] files_view(out@)[k].0, x.name@),
            decreases out.len() - j,
        {
            j = j + 1;
        }
        let ghost old_out = files_view(out@);
        let item = PreviewFile { name: copy_str(x.name.as_str()), conflict: x.conflict };
        out.insert(j, item);
        let ghost new_out = files_view(out@);
        assert(new_out =~= old_out.insert(j as int, x@));
        proof {
            old_out.insert_ensures(j as int, x@);
            assert forall|a: int, b: int| 0 <= a < b < new_out.len() implies lex_le(#[trigger] new_out[a].0, #[trigger] new_out[b].0) by {
                if b < j {
                } else if b == j {
                } else {
                    if a <= j && j < old_out.len() {
                        assert(lex_lt(x.name@, old_out[j as int].0));
                        assert(new_out[b] == old_out[b - 1]);
                        if b - 1 > j {
                            assert(lex_le(old_out[j as int].0, old_out[b - 1].0));
                        } else {
                            lemma_lex_irreflexive(old_out[j as int].0);
                        }
                        lemma_lex_lt_le(x.name@, old_out[j as int].0, new_out[b].0);
                        lemma_lex_total(x.name@, new_out[b].0);
                        if a < j {
                            if lex_lt(new_out[b].0, new_out[a].0) {
                                lemma_lex_total(new_out[a].0, x.name@);
                                if new_out[a].0 != x.name@ {
                                    lemma_lex_trans(new_out[b].0, new_out[a].0, x.name@);
                                }
                            }
                        }
                    }
                }
            }
            assert(all.subrange(0, i + 1) =~= all.subrange(0, i as int).push(x@));
            lemma_insert_keeps_order(old_out, all.subrange(0, i as int), j as int, x@);
        }
        i = i + 1;
    }
    assert(all.subrange(0, n as int) =~= all);
    out
}

/// Inserting `x` after every file whose name is at most its own, and before every file
/// with a greater name, appends it to the files of its name.
proof fn lemma_insert_keeps_order(
    out: Seq<(Seq<char>, bool)>,
    seen: Seq<(Seq<char>, bool)>,
    j: int,
    x: (Seq<char>, bool),
)
    requires
        0 <= j <= out.len(),
        files_sorted(out),
        j < out.len() ==> lex_lt(x.0, out[j].0),
        same_order_per_name(out, seen),
    ensures
        same_order_per_name(out.insert(j, x), seen.push(x)),
{
    let head = out.take(j);
    let tail = out.skip(j);
    assert(out =~= head + tail);
    assert(out.insert(j, x) =~= head + seq![x] + tail);
    assert forall|name: Seq<char>| #[trigger] named(out.insert(j, x), name) == named(seen.push(x), name) by {
        let pred = |e: (Seq<char>, bool)| e.0 == name;
        Seq::filter_distributes_over_add(head + seq![x], tail, pred);
        Seq::filter_distributes_over_add(head, seq![x], pred);
        Seq::filter_distributes_over_add(head, tail, pred);
        seen.lemma_filter_push(x, pred);
        Seq::<(Seq<char>, bool)>::empty().lemma_filter_push(x, pred);
        assert(Seq::<(Seq<char>, bool)>::empty().push(x) =~= seq![x]);
        reveal(Seq::filter);
        assert(Seq::<(Seq<char>, bool)>::empty().filter(pred) =~= Seq::<(Seq<char>, bool)>::empty());
        assert(named(out, name) == named(seen, name));
        if x.0 == name {
            assert forall|m: int| 0 <= m < tail.len() implies !pred(#[trigger] tail[m]) by {
                assert(tail[m] == out[j + m]);
                if m > 0 {
                    assert(lex_le(out[j].0, out[j + m].0));
                    lemma_lex_lt_le(x.0, out[j].0, out[j + m].0);
                }
                lemma_lex_irreflexive(x.0);
            }
            tail.lemma_all_neg_filter_empty(pred);
            assert(tail.filter(pred) =~= Seq::<(Seq<char>, bool)>::empty());
        }
    }
}

/// One folder of the destination tree, with its files.
#[derive(Debug, Clone)]
pub struct PreviewGroup {
    pub folder: String,
    pub files: Vec<PreviewFile>,
}

/// What is shown of a plan before it runs.
#[derive(Debug, Clone)]
pub struct PlanPreview {
    pub collection_name: Option<String>,
    pub groups: Vec<PreviewGroup>,
    pub conflict_count: usize,
    pub existing_file_conflicts: usize,
    pub existing_directory_conflicts: usize,
    pub parent_path_file_conflicts: usize,
    pub skipped_groups: Vec<SkippedGroupSummary>,
    pub visible_unparseable: Vec<UnparseableItem>,
    pub operation_count: usize,
    pub unparseable_count: usize,
}

/// The listed file for operation `k`.
pub open spec fn listed_file(plan: Plan, destination: Seq<char>, k: int) -> (Seq<char>, bool) {
    let dest = plan.operations@[k].destination@;
    (shown_name(dest, destination), plan.conflicts@.map_values(|c: String| c@).contains(dest))
}

/// The listed files for the operations at `idx`.
pub open spec fn listed_files(plan: Plan, destination: Seq<char>, idx: Seq<usize>) -> Seq<(Seq<char>, bool)> {
    Seq::new(idx.len(), |q: int| listed_file(plan, destination, idx[q] as int))
}

/// The folder each operation is listed under.
pub open spec fn shown_folders(plan: Plan, destination: Seq<char>) -> Seq<Option<Seq<char>>> {
    Seq::new(plan.operations@.len(), |k: int| Some(shown_folder(plan.operations@[k].destination@, destination)))
}

pub open spec fn group_folders(groups: Seq<PreviewGroup>) -> Seq<Seq<char>> {
    groups.map_values(|g: PreviewGroup| g.folder@)
}

pub open spec fn summary_folders(groups: Seq<SkippedGroupSummary>) -> Seq<Seq<char>> {
    groups.map_values(|g: SkippedGroupSummary| g.parent_path@)
}

/// `groups` are the folders of the destinations in ascending order, each with its files
/// in ascending order of name; files of one name keep the order of their operations.
pub open spec fn is_tree(plan: Plan, destination: Seq<char>, groups: Seq<PreviewGroup>) -> bool {
    exists|members: Seq<Seq<usize>>|
        {
            &&& #[trigger] is_grouping(shown_folders(plan, destination), group_folders(groups), members)
            &&& forall|g: int|
                0 <= g < groups.len() ==> {
                    &&& files_sorted(files_view((#[trigger] groups[g]).files@))
                    &&& files_view(groups[g].files@).to_multiset() == listed_files(plan, destination, members[g]).to_multiset()
                    &&& same_order_per_name(files_view(groups[g].files@), listed_files(plan, destination, members[g]))
                }
        }
}

/// Whether `p` is one of the plan's conflicts.
fn is_conflict(plan: &Plan, p: &str) -> (r: bool)
    ensures
        r == plan.conflicts@.map_values(|c: String| c@).contains(p@),
{
    let ghost cs = plan.conflicts@.map_values(|c: String| c@);
    let mut k: usize = 0;
    while k < plan.conflicts.len()
        invariant
            cs == plan.conflicts@.map_values(|c: String| c@),
            k <= plan.conflicts@.len(),
            forall|q: int| 0 <= q < k ==> cs[q] != p@,
        decreases plan.conflicts.len() - k,
    {
        if str_eq(plan.conflicts[k].as_str(), p) {
            assert(cs[k as int] == p@);
            return true;
        }
        k = k + 1;
    }
    false
}

fn shown(dest: &str, destination: &str) -> (r: String)
    ensures
        r@ == shown_path(dest@, destination@),
{
    match strip_prefix(dest, destination) {
        Some(rel) => rel,
        None => copy_str(dest),
    }
}

proof fn lemma_members_below(keys: Seq<Option<Seq<char>>>, k: Seq<char>)
    requires
        keys.len() <= usize::MAX,
    ensures
        forall|j: int| 0 <= j < indices_with_key(keys, k).len() ==> (#[trigger] indices_with_key(keys, k)[j]) < keys.len(),
    decreases keys.len(),
{
    if keys.len() > 0 {
        let prev = indices_with_key(keys.drop_last(), k);
        lemma_members_below(keys.drop_last(), k);
        assert forall|j: int| 0 <= j < indices_with_key(keys, k).len() implies (#[trigger] indices_with_key(keys, k)[j]) < keys.len() by {
            if j < prev.len() {
                assert(indices_with_key(keys, k)[j] == prev[j]);
            }
        }
    }
}

/// The destination tree of a plan.
pub fn preview_groups(plan: &Plan, destination: &str) -> (r: Vec<PreviewGroup>)
    ensures
        is_tree(*plan, destination@, r@),
{
    let ghost keys = shown_folders(*plan, destination@);
    let mut folders: Vec<Option<String>> = Vec::new();
    let mut k: usize = 0;
    while k < plan.operations.len()
        invariant
            keys == shown_folders(*plan, destination@),
            k <= plan.operations@.len(),
            folders.deep_view() == keys.take(k as int),
        decreases plan.operations.len() - k,
    {
        let rel = shown(plan.operations[k].destination.as_str(), destination);
        let folder = match parent(rel.as_str()) {
            Some(p) => p,
            None => copy_str("."),
        };
        let ghost before = folders.deep_view();
        folders.push(Some(folder));
        assert(folders.deep_view() =~= before.push(keys[k as int]));
        assert(keys.take(k + 1) =~= keys.take(k as int).push(keys[k as int]));
        k = k + 1;
    }
    assert(keys.take(keys.len() as int) =~= keys);
    let (gk, gm) = group_by_key(&folders);
    let ghost gkv = gk.deep_view();
    let ghost gmv = members_view(gm@);
    let mut groups: Vec<PreviewGroup> = Vec::new();
    let n_ops = plan.operations.len();
    let mut g: usize = 0;
    while g < gk.len()
        invariant
            keys == shown_folders(*plan, destination@),
            keys.len() == plan.operations@.len(),
            keys.len() == n_ops,
            gkv == gk.deep_view(),
            gmv == members_view(gm@),
            is_grouping(keys, gkv, gmv),
            g <= gk.len(),
            groups@.len() == g,
            forall|h: int|
                0 <= h < g ==> {
                    &&& (#[trigger] groups@[h]).folder@ == gkv[h]
                    &&& files_sorted(files_view(groups@[h].files@))
                    &&& files_view(groups@[h].files@).to_multiset() == listed_files(*plan, destination@, gmv[h]).to_multiset()
                    &&& same_order_per_name(files_view(groups@[h].files@), listed_files(*plan, destination@, gmv[h]))
                },
        decreases gk.len() - g,
    {
        let members = &gm[g];
        assert(members@ == gmv[g as int]);
        proof {
            lemma_members_below(keys, gkv[g as int]);
        }
        let mut files: Vec<PreviewFile> = Vec::new();
        let mut j: usize = 0;
        while j < members.len()
            invariant
                members@ == indices_with_key(keys, gkv[g as int]),
                keys.len() == plan.operations@.len(),
                forall|q: int| 0 <= q < members@.len() ==> (#[trigger] members@[q]) < plan.operations@.len(),
                j <= members.len(),
                files_view(files@) == listed_files(*plan, destination@, members@.take(j as int)),
            decreases members.len() - j,
        {
            let op = &plan.operations[members[j]];
            let rel = shown(op.destination.as_str(), destination);
            let name = match file_name(rel.as_str()) {
                Some(n) => n,
                None => rel,
            };
            let conflict = is_conflict(plan, op.destination.as_str());
            let f = PreviewFile { name, conflict };
            let ghost before = files_view(files@);
            files.push(f);
            assert(files_view(files@) =~= before.push(f@));
            assert(listed_files(*plan, destination@, members@.take(j + 1)) =~= listed_files(
                *plan,
                destination@,
                members@.take(j as int),
            ).push(f@));
            j = j + 1;
        }
        assert(members@.take(members@.len() as int) =~= members@);
        let sorted = sort_files(files);
        groups.push(PreviewGroup { folder: copy_str(gk[g].as_str()), files: sorted });
        g = g + 1;
    }
    assert(group_folders(groups@) =~= gkv);
    assert(is_grouping(keys, group_folders(groups@), gmv));
    groups
}

// ---------------------------------------------------------------------------
// Conflicts and left-out files
// ---------------------------------------------------------------------------

/// How many conflict details are of `kind`.
pub open spec fn kind_count(details: Seq<(Seq<char>, ConflictKind, Option<Seq<char>>)>, kind: ConflictKind) -> nat
    decreases details.len(),
{
    if details.len() == 0 {
        0
    } else {
        kind_count(details.drop_last(), kind) + if details.last().1 == kind {
            1nat
        } else {
            0nat
        }
    }
}

proof fn lemma_kind_count_bound(details: Seq<(Seq<char>, ConflictKind, Option<Seq<char>>)>, kind: ConflictKind)
    ensures
        kind_count(details, kind) <= details.len(),
    decreases details.len(),
{
    if details.len() > 0 {
        lemma_kind_count_bound(details.drop_last(), kind);
    }
}

/// How many conflicts are of each kind: existing file, existing directory, parent path
/// taken by a file.
pub fn conflict_kind_counts(plan: &Plan) -> (r: (usize, usize, usize))
    ensures
        r.0 == kind_count(details_view(plan.conflict_details@), ConflictKind::ExistingFile),
        r.1 == kind_count(details_view(plan.conflict_details@), ConflictKind::ExistingDirectory),
        r.2 == kind_count(details_view(plan.conflict_details@), ConflictKind::ParentPathIsFile),
{
    let ghost d = details_view(plan.conflict_details@);
    let mut files: usize = 0;
    let mut dirs: usize = 0;
    let mut parents: usize = 0;
    let mut i: usize = 0;
    while i < plan.conflict_details.len()
        invariant
            d == details_view(plan.conflict_details@),
            i <= d.len(),
            files == kind_count(d.take(i as int), ConflictKind::ExistingFile),
            dirs == kind_count(d.take(i as int), ConflictKind::ExistingDirectory),
            parents == kind_count(d.take(i as int), ConflictKind::ParentPathIsFile),
        decreases d.len() - i,
    {
        assert(d.take(i + 1).drop_last() =~= d.take(i as int));
        assert(d.take(i + 1).last() == plan.conflict_details@[i as int]@);
        proof {
            lemma_kind_count_bound(d.take(i as int), ConflictKind::ExistingFile);
            lemma_kind_count_bound(d.take(i as int), ConflictKind::ExistingDirectory);
            lemma_kind_count_bound(d.take(i as int), ConflictKind::ParentPathIsFile);
        }
        match plan.conflict_details[i].kind {
            ConflictKind::ExistingFile => files = files + 1,
            ConflictKind::ExistingDirectory => dirs = dirs + 1,
            ConflictKind::ParentPathIsFile => parents = parents + 1,
        }
        i = i + 1;
    }
    assert(d.take(d.len() as int) =~= d);
    (files, dirs, parents)
}

/// The left-out files with (`skipped`) or without the reason "skipped during
/// interactive resolution", in order.
pub open spec fn by_skip(items: Seq<(Seq<char>, UnparseableReason)>, skipped: bool) -> Seq<(Seq<char>, UnparseableReason)>
    decreases items.len(),
{
    if items.len() == 0 {
        Seq::empty()
    } else {
        let prev = by_skip(items.drop_last(), skipped);
        if (items.last().1 == UnparseableReason::UserSkippedInteractiveResolution) == skipped {
            prev.push(items.last())
        } else {
            prev
        }
    }
}

/// The left-out files that were (`skipped`) or were not skipped by the user.
pub fn unparseable_by_skip(plan: &Plan, skipped: bool) -> (r: Vec<UnparseableItem>)
    ensures
        skips_view(r@) == by_skip(skips_view(plan.unparseable@), skipped),
{
    let ghost all = skips_view(plan.unparseable@);
    let mut out: Vec<UnparseableItem> = Vec::new();
    let mut i: usize = 0;
    assert(skips_view(out@) =~= Seq::<(Seq<char>, UnparseableReason)>::empty());
    while i < plan.unparseable.len()
        invariant
            all == skips_view(plan.unparseable@),
            i <= all.len(),
            skips_view(out@) == by_skip(all.take(i as int), skipped),
        decreases all.len() - i,
    {
        let item = &plan.unparseable[i];
        assert(all.take(i + 1).drop_last() =~= all.take(i as int));
        assert(all.take(i + 1).last() == item@);
        let hidden = !item.reason.should_display();
        if hidden == skipped {
            let copy = UnparseableItem { path: copy_str(item.path.as_str()), reason: item.reason };
            let ghost before = skips_view(out@);
            out.push(copy);
            assert(skips_view(out@) =~= before.push(copy@));
        }
        i = i + 1;
    }
    assert(all.take(all.len() as int) =~= all);
    out
}

/// Replaces the "missing title, season, or episode" entries of the files skipped by the user
/// with the `skipped` entries, which go last.
pub open spec fn merged_skips(
    items: Seq<(Seq<char>, UnparseableReason)>,
    skipped: Seq<(Seq<char>, UnparseableReason)>,
) -> Seq<(Seq<char>, UnparseableReason)> {
    items.filter(
        |u: (Seq<char>, UnparseableReason)|
            !(u.1 == UnparseableReason::MissingSeasonOrEpisode && skipped.map_values(|s: (Seq<char>, UnparseableReason)| s.0).contains(u.0)),
    ) + skipped
}

fn in_skipped(skipped: &Vec<UnparseableItem>, p: &str) -> (r: bool)
    ensures
        r == skips_view(skipped@).map_values(|s: (Seq<char>, UnparseableReason)| s.0).contains(p@),
{
    let ghost ps = skips_view(skipped@).map_values(|s: (Seq<char>, UnparseableReason)| s.0);
    let mut k: usize = 0;
    while k < skipped.len()
        invariant
            ps == skips_view(skipped@).map_values(|s: (Seq<char>, UnparseableReason)| s.0),
            k <= skipped@.len(),
            forall|q: int| 0 <= q < k ==> ps[q] != p@,
        decreases skipped.len() - k,
    {
        if str_eq(skipped[k].path.as_str(), p) {
            assert(ps[k as int] == p@);
            return true;
        }
        k = k + 1;
    }
    false
}

/// Puts the files the user skipped in place of their "missing title, season, or episode"
/// entries.
pub fn merge_skipped_groups(plan: &mut Plan, skipped: Vec<UnparseableItem>)
    ensures
        skips_view(final(plan).unparseable@) == merged_skips(skips_view(old(plan).unparseable@), skips_view(skipped@)),
        final(plan).operations == old(plan).operations,
        final(plan).conflicts == old(plan).conflicts,
        final(plan).conflict_details == old(plan).conflict_details,
{
    let ghost all = skips_view(plan.unparseable@);
    let ghost sk = skips_view(skipped@);
    let ghost keep = |u: (Seq<char>, UnparseableReason)|
        !(u.1 == UnparseableReason::MissingSeasonOrEpisode && sk.map_values(|s: (Seq<char>, UnparseableReason)| s.0).contains(u.0));
    let mut kept: Vec<UnparseableItem> = Vec::new();
    let mut i: usize = 0;
    assert(skips_view(kept@) =~= all.take(0).filter(keep));
    while i < plan.unparseable.len()
        invariant
            all == skips_view(plan.unparseable@),
            sk == skips_view(skipped@),
            keep == (|u: (Seq<char>, UnparseableReason)|
                !(u.1 == UnparseableReason::MissingSeasonOrEpisode && sk.map_values(|s: (Seq<char>, UnparseableReason)| s.0).contains(u.0))),
            i <= all.len(),
            skips_view(kept@) == all.take(i as int).filter(keep),
        decreases all.len() - i,
    {
        let item = &plan.unparseable[i];
        assert(all.take(i + 1).drop_last() =~= all.take(i as int));
        assert(all.take(i + 1).last() == item@);
        reveal(Seq::filter);
        let drop = match item.reason {
            UnparseableReason::MissingSeasonOrEpisode => in_skipped(&skipped, item.path.as_str()),
            _ => false,
        };
        if !drop {
            let copy = UnparseableItem { path: copy_str(item.path.as_str()), reason: item.reason };
            let ghost before = skips_view(kept@);
            kept.push(copy);
            assert(skips_view(kept@) =~= before.push(copy@));
        }
        i = i + 1;
    }
    assert(all.take(all.len() as int) =~= all);
    let ghost before = skips_view(kept@);
    let mut rest = skipped;
    kept.append(&mut rest);
    assert(skips_view(kept@) =~= before + sk);
    plan.unparseable = kept;
}

// ---------------------------------------------------------------------------
// Folder previews
// ---------------------------------------------------------------------------

/// How many sample names a folder preview shows.
pub const GROUP_PREVIEW_SAMPLE_LIMIT: usize = 3;

/// `all` is `names` in ascending order.
pub open spec fn sorted_version(all: Seq<Seq<char>>, names: Seq<Seq<char>>) -> bool {
    is_sorted(all) && all.to_multiset() == names.to_multiset()
}

/// The first names of `names` in ascending order, at most the sample limit.
pub open spec fn is_sample(sample: Seq<Seq<char>>, names: Seq<Seq<char>>) -> bool {
    exists|all: Seq<Seq<char>>|
        #[trigger] sorted_version(all, names) && sample == all.take(
            if all.len() < GROUP_PREVIEW_SAMPLE_LIMIT {
                all.len() as int
            } else {
                GROUP_PREVIEW_SAMPLE_LIMIT as int
            },
        )
}

/// A folder that needs answers, as previewed.
#[derive(Debug, Clone, PartialEq, Eq)]
pub struct FileGroupPreview {
    pub parent_path: String,
    pub file_count: usize,
    pub sample_files: Vec<String>,
    pub remaining_count: usize,
}

/// The file names of the parsed files at `idx`.
pub open spec fn names_at(parsed: Seq<MediaInfo>, idx: Seq<usize>) -> Seq<Seq<char>> {
    Seq::new(idx.len(), |q: int| parsed[idx[q] as int].original_filename@)
}

/// Sorts `names` and keeps the first few.
fn sample_of(names: Vec<String>) -> (r: (Vec<String>, usize))
    ensures
        is_sample(r.0.deep_view(), names.deep_view()),
        r.1 == names@.len(),
{
    let n = names.len();
    let mut sorted = sort_strings(names);
    let ghost all = sorted.deep_view();
    proof {
        vstd::seq_lib::to_multiset_len(all);
        vstd::seq_lib::to_multiset_len(names.deep_view());
    }
    sorted.truncate(GROUP_PREVIEW_SAMPLE_LIMIT);
    let ghost lim = if all.len() < GROUP_PREVIEW_SAMPLE_LIMIT {
        all.len() as int
    } else {
        GROUP_PREVIEW_SAMPLE_LIMIT as int
    };
    assert(sorted.deep_view() =~= all.take(lim));
    assert(sorted_version(all, names.deep_view()));
    (sorted, n)
}

/// The preview of one folder: its path, how many files, the first names in order, and
/// how many names are not shown.
pub fn build_group_preview(parsed: &[MediaInfo], group: &ShowPromptGroup) -> (r: FileGroupPreview)
    requires
        forall|q: int| 0 <= q < group.indices@.len() ==> (#[trigger] group.indices@[q]) < parsed@.len(),
    ensures
        r.parent_path@ == group.parent_path@,
        r.file_count == group.indices@.len(),
        is_sample(r.sample_files.deep_view(), names_at(parsed@, group.indices@)),
        r.remaining_count == if group.indices@.len() > GROUP_PREVIEW_SAMPLE_LIMIT {
            group.indices@.len() - GROUP_PREVIEW_SAMPLE_LIMIT
        } else {
            0
        },
{
    let mut names: Vec<String> = Vec::new();
    let mut j: usize = 0;
    while j < group.indices.len()
        invariant
            forall|q: int| 0 <= q < group.indices@.len() ==> (#[trigger] group.indices@[q]) < parsed@.len(),
            j <= group.indices@.len(),
            names.deep_view() == names_at(parsed@, group.indices@.take(j as int)),
        decreases group.indices.len() - j,
    {
        let ghost before = names.deep_view();
        names.push(copy_str(parsed[group.indices[j]].original_filename.as_str()));
        assert(names.deep_view() =~= before.push(parsed@[group.indices@[j as int] as int].original_filename@));
        assert(names_at(parsed@, group.indices@.take(j + 1)) =~= names_at(parsed@, group.indices@.take(j as int)).push(
            parsed@[group.indices@[j as int] as int].original_filename@,
        ));
        j = j + 1;
    }
    assert(group.indices@.take(group.indices@.len() as int) =~= group.indices@);
    let (sample_files, count) = sample_of(names);
    let remaining_count = if count > GROUP_PREVIEW_SAMPLE_LIMIT {
        count - GROUP_PREVIEW_SAMPLE_LIMIT
    } else {
        0
    };
    FileGroupPreview {
        parent_path: copy_str(group.parent_path.as_str()),
        file_count: group.indices.len(),
        sample_files,
        remaining_count,
    }
}

/// A folder of files the user skipped, as summarized.
#[derive(Debug, Clone, PartialEq, Eq)]
pub struct SkippedGroupSummary {
    pub parent_path: String,
    pub file_count: usize,
    pub sample_files: Vec<String>,
}

/// The folder a left-out file is summarized under (`.` for none).
pub open spec fn skip_folder(path: Seq<char>) -> Seq<char> {
    match parent_of(path) {
        Some(p) => p,
        None => "."@,
    }
}

/// The name a left-out file is summarized by.
pub open spec fn skip_name(path: Seq<char>) -> Seq<char> {
    match file_name_of(path) {
        Some(n) => n,
        None => path,
    }
}

pub open spec fn skip_folders(items: Seq<UnparseableItem>) -> Seq<Option<Seq<char>>> {
    Seq::new(items.len(), |k: int| Some(skip_folder(items[k].path@)))
}

pub open spec fn skip_names(items: Seq<UnparseableItem>, idx: Seq<usize>) -> Seq<Seq<char>> {
    Seq::new(idx.len(), |q: int| skip_name(items[idx[q] as int].path@))
}

/// `groups` are the folders of `items` in ascending order, each with its number of files
/// and its first names in order.
pub open spec fn is_skip_summary(items: Seq<UnparseableItem>, groups: Seq<SkippedGroupSummary>) -> bool {
    exists|members: Seq<Seq<usize>>|
        {
            &&& #[trigger] is_grouping(skip_folders(items), summary_folders(groups), members)
            &&& forall|g: int|
                0 <= g < groups.len() ==> {
                    &&& (#[trigger] groups[g]).file_count == members[g].len()
                    &&& is_sample(groups[g].sample_files.deep_view(), skip_names(items, members[g]))
                }
        }
}

/// Groups left-out files by folder.
pub fn summarize_skipped_groups(items: &[UnparseableItem]) -> (r: Vec<SkippedGroupSummary>)
    ensures
        is_skip_summary(items@, r@),
{
    let ghost keys = skip_folders(items@);
    let mut folders: Vec<Option<String>> = Vec::new();
    let mut k: usize = 0;
    while k < items.len()
        invariant
            keys == skip_folders(items@),
            k <= items@.len(),
            folders.deep_view() == keys.take(k as int),
        decreases items.len() - k,
    {
        let folder = match parent(items[k].path.as_str()) {
            Some(p) => p,
            None => copy_str("."),
        };
        let ghost before = folders.deep_view();
        folders.push(Some(folder));
        assert(folders.deep_view() =~= before.push(keys[k as int]));
        assert(keys.take(k + 1) =~= keys.take(k as int).push(keys[k as int]));
        k = k + 1;
    }
    assert(keys.take(keys.len() as int) =~= keys);
    let (gk, gm) = group_by_key(&folders);
    let ghost gkv = gk.deep_view();
    let ghost gmv = members_view(gm@);
    let mut out: Vec<SkippedGroupSummary> = Vec::new();
    let n_items = items.len();
    let mut g: usize = 0;
    while g < gk.len()
        invariant
            keys == skip_folders(items@),
            keys.len() == items@.len(),
            keys.len() == n_items,
            gkv == gk.deep_view(),
            gmv == members_view(gm@),
            is_grouping(keys, gkv, gmv),
            g <= gk.len(),
            out@.len() == g,
            forall|h: int|
                0 <= h < g ==> {
                    &&& (#[trigger] out@[h]).parent_path@ == gkv[h]
                    &&& out@[h].file_count == gmv[h].len()
                    &&& is_sample(out@[h].sample_files.deep_view(), skip_names(items@, gmv[h]))
                },
        decreases gk.len() - g,
    {
        let members = &gm[g];
        assert(members@ == gmv[g as int]);
        proof {
            lemma_members_below(keys, gkv[g as int]);
        }
        let mut names: Vec<String> = Vec::new();
        let mut j: usize = 0;
        while j < members.len()
            invariant
                members@ == indices_with_key(keys, gkv[g as int]),
                keys.len() == items@.len(),
                forall|q: int| 0 <= q < members@.len() ==> (#[trigger] members@[q]) < items@.len(),
                j <= members.len(),
                names.deep_view() == skip_names(items@, members@.take(j as int)),
            decreases members.len() - j,
        {
            let p = items[members[j]].path.as_str();
            let name = match file_name(p) {
                Some(n) => n,
                None => copy_str(p),
            };
            let ghost before = names.deep_view();
            names.push(name);
            assert(names.deep_view() =~= before.push(skip_name(items@[members@[j as int] as int].path@)));
            assert(skip_names(items@, members@.take(j + 1)) =~= skip_names(items@, members@.take(j as int)).push(
                skip_name(items@[members@[j as int] as int].path@),
            ));
            j = j + 1;
        }
        assert(members@.take(members@.len() as int) =~= members@);
        let (sample_files, count) = sample_of(names);
        out.push(SkippedGroupSummary { parent_path: copy_str(gk[g].as_str()), file_count: count, sample_files });
        g = g + 1;
    }
    assert(summary_folders(out@) =~= gkv);
    assert(is_grouping(keys, summary_folders(out@), gmv));
    out
}

// ---------------------------------------------------------------------------
// The whole preview
// ---------------------------------------------------------------------------

/// `p` is the preview of `plan` under `destination`: its collection name, its tree, the
/// conflict counts by kind, the folders of the files the user skipped, the other left-out
/// files one by one, and the numbers of operations and left-out files.
pub open spec fn is_plan_preview(plan: Plan, destination: Seq<char>, r: PlanPreview) -> bool {
    &&& r.collection_name.deep_view() == collection_name(plan, destination)
    &&& is_tree(plan, destination, r.groups@)
    &&& r.conflict_count == plan.conflicts@.len()
    &&& r.existing_file_conflicts == kind_count(details_view(plan.conflict_details@), ConflictKind::ExistingFile)
    &&& r.existing_directory_conflicts == kind_count(details_view(plan.conflict_details@), ConflictKind::ExistingDirectory)
    &&& r.parent_path_file_conflicts == kind_count(details_view(plan.conflict_details@), ConflictKind::ParentPathIsFile)
    &&& exists|skipped: Seq<UnparseableItem>|
        skips_view(skipped) == by_skip(skips_view(plan.unparseable@), true) && #[trigger] is_skip_summary(
            skipped,
            r.skipped_groups@,
        )
    &&& skips_view(r.visible_unparseable@) == by_skip(skips_view(plan.unparseable@), false)
    &&& r.operation_count == plan.operations@.len()
    &&& r.unparseable_count == plan.unparseable@.len()
}

/// What is shown of a plan: the collection folder, the destination tree, the conflicts
/// by kind, the folders the user skipped, the other left-out files, and the counts.
pub fn plan_preview(plan: &Plan, destination: &str) -> (r: PlanPreview)
    ensures
        is_plan_preview(*plan, destination@, r),
{
    let collection_name = infer_collection_name(plan, destination);
    let groups = preview_groups(plan, destination);
    let (files, dirs, parents) = conflict_kind_counts(plan);
    let skipped = unparseable_by_skip(plan, true);
    let skipped_groups = summarize_skipped_groups(skipped.as_slice());
    let visible_unparseable = unparseable_by_skip(plan, false);
    let r = PlanPreview {
        collection_name,
        groups,
        conflict_count: plan.conflicts.len(),
        existing_file_conflicts: files,
        existing_directory_conflicts: dirs,
        parent_path_file_conflicts: parents,
        skipped_groups,
        visible_unparseable,
        operation_count: plan.operations.len(),
        unparseable_count: plan.unparseable.len(),
    };
    assert(skips_view(skipped@) == by_skip(skips_view(plan.unparseable@), true) && is_skip_summary(skipped@, r.skipped_groups@));
    r
}

// ---------------------------------------------------------------------------
// The preview as text
// ---------------------------------------------------------------------------

fn push_line(lines: &mut Vec<String>, line: String)
    ensures
        final(lines).deep_view() == old(lines).deep_view().push(line@),
{
    lines.push(line);
    assert(lines.deep_view() =~= old(lines).deep_view().push(line@));
}

/// `[CONFLICT] name` or `[OK] name`, indented.
pub open spec fn file_line(f: PreviewFile) -> Seq<char> {
    "    "@ + (if f.conflict {
        "[CONFLICT]"@
    } else {
        "[OK]"@
    }) + " "@ + truncated(f.name@, 96)
}

pub open spec fn file_lines(files: Seq<PreviewFile>) -> Seq<Seq<char>>
    decreases files.len(),
{
    if files.len() == 0 {
        Seq::empty()
    } else {
        file_lines(files.drop_last()).push(file_line(files.last()))
    }
}

/// A folder line, then its files.
pub open spec fn group_lines(groups: Seq<PreviewGroup>) -> Seq<Seq<char>>
    decreases groups.len(),
{
    if groups.len() == 0 {
        Seq::empty()
    } else {
        let g = groups.last();
        group_lines(groups.drop_last()) + seq!["  "@ + truncated(g.folder@, 120) + "/"@] + file_lines(g.files@)
    }
}

pub open spec fn kind_label(k: ConflictKind) -> Seq<char> {
    match k {
        ConflictKind::ExistingFile => "existing-file"@,
        ConflictKind::ExistingDirectory => "existing-directory"@,
        ConflictKind::ParentPathIsFile => "parent-path-file"@,
    }
}

pub fn conflict_kind_label(k: ConflictKind) -> (r: &'static str)
    ensures
        r@ == kind_label(k),
{
    match k {
        ConflictKind::ExistingFile => "existing-file",
        ConflictKind::ExistingDirectory => "existing-directory",
        ConflictKind::ParentPathIsFile => "parent-path-file",
    }
}

pub open spec fn detail_line(d: crate::planner::ConflictDetail) -> Seq<char> {
    match d.blocked_by.deep_view() {
        Some(b) => "CONFLICT ["@ + kind_label(d.kind) + "]: "@ + d.path@ + " (blocked by file: "@ + b + ")"@,
        None => "CONFLICT ["@ + kind_label(d.kind) + "]: "@ + d.path@,
    }
}

pub open spec fn detail_lines(details: Seq<crate::planner::ConflictDetail>) -> Seq<Seq<char>>
    decreases details.len(),
{
    if details.len() == 0 {
        Seq::empty()
    } else {
        detail_lines(details.drop_last()).push(detail_line(details.last()))
    }
}

pub open spec fn plain_conflict_lines(paths: Seq<String>) -> Seq<Seq<char>>
    decreases paths.len(),
{
    if paths.len() == 0 {
        Seq::empty()
    } else {
        plain_conflict_lines(paths.drop_last()).push("CONFLICT: "@ + paths.last()@)
    }
}

pub open spec fn truncated_all(names: Seq<Seq<char>>, max_len: nat) -> Seq<Seq<char>> {
    Seq::new(names.len(), |i: int| truncated(names[i], max_len))
}

pub open spec fn skipped_group_lines(groups: Seq<SkippedGroupSummary>) -> Seq<Seq<char>>
    decreases groups.len(),
{
    if groups.len() == 0 {
        Seq::empty()
    } else {
        let g = groups.last();
        let head = "  - "@ + truncated(g.parent_path@, 120) + ": "@ + decimal(g.file_count as nat) + " "@ + (if g.file_count == 1 {
            "file"@
        } else {
            "files"@
        });
        let samples = if g.sample_files@.len() > 0 {
            seq!["    Samples: "@ + join_with(truncated_all(g.sample_files.deep_view(), 96), ", "@)]
        } else {
            Seq::<Seq<char>>::empty()
        };
        skipped_group_lines(groups.drop_last()) + seq![head] + samples
    }
}

pub open spec fn skipped_item_lines(items: Seq<UnparseableItem>) -> Seq<Seq<char>>
    decreases items.len(),
{
    if items.len() == 0 {
        Seq::empty()
    } else {
        skipped_item_lines(items.drop_last()).push(
            "SKIPPED: "@ + items.last().path@ + " ("@ + crate::planner::reason_text(items.last().reason) + ")"@,
        )
    }
}

pub open spec fn preview_header(p: PlanPreview, is_show: bool, dry_run: bool) -> Seq<Seq<char>> {
    let what = if is_show {
        "show"@
    } else {
        "movie"@
    };
    if dry_run {
        seq![
            match p.collection_name.deep_view() {
                Some(n) => "[DRY RUN] Organizing "@ + what + ": "@ + n,
                None => "[DRY RUN] Organizing "@ + what,
            },
            Seq::<char>::empty(),
        ]
    } else {
        Seq::<Seq<char>>::empty()
    }
}

pub open spec fn preview_conflicts(plan: Plan, p: PlanPreview) -> Seq<Seq<char>> {
    if p.conflict_count > 0 {
        seq![Seq::<char>::empty()] + if plan.conflict_details@.len() > 0 {
            seq![
                "Conflict Types: existing-file="@ + decimal(p.existing_file_conflicts as nat) + ", existing-directory="@
                    + decimal(p.existing_directory_conflicts as nat) + ", parent-path-file="@ + decimal(
                    p.parent_path_file_conflicts as nat,
                ),
            ] + detail_lines(plan.conflict_details@)
        } else {
            plain_conflict_lines(plan.conflicts@)
        }
    } else {
        Seq::<Seq<char>>::empty()
    }
}

pub open spec fn preview_skipped(p: PlanPreview) -> Seq<Seq<char>> {
    let groups = if p.skipped_groups@.len() > 0 {
        seq![Seq::<char>::empty(), "Skipped Groups:"@] + skipped_group_lines(p.skipped_groups@)
    } else {
        Seq::<Seq<char>>::empty()
    };
    let visible = if p.visible_unparseable@.len() > 0 {
        seq![Seq::<char>::empty()] + skipped_item_lines(p.visible_unparseable@)
    } else {
        Seq::<Seq<char>>::empty()
    };
    groups + visible
}

pub open spec fn preview_summary(p: PlanPreview) -> Seq<char> {
    "Summary: "@ + decimal(p.operation_count as nat) + " files to process, "@ + decimal(p.conflict_count as nat)
        + " conflicts, "@ + decimal(p.unparseable_count as nat) + " skipped"@
}

/// The text of the preview, line by line: the dry-run header, the destination tree, the
/// conflicts, the skipped folders and files, and the summary.
pub open spec fn preview_text(plan: Plan, p: PlanPreview, is_show: bool, dry_run: bool) -> Seq<Seq<char>> {
    preview_header(p, is_show, dry_run) + seq!["Destination Preview:"@] + group_lines(p.groups@) + preview_conflicts(plan, p)
        + preview_skipped(p) + seq![Seq::<char>::empty(), preview_summary(p)]
}

fn header_lines(p: &PlanPreview, is_show: bool, dry_run: bool) -> (r: Vec<String>)
    ensures
        r.deep_view() == preview_header(*p, is_show, dry_run),
{
    let mut lines: Vec<String> = Vec::new();
    let what = if is_show { "show" } else { "movie" };
    if dry_run {
        let mut head = concat("[DRY RUN] Organizing ", what);
        match &p.collection_name {
            Some(n) => {
                head.append(": ");
                head.append(n.as_str());
            },
            None => {},
        }
        push_line(&mut lines, head);
        push_line(&mut lines, String::new());
    }
    assert(lines.deep_view() =~= preview_header(*p, is_show, dry_run));
    lines
}

fn conflict_lines(plan: &Plan, p: &PlanPreview) -> (r: Vec<String>)
    ensures
        r.deep_view() == preview_conflicts(*plan, *p),
{
    let mut lines: Vec<String> = Vec::new();
    if p.conflict_count > 0 {
        push_line(&mut lines, String::new());
        if plan.conflict_details.len() > 0 {
            let mut types = copy_str("Conflict Types: existing-file=");
            types.append(usize_to_string(p.existing_file_conflicts).as_str());
            types.append(", existing-directory=");
            types.append(usize_to_string(p.existing_directory_conflicts).as_str());
            types.append(", parent-path-file=");
            types.append(usize_to_string(p.parent_path_file_conflicts).as_str());
            push_line(&mut lines, types);
            add_detail_lines(&mut lines, &plan.conflict_details);
        } else {
            add_plain_conflict_lines(&mut lines, &plan.conflicts);
        }
    }
    assert(lines.deep_view() =~= preview_conflicts(*plan, *p));
    lines
}

fn skipped_lines(p: &PlanPreview) -> (r: Vec<String>)
    ensures
        r.deep_view() == preview_skipped(*p),
{
    let mut lines: Vec<String> = Vec::new();
    if p.skipped_groups.len() > 0 {
        push_line(&mut lines, String::new());
        push_line(&mut lines, copy_str("Skipped Groups:"));
        add_skipped_group_lines(&mut lines, &p.skipped_groups);
    }
    let ghost groups = lines.deep_view();
    if p.visible_unparseable.len() > 0 {
        push_line(&mut lines, String::new());
        add_skipped_item_lines(&mut lines, &p.visible_unparseable);
    }
    assert(lines.deep_view() =~= preview_skipped(*p));
    lines
}

fn summary_line(p: &PlanPreview) -> (r: String)
    ensures
        r@ == preview_summary(*p),
{
    let mut summary = copy_str("Summary: ");
    summary.append(usize_to_string(p.operation_count).as_str());
    summary.append(" files to process, ");
    summary.append(usize_to_string(p.conflict_count).as_str());
    summary.append(" conflicts, ");
    summary.append(usize_to_string(p.unparseable_count).as_str());
    summary.append(" skipped");
    summary
}

fn append_lines(lines: &mut Vec<String>, more: Vec<String>)
    ensures
        final(lines).deep_view() == old(lines).deep_view() + more.deep_view(),
{
    let mut rest = more;
    let ghost m = rest.deep_view();
    lines.append(&mut rest);
    assert(lines.deep_view() =~= old(lines).deep_view() + m);
}

fn add_file_lines(lines: &mut Vec<String>, files: &Vec<PreviewFile>)
    ensures
        final(lines).deep_view() == old(lines).deep_view() + file_lines(files@),
{
    let ghost start = lines.deep_view();
    let mut i: usize = 0;
    assert(start + file_lines(files@.take(0)) =~= start);
    while i < files.len()
        invariant
            i <= files@.len(),
            lines.deep_view() == start + file_lines(files@.take(i as int)),
        decreases files.len() - i,
    {
        let f = &files[i];
        assert(files@.take(i + 1).drop_last() =~= files@.take(i as int));
        assert(files@.take(i + 1).last() == files@[i as int]);
        let mut line = copy_str("    ");
        line.append(if f.conflict { "[CONFLICT]" } else { "[OK]" });
        line.append(" ");
        line.append(truncate_middle(f.name.as_str(), 96).as_str());
        push_line(lines, line);
        i = i + 1;
    }
    assert(files@.take(files@.len() as int) =~= files@);
}

fn add_group_lines(lines: &mut Vec<String>, groups: &Vec<PreviewGroup>)
    ensures
        final(lines).deep_view() == old(lines).deep_view() + group_lines(groups@),
{
    let ghost start = lines.deep_view();
    let mut i: usize = 0;
    assert(start + group_lines(groups@.take(0)) =~= start);
    while i < groups.len()
        invariant
            i <= groups@.len(),
            lines.deep_view() == start + group_lines(groups@.take(i as int)),
        decreases groups.len() - i,
    {
        let g = &groups[i];
        assert(groups@.take(i + 1).drop_last() =~= groups@.take(i as int));
        assert(groups@.take(i + 1).last() == groups@[i as int]);
        let mut head = copy_str("  ");
        head.append(truncate_middle(g.folder.as_str(), 120).as_str());
        head.append("/");
        let ghost before = lines.deep_view();
        push_line(lines, head);
        add_file_lines(lines, &g.files);
        assert(lines.deep_view() =~= start + group_lines(groups@.take(i + 1)));
        i = i + 1;
    }
    assert(groups@.take(groups@.len() as int) =~= groups@);
}

fn add_detail_lines(lines: &mut Vec<String>, details: &Vec<crate::planner::ConflictDetail>)
    ensures
        final(lines).deep_view() == old(lines).deep_view() + detail_lines(details@),
{
    let ghost start = lines.deep_view();
    let mut i: usize = 0;
    assert(start + detail_lines(details@.take(0)) =~= start);
    while i < details.len()
        invariant
            i <= details@.len(),
            lines.deep_view() == start + detail_lines(details@.take(i as int)),
        decreases details.len() - i,
    {
        let d = &details[i];
        assert(details@.take(i + 1).drop_last() =~= details@.take(i as int));
        assert(details@.take(i + 1).last() == details@[i as int]);
        let mut line = copy_str("CONFLICT [");
        line.append(conflict_kind_label(d.kind));
        line.append("]: ");
        line.append(d.path.as_str());
        match &d.blocked_by {
            Some(b) => {
                line.append(" (blocked by file: ");
                line.append(b.as_str());
                line.append(")");
            },
            None => {},
        }
        push_line(lines, line);
        i = i + 1;
    }
    assert(details@.take(details@.len() as int) =~= details@);
}

fn add_plain_conflict_lines(lines: &mut Vec<String>, paths: &Vec<String>)
    ensures
        final(lines).deep_view() == old(lines).deep_view() + plain_conflict_lines(paths@),
{
    let ghost start = lines.deep_view();
    let mut i: usize = 0;
    assert(start + plain_conflict_lines(paths@.take(0)) =~= start);
    while i < paths.len()
        invariant
            i <= paths@.len(),
            lines.deep_view() == start + plain_conflict_lines(paths@.take(i as int)),
        decreases paths.len() - i,
    {
        assert(paths@.take(i + 1).drop_last() =~= paths@.take(i as int));
        assert(paths@.take(i + 1).last() == paths@[i as int]);
        push_line(lines, concat("CONFLICT: ", paths[i].as_str()));
        i = i + 1;
    }
    assert(paths@.take(paths@.len() as int) =~= paths@);
}

fn truncate_each(names: &Vec<String>, max_len: usize) -> (r: Vec<String>)
    ensures
        r.deep_view() == truncated_all(names.deep_view(), max_len as nat),
{
    let mut out: Vec<String> = Vec::new();
    let mut i: usize = 0;
    while i < names.len()
        invariant
            i <= names@.len(),
            out.deep_view() == truncated_all(names.deep_view().take(i as int), max_len as nat),
        decreases names.len() - i,
    {
        let ghost before = out.deep_view();
        let t = truncate_middle(names[i].as_str(), max_len);
        out.push(t);
        assert(out.deep_view() =~= before.push(t@));
        assert(names.deep_view().take(i + 1) =~= names.deep_view().take(i as int).push(names@[i as int]@));
        assert(out.deep_view() =~= truncated_all(names.deep_view().take(i + 1), max_len as nat));
        i = i + 1;
    }
    assert(names.deep_view().take(names@.len() as int) =~= names.deep_view());
    out
}

fn add_skipped_group_lines(lines: &mut Vec<String>, groups: &Vec<SkippedGroupSummary>)
    ensures
        final(lines).deep_view() == old(lines).deep_view() + skipped_group_lines(groups@),
{
    let ghost start = lines.deep_view();
    let mut i: usize = 0;
    assert(start + skipped_group_lines(groups@.take(0)) =~= start);
    while i < groups.len()
        invariant
            i <= groups@.len(),
            lines.deep_view() == start + skipped_group_lines(groups@.take(i as int)),
        decreases groups.len() - i,
    {
        let g = &groups[i];
        assert(groups@.take(i + 1).drop_last() =~= groups@.take(i as int));
        assert(groups@.take(i + 1).last() == groups@[i as int]);
        let mut head = copy_str("  - ");
        head.append(truncate_middle(g.parent_path.as_str(), 120).as_str());
        head.append(": ");
        head.append(usize_to_string(g.file_count).as_str());
        head.append(" ");
        head.append(if g.file_count == 1 { "file" } else { "files" });
        push_line(lines, head);
        if g.sample_files.len() > 0 {
            let shortened = truncate_each(&g.sample_files, 96);
            let joined = join_strings(&shortened, ", ");
            push_line(lines, concat("    Samples: ", joined.as_str()));
        }
        assert(lines.deep_view() =~= start + skipped_group_lines(groups@.take(i + 1)));
        i = i + 1;
    }
    assert(groups@.take(groups@.len() as int) =~= groups@);
}

fn add_skipped_item_lines(lines: &mut Vec<String>, items: &Vec<UnparseableItem>)
    ensures
        final(lines).deep_view() == old(lines).deep_view() + skipped_item_lines(items@),
{
    let ghost start = lines.deep_view();
    let mut i: usize = 0;
    assert(start + skipped_item_lines(items@.take(0)) =~= start);
    while i < items.len()
        invariant
            i <= items@.len(),
            lines.deep_view() == start + skipped_item_lines(items@.take(i as int)),
        decreases items.len() - i,
    {
        let item = &items[i];
        assert(items@.take(i + 1).drop_last() =~= items@.take(i as int));
        assert(items@.take(i + 1).last() == items@[i as int]);
        let mut line = concat("SKIPPED: ", item.path.as_str());
        line.append(" (");
        line.append(item.reason.description());
        line.append(")");
        push_line(lines, line);
        i = i + 1;
    }
    assert(items@.take(items@.len() as int) =~= items@);
}

/// The preview of a plan as lines of text, with the preview itself.
pub fn plan_preview_lines(plan: &Plan, is_show: bool, dry_run: bool, destination: &str) -> (r: (PlanPreview, Vec<String>))
    ensures
        is_plan_preview(*plan, destination@, r.0),
        r.1.deep_view() == preview_text(*plan, r.0, is_show, dry_run),
{
    let p = plan_preview(plan, destination);
    let mut lines = header_lines(&p, is_show, dry_run);
    push_line(&mut lines, copy_str("Destination Preview:"));
    add_group_lines(&mut lines, &p.groups);
    append_lines(&mut lines, conflict_lines(plan, &p));
    append_lines(&mut lines, skipped_lines(&p));
    push_line(&mut lines, String::new());
    push_line(&mut lines, summary_line(&p));
    assert(lines.deep_view() =~= preview_text(*plan, p, is_show, dry_run));
    (p, lines)
}

} // verus!
