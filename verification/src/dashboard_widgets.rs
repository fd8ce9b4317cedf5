//! Dashboard widgets: instances placed on a seven-column grid, their
//! checks, where a new widget goes, and how a layout is compacted.
use vstd::prelude::*;
use crate::module_schema::{SchemaValue, WidgetTypeDefinition};
use crate::text::{chars_of, eq_str, owned, string_views};
use crate::module_registry::{module_view, module_views, ModuleView, RegistryState};

verus! {

/// The version of the widget state file.
pub const DASHBOARD_WIDGET_STATE_VERSION: u32 = 1;
/// The columns of the dashboard grid.
pub const DASHBOARD_WIDGET_MAX_COLUMNS: u32 = 7;
/// The tallest a widget may be, in rows.
pub const DASHBOARD_WIDGET_MAX_HEIGHT: u32 = 3;
/// Layouts whose rows reach no further than this are never repaired.
pub const DASHBOARD_WIDGET_SPARSE_REPAIR_MIN_ROW: u32 = 5;
/// How far below a compact layout the rows may reach before a layout is
/// repaired.
pub const DASHBOARD_WIDGET_SPARSE_REPAIR_MARGIN: u32 = 3;

/// Where a widget sits on the grid: its first column and row (from 1) and
/// its width and height in cells.
#[derive(Debug, Clone, Copy, PartialEq, Eq, Structural)]
pub struct DashboardWidgetLayout {
    pub column: u32,
    pub row: u32,
    pub width: u32,
    pub height: u32,
}

/// A widget on the dashboard.  `config` holds its configuration in key
/// order; `active`, `status` and `warnings` are filled in when the state is
/// read.
pub struct DashboardWidgetInstance {
    pub instance_id: String,
    pub widget_type: String,
    pub module_id: String,
    pub title: Option<String>,
    pub config: Vec<(String, SchemaValue)>,
    pub layout: DashboardWidgetLayout,
    pub collapsed: bool,
    pub active: bool,
    pub status: String,
    pub warnings: Vec<String>,
}

/// What the last layout change did.
pub struct DashboardWidgetLayoutOperation {
    pub moved_widget_id: Option<String>,
    pub resized_widget_id: Option<String>,
    pub affected_widget_ids: Vec<String>,
    pub reason: String,
}

/// The widgets of a dashboard.
pub struct DashboardWidgetState {
    pub schema_version: u32,
    pub instances: Vec<DashboardWidgetInstance>,
    pub warnings: Vec<String>,
    pub recovery_backup_path: Option<String>,
    pub last_layout_operation: Option<DashboardWidgetLayoutOperation>,
}

/// A request to add a widget.
pub struct DashboardWidgetCreateRequest {
    pub widget_type: String,
    pub module_id: String,
    pub title: Option<String>,
    pub config: Vec<(String, SchemaValue)>,
    pub layout: Option<DashboardWidgetLayout>,
    pub collapsed: bool,
}

/// The widgets of a dashboard and how they change.
pub struct DashboardWidgetService;

/// A request to change a widget; each part that is given is changed.
pub struct DashboardWidgetUpdateRequest {
    pub title: Option<String>,
    pub config: Option<Vec<(String, SchemaValue)>>,
    pub layout: Option<DashboardWidgetLayout>,
    pub collapsed: Option<bool>,
}

// ---------------------------------------------------------------------------
// Layouts
// ---------------------------------------------------------------------------

/// Two layouts share a cell.
pub open spec fn overlap(a: DashboardWidgetLayout, b: DashboardWidgetLayout) -> bool {
    &&& a.column <= b.column + b.width - 1
    &&& a.column + a.width - 1 >= b.column
    &&& a.row <= b.row + b.height - 1
    &&& a.row + a.height - 1 >= b.row
}

/// Whether two layouts share a cell.
pub fn layouts_overlap(a: &DashboardWidgetLayout, b: &DashboardWidgetLayout) -> (r: bool)
    ensures
        r == overlap(*a, *b),
{
    (a.column as u64) + 1 <= (b.column as u64) + (b.width as u64) && (a.column as u64) + (a.width as u64)
        >= (b.column as u64) + 1 && (a.row as u64) + 1 <= (b.row as u64) + (b.height as u64) && (a.row as u64)
        + (a.height as u64) >= (b.row as u64) + 1
}

/// Overlapping is symmetric.
pub proof fn lemma_overlap_symmetric(a: DashboardWidgetLayout, b: DashboardWidgetLayout)
    ensures
        overlap(a, b) == overlap(b, a),
{
}

/// The problem of a layout: a zero value, a layout that leaves the seven
/// columns, or one taller than three rows.
pub open spec fn layout_error(l: DashboardWidgetLayout) -> Option<Seq<char>> {
    if l.column == 0 || l.row == 0 || l.width == 0 || l.height == 0 {
        Some("Dashboard widget layout values must be greater than zero."@)
    } else if l.column > 7 || l.width > 7 || l.column + l.width - 1 > 7 {
        Some("Dashboard widget layout must fit the 7-column dashboard grid."@)
    } else if l.height > 3 {
        Some("Dashboard widget layout height must be 3 rows or less."@)
    } else {
        None
    }
}

/// Checks a layout against the grid.
pub fn validate_layout(layout: &DashboardWidgetLayout) -> (r: Result<(), String>)
    ensures
        match r {
            Ok(_) => layout_error(*layout) is None,
            Err(e) => layout_error(*layout) == Some(e@),
        },
{
    if layout.column == 0 || layout.row == 0 || layout.width == 0 || layout.height == 0 {
        return Err(owned("Dashboard widget layout values must be greater than zero."));
    }
    if layout.column > DASHBOARD_WIDGET_MAX_COLUMNS || layout.width > DASHBOARD_WIDGET_MAX_COLUMNS
        || layout.column + layout.width - 1 > DASHBOARD_WIDGET_MAX_COLUMNS {
        return Err(owned("Dashboard widget layout must fit the 7-column dashboard grid."));
    }
    if layout.height > DASHBOARD_WIDGET_MAX_HEIGHT {
        return Err(owned("Dashboard widget layout height must be 3 rows or less."));
    }
    Ok(())
}

/// `value.max(lo).min(hi)`.
pub open spec fn clamp(value: u32, lo: u32, hi: u32) -> u32 {
    let a = if value < lo {
        lo
    } else {
        value
    };
    if a > hi {
        hi
    } else {
        a
    }
}

/// Clamps a layout value between two bounds.
pub fn clamp_layout_value(value: u32, min: u32, max: u32) -> (r: u32)
    ensures
        r == clamp(value, min, max),
{
    let a = if value < min {
        min
    } else {
        value
    };
    if a > max {
        max
    } else {
        a
    }
}

/// The layouts of instances.
pub open spec fn layouts_of(s: Seq<DashboardWidgetInstance>) -> Seq<DashboardWidgetLayout> {
    s.map_values(|i: DashboardWidgetInstance| i.layout)
}

/// A layout shares no cell with any of the layouts.
pub open spec fn fits(ls: Seq<DashboardWidgetLayout>, c: DashboardWidgetLayout) -> bool {
    forall|i: int| 0 <= i < ls.len() ==> !overlap(c, #[trigger] ls[i])
}

/// The layout at a column and row with a size.
pub open spec fn slot(column: u32, row: u32, width: u32, height: u32) -> DashboardWidgetLayout {
    DashboardWidgetLayout { column, row, width, height }
}

/// The width a new widget gets: its width clamped to `1..=max_columns`.
pub open spec fn slot_width(width: u32, max_columns: u32) -> u32 {
    clamp(width, 1, max_columns)
}

/// The height a new widget gets: its height clamped to `1..=3`.
pub open spec fn slot_height(height: u32) -> u32 {
    clamp(height, 1, 3)
}

/// The last column a widget of a width may start at.
pub open spec fn last_start(width: u32, max_columns: u32) -> u32 {
    let w = slot_width(width, max_columns);
    if max_columns >= w {
        (max_columns - w + 1) as u32
    } else {
        1
    }
}

/// Position `(c1, r1)` comes before `(c2, r2)` in reading order.
pub open spec fn reads_before(c1: u32, r1: u32, c2: u32, r2: u32) -> bool {
    r1 < r2 || (r1 == r2 && c1 < c2)
}

/// A layout is the first free slot of its size in reading order, among
/// start columns `1..=last`.
pub open spec fn is_first_free(ls: Seq<DashboardWidgetLayout>, c: DashboardWidgetLayout, last: u32) -> bool {
    &&& 1 <= c.column <= last
    &&& 1 <= c.row
    &&& fits(ls, c)
    &&& forall|cc: u32, rr: u32|
        1 <= cc <= last && 1 <= rr && reads_before(cc, rr, c.column, c.row) ==> !#[trigger] fits(
            ls,
            slot(cc, rr, c.width, c.height),
        )
}

/// Some slot of a size is free.
pub open spec fn has_free_slot(ls: Seq<DashboardWidgetLayout>, w: u32, h: u32, last: u32) -> bool {
    exists|c: u32, r: u32| 1 <= c <= last && 1 <= r && #[trigger] fits(ls, slot(c, r, w, h))
}

/// The first free slot of a size, in reading order.
pub open spec fn first_free(ls: Seq<DashboardWidgetLayout>, w: u32, h: u32, last: u32) -> DashboardWidgetLayout {
    choose|l: DashboardWidgetLayout| l.width == w && l.height == h && is_first_free(ls, l, last)
}

/// There is one first free slot of a size.
pub proof fn lemma_first_free_unique(
    ls: Seq<DashboardWidgetLayout>,
    a: DashboardWidgetLayout,
    b: DashboardWidgetLayout,
    last: u32,
)
    requires
        is_first_free(ls, a, last),
        is_first_free(ls, b, last),
        a.width == b.width,
        a.height == b.height,
    ensures
        a == b,
{
    if reads_before(a.column, a.row, b.column, b.row) {
        assert(!fits(ls, slot(a.column, a.row, b.width, b.height)));
        assert(slot(a.column, a.row, b.width, b.height) == a);
    } else if reads_before(b.column, b.row, a.column, a.row) {
        assert(!fits(ls, slot(b.column, b.row, a.width, a.height)));
        assert(slot(b.column, b.row, a.width, a.height) == b);
    }
}

fn fits_exec(instances: &Vec<DashboardWidgetInstance>, c: &DashboardWidgetLayout) -> (r: bool)
    ensures
        r == fits(layouts_of(instances@), *c),
{
    let n = instances.len();
    let mut i: usize = 0;
    while i < n
        invariant
            n == instances@.len(),
            i <= n,
            forall|j: int| 0 <= j < i ==> !overlap(*c, #[trigger] layouts_of(instances@)[j]),
        decreases n - i,
    {
        if layouts_overlap(c, &instances[i].layout) {
            assert(overlap(*c, layouts_of(instances@)[i as int]));
            return false;
        }
        i = i + 1;
    }
    true
}

fn first_free_column(instances: &Vec<DashboardWidgetInstance>, row: u32, w: u32, h: u32, last: u32) -> (r: Option<u32>)
    ensures
        r matches Some(c) ==> 1 <= c <= last && fits(layouts_of(instances@), slot(c, row, w, h)) && forall|cc: u32|
            1 <= cc < c ==> !#[trigger] fits(layouts_of(instances@), slot(cc, row, w, h)),
        r is None ==> forall|cc: u32| 1 <= cc <= last ==> !#[trigger] fits(layouts_of(instances@), slot(cc, row, w, h)),
{
    let mut c: u32 = 1;
    while c <= last
        invariant
            1 <= c,
            c <= last + 1,
            forall|cc: u32| 1 <= cc < c ==> !#[trigger] fits(layouts_of(instances@), slot(cc, row, w, h)),
        decreases last + 1 - c,
    {
        let cand = DashboardWidgetLayout { column: c, row, width: w, height: h };
        if fits_exec(instances, &cand) {
            return Some(c);
        }
        if c == last {
            return None;
        }
        c = c + 1;
    }
    None
}

/// The first free slot, in reading order, for a widget of a width and
/// height: the width is clamped to `1..=max_columns` and the height to
/// `1..=3`.  Some slot of that size must be free within the rows a `u32`
/// holds.
pub fn find_next_available_layout(
    instances: &Vec<DashboardWidgetInstance>,
    width: u32,
    height: u32,
    max_columns: u32,
) -> (r: DashboardWidgetLayout)
    requires
        has_free_slot(
            layouts_of(instances@),
            slot_width(width, max_columns),
            slot_height(height),
            last_start(width, max_columns),
        ),
    ensures
        r.width == slot_width(width, max_columns),
        r.height == slot_height(height),
        is_first_free(layouts_of(instances@), r, last_start(width, max_columns)),
        r == first_free(
            layouts_of(instances@),
            slot_width(width, max_columns),
            slot_height(height),
            last_start(width, max_columns),
        ),
{
    let w = clamp_layout_value(width, 1, max_columns);
    let h = clamp_layout_value(height, 1, DASHBOARD_WIDGET_MAX_HEIGHT);
    let last = if max_columns >= w {
        max_columns - w + 1
    } else {
        1
    };
    let ghost ls = layouts_of(instances@);
    let ghost (wc, wr) = choose|c: u32, r: u32| 1 <= c <= last && 1 <= r && #[trigger] fits(ls, slot(c, r, w, h));
    let mut row: u32 = 1;
    loop
        invariant
            ls == layouts_of(instances@),
            w == slot_width(width, max_columns),
            h == slot_height(height),
            last == last_start(width, max_columns),
            1 <= wc <= last,
            1 <= wr,
            fits(ls, slot(wc, wr, w, h)),
            1 <= row <= wr,
            forall|cc: u32, rr: u32| 1 <= cc <= last && 1 <= rr < row ==> !#[trigger] fits(ls, slot(cc, rr, w, h)),
        decreases wr - row,
    {
        match first_free_column(instances, row, w, h, last) {
            Some(c) => {
                let r = DashboardWidgetLayout { column: c, row, width: w, height: h };
                assert(is_first_free(ls, r, last)) by {
                    assert forall|cc: u32, rr: u32|
                        1 <= cc <= last && 1 <= rr && reads_before(cc, rr, r.column, r.row) implies !#[trigger] fits(
                        ls,
                        slot(cc, rr, r.width, r.height),
                    ) by {
                        if rr < row {
                        } else {
                            assert(rr == row && cc < c);
                        }
                    }
                }
                proof {
                    let f = first_free(ls, w, h, last);
                    assert(r.width == w && r.height == h && is_first_free(ls, r, last));
                    lemma_first_free_unique(ls, r, f, last);
                }
                return r;
            },
            None => {
                assert(row != wr) by {
                    if row == wr {
                        assert(!fits(ls, slot(wc, wr, w, h)));
                    }
                }
                row = row + 1;
            },
        }
    }
}


/// Two instances at positions `i < j` share a cell, and the pair concerns
/// the active instance where one is given.
pub open spec fn blocking_pair(s: Seq<DashboardWidgetInstance>, active: Option<Seq<char>>, i: int, j: int) -> bool {
    &&& 0 <= i < j < s.len()
    &&& overlap(s[i].layout, s[j].layout)
    &&& match active {
        None => true,
        Some(a) => s[i].instance_id@ == a || s[j].instance_id@ == a,
    }
}

/// Some pair of instances blocks the layout.
pub open spec fn has_blocking_overlap(s: Seq<DashboardWidgetInstance>, active: Option<Seq<char>>) -> bool {
    exists|i: int, j: int| #[trigger] blocking_pair(s, active, i, j)
}

/// What a blocked layout change is answered.
pub open spec fn layout_blocked_text() -> Seq<char> {
    "This position overlaps another widget. Try another spot or use Compact layout."@
}

/// Checks that no two instances share a cell; where an active instance is
/// given, only pairs that include it count.
pub fn validate_no_layout_overlap(instances: &Vec<DashboardWidgetInstance>, active_instance_id: Option<&str>) -> (r:
    Result<(), String>)
    ensures
        r is Ok <==> !has_blocking_overlap(
            instances@,
            match active_instance_id {
                Some(s) => Some(s@),
                None => None,
            },
        ),
        r matches Err(e) ==> e@ == layout_blocked_text(),
{
    let ghost act = match active_instance_id {
        Some(s) => Some(s@),
        None => None::<Seq<char>>,
    };
    let n = instances.len();
    let mut i: usize = 0;
    while i < n
        invariant
            n == instances@.len(),
            i <= n,
            act == match active_instance_id {
                Some(s) => Some(s@),
                None => None::<Seq<char>>,
            },
            forall|a: int, b: int| 0 <= a < i && a < b < n ==> !#[trigger] blocking_pair(instances@, act, a, b),
        decreases n - i,
    {
        let mut j: usize = i + 1;
        while j < n
            invariant
                n == instances@.len(),
                i < n,
                i + 1 <= j <= n,
                act == match active_instance_id {
                    Some(s) => Some(s@),
                    None => None::<Seq<char>>,
                },
                forall|a: int, b: int| 0 <= a < i && a < b < n ==> !#[trigger] blocking_pair(instances@, act, a, b),
                forall|b: int| i < b < j ==> !#[trigger] blocking_pair(instances@, act, i as int, b),
            decreases n - j,
        {
            if layouts_overlap(&instances[i].layout, &instances[j].layout) {
                let counts = match active_instance_id {
                    None => true,
                    Some(a) => {
                        let ac = chars_of(a);
                        let li = chars_of(instances[i].instance_id.as_str());
                        let ri = chars_of(instances[j].instance_id.as_str());
                        crate::text::seq_eq(li.as_slice(), ac.as_slice()) || crate::text::seq_eq(
                            ri.as_slice(),
                            ac.as_slice(),
                        )
                    },
                };
                if counts {
                    assert(blocking_pair(instances@, act, i as int, j as int));
                    return Err(owned("This position overlaps another widget. Try another spot or use Compact layout."));
                }
            }
            j = j + 1;
        }
        i = i + 1;
    }
    assert(!has_blocking_overlap(instances@, act)) by {
        if has_blocking_overlap(instances@, act) {
            let (a, b) = choose|a: int, b: int| #[trigger] blocking_pair(instances@, act, a, b);
            assert(blocking_pair(instances@, act, a, b));
        }
    }
    Ok(())
}

// ---------------------------------------------------------------------------
// Reading order and compaction
// ---------------------------------------------------------------------------

/// An instance comes before another by row, then column, then ID.
pub open spec fn key_lt(a: DashboardWidgetInstance, b: DashboardWidgetInstance) -> bool {
    a.layout.row < b.layout.row || (a.layout.row == b.layout.row && (a.layout.column < b.layout.column || (
    a.layout.column == b.layout.column && crate::ordered::text_lt(a.instance_id@, b.instance_id@))))
}

fn key_lt_exec(a: &DashboardWidgetInstance, b: &DashboardWidgetInstance) -> (r: bool)
    ensures
        r == key_lt(*a, *b),
{
    if a.layout.row != b.layout.row {
        return a.layout.row < b.layout.row;
    }
    if a.layout.column != b.layout.column {
        return a.layout.column < b.layout.column;
    }
    let x = chars_of(a.instance_id.as_str());
    let y = chars_of(b.instance_id.as_str());
    crate::ordered::text_less(x.as_slice(), y.as_slice())
}

/// Inserts an instance after every instance it does not come before.
pub open spec fn insert_sorted(s: Seq<DashboardWidgetInstance>, x: DashboardWidgetInstance) -> Seq<DashboardWidgetInstance>
    decreases s.len(),
{
    if s.len() == 0 {
        seq![x]
    } else if key_lt(x, s.last()) {
        insert_sorted(s.drop_last(), x).push(s.last())
    } else {
        s.push(x)
    }
}

/// Instances in reading order of their positions, instances with equal
/// positions and IDs keeping their order (a stable sort).
pub open spec fn position_order(s: Seq<DashboardWidgetInstance>) -> Seq<DashboardWidgetInstance>
    decreases s.len(),
{
    if s.len() == 0 {
        seq![]
    } else {
        insert_sorted(position_order(s.drop_last()), s.last())
    }
}

proof fn lemma_insert_sorted_at(s: Seq<DashboardWidgetInstance>, x: DashboardWidgetInstance, j: int)
    requires
        0 <= j <= s.len(),
        forall|k: int| j <= k < s.len() ==> key_lt(x, #[trigger] s[k]),
        j == 0 || !key_lt(x, s[j - 1]),
    ensures
        insert_sorted(s, x) == s.take(j).push(x) + s.skip(j),
    decreases s.len(),
{
    if s.len() == 0 {
        assert(s.take(j).push(x) + s.skip(j) =~= seq![x]);
    } else if key_lt(x, s.last()) {
        assert(j < s.len()) by {
            if j == s.len() {
                assert(!key_lt(x, s[j - 1]));
            }
        }
        let d = s.drop_last();
        assert forall|k: int| j <= k < d.len() implies key_lt(x, #[trigger] d[k]) by {
            assert(d[k] == s[k]);
        }
        if j > 0 {
            assert(d[j - 1] == s[j - 1]);
        }
        lemma_insert_sorted_at(d, x, j);
        assert(insert_sorted(s, x) =~= s.take(j).push(x) + s.skip(j));
    } else {
        assert(j == s.len()) by {
            if j < s.len() {
                assert(key_lt(x, s[s.len() - 1]));
            }
        }
        assert(s.take(j).push(x) + s.skip(j) =~= s.push(x));
    }
}

proof fn lemma_insert_sorted_len(s: Seq<DashboardWidgetInstance>, x: DashboardWidgetInstance)
    ensures
        insert_sorted(s, x).len() == s.len() + 1,
    decreases s.len(),
{
    if s.len() > 0 && key_lt(x, s.last()) {
        lemma_insert_sorted_len(s.drop_last(), x);
    }
}

/// Reading order keeps the number of instances.
pub proof fn lemma_position_order_len(s: Seq<DashboardWidgetInstance>)
    ensures
        position_order(s).len() == s.len(),
    decreases s.len(),
{
    if s.len() > 0 {
        lemma_position_order_len(s.drop_last());
        lemma_insert_sorted_len(position_order(s.drop_last()), s.last());
    }
}

fn insert_position(out: &Vec<DashboardWidgetInstance>, x: &DashboardWidgetInstance) -> (j: usize)
    ensures
        j <= out@.len(),
        forall|k: int| j <= k < out@.len() ==> key_lt(*x, #[trigger] out@[k]),
        j == 0 || !key_lt(*x, out@[j - 1]),
{
    let mut j: usize = out.len();
    while j > 0
        invariant
            j <= out@.len(),
            forall|k: int| j <= k < out@.len() ==> key_lt(*x, #[trigger] out@[k]),
        decreases j,
    {
        if !key_lt_exec(x, &out[j - 1]) {
            return j;
        }
        j = j - 1;
    }
    j
}

fn insert_in_order(out: &mut Vec<DashboardWidgetInstance>, x: DashboardWidgetInstance)
    ensures
        final(out)@ == insert_sorted(old(out)@, x),
{
    let ghost s = out@;
    let j = insert_position(out, &x);
    proof {
        lemma_insert_sorted_at(s, x, j as int);
    }
    out.insert(j, x);
    assert(out@ =~= s.take(j as int).push(x) + s.skip(j as int));
}

/// Sorts instances into reading order of their positions (stable).
pub fn sort_by_position(instances: Vec<DashboardWidgetInstance>) -> (r: Vec<DashboardWidgetInstance>)
    ensures
        r@ == position_order(instances@),
{
    let ghost s = instances@;
    let mut rest = instances;
    let mut out: Vec<DashboardWidgetInstance> = Vec::new();
    let n = rest.len();
    let mut k: usize = 0;
    while k < n
        invariant
            n == s.len(),
            k <= n,
            rest@ == s.skip(k as int),
            out@ == position_order(s.take(k as int)),
        decreases n - k,
    {
        let ghost before = rest@;
        let x = rest.remove(0);
        assert(x == s[k as int]);
        assert(rest@ =~= s.skip(k + 1));
        assert(s.take(k + 1).drop_last() =~= s.take(k as int));
        insert_in_order(&mut out, x);
        k = k + 1;
    }
    assert(s.take(n as int) =~= s);
    out
}

/// An instance at another layout.
pub open spec fn with_layout(i: DashboardWidgetInstance, l: DashboardWidgetLayout) -> DashboardWidgetInstance {
    DashboardWidgetInstance { layout: l, ..i }
}

/// Instances placed one after another, each at the first free slot of its
/// clamped size among those placed before it.
pub open spec fn compacted(s: Seq<DashboardWidgetInstance>) -> Seq<DashboardWidgetInstance>
    decreases s.len(),
{
    if s.len() == 0 {
        seq![]
    } else {
        let p = compacted(s.drop_last());
        let x = s.last();
        p.push(
            with_layout(
                x,
                first_free(
                    layouts_of(p),
                    slot_width(x.layout.width, 7),
                    slot_height(x.layout.height),
                    last_start(x.layout.width, 7),
                ),
            ),
        )
    }
}

/// No layout reaches below row `m`.
pub open spec fn rows_within(ls: Seq<DashboardWidgetLayout>, m: int) -> bool {
    forall|i: int| 0 <= i < ls.len() ==> #[trigger] ls[i].row + ls[i].height - 1 <= m
}

/// Below every layout, the first column is free.
pub proof fn lemma_free_below(ls: Seq<DashboardWidgetLayout>, m: int, w: u32, h: u32)
    requires
        rows_within(ls, m),
        0 <= m < u32::MAX,
    ensures
        fits(ls, slot(1, (m + 1) as u32, w, h)),
{
    assert forall|i: int| 0 <= i < ls.len() implies !overlap(slot(1, (m + 1) as u32, w, h), #[trigger] ls[i]) by {
        assert(ls[i].row + ls[i].height - 1 <= m);
    }
}

/// The first free slot starts no lower than just below every layout.
pub proof fn lemma_first_free_row(ls: Seq<DashboardWidgetLayout>, f: DashboardWidgetLayout, m: int, last: u32)
    requires
        is_first_free(ls, f, last),
        rows_within(ls, m),
        0 <= m < u32::MAX,
    ensures
        f.row <= m + 1,
{
    if f.row > m + 1 {
        lemma_free_below(ls, m, f.width, f.height);
        assert(reads_before(1, (m + 1) as u32, f.column, f.row));
        assert(!fits(ls, slot(1, (m + 1) as u32, f.width, f.height)));
    }
}

/// Sorts instances into reading order and places each, in turn, at the
/// first free slot of its size among those placed before it.  A layout
/// holds fewer than 2^30 instances: a memory bound, far beyond any layout
/// that fits in memory, that keeps the grid rows within `u32`.
pub fn compact_widget_instances(instances: Vec<DashboardWidgetInstance>) -> (r: Vec<DashboardWidgetInstance>)
    requires
        instances@.len() < 0x4000_0000,
    ensures
        r@ == compacted(position_order(instances@)),
        r@.len() == instances@.len(),
{
    proof {
        lemma_position_order_len(instances@);
    }
    let ordered = sort_by_position(instances);
    let ghost s = ordered@;
    let mut rest = ordered;
    let mut placed: Vec<DashboardWidgetInstance> = Vec::new();
    let n = rest.len();
    let mut k: usize = 0;
    while k < n
        invariant
            n == s.len(),
            n < 0x4000_0000,
            k <= n,
            rest@ == s.skip(k as int),
            placed@ == compacted(s.take(k as int)),
            placed@.len() == k,
            rows_within(layouts_of(placed@), 3 * k),
        decreases n - k,
    {
        let mut x = rest.remove(0);
        assert(x == s[k as int]);
        assert(rest@ =~= s.skip(k + 1));
        assert(s.take(k + 1).drop_last() =~= s.take(k as int));
        let ghost ls = layouts_of(placed@);
        let ghost w = slot_width(x.layout.width, 7);
        let ghost h = slot_height(x.layout.height);
        let ghost last = last_start(x.layout.width, 7);
        proof {
            lemma_free_below(ls, 3 * k, w, h);
            assert(has_free_slot(ls, w, h, last));
        }
        let l = find_next_available_layout(&placed, x.layout.width, x.layout.height, DASHBOARD_WIDGET_MAX_COLUMNS);
        proof {
            lemma_first_free_row(ls, l, 3 * k, last);
        }
        x.layout = l;
        let ghost before = placed@;
        placed.push(x);
        assert(layouts_of(placed@) =~= ls.push(l));
        assert(rows_within(layouts_of(placed@), 3 * (k + 1))) by {
            assert forall|i: int| 0 <= i < layouts_of(placed@).len() implies #[trigger] layouts_of(placed@)[i].row
                + layouts_of(placed@)[i].height - 1 <= 3 * (k + 1) by {
                if i < k {
                    assert(layouts_of(placed@)[i] == ls[i]);
                }
            }
        }
        k = k + 1;
    }
    assert(s.take(n as int) =~= s);
    placed
}

/// A compacted layout has no two instances sharing a cell, each layout
/// sits on the seven-column grid, and no layout reaches below row three
/// times the number of instances.
pub proof fn lemma_compacted_valid(s: Seq<DashboardWidgetInstance>)
    requires
        s.len() < 0x4000_0000,
    ensures
        compacted(s).len() == s.len(),
        rows_within(layouts_of(compacted(s)), 3 * (s.len() as int)),
        forall|i: int, j: int| 0 <= i < j < compacted(s).len() ==> !overlap(
            #[trigger] compacted(s)[i].layout,
            #[trigger] compacted(s)[j].layout,
        ),
        forall|i: int| 0 <= i < compacted(s).len() ==> layout_error(#[trigger] compacted(s)[i].layout) is None,
    decreases s.len(),
{
    if s.len() > 0 {
        let d = s.drop_last();
        lemma_compacted_valid(d);
        let p = compacted(d);
        let ls = layouts_of(p);
        let x = s.last();
        let w = slot_width(x.layout.width, 7);
        let h = slot_height(x.layout.height);
        let last = last_start(x.layout.width, 7);
        let m: int = 3 * (d.len() as int);
        lemma_free_below(ls, m, w, h);
        lemma_first_free_exists(ls, w, h, last, 1, (m + 1) as u32);
        let f = first_free(ls, w, h, last);
        assert(is_first_free(ls, f, last) && f.width == w && f.height == h);
        lemma_first_free_row(ls, f, m, last);
        let c = compacted(s);
        assert(c == p.push(with_layout(x, f)));
        assert(c[c.len() - 1].layout == f);
        assert forall|i: int, j: int| 0 <= i < j < c.len() implies !overlap(
            #[trigger] c[i].layout,
            #[trigger] c[j].layout,
        ) by {
            if j < c.len() - 1 {
                assert(c[i] == p[i] && c[j] == p[j]);
            } else {
                assert(c[i].layout == ls[i]);
                assert(!overlap(f, ls[i]));
                lemma_overlap_symmetric(f, ls[i]);
            }
        }
        assert forall|i: int| 0 <= i < c.len() implies layout_error(#[trigger] c[i].layout) is None by {
            if i < c.len() - 1 {
                assert(c[i] == p[i]);
            }
        }
        assert(rows_within(layouts_of(c), 3 * (s.len() as int))) by {
            assert forall|i: int| 0 <= i < layouts_of(c).len() implies #[trigger] layouts_of(c)[i].row
                + layouts_of(c)[i].height - 1 <= 3 * s.len() by {
                if i < c.len() - 1 {
                    assert(layouts_of(c)[i] == ls[i]);
                }
            }
        }
    }
}

/// Where some slot is free, a first free slot exists.
pub proof fn lemma_first_free_exists(ls: Seq<DashboardWidgetLayout>, w: u32, h: u32, last: u32, c0: u32, r0: u32)
    requires
        1 <= c0 <= last,
        1 <= r0,
        fits(ls, slot(c0, r0, w, h)),
    ensures
        exists|l: DashboardWidgetLayout| l.width == w && l.height == h && is_first_free(ls, l, last),
    decreases r0, c0,
{
    if exists|cc: u32, rr: u32| 1 <= cc <= last && 1 <= rr && reads_before(cc, rr, c0, r0) && #[trigger] fits(
        ls,
        slot(cc, rr, w, h),
    ) {
        let (cc, rr) = choose|cc: u32, rr: u32| 1 <= cc <= last && 1 <= rr && reads_before(cc, rr, c0, r0)
            && #[trigger] fits(ls, slot(cc, rr, w, h));
        lemma_first_free_exists(ls, w, h, last, cc, rr);
    } else {
        assert(is_first_free(ls, slot(c0, r0, w, h), last));
    }
}


// ---------------------------------------------------------------------------
// Checks of instances and states
// ---------------------------------------------------------------------------

fn text3(a: &str, b: &str, c: &str) -> (r: String)
    ensures
        r@ == a@ + b@ + c@,
{
    let mut v = chars_of(a);
    crate::text::append_str(&mut v, b);
    crate::text::append_str(&mut v, c);
    crate::text::string_of(v.as_slice())
}

fn text5(a: &str, b: &str, c: &str, d: &str, e: &str) -> (r: String)
    ensures
        r@ == a@ + b@ + c@ + d@ + e@,
{
    let mut v = chars_of(a);
    crate::text::append_str(&mut v, b);
    crate::text::append_str(&mut v, c);
    crate::text::append_str(&mut v, d);
    crate::text::append_str(&mut v, e);
    crate::text::string_of(v.as_slice())
}

fn text7(a: &str, b: &str, c: &str, d: &str, e: &str, f: &str, g: &str) -> (r: String)
    ensures
        r@ == a@ + b@ + c@ + d@ + e@ + f@ + g@,
{
    let mut v = chars_of(a);
    crate::text::append_str(&mut v, b);
    crate::text::append_str(&mut v, c);
    crate::text::append_str(&mut v, d);
    crate::text::append_str(&mut v, e);
    crate::text::append_str(&mut v, f);
    crate::text::append_str(&mut v, g);
    crate::text::string_of(v.as_slice())
}

/// A character an instance ID or configuration key may hold: an ASCII
/// letter or digit, `_` or `-`.
pub open spec fn key_char(c: char) -> bool {
    crate::text::is_ascii_alnum(c) || c == '_' || c == '-'
}

fn key_chars(v: &[char]) -> (r: bool)
    ensures
        r == forall|i: int| 0 <= i < v@.len() ==> key_char(#[trigger] v@[i]),
{
    let n = v.len();
    let mut i: usize = 0;
    while i < n
        invariant
            n == v@.len(),
            i <= n,
            forall|j: int| 0 <= j < i ==> key_char(#[trigger] v@[j]),
        decreases n - i,
    {
        let c = v[i];
        if !(crate::text::is_ascii_alnum_exec(c) || c == '_' || c == '-') {
            return false;
        }
        i = i + 1;
    }
    true
}

/// An instance ID starts with `bl_widget_` and holds only ASCII letters,
/// digits, `_` and `-`.
pub open spec fn safe_instance_id(v: Seq<char>) -> bool {
    crate::text::has_prefix(v, "bl_widget_"@) && forall|i: int| 0 <= i < v.len() ==> key_char(#[trigger] v[i])
}

/// Whether an instance ID is safe.
pub fn safe_instance_id_exec(value: &str) -> (r: bool)
    ensures
        r == safe_instance_id(value@),
{
    let c = chars_of(value);
    crate::text::starts_with_str(c.as_slice(), "bl_widget_") && key_chars(c.as_slice())
}

/// A widget's module ID is not empty and holds only lowercase ASCII
/// letters, digits and `_`.
pub open spec fn safe_widget_module_id(v: Seq<char>) -> bool {
    v.len() > 0 && forall|i: int| 0 <= i < v.len() ==> (('a' <= #[trigger] v[i] && v[i] <= 'z') || ('0' <= v[i]
        && v[i] <= '9') || v[i] == '_')
}

fn safe_widget_module_id_exec(value: &str) -> (r: bool)
    ensures
        r == safe_widget_module_id(value@),
{
    let v = chars_of(value);
    let n = v.len();
    if n == 0 {
        return false;
    }
    let mut i: usize = 0;
    while i < n
        invariant
            n == v@.len(),
            v@ == value@,
            i <= n,
            forall|j: int| 0 <= j < i ==> (('a' <= #[trigger] v@[j] && v@[j] <= 'z') || ('0' <= v@[j] && v@[j]
                <= '9') || v@[j] == '_'),
        decreases n - i,
    {
        let c = v[i];
        if !(('a' <= c && c <= 'z') || ('0' <= c && c <= '9') || c == '_') {
            return false;
        }
        i = i + 1;
    }
    true
}

/// The keys a widget configuration may not use.
pub open spec fn reserved_config_keys() -> Seq<Seq<char>> {
    seq!["path"@, "component"@, "script"@, "stylesheet"@, "url"@, "html"@, "jsx"@, "tsx"@, "css"@]
}

/// A configuration key is not reserved and holds only ASCII letters,
/// digits, `_` and `-`.
pub open spec fn safe_config_key(v: Seq<char>) -> bool {
    !reserved_config_keys().contains(v) && forall|i: int| 0 <= i < v.len() ==> key_char(#[trigger] v[i])
}

/// Whether a configuration key is safe.
pub fn safe_config_key_exec(value: &str) -> (r: bool)
    ensures
        r == safe_config_key(value@),
{
    let v = vec!["path", "component", "script", "stylesheet", "url", "html", "jsx", "tsx", "css"];
    assert(v@.map_values(|s: &str| s@) =~= reserved_config_keys());
    let xc = chars_of(value);
    let n = v.len();
    let mut i: usize = 0;
    while i < n
        invariant
            n == v@.len(),
            xc@ == value@,
            v@.map_values(|s: &str| s@) == reserved_config_keys(),
            i <= n,
            forall|j: int| 0 <= j < i ==> v@[j]@ != value@,
        decreases n - i,
    {
        if eq_str(xc.as_slice(), v[i]) {
            assert(reserved_config_keys()[i as int] == value@);
            return false;
        }
        i = i + 1;
    }
    key_chars(xc.as_slice())
}

/// The first unsafe configuration key, in order.
pub open spec fn first_unsafe_key(e: Seq<(String, SchemaValue)>) -> Option<Seq<char>>
    decreases e.len(),
{
    if e.len() == 0 {
        None
    } else {
        match first_unsafe_key(e.drop_last()) {
            Some(k) => Some(k),
            None => if safe_config_key(e.last().0@) {
                None
            } else {
                Some(e.last().0@)
            },
        }
    }
}

/// The problem of an instance: an unsafe instance ID, widget type or
/// module ID, a widget type of another module, a layout off the grid, or an
/// unsafe configuration key.
pub open spec fn instance_error(i: DashboardWidgetInstance) -> Option<Seq<char>> {
    if !safe_instance_id(i.instance_id@) {
        Some("Dashboard widget instance ID '"@ + i.instance_id@ + "' is not safe."@)
    } else if !crate::module_schema::safe_widget_id(i.widget_type@) {
        Some("Dashboard widget type '"@ + i.widget_type@ + "' is not safe."@)
    } else if !safe_widget_module_id(i.module_id@) {
        Some("Dashboard widget module ID '"@ + i.module_id@ + "' is not safe."@)
    } else if !crate::text::has_prefix(i.widget_type@, i.module_id@ + "."@) {
        Some("Dashboard widget '"@ + i.widget_type@ + "' must belong to module '"@ + i.module_id@ + "'."@)
    } else if layout_error(i.layout) is Some {
        layout_error(i.layout)
    } else {
        match first_unsafe_key(i.config@) {
            Some(k) => Some("Dashboard widget config key '"@ + k + "' is not safe."@),
            None => None,
        }
    }
}

fn check_config_keys(e: &Vec<(String, SchemaValue)>) -> (r: Option<String>)
    ensures
        match r {
            Some(k) => first_unsafe_key(e@) == Some(k@),
            None => first_unsafe_key(e@) is None,
        },
{
    let n = e.len();
    let mut i: usize = 0;
    assert(e@.take(0) =~= Seq::<(String, SchemaValue)>::empty());
    while i < n
        invariant
            n == e@.len(),
            i <= n,
            first_unsafe_key(e@.take(i as int)) is None,
        decreases n - i,
    {
        assert(e@.take(i + 1).drop_last() =~= e@.take(i as int));
        if !safe_config_key_exec(e[i].0.as_str()) {
            proof {
                lemma_first_unsafe_prefix(e@, i + 1);
            }
            return Some(e[i].0.clone());
        }
        i = i + 1;
    }
    assert(e@.take(n as int) =~= e@);
    None
}

proof fn lemma_first_unsafe_prefix(e: Seq<(String, SchemaValue)>, k: int)
    requires
        0 <= k <= e.len(),
        first_unsafe_key(e.take(k)) is Some,
    ensures
        first_unsafe_key(e) == first_unsafe_key(e.take(k)),
    decreases e.len() - k,
{
    if k < e.len() {
        assert(e.take(k + 1).drop_last() =~= e.take(k));
        lemma_first_unsafe_prefix(e, k + 1);
    } else {
        assert(e.take(k) =~= e);
    }
}

impl DashboardWidgetInstance {
    /// Checks an instance on its own (see `instance_error`).
    pub fn validate_basic(&self) -> (r: Result<(), String>)
        ensures
            match r {
                Ok(_) => instance_error(*self) is None,
                Err(e) => instance_error(*self) == Some(e@),
            },
    {
        if !safe_instance_id_exec(self.instance_id.as_str()) {
            return Err(text3("Dashboard widget instance ID '", self.instance_id.as_str(), "' is not safe."));
        }
        if !crate::module_schema::safe_widget_id_exec(self.widget_type.as_str()) {
            return Err(text3("Dashboard widget type '", self.widget_type.as_str(), "' is not safe."));
        }
        if !safe_widget_module_id_exec(self.module_id.as_str()) {
            return Err(text3("Dashboard widget module ID '", self.module_id.as_str(), "' is not safe."));
        }
        let prefix = text3("", self.module_id.as_str(), ".");
        proof {
            reveal_strlit("");
            assert(""@ + self.module_id@ + "."@ =~= self.module_id@ + "."@);
        }
        let wc = chars_of(self.widget_type.as_str());
        let pc = chars_of(prefix.as_str());
        if !crate::text::starts_with(wc.as_slice(), pc.as_slice()) {
            return Err(text5("Dashboard widget '", self.widget_type.as_str(), "' must belong to module '",
                self.module_id.as_str(), "'."));
        }
        validate_layout(&self.layout)?;
        match check_config_keys(&self.config) {
            Some(k) => Err(text3("Dashboard widget config key '", k.as_str(), "' is not safe.")),
            None => Ok(()),
        }
    }
}

/// The first problem of instances in order: a problem of an instance, or an
/// ID that an earlier instance has.
pub open spec fn instances_error(s: Seq<DashboardWidgetInstance>) -> Option<Seq<char>>
    decreases s.len(),
{
    if s.len() == 0 {
        None
    } else {
        match instances_error(s.drop_last()) {
            Some(e) => Some(e),
            None => match instance_error(s.last()) {
                Some(e) => Some(e),
                None => if instance_ids(s.drop_last()).contains(s.last().instance_id@) {
                    Some("Duplicate Dashboard widget instance '"@ + s.last().instance_id@ + "'."@)
                } else {
                    None
                },
            },
        }
    }
}

/// The IDs of instances, in order.
pub open spec fn instance_ids(s: Seq<DashboardWidgetInstance>) -> Seq<Seq<char>> {
    s.map_values(|i: DashboardWidgetInstance| i.instance_id@)
}

/// The problem of a widget state of a version with instances: an unknown
/// version, a problem of its instances, or two instances sharing a cell.
pub open spec fn state_error_of(version: u32, s: Seq<DashboardWidgetInstance>) -> Option<Seq<char>> {
    if version != 1 {
        Some("Unsupported Dashboard widget state version "@ + crate::storage::decimal(version as nat) + "."@)
    } else {
        match instances_error(s) {
            Some(e) => Some(e),
            None => if has_blocking_overlap(s, None) {
                Some(layout_blocked_text())
            } else {
                None
            },
        }
    }
}

/// The problem of a widget state (see `state_error_of`).
pub open spec fn state_error(st: DashboardWidgetState) -> Option<Seq<char>> {
    state_error_of(st.schema_version, st.instances@)
}

proof fn lemma_instances_error_prefix(s: Seq<DashboardWidgetInstance>, k: int)
    requires
        0 <= k <= s.len(),
        instances_error(s.take(k)) is Some,
    ensures
        instances_error(s) == instances_error(s.take(k)),
    decreases s.len() - k,
{
    if k < s.len() {
        assert(s.take(k + 1).drop_last() =~= s.take(k));
        lemma_instances_error_prefix(s, k + 1);
    } else {
        assert(s.take(k) =~= s);
    }
}

fn check_instances(s: &Vec<DashboardWidgetInstance>) -> (r: Result<(), String>)
    ensures
        match r {
            Ok(_) => instances_error(s@) is None,
            Err(e) => instances_error(s@) == Some(e@),
        },
{
    let mut ids: Vec<String> = Vec::new();
    let n = s.len();
    let mut i: usize = 0;
    assert(s@.take(0) =~= Seq::<DashboardWidgetInstance>::empty());
    while i < n
        invariant
            n == s@.len(),
            i <= n,
            instances_error(s@.take(i as int)) is None,
            string_views(ids@) == instance_ids(s@.take(i as int)),
        decreases n - i,
    {
        assert(s@.take(i + 1).drop_last() =~= s@.take(i as int));
        assert(s@.take(i + 1).last() == s@[i as int]);
        match s[i].validate_basic() {
            Err(e) => {
                proof {
                    lemma_instances_error_prefix(s@, i + 1);
                }
                return Err(e);
            },
            Ok(_) => {},
        }
        if crate::module_schema::contains_text(&ids, &s[i].instance_id) {
            proof {
                lemma_instances_error_prefix(s@, i + 1);
            }
            return Err(text3("Duplicate Dashboard widget instance '", s[i].instance_id.as_str(), "'."));
        }
        let ghost before = string_views(ids@);
        ids.push(s[i].instance_id.clone());
        assert(string_views(ids@) =~= before.push(s@[i as int].instance_id@));
        assert(instance_ids(s@.take(i + 1)) =~= instance_ids(s@.take(i as int)).push(s@[i as int].instance_id@));
        i = i + 1;
    }
    assert(s@.take(n as int) =~= s@);
    Ok(())
}

impl DashboardWidgetState {
    /// Checks a state (see `state_error`).
    pub fn validate_basic(&self) -> (r: Result<(), String>)
        ensures
            match r {
                Ok(_) => state_error(*self) is None,
                Err(e) => state_error(*self) == Some(e@),
            },
    {
        if self.schema_version != DASHBOARD_WIDGET_STATE_VERSION {
            let d = crate::storage::decimal_exec(self.schema_version as u64);
            let ds = crate::text::string_of(d.as_slice());
            return Err(text3("Unsupported Dashboard widget state version ", ds.as_str(), "."));
        }
        check_instances(&self.instances)?;
        validate_no_layout_overlap(&self.instances, None)
    }
}

/// A layout clamped onto the grid: column and width to `1..=7`, row to at
/// least 1, height to `1..=3`, and the width cut so the layout ends by the
/// seventh column.
pub open spec fn clamped_layout(l: DashboardWidgetLayout) -> DashboardWidgetLayout {
    let column = clamp(l.column, 1, 7);
    let row = if l.row < 1 {
        1
    } else {
        l.row
    };
    let width = clamp(l.width, 1, 7);
    let height = clamp(l.height, 1, 3);
    DashboardWidgetLayout {
        column,
        row,
        width: if column + width - 1 > 7 {
            (7 - column + 1) as u32
        } else {
            width
        },
        height,
    }
}

/// The warnings of layouts that clamping changes, in order.
pub open spec fn clamp_warnings(s: Seq<DashboardWidgetInstance>) -> Seq<Seq<char>>
    decreases s.len(),
{
    if s.len() == 0 {
        seq![]
    } else {
        let rest = clamp_warnings(s.drop_last());
        if clamped_layout(s.last().layout) != s.last().layout {
            rest.push(
                "Widget instance '"@ + s.last().instance_id@
                    + "' had invalid layout values and was clamped to the V5 dashboard grid."@,
            )
        } else {
            rest
        }
    }
}

fn clamp_layout(l: DashboardWidgetLayout) -> (r: DashboardWidgetLayout)
    ensures
        r == clamped_layout(l),
{
    let column = clamp_layout_value(l.column, 1, DASHBOARD_WIDGET_MAX_COLUMNS);
    let row = if l.row < 1 {
        1
    } else {
        l.row
    };
    let width = clamp_layout_value(l.width, 1, DASHBOARD_WIDGET_MAX_COLUMNS);
    let height = clamp_layout_value(l.height, 1, DASHBOARD_WIDGET_MAX_HEIGHT);
    let width = if column + width - 1 > DASHBOARD_WIDGET_MAX_COLUMNS {
        DASHBOARD_WIDGET_MAX_COLUMNS - column + 1
    } else {
        width
    };
    DashboardWidgetLayout { column, row, width, height }
}

impl DashboardWidgetState {
    /// Clamps every layout onto the grid and returns a warning for each
    /// layout that changed.
    pub fn normalize_recoverable_layouts(&mut self) -> (r: Vec<String>)
        ensures
            final(self).instances@ == old(self).instances@.map_values(
                |i: DashboardWidgetInstance| with_layout(i, clamped_layout(i.layout)),
            ),
            final(self).schema_version == old(self).schema_version,
            final(self).warnings@ == old(self).warnings@,
            final(self).recovery_backup_path == old(self).recovery_backup_path,
            final(self).last_layout_operation == old(self).last_layout_operation,
            string_views(r@) == clamp_warnings(old(self).instances@),
    {
        let ghost s = self.instances@;
        let ghost target = s.map_values(|i: DashboardWidgetInstance| with_layout(i, clamped_layout(i.layout)));
        let mut rest: Vec<DashboardWidgetInstance> = Vec::new();
        std::mem::swap(&mut rest, &mut self.instances);
        let mut out: Vec<DashboardWidgetInstance> = Vec::new();
        let mut warnings: Vec<String> = Vec::new();
        let n = rest.len();
        let mut k: usize = 0;
        assert(s.take(0) =~= Seq::<DashboardWidgetInstance>::empty());
        while k < n
            invariant
                n == s.len(),
                target == s.map_values(|i: DashboardWidgetInstance| with_layout(i, clamped_layout(i.layout))),
                k <= n,
                rest@ == s.skip(k as int),
                out@ == target.take(k as int),
                string_views(warnings@) == clamp_warnings(s.take(k as int)),
            decreases n - k,
        {
            let mut x = rest.remove(0);
            assert(x == s[k as int]);
            assert(rest@ =~= s.skip(k + 1));
            assert(s.take(k + 1).drop_last() =~= s.take(k as int));
            let l = clamp_layout(x.layout);
            if l != x.layout {
                let ghost before = string_views(warnings@);
                warnings.push(text3("Widget instance '", x.instance_id.as_str(),
                    "' had invalid layout values and was clamped to the V5 dashboard grid."));
                assert(string_views(warnings@) =~= before.push(string_views(warnings@).last()));
            }
            x.layout = l;
            out.push(x);
            assert(target.take(k + 1) =~= target.take(k as int).push(target[k as int]));
            k = k + 1;
        }
        assert(target.take(n as int) =~= target);
        assert(s.take(n as int) =~= s);
        self.instances = out;
        warnings
    }
}


// ---------------------------------------------------------------------------
// Widget configuration
// ---------------------------------------------------------------------------

/// A copy of a schema value.
pub fn copy_value(v: &SchemaValue) -> (r: SchemaValue)
    ensures
        r == *v,
{
    match v {
        SchemaValue::Null => SchemaValue::Null,
        SchemaValue::Bool(b) => SchemaValue::Bool(*b),
        SchemaValue::Number(n) => SchemaValue::Number(n.clone()),
        SchemaValue::Text(t) => SchemaValue::Text(t.clone()),
        SchemaValue::Array { all_text, json } => SchemaValue::Array { all_text: *all_text, json: json.clone() },
        SchemaValue::Object { json } => SchemaValue::Object { json: json.clone() },
    }
}

/// The definition of a configuration field, by key (the first entry with
/// the key).
pub open spec fn config_field(
    schema: Seq<(String, crate::module_schema::WidgetConfigFieldDefinition)>,
    key: Seq<char>,
) -> Option<crate::module_schema::WidgetConfigFieldDefinition>
    decreases schema.len(),
{
    if schema.len() == 0 {
        None
    } else if schema[0].0@ == key {
        Some(schema[0].1)
    } else {
        config_field(schema.skip(1), key)
    }
}

/// A value has the type of its field: text for text and date ranges, a
/// number, a boolean, one of the options for an enum, or an array of texts
/// for tags.
pub open spec fn value_matches(f: crate::module_schema::WidgetConfigFieldDefinition, v: SchemaValue) -> bool {
    let t = f.field_type@;
    if t == "text"@ || t == "date_range"@ || t == "date range"@ {
        v is Text
    } else if t == "number"@ {
        v is Number
    } else if t == "boolean"@ {
        v is Bool
    } else if t == "enum"@ {
        v matches SchemaValue::Text(x) && string_views(f.options@).contains(x@)
    } else if t == "tags"@ {
        v matches SchemaValue::Array { all_text, .. } && all_text
    } else {
        false
    }
}

/// A text value that starts, after leading whitespace, with `http://` or
/// `https://`.
pub open spec fn remote_text(v: SchemaValue) -> bool {
    v matches SchemaValue::Text(x) && (crate::text::has_prefix(crate::text::trim_start(x@), "http://"@)
        || crate::text::has_prefix(crate::text::trim_start(x@), "https://"@))
}

/// The problem of one configuration entry of a widget type.
pub open spec fn config_entry_problem(w: WidgetTypeDefinition, key: Seq<char>, v: SchemaValue) -> Option<Seq<char>> {
    if !safe_config_key(key) {
        Some("Widget config key '"@ + key + "' is not safe."@)
    } else {
        match config_field(w.config_schema@, key) {
            None => Some("Widget type '"@ + w.id@ + "' does not define config field '"@ + key + "'."@),
            Some(f) => if !value_matches(f, v) {
                Some(
                    "Widget type '"@ + w.id@ + "' config field '"@ + key + "' does not match type '"@ + f.field_type@
                        + "'."@,
                )
            } else if remote_text(v) {
                Some("Widget type '"@ + w.id@ + "' config field '"@ + key + "' may not reference a remote URL."@)
            } else {
                None
            },
        }
    }
}

/// The first problem of a configuration, in order.
pub open spec fn config_problem(w: WidgetTypeDefinition, e: Seq<(String, SchemaValue)>) -> Option<Seq<char>>
    decreases e.len(),
{
    if e.len() == 0 {
        None
    } else {
        match config_problem(w, e.drop_last()) {
            Some(p) => Some(p),
            None => config_entry_problem(w, e.last().0@, e.last().1),
        }
    }
}

fn find_config_field<'a>(
    schema: &'a Vec<(String, crate::module_schema::WidgetConfigFieldDefinition)>,
    key: &str,
) -> (r: Option<&'a crate::module_schema::WidgetConfigFieldDefinition>)
    ensures
        match r {
            Some(f) => config_field(schema@, key@) == Some(*f),
            None => config_field(schema@, key@) is None,
        },
{
    let kc = chars_of(key);
    let n = schema.len();
    let mut i: usize = 0;
    assert(schema@.skip(0) =~= schema@);
    while i < n
        invariant
            n == schema@.len(),
            kc@ == key@,
            i <= n,
            config_field(schema@, key@) == config_field(schema@.skip(i as int), key@),
        decreases n - i,
    {
        assert(schema@.skip(i as int)[0] == schema@[i as int]);
        assert(schema@.skip(i as int).skip(1) =~= schema@.skip(i + 1));
        let c = chars_of(schema[i].0.as_str());
        if crate::text::seq_eq(c.as_slice(), kc.as_slice()) {
            return Some(&schema[i].1);
        }
        i = i + 1;
    }
    None
}

fn contains_string(v: &Vec<String>, x: &str) -> (r: bool)
    ensures
        r == string_views(v@).contains(x@),
{
    let s = owned(x);
    crate::module_schema::contains_text(v, &s)
}

fn value_matches_exec(f: &crate::module_schema::WidgetConfigFieldDefinition, v: &SchemaValue) -> (r: bool)
    ensures
        r == value_matches(*f, *v),
{
    let t = chars_of(f.field_type.as_str());
    if eq_str(t.as_slice(), "text") || eq_str(t.as_slice(), "date_range") || eq_str(t.as_slice(), "date range") {
        matches!(v, SchemaValue::Text(_))
    } else if eq_str(t.as_slice(), "number") {
        matches!(v, SchemaValue::Number(_))
    } else if eq_str(t.as_slice(), "boolean") {
        matches!(v, SchemaValue::Bool(_))
    } else if eq_str(t.as_slice(), "enum") {
        match v {
            SchemaValue::Text(x) => contains_string(&f.options, x.as_str()),
            _ => false,
        }
    } else if eq_str(t.as_slice(), "tags") {
        match v {
            SchemaValue::Array { all_text, .. } => *all_text,
            _ => false,
        }
    } else {
        false
    }
}

fn remote_text_exec(v: &SchemaValue) -> (r: bool)
    ensures
        r == remote_text(*v),
{
    match v {
        SchemaValue::Text(x) => {
            let c = chars_of(x.as_str());
            let t = crate::text::trim_start_exec(c.as_slice(), crate::text::Strip::Whitespace);
            crate::text::starts_with_str(t.as_slice(), "http://") || crate::text::starts_with_str(
                t.as_slice(),
                "https://",
            )
        },
        _ => false,
    }
}

proof fn lemma_config_problem_prefix(w: WidgetTypeDefinition, e: Seq<(String, SchemaValue)>, k: int)
    requires
        0 <= k <= e.len(),
        config_problem(w, e.take(k)) is Some,
    ensures
        config_problem(w, e) == config_problem(w, e.take(k)),
    decreases e.len() - k,
{
    if k < e.len() {
        assert(e.take(k + 1).drop_last() =~= e.take(k));
        lemma_config_problem_prefix(w, e, k + 1);
    } else {
        assert(e.take(k) =~= e);
    }
}

/// Checks a widget configuration against its widget type, entry by entry:
/// a safe key, a field the type defines, a value of the field's type, and
/// no remote URL.
pub fn validate_widget_config(widget: &WidgetTypeDefinition, config: &Vec<(String, SchemaValue)>) -> (r: Result<
    (),
    String,
>)
    ensures
        match r {
            Ok(_) => config_problem(*widget, config@) is None,
            Err(e) => config_problem(*widget, config@) == Some(e@),
        },
{
    let n = config.len();
    let mut i: usize = 0;
    assert(config@.take(0) =~= Seq::<(String, SchemaValue)>::empty());
    while i < n
        invariant
            n == config@.len(),
            i <= n,
            config_problem(*widget, config@.take(i as int)) is None,
        decreases n - i,
    {
        assert(config@.take(i + 1).drop_last() =~= config@.take(i as int));
        assert(config@.take(i + 1).last() == config@[i as int]);
        let key = config[i].0.as_str();
        let value = &config[i].1;
        let problem: Option<String> = if !safe_config_key_exec(key) {
            Some(text3("Widget config key '", key, "' is not safe."))
        } else {
            match find_config_field(&widget.config_schema, key) {
                None => Some(text5("Widget type '", widget.id.as_str(), "' does not define config field '", key, "'.")),
                Some(f) => if !value_matches_exec(f, value) {
                    Some(text7("Widget type '", widget.id.as_str(), "' config field '", key, "' does not match type '",
                        f.field_type.as_str(), "'."))
                } else if remote_text_exec(value) {
                    Some(text5("Widget type '", widget.id.as_str(), "' config field '", key,
                        "' may not reference a remote URL."))
                } else {
                    None
                },
            }
        };
        match problem {
            Some(p) => {
                proof {
                    lemma_config_problem_prefix(*widget, config@, i + 1);
                }
                return Err(p);
            },
            None => {},
        }
        i = i + 1;
    }
    assert(config@.take(n as int) =~= config@);
    Ok(())
}

/// The sizes a widget type allows include a size.
pub open spec fn size_allowed(w: WidgetTypeDefinition, width: u32, height: u32) -> bool {
    exists|i: int| 0 <= i < w.allowed_sizes@.len() && #[trigger] w.allowed_sizes@[i] == (
    crate::module_schema::WidgetSizeDefinition { width, height })
}

/// Checks that a widget type allows a size.
pub fn ensure_allowed_size(widget: &WidgetTypeDefinition, width: u32, height: u32) -> (r: Result<(), String>)
    ensures
        r is Ok <==> size_allowed(*widget, width, height),
        r matches Err(e) ==> e@ == "Widget type '"@ + widget.id@ + "' does not allow size "@ + crate::storage::decimal(
            width as nat,
        ) + "x"@ + crate::storage::decimal(height as nat) + "."@,
{
    let n = widget.allowed_sizes.len();
    let mut i: usize = 0;
    while i < n
        invariant
            n == widget.allowed_sizes@.len(),
            i <= n,
            forall|j: int| 0 <= j < i ==> widget.allowed_sizes@[j] != (crate::module_schema::WidgetSizeDefinition {
                width,
                height,
            }),
        decreases n - i,
    {
        let z = widget.allowed_sizes[i];
        if z.width == width && z.height == height {
            assert(widget.allowed_sizes@[i as int] == (crate::module_schema::WidgetSizeDefinition { width, height }));
            return Ok(());
        }
        i = i + 1;
    }
    let wd = crate::storage::decimal_exec(width as u64);
    let hd = crate::storage::decimal_exec(height as u64);
    let ws = crate::text::string_of(wd.as_slice());
    let hs = crate::text::string_of(hd.as_slice());
    Err(text7("Widget type '", widget.id.as_str(), "' does not allow size ", ws.as_str(), "x", hs.as_str(), "."))
}

/// The defaults of a widget type's configuration fields, in order.
pub open spec fn config_defaults(schema: Seq<(String, crate::module_schema::WidgetConfigFieldDefinition)>) -> Seq<(String, SchemaValue)>
    decreases schema.len(),
{
    if schema.len() == 0 {
        seq![]
    } else {
        let rest = config_defaults(schema.drop_last());
        match schema.last().1.default_value {
            Some(v) => rest.push((schema.last().0, v)),
            None => rest,
        }
    }
}

/// The configuration a new widget of a type starts with: each field's
/// default, where it has one.
pub fn default_config(widget: &WidgetTypeDefinition) -> (r: Vec<(String, SchemaValue)>)
    ensures
        r@ == config_defaults(widget.config_schema@),
{
    let mut out: Vec<(String, SchemaValue)> = Vec::new();
    let n = widget.config_schema.len();
    let mut i: usize = 0;
    while i < n
        invariant
            n == widget.config_schema@.len(),
            i <= n,
            out@ == config_defaults(widget.config_schema@.take(i as int)),
        decreases n - i,
    {
        assert(widget.config_schema@.take(i + 1).drop_last() =~= widget.config_schema@.take(i as int));
        assert(widget.config_schema@.take(i + 1).last() == widget.config_schema@[i as int]);
        match &widget.config_schema[i].1.default_value {
            Some(v) => {
                out.push((widget.config_schema[i].0.clone(), copy_value(v)));
            },
            None => {},
        }
        i = i + 1;
    }
    assert(widget.config_schema@.take(n as int) =~= widget.config_schema@);
    out
}


// ---------------------------------------------------------------------------
// Instances against the module registry
// ---------------------------------------------------------------------------

/// The module with an ID (the first one).
pub open spec fn module_with_id(ms: Seq<ModuleView>, id: Seq<char>) -> Option<ModuleView> {
    match crate::module_registry::first_with_id(ms, id) {
        Some(i) => Some(ms[i]),
        None => None,
    }
}

/// A module offers a widget type.
pub open spec fn offers_widget(m: ModuleView, widget_type: Seq<char>) -> bool {
    exists|j: int| 0 <= j < m.widget_types.len() && #[trigger] m.widget_types[j].id@ == widget_type
}

/// Whether an instance is active, its status and its warnings, given the
/// registry's modules.
pub open spec fn widget_status(i: DashboardWidgetInstance, ms: Seq<ModuleView>) -> (bool, Seq<char>, Seq<Seq<char>>) {
    let id = i.instance_id@;
    match module_with_id(ms, i.module_id@) {
        None => (
            false,
            "unavailable_module"@,
            seq!["Widget instance '"@ + id + "' references unknown module '"@ + i.module_id@ + "'."@],
        ),
        Some(m) => if !m.installed {
            (
                false,
                "uninstalled_module"@,
                seq!["Widget instance '"@ + id + "' references uninstalled module '"@ + i.module_id@ + "'."@],
            )
        } else if !offers_widget(m, i.widget_type@) {
            (
                false,
                "unavailable_widget_type"@,
                seq!["Widget instance '"@ + id + "' references unavailable widget type '"@ + i.widget_type@ + "'."@],
            )
        } else if !m.enabled {
            (
                false,
                "inactive_module_disabled"@,
                seq!["Widget instance '"@ + id + "' is inactive because module '"@ + i.module_id@ + "' is disabled."@],
            )
        } else {
            (true, "active"@, seq![])
        },
    }
}

/// Two instances agree on everything but their status.
pub open spec fn same_widget(a: DashboardWidgetInstance, b: DashboardWidgetInstance) -> bool {
    &&& a.instance_id == b.instance_id
    &&& a.widget_type == b.widget_type
    &&& a.module_id == b.module_id
    &&& a.title == b.title
    &&& a.config@ == b.config@
    &&& a.layout == b.layout
    &&& a.collapsed == b.collapsed
}

/// An instance carries the status the registry gives it.
pub open spec fn reconciled(a: DashboardWidgetInstance, b: DashboardWidgetInstance, ms: Seq<ModuleView>) -> bool {
    &&& same_widget(a, b)
    &&& b.active == widget_status(a, ms).0
    &&& b.status@ == widget_status(a, ms).1
    &&& string_views(b.warnings@) == widget_status(a, ms).2
}

/// The warnings of instances, in order.
pub open spec fn instance_warnings(s: Seq<DashboardWidgetInstance>) -> Seq<Seq<char>>
    decreases s.len(),
{
    if s.len() == 0 {
        seq![]
    } else {
        instance_warnings(s.drop_last()) + string_views(s.last().warnings@)
    }
}

fn module_at<'a>(registry: &'a RegistryState, module_id: &String) -> (r: Option<&'a crate::module_registry::ModuleDefinition>)
    ensures
        match r {
            Some(m) => module_with_id(module_views(registry.modules@), module_id@) == Some(module_view(*m)),
            None => module_with_id(module_views(registry.modules@), module_id@) is None,
        },
{
    match crate::module_registry::find_module(&registry.modules, module_id) {
        Some(i) => Some(&registry.modules[i]),
        None => None,
    }
}

fn find_widget_in<'a>(m: &'a crate::module_registry::ModuleDefinition, widget_type: &str) -> (r: Option<&'a WidgetTypeDefinition>)
    ensures
        match r {
            Some(w) => w.id@ == widget_type@ && exists|j: int| 0 <= j < m.widget_types@.len() && m.widget_types@[j] == *w,
            None => !offers_widget(module_view(*m), widget_type@),
        },
{
    let wc = chars_of(widget_type);
    let n = m.widget_types.len();
    let mut i: usize = 0;
    while i < n
        invariant
            n == m.widget_types@.len(),
            wc@ == widget_type@,
            i <= n,
            forall|j: int| 0 <= j < i ==> m.widget_types@[j].id@ != widget_type@,
        decreases n - i,
    {
        let c = chars_of(m.widget_types[i].id.as_str());
        if crate::text::seq_eq(c.as_slice(), wc.as_slice()) {
            return Some(&m.widget_types[i]);
        }
        i = i + 1;
    }
    None
}

fn one_warning(w: String) -> (r: Vec<String>)
    ensures
        string_views(r@) == seq![w@],
{
    let mut v: Vec<String> = Vec::new();
    v.push(w);
    assert(string_views(v@) =~= seq![w@]);
    v
}

fn status_for(x: &DashboardWidgetInstance, registry: &RegistryState) -> (r: (bool, String, Vec<String>))
    ensures
        r.0 == widget_status(*x, module_views(registry.modules@)).0,
        r.1@ == widget_status(*x, module_views(registry.modules@)).1,
        string_views(r.2@) == widget_status(*x, module_views(registry.modules@)).2,
{
    match module_at(registry, &x.module_id) {
        None => (false, owned("unavailable_module"), one_warning(text5("Widget instance '", x.instance_id.as_str(),
            "' references unknown module '", x.module_id.as_str(), "'."))),
        Some(m) => {
            if !m.installed {
                (false, owned("uninstalled_module"), one_warning(text5("Widget instance '", x.instance_id.as_str(),
                    "' references uninstalled module '", x.module_id.as_str(), "'.")))
            } else if find_widget_in(m, x.widget_type.as_str()).is_none() {
                (false, owned("unavailable_widget_type"), one_warning(text5("Widget instance '",
                    x.instance_id.as_str(), "' references unavailable widget type '", x.widget_type.as_str(), "'.")))
            } else if !m.enabled {
                (false, owned("inactive_module_disabled"), one_warning(text5("Widget instance '",
                    x.instance_id.as_str(), "' is inactive because module '", x.module_id.as_str(), "' is disabled.")))
            } else {
                let v: Vec<String> = Vec::new();
                assert(string_views(v@) =~= seq![]);
                (true, owned("active"), v)
            }
        },
    }
}

fn reconcile_one(x: &mut DashboardWidgetInstance, registry: &RegistryState)
    ensures
        reconciled(*old(x), *final(x), module_views(registry.modules@)),
{
    let (a, st, ws) = status_for(x, registry);
    x.active = a;
    x.status = st;
    x.warnings = ws;
}

impl DashboardWidgetState {
    /// Gives each instance the status the registry gives it (active, or why
    /// not, with a warning) and adds the instances' warnings to the
    /// state's.
    pub fn reconcile(&mut self, registry: &RegistryState)
        ensures
            final(self).instances@.len() == old(self).instances@.len(),
            forall|k: int| 0 <= k < old(self).instances@.len() ==> reconciled(
                #[trigger] old(self).instances@[k],
                final(self).instances@[k],
                module_views(registry.modules@),
            ),
            string_views(final(self).warnings@) == string_views(old(self).warnings@) + instance_warnings(
                final(self).instances@,
            ),
            final(self).schema_version == old(self).schema_version,
            final(self).recovery_backup_path == old(self).recovery_backup_path,
            final(self).last_layout_operation == old(self).last_layout_operation,
    {
        let ghost s = self.instances@;
        let ghost ms = module_views(registry.modules@);
        let ghost w0 = string_views(self.warnings@);
        let ghost sv = self.schema_version;
        let ghost bp = self.recovery_backup_path;
        let ghost lo = self.last_layout_operation;
        let mut rest: Vec<DashboardWidgetInstance> = Vec::new();
        std::mem::swap(&mut rest, &mut self.instances);
        let mut out: Vec<DashboardWidgetInstance> = Vec::new();
        let n = rest.len();
        let mut k: usize = 0;
        assert(string_views(self.warnings@) =~= w0 + instance_warnings(out@));
        while k < n
            invariant
                n == s.len(),
                ms == module_views(registry.modules@),
                k <= n,
                rest@ == s.skip(k as int),
                out@.len() == k,
                forall|j: int| 0 <= j < k ==> reconciled(#[trigger] s[j], out@[j], ms),
                string_views(self.warnings@) == w0 + instance_warnings(out@),
                self.schema_version == sv,
                self.recovery_backup_path == bp,
                self.last_layout_operation == lo,
            decreases n - k,
        {
            let mut x = rest.remove(0);
            assert(x == s[k as int]);
            assert(rest@ =~= s.skip(k + 1));
            reconcile_one(&mut x, registry);
            let ghost before = out@;
            let ghost wb = string_views(self.warnings@);
            let m = x.warnings.len();
            let mut j: usize = 0;
            while j < m
                invariant
                    m == x.warnings@.len(),
                    j <= m,
                    string_views(self.warnings@) == wb + string_views(x.warnings@).take(j as int),
                    self.schema_version == sv,
                    self.recovery_backup_path == bp,
                    self.last_layout_operation == lo,
                decreases m - j,
            {
                let ghost b2 = string_views(self.warnings@);
                self.warnings.push(x.warnings[j].clone());
                assert(string_views(self.warnings@) =~= b2.push(x.warnings@[j as int]@));
                assert(string_views(x.warnings@).take(j + 1) =~= string_views(x.warnings@).take(j as int).push(
                    x.warnings@[j as int]@,
                ));
                j = j + 1;
            }
            assert(string_views(x.warnings@).take(m as int) =~= string_views(x.warnings@));
            out.push(x);
            assert(out@.drop_last() =~= before);
            assert(string_views(self.warnings@) =~= w0 + instance_warnings(out@));
            k = k + 1;
        }
        self.instances = out;
    }
}


/// The first free slot of a widget's clamped size, where some slot is free.
pub fn try_next_available_layout(
    instances: &Vec<DashboardWidgetInstance>,
    width: u32,
    height: u32,
    max_columns: u32,
) -> (r: Option<DashboardWidgetLayout>)
    ensures
        r is Some <==> has_free_slot(
            layouts_of(instances@),
            slot_width(width, max_columns),
            slot_height(height),
            last_start(width, max_columns),
        ),
        r matches Some(l) ==> l == first_free(
            layouts_of(instances@),
            slot_width(width, max_columns),
            slot_height(height),
            last_start(width, max_columns),
        ),
{
    let w = clamp_layout_value(width, 1, max_columns);
    let h = clamp_layout_value(height, 1, DASHBOARD_WIDGET_MAX_HEIGHT);
    let last = if max_columns >= w {
        max_columns - w + 1
    } else {
        1
    };
    let ghost ls = layouts_of(instances@);
    let mut row: u32 = 1;
    loop
        invariant
            ls == layouts_of(instances@),
            w == slot_width(width, max_columns),
            h == slot_height(height),
            last == last_start(width, max_columns),
            1 <= row,
            forall|cc: u32, rr: u32| 1 <= cc <= last && 1 <= rr < row ==> !#[trigger] fits(ls, slot(cc, rr, w, h)),
        decreases u32::MAX - row,
    {
        match first_free_column(instances, row, w, h, last) {
            Some(c) => {
                let r = DashboardWidgetLayout { column: c, row, width: w, height: h };
                assert(is_first_free(ls, r, last)) by {
                    assert forall|cc: u32, rr: u32|
                        1 <= cc <= last && 1 <= rr && reads_before(cc, rr, r.column, r.row) implies !#[trigger] fits(
                        ls,
                        slot(cc, rr, r.width, r.height),
                    ) by {
                        if rr < row {
                        } else {
                            assert(rr == row && cc < c);
                        }
                    }
                }
                proof {
                    let f = first_free(ls, w, h, last);
                    assert(fits(ls, slot(c, row, w, h)));
                    assert(r.width == w && r.height == h && is_first_free(ls, r, last));
                    lemma_first_free_unique(ls, r, f, last);
                }
                return Some(r);
            },
            None => {
                if row == u32::MAX {
                    assert(!has_free_slot(ls, w, h, last)) by {
                        if has_free_slot(ls, w, h, last) {
                            let (c0, r0) = choose|c: u32, r: u32| 1 <= c <= last && 1 <= r && #[trigger] fits(
                                ls,
                                slot(c, r, w, h),
                            );
                            assert(!fits(ls, slot(c0, r0, w, h)));
                        }
                    }
                    return None;
                }
                row = row + 1;
            },
        }
    }
}

/// The first widget type with an ID.
pub open spec fn first_widget(ws: Seq<WidgetTypeDefinition>, id: Seq<char>) -> Option<WidgetTypeDefinition>
    decreases ws.len(),
{
    if ws.len() == 0 {
        None
    } else if ws[0].id@ == id {
        Some(ws[0])
    } else {
        first_widget(ws.skip(1), id)
    }
}

proof fn lemma_first_widget_offers(ws: Seq<WidgetTypeDefinition>, id: Seq<char>)
    ensures
        first_widget(ws, id) is Some <==> exists|j: int| 0 <= j < ws.len() && #[trigger] ws[j].id@ == id,
        first_widget(ws, id) matches Some(w) ==> w.id@ == id,
    decreases ws.len(),
{
    if ws.len() > 0 {
        lemma_first_widget_offers(ws.skip(1), id);
        if exists|j: int| 0 <= j < ws.len() && #[trigger] ws[j].id@ == id {
            let j = choose|j: int| 0 <= j < ws.len() && #[trigger] ws[j].id@ == id;
            if j > 0 {
                assert(ws.skip(1)[j - 1] == ws[j]);
            }
        }
        if exists|j: int| 0 <= j < ws.skip(1).len() && #[trigger] ws.skip(1)[j].id@ == id {
            let j = choose|j: int| 0 <= j < ws.skip(1).len() && #[trigger] ws.skip(1)[j].id@ == id;
            assert(ws[j + 1] == ws.skip(1)[j]);
        }
    }
}

fn first_widget_exec<'a>(ws: &'a Vec<WidgetTypeDefinition>, id: &str) -> (r: Option<&'a WidgetTypeDefinition>)
    ensures
        match r {
            Some(w) => first_widget(ws@, id@) == Some(*w),
            None => first_widget(ws@, id@) is None,
        },
{
    let kc = chars_of(id);
    let n = ws.len();
    let mut i: usize = 0;
    assert(ws@.skip(0) =~= ws@);
    while i < n
        invariant
            n == ws@.len(),
            kc@ == id@,
            i <= n,
            first_widget(ws@, id@) == first_widget(ws@.skip(i as int), id@),
        decreases n - i,
    {
        assert(ws@.skip(i as int)[0] == ws@[i as int]);
        assert(ws@.skip(i as int).skip(1) =~= ws@.skip(i + 1));
        let c = chars_of(ws[i].id.as_str());
        if crate::text::seq_eq(c.as_slice(), kc.as_slice()) {
            return Some(&ws[i]);
        }
        i = i + 1;
    }
    None
}

/// The widget type a module offers for adding: the module must be
/// installed and enabled, and must offer the type.
pub open spec fn addable_widget(ms: Seq<ModuleView>, module_id: Seq<char>, widget_type: Seq<char>) -> Result<
    WidgetTypeDefinition,
    Seq<char>,
> {
    match module_with_id(ms, module_id) {
        None => Err("Module '"@ + module_id + "' is not installed."@),
        Some(m) => if !m.installed {
            Err("Module '"@ + module_id + "' is not installed."@)
        } else if !m.enabled {
            Err("Module '"@ + module_id + "' must be enabled before adding widget '"@ + widget_type + "'."@)
        } else {
            match first_widget(m.widget_types, widget_type) {
                None => Err("Widget type '"@ + widget_type + "' is not available."@),
                Some(w) => Ok(w),
            }
        },
    }
}

/// The widget type to add, from the registry (see `addable_widget`).
pub fn require_addable_widget_type<'a>(registry: &'a RegistryState, module_id: &String, widget_type: &String) -> (r:
    Result<&'a WidgetTypeDefinition, String>)
    ensures
        match r {
            Ok(w) => addable_widget(module_views(registry.modules@), module_id@, widget_type@) == Ok::<
                WidgetTypeDefinition,
                Seq<char>,
            >(*w),
            Err(e) => addable_widget(module_views(registry.modules@), module_id@, widget_type@) == Err::<
                WidgetTypeDefinition,
                Seq<char>,
            >(e@),
        },
{
    match module_at(registry, module_id) {
        None => Err(text3("Module '", module_id.as_str(), "' is not installed.")),
        Some(m) => {
            if !m.installed {
                return Err(text3("Module '", module_id.as_str(), "' is not installed."));
            }
            if !m.enabled {
                return Err(text5("Module '", module_id.as_str(), "' must be enabled before adding widget '",
                    widget_type.as_str(), "'."));
            }
            match first_widget_exec(&m.widget_types, widget_type.as_str()) {
                None => Err(text3("Widget type '", widget_type.as_str(), "' is not available.")),
                Some(w) => Ok(w),
            }
        },
    }
}

/// The widget type an instance names, where its module is known and
/// offers it.
pub open spec fn instance_widget(ms: Seq<ModuleView>, module_id: Seq<char>, widget_type: Seq<char>) -> Option<
    WidgetTypeDefinition,
> {
    match module_with_id(ms, module_id) {
        None => None,
        Some(m) => first_widget(m.widget_types, widget_type),
    }
}

/// The widget type of a module, where the registry knows both.
pub fn find_widget_type<'a>(registry: &'a RegistryState, module_id: &String, widget_type: &str) -> (r: Option<
    &'a WidgetTypeDefinition,
>)
    ensures
        match r {
            Some(w) => instance_widget(module_views(registry.modules@), module_id@, widget_type@) == Some(*w),
            None => instance_widget(module_views(registry.modules@), module_id@, widget_type@) is None,
        },
{
    match module_at(registry, module_id) {
        None => None,
        Some(m) => first_widget_exec(&m.widget_types, widget_type),
    }
}

/// The problem of an instance whose module is unknown or not installed.
pub open spec fn module_problem(i: DashboardWidgetInstance, ms: Seq<ModuleView>) -> Option<Seq<char>> {
    match module_with_id(ms, i.module_id@) {
        None => Some(
            "Dashboard widget instance '"@ + i.instance_id@ + "' references unknown module '"@ + i.module_id@ + "'."@,
        ),
        Some(m) => if !m.installed {
            Some(
                "Dashboard widget instance '"@ + i.instance_id@ + "' references uninstalled module '"@ + i.module_id@
                    + "'."@,
            )
        } else {
            None
        },
    }
}

/// The first instance whose module is unknown or not installed.
pub open spec fn uninstalled_error(s: Seq<DashboardWidgetInstance>, ms: Seq<ModuleView>) -> Option<Seq<char>>
    decreases s.len(),
{
    if s.len() == 0 {
        None
    } else {
        match uninstalled_error(s.drop_last(), ms) {
            Some(e) => Some(e),
            None => module_problem(s.last(), ms),
        }
    }
}

fn module_problem_exec(i: &DashboardWidgetInstance, registry: &RegistryState) -> (r: Option<String>)
    ensures
        match r {
            Some(e) => module_problem(*i, module_views(registry.modules@)) == Some(e@),
            None => module_problem(*i, module_views(registry.modules@)) is None,
        },
{
    match module_at(registry, &i.module_id) {
        None => Some(text5("Dashboard widget instance '", i.instance_id.as_str(), "' references unknown module '",
            i.module_id.as_str(), "'.")),
        Some(m) => if !m.installed {
            Some(text5("Dashboard widget instance '", i.instance_id.as_str(), "' references uninstalled module '",
                i.module_id.as_str(), "'."))
        } else {
            None
        },
    }
}

proof fn lemma_uninstalled_prefix(s: Seq<DashboardWidgetInstance>, ms: Seq<ModuleView>, k: int)
    requires
        0 <= k <= s.len(),
        uninstalled_error(s.take(k), ms) is Some,
    ensures
        uninstalled_error(s, ms) == uninstalled_error(s.take(k), ms),
    decreases s.len() - k,
{
    if k < s.len() {
        assert(s.take(k + 1).drop_last() =~= s.take(k));
        lemma_uninstalled_prefix(s, ms, k + 1);
    } else {
        assert(s.take(k) =~= s);
    }
}

/// Checks that every instance's module is known and installed.
pub fn validate_modules_installed(state: &DashboardWidgetState, registry: &RegistryState) -> (r: Result<(), String>)
    ensures
        match r {
            Ok(_) => uninstalled_error(state.instances@, module_views(registry.modules@)) is None,
            Err(e) => uninstalled_error(state.instances@, module_views(registry.modules@)) == Some(e@),
        },
{
    let ghost ms = module_views(registry.modules@);
    let n = state.instances.len();
    let mut i: usize = 0;
    assert(state.instances@.take(0) =~= Seq::<DashboardWidgetInstance>::empty());
    while i < n
        invariant
            n == state.instances@.len(),
            ms == module_views(registry.modules@),
            i <= n,
            uninstalled_error(state.instances@.take(i as int), ms) is None,
        decreases n - i,
    {
        assert(state.instances@.take(i + 1).drop_last() =~= state.instances@.take(i as int));
        assert(state.instances@.take(i + 1).last() == state.instances@[i as int]);
        match module_problem_exec(&state.instances[i], registry) {
            Some(e) => {
                proof {
                    assert(uninstalled_error(state.instances@.take(i + 1), ms) == Some(e@));
                    lemma_uninstalled_prefix(state.instances@, ms, i + 1);
                    assert(uninstalled_error(state.instances@, module_views(registry.modules@)) == Some(e@));
                }
                return Err(e);
            },
            None => {},
        }
        i = i + 1;
    }
    assert(state.instances@.take(n as int) =~= state.instances@);
    Ok(())
}


// ---------------------------------------------------------------------------
// Changing instances
// ---------------------------------------------------------------------------

/// The first instance with an ID.
pub open spec fn instance_index(s: Seq<DashboardWidgetInstance>, id: Seq<char>) -> Option<int> {
    if exists|i: int| 0 <= i < s.len() && #[trigger] s[i].instance_id@ == id {
        Some(
            choose|i: int|
                0 <= i < s.len() && #[trigger] s[i].instance_id@ == id && forall|j: int|
                    0 <= j < i ==> s[j].instance_id@ != id,
        )
    } else {
        None
    }
}

proof fn lemma_instance_index(s: Seq<DashboardWidgetInstance>, id: Seq<char>, i: int)
    requires
        0 <= i < s.len(),
        s[i].instance_id@ == id,
        forall|j: int| 0 <= j < i ==> s[j].instance_id@ != id,
    ensures
        instance_index(s, id) == Some(i),
{
    let c = choose|c: int|
        0 <= c < s.len() && #[trigger] s[c].instance_id@ == id && forall|j: int| 0 <= j < c ==> s[j].instance_id@ != id;
    assert(0 <= c < s.len() && s[c].instance_id@ == id && forall|j: int| 0 <= j < c ==> s[j].instance_id@ != id);
    if c < i {
        assert(s[c].instance_id@ != id);
    } else if c > i {
        assert(s[i].instance_id@ != id);
    }
}

fn find_instance(s: &Vec<DashboardWidgetInstance>, id: &str) -> (r: Option<usize>)
    ensures
        instance_index(s@, id@) == match r {
            Some(i) => Some(i as int),
            None => None,
        },
        r matches Some(i) ==> i < s@.len(),
{
    let kc = chars_of(id);
    let n = s.len();
    let mut i: usize = 0;
    while i < n
        invariant
            n == s@.len(),
            kc@ == id@,
            i <= n,
            forall|j: int| 0 <= j < i ==> s@[j].instance_id@ != id@,
        decreases n - i,
    {
        let c = chars_of(s[i].instance_id.as_str());
        if crate::text::seq_eq(c.as_slice(), kc.as_slice()) {
            proof {
                lemma_instance_index(s@, id@, i as int);
            }
            return Some(i);
        }
        i = i + 1;
    }
    assert(!exists|j: int| 0 <= j < s@.len() && #[trigger] s@[j].instance_id@ == id@);
    None
}

/// What is answered when no instance has an ID.
pub open spec fn not_found_text(id: Seq<char>) -> Seq<char> {
    "Dashboard widget instance '"@ + id + "' was not found."@
}

/// The IDs and layouts of instances, as they were before a change.
pub open spec fn snapshot(s: Seq<DashboardWidgetInstance>) -> Seq<(Seq<char>, DashboardWidgetLayout)> {
    s.map_values(|i: DashboardWidgetInstance| (i.instance_id@, i.layout))
}

/// The first position of an ID in a snapshot.
pub open spec fn snapshot_index(b: Seq<(Seq<char>, DashboardWidgetLayout)>, id: Seq<char>) -> Option<int> {
    if exists|i: int| 0 <= i < b.len() && #[trigger] b[i].0 == id {
        Some(choose|i: int| 0 <= i < b.len() && #[trigger] b[i].0 == id && forall|j: int| 0 <= j < i ==> b[j].0 != id)
    } else {
        None
    }
}

/// The IDs of instances, other than the active one, whose layout differs
/// from the layout that the first instance of the same ID had before.
pub open spec fn changed_neighbors(
    before: Seq<(Seq<char>, DashboardWidgetLayout)>,
    after: Seq<DashboardWidgetInstance>,
    active: Option<Seq<char>>,
) -> Seq<Seq<char>>
    decreases after.len(),
{
    if after.len() == 0 {
        seq![]
    } else {
        let rest = changed_neighbors(before, after.drop_last(), active);
        let a = after.last();
        let counted = match active {
            Some(x) => a.instance_id@ != x,
            None => true,
        };
        let changed = match snapshot_index(before, a.instance_id@) {
            Some(j) => before[j].1 != a.layout,
            None => false,
        };
        if counted && changed {
            rest.push(a.instance_id@)
        } else {
            rest
        }
    }
}

fn take_snapshot(s: &Vec<DashboardWidgetInstance>) -> (r: Vec<(String, DashboardWidgetLayout)>)
    ensures
        r@.map_values(|p: (String, DashboardWidgetLayout)| (p.0@, p.1)) == snapshot(s@),
{
    let mut r: Vec<(String, DashboardWidgetLayout)> = Vec::new();
    let n = s.len();
    let mut i: usize = 0;
    while i < n
        invariant
            n == s@.len(),
            i <= n,
            r@.map_values(|p: (String, DashboardWidgetLayout)| (p.0@, p.1)) == snapshot(s@).take(i as int),
        decreases n - i,
    {
        let ghost before = r@;
        r.push((s[i].instance_id.clone(), s[i].layout));
        assert(r@.map_values(|p: (String, DashboardWidgetLayout)| (p.0@, p.1)) =~= before.map_values(
            |p: (String, DashboardWidgetLayout)| (p.0@, p.1),
        ).push((s@[i as int].instance_id@, s@[i as int].layout)));
        assert(snapshot(s@).take(i + 1) =~= snapshot(s@).take(i as int).push(snapshot(s@)[i as int]));
        i = i + 1;
    }
    assert(snapshot(s@).take(n as int) =~= snapshot(s@));
    r
}

fn snapshot_find(b: &Vec<(String, DashboardWidgetLayout)>, id: &String) -> (r: Option<usize>)
    ensures
        snapshot_index(b@.map_values(|p: (String, DashboardWidgetLayout)| (p.0@, p.1)), id@) == match r {
            Some(i) => Some(i as int),
            None => None,
        },
        r matches Some(i) ==> i < b@.len(),
{
    let ghost bv = b@.map_values(|p: (String, DashboardWidgetLayout)| (p.0@, p.1));
    let n = b.len();
    let mut i: usize = 0;
    while i < n
        invariant
            n == b@.len(),
            bv == b@.map_values(|p: (String, DashboardWidgetLayout)| (p.0@, p.1)),
            i <= n,
            forall|j: int| 0 <= j < i ==> bv[j].0 != id@,
        decreases n - i,
    {
        if crate::text::eq_str_string(&b[i].0, id) {
            assert(bv[i as int].0 == id@);
            proof {
                let c = choose|c: int| 0 <= c < bv.len() && #[trigger] bv[c].0 == id@ && forall|j: int| 0 <= j < c ==> bv[j].0 != id@;
                assert(0 <= c < bv.len() && bv[c].0 == id@ && forall|j: int| 0 <= j < c ==> bv[j].0 != id@);
                if c < i {
                    assert(bv[c].0 != id@);
                } else if c > i {
                    assert(bv[i as int].0 != id@);
                }
            }
            return Some(i);
        }
        i = i + 1;
    }
    assert(!exists|j: int| 0 <= j < bv.len() && #[trigger] bv[j].0 == id@);
    None
}

/// The IDs of instances whose layout changed (see `changed_neighbors`).
pub fn changed_neighbor_ids(
    before: &Vec<(String, DashboardWidgetLayout)>,
    after: &Vec<DashboardWidgetInstance>,
    active: Option<&str>,
) -> (r: Vec<String>)
    ensures
        string_views(r@) == changed_neighbors(
            before@.map_values(|p: (String, DashboardWidgetLayout)| (p.0@, p.1)),
            after@,
            match active {
                Some(x) => Some(x@),
                None => None,
            },
        ),
{
    let ghost bv = before@.map_values(|p: (String, DashboardWidgetLayout)| (p.0@, p.1));
    let ghost act = match active {
        Some(x) => Some(x@),
        None => None::<Seq<char>>,
    };
    let mut r: Vec<String> = Vec::new();
    let n = after.len();
    let mut i: usize = 0;
    assert(after@.take(0) =~= Seq::<DashboardWidgetInstance>::empty());
    while i < n
        invariant
            n == after@.len(),
            bv == before@.map_values(|p: (String, DashboardWidgetLayout)| (p.0@, p.1)),
            act == match active {
                Some(x) => Some(x@),
                None => None::<Seq<char>>,
            },
            i <= n,
            string_views(r@) == changed_neighbors(bv, after@.take(i as int), act),
        decreases n - i,
    {
        assert(after@.take(i + 1).drop_last() =~= after@.take(i as int));
        assert(after@.take(i + 1).last() == after@[i as int]);
        let a = &after[i];
        let counted = match active {
            Some(x) => {
                let xc = chars_of(x);
                let ac = chars_of(a.instance_id.as_str());
                !crate::text::seq_eq(ac.as_slice(), xc.as_slice())
            },
            None => true,
        };
        let changed = match snapshot_find(before, &a.instance_id) {
            Some(j) => {
                assert(bv[j as int].1 == before@[j as int].1);
                before[j].1 != a.layout
            },
            None => false,
        };
        if counted && changed {
            let ghost b0 = string_views(r@);
            r.push(a.instance_id.clone());
            assert(string_views(r@) =~= b0.push(a.instance_id@));
        }
        i = i + 1;
    }
    assert(after@.take(n as int) =~= after@);
    r
}

/// The instance at a position with another layout.
pub open spec fn relaid(s: Seq<DashboardWidgetInstance>, k: int, l: DashboardWidgetLayout) -> Seq<DashboardWidgetInstance> {
    s.update(k, with_layout(s[k], l))
}

fn set_layout_at(s: &mut Vec<DashboardWidgetInstance>, k: usize, l: DashboardWidgetLayout)
    requires
        k < old(s)@.len(),
    ensures
        final(s)@ == relaid(old(s)@, k as int, l),
{
    let ghost before = s@;
    let mut x = s.remove(k);
    x.layout = l;
    s.insert(k, x);
    assert(s@ =~= relaid(before, k as int, l));
}

/// The outcome of a layout change: the new layout, if it is on the grid
/// and blocks no other instance.
pub open spec fn layout_change(
    s: Seq<DashboardWidgetInstance>,
    id: Seq<char>,
    k: int,
    l: DashboardWidgetLayout,
) -> Result<Seq<DashboardWidgetInstance>, Seq<char>> {
    if layout_error(l) is Some {
        Err(layout_error(l)->0)
    } else if has_blocking_overlap(relaid(s, k, l), Some(id)) {
        Err(layout_blocked_text())
    } else {
        Ok(relaid(s, k, l))
    }
}

/// The state after a layout change: the instances changed, the rest kept,
/// and no last layout operation.
pub open spec fn with_instances(
    a: DashboardWidgetState,
    b: DashboardWidgetState,
    s: Seq<DashboardWidgetInstance>,
) -> bool {
    &&& b.instances@ == s
    &&& b.schema_version == a.schema_version
    &&& b.warnings@ == a.warnings@
    &&& b.recovery_backup_path == a.recovery_backup_path
}

/// An operation as its parts read.
pub open spec fn operation_is(
    op: DashboardWidgetLayoutOperation,
    moved: Option<Seq<char>>,
    resized: Option<Seq<char>>,
    affected: Seq<Seq<char>>,
    reason: Seq<char>,
) -> bool {
    &&& crate::theme::opt_string_view(op.moved_widget_id) == moved
    &&& crate::theme::opt_string_view(op.resized_widget_id) == resized
    &&& string_views(op.affected_widget_ids@) == affected
    &&& op.reason@ == reason
}

fn apply_layout(
    state: DashboardWidgetState,
    instance_id: &str,
    k: usize,
    l: DashboardWidgetLayout,
    resized: bool,
) -> (r: Result<(DashboardWidgetState, DashboardWidgetLayoutOperation), String>)
    requires
        k < state.instances@.len(),
        instance_index(state.instances@, instance_id@) == Some(k as int),
    ensures
        match layout_change(state.instances@, instance_id@, k as int, l) {
            Err(e) => r matches Err(x) && x@ == e,
            Ok(s2) => r matches Ok((st, op)) && with_instances(state, st, s2) && st.last_layout_operation is None
                && operation_is(
                op,
                if resized {
                    None
                } else {
                    Some(instance_id@)
                },
                if resized {
                    Some(instance_id@)
                } else {
                    None
                },
                changed_neighbors(snapshot(state.instances@), s2, Some(instance_id@)),
                if resized {
                    "resized"@
                } else {
                    "moved"@
                },
            ),
        },
{
    validate_layout(&l)?;
    let before = take_snapshot(&state.instances);
    let mut st = state;
    set_layout_at(&mut st.instances, k, l);
    validate_no_layout_overlap(&st.instances, Some(instance_id))?;
    let affected = changed_neighbor_ids(&before, &st.instances, Some(instance_id));
    st.last_layout_operation = None;
    let op = if resized {
        DashboardWidgetLayoutOperation {
            moved_widget_id: None,
            resized_widget_id: Some(owned(instance_id)),
            affected_widget_ids: affected,
            reason: owned("resized"),
        }
    } else {
        DashboardWidgetLayoutOperation {
            moved_widget_id: Some(owned(instance_id)),
            resized_widget_id: None,
            affected_widget_ids: affected,
            reason: owned("moved"),
        }
    };
    Ok((st, op))
}

impl DashboardWidgetService {
/// Moves an instance to a column and row, keeping its size.  The layout
/// must fit the grid and overlap no other instance; the operation lists
/// the other instances whose layout changed.
pub fn move_instance(state: DashboardWidgetState, instance_id: &str, column: u32, row: u32) -> (r: Result<
    (DashboardWidgetState, DashboardWidgetLayoutOperation),
    String,
>)
    ensures
        match instance_index(state.instances@, instance_id@) {
            None => r matches Err(e) && e@ == not_found_text(instance_id@),
            Some(k) => {
                let l = DashboardWidgetLayout { column, row, ..state.instances@[k].layout };
                match layout_change(state.instances@, instance_id@, k, l) {
                    Err(e) => r matches Err(x) && x@ == e,
                    Ok(s2) => r matches Ok((st, op)) && with_instances(state, st, s2) && st.last_layout_operation is None
                        && operation_is(
                        op,
                        Some(instance_id@),
                        None,
                        changed_neighbors(snapshot(state.instances@), s2, Some(instance_id@)),
                        "moved"@,
                    ),
                }
            },
        },
{
    match find_instance(&state.instances, instance_id) {
        None => Err(text3("Dashboard widget instance '", instance_id, "' was not found.")),
        Some(k) => {
            let old_l = state.instances[k].layout;
            let l = DashboardWidgetLayout { column, row, width: old_l.width, height: old_l.height };
            apply_layout(state, instance_id, k, l, false)
        },
    }
}
}

impl DashboardWidgetService {
/// Resizes an instance, keeping its position.  Its widget type, where the
/// registry knows it, must allow the size; the layout must fit the grid and
/// overlap no other instance.
pub fn resize_instance(
    state: DashboardWidgetState,
    registry: &RegistryState,
    instance_id: &str,
    width: u32,
    height: u32,
) -> (r: Result<(DashboardWidgetState, DashboardWidgetLayoutOperation), String>)
    ensures
        match instance_index(state.instances@, instance_id@) {
            None => r matches Err(e) && e@ == not_found_text(instance_id@),
            Some(k) => {
                let i = state.instances@[k];
                let l = DashboardWidgetLayout { width, height, ..i.layout };
                match instance_widget(module_views(registry.modules@), i.module_id@, i.widget_type@) {
                    Some(w) if !size_allowed(w, width, height) => r is Err,
                    _ => match layout_change(state.instances@, instance_id@, k, l) {
                        Err(e) => r matches Err(x) && x@ == e,
                        Ok(s2) => r matches Ok((st, op)) && with_instances(state, st, s2)
                            && st.last_layout_operation is None && operation_is(
                            op,
                            None,
                            Some(instance_id@),
                            changed_neighbors(snapshot(state.instances@), s2, Some(instance_id@)),
                            "resized"@,
                        ),
                    },
                }
            },
        },
{
    match find_instance(&state.instances, instance_id) {
        None => Err(text3("Dashboard widget instance '", instance_id, "' was not found.")),
        Some(k) => {
            match find_widget_type(registry, &state.instances[k].module_id, state.instances[k].widget_type.as_str()) {
                Some(w) => {
                    ensure_allowed_size(w, width, height)?;
                },
                None => {},
            }
            let old_l = state.instances[k].layout;
            let l = DashboardWidgetLayout { column: old_l.column, row: old_l.row, width, height };
            apply_layout(state, instance_id, k, l, true)
        },
    }
}
}

impl DashboardWidgetService {
/// Collapses or expands an instance.
pub fn set_collapsed(state: DashboardWidgetState, instance_id: &str, collapsed: bool) -> (r: Result<
    DashboardWidgetState,
    String,
>)
    ensures
        match instance_index(state.instances@, instance_id@) {
            None => r matches Err(e) && e@ == not_found_text(instance_id@),
            Some(k) => r matches Ok(st) && with_instances(
                state,
                st,
                state.instances@.update(k, DashboardWidgetInstance { collapsed, ..state.instances@[k] }),
            ) && st.last_layout_operation == state.last_layout_operation,
        },
{
    match find_instance(&state.instances, instance_id) {
        None => Err(text3("Dashboard widget instance '", instance_id, "' was not found.")),
        Some(k) => {
            let mut st = state;
            let ghost before = st.instances@;
            let mut x = st.instances.remove(k);
            x.collapsed = collapsed;
            st.instances.insert(k, x);
            assert(st.instances@ =~= before.update(k as int, DashboardWidgetInstance { collapsed, ..before[k as int] }));
            Ok(st)
        },
    }
}
}

/// The instances without those of an ID, in order.
pub open spec fn without_instance(s: Seq<DashboardWidgetInstance>, id: Seq<char>) -> Seq<DashboardWidgetInstance>
    decreases s.len(),
{
    if s.len() == 0 {
        seq![]
    } else {
        let rest = without_instance(s.drop_last(), id);
        if s.last().instance_id@ != id {
            rest.push(s.last())
        } else {
            rest
        }
    }
}

impl DashboardWidgetService {
/// Removes every instance with an ID; there must be one.
pub fn remove_instance(state: DashboardWidgetState, instance_id: &str) -> (r: Result<DashboardWidgetState, String>)
    ensures
        match instance_index(state.instances@, instance_id@) {
            None => r matches Err(e) && e@ == not_found_text(instance_id@),
            Some(_) => r matches Ok(st) && with_instances(
                state,
                st,
                without_instance(state.instances@, instance_id@),
            ) && st.last_layout_operation == state.last_layout_operation,
        },
{
    if find_instance(&state.instances, instance_id).is_none() {
        return Err(text3("Dashboard widget instance '", instance_id, "' was not found."));
    }
    let mut st = state;
    let ghost s = st.instances@;
    let kc = chars_of(instance_id);
    let mut rest: Vec<DashboardWidgetInstance> = Vec::new();
    std::mem::swap(&mut rest, &mut st.instances);
    let mut kept: Vec<DashboardWidgetInstance> = Vec::new();
    let n = rest.len();
    let mut k: usize = 0;
    assert(s.take(0) =~= Seq::<DashboardWidgetInstance>::empty());
    while k < n
        invariant
            n == s.len(),
            kc@ == instance_id@,
            k <= n,
            rest@ == s.skip(k as int),
            kept@ == without_instance(s.take(k as int), instance_id@),
        decreases n - k,
    {
        let x = rest.remove(0);
        assert(x == s[k as int]);
        assert(rest@ =~= s.skip(k + 1));
        assert(s.take(k + 1).drop_last() =~= s.take(k as int));
        let ic = chars_of(x.instance_id.as_str());
        if !crate::text::seq_eq(ic.as_slice(), kc.as_slice()) {
            kept.push(x);
        }
        k = k + 1;
    }
    assert(s.take(n as int) =~= s);
    st.instances = kept;
    Ok(st)
}
}



// ---------------------------------------------------------------------------
// Copies and sparse layouts
// ---------------------------------------------------------------------------

/// Two instances agree in every field.
pub open spec fn same_instance(a: DashboardWidgetInstance, b: DashboardWidgetInstance) -> bool {
    &&& same_widget(a, b)
    &&& a.active == b.active
    &&& a.status == b.status
    &&& a.warnings@ == b.warnings@
}

/// Two sequences of instances agree position by position.
pub open spec fn same_instances(a: Seq<DashboardWidgetInstance>, b: Seq<DashboardWidgetInstance>) -> bool {
    a.len() == b.len() && forall|i: int| 0 <= i < a.len() ==> same_instance(#[trigger] a[i], b[i])
}

fn copy_config(v: &Vec<(String, SchemaValue)>) -> (r: Vec<(String, SchemaValue)>)
    ensures
        r@ == v@,
{
    let mut r: Vec<(String, SchemaValue)> = Vec::new();
    let n = v.len();
    let mut i: usize = 0;
    while i < n
        invariant
            n == v@.len(),
            i <= n,
            r@ == v@.take(i as int),
        decreases n - i,
    {
        r.push((v[i].0.clone(), copy_value(&v[i].1)));
        assert(v@.take(i + 1) =~= v@.take(i as int).push(v@[i as int]));
        assert(r@ =~= v@.take(i + 1));
        i = i + 1;
    }
    assert(v@.take(n as int) =~= v@);
    r
}

fn copy_strings(v: &Vec<String>) -> (r: Vec<String>)
    ensures
        r@ == v@,
{
    let mut r: Vec<String> = Vec::new();
    let n = v.len();
    let mut i: usize = 0;
    while i < n
        invariant
            n == v@.len(),
            i <= n,
            r@ == v@.take(i as int),
        decreases n - i,
    {
        r.push(v[i].clone());
        assert(v@.take(i + 1) =~= v@.take(i as int).push(v@[i as int]));
        assert(r@ =~= v@.take(i + 1));
        i = i + 1;
    }
    assert(v@.take(n as int) =~= v@);
    r
}

fn copy_opt(o: &Option<String>) -> (r: Option<String>)
    ensures
        r == *o,
{
    match o {
        Some(s) => Some(s.clone()),
        None => None,
    }
}

/// A copy of an instance.
pub fn copy_instance(x: &DashboardWidgetInstance) -> (r: DashboardWidgetInstance)
    ensures
        same_instance(r, *x),
{
    DashboardWidgetInstance {
        instance_id: x.instance_id.clone(),
        widget_type: x.widget_type.clone(),
        module_id: x.module_id.clone(),
        title: copy_opt(&x.title),
        config: copy_config(&x.config),
        layout: x.layout,
        collapsed: x.collapsed,
        active: x.active,
        status: x.status.clone(),
        warnings: copy_strings(&x.warnings),
    }
}

fn copy_instances(v: &Vec<DashboardWidgetInstance>) -> (r: Vec<DashboardWidgetInstance>)
    ensures
        same_instances(r@, v@),
{
    let mut r: Vec<DashboardWidgetInstance> = Vec::new();
    let n = v.len();
    let mut i: usize = 0;
    while i < n
        invariant
            n == v@.len(),
            i <= n,
            r@.len() == i,
            forall|j: int| 0 <= j < i ==> same_instance(#[trigger] r@[j], v@[j]),
        decreases n - i,
    {
        r.push(copy_instance(&v[i]));
        i = i + 1;
    }
    r
}

proof fn lemma_insert_sorted_same(a: Seq<DashboardWidgetInstance>, b: Seq<DashboardWidgetInstance>, x: DashboardWidgetInstance, y: DashboardWidgetInstance)
    requires
        same_instances(a, b),
        same_instance(x, y),
    ensures
        same_instances(insert_sorted(a, x), insert_sorted(b, y)),
    decreases a.len(),
{
    if a.len() > 0 {
        assert(same_instance(a.last(), b.last()));
        if key_lt(x, a.last()) {
            assert(same_instances(a.drop_last(), b.drop_last())) by {
                assert forall|i: int| 0 <= i < a.drop_last().len() implies same_instance(
                    #[trigger] a.drop_last()[i],
                    b.drop_last()[i],
                ) by {
                    assert(same_instance(a[i], b[i]));
                }
            }
            lemma_insert_sorted_same(a.drop_last(), b.drop_last(), x, y);
            lemma_insert_sorted_len(a.drop_last(), x);
            lemma_insert_sorted_len(b.drop_last(), y);
            let p = insert_sorted(a.drop_last(), x);
            let q = insert_sorted(b.drop_last(), y);
            assert forall|i: int| 0 <= i < p.push(a.last()).len() implies same_instance(
                #[trigger] p.push(a.last())[i],
                q.push(b.last())[i],
            ) by {
                if i < p.len() {
                    assert(same_instance(p[i], q[i]));
                }
            }
        } else {
            assert forall|i: int| 0 <= i < a.push(x).len() implies same_instance(#[trigger] a.push(x)[i], b.push(y)[i]) by {
                if i < a.len() {
                    assert(same_instance(a[i], b[i]));
                }
            }
        }
    }
}

proof fn lemma_position_order_same(a: Seq<DashboardWidgetInstance>, b: Seq<DashboardWidgetInstance>)
    requires
        same_instances(a, b),
    ensures
        same_instances(position_order(a), position_order(b)),
    decreases a.len(),
{
    if a.len() > 0 {
        assert(same_instances(a.drop_last(), b.drop_last())) by {
            assert forall|i: int| 0 <= i < a.drop_last().len() implies same_instance(
                #[trigger] a.drop_last()[i],
                b.drop_last()[i],
            ) by {
                assert(same_instance(a[i], b[i]));
            }
        }
        lemma_position_order_same(a.drop_last(), b.drop_last());
        assert(same_instance(a.last(), b.last()));
        lemma_insert_sorted_same(position_order(a.drop_last()), position_order(b.drop_last()), a.last(), b.last());
    }
}

proof fn lemma_compacted_same(a: Seq<DashboardWidgetInstance>, b: Seq<DashboardWidgetInstance>)
    requires
        same_instances(a, b),
    ensures
        same_instances(compacted(a), compacted(b)),
        layouts_of(compacted(a)) == layouts_of(compacted(b)),
    decreases a.len(),
{
    if a.len() > 0 {
        assert(same_instances(a.drop_last(), b.drop_last())) by {
            assert forall|i: int| 0 <= i < a.drop_last().len() implies same_instance(
                #[trigger] a.drop_last()[i],
                b.drop_last()[i],
            ) by {
                assert(same_instance(a[i], b[i]));
            }
        }
        lemma_compacted_same(a.drop_last(), b.drop_last());
        assert(same_instance(a.last(), b.last()));
        let p = compacted(a.drop_last());
        let q = compacted(b.drop_last());
        let ca = compacted(a);
        let cb = compacted(b);
        assert forall|i: int| 0 <= i < ca.len() implies same_instance(#[trigger] ca[i], cb[i]) by {
            if i < p.len() {
                assert(same_instance(p[i], q[i]));
            }
        }
        assert(layouts_of(ca) =~= layouts_of(cb)) by {
            assert forall|i: int| 0 <= i < ca.len() implies #[trigger] layouts_of(ca)[i] == layouts_of(cb)[i] by {
                if i < p.len() {
                    assert(layouts_of(p)[i] == layouts_of(q)[i]);
                }
            }
        }
    } else {
        assert(layouts_of(compacted(a)) =~= layouts_of(compacted(b)));
    }
}

/// Copies instances and compacts the copies (see `compact_widget_instances`,
/// also for the memory bound on the number of instances).
pub fn compacted_copy(instances: &Vec<DashboardWidgetInstance>) -> (r: Vec<DashboardWidgetInstance>)
    requires
        instances@.len() < 0x4000_0000,
    ensures
        same_instances(r@, compacted(position_order(instances@))),
        layouts_of(r@) == layouts_of(compacted(position_order(instances@))),
{
    let copies = copy_instances(instances);
    let ghost cs = copies@;
    let r = compact_widget_instances(copies);
    proof {
        lemma_position_order_same(cs, instances@);
        lemma_compacted_same(position_order(cs), position_order(instances@));
    }
    r
}

/// The lowest row any layout starts at, or 1 for none.
pub open spec fn max_row(ls: Seq<DashboardWidgetLayout>) -> int
    decreases ls.len(),
{
    if ls.len() == 0 {
        1
    } else if ls.len() == 1 {
        ls[0].row as int
    } else {
        let m = max_row(ls.drop_last());
        if ls.last().row > m {
            ls.last().row as int
        } else {
            m
        }
    }
}

fn max_row_exec(s: &Vec<DashboardWidgetInstance>) -> (r: u32)
    ensures
        r == max_row(layouts_of(s@)),
{
    let n = s.len();
    if n == 0 {
        return 1;
    }
    let mut m: u32 = s[0].layout.row;
    let mut i: usize = 1;
    assert(layouts_of(s@).take(1).drop_last() =~= Seq::<DashboardWidgetLayout>::empty());
    while i < n
        invariant
            n == s@.len(),
            1 <= i <= n,
            m == max_row(layouts_of(s@).take(i as int)),
        decreases n - i,
    {
        assert(layouts_of(s@).take(i + 1).drop_last() =~= layouts_of(s@).take(i as int));
        assert(layouts_of(s@).take(i + 1).last() == s@[i as int].layout);
        if s[i].layout.row > m {
            m = s[i].layout.row;
        }
        i = i + 1;
    }
    assert(layouts_of(s@).take(n as int) =~= layouts_of(s@));
    m
}

/// Each instance of the left has, at the first instance of the same ID on
/// the right, the same layout, and both hold as many instances.
pub open spec fn layouts_match(left: Seq<DashboardWidgetInstance>, right: Seq<DashboardWidgetInstance>) -> bool {
    left.len() == right.len() && forall|i: int| 0 <= i < left.len() ==> match instance_index(right, #[trigger] left[i].instance_id@) {
        Some(j) => right[j].layout == left[i].layout,
        None => false,
    }
}

fn layouts_match_exec(left: &Vec<DashboardWidgetInstance>, right: &Vec<DashboardWidgetInstance>) -> (r: bool)
    ensures
        r == layouts_match(left@, right@),
{
    if left.len() != right.len() {
        return false;
    }
    let n = left.len();
    let mut i: usize = 0;
    while i < n
        invariant
            n == left@.len(),
            n == right@.len(),
            i <= n,
            forall|k: int| 0 <= k < i ==> match instance_index(right@, #[trigger] left@[k].instance_id@) {
                Some(j) => right@[j].layout == left@[k].layout,
                None => false,
            },
        decreases n - i,
    {
        match find_instance(right, left[i].instance_id.as_str()) {
            Some(j) => {
                if right[j].layout != left[i].layout {
                    return false;
                }
            },
            None => {
                return false;
            },
        }
        i = i + 1;
    }
    true
}

/// A layout reaches suspiciously far down: its lowest row is below row 5
/// and more than three rows below both its compacted form and its number of
/// instances, and compacting would change it.
pub open spec fn needs_sparse_repair(s: Seq<DashboardWidgetInstance>) -> bool {
    let m = max_row(layouts_of(s));
    let c = compacted(position_order(s));
    &&& s.len() > 0
    &&& m > 5
    &&& (m > max_row(layouts_of(c)) + 3 || m > s.len() + 3)
    &&& !layouts_match(s, c)
}

/// The compacted instances where a layout needs a sparse repair, else none
/// (the number of instances is bounded as for `compact_widget_instances`).
pub fn sparse_repair_layout(instances: &Vec<DashboardWidgetInstance>) -> (r: Option<Vec<DashboardWidgetInstance>>)
    requires
        instances@.len() < 0x4000_0000,
    ensures
        r is Some <==> needs_sparse_repair(instances@),
        r matches Some(v) ==> same_instances(v@, compacted(position_order(instances@))),
{
    if instances.len() == 0 {
        return None;
    }
    let m = max_row_exec(instances);
    if m <= DASHBOARD_WIDGET_SPARSE_REPAIR_MIN_ROW {
        return None;
    }
    let c = compacted_copy(instances);
    let cm = max_row_exec(&c);
    proof {
        lemma_position_order_len(instances@);
        lemma_compacted_valid(position_order(instances@));
        lemma_max_row_within(layouts_of(c@), 3 * (instances@.len() as int));
    }
    let count = instances.len() as u32;
    let suspicious = (m as u64) > (cm as u64) + 3 || (m as u64) > (count as u64) + 3;
    let matched = layouts_match_exec(instances, &c);
    proof {
        lemma_layouts_match_same(instances@, c@, compacted(position_order(instances@)));
    }
    if !suspicious || matched {
        return None;
    }
    Some(c)
}

proof fn lemma_max_row_within(ls: Seq<DashboardWidgetLayout>, m: int)
    requires
        rows_within(ls, m),
        m >= 1,
        forall|i: int| 0 <= i < ls.len() ==> #[trigger] ls[i].height >= 1,
    ensures
        max_row(ls) <= m,
    decreases ls.len(),
{
    if ls.len() > 1 {
        assert(rows_within(ls.drop_last(), m)) by {
            assert forall|i: int| 0 <= i < ls.drop_last().len() implies #[trigger] ls.drop_last()[i].row
                + ls.drop_last()[i].height - 1 <= m by {
                assert(ls.drop_last()[i] == ls[i]);
            }
        }
        lemma_max_row_within(ls.drop_last(), m);
        assert(ls[ls.len() - 1].row + ls[ls.len() - 1].height - 1 <= m);
    } else if ls.len() == 1 {
        assert(ls[0].row + ls[0].height - 1 <= m);
    }
}

proof fn lemma_index_ids(c: Seq<DashboardWidgetInstance>, d: Seq<DashboardWidgetInstance>, id: Seq<char>)
    requires
        instance_ids(c) == instance_ids(d),
    ensures
        instance_index(c, id) == instance_index(d, id),
        instance_index(c, id) matches Some(j) ==> 0 <= j < c.len(),
{
    assert(c.len() == instance_ids(c).len() && d.len() == instance_ids(d).len());
    assert forall|i: int| 0 <= i < c.len() implies (#[trigger] c[i].instance_id@ == id) == (d[i].instance_id@ == id) by {
        assert(instance_ids(c)[i] == instance_ids(d)[i]);
    }
    if exists|i: int| 0 <= i < c.len() && #[trigger] c[i].instance_id@ == id {
        let i0 = choose|i: int| 0 <= i < c.len() && #[trigger] c[i].instance_id@ == id;
        let k = first_at(c, id, i0);
        assert(d[k].instance_id@ == id);
        assert forall|j: int| 0 <= j < k implies d[j].instance_id@ != id by {
            assert(c[j].instance_id@ != id);
        }
        lemma_instance_index(d, id, k);
        lemma_instance_index(c, id, k);
    } else {
        if exists|i: int| 0 <= i < d.len() && #[trigger] d[i].instance_id@ == id {
            let i = choose|i: int| 0 <= i < d.len() && #[trigger] d[i].instance_id@ == id;
            assert(c[i].instance_id@ == id);
        }
    }
}

/// The first position with an ID, at or before a position that has it.
proof fn first_at(c: Seq<DashboardWidgetInstance>, id: Seq<char>, i: int) -> (k: int)
    requires
        0 <= i < c.len(),
        c[i].instance_id@ == id,
    ensures
        0 <= k <= i,
        c[k].instance_id@ == id,
        forall|j: int| 0 <= j < k ==> c[j].instance_id@ != id,
    decreases i,
{
    if exists|j: int| 0 <= j < i && #[trigger] c[j].instance_id@ == id {
        let j = choose|j: int| 0 <= j < i && #[trigger] c[j].instance_id@ == id;
        first_at(c, id, j)
    } else {
        i
    }
}

proof fn lemma_layouts_match_same(
    left: Seq<DashboardWidgetInstance>,
    c: Seq<DashboardWidgetInstance>,
    d: Seq<DashboardWidgetInstance>,
)
    requires
        same_instances(c, d),
    ensures
        layouts_match(left, c) == layouts_match(left, d),
{
    assert(instance_ids(c) =~= instance_ids(d)) by {
        assert forall|i: int| 0 <= i < c.len() implies #[trigger] instance_ids(c)[i] == instance_ids(d)[i] by {
            assert(same_instance(c[i], d[i]));
        }
    }
    assert(layouts_of(c) =~= layouts_of(d)) by {
        assert forall|i: int| 0 <= i < c.len() implies #[trigger] layouts_of(c)[i] == layouts_of(d)[i] by {
            assert(same_instance(c[i], d[i]));
        }
    }
    lemma_layouts_match_by_parts(left, c, d);
}

proof fn lemma_layouts_match_by_parts(
    left: Seq<DashboardWidgetInstance>,
    c: Seq<DashboardWidgetInstance>,
    d: Seq<DashboardWidgetInstance>,
)
    requires
        instance_ids(c) == instance_ids(d),
        layouts_of(c) == layouts_of(d),
    ensures
        layouts_match(left, c) == layouts_match(left, d),
{
    assert(c.len() == layouts_of(c).len() && d.len() == layouts_of(d).len());
    assert forall|i: int| 0 <= i < left.len() implies (match instance_index(c, #[trigger] left[i].instance_id@) {
        Some(j) => c[j].layout == left[i].layout,
        None => false,
    }) == (match instance_index(d, left[i].instance_id@) {
        Some(j) => d[j].layout == left[i].layout,
        None => false,
    }) by {
        lemma_index_ids(c, d, left[i].instance_id@);
        match instance_index(c, left[i].instance_id@) {
            Some(j) => {
                assert(0 <= j < c.len());
                assert(c[j].layout == layouts_of(c)[j]);
                assert(d[j].layout == layouts_of(d)[j]);
                assert(instance_index(d, left[i].instance_id@) == Some(j));
            },
            None => {
                assert(instance_index(d, left[i].instance_id@) is None);
            },
        }
    }
}


// ---------------------------------------------------------------------------
// Adding, duplicating and updating instances
// ---------------------------------------------------------------------------

/// What is answered when a widget type does not allow a size.
pub open spec fn size_text(w: WidgetTypeDefinition, width: u32, height: u32) -> Seq<char> {
    "Widget type '"@ + w.id@ + "' does not allow size "@ + crate::storage::decimal(width as nat) + "x"@
        + crate::storage::decimal(height as nat) + "."@
}

/// Where a new widget of a type goes: the requested layout, or else the
/// first free slot of the type's default size; it must fit the grid and be
/// a size the type allows.
pub open spec fn placement(
    s: Seq<DashboardWidgetInstance>,
    w: WidgetTypeDefinition,
    requested: Option<DashboardWidgetLayout>,
) -> Result<DashboardWidgetLayout, Seq<char>> {
    let chosen = match requested {
        Some(l) => Ok(l),
        None => {
            let sw = slot_width(w.default_size.width, 7);
            let sh = slot_height(w.default_size.height);
            let last = last_start(w.default_size.width, 7);
            if has_free_slot(layouts_of(s), sw, sh, last) {
                Ok(first_free(layouts_of(s), sw, sh, last))
            } else {
                Err(layout_blocked_text())
            }
        },
    };
    match chosen {
        Err(e) => Err(e),
        Ok(l) => if layout_error(l) is Some {
            Err(layout_error(l)->0)
        } else if !size_allowed(w, l.width, l.height) {
            Err(size_text(w, l.width, l.height))
        } else {
            Ok(l)
        },
    }
}

fn placement_exec(
    instances: &Vec<DashboardWidgetInstance>,
    w: &WidgetTypeDefinition,
    requested: Option<DashboardWidgetLayout>,
) -> (r: Result<DashboardWidgetLayout, String>)
    ensures
        match r {
            Ok(l) => placement(instances@, *w, requested) == Ok::<DashboardWidgetLayout, Seq<char>>(l),
            Err(e) => placement(instances@, *w, requested) == Err::<DashboardWidgetLayout, Seq<char>>(e@),
        },
{
    let l = match requested {
        Some(l) => l,
        None => match try_next_available_layout(
            instances,
            w.default_size.width,
            w.default_size.height,
            DASHBOARD_WIDGET_MAX_COLUMNS,
        ) {
            Some(l) => l,
            None => {
                return Err(owned("This position overlaps another widget. Try another spot or use Compact layout."));
            },
        },
    };
    validate_layout(&l)?;
    ensure_allowed_size(w, l.width, l.height)?;
    Ok(l)
}

/// The configuration a new widget is given: its type's defaults, then the
/// requested entries over them.
pub open spec fn merged_config(w: WidgetTypeDefinition, requested: Seq<(String, SchemaValue)>) -> Map<Seq<char>, SchemaValue> {
    crate::keyed::keyed(config_defaults(w.config_schema@) + requested)
}

fn insert_entries(m: &mut crate::ordered::OrderedMap<SchemaValue>, e: &Vec<(String, SchemaValue)>, ghost_prefix: Ghost<Seq<(String, SchemaValue)>>)
    requires
        old(m).wf(),
        old(m)@ == crate::keyed::keyed(ghost_prefix@),
    ensures
        final(m).wf(),
        final(m)@ == crate::keyed::keyed(ghost_prefix@ + e@),
{
    let n = e.len();
    let mut i: usize = 0;
    assert(ghost_prefix@ + e@.take(0) =~= ghost_prefix@);
    while i < n
        invariant
            n == e@.len(),
            i <= n,
            m.wf(),
            m@ == crate::keyed::keyed(ghost_prefix@ + e@.take(i as int)),
        decreases n - i,
    {
        m.insert(e[i].0.clone(), copy_value(&e[i].1));
        assert((ghost_prefix@ + e@.take(i + 1)).drop_last() =~= ghost_prefix@ + e@.take(i as int));
        assert((ghost_prefix@ + e@.take(i + 1)).last() == e@[i as int]);
        i = i + 1;
    }
    assert(e@.take(n as int) =~= e@);
}

impl DashboardWidgetService {
/// Adds a widget: the module must be installed and enabled and offer the
/// widget type; the configuration (defaults, then the requested entries, in
/// key order) must suit the type; the layout (requested, or the first free
/// slot of the default size) must fit the grid and be an allowed size.  The
/// new instance, with the given ID, goes last.
pub fn create_instance(
    state: DashboardWidgetState,
    registry: &RegistryState,
    request: DashboardWidgetCreateRequest,
    instance_id: String,
) -> (r: Result<DashboardWidgetState, String>)
    ensures
        match addable_widget(module_views(registry.modules@), request.module_id@, request.widget_type@) {
            Err(e) => r matches Err(x) && x@ == e,
            Ok(w) => match r {
                Err(e) => exists|c: Seq<(String, SchemaValue)>|
                    crate::ordered::strictly_sorted(c) && crate::keyed::keyed(c) == merged_config(w, request.config@)
                        && (config_problem(w, c) == Some(e@) || (config_problem(w, c) is None && placement(
                        state.instances@,
                        w,
                        request.layout,
                    ) == Err::<DashboardWidgetLayout, Seq<char>>(e@))),
                Ok(st) => {
                    let x = st.instances@.last();
                    &&& st.instances@.len() == state.instances@.len() + 1
                    &&& st.instances@.drop_last() == state.instances@
                    &&& st.schema_version == state.schema_version
                    &&& st.warnings@ == state.warnings@
                    &&& x.instance_id == instance_id
                    &&& x.widget_type == request.widget_type
                    &&& x.module_id == request.module_id
                    &&& x.title == request.title
                    &&& crate::ordered::strictly_sorted(x.config@)
                    &&& crate::keyed::keyed(x.config@) == merged_config(w, request.config@)
                    &&& config_problem(w, x.config@) is None
                    &&& placement(state.instances@, w, request.layout) == Ok::<DashboardWidgetLayout, Seq<char>>(x.layout)
                    &&& x.collapsed == request.collapsed
                    &&& !x.active
                    &&& x.status@ == Seq::<char>::empty()
                    &&& x.warnings@.len() == 0
                },
            },
        },
{
    let w = require_addable_widget_type(registry, &request.module_id, &request.widget_type)?;
    let defaults = default_config(w);
    let mut m: crate::ordered::OrderedMap<SchemaValue> = crate::ordered::OrderedMap::new();
    assert(m@ == crate::keyed::keyed(Seq::<(String, SchemaValue)>::empty()));
    insert_entries(&mut m, &defaults, Ghost(Seq::<(String, SchemaValue)>::empty()));
    assert(Seq::<(String, SchemaValue)>::empty() + defaults@ =~= defaults@);
    insert_entries(&mut m, &request.config, Ghost(defaults@));
    let config = m.entries;
    validate_widget_config(w, &config)?;
    let layout = placement_exec(&state.instances, w, request.layout)?;
    let mut st = state;
    let ghost before = st.instances@;
    st.instances.push(DashboardWidgetInstance {
        instance_id,
        widget_type: request.widget_type,
        module_id: request.module_id,
        title: request.title,
        config,
        layout,
        collapsed: request.collapsed,
        active: false,
        status: String::new(),
        warnings: Vec::new(),
    });
    assert(st.instances@.drop_last() =~= before);
    Ok(st)
}
}

/// A widget's title for its copy: the title and ` Copy`.
pub open spec fn copy_title(t: Option<Seq<char>>) -> Option<Seq<char>> {
    match t {
        Some(x) => Some(x + " Copy"@),
        None => None,
    }
}

impl DashboardWidgetService {
/// Adds a copy of an instance under a new ID: same type, module,
/// configuration and size, ` Copy` after its title, at the first free slot
/// of its size.  Its module must be known and installed.
pub fn duplicate_instance(
    state: DashboardWidgetState,
    registry: &RegistryState,
    instance_id: &str,
    new_id: String,
) -> (r: Result<DashboardWidgetState, String>)
    ensures
        match instance_index(state.instances@, instance_id@) {
            None => r matches Err(e) && e@ == not_found_text(instance_id@),
            Some(k) => {
                let src = state.instances@[k];
                let sw = slot_width(src.layout.width, 7);
                let sh = slot_height(src.layout.height);
                let last = last_start(src.layout.width, 7);
                if module_problem(src, module_views(registry.modules@)) is Some {
                    r matches Err(e) && e@ == "Dashboard widget instance '"@ + instance_id@
                        + "' references an uninstalled module."@
                } else if !has_free_slot(layouts_of(state.instances@), sw, sh, last) {
                    r matches Err(e) && e@ == layout_blocked_text()
                } else {
                    r matches Ok(st) && {
                        let x = st.instances@.last();
                        &&& st.instances@.len() == state.instances@.len() + 1
                        &&& st.instances@.drop_last() == state.instances@
                        &&& st.schema_version == state.schema_version
                        &&& st.warnings@ == state.warnings@
                        &&& x.instance_id == new_id
                        &&& x.widget_type == src.widget_type
                        &&& x.module_id == src.module_id
                        &&& crate::theme::opt_string_view(x.title) == copy_title(crate::theme::opt_string_view(src.title))
                        &&& x.config@ == src.config@
                        &&& x.layout == first_free(layouts_of(state.instances@), sw, sh, last)
                        &&& x.collapsed == src.collapsed
                        &&& !x.active
                        &&& x.status@ == Seq::<char>::empty()
                        &&& x.warnings@.len() == 0
                    }
                }
            },
        },
{
    let k = match find_instance(&state.instances, instance_id) {
        None => {
            return Err(text3("Dashboard widget instance '", instance_id, "' was not found."));
        },
        Some(k) => k,
    };
    if module_problem_exec(&state.instances[k], registry).is_some() {
        return Err(text3("Dashboard widget instance '", instance_id, "' references an uninstalled module."));
    }
    let src = &state.instances[k];
    let layout = match try_next_available_layout(
        &state.instances,
        src.layout.width,
        src.layout.height,
        DASHBOARD_WIDGET_MAX_COLUMNS,
    ) {
        Some(l) => l,
        None => {
            return Err(owned("This position overlaps another widget. Try another spot or use Compact layout."));
        },
    };
    let title = match &src.title {
        Some(t) => Some(text3("", t.as_str(), " Copy")),
        None => None,
    };
    proof {
        reveal_strlit("");
        if src.title is Some {
            assert(""@ + src.title->0@ + " Copy"@ =~= src.title->0@ + " Copy"@);
        }
    }
    let x = DashboardWidgetInstance {
        instance_id: new_id,
        widget_type: src.widget_type.clone(),
        module_id: src.module_id.clone(),
        title,
        config: copy_config(&src.config),
        layout,
        collapsed: src.collapsed,
        active: false,
        status: String::new(),
        warnings: Vec::new(),
    };
    let mut st = state;
    let ghost before = st.instances@;
    st.instances.push(x);
    assert(st.instances@.drop_last() =~= before);
    Ok(st)
}
}

/// A title as an update sets it: none where it is blank.
pub open spec fn updated_title(t: String) -> Option<String> {
    if crate::text::trim(t@).len() == 0 {
        None
    } else {
        Some(t)
    }
}

/// The outcome of an update's checks: a configuration that does not suit
/// the widget type, then a layout off the grid or of a size the type does
/// not allow (the type, where the registry knows it).
pub open spec fn update_problem(
    i: DashboardWidgetInstance,
    ms: Seq<ModuleView>,
    config: Option<Vec<(String, SchemaValue)>>,
    layout: Option<DashboardWidgetLayout>,
) -> Option<Seq<char>> {
    let wt = instance_widget(ms, i.module_id@, i.widget_type@);
    let cp = match config {
        Some(c) => match wt {
            Some(w) => config_problem(w, c@),
            None => None,
        },
        None => None,
    };
    if cp is Some {
        cp
    } else {
        match layout {
            Some(l) => if layout_error(l) is Some {
                layout_error(l)
            } else {
                match wt {
                    Some(w) => if !size_allowed(w, l.width, l.height) {
                        Some(size_text(w, l.width, l.height))
                    } else {
                        None
                    },
                    None => None,
                }
            },
            None => None,
        }
    }
}

/// An instance with an update's parts applied.
pub open spec fn updated_instance(i: DashboardWidgetInstance, req: DashboardWidgetUpdateRequest) -> DashboardWidgetInstance {
    DashboardWidgetInstance {
        title: match req.title {
            Some(t) => updated_title(t),
            None => i.title,
        },
        config: match req.config {
            Some(c) => c,
            None => i.config,
        },
        layout: match req.layout {
            Some(l) => l,
            None => i.layout,
        },
        collapsed: match req.collapsed {
            Some(c) => c,
            None => i.collapsed,
        },
        ..i
    }
}

impl DashboardWidgetService {
/// Updates an instance: a blank title clears it; a configuration must
/// suit the widget type and a layout must fit the grid and be an allowed
/// size (the type, where the registry knows it).
pub fn update_instance(
    state: DashboardWidgetState,
    registry: &RegistryState,
    instance_id: &str,
    request: DashboardWidgetUpdateRequest,
) -> (r: Result<DashboardWidgetState, String>)
    ensures
        match instance_index(state.instances@, instance_id@) {
            None => r matches Err(e) && e@ == not_found_text(instance_id@),
            Some(k) => match update_problem(
                state.instances@[k],
                module_views(registry.modules@),
                request.config,
                request.layout,
            ) {
                Some(e) => r matches Err(x) && x@ == e,
                None => r matches Ok(st) && with_instances(
                    state,
                    st,
                    state.instances@.update(k, updated_instance(state.instances@[k], request)),
                ) && st.last_layout_operation == state.last_layout_operation,
            },
        },
{
    let k = match find_instance(&state.instances, instance_id) {
        None => {
            return Err(text3("Dashboard widget instance '", instance_id, "' was not found."));
        },
        Some(k) => k,
    };
    check_update(&state.instances[k], registry, &request.config, request.layout)?;
    let mut st = state;
    let ghost before = st.instances@;
    let x = st.instances.remove(k);
    let y = apply_update(x, request);
    st.instances.insert(k, y);
    assert(st.instances@ =~= before.update(k as int, updated_instance(before[k as int], request)));
    Ok(st)
}
}

fn check_update(
    i: &DashboardWidgetInstance,
    registry: &RegistryState,
    config: &Option<Vec<(String, SchemaValue)>>,
    layout: Option<DashboardWidgetLayout>,
) -> (r: Result<(), String>)
    ensures
        match r {
            Ok(_) => update_problem(*i, module_views(registry.modules@), *config, layout) is None,
            Err(e) => update_problem(*i, module_views(registry.modules@), *config, layout) == Some(e@),
        },
{
    let wt = find_widget_type(registry, &i.module_id, i.widget_type.as_str());
    match config {
        Some(c) => match wt {
            Some(w) => {
                validate_widget_config(w, c)?;
            },
            None => {},
        },
        None => {},
    }
    match layout {
        Some(l) => {
            validate_layout(&l)?;
            match wt {
                Some(w) => {
                    ensure_allowed_size(w, l.width, l.height)?;
                },
                None => {},
            }
        },
        None => {},
    }
    Ok(())
}

fn apply_update(x: DashboardWidgetInstance, request: DashboardWidgetUpdateRequest) -> (r: DashboardWidgetInstance)
    ensures
        r == updated_instance(x, request),
{
    let mut x = x;
    match request.title {
        Some(t) => {
            let tc = chars_of(t.as_str());
            let blank = crate::text::trim_exec(tc.as_slice()).len() == 0;
            x.title = if blank {
                None
            } else {
                Some(t)
            };
        },
        None => {},
    }
    match request.config {
        Some(c) => {
            x.config = c;
        },
        None => {},
    }
    match request.layout {
        Some(l) => {
            x.layout = l;
        },
        None => {},
    }
    match request.collapsed {
        Some(c) => {
            x.collapsed = c;
        },
        None => {},
    }
    x
}


// ---------------------------------------------------------------------------
// Compacting, writing and reading states
// ---------------------------------------------------------------------------

impl DashboardWidgetService {
/// Compacts a state's layout (see `compact_widget_instances`, also for the
/// memory bound on the number of instances); the operation lists the
/// instances whose layout changed.
pub fn compact_layout(state: DashboardWidgetState) -> (r: (DashboardWidgetState, DashboardWidgetLayoutOperation))
    requires
        state.instances@.len() < 0x4000_0000,
    ensures
        with_instances(state, r.0, compacted(position_order(state.instances@))),
        r.0.last_layout_operation is None,
        operation_is(
            r.1,
            None,
            None,
            changed_neighbors(snapshot(state.instances@), compacted(position_order(state.instances@)), None),
            "compacted"@,
        ),
{
    let before = take_snapshot(&state.instances);
    let mut st = state;
    let mut instances: Vec<DashboardWidgetInstance> = Vec::new();
    std::mem::swap(&mut instances, &mut st.instances);
    let placed = compact_widget_instances(instances);
    let affected = changed_neighbor_ids(&before, &placed, None);
    st.instances = placed;
    st.last_layout_operation = None;
    (st, DashboardWidgetLayoutOperation {
        moved_widget_id: None,
        resized_widget_id: None,
        affected_widget_ids: affected,
        reason: owned("compacted"),
    })
}
}

/// The problem that stops a state from being written: its own checks,
/// then instances whose module is unknown or not installed.
pub open spec fn write_problem(st: DashboardWidgetState, ms: Seq<ModuleView>) -> Option<Seq<char>> {
    match state_error(st) {
        Some(e) => Some(e),
        None => uninstalled_error(st.instances@, ms),
    }
}

/// Checks a state before it is written.
pub fn check_before_write(state: &DashboardWidgetState, registry: &RegistryState) -> (r: Result<(), String>)
    ensures
        match r {
            Ok(_) => write_problem(*state, module_views(registry.modules@)) is None,
            Err(e) => write_problem(*state, module_views(registry.modules@)) == Some(e@),
        },
{
    state.validate_basic()?;
    validate_modules_installed(state, registry)
}

/// After a state is written: its warnings are cleared and each instance
/// gets the status the registry gives it.
pub fn after_write(state: &mut DashboardWidgetState, registry: &RegistryState)
    ensures
        final(state).instances@.len() == old(state).instances@.len(),
        forall|k: int| 0 <= k < old(state).instances@.len() ==> reconciled(
            #[trigger] old(state).instances@[k],
            final(state).instances@[k],
            module_views(registry.modules@),
        ),
        string_views(final(state).warnings@) == instance_warnings(final(state).instances@),
        final(state).schema_version == old(state).schema_version,
        final(state).recovery_backup_path == old(state).recovery_backup_path,
        final(state).last_layout_operation == old(state).last_layout_operation,
{
    state.warnings = Vec::new();
    assert(string_views(state.warnings@) =~= Seq::<Seq<char>>::empty());
    state.reconcile(registry);
    assert(string_views(state.warnings@) =~= instance_warnings(state.instances@));
}

/// An empty state of the current version.
pub open spec fn is_default_state(st: DashboardWidgetState) -> bool {
    &&& st.schema_version == 1
    &&& st.instances@.len() == 0
    &&& st.warnings@.len() == 0
    &&& st.recovery_backup_path is None
    &&& st.last_layout_operation is None
}

impl DashboardWidgetService {
/// The state of a dashboard without widgets.
pub fn default_state() -> (r: DashboardWidgetState)
    ensures
        is_default_state(r),
{
    DashboardWidgetState {
        schema_version: DASHBOARD_WIDGET_STATE_VERSION,
        instances: Vec::new(),
        warnings: Vec::new(),
        recovery_backup_path: None,
        last_layout_operation: None,
    }
}
}

/// The warning of a state that could not be read and was left as it was.
pub open spec fn unreadable_warning(e: Seq<char>) -> Seq<char> {
    "Dashboard widgets metadata could not be loaded and was not overwritten: "@ + e
}

/// An empty state carrying the warning of a state that could not be read.
pub open spec fn is_unreadable_state(st: DashboardWidgetState, e: Seq<char>) -> bool {
    &&& st.schema_version == 1
    &&& st.instances@.len() == 0
    &&& string_views(st.warnings@) == seq![unreadable_warning(e)]
    &&& st.recovery_backup_path is None
    &&& st.last_layout_operation is None
}

fn unreadable(e: String, recover_malformed: bool) -> (r: Result<DashboardWidgetState, String>)
    ensures
        recover_malformed ==> (r matches Ok(st) && is_unreadable_state(st, e@)),
        !recover_malformed ==> (r matches Err(x) && x@ == e@),
{
    if recover_malformed {
        let mut st = DashboardWidgetService::default_state();
        st.warnings.push(text3("Dashboard widgets metadata could not be loaded and was not overwritten: ", e.as_str(), ""));
        proof {
            reveal_strlit("");
        }
        assert(string_views(st.warnings@) =~= seq![unreadable_warning(e@)]);
        Ok(st)
    } else {
        Err(e)
    }
}

/// The instances of a parsed state with their layouts clamped onto the
/// grid.
pub open spec fn clamped_instances(s: Seq<DashboardWidgetInstance>) -> Seq<DashboardWidgetInstance> {
    s.map_values(|i: DashboardWidgetInstance| with_layout(i, clamped_layout(i.layout)))
}

/// The state to use given what was read: `None` where no widgets file
/// exists, or the outcome of parsing it.  A parsed state has its layouts
/// clamped onto the grid (a warning for each) and must pass its checks.
/// Where it cannot be used, the error stands, or, where malformed states
/// are recovered, an empty state carries it as a warning.
pub fn loaded_state(parsed: Option<Result<DashboardWidgetState, String>>, recover_malformed: bool) -> (r: Result<
    DashboardWidgetState,
    String,
>)
    ensures
        match parsed {
            None => r matches Ok(st) && is_default_state(st),
            Some(Err(e)) => if recover_malformed {
                r matches Ok(st) && is_unreadable_state(st, e@)
            } else {
                r matches Err(x) && x@ == e@
            },
            Some(Ok(p)) => match state_error_of(p.schema_version, clamped_instances(p.instances@)) {
                None => r matches Ok(st) && {
                    &&& st.instances@ == clamped_instances(p.instances@)
                    &&& st.schema_version == p.schema_version
                    &&& string_views(st.warnings@) == string_views(p.warnings@) + clamp_warnings(p.instances@)
                    &&& st.recovery_backup_path == p.recovery_backup_path
                    &&& st.last_layout_operation == p.last_layout_operation
                },
                Some(e) => if recover_malformed {
                    r matches Ok(st) && is_unreadable_state(st, e)
                } else {
                    r matches Err(x) && x@ == e
                },
            },
        },
{
    match parsed {
        None => Ok(DashboardWidgetService::default_state()),
        Some(Ok(p)) => {
            let mut st = p;
            let warnings = st.normalize_recoverable_layouts();
            match st.validate_basic() {
                Ok(_) => {
                    let ghost w0 = string_views(st.warnings@);
                    let ghost sv = st.schema_version;
                    let ghost si = st.instances@;
                    let ghost bp = st.recovery_backup_path;
                    let ghost lo = st.last_layout_operation;
                    let n = warnings.len();
                    let mut i: usize = 0;
                    while i < n
                        invariant
                            n == warnings@.len(),
                            i <= n,
                            string_views(st.warnings@) == w0 + string_views(warnings@).take(i as int),
                            st.schema_version == sv,
                            st.instances@ == si,
                            st.recovery_backup_path == bp,
                            st.last_layout_operation == lo,
                        decreases n - i,
                    {
                        let ghost b = string_views(st.warnings@);
                        st.warnings.push(warnings[i].clone());
                        assert(string_views(st.warnings@) =~= b.push(warnings@[i as int]@));
                        assert(string_views(warnings@).take(i + 1) =~= string_views(warnings@).take(i as int).push(
                            warnings@[i as int]@,
                        ));
                        i = i + 1;
                    }
                    assert(string_views(warnings@).take(n as int) =~= string_views(warnings@));
                    Ok(st)
                },
                Err(e) => unreadable(e, recover_malformed),
            }
        },
        Some(Err(e)) => unreadable(e, recover_malformed),
    }
}

// ---------------------------------------------------------------------------
// Paths, IDs and texts
// ---------------------------------------------------------------------------

impl DashboardWidgetService {
/// Where a vault keeps its widgets.
pub fn widgets_path(vault_path: &str) -> (r: String)
    ensures
        r@ == crate::paths::path_join(
            crate::paths::path_join(crate::layout_folder::layout_path_of(vault_path@), "dashboard"@),
            "widgets.json"@,
        ),
{
    let layout = crate::layout_folder::LayoutFolderService::layout_path(vault_path);
    let d = crate::paths::join_path(layout.as_str(), "dashboard");
    crate::paths::join_path(d.as_str(), "widgets.json")
}
}

/// The widget types of the installed modules, in order.
pub open spec fn installed_widget_types(ms: Seq<crate::module_registry::ModuleDefinition>) -> Seq<WidgetTypeDefinition>
    decreases ms.len(),
{
    if ms.len() == 0 {
        seq![]
    } else {
        let rest = installed_widget_types(ms.drop_last());
        if ms.last().installed {
            rest + ms.last().widget_types@
        } else {
            rest
        }
    }
}

impl DashboardWidgetService {
/// The widget types the installed modules of a registry offer, in order.
pub fn available_widget_types(registry: RegistryState) -> (r: Vec<WidgetTypeDefinition>)
    ensures
        r@ == installed_widget_types(registry.modules@),
{
    let ghost ms = registry.modules@;
    let mut rest = registry.modules;
    let mut out: Vec<WidgetTypeDefinition> = Vec::new();
    let n = rest.len();
    let mut k: usize = 0;
    assert(ms.take(0) =~= Seq::<crate::module_registry::ModuleDefinition>::empty());
    while k < n
        invariant
            n == ms.len(),
            k <= n,
            rest@ == ms.skip(k as int),
            out@ == installed_widget_types(ms.take(k as int)),
        decreases n - k,
    {
        let m = rest.remove(0);
        assert(m == ms[k as int]);
        assert(rest@ =~= ms.skip(k + 1));
        assert(ms.take(k + 1).drop_last() =~= ms.take(k as int));
        if m.installed {
            let mut w = m.widget_types;
            let ghost before = out@;
            out.append(&mut w);
            assert(out@ =~= before + ms[k as int].widget_types@);
        }
        k = k + 1;
    }
    assert(ms.take(n as int) =~= ms);
    out
}
}

/// The lowercase hexadecimal digits of a number, without padding (`{:x}`).
pub open spec fn hex_digits(n: nat) -> Seq<char>
    decreases n,
{
    if n < 16 {
        seq![crate::storage::hex_char(n)]
    } else {
        hex_digits(n / 16).push(crate::storage::hex_char(n % 16))
    }
}

fn hex_digits_exec(n: u128) -> (r: Vec<char>)
    ensures
        r@ == hex_digits(n as nat),
    decreases n,
{
    if n < 16 {
        let mut v: Vec<char> = Vec::new();
        v.push(crate::storage::hex_char_exec((n as u64)));
        v
    } else {
        let mut v = hex_digits_exec(n / 16);
        v.push(crate::storage::hex_char_exec(((n % 16) as u64)));
        v
    }
}

/// A widget instance ID: `bl_widget_`, the seed with `.` and `-` read as
/// `_`, `_`, and a time in hexadecimal.
pub open spec fn widget_instance_id_of(seed: Seq<char>, nanos: nat) -> Seq<char> {
    "bl_widget_"@ + crate::text::replace_char(crate::text::replace_char(seed, '.', '_'), '-', '_') + "_"@ + hex_digits(
        nanos,
    )
}

/// The instance ID for a seed at a time.
pub fn widget_instance_id(seed: &str, nanos: u128) -> (r: String)
    ensures
        r@ == widget_instance_id_of(seed@, nanos as nat),
{
    let c = chars_of(seed);
    let a = crate::text::replace_char_exec(c.as_slice(), '.', '_');
    let b = crate::text::replace_char_exec(a.as_slice(), '-', '_');
    let mut v = chars_of("bl_widget_");
    crate::text::append(&mut v, b.as_slice());
    crate::text::append_str(&mut v, "_");
    let h = hex_digits_exec(nanos);
    crate::text::append(&mut v, h.as_slice());
    crate::text::string_of(v.as_slice())
}

/// A new instance ID for a seed, from the current time.
pub fn generate_widget_instance_id(seed: &str) -> (r: String)
    ensures
        exists|t: u128| r@ == widget_instance_id_of(seed@, t as nat),
{
    let t = crate::storage::unix_nanos_now();
    widget_instance_id(seed, t)
}

/// The file name of a backup of the widgets file: the time label with `:`
/// read as `-`, and the digest of the content.
pub fn backup_file_name(timestamp_label: &str, digest: &str) -> (r: String)
    ensures
        r@ == "widgets-"@ + crate::text::replace_char(timestamp_label@, ':', '-') + "-"@ + digest@ + ".json"@,
{
    let c = chars_of(timestamp_label);
    let t = crate::text::replace_char_exec(c.as_slice(), ':', '-');
    let mut v = chars_of("widgets-");
    crate::text::append(&mut v, t.as_slice());
    crate::text::append_str(&mut v, "-");
    crate::text::append_str(&mut v, digest);
    crate::text::append_str(&mut v, ".json");
    crate::text::string_of(v.as_slice())
}

/// The warning of a layout repaired for sparse rows.
pub fn sparse_repair_warning() -> (r: String)
    ensures
        r@ == "Dashboard widget layout was repaired after detecting sparse rows from an older layout bug."@,
{
    owned("Dashboard widget layout was repaired after detecting sparse rows from an older layout bug.")
}

/// The warning of a reset that backed up a malformed widgets file.
pub fn reset_backup_warning(backup_path: &str) -> (r: String)
    ensures
        r@ == "Malformed Dashboard widget metadata was backed up to "@ + backup_path@ + " before reset."@,
{
    text3("Malformed Dashboard widget metadata was backed up to ", backup_path, " before reset.")
}


/// The problem of an imported instance: its widget type must be addable,
/// its configuration must suit the type, and its size must be allowed.
#[verifier::opaque]
pub open spec fn import_problem(i: DashboardWidgetInstance, ms: Seq<ModuleView>) -> Option<Seq<char>> {
    match addable_widget(ms, i.module_id@, i.widget_type@) {
        Err(e) => Some(e),
        Ok(w) => match config_problem(w, i.config@) {
            Some(e) => Some(e),
            None => if !size_allowed(w, i.layout.width, i.layout.height) {
                Some(size_text(w, i.layout.width, i.layout.height))
            } else {
                None
            },
        },
    }
}

/// The first problem of imported instances, in order.
pub open spec fn import_error(s: Seq<DashboardWidgetInstance>, ms: Seq<ModuleView>) -> Option<Seq<char>>
    decreases s.len(),
{
    if s.len() == 0 {
        None
    } else {
        match import_error(s.drop_last(), ms) {
            Some(e) => Some(e),
            None => import_problem(s.last(), ms),
        }
    }
}

fn import_problem_exec(i: &DashboardWidgetInstance, registry: &RegistryState) -> (r: Result<(), String>)
    ensures
        match r {
            Ok(_) => import_problem(*i, module_views(registry.modules@)) is None,
            Err(e) => import_problem(*i, module_views(registry.modules@)) == Some(e@),
        },
{
    proof {
        reveal(import_problem);
    }
    let w = require_addable_widget_type(registry, &i.module_id, &i.widget_type)?;
    validate_widget_config(w, &i.config)?;
    ensure_allowed_size(w, i.layout.width, i.layout.height)
}

proof fn lemma_import_prefix(s: Seq<DashboardWidgetInstance>, ms: Seq<ModuleView>, k: int)
    requires
        0 <= k <= s.len(),
        import_error(s.take(k), ms) is Some,
    ensures
        import_error(s, ms) == import_error(s.take(k), ms),
    decreases s.len() - k,
{
    if k < s.len() {
        assert(s.take(k + 1).drop_last() =~= s.take(k));
        lemma_import_prefix(s, ms, k + 1);
    } else {
        assert(s.take(k) =~= s);
    }
}

impl DashboardWidgetService {
/// Checks a state to import: its own checks, then each instance against
/// the registry (see `import_problem`).
pub fn validate_import_state(state: &DashboardWidgetState, registry: &RegistryState) -> (r: Result<(), String>)
    ensures
        match r {
            Ok(_) => state_error(*state) is None && import_error(state.instances@, module_views(registry.modules@)) is None,
            Err(e) => match state_error(*state) {
                Some(x) => e@ == x,
                None => import_error(state.instances@, module_views(registry.modules@)) == Some(e@),
            },
        },
{
    state.validate_basic()?;
    let ghost ms = module_views(registry.modules@);
    let n = state.instances.len();
    let mut i: usize = 0;
    assert(state.instances@.take(0) =~= Seq::<DashboardWidgetInstance>::empty());
    while i < n
        invariant
            n == state.instances@.len(),
            ms == module_views(registry.modules@),
            i <= n,
            state_error(*state) is None,
            import_error(state.instances@.take(i as int), ms) is None,
        decreases n - i,
    {
        assert(state.instances@.take(i + 1).drop_last() =~= state.instances@.take(i as int));
        assert(state.instances@.take(i + 1).last() == state.instances@[i as int]);
        match import_problem_exec(&state.instances[i], registry) {
            Err(e) => {
                proof {
                    assert(import_error(state.instances@.take(i + 1), ms) == Some(e@));
                    lemma_import_prefix(state.instances@, ms, i + 1);
                }
                return Err(e);
            },
            Ok(_) => {},
        }
        i = i + 1;
    }
    assert(state.instances@.take(n as int) =~= state.instances@);
    Ok(())
}
}

} // verus!
