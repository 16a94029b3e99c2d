//! Multi-select modal for choosing batch dependencies.

use vstd::prelude::*;

use crate::branch_picker;
use crate::context_menu;
use crate::layout;
use crate::modal_view;
use crate::style;
use crate::text;
use crate::view;
use crate::context_menu::{menu_frame, moved, MenuFace};
use crate::keys::KeyCode;
use crate::modal_view::line_in;
use crate::style::{Line, Span};
use crate::text::{copy_of, joined, text_eq};
use crate::view::{pad_to, push_span, style_ground, style_on, Rect, Theme};

verus! {

/// Result of processing a key event in the batch deps modal.
#[derive(Debug, Clone)]
pub enum BatchDepsResult {
    Pending,
    Cancelled,
    /// User confirmed: returns selected hub batch IDs.
    Completed(Vec<String>),
}

pub ghost enum ResultView {
    Pending,
    Cancelled,
    Completed(Seq<Seq<char>>),
}

impl View for BatchDepsResult {
    type V = ResultView;

    open spec fn view(&self) -> ResultView {
        match *self {
            BatchDepsResult::Pending => ResultView::Pending,
            BatchDepsResult::Cancelled => ResultView::Cancelled,
            BatchDepsResult::Completed(ids) => ResultView::Completed(text::strings_view(ids@)),
        }
    }
}

/// A batch that can be selected as a dependency.
pub struct DepsItem {
    pub hub_batch_id: String,
    pub title: String,
    pub selected: bool,
    /// This batch's own depends_on list (for cycle detection).
    pub depends_on: Vec<String>,
}

#[verifier::ext_equal]
pub ghost struct DepsItemView {
    pub id: Seq<char>,
    pub title: Seq<char>,
    pub selected: bool,
    pub depends_on: Seq<Seq<char>>,
}

impl View for DepsItem {
    type V = DepsItemView;

    open spec fn view(&self) -> DepsItemView {
        DepsItemView {
            id: self.hub_batch_id@,
            title: self.title@,
            selected: self.selected,
            depends_on: text::strings_view(self.depends_on@),
        }
    }
}

pub open spec fn deps_items(items: Seq<DepsItem>) -> Seq<DepsItemView> {
    items.map_values(|i: DepsItem| i@)
}

pub struct BatchDepsModal {
    batch_idx: usize,
    batch_title: String,
    /// Hub batch ID of the batch being edited (for cycle detection).
    batch_hub_id: Option<String>,
    items: Vec<DepsItem>,
    selected_idx: usize,
}

#[verifier::ext_equal]
pub ghost struct BatchDepsView {
    pub batch_idx: usize,
    pub batch_title: Seq<char>,
    pub batch_hub_id: Option<Seq<char>>,
    pub items: Seq<DepsItemView>,
    pub selected: int,
}

impl View for BatchDepsModal {
    type V = BatchDepsView;

    closed spec fn view(&self) -> BatchDepsView {
        BatchDepsView {
            batch_idx: self.batch_idx,
            batch_title: self.batch_title@,
            batch_hub_id: branch_picker::text_in(self.batch_hub_id),
            items: deps_items(self.items@),
            selected: self.selected_idx as int,
        }
    }
}

// ── Cycles ─────────────────────────────────────────────────────────

/// What a batch depends on, as the first item with its ID says.
pub open spec fn deps_of(items: Seq<DepsItemView>, id: Seq<char>) -> Seq<Seq<char>>
    decreases items.len(),
{
    if items.len() == 0 {
        Seq::empty()
    } else if items[0].id == id {
        items[0].depends_on
    } else {
        deps_of(items.skip(1), id)
    }
}

/// Whether a list of batches is a chain in which each depends on the next.
pub open spec fn is_chain(items: Seq<DepsItemView>, chain: Seq<Seq<char>>) -> bool {
    &&& chain.len() > 0
    &&& forall|i: int|
        #![trigger chain[i]]
        0 <= i < chain.len() - 1 ==> deps_of(items, chain[i]).contains(chain[i + 1])
}

/// Whether following what batches depend on leads from one to another.
pub open spec fn reaches(items: Seq<DepsItemView>, from: Seq<char>, to: Seq<char>) -> bool {
    exists|chain: Seq<Seq<char>>|
        #[trigger] is_chain(items, chain) && chain[0] == from && chain.last() == to
}

/// All IDs that are mentioned as dependencies, and one more.
pub open spec fn mentioned(items: Seq<DepsItemView>, candidate: Seq<char>) -> Seq<Seq<char>>
    decreases items.len(),
{
    if items.len() == 0 {
        seq![candidate]
    } else {
        mentioned(items.drop_last(), candidate) + items.last().depends_on
    }
}

proof fn lemma_mentioned(items: Seq<DepsItemView>, candidate: Seq<char>)
    ensures
        mentioned(items, candidate).contains(candidate),
        forall|i: int, d: Seq<char>|
            0 <= i < items.len() && (#[trigger] items[i]).depends_on.contains(d) ==> #[trigger] mentioned(
                items,
                candidate,
            ).contains(d),
    decreases items.len(),
{
    let all = mentioned(items, candidate);
    if items.len() == 0 {
        assert(all[0] == candidate);
    } else {
        let front = items.drop_last();
        let rest = mentioned(front, candidate);
        lemma_mentioned(front, candidate);
        assert forall|d: Seq<char>| rest.contains(d) implies all.contains(d) by {
            let k = rest.index_of(d);
            assert(all[k] == d);
        }
        assert forall|i: int, d: Seq<char>|
            0 <= i < items.len() && (#[trigger] items[i]).depends_on.contains(
                d,
            ) implies #[trigger] all.contains(d) by {
            if i < front.len() {
                assert(front[i] == items[i]);
            } else {
                let k = items[i].depends_on.index_of(d);
                assert(all[rest.len() + k] == d);
            }
        }
    }
}

proof fn lemma_deps_are_mentioned(items: Seq<DepsItemView>, all: Seq<DepsItemView>, id: Seq<char>)
    requires
        forall|i: int| 0 <= i < items.len() ==> all.contains(#[trigger] items[i]),
    ensures
        deps_of(items, id).len() == 0 || exists|i: int|
            0 <= i < all.len() && (#[trigger] all[i]).depends_on == deps_of(items, id),
    decreases items.len(),
{
    if items.len() > 0 {
        if items[0].id == id {
            let k = all.index_of(items[0]);
            assert(all[k].depends_on == deps_of(items, id));
        } else {
            let rest = items.skip(1);
            assert forall|i: int| 0 <= i < rest.len() implies all.contains(#[trigger] rest[i]) by {
                assert(items[i + 1] == rest[i]);
            }
            lemma_deps_are_mentioned(rest, all, id);
        }
    }
}

/// A set that holds a batch and, with each batch, all that it depends on, holds all that the
/// batch leads to.
proof fn lemma_closed_holds_chain(
    items: Seq<DepsItemView>,
    held: Seq<Seq<char>>,
    chain: Seq<Seq<char>>,
    n: int,
)
    requires
        is_chain(items, chain),
        held.contains(chain[0]),
        forall|v: Seq<char>, d: Seq<char>|
            held.contains(v) && #[trigger] deps_of(items, v).contains(d) ==> held.contains(d),
        0 <= n < chain.len(),
    ensures
        held.contains(chain[n]),
    decreases n,
{
    if n > 0 {
        lemma_closed_holds_chain(items, held, chain, n - 1);
        assert(deps_of(items, chain[n - 1]).contains(chain[n - 1 + 1]));
    }
}

proof fn lemma_reaches_further(
    items: Seq<DepsItemView>,
    from: Seq<char>,
    middle: Seq<char>,
    to: Seq<char>,
)
    requires
        reaches(items, from, middle),
        deps_of(items, middle).contains(to),
    ensures
        reaches(items, from, to),
{
    let chain = choose|chain: Seq<Seq<char>>|
        #[trigger] is_chain(items, chain) && chain[0] == from && chain.last() == middle;
    let longer = chain.push(to);
    assert forall|i: int| #![trigger longer[i]] 0 <= i < longer.len() - 1 implies deps_of(
        items,
        longer[i],
    ).contains(longer[i + 1]) by {
        assert(longer[i] == chain[i]);
        if i < chain.len() - 1 {
            assert(longer[i + 1] == chain[i + 1]);
        }
    }
    assert(is_chain(items, longer));
    assert(longer[0] == from);
    assert(longer.last() == to);
}

proof fn lemma_reaches_itself(items: Seq<DepsItemView>, id: Seq<char>)
    ensures
        reaches(items, id, id),
{
    let chain = seq![id];
    assert(is_chain(items, chain));
    assert(chain[0] == id && chain.last() == id);
}

/// Whether an ID stands in a list.
fn holds(ids: &Vec<String>, id: &str) -> (yes: bool)
    ensures
        yes == text::strings_view(ids@).contains(id@),
{
    let ghost views = text::strings_view(ids@);
    let mut i: usize = 0;
    while i < ids.len()
        invariant
            i <= ids@.len(),
            views == text::strings_view(ids@),
            forall|k: int| 0 <= k < i ==> views[k] != id@,
        decreases ids@.len() - i,
    {
        if text_eq(ids[i].as_str(), id) {
            assert(views[i as int] == id@);
            return true;
        }
        i += 1;
    }
    false
}

/// Appends copies of all texts.
fn push_all(list: &mut Vec<String>, more: &Vec<String>)
    ensures
        text::strings_view(final(list)@) == text::strings_view(old(list)@) + text::strings_view(
            more@,
        ),
{
    let ghost before = text::strings_view(list@);
    let ghost views = text::strings_view(more@);
    let mut i: usize = 0;
    assert(before =~= before + views.take(0));
    while i < more.len()
        invariant
            i <= more@.len(),
            views == text::strings_view(more@),
            text::strings_view(list@) == before + views.take(i as int),
        decreases more@.len() - i,
    {
        let ghost now = text::strings_view(list@);
        let s = copy_of(more[i].as_str());
        list.push(s);
        assert(text::strings_view(list@) =~= now.push(s@));
        i += 1;
        assert(text::strings_view(list@) =~= before + views.take(i as int));
    }
    assert(views.take(i as int) =~= views);
}

proof fn lemma_no_more_than_mentioned(visited: Seq<Seq<char>>, all: Seq<Seq<char>>)
    requires
        visited.no_duplicates(),
        forall|v: Seq<char>| #[trigger] visited.contains(v) ==> all.contains(v),
    ensures
        visited.len() <= all.to_set().len(),
{
    visited.unique_seq_to_set();
    vstd::seq_lib::seq_to_set_is_finite(all);
    assert forall|v: Seq<char>| visited.to_set().contains(v) implies all.to_set().contains(v) by {
        assert(visited.contains(v));
    }
    vstd::set_lib::lemma_len_subset(visited.to_set(), all.to_set());
}

/// What the search has seen (`visited`) and is yet to see (`stack`).
pub open spec fn searching(
    items: Seq<DepsItemView>,
    from: Seq<char>,
    our: Seq<char>,
    visited: Seq<Seq<char>>,
    stack: Seq<Seq<char>>,
) -> bool {
    let all = mentioned(items, from);
    &&& visited.no_duplicates()
    &&& visited.contains(from) || stack.contains(from)
    &&& forall|v: Seq<char>| #[trigger]
        visited.contains(v) ==> all.contains(v) && v != our && reaches(items, from, v)
    &&& forall|v: Seq<char>| #[trigger]
        stack.contains(v) ==> all.contains(v) && reaches(items, from, v)
    &&& forall|v: Seq<char>, d: Seq<char>|
        visited.contains(v) && #[trigger] deps_of(items, v).contains(d) ==> visited.contains(d)
            || stack.contains(d)
}

proof fn lemma_search_starts(items: Seq<DepsItemView>, from: Seq<char>, our: Seq<char>)
    ensures
        searching(items, from, our, Seq::empty(), seq![from]),
{
    lemma_mentioned(items, from);
    lemma_reaches_itself(items, from);
    assert(seq![from][0] == from);
}

/// A batch that was seen before is dropped.
proof fn lemma_search_drops(
    items: Seq<DepsItemView>,
    from: Seq<char>,
    our: Seq<char>,
    visited: Seq<Seq<char>>,
    stack: Seq<Seq<char>>,
    current: Seq<char>,
)
    requires
        searching(items, from, our, visited, stack.push(current)),
        visited.contains(current),
    ensures
        searching(items, from, our, visited, stack),
{
    let longer = stack.push(current);
    assert forall|v: Seq<char>| longer.contains(v) implies stack.contains(v) || v == current by {
        let k = longer.index_of(v);
        if k < stack.len() {
            assert(stack[k] == v);
        }
    }
    assert forall|v: Seq<char>| #[trigger] stack.contains(v) implies longer.contains(v) by {
        let k = stack.index_of(v);
        assert(longer[k] == v);
    }
}

/// A new batch is taken in, and what it depends on is yet to be seen.
proof fn lemma_search_goes_on(
    items: Seq<DepsItemView>,
    from: Seq<char>,
    our: Seq<char>,
    visited: Seq<Seq<char>>,
    stack: Seq<Seq<char>>,
    current: Seq<char>,
)
    requires
        searching(items, from, our, visited, stack.push(current)),
        !visited.contains(current),
        current != our,
    ensures
        searching(
            items,
            from,
            our,
            visited.push(current),
            stack + deps_of(items, current),
        ),
        visited.len() + 1 <= mentioned(items, from).to_set().len(),
{
    let all = mentioned(items, from);
    let longer = stack.push(current);
    let deps = deps_of(items, current);
    let seen = visited.push(current);
    let left = stack + deps;
    assert(longer[stack.len() as int] == current);
    assert(longer.contains(current));
    assert forall|v: Seq<char>| #[trigger] longer.contains(v) implies left.contains(v) || v
        == current by {
        let k = longer.index_of(v);
        if k < stack.len() {
            assert(left[k] == v);
        }
    }
    assert forall|v: Seq<char>| #[trigger] visited.contains(v) implies seen.contains(v) by {
        let k = visited.index_of(v);
        assert(seen[k] == v);
    }
    assert(seen[visited.len() as int] == current);
    assert forall|v: Seq<char>| #[trigger] seen.contains(v) implies visited.contains(v) || v
        == current by {
        let k = seen.index_of(v);
        if k < visited.len() {
            assert(visited[k] == v);
        }
    }
    lemma_mentioned(items, from);
    lemma_deps_are_mentioned(items, items, current);
    assert forall|v: Seq<char>| #[trigger] left.contains(v) implies all.contains(v) && reaches(
        items,
        from,
        v,
    ) by {
        let k = left.index_of(v);
        if k < stack.len() {
            assert(longer[k] == v);
            assert(longer.contains(v));
        } else {
            assert(deps[k - stack.len()] == v);
            assert(deps.contains(v));
            lemma_reaches_further(items, from, current, v);
        }
    }
    assert forall|v: Seq<char>, d: Seq<char>|
        seen.contains(v) && #[trigger] deps_of(items, v).contains(d) implies seen.contains(d)
        || left.contains(d) by {
        if visited.contains(v) {
            assert(visited.contains(d) || longer.contains(d));
        } else {
            let k = deps.index_of(d);
            assert(left[stack.len() + k] == d);
        }
    }
    assert(seen.contains(from) || left.contains(from)) by {
        if longer.contains(from) {
            assert(left.contains(from) || from == current);
        }
    }
    lemma_no_more_than_mentioned(seen, all);
}

/// When nothing is left to be seen, our batch is not among what the search can reach.
proof fn lemma_search_ends(
    items: Seq<DepsItemView>,
    from: Seq<char>,
    our: Seq<char>,
    visited: Seq<Seq<char>>,
)
    requires
        searching(items, from, our, visited, Seq::empty()),
    ensures
        !reaches(items, from, our),
{
    if reaches(items, from, our) {
        let chain = choose|chain: Seq<Seq<char>>|
            #[trigger] is_chain(items, chain) && chain[0] == from && chain.last() == our;
        lemma_closed_holds_chain(items, visited, chain, chain.len() - 1);
    }
}

impl BatchDepsView {
    /// Whether a batch already leads to the one being edited.
    pub open spec fn makes_cycle(self, candidate: Seq<char>) -> bool {
        match self.batch_hub_id {
            Some(our) => reaches(self.items, candidate, our),
            None => false,
        }
    }
}

impl BatchDepsModal {
    /// What a batch depends on, where it is known.
    fn dependencies(&self, id: &str) -> (deps: Option<&Vec<String>>)
        ensures
            match deps {
                Some(d) => text::strings_view(d@) == deps_of(self@.items, id@),
                None => deps_of(self@.items, id@).len() == 0,
            },
    {
        let ghost views = self@.items;
        let mut i: usize = 0;
        assert(views.skip(0) =~= views);
        while i < self.items.len()
            invariant
                i <= self.items@.len(),
                views == deps_items(self.items@),
                deps_of(views, id@) == deps_of(views.skip(i as int), id@),
            decreases self.items@.len() - i,
        {
            assert(views.skip(i as int)[0] == self.items@[i as int]@);
            assert(views.skip(i as int).skip(1) =~= views.skip(i + 1));
            if text_eq(self.items[i].hub_batch_id.as_str(), id) {
                return Some(&self.items[i].depends_on);
            }
            i += 1;
        }
        None
    }

    /// Check if adding `candidate_id` as a dependency would create a cycle.
    /// A cycle exists if, starting from `candidate_id`, we can reach our own batch
    /// by following the depends_on chains.
    pub fn would_create_cycle(&self, candidate_id: &str) -> (cycle: bool)
        ensures
            cycle == self@.makes_cycle(candidate_id@),
    {
        let our_id = match &self.batch_hub_id {
            Some(id) => id.as_str(),
            // No hub ID yet, can't form a cycle
            None => return false,
        };
        let ghost items = self@.items;
        let ghost from = candidate_id@;
        let mut visited: Vec<String> = Vec::new();
        let mut stack: Vec<String> = vec![copy_of(candidate_id)];
        proof {
            lemma_search_starts(items, from, our_id@);
            assert(text::strings_view(visited@) =~= Seq::<Seq<char>>::empty());
            assert(text::strings_view(stack@) =~= seq![from]);
        }
        while stack.len() > 0
            invariant
                items == self@.items,
                from == candidate_id@,
                self@.batch_hub_id == Some(our_id@),
                searching(
                    items,
                    from,
                    our_id@,
                    text::strings_view(visited@),
                    text::strings_view(stack@),
                ),
            decreases mentioned(items, from).to_set().len() - visited@.len(), stack@.len(),
        {
            let ghost before = text::strings_view(stack@);
            let ghost seen = text::strings_view(visited@);
            let current = match stack.pop() {
                Some(id) => id,
                None => return false,
            };
            let ghost left = text::strings_view(stack@);
            proof {
                assert(before =~= left.push(current@));
                assert(before[left.len() as int] == current@);
                assert(before.contains(current@));
            }
            if text_eq(current.as_str(), our_id) {
                return true;
            }
            if holds(&visited, current.as_str()) {
                proof {
                    lemma_search_drops(items, from, our_id@, seen, left, current@);
                }
            } else {
                proof {
                    lemma_search_goes_on(items, from, our_id@, seen, left, current@);
                }
                match self.dependencies(current.as_str()) {
                    Some(deps) => push_all(&mut stack, deps),
                    None => {
                        assert(left =~= left + deps_of(items, current@));
                    },
                }
                let ghost id = current@;
                visited.push(current);
                assert(text::strings_view(visited@) =~= seen.push(id));
            }
        }
        proof {
            assert(text::strings_view(stack@) =~= Seq::<Seq<char>>::empty());
            lemma_search_ends(items, from, our_id@, text::strings_view(visited@));
        }
        false
    }
}

// ── Keys ───────────────────────────────────────────────────────────

/// The IDs of the items that are ticked.
pub open spec fn ticked(items: Seq<DepsItemView>) -> Seq<Seq<char>>
    decreases items.len(),
{
    if items.len() == 0 {
        Seq::empty()
    } else if items.last().selected {
        ticked(items.drop_last()).push(items.last().id)
    } else {
        ticked(items.drop_last())
    }
}

/// All other batches, those that the batch depends on ticked.
pub open spec fn offered_items(
    batches: Seq<(String, String, Vec<String>)>,
    current: Seq<Seq<char>>,
) -> Seq<DepsItemView> {
    batches.map_values(
        |b: (String, String, Vec<String>)|
            DepsItemView {
                id: b.0@,
                title: b.1@,
                selected: current.contains(b.0@),
                depends_on: text::strings_view(b.2@),
            },
    )
}

impl BatchDepsView {
    pub open spec fn with_tick(self, on: bool) -> BatchDepsView {
        BatchDepsView {
            items: self.items.update(
                self.selected,
                DepsItemView { selected: on, ..self.items[self.selected] },
            ),
            ..self
        }
    }

    /// A tick can always be removed; one is set only where no cycle comes of it.
    pub open spec fn toggled(self) -> BatchDepsView {
        if self.selected >= self.items.len() {
            self
        } else if self.items[self.selected].selected {
            self.with_tick(false)
        } else if !self.makes_cycle(self.items[self.selected].id) {
            self.with_tick(true)
        } else {
            self
        }
    }

    pub open spec fn after_key(self, code: KeyCode) -> BatchDepsView {
        match code {
            KeyCode::Up => BatchDepsView {
                selected: if self.selected > 0 {
                    self.selected - 1
                } else {
                    0
                },
                ..self
            },
            KeyCode::Down => if self.items.len() > 0 {
                BatchDepsView {
                    selected: if self.selected + 1 < self.items.len() {
                        self.selected + 1
                    } else {
                        self.items.len() - 1
                    },
                    ..self
                }
            } else {
                self
            },
            KeyCode::Char(c) => if c == ' ' {
                self.toggled()
            } else {
                self
            },
            _ => self,
        }
    }

    pub open spec fn answer(self, code: KeyCode) -> ResultView {
        match code {
            KeyCode::Enter => ResultView::Completed(ticked(self.items)),
            KeyCode::Esc => ResultView::Cancelled,
            _ => ResultView::Pending,
        }
    }
}

impl BatchDepsModal {
    /// Create a new dependency modal for a batch.
    ///
    /// `batch_idx` — local index of the batch being edited.
    /// `batch_title` — title for display.
    /// `batch_hub_id` — hub ID of the batch (needed for cycle detection).
    /// `current_deps` — currently selected dependency hub IDs.
    /// `all_batches` — all other batches: (hub_batch_id, title, depends_on).
    pub fn new(
        batch_idx: usize,
        batch_title: String,
        batch_hub_id: Option<String>,
        current_deps: &Vec<String>,
        all_batches: Vec<(String, String, Vec<String>)>,
    ) -> (modal: Self)
        ensures
            modal@ == (BatchDepsView {
                batch_idx,
                batch_title: batch_title@,
                batch_hub_id: branch_picker::text_in(batch_hub_id),
                items: offered_items(all_batches@, text::strings_view(current_deps@)),
                selected: 0,
            }),
    {
        let ghost goal = offered_items(all_batches@, text::strings_view(current_deps@));
        let ghost batches = all_batches@;
        let mut left = all_batches;
        let mut items: Vec<DepsItem> = Vec::new();
        assert(batches.skip(0) =~= batches);
        assert(deps_items(items@) =~= goal.take(0));
        while left.len() > 0
            invariant
                items@.len() + left@.len() == batches.len(),
                left@ == batches.skip(items@.len() as int),
                goal == offered_items(batches, text::strings_view(current_deps@)),
                deps_items(items@) == goal.take(items@.len() as int),
            decreases left@.len(),
        {
            let ghost before = items@;
            let ghost n = items@.len() as int;
            let (hub_batch_id, title, depends_on) = left.remove(0);
            let selected = holds(current_deps, hub_batch_id.as_str());
            let item = DepsItem { hub_batch_id, title, selected, depends_on };
            items.push(item);
            proof {
                assert(left@ =~= batches.skip(n + 1));
                assert(deps_items(items@) =~= deps_items(before).push(item@));
                assert(goal[n] == item@);
                assert(goal.take(n + 1) =~= goal.take(n).push(goal[n]));
            }
        }
        assert(goal.take(items@.len() as int) =~= goal);
        BatchDepsModal { batch_idx, batch_title, batch_hub_id, items, selected_idx: 0 }
    }

    pub fn batch_idx(&self) -> (idx: usize)
        ensures
            idx == self@.batch_idx,
    {
        self.batch_idx
    }

    fn set_tick(&mut self, on: bool)
        requires
            old(self)@.selected < old(self)@.items.len(),
        ensures
            final(self)@ == old(self)@.with_tick(on),
    {
        let ghost before = self@;
        let at = self.selected_idx;
        let item = self.items.remove(at);
        let ticked = DepsItem { selected: on, ..item };
        self.items.insert(at, ticked);
        assert(self@.items =~= before.with_tick(on).items);
    }

    fn selected_ids(&self) -> (ids: Vec<String>)
        ensures
            text::strings_view(ids@) == ticked(self@.items),
    {
        let ghost views = self@.items;
        let mut ids: Vec<String> = Vec::new();
        let mut i: usize = 0;
        assert(text::strings_view(ids@) =~= ticked(views.take(0)));
        while i < self.items.len()
            invariant
                i <= self.items@.len(),
                views == deps_items(self.items@),
                text::strings_view(ids@) == ticked(views.take(i as int)),
            decreases self.items@.len() - i,
        {
            assert(views.take(i + 1).drop_last() =~= views.take(i as int));
            if self.items[i].selected {
                let ghost before = text::strings_view(ids@);
                let id = copy_of(self.items[i].hub_batch_id.as_str());
                ids.push(id);
                assert(text::strings_view(ids@) =~= before.push(id@));
            }
            i += 1;
        }
        assert(views.take(i as int) =~= views);
        ids
    }

    pub fn handle_key(&mut self, code: KeyCode) -> (result: BatchDepsResult)
        ensures
            final(self)@ == old(self)@.after_key(code),
            result@ == old(self)@.answer(code),
    {
        let count = self.items.len();
        match code {
            KeyCode::Up => {
                self.selected_idx = moved(self.selected_idx, count, false);
            },
            KeyCode::Down => {
                self.selected_idx = moved(self.selected_idx, count, true);
            },
            KeyCode::Char(c) => {
                if c == ' ' && self.selected_idx < count {
                    let item = &self.items[self.selected_idx];
                    if item.selected {
                        // Always allow deselecting
                        self.set_tick(false);
                    } else if !self.would_create_cycle(item.hub_batch_id.as_str()) {
                        self.set_tick(true);
                    }
                }
            },
            KeyCode::Enter => {
                return BatchDepsResult::Completed(self.selected_ids());
            },
            KeyCode::Esc => {
                return BatchDepsResult::Cancelled;
            },
            _ => {},
        }
        BatchDepsResult::Pending
    }
}

/// A tick is never set on a batch that already leads to the one being edited.
pub proof fn ticks_make_no_cycle(modal: BatchDepsView, code: KeyCode, i: int)
    requires
        0 <= modal.selected,
        0 <= i < modal.items.len(),
        !modal.items[i].selected,
        modal.after_key(code).items[i].selected,
    ensures
        !modal.makes_cycle(modal.items[i].id),
{
}

/// Keys change nothing but ticks and the selection: what batches there are and what they
/// depend on stays, and with it what makes a cycle.
pub proof fn dependencies_stay(modal: BatchDepsView, code: KeyCode, i: int)
    requires
        0 <= modal.selected,
        0 <= i < modal.items.len(),
    ensures
        modal.after_key(code).items.len() == modal.items.len(),
        modal.after_key(code).items[i].id == modal.items[i].id,
        modal.after_key(code).items[i].title == modal.items[i].title,
        modal.after_key(code).items[i].depends_on == modal.items[i].depends_on,
        modal.after_key(code).batch_hub_id == modal.batch_hub_id,
{
}

// ── What is shown ──────────────────────────────────────────────────

pub open spec fn deps_hint() -> Seq<char> {
    "Space toggle  Enter confirm  Esc cancel"@
}

/// The longest title.
pub open spec fn longest(items: Seq<DepsItemView>) -> int
    decreases items.len(),
{
    if items.len() == 0 {
        0
    } else {
        modal_view::larger(longest(items.drop_last()), items.last().title.len() as int)
    }
}

impl BatchDepsView {
    pub open spec fn heading(self) -> Seq<char> {
        "Dependencies \u{2014} "@ + self.batch_title
    }

    pub open spec fn width(self) -> u16 {
        if self.items.len() == 0 {
            modal_view::larger(
                self.heading().len() as int + 6,
                "No other batches available"@.len() as int + 4,
            ) as u16
        } else {
            (modal_view::larger(
                modal_view::larger(
                    6 + longest(self.items) + 2,
                    self.heading().len() as int + 4,
                ),
                deps_hint().len() as int + 2,
            ) + 2) as u16
        }
    }

    pub open spec fn height(self) -> u16 {
        if self.items.len() == 0 {
            4
        } else {
            (self.items.len() + 4) as u16
        }
    }

    pub open spec fn rows(self, theme: Theme, width: int) -> Seq<Seq<style::SpanView>> {
        let ink = view::on(theme.text_tertiary, theme.bg_overlay);
        if self.items.len() == 0 {
            seq![seq![view::span(" "@ + "No other batches available"@, ink)]]
        } else {
            Seq::new(
                self.items.len(),
                |i: int| deps_row(theme, self.items[i], i == self.selected, width),
            ).push(seq![view::span(" "@ + deps_hint(), ink)])
        }
    }
}

/// An item with its tick.
pub open spec fn deps_row(theme: Theme, item: DepsItemView, selected: bool, width: int) -> Seq<
    style::SpanView,
> {
    let bg = context_menu::row_ground(theme, selected);
    let spans = seq![
        if item.selected {
            view::span(" [x] "@, view::on(theme.success, bg))
        } else {
            view::span(" [ ] "@, view::on(theme.text_tertiary, bg))
        },
        view::span(item.title, view::on(context_menu::label_ink(theme, selected), bg)),
    ];
    view::padded(spans, width, view::ground(bg))
}

fn deps_line(item: &DepsItem, selected: bool, width: u16, theme: &Theme) -> (line: Line)
    ensures
        line@ == deps_row(*theme, item@, selected, width as int),
{
    let bg = if selected {
        theme.bg_hover
    } else {
        theme.bg_overlay
    };
    let ink = if selected {
        theme.text_primary
    } else {
        theme.text_secondary
    };
    let mut spans: Vec<Span> = Vec::new();
    if item.selected {
        push_span(&mut spans, " [x] ", style_on(theme.success, bg));
    } else {
        push_span(&mut spans, " [ ] ", style_on(theme.text_tertiary, bg));
    }
    push_span(&mut spans, item.title.as_str(), style_on(ink, bg));
    assert(style::spans_view(spans@) =~= seq![
        style::spans_view(spans@)[0],
        style::spans_view(spans@)[1],
    ]);
    pad_to(&mut spans, width, style_ground(bg));
    Line { spans }
}

impl BatchDepsModal {
    fn label_max(&self) -> (n: usize)
        ensures
            n == longest(self@.items),
    {
        let ghost views = self@.items;
        let mut n: usize = 0;
        let mut i: usize = 0;
        assert(views.take(0) =~= Seq::<DepsItemView>::empty());
        while i < self.items.len()
            invariant
                i <= self.items@.len(),
                views == deps_items(self.items@),
                n == longest(views.take(i as int)),
            decreases self.items@.len() - i,
        {
            let len = self.items[i].title.as_str().unicode_len();
            assert(views.take(i + 1).drop_last() =~= views.take(i as int));
            if n < len {
                n = len;
            }
            i += 1;
        }
        assert(views.take(i as int) =~= views);
        n
    }

    fn render_empty(&self, area: Rect, title: &str, theme: &Theme) -> (face: MenuFace)
        requires
            layout::in_range(area),
            self@.items.len() == 0,
            title@ == self@.heading(),
        ensures
            context_menu::menu_framed(
                face,
                area,
                self@.width(),
                self@.height(),
                *theme,
                self@.heading(),
            ),
            style::lines_view(face.lines@) == self@.rows(*theme, face.inner.width as int),
    {
        let msg = "No other batches available";
        let with_title: u128 = title.unicode_len() as u128 + 6;
        let with_msg: u128 = msg.unicode_len() as u128 + 4;
        let wanted: u128 = if with_title < with_msg {
            with_msg
        } else {
            with_title
        };
        let width: u16 = #[verifier::truncate]
        (wanted as u16);
        let mut face = menu_frame(area, width, 4, title, theme);
        let line = line_in(
            joined(" ", msg).as_str(),
            style_on(theme.text_tertiary, theme.bg_overlay),
        );
        face.lines = vec![line];
        assert(style::lines_view(face.lines@) =~= self@.rows(*theme, face.inner.width as int));
        face
    }

    fn lines(&self, width: u16, theme: &Theme) -> (lines: Vec<Line>)
        requires
            self@.items.len() > 0,
        ensures
            style::lines_view(lines@) == self@.rows(*theme, width as int),
    {
        let ghost rows = self@.rows(*theme, width as int);
        let mut lines: Vec<Line> = Vec::new();
        let mut i: usize = 0;
        assert(style::lines_view(lines@) =~= rows.take(0));
        while i < self.items.len()
            invariant
                i <= self.items@.len(),
                self@.items.len() > 0,
                rows == self@.rows(*theme, width as int),
                style::lines_view(lines@) == rows.take(i as int),
            decreases self.items@.len() - i,
        {
            let ghost before = style::lines_view(lines@);
            let line = deps_line(&self.items[i], i == self.selected_idx, width, theme);
            lines.push(line);
            assert(style::lines_view(lines@) =~= before.push(line@));
            assert(rows[i as int] == line@);
            i += 1;
            assert(style::lines_view(lines@) =~= rows.take(i as int));
        }
        let ghost before = style::lines_view(lines@);
        let last = line_in(
            joined(" ", "Space toggle  Enter confirm  Esc cancel").as_str(),
            style_on(theme.text_tertiary, theme.bg_overlay),
        );
        lines.push(last);
        assert(style::lines_view(lines@) =~= before.push(last@));
        assert(style::lines_view(lines@) =~= rows);
        lines
    }

    /// The modal within `area`.
    pub fn render(&self, area: Rect, theme: &Theme) -> (face: MenuFace)
        requires
            layout::in_range(area),
        ensures
            context_menu::menu_framed(
                face,
                area,
                self@.width(),
                self@.height(),
                *theme,
                self@.heading(),
            ),
            style::lines_view(face.lines@) == self@.rows(*theme, face.inner.width as int),
    {
        let title = joined("Dependencies \u{2014} ", self.batch_title.as_str());
        if self.items.len() == 0 {
            return self.render_empty(area, title.as_str(), theme);
        }
        let hint = "Space toggle  Enter confirm  Esc cancel";
        let with_item: u128 = 6 + self.label_max() as u128 + 2;
        let with_title: u128 = title.as_str().unicode_len() as u128 + 4;
        let with_hint: u128 = hint.unicode_len() as u128 + 2;
        let wider: u128 = if with_item < with_title {
            with_title
        } else {
            with_item
        };
        let widest: u128 = if wider < with_hint {
            with_hint
        } else {
            wider
        };
        let width: u16 = #[verifier::truncate]
        ((widest + 2) as u16);
        let height: u16 = #[verifier::truncate]
        ((self.items.len() as u128 + 4) as u16);
        let mut face = menu_frame(area, width, height, title.as_str(), theme);
        face.lines = self.lines(face.inner.width, theme);
        face
    }
}

/// What is handed out are the batches that are ticked, in the order in which they are listed.
pub proof fn ticked_batches_are_handed_out(items: Seq<DepsItemView>, next: DepsItemView)
    ensures
        next.selected ==> ticked(items.push(next)) == ticked(items).push(next.id),
        !next.selected ==> ticked(items.push(next)) == ticked(items),
        ticked(Seq::empty()).len() == 0,
{
    assert(items.push(next).drop_last() =~= items);
}

/// Enter hands out, Esc cancels, and nothing else ends the modal.
pub proof fn enter_and_esc_end_the_modal(modal: BatchDepsView, code: KeyCode)
    ensures
        modal.answer(code) is Completed <==> code == KeyCode::Enter,
        modal.answer(code) is Cancelled <==> code == KeyCode::Esc,
        code == KeyCode::Enter ==> modal.answer(code)->Completed_0 == ticked(modal.items),
{
}

/// Up and down step through the batches, and the space bar ticks the one stepped to, or takes
/// its tick away, and touches no other.
pub proof fn batches_are_stepped_through_and_ticked(modal: BatchDepsView, i: int)
    requires
        0 <= modal.selected < modal.items.len(),
        0 <= i < modal.items.len(),
    ensures
        ({
            let up = modal.after_key(KeyCode::Up);
            let down = modal.after_key(KeyCode::Down);
            let turned = modal.after_key(KeyCode::Char(' '));
            let item = modal.items[modal.selected];
            &&& modal.selected > 0 ==> up.selected == modal.selected - 1
            &&& modal.selected == 0 ==> up.selected == 0
            &&& modal.selected + 1 < modal.items.len() ==> down.selected == modal.selected + 1
            &&& modal.selected + 1 == modal.items.len() ==> down.selected == modal.selected
            &&& up.items == modal.items && down.items == modal.items
            &&& turned.selected == modal.selected
            &&& turned.items.len() == modal.items.len()
            &&& i != modal.selected ==> turned.items[i] == modal.items[i]
            &&& turned.items[modal.selected].id == item.id
            &&& turned.items[modal.selected].depends_on == item.depends_on
            &&& item.selected ==> !turned.items[modal.selected].selected
            &&& !item.selected ==> (turned.items[modal.selected].selected <==> !modal.makes_cycle(
                item.id,
            ))
        }),
{
}

/// A batch comes back to another directly if it depends on it, and through one that it depends
/// on if that one does; a batch that depends on nothing comes back to itself alone.
pub proof fn dependencies_are_followed(
    items: Seq<DepsItemView>,
    from: Seq<char>,
    via: Seq<char>,
    to: Seq<char>,
)
    ensures
        reaches(items, from, from),
        deps_of(items, from).contains(via) && reaches(items, via, to) ==> reaches(items, from, to),
        deps_of(items, from).len() == 0 && reaches(items, from, to) ==> from == to,
{
    let one = seq![from];
    assert(is_chain(items, one) && one[0] == from && one.last() == from);
    if deps_of(items, from).contains(via) && reaches(items, via, to) {
        let chain = choose|chain: Seq<Seq<char>>|
            #[trigger] is_chain(items, chain) && chain[0] == via && chain.last() == to;
        let longer = seq![from] + chain;
        assert forall|i: int|
            #![trigger longer[i]]
            0 <= i < longer.len() - 1 implies deps_of(items, longer[i]).contains(longer[i + 1]) by {
            if i > 0 {
                assert(longer[i] == chain[i - 1]);
                assert(longer[i + 1] == chain[i - 1 + 1]);
            }
        }
        assert(is_chain(items, longer));
        assert(longer[0] == from && longer.last() == to);
    }
    if deps_of(items, from).len() == 0 && reaches(items, from, to) {
        let chain = choose|chain: Seq<Seq<char>>|
            #[trigger] is_chain(items, chain) && chain[0] == from && chain.last() == to;
        if chain.len() > 1 {
            assert(deps_of(items, chain[0]).contains(chain[1]));
        }
    }
}

/// What a batch depends on stands in the first entry with its id.
pub proof fn dependencies_stand_in_their_entry(items: Seq<DepsItemView>, i: int)
    requires
        0 <= i < items.len(),
        forall|j: int| 0 <= j < i ==> (#[trigger] items[j]).id != items[i].id,
    ensures
        deps_of(items, items[i].id) == items[i].depends_on,
    decreases i,
{
    if i > 0 {
        assert(items[0].id != items[i].id);
        let rest = items.skip(1);
        assert forall|j: int| 0 <= j < i - 1 implies (#[trigger] rest[j]).id != rest[i - 1].id by {
            assert(rest[j] == items[j + 1]);
        }
        dependencies_stand_in_their_entry(rest, i - 1);
    }
}

/// The batches that are already depended on start out ticked, and no others.
pub proof fn present_dependencies_start_out_ticked(
    batches: Seq<(String, String, Vec<String>)>,
    current: Seq<Seq<char>>,
    i: int,
)
    requires
        0 <= i < batches.len(),
    ensures
        ({
            let item = offered_items(batches, current)[i];
            &&& offered_items(batches, current).len() == batches.len()
            &&& item.id == batches[i].0@
            &&& item.title == batches[i].1@
            &&& item.selected <==> current.contains(batches[i].0@)
            &&& item.depends_on == text::strings_view(batches[i].2@)
        }),
{
}

/// A row shows whether its batch is ticked, and the batch's title.
pub proof fn rows_show_ticks_and_titles(theme: Theme, item: DepsItemView, selected: bool, width: int)
    ensures
        ({
            let row = deps_row(theme, item, selected, width);
            &&& row[0].content[2] == 'x' <==> item.selected
            &&& row[1].content == item.title
            &&& row[0].style.bg == Some(
                if selected {
                    theme.bg_hover
                } else {
                    theme.bg_overlay
                },
            )
        }),
{
    reveal_strlit(" [x] ");
    reveal_strlit(" [ ] ");
}

} // verus!
