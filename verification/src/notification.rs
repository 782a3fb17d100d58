//! Where nog's notifications go: a stack in the top right corner of the
//! display, each one below the one before it, closing up when one closes.
use vstd::prelude::*;
use crate::platform::{Area, Position};

verus! {

pub const NOTIF_HEIGHT: usize = 60;
pub const NOTIF_WIDTH: usize = 200;
pub const NOTIF_PADDING: usize = 20;
/// How long a notification stays, in milliseconds.
pub const NOTIF_TTL: usize = 3500;

/// The shown notifications, in the order in which they were pushed, and where
/// the first of them goes.
pub struct NotificationStack {
    /// The id that the next notification gets.
    pub cur_id: usize,
    /// The ids of the shown notifications, from the top down.
    pub ids: Vec<usize>,
    pub root_position: Position,
}

/// The place of the notification at `idx` from the top.
pub open spec fn spec_notif_position(root: Position, idx: nat) -> (int, int) {
    (root.x as int, root.y + (NOTIF_PADDING + NOTIF_HEIGHT) * idx)
}

/// `ids` without `id`, in the same order.
pub open spec fn without_id(ids: Seq<usize>, id: usize) -> Seq<usize>
    decreases ids.len(),
{
    if ids.len() == 0 {
        Seq::empty()
    } else if ids.last() == id {
        without_id(ids.drop_last(), id)
    } else {
        without_id(ids.drop_last(), id).push(ids.last())
    }
}

/// Closing a notification that was just pushed gives back the stack as it was
/// before, where its id was new.
pub proof fn lemma_close_undoes_push(ids: Seq<usize>, id: usize)
    requires
        !ids.contains(id),
    ensures
        without_id(ids.push(id), id) == ids,
    decreases ids.len(),
{
    lemma_without_absent(ids, id);
    assert(ids.push(id).drop_last() =~= ids);
}

proof fn lemma_without_absent(ids: Seq<usize>, id: usize)
    requires
        !ids.contains(id),
    ensures
        without_id(ids, id) == ids,
    decreases ids.len(),
{
    if ids.len() > 0 {
        let d = ids.drop_last();
        assert(!d.contains(id)) by {
            if d.contains(id) {
                let k = choose|k: int| 0 <= k < d.len() && d[k] == id;
                assert(ids[k] == id);
            }
        }
        lemma_without_absent(d, id);
        assert(ids.last() != id) by {
            assert(ids[ids.len() - 1] == ids.last());
        }
        assert(d.push(ids.last()) =~= ids);
    }
}

/// What is left after dropping `id` is part of what was there, without `id`,
/// and holds no id twice where none was held twice.
proof fn lemma_without_id_part(ids: Seq<usize>, id: usize)
    ensures
        forall|x: usize| #[trigger] without_id(ids, id).contains(x) ==> ids.contains(x) && x != id,
        ids.no_duplicates() ==> without_id(ids, id).no_duplicates(),
    decreases ids.len(),
{
    if ids.len() > 0 {
        let d = ids.drop_last();
        lemma_without_id_part(d, id);
        let wd = without_id(d, id);
        assert forall|x: usize| #[trigger] d.contains(x) implies ids.contains(x) by {
            let k = choose|k: int| 0 <= k < d.len() && d[k] == x;
            assert(ids[k] == x);
        }
        if ids.last() != id {
            let w = wd.push(ids.last());
            assert forall|x: usize| #[trigger] w.contains(x) implies ids.contains(x) && x != id by {
                let k = choose|k: int| 0 <= k < w.len() && w[k] == x;
                if k < wd.len() {
                    assert(wd[k] == x);
                    assert(wd.contains(x));
                } else {
                    assert(ids[ids.len() - 1] == x);
                }
            }
            if ids.no_duplicates() {
                assert(d.no_duplicates()) by {
                    assert forall|i: int, j: int| 0 <= i < d.len() && 0 <= j < d.len() && i != j
                        implies d[i] != d[j] by {
                        assert(d[i] == ids[i] && d[j] == ids[j]);
                    }
                }
                assert(!wd.contains(ids.last())) by {
                    if wd.contains(ids.last()) {
                        assert(d.contains(ids.last()));
                        let k = choose|k: int| 0 <= k < d.len() && d[k] == ids.last();
                        assert(ids[k] == ids[ids.len() - 1]);
                    }
                }
                assert forall|i: int, j: int| 0 <= i < w.len() && 0 <= j < w.len() && i != j
                    implies w[i] != w[j] by {
                    if i < wd.len() && j < wd.len() {
                    } else if i < wd.len() {
                        assert(wd.contains(w[i]));
                    } else {
                        assert(wd.contains(w[j]));
                    }
                }
            }
        } else {
            if ids.no_duplicates() {
                assert(d.no_duplicates()) by {
                    assert forall|i: int, j: int| 0 <= i < d.len() && 0 <= j < d.len() && i != j
                        implies d[i] != d[j] by {
                        assert(d[i] == ids[i] && d[j] == ids[j]);
                    }
                }
            }
        }
    }
}

impl NotificationStack {
    /// Every shown notification has an id below the one that the next gets,
    /// and no two of them share an id.
    pub open spec fn wf(&self) -> bool {
        &&& forall|i: int| 0 <= i < self.ids@.len() ==> #[trigger] self.ids@[i] < self.cur_id
        &&& self.ids@.no_duplicates()
    }

    /// An empty stack for a display whose area is `display_area`: the first
    /// notification goes `NOTIF_PADDING` from the top and from the right edge.
    pub fn new(display_area: &Area) -> (r: Self)
        requires
            display_area.size.width >= NOTIF_PADDING + NOTIF_WIDTH,
            display_area.size.width - NOTIF_PADDING - NOTIF_WIDTH <= isize::MAX,
        ensures
            r.wf(),
            r.cur_id == 0,
            r.ids@.len() == 0,
            r.root_position == (Position {
                x: (display_area.size.width - NOTIF_PADDING - NOTIF_WIDTH) as isize,
                y: NOTIF_PADDING as isize,
            }),
    {
        NotificationStack {
            cur_id: 0,
            ids: Vec::new(),
            root_position: Position::new((display_area.size.width - NOTIF_PADDING - NOTIF_WIDTH) as isize, NOTIF_PADDING as isize),
        }
    }

    /// Hands out the next id.
    pub fn gen_id(&mut self) -> (r: usize)
        requires
            old(self).cur_id < usize::MAX,
        ensures
            r == old(self).cur_id,
            final(self).cur_id == old(self).cur_id + 1,
            final(self).ids@ == old(self).ids@,
            final(self).root_position == old(self).root_position,
    {
        self.cur_id += 1;
        self.cur_id - 1
    }

    /// The place of the notification at `idx` from the top.
    pub fn calculate_notif_position(&self, idx: usize) -> (r: (isize, isize))
        requires
            (NOTIF_PADDING + NOTIF_HEIGHT) * idx <= isize::MAX,
            self.root_position.y + (NOTIF_PADDING + NOTIF_HEIGHT) * idx <= isize::MAX,
        ensures
            (r.0 as int, r.1 as int) == spec_notif_position(self.root_position, idx as nat),
    {
        let step: usize = NOTIF_PADDING + NOTIF_HEIGHT;
        (self.root_position.x, self.root_position.y + (step * idx) as isize)
    }

    /// Puts a new notification at the bottom of the stack, gives it an id and
    /// says where it goes.
    pub fn push(&mut self) -> (r: (usize, (isize, isize)))
        requires
            old(self).cur_id < usize::MAX,
            (NOTIF_PADDING + NOTIF_HEIGHT) * old(self).ids@.len() <= isize::MAX,
            old(self).root_position.y + (NOTIF_PADDING + NOTIF_HEIGHT) * old(self).ids@.len() <= isize::MAX,
        ensures
            r.0 == old(self).cur_id,
            (r.1.0 as int, r.1.1 as int) == spec_notif_position(old(self).root_position, old(self).ids@.len()),
            final(self).cur_id == old(self).cur_id + 1,
            final(self).ids@ == old(self).ids@.push(old(self).cur_id),
            final(self).root_position == old(self).root_position,
            old(self).wf() ==> final(self).wf(),
    {
        let id = self.gen_id();
        let idx = self.ids.len();
        let pos = self.calculate_notif_position(idx);
        let ghost before = self.ids@;
        self.ids.push(id);
        proof {
            if old(self).wf() {
                assert(!before.contains(id)) by {
                    if before.contains(id) {
                        let k = choose|k: int| 0 <= k < before.len() && before[k] == id;
                        assert(before[k] < old(self).cur_id);
                    }
                }
                assert forall|i: int, j: int| 0 <= i < self.ids@.len() && 0 <= j < self.ids@.len() && i != j
                    implies self.ids@[i] != self.ids@[j] by {
                    if i < before.len() && j < before.len() {
                    } else if i < before.len() {
                        assert(before.contains(self.ids@[i]));
                    } else {
                        assert(before.contains(self.ids@[j]));
                    }
                }
            }
        }
        (id, pos)
    }

    /// Drops the notification `id` from the stack; the ones below move up.
    pub fn close(&mut self, id: usize)
        ensures
            final(self).ids@ == without_id(old(self).ids@, id),
            final(self).cur_id == old(self).cur_id,
            final(self).root_position == old(self).root_position,
            old(self).wf() ==> final(self).wf(),
    {
        proof { lemma_without_id_part(self.ids@, id); }
        let mut kept: Vec<usize> = Vec::new();
        let mut i: usize = 0;
        while i < self.ids.len()
            invariant
                i <= self.ids@.len(),
                kept@ == without_id(self.ids@.take(i as int), id),
            decreases self.ids@.len() - i,
        {
            assert(self.ids@.take(i as int + 1).drop_last() == self.ids@.take(i as int));
            if self.ids[i] != id {
                kept.push(self.ids[i]);
            }
            i += 1;
        }
        assert(self.ids@.take(self.ids@.len() as int) == self.ids@);
        let ghost before = self.ids@;
        self.ids = kept;
        proof {
            if old(self).wf() {
                assert forall|i: int| 0 <= i < self.ids@.len() implies #[trigger] self.ids@[i] < self.cur_id by {
                    assert(without_id(before, id).contains(self.ids@[i]));
                    let k = choose|k: int| 0 <= k < before.len() && before[k] == self.ids@[i];
                }
            }
        }
    }

    /// Where each shown notification goes, from the top down.
    pub fn positions(&self) -> (r: Vec<(usize, (isize, isize))>)
        requires
            (NOTIF_PADDING + NOTIF_HEIGHT) * self.ids@.len() <= isize::MAX,
            self.root_position.y + (NOTIF_PADDING + NOTIF_HEIGHT) * self.ids@.len() <= isize::MAX,
        ensures
            r@.len() == self.ids@.len(),
            forall|i: int| 0 <= i < r@.len() ==> (#[trigger] r@[i]).0 == self.ids@[i]
                && (r@[i].1.0 as int, r@[i].1.1 as int) == spec_notif_position(self.root_position, i as nat),
    {
        let mut r: Vec<(usize, (isize, isize))> = Vec::new();
        let mut i: usize = 0;
        while i < self.ids.len()
            invariant
                i <= self.ids@.len(),
                (NOTIF_PADDING + NOTIF_HEIGHT) * self.ids@.len() <= isize::MAX,
                self.root_position.y + (NOTIF_PADDING + NOTIF_HEIGHT) * self.ids@.len() <= isize::MAX,
                r@.len() == i,
                forall|j: int| 0 <= j < i ==> (#[trigger] r@[j]).0 == self.ids@[j]
                    && (r@[j].1.0 as int, r@[j].1.1 as int) == spec_notif_position(self.root_position, j as nat),
            decreases self.ids@.len() - i,
        {
            assert((NOTIF_PADDING + NOTIF_HEIGHT) * i <= (NOTIF_PADDING + NOTIF_HEIGHT) * self.ids@.len()) by (nonlinear_arith)
                requires
                    i <= self.ids@.len(),
                    NOTIF_PADDING + NOTIF_HEIGHT == 80,
            ;
            let pos = self.calculate_notif_position(i);
            r.push((self.ids[i], pos));
            i += 1;
        }
        r
    }
}

} // verus!
