//! The form in which an entry is written: a row of text boxes, one of them
//! in focus, driven by keys.

use vstd::prelude::*;

verus! {

/// Percentage of the terminal to use for displaying the tab bar (on top)
pub const TAB_BOX_PERCENT: u16 = 7;

/// Percentage of the terminal to use for displaying the help text (at the bottom)
pub const HELP_BOX_PERCENT: u16 = 13;

/// A key, as the keyboard reports it.
#[derive(Copy, Debug, Clone, PartialEq, Eq, Structural)]
pub enum KeyEvent {
    /// A character; Enter comes as `'\n'` and Tab as `'\t'`.
    Char(char),
    /// A character typed with Ctrl held down.
    Ctrl(char),
    Backspace,
    Up,
    Down,
    Left,
    Right,
    Esc,
    /// Any key that nothing here listens to.
    Other,
}

/// What the main loop waits for.
pub enum Event<I> {
    Input(I),
    Tick,
}

/// A box of text with a title.
#[derive(Debug, Clone)]
pub struct InputBox {
    /// Written on top of the box
    title: String,
    /// true if it's the active box being written to
    is_writing: bool,
    /// growing content of the box
    content: String,
    /// if true, renders markdown, else plain text
    markdown: bool,
    /// How much of the terminal should it take up
    percent: u16,
    /// scroll index
    scroll: u16,
}

/// A box as a mathematical value.
pub struct InputBoxView {
    pub title: Seq<char>,
    pub is_writing: bool,
    pub content: Seq<char>,
    pub markdown: bool,
    pub percent: u16,
    pub scroll: u16,
}

impl InputBoxView {
    /// The box with another content.
    pub open spec fn with_content(self, content: Seq<char>) -> InputBoxView {
        InputBoxView { content, ..self }
    }

    /// The box, written to or not.
    pub open spec fn with_writing(self, is_writing: bool) -> InputBoxView {
        InputBoxView { is_writing, ..self }
    }

    /// The box scrolled to another line.
    pub open spec fn with_scroll(self, scroll: u16) -> InputBoxView {
        InputBoxView { scroll, ..self }
    }
}

impl View for InputBox {
    type V = InputBoxView;

    closed spec fn view(&self) -> InputBoxView {
        InputBoxView {
            title: self.title@,
            is_writing: self.is_writing,
            content: self.content@,
            markdown: self.markdown,
            percent: self.percent,
            scroll: self.scroll,
        }
    }
}

impl DeepView for InputBox {
    type V = InputBoxView;

    open spec fn deep_view(&self) -> InputBoxView {
        self@
    }
}

impl InputBox {
    /// Makes a new empty box
    pub fn new(title: String, markdown: bool, percent: u16) -> (r: InputBox)
        ensures
            r@ == (InputBoxView {
                title: title@,
                is_writing: false,
                content: Seq::empty(),
                markdown,
                percent,
                scroll: 0,
            }),
    {
        Self { title, is_writing: false, content: String::new(), markdown, percent, scroll: 0 }
    }

    /// Retrieves the content inside the box
    pub fn get_content(&self) -> (r: String)
        ensures
            r@ == self@.content,
    {
        self.content.clone()
    }

    /// What is written on top of the box.
    pub fn get_title(&self) -> (r: String)
        ensures
            r@ == self@.title,
    {
        self.title.clone()
    }

    /// Whether the box is the one being written to.
    pub fn is_writing(&self) -> (r: bool)
        ensures
            r == self@.is_writing,
    {
        self.is_writing
    }

    /// Whether the box takes line breaks and shows markdown.
    pub fn is_markdown(&self) -> (r: bool)
        ensures
            r == self@.markdown,
    {
        self.markdown
    }

    /// The share of the terminal that the box asks for.
    pub fn get_percent(&self) -> (r: u16)
        ensures
            r == self@.percent,
    {
        self.percent
    }

    /// The line that the box is scrolled to.
    pub fn get_scroll(&self) -> (r: u16)
        ensures
            r == self@.scroll,
    {
        self.scroll
    }

    /// A copy of the box.
    fn copy(&self) -> (r: InputBox)
        ensures
            r@ == self@,
    {
        Self {
            title: self.title.clone(),
            is_writing: self.is_writing,
            content: self.content.clone(),
            markdown: self.markdown,
            percent: self.percent,
            scroll: self.scroll,
        }
    }
}

/// A row of boxes, one of them in focus.
#[derive(Debug, Clone)]
pub struct InputBoxes {
    /// List of text input boxes
    boxes: Vec<InputBox>,
    /// Index to the active box
    index: usize,
}

/// A row of boxes as a mathematical value.
pub struct InputBoxesView {
    pub boxes: Seq<InputBoxView>,
    pub index: int,
}

/// The sum of the shares that the boxes ask for.
pub open spec fn percent_sum(boxes: Seq<InputBoxView>) -> nat
    decreases boxes.len(),
{
    if boxes.len() == 0 {
        0
    } else {
        percent_sum(boxes.drop_last()) + boxes.last().percent as nat
    }
}

impl InputBoxesView {
    /// There is a box in focus, and no other box is being written to.
    pub open spec fn wf(self) -> bool {
        &&& 0 <= self.index < self.boxes.len()
        &&& forall|i: int|
            0 <= i < self.boxes.len() && i != self.index ==> !(#[trigger] self.boxes[i]).is_writing
    }

    /// The row with box `i` in focus and written to, and no other.
    pub open spec fn focus_at(self, i: int) -> InputBoxesView {
        InputBoxesView {
            boxes: Seq::new(self.boxes.len(), |j: int| self.boxes[j].with_writing(j == i)),
            index: i,
        }
    }

    /// The row with no box written to and the first in focus.
    pub open spec fn stopped(self) -> InputBoxesView {
        InputBoxesView {
            boxes: Seq::new(self.boxes.len(), |j: int| self.boxes[j].with_writing(false)),
            index: 0,
        }
    }

    /// The row with every box empty.
    pub open spec fn cleared(self) -> InputBoxesView {
        InputBoxesView {
            boxes: Seq::new(self.boxes.len(), |j: int| self.boxes[j].with_content(Seq::empty())),
            index: self.index,
        }
    }

    /// The row with another box at `i`.
    pub open spec fn with_box(self, i: int, b: InputBoxView) -> InputBoxesView {
        InputBoxesView { boxes: self.boxes.update(i, b), index: self.index }
    }

    /// The box in focus.
    pub open spec fn focused(self) -> InputBoxView {
        self.boxes[self.index]
    }

    /// The row with the focus on the next box, the first after the last.
    pub open spec fn next(self) -> InputBoxesView {
        self.focus_at((self.index + 1) % (self.boxes.len() as int))
    }

    /// The row with the focus on the box before, the last before the first.
    pub open spec fn previous(self) -> InputBoxesView {
        self.focus_at(
            if self.index > 0 {
                self.index - 1
            } else {
                self.boxes.len() - 1
            },
        )
    }

    /// The row after `n` moves to the next box.
    pub open spec fn advanced(self, n: nat) -> InputBoxesView
        decreases n,
    {
        if n == 0 {
            self
        } else {
            self.advanced((n - 1) as nat).next()
        }
    }

    /// The row after a key, what it hands over to be saved, and whether
    /// writing has ended.
    pub open spec fn step(self, key: KeyEvent) -> (InputBoxesView, Option<Seq<InputBoxView>>, bool) {
        let now = self.focused();
        match key {
            KeyEvent::Ctrl(c) => if c == 's' {
                (self.cleared().stopped(), Some(self.boxes), true)
            } else if c == 'n' {
                (self.next(), None, false)
            } else if c == 'b' {
                (self.previous(), None, false)
            } else {
                (self, None, false)
            },
            KeyEvent::Char(c) => if !now.markdown && c == '\n' {
                (self.next(), None, false)
            } else {
                (self.with_box(self.index, now.with_content(now.content.push(c))), None, false)
            },
            KeyEvent::Backspace => if now.content.len() > 0 {
                (self.with_box(self.index, now.with_content(now.content.drop_last())), None, false)
            } else {
                (self, None, false)
            },
            KeyEvent::Up => if now.scroll > 0 {
                (self.with_box(self.index, now.with_scroll((now.scroll - 1) as u16)), None, false)
            } else {
                (self, None, false)
            },
            KeyEvent::Down => if now.scroll < u16::MAX {
                (self.with_box(self.index, now.with_scroll((now.scroll + 1) as u16)), None, false)
            } else {
                (self, None, false)
            },
            KeyEvent::Esc => (self.cleared().stopped(), None, true),
            _ => (self, None, false),
        }
    }
}

impl View for InputBoxes {
    type V = InputBoxesView;

    closed spec fn view(&self) -> InputBoxesView {
        InputBoxesView { boxes: self.boxes.deep_view(), index: self.index as int }
    }
}

impl InputBoxes {
    /// The view holds the views of the boxes, one for one.
    proof fn lemma_view(&self)
        ensures
            self@.boxes.len() == self.boxes@.len(),
            self@.index == self.index,
            forall|j: int| 0 <= j < self.boxes@.len() ==> self@.boxes[j] == (#[trigger] self.boxes@[j])@,
    {
    }

    /// Makes a new struct with active box as the first one
    pub fn new(boxes: Vec<InputBox>) -> (r: InputBoxes)
        requires
            boxes.len() > 0,
        ensures
            r@ == (InputBoxesView { boxes: boxes.deep_view(), index: 0 }).focus_at(0),
            r@.wf(),
    {
        let mut input_boxes = Self { boxes, index: 0 };
        input_boxes.focus_first();
        input_boxes
    }

    /// Begins writing afresh: empties every box, sets the first box to active,
    /// and turns the others off (for writing, not rendering)
    pub fn start_writing(&mut self)
        requires
            old(self)@.boxes.len() > 0,
        ensures
            final(self)@ == old(self)@.cleared().focus_at(0),
            final(self)@.wf(),
    {
        self.clear();
        self.focus_first();
    }

    /// Sets the first box to active, and turns the others off; what the boxes
    /// hold stays.
    fn focus_first(&mut self)
        requires
            old(self)@.boxes.len() > 0,
        ensures
            final(self)@ == old(self)@.focus_at(0),
            final(self)@.wf(),
    {
        self.stop_writing();
        let ghost mid = *self;
        proof {
            mid.lemma_view();
        }
        self.boxes[0].is_writing = true;
        proof {
            self.lemma_view();
            assert forall|j: int| 0 <= j < self@.boxes.len() implies self@.boxes[j] == old(
                self,
            )@.focus_at(0).boxes[j] by {
                assert(self.boxes@[j]@ == mid.boxes@[j]@.with_writing(j == 0));
            }
        }
        assert(self@.boxes =~= old(self)@.focus_at(0).boxes);
    }

    /// Turns off all the boxes for writing
    pub fn stop_writing(&mut self)
        ensures
            final(self)@ == old(self)@.stopped(),
    {
        self.index = 0;
        let n = self.boxes.len();
        let mut i: usize = 0;
        while i < n
            invariant
                i <= n == self.boxes.len(),
                self.index == 0,
                n == old(self).boxes.len(),
                forall|j: int|
                    0 <= j < i ==> (#[trigger] self.boxes@[j])@ == old(self).boxes@[j]@.with_writing(
                        false,
                    ),
                forall|j: int| i <= j < n ==> (#[trigger] self.boxes@[j])@ == old(self).boxes@[j]@,
            decreases n - i,
        {
            self.boxes[i].is_writing = false;
            i += 1;
        }
        assert(self@.boxes =~= old(self)@.stopped().boxes);
    }

    /// Replaces the content in a specified box
    pub fn replace_content(&mut self, index: usize, content: &str)
        requires
            index < old(self)@.boxes.len(),
        ensures
            final(self)@ == old(self)@.with_box(
                index as int,
                old(self)@.boxes[index as int].with_content(content@),
            ),
    {
        self.boxes[index].content = content.to_owned();
        assert(self@.boxes =~= old(self)@.with_box(
            index as int,
            old(self)@.boxes[index as int].with_content(content@),
        ).boxes);
    }

    /// Makes layout constraints based on the percentages of each box: the tab
    /// bar, what is left for the list of entries, the boxes, then the help
    /// bar. `None` where the boxes and the two bars ask for more than the whole.
    pub fn get_constraints(&self) -> (r: Option<Vec<u16>>)
        ensures
            match r {
                Some(shares) => {
                    let sum = percent_sum(self@.boxes);
                    &&& sum + TAB_BOX_PERCENT + HELP_BOX_PERCENT <= 100
                    &&& shares@.len() == self@.boxes.len() + 3
                    &&& shares@[0] == TAB_BOX_PERCENT
                    &&& shares@[1] == 100 - TAB_BOX_PERCENT - sum - HELP_BOX_PERCENT
                    &&& forall|i: int|
                        0 <= i < self@.boxes.len() ==> shares@[i + 2] == self@.boxes[i].percent
                    &&& shares@.last() == HELP_BOX_PERCENT
                },
                None => percent_sum(self@.boxes) + TAB_BOX_PERCENT + HELP_BOX_PERCENT > 100,
            },
    {
        let room: u16 = 100 - TAB_BOX_PERCENT - HELP_BOX_PERCENT;
        let n = self.boxes.len();
        let mut sum: u16 = 0;
        let mut i: usize = 0;
        let ghost all = self@.boxes;
        assert(all.take(0) =~= Seq::<InputBoxView>::empty());
        while i < n
            invariant
                i <= n == self.boxes.len(),
                room == 80,
                all == self@.boxes,
                sum == percent_sum(all.take(i as int)),
                sum <= room,
            decreases n - i,
        {
            let p = self.boxes[i].percent;
            proof {
                assert(all.take(i + 1).drop_last() =~= all.take(i as int));
                assert(all.take(i + 1).last().percent == p);
                lemma_percent_sum_grows(all, i + 1);
            }
            if p > room - sum {
                return None;
            }
            sum = sum + p;
            i += 1;
        }
        assert(all.take(n as int) =~= all);
        let mut shares: Vec<u16> = Vec::new();
        shares.push(TAB_BOX_PERCENT);
        shares.push(room - sum);
        let mut j: usize = 0;
        while j < n
            invariant
                j <= n == self.boxes.len(),
                all == self@.boxes,
                shares@.len() == j + 2,
                shares@[0] == TAB_BOX_PERCENT,
                shares@[1] == 100 - TAB_BOX_PERCENT - sum - HELP_BOX_PERCENT,
                forall|k: int| 0 <= k < j ==> shares@[k + 2] == all[k].percent,
            decreases n - j,
        {
            shares.push(self.boxes[j].percent);
            j += 1;
        }
        shares.push(HELP_BOX_PERCENT);
        Some(shares)
    }

    /// The number of boxes.
    pub fn len(&self) -> (r: usize)
        ensures
            r == self@.boxes.len(),
    {
        self.boxes.len()
    }

    /// Whether there is no box.
    pub fn is_empty(&self) -> (r: bool)
        ensures
            r == (self@.boxes.len() == 0),
    {
        self.boxes.len() == 0
    }

    /// The index of the box in focus.
    pub fn get_index(&self) -> (r: usize)
        ensures
            r == self@.index,
    {
        self.index
    }

    /// The box at `index`.
    pub fn get_box(&self, index: usize) -> (r: &InputBox)
        requires
            index < self@.boxes.len(),
        ensures
            r@ == self@.boxes[index as int],
    {
        &self.boxes[index]
    }

    /// Copies of the boxes.
    fn snapshot(&self) -> (r: Vec<InputBox>)
        ensures
            r.deep_view() == self@.boxes,
    {
        let mut out: Vec<InputBox> = Vec::new();
        let mut i: usize = 0;
        while i < self.boxes.len()
            invariant
                i <= self.boxes.len(),
                out.deep_view() == self@.boxes.take(i as int),
            decreases self.boxes.len() - i,
        {
            let ghost before = out.deep_view();
            let b = self.boxes[i].copy();
            out.push(b);
            i += 1;
            assert(out.deep_view() =~= before.push(b@));
            assert(out.deep_view() =~= self@.boxes.take(i as int));
        }
        assert(self@.boxes.take(i as int) =~= self@.boxes);
        out
    }

    /// Empties every box.
    fn clear(&mut self)
        ensures
            final(self)@ == old(self)@.cleared(),
    {
        let n = self.boxes.len();
        let mut i: usize = 0;
        while i < n
            invariant
                i <= n == self.boxes.len(),
                self.index == old(self).index,
                n == old(self).boxes.len(),
                forall|j: int|
                    0 <= j < i ==> (#[trigger] self.boxes@[j])@ == old(self).boxes@[j]@.with_content(
                        Seq::empty(),
                    ),
                forall|j: int| i <= j < n ==> (#[trigger] self.boxes@[j])@ == old(self).boxes@[j]@,
            decreases n - i,
        {
            self.boxes[i].content = String::new();
            i += 1;
        }
        assert(self@.boxes =~= old(self)@.cleared().boxes);
    }

    /// Return the boxes and clear them out. Stop writing on save
    pub fn save(&mut self) -> (r: Vec<InputBox>)
        ensures
            r.deep_view() == old(self)@.boxes,
            final(self)@ == old(self)@.cleared().stopped(),
    {
        let boxes = self.snapshot();
        self.clear();
        self.stop_writing();
        boxes
    }

    /// Empties the boxes and stops writing, handing nothing over.
    pub fn cancel(&mut self)
        ensures
            final(self)@ == old(self)@.cleared().stopped(),
    {
        self.clear();
        self.stop_writing();
    }

    /// Puts the focus on box `to`.
    fn focus(&mut self, to: usize)
        requires
            old(self)@.wf(),
            to < old(self)@.boxes.len(),
        ensures
            final(self)@ == old(self)@.focus_at(to as int),
            final(self)@.wf(),
    {
        self.boxes[self.index].is_writing = false;
        self.index = to;
        self.boxes[to].is_writing = true;
        assert(self@.boxes =~= old(self)@.focus_at(to as int).boxes);
    }

    /// Go to the next box (wraps around)
    pub fn increment_box(&mut self)
        requires
            old(self)@.wf(),
        ensures
            final(self)@ == old(self)@.next(),
            final(self)@.wf(),
    {
        assert(self.index < self.boxes.len());
        let to = if self.index + 1 < self.boxes.len() {
            self.index + 1
        } else {
            0
        };
        proof {
            let len = self.boxes.len() as int;
            if self.index + 1 < len {
                vstd::arithmetic::div_mod::lemma_small_mod((self.index + 1) as nat, len as nat);
            } else {
                vstd::arithmetic::div_mod::lemma_mod_self_0(len);
            }
        }
        self.focus(to);
    }

    /// Go to the previous box (wraps around)
    pub fn decrement_box(&mut self)
        requires
            old(self)@.wf(),
        ensures
            final(self)@ == old(self)@.previous(),
            final(self)@.wf(),
    {
        let to = if self.index > 0 {
            self.index - 1
        } else {
            self.boxes.len() - 1
        };
        self.focus(to);
    }

    /// Handle keyboard input events
    /// Ctrl-s: saves the entry being written
    /// Ctrl-n: next (next box)
    /// Ctrl-b: back (previous box)
    /// `\n`: if markdown=false then go to the next box, otherwise it's a normal `\n`
    /// Backspace: deletes a character
    /// ^ (Up arrow): scrolls up
    /// v (Down arrow): scrolls down
    /// Esc: gives up what was written and ends writing mode
    /// Returns (a potential new entry to save, an indicator of whether to stop writing mode)
    pub fn keypress(&mut self, key: KeyEvent) -> (r: (Option<Vec<InputBox>>, bool))
        requires
            old(self)@.wf(),
        ensures
            final(self)@ == old(self)@.step(key).0,
            r.0 is Some <==> old(self)@.step(key).1 is Some,
            r.0 matches Some(boxes) ==> old(self)@.step(key).1 == Some(boxes.deep_view()),
            r.1 == old(self)@.step(key).2,
            final(self)@.boxes.len() == old(self)@.boxes.len(),
            final(self)@.wf(),
    {
        let i = self.index;
        match key {
            KeyEvent::Ctrl(c) => {
                if c == 's' {
                    return (Some(self.save()), true);
                } else if c == 'n' {
                    self.increment_box();
                } else if c == 'b' {
                    self.decrement_box();
                }
            },
            KeyEvent::Char(c) => {
                if !self.boxes[i].markdown && c == '\n' {
                    self.increment_box();
                } else {
                    self.boxes[i].content.push(c);
                    assert(self@.boxes =~= old(self)@.step(key).0.boxes);
                }
            },
            KeyEvent::Backspace => {
                self.boxes[i].content.pop();
                assert(self@.boxes =~= old(self)@.step(key).0.boxes);
            },
            KeyEvent::Up => {
                if self.boxes[i].scroll > 0 {
                    self.boxes[i].scroll -= 1;
                }
                assert(self@.boxes =~= old(self)@.step(key).0.boxes);
            },
            KeyEvent::Down => {
                if self.boxes[i].scroll < u16::MAX {
                    self.boxes[i].scroll += 1;
                }
                assert(self@.boxes =~= old(self)@.step(key).0.boxes);
            },
            KeyEvent::Esc => {
                self.cancel();
                return (None, true);
            },
            _ => {},
        }
        (None, false)
    }
}

/// The sum over a head of the boxes is at most the sum over all.
pub proof fn lemma_percent_sum_grows(boxes: Seq<InputBoxView>, k: int)
    requires
        0 <= k <= boxes.len(),
    ensures
        percent_sum(boxes.take(k)) <= percent_sum(boxes),
    decreases boxes.len() - k,
{
    if k < boxes.len() {
        lemma_percent_sum_grows(boxes, k + 1);
        assert(boxes.take(k + 1).drop_last() =~= boxes.take(k));
    } else {
        assert(boxes.take(k) =~= boxes);
    }
}

/// After `n` moves to the next box the focus is `n` boxes further, counted
/// round the row.
pub proof fn lemma_advanced(row: InputBoxesView, n: nat)
    requires
        row.wf(),
    ensures
        row.advanced(n).wf(),
        row.advanced(n).boxes.len() == row.boxes.len(),
        row.advanced(n).index == (row.index + n) % (row.boxes.len() as int),
    decreases n,
{
    let len = row.boxes.len() as int;
    if n > 0 {
        lemma_advanced(row, (n - 1) as nat);
        let before = row.advanced((n - 1) as nat);
        assert(((row.index + n - 1) % len + 1) % len == (row.index + n) % len) by {
            vstd::arithmetic::div_mod::lemma_add_mod_noop(row.index + n - 1, 1, len);
            vstd::arithmetic::div_mod::lemma_mod_twice(row.index + n - 1, len);
            vstd::arithmetic::div_mod::lemma_add_mod_noop((row.index + n - 1) % len, 1, len);
        }
    } else {
        vstd::arithmetic::div_mod::lemma_small_mod(row.index as nat, len as nat);
    }
}

/// In a row of N boxes, N moves to the next box bring the focus back to
/// where it was.
pub proof fn lemma_focus_wrap(row: InputBoxesView)
    requires
        row.wf(),
    ensures
        row.advanced(row.boxes.len()).index == row.index,
{
    let len = row.boxes.len() as int;
    lemma_advanced(row, row.boxes.len());
    vstd::arithmetic::div_mod::lemma_mod_add_multiples_vanish(row.index, len);
    vstd::arithmetic::div_mod::lemma_small_mod(row.index as nat, len as nat);
}

} // verus!
