//! Conversation histories, one per persona, and the list of inputs typed so far.
use vstd::prelude::*;

use crate::keyed::Keyed;
use crate::text::texts;

verus! {

/// A conversation line by its texts: who spoke, and what.
pub open spec fn line_views(v: Seq<(String, String)>) -> Seq<(Seq<char>, Seq<char>)> {
    v.map_values(|p: (String, String)| (p.0@, p.1@))
}

/// The lines of one persona's conversation: all of them, and those shown.
pub struct History {
    pub lines: Vec<(String, String)>,
    pub display: Vec<(String, String)>,
}

/// A history by its texts.
pub struct HistoryView {
    pub lines: Seq<(Seq<char>, Seq<char>)>,
    pub display: Seq<(Seq<char>, Seq<char>)>,
}

impl View for History {
    type V = HistoryView;

    open spec fn view(&self) -> HistoryView {
        HistoryView { lines: line_views(self.lines@), display: line_views(self.display@) }
    }
}

/// An empty history.
pub open spec fn empty_history() -> HistoryView {
    HistoryView { lines: Seq::empty(), display: Seq::empty() }
}

/// The histories of all personas, the persona now spoken to, and the inputs.
pub struct Histories {
    pub persona: String,
    pub histories: Keyed<History>,
    pub inputs: Vec<String>,
}

/// Histories by their texts.
pub struct HistoriesView {
    pub persona: Seq<char>,
    pub histories: Map<Seq<char>, HistoryView>,
    pub inputs: Seq<Seq<char>>,
}

impl HistoriesView {
    /// This state, with an empty history for the current persona where it had none.
    pub open spec fn with_entry(self) -> HistoriesView {
        if self.histories.dom().contains(self.persona) {
            self
        } else {
            HistoriesView { histories: self.histories.insert(self.persona, empty_history()), ..self }
        }
    }

    /// The current persona's history (empty where it has none yet).
    pub open spec fn current(self) -> HistoryView {
        self.with_entry().histories[self.persona]
    }

    /// This state with `h` as the current persona's history.
    pub open spec fn set_current(self, h: HistoryView) -> HistoriesView {
        HistoriesView { histories: self.histories.insert(self.persona, h), ..self }
    }

    /// The shown lines of the current persona emptied; all lines kept.
    pub open spec fn cleared(self) -> HistoriesView {
        self.set_current(HistoryView { lines: self.current().lines, display: Seq::empty() })
    }

    /// Both the lines and the shown lines of the current persona set to `lines`.
    pub open spec fn loaded(self, lines: Seq<(Seq<char>, Seq<char>)>) -> HistoriesView {
        self.set_current(HistoryView { lines: lines, display: lines })
    }

    /// Persona `p` made current, with an empty history where it had none.
    pub open spec fn switched(self, p: Seq<char>) -> HistoriesView {
        HistoriesView { persona: p, ..self }.with_entry()
    }

    /// `line` added to the lines and the shown lines of the current persona.
    pub open spec fn with_line(self, line: (Seq<char>, Seq<char>)) -> HistoriesView {
        self.set_current(
            HistoryView { lines: self.current().lines.push(line), display: self.current().display.push(line) },
        )
    }

    /// `value` added to the inputs.
    pub open spec fn with_input(self, value: Seq<char>) -> HistoriesView {
        HistoriesView { inputs: self.inputs.push(value), ..self }
    }
}

/// Making an entry first does not change what setting the current history gives.
pub proof fn lemma_set_current_with_entry(s: HistoriesView, h: HistoryView)
    ensures
        s.with_entry().set_current(h) == s.set_current(h),
        s.with_entry().current() == s.current(),
        s.set_current(h).current() == h,
{
    assert(s.with_entry().set_current(h).histories =~= s.set_current(h).histories);
}

/// Setting the current history twice keeps the second.
pub proof fn lemma_set_current_twice(s: HistoriesView, a: HistoryView, b: HistoryView)
    ensures
        s.set_current(a).set_current(b) == s.set_current(b),
{
    assert(s.set_current(a).set_current(b).histories =~= s.set_current(b).histories);
}

impl View for Histories {
    type V = HistoriesView;

    open spec fn view(&self) -> HistoriesView {
        HistoriesView {
            persona: self.persona@,
            histories: Map::new(|k: Seq<char>| self.histories.has(k), |k: Seq<char>| self.histories.at(k)@),
            inputs: texts(self.inputs@),
        }
    }
}

impl History {
    /// An empty history.
    pub fn new() -> (res: History)
        ensures
            res@ == empty_history(),
    {
        let res = History { lines: Vec::new(), display: Vec::new() };
        assert(res@.lines =~= Seq::<(Seq<char>, Seq<char>)>::empty());
        assert(res@.display =~= Seq::<(Seq<char>, Seq<char>)>::empty());
        res
    }
}

/// A copy of a list of lines.
pub fn copy_lines(v: &Vec<(String, String)>) -> (res: Vec<(String, String)>)
    ensures
        line_views(res@) == line_views(v@),
{
    let mut res: Vec<(String, String)> = Vec::new();
    let mut i: usize = 0;
    while i < v.len()
        invariant
            i <= v@.len(),
            line_views(res@) == line_views(v@.take(i as int)),
        decreases v@.len() - i,
    {
        let a = v[i].0.clone();
        let b = v[i].1.clone();
        let ghost before = res@;
        res.push((a, b));
        assert(v@.take(i + 1) =~= v@.take(i as int).push(v@[i as int]));
        assert(line_views(res@) =~= line_views(before).push((v@[i as int].0@, v@[i as int].1@)));
        assert(line_views(res@) =~= line_views(v@.take(i + 1)));
        i = i + 1;
    }
    assert(v@.take(v@.len() as int) =~= v@);
    res
}

impl Histories {
    /// The table of histories has each persona once.
    pub open spec fn inv(&self) -> bool {
        self.histories.wf()
    }

    /// No persona, no histories, no inputs.
    pub fn new() -> (res: Histories)
        ensures
            res.inv(),
            res@.persona == Seq::<char>::empty(),
            res@.histories == Map::<Seq<char>, HistoryView>::empty(),
            res@.inputs == Seq::<Seq<char>>::empty(),
    {
        let res = Histories { persona: String::new(), histories: Keyed::new(), inputs: Vec::new() };
        assert(res@.histories =~= Map::<Seq<char>, HistoryView>::empty());
        assert(res@.inputs =~= Seq::<Seq<char>>::empty());
        res
    }

    /// The place of the current persona's history, made where there was none.
    fn entry_index(&mut self) -> (res: usize)
        requires
            old(self).inv(),
        ensures
            final(self).inv(),
            final(self)@ == old(self)@.with_entry(),
            res < final(self).histories.entries@.len(),
            final(self).histories.entries@[res as int].0@ == final(self).persona@,
            final(self).histories.has(final(self).persona@),
            final(self).histories.index_of(final(self).persona@) == res,
    {
        match self.histories.find(self.persona.as_str()) {
            Some(i) => {
                proof {
                    self.histories.lemma_index_of(i as int);
                }
                i
            },
            None => {
                let ghost pre = self@;
                let key = self.persona.clone();
                self.histories.insert(key, History::new());
                assert(self.histories.keys().len() == self.histories.entries@.len());
                let n = self.histories.len() - 1;
                proof {
                    assert(self.histories.keys()[n as int] == self.histories.entries@[n as int].0@);
                    assert(self.histories.keys()[n as int] == self.persona@);
                    assert(self.histories.entries@[n as int].0@ == self.persona@);
                    self.histories.lemma_index_of(n as int);
                    assert forall|k: Seq<char>| #[trigger] self.histories.has(k) == pre.with_entry().histories.dom().contains(k) by {
                        assert(self.histories.view_map().dom().contains(k) == self.histories.has(k));
                    }
                    assert forall|k: Seq<char>| #[trigger] self.histories.has(k) implies self.histories.at(k)@ == pre.with_entry().histories[k] by {
                        assert(self.histories.view_map()[k] == self.histories.at(k));
                    }
                    assert(self@.histories =~= pre.with_entry().histories);
                }
                n
            },
        }
    }

    /// Sets the history at place `i` to `h`, and says what the state becomes.
    proof fn lemma_set_at(pre: Histories, post: Histories, i: int, h: History)
        requires
            pre.inv(),
            0 <= i < pre.histories.entries@.len(),
            pre.histories.entries@[i].0@ == pre.persona@,
            post.persona == pre.persona,
            post.inputs == pre.inputs,
            post.histories.entries@ == pre.histories.entries@.update(i, (pre.histories.entries@[i].0, h)),
        ensures
            post.inv(),
            post@ == pre@.set_current(h@),
    {
        assert(post.inv()) by {
            assert forall|a: int, b: int| 0 <= a < b < post.histories.entries@.len() implies #[trigger] post.histories.entries@[a].0@
                != #[trigger] post.histories.entries@[b].0@ by {
                assert(pre.histories.entries@[a].0@ != pre.histories.entries@[b].0@);
            }
        }
        pre.histories.lemma_index_of(i);
        post.histories.lemma_index_of(i);
        assert forall|k: Seq<char>| #[trigger] post.histories.has(k) == pre.histories.has(k) by {
            if post.histories.has(k) {
                let m = choose|m: int| 0 <= m < post.histories.entries@.len() && #[trigger] post.histories.entries@[m].0@ == k;
                assert(pre.histories.entries@[m].0@ == k);
            }
            if pre.histories.has(k) {
                let m = choose|m: int| 0 <= m < pre.histories.entries@.len() && #[trigger] pre.histories.entries@[m].0@ == k;
                assert(post.histories.entries@[m].0@ == k);
            }
        }
        assert forall|k: Seq<char>| #[trigger] post.histories.has(k) implies post.histories.at(k)@
            == pre@.set_current(h@).histories[k] by {
            let m = post.histories.index_of(k);
            post.histories.lemma_index_of(m);
            if m != i {
                pre.histories.lemma_index_of(m);
            }
        }
        assert(post@.histories =~= pre@.set_current(h@).histories);
    }

    /// Every state reached by changing the lines at place `i` is `pre` with a
    /// new current history.
    proof fn lemma_new_lines(pre: Histories, i: int)
        requires
            pre.inv(),
            0 <= i < pre.histories.entries@.len(),
            pre.histories.entries@[i].0@ == pre.persona@,
        ensures
            forall|post: Histories, l: Vec<(String, String)>|
                #![trigger post@, l@]
                post.persona == pre.persona && post.inputs == pre.inputs && post.histories.entries@
                    == pre.histories.entries@.update(
                    i,
                    (pre.histories.entries@[i].0, History { lines: l, display: pre.histories.entries@[i].1.display }),
                ) ==> post.inv() && post@ == pre@.set_current(
                    HistoryView { lines: line_views(l@), display: line_views(pre.histories.entries@[i].1.display@) },
                ),
    {
        assert forall|post: Histories, l: Vec<(String, String)>|
            #![trigger post@, l@]
            post.persona == pre.persona && post.inputs == pre.inputs && post.histories.entries@
                == pre.histories.entries@.update(
                i,
                (pre.histories.entries@[i].0, History { lines: l, display: pre.histories.entries@[i].1.display }),
            ) implies post.inv() && post@ == pre@.set_current(
                HistoryView { lines: line_views(l@), display: line_views(pre.histories.entries@[i].1.display@) },
            ) by {
            Self::lemma_set_at(pre, post, i, History { lines: l, display: pre.histories.entries@[i].1.display });
        }
    }

    /// Every state reached by changing the shown lines at place `i` is `pre`
    /// with a new current history.
    proof fn lemma_new_display(pre: Histories, i: int)
        requires
            pre.inv(),
            0 <= i < pre.histories.entries@.len(),
            pre.histories.entries@[i].0@ == pre.persona@,
        ensures
            forall|post: Histories, d: Vec<(String, String)>|
                #![trigger post@, d@]
                post.persona == pre.persona && post.inputs == pre.inputs && post.histories.entries@
                    == pre.histories.entries@.update(
                    i,
                    (pre.histories.entries@[i].0, History { lines: pre.histories.entries@[i].1.lines, display: d }),
                ) ==> post.inv() && post@ == pre@.set_current(
                    HistoryView { lines: line_views(pre.histories.entries@[i].1.lines@), display: line_views(d@) },
                ),
    {
        assert forall|post: Histories, d: Vec<(String, String)>|
            #![trigger post@, d@]
            post.persona == pre.persona && post.inputs == pre.inputs && post.histories.entries@
                == pre.histories.entries@.update(
                i,
                (pre.histories.entries@[i].0, History { lines: pre.histories.entries@[i].1.lines, display: d }),
            ) implies post.inv() && post@ == pre@.set_current(
                HistoryView { lines: line_views(pre.histories.entries@[i].1.lines@), display: line_views(d@) },
            ) by {
            Self::lemma_set_at(pre, post, i, History { lines: pre.histories.entries@[i].1.lines, display: d });
        }
    }

    /// Empties the shown lines of the current persona.
    pub fn clear(&mut self)
        requires
            old(self).inv(),
        ensures
            final(self).inv(),
            final(self)@ == old(self)@.cleared(),
    {
        let display = self.display_mut();
        display.clear();
        proof {
            assert(line_views(final(display)@) =~= Seq::<(Seq<char>, Seq<char>)>::empty());
        }
    }

    /// Sets both the lines and the shown lines of the current persona to `lines`.
    pub fn load(&mut self, lines: &Vec<(String, String)>)
        requires
            old(self).inv(),
        ensures
            final(self).inv(),
            final(self)@ == old(self)@.loaded(line_views(lines@)),
    {
        let ghost pre = self@;
        *self.lines_mut() = copy_lines(lines);
        let ghost mid = self@;
        let ghost h1 = HistoryView { lines: line_views(lines@), display: pre.current().display };
        assert(mid == pre.set_current(h1));
        *self.display_mut() = copy_lines(lines);
        proof {
            lemma_set_current_with_entry(pre, h1);
            lemma_set_current_twice(pre, h1, HistoryView { lines: line_views(lines@), display: line_views(lines@) });
        }
    }

    /// Makes `persona` the current persona, giving it an empty history where
    /// it has none; every history is kept.
    pub fn switch(&mut self, persona: &String)
        requires
            old(self).inv(),
        ensures
            final(self).inv(),
            final(self)@ == old(self)@.switched(persona@),
    {
        self.persona = persona.clone();
        let _ = self.entry_index();
    }

    /// Keeps `shown` as the lines of the persona now spoken to, makes `to` the
    /// persona spoken to, and gives the lines kept for `to` (none where it has
    /// none yet).
    pub fn switch_keeping(&mut self, shown: &Vec<(String, String)>, to: &String) -> (res: Vec<(String, String)>)
        requires
            old(self).inv(),
        ensures
            final(self).inv(),
            final(self)@ == old(self)@.loaded(line_views(shown@)).switched(to@),
            line_views(res@) == final(self)@.current().display,
    {
        self.load(shown);
        self.switch(to);
        let ghost mid = self@;
        assert(mid.with_entry() == mid);
        let kept = self.display();
        copy_lines(kept)
    }

    /// Adds `line` to the lines and the shown lines of the current persona.
    pub fn insert_line(&mut self, line: &(String, String))
        requires
            old(self).inv(),
        ensures
            final(self).inv(),
            final(self)@ == old(self)@.with_line((line.0@, line.1@)),
    {
        let ghost pre = self@;
        let lines = self.lines_mut();
        lines.push((line.0.clone(), line.1.clone()));
        proof {
            assert(line_views(final(lines)@) =~= pre.current().lines.push((line.0@, line.1@)));
        }
        let ghost mid = self@;
        let ghost h1 = HistoryView { lines: pre.current().lines.push((line.0@, line.1@)), display: pre.current().display };
        let display = self.display_mut();
        display.push((line.0.clone(), line.1.clone()));
        proof {
            assert(line_views(final(display)@) =~= mid.current().display.push((line.0@, line.1@)));
        }
        proof {
            lemma_set_current_with_entry(pre, h1);
            lemma_set_current_twice(pre, h1, HistoryView { lines: pre.current().lines.push((line.0@, line.1@)), display: pre.current().display.push((line.0@, line.1@)) });
        }
    }

    /// Adds `value` to the inputs.
    pub fn insert_input(&mut self, value: &String)
        requires
            old(self).inv(),
        ensures
            final(self).inv(),
            final(self)@ == old(self)@.with_input(value@),
    {
        let ghost pre = self@;
        self.inputs.push(value.clone());
        assert(self@.inputs =~= pre.inputs.push(value@));
    }

    /// The lines of the current persona (whose empty history is made where it
    /// has none).
    pub fn lines(&mut self) -> (res: &Vec<(String, String)>)
        requires
            old(self).inv(),
        ensures
            final(self).inv(),
            final(self)@ == old(self)@.with_entry(),
            line_views(res@) == old(self)@.current().lines,
    {
        let i = self.entry_index();
        proof {
            self.histories.lemma_index_of(i as int);
        }
        &self.histories.entries[i].1.lines
    }

    /// The lines of the current persona, to be changed in place.
    pub fn lines_mut(&mut self) -> (res: &mut Vec<(String, String)>)
        requires
            old(self).inv(),
        ensures
            line_views(res@) == old(self)@.current().lines,
            final(self).inv(),
            final(self)@ == old(self)@.set_current(
                HistoryView { lines: line_views(final(res)@), display: old(self)@.current().display },
            ),
    {
        let i = self.entry_index();
        proof {
            self.histories.lemma_index_of(i as int);
        }
        proof {
            Self::lemma_new_lines(*self, i as int);
            assert(self.histories.at(self.persona@) == self.histories.entries@[i as int].1);
            assert(self@.histories[self.persona@] == self.histories.entries@[i as int].1@);
            assert(self@.current() == old(self)@.current());
            assert forall|h: HistoryView| #[trigger] self@.set_current(h) == old(self)@.set_current(h) by {
                lemma_set_current_with_entry(old(self)@, h);
            }
        }
        &mut self.histories.entries[i].1.lines
    }

    /// The shown lines of the current persona (whose empty history is made
    /// where it has none).
    pub fn display(&mut self) -> (res: &Vec<(String, String)>)
        requires
            old(self).inv(),
        ensures
            final(self).inv(),
            final(self)@ == old(self)@.with_entry(),
            line_views(res@) == old(self)@.current().display,
    {
        let i = self.entry_index();
        proof {
            self.histories.lemma_index_of(i as int);
        }
        &self.histories.entries[i].1.display
    }

    /// The shown lines of the current persona, to be changed in place.
    pub fn display_mut(&mut self) -> (res: &mut Vec<(String, String)>)
        requires
            old(self).inv(),
        ensures
            line_views(res@) == old(self)@.current().display,
            final(self).inv(),
            final(self)@ == old(self)@.set_current(
                HistoryView { lines: old(self)@.current().lines, display: line_views(final(res)@) },
            ),
    {
        let i = self.entry_index();
        proof {
            self.histories.lemma_index_of(i as int);
        }
        proof {
            Self::lemma_new_display(*self, i as int);
            assert(self.histories.at(self.persona@) == self.histories.entries@[i as int].1);
            assert(self@.histories[self.persona@] == self.histories.entries@[i as int].1@);
            assert(self@.current() == old(self)@.current());
            assert forall|h: HistoryView| #[trigger] self@.set_current(h) == old(self)@.set_current(h) by {
                lemma_set_current_with_entry(old(self)@, h);
            }
        }
        &mut self.histories.entries[i].1.display
    }

    /// The inputs so far.
    pub fn inputs(&mut self) -> (res: &Vec<String>)
        ensures
            *final(self) == *old(self),
            texts(res@) == old(self)@.inputs,
    {
        &self.inputs
    }
}

/// Switching to another persona and back gives back the conversation as it
/// was, and switching never changes any persona's stored history.
pub proof fn law_switch_back(s: HistoriesView, other: Seq<char>)
    ensures
        s.switched(other).switched(s.persona).current() == s.current(),
        s.switched(other).switched(s.persona).persona == s.persona,
        forall|k: Seq<char>| #[trigger] s.histories.dom().contains(k) ==> s.switched(other).histories.dom().contains(k)
            && s.switched(other).histories[k] == s.histories[k],
{
}

/// Adding a line appends it to the current persona's lines and shown lines,
/// and leaves every other persona's history as it was.
pub proof fn law_line_stays_with_persona(s: HistoriesView, line: (Seq<char>, Seq<char>))
    ensures
        s.with_line(line).current().lines == s.current().lines.push(line),
        s.with_line(line).current().display == s.current().display.push(line),
        forall|k: Seq<char>| k != s.persona && #[trigger] s.histories.dom().contains(k) ==> s.with_line(line).histories[k]
            == s.histories[k],
{
    lemma_set_current_with_entry(s, HistoryView { lines: s.current().lines.push(line), display: s.current().display.push(line) });
}

/// After a load, the current persona's lines and shown lines are the loaded lines.
pub proof fn law_load_shows_lines(s: HistoriesView, lines: Seq<(Seq<char>, Seq<char>)>)
    ensures
        s.loaded(lines).current().lines == lines,
        s.loaded(lines).current().display == lines,
{
    lemma_set_current_with_entry(s, HistoryView { lines: lines, display: lines });
}

/// Clearing empties the shown lines and keeps every line.
pub proof fn law_clear_keeps_lines(s: HistoriesView)
    ensures
        s.cleared().current().lines == s.current().lines,
        s.cleared().current().display == Seq::<(Seq<char>, Seq<char>)>::empty(),
{
    lemma_set_current_with_entry(s, HistoryView { lines: s.current().lines, display: Seq::empty() });
}

/// Switching to another persona and back, keeping the lines shown each
/// time, shows again the lines that were shown before the first switch.
pub proof fn law_switching_back_restores_lines(
    s: HistoriesView,
    shown: Seq<(Seq<char>, Seq<char>)>,
    other: Seq<char>,
    shown_there: Seq<(Seq<char>, Seq<char>)>,
)
    requires
        other != s.persona,
    ensures
        s.loaded(shown).switched(other).loaded(shown_there).switched(s.persona).current().display == shown,
        s.loaded(shown).switched(other).loaded(shown_there).switched(s.persona).current().lines == shown,
{
    let t = s.loaded(shown).switched(other).loaded(shown_there).switched(s.persona);
    assert(t.persona == s.persona);
    assert(t.histories.dom().contains(s.persona));
    assert(t.histories[s.persona] == HistoryView { lines: shown, display: shown });
}

} // verus!
