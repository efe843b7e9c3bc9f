//! The search state of the windowed editor: a query, the spans it matches in
//! a flat text, and the match that is current.

use vstd::prelude::*;
use crate::scan::{find_all, scan};
use crate::text::{chars_of, lowercase};

verus! {

/// What the search panel asks of the editor after one frame.
#[derive(Debug, Clone, Copy, PartialEq, Eq, Structural)]
pub enum SearchPanelResult {
    Nothing,
    SearchNeeded,
    NextMatch,
    PreviousMatch,
    Close,
}

/// What happened in the search panel during one frame.
pub struct PanelInput {
    /// The query as the text field holds it after the frame.
    pub search_text: String,
    /// The case-sensitivity box as it stands after the frame.
    pub case_sensitive: bool,
    /// The text field reported an edit.
    pub text_edited: bool,
    /// The close button was clicked.
    pub close_clicked: bool,
    /// The case-sensitivity box reported a change.
    pub case_toggled: bool,
    /// The button for the previous match was clicked.
    pub previous_clicked: bool,
    /// The button for the next match was clicked.
    pub next_clicked: bool,
    /// The panel's window is still open after the frame.
    pub window_open: bool,
}

/// The search shortcuts pressed during one frame.
pub struct ShortcutKeys {
    /// The shortcut that opens and closes the search panel.
    pub toggle: bool,
    /// The shortcut for the next match.
    pub next: bool,
    /// The shortcut for the previous match.
    pub previous: bool,
}

/// The mathematical content of a `SearchModule`.
pub struct SearchState {
    pub search_text: Seq<char>,
    pub case_sensitive: bool,
    pub show_search: bool,
    pub matches: Seq<(usize, usize)>,
    pub current_match: usize,
    pub focus_search_field: bool,
}

/// The spans of `query` in `text`: none for an empty query; otherwise those
/// of a scan, over the lower-case forms of both unless the search is
/// case-sensitive.
pub open spec fn search_spans(text: Seq<char>, query: Seq<char>, case_sensitive: bool) -> Seq<
    (usize, usize),
> {
    if query.len() == 0 {
        Seq::empty()
    } else if case_sensitive {
        scan(text, query)
    } else {
        scan(lowercase(text), lowercase(query))
    }
}

/// The index after `current` among `count` matches, wrapping to the first.
pub open spec fn next_index(current: usize, count: nat) -> usize {
    if count == 0 {
        current
    } else {
        ((current + 1) % (count as int)) as usize
    }
}

/// The index before `current` among `count` matches, wrapping to the last.
pub open spec fn previous_index(current: usize, count: nat) -> usize {
    if count == 0 {
        current
    } else if current == 0 {
        (count - 1) as usize
    } else {
        (current - 1) as usize
    }
}

/// `next_index` applied `times` times.
pub open spec fn next_index_repeated(current: usize, count: nat, times: nat) -> usize
    decreases times,
{
    if times == 0 {
        current
    } else {
        next_index(next_index_repeated(current, count, (times - 1) as nat), count)
    }
}

impl SearchState {
    /// The current match is one of the matches, or the first index where
    /// there are none.
    pub open spec fn wf(self) -> bool {
        if self.matches.len() == 0 {
            self.current_match == 0
        } else {
            self.current_match < self.matches.len()
        }
    }

    /// The state of a new search: nothing shown, nothing sought.
    pub open spec fn initial() -> SearchState {
        SearchState {
            search_text: Seq::empty(),
            case_sensitive: false,
            show_search: false,
            matches: Seq::empty(),
            current_match: 0,
            focus_search_field: false,
        }
    }

    /// The search forgotten: no query, no matches, and the first index
    /// current.
    pub open spec fn cleared(self) -> SearchState {
        SearchState {
            search_text: Seq::empty(),
            matches: Seq::empty(),
            current_match: 0,
            ..self
        }
    }

    /// The panel shown if it was hidden, with the focus asked for the text
    /// field; hidden if it was shown. Either way the search starts afresh:
    /// the query and the matches are dropped.
    pub open spec fn toggled(self) -> SearchState {
        if self.show_search {
            SearchState { show_search: false, ..self.cleared() }
        } else {
            SearchState { show_search: true, focus_search_field: true, ..self.cleared() }
        }
    }

    /// The matches rebuilt from `text`, the first of them current.
    pub open spec fn searched(self, text: Seq<char>) -> SearchState {
        SearchState {
            matches: search_spans(text, self.search_text, self.case_sensitive),
            current_match: 0,
            ..self
        }
    }

    /// The current match moved one forward, cyclically.
    pub open spec fn advanced(self) -> SearchState {
        SearchState { current_match: next_index(self.current_match, self.matches.len()), ..self }
    }

    /// The current match moved one back, cyclically.
    pub open spec fn retreated(self) -> SearchState {
        SearchState {
            current_match: previous_index(self.current_match, self.matches.len()),
            ..self
        }
    }

    /// The span of the current match, where there is one.
    pub open spec fn current_span(self) -> Option<(usize, usize)> {
        if self.current_match < self.matches.len() {
            Some(self.matches[self.current_match as int])
        } else {
            None
        }
    }

    /// `advanced` applied `times` times.
    pub open spec fn advanced_times(self, times: nat) -> SearchState
        decreases times,
    {
        if times == 0 {
            self
        } else {
            self.advanced_times((times - 1) as nat).advanced()
        }
    }

    /// The state after the shortcuts of one frame: the toggle first, then,
    /// while the panel is shown, the step forward and the step back.
    pub open spec fn after_shortcuts(self, keys: ShortcutKeys) -> SearchState {
        let toggled = if keys.toggle {
            self.toggled()
        } else {
            self
        };
        if toggled.show_search {
            let stepped = if keys.next {
                toggled.advanced()
            } else {
                toggled
            };
            if keys.previous {
                stepped.retreated()
            } else {
                stepped
            }
        } else {
            toggled
        }
    }

    /// The buttons for the previous and the next match are offered while the
    /// query is not empty and there is more than one match.
    pub open spec fn offers_steps(self, input: PanelInput) -> bool {
        input.search_text@.len() > 0 && self.matches.len() > 1
    }

    /// What a shown panel asks for after a frame. Later causes override
    /// earlier ones, in this order: an edit of the query, the close button,
    /// the case-sensitivity box, the button for the previous match, the button
    /// for the next match. Where none of them asks for anything, a query or a
    /// case-sensitivity that differs from the one before the frame asks for a
    /// new search.
    pub open spec fn panel_result(self, input: PanelInput) -> SearchPanelResult {
        if !self.show_search {
            SearchPanelResult::Nothing
        } else if self.offers_steps(input) && input.next_clicked {
            SearchPanelResult::NextMatch
        } else if self.offers_steps(input) && input.previous_clicked {
            SearchPanelResult::PreviousMatch
        } else if input.case_toggled {
            SearchPanelResult::SearchNeeded
        } else if input.close_clicked {
            SearchPanelResult::Close
        } else if input.text_edited {
            SearchPanelResult::SearchNeeded
        } else if input.search_text@ != self.search_text || input.case_sensitive
            != self.case_sensitive {
            SearchPanelResult::SearchNeeded
        } else {
            SearchPanelResult::Nothing
        }
    }

    /// The state after a frame of the panel: a hidden panel changes nothing;
    /// a shown one takes over the case-sensitivity and has had its focus
    /// request served. While its window stays open it takes over the query
    /// too; once its window is closed it is hidden, and the query and the
    /// matches are dropped as they are when the panel is toggled away.
    pub open spec fn after_panel(self, input: PanelInput) -> SearchState {
        if !self.show_search {
            self
        } else if input.window_open {
            SearchState {
                search_text: input.search_text@,
                case_sensitive: input.case_sensitive,
                focus_search_field: false,
                ..self
            }
        } else {
            SearchState {
                case_sensitive: input.case_sensitive,
                show_search: false,
                focus_search_field: false,
                ..self.cleared()
            }
        }
    }

    /// The state after what the panel asked for has been done on `text`.
    pub open spec fn after_result(self, result: SearchPanelResult, text: Seq<char>) -> SearchState {
        match result {
            SearchPanelResult::SearchNeeded => self.searched(text),
            SearchPanelResult::NextMatch => self.advanced(),
            SearchPanelResult::PreviousMatch => self.retreated(),
            SearchPanelResult::Close => self.toggled(),
            SearchPanelResult::Nothing => self,
        }
    }

    /// The state after a frame's search handling: what the panel asked for
    /// is done, and a toggle shortcut that left the panel shown is followed by
    /// a new search.
    pub open spec fn after_search(
        self,
        shortcuts_triggered_search: bool,
        result: SearchPanelResult,
        text: Seq<char>,
    ) -> SearchState {
        let served = self.after_result(result, text);
        if shortcuts_triggered_search && served.show_search {
            served.searched(text)
        } else {
            served
        }
    }
}

/// The search state of the windowed editor.
pub struct SearchModule {
    pub search_text: String,
    pub case_sensitive: bool,
    pub show_search: bool,
    /// Half-open spans of `char` indices, in scan order.
    pub matches: Vec<(usize, usize)>,
    pub current_match: usize,
    pub focus_search_field: bool,
}

impl View for SearchModule {
    type V = SearchState;

    open spec fn view(&self) -> SearchState {
        SearchState {
            search_text: self.search_text@,
            case_sensitive: self.case_sensitive,
            show_search: self.show_search,
            matches: self.matches@,
            current_match: self.current_match,
            focus_search_field: self.focus_search_field,
        }
    }
}

impl Default for SearchModule {
    fn default() -> (module: SearchModule)
        ensures
            module@ == SearchState::initial(),
    {
        SearchModule::new()
    }
}

impl SearchModule {
    /// A search with an empty query, no matches, and its panel hidden.
    pub fn new() -> (module: SearchModule)
        ensures
            module@ == SearchState::initial(),
            module@.wf(),
    {
        SearchModule {
            search_text: String::new(),
            case_sensitive: false,
            show_search: false,
            matches: Vec::new(),
            current_match: 0,
            focus_search_field: false,
        }
    }

    /// Forgets the search: drops the query and the matches and makes the
    /// first index current. The panel stays as it is.
    pub fn clear_search(&mut self)
        ensures
            final(self)@ == old(self)@.cleared(),
            final(self)@.wf(),
    {
        self.search_text = String::new();
        self.matches.clear();
        self.current_match = 0;
    }

    /// Shows the panel if it is hidden, and hides it if it is shown. Either
    /// way the search starts afresh: the query and the matches are dropped.
    pub fn toggle_search(&mut self)
        ensures
            final(self)@ == old(self)@.toggled(),
            final(self)@.wf(),
            final(self)@.show_search == !old(self)@.show_search,
            final(self)@.search_text.len() == 0,
            final(self)@.matches.len() == 0,
            final(self)@.current_match == 0,
            final(self)@.show_search ==> final(self)@.focus_search_field,
    {
        self.show_search = !self.show_search;
        if self.show_search {
            self.focus_search_field = true;
        }
        self.clear_search();
    }

    /// The matches of the last search, in scan order.
    pub fn get_matches(&self) -> (matches: &[(usize, usize)])
        ensures
            matches@ == self@.matches,
    {
        self.matches.as_slice()
    }

    /// The index of the current match.
    pub fn get_current_match_index(&self) -> (index: usize)
        ensures
            index == self@.current_match,
    {
        self.current_match
    }

    /// Rebuilds the matches from `text` and makes the first of them current.
    /// An empty query matches nothing. In a search that ignores case the
    /// spans count the `char`s of the lower-case form of `text`.
    pub fn search_in_text(&mut self, text: &str)
        ensures
            final(self)@ == old(self)@.searched(text@),
            final(self)@.wf(),
            old(self)@.search_text.len() == 0 ==> final(self)@.matches.len() == 0,
    {
        self.matches.clear();
        self.current_match = 0;
        if self.search_text.as_str().is_empty() {
            assert(self@.matches =~= old(self)@.searched(text@).matches);
            return;
        }
        let found = if self.case_sensitive {
            let pattern = chars_of(self.search_text.as_str());
            let haystack = chars_of(text);
            find_all(haystack.as_slice(), pattern.as_slice())
        } else {
            let lower_pattern = self.search_text.as_str().to_lowercase();
            let lower_text = text.to_lowercase();
            let pattern = chars_of(lower_pattern.as_str());
            let haystack = chars_of(lower_text.as_str());
            find_all(haystack.as_slice(), pattern.as_slice())
        };
        self.matches = found;
    }

    /// Makes the next match current, the first after the last. Does nothing
    /// where there are no matches.
    pub fn next_match(&mut self)
        ensures
            final(self)@ == old(self)@.advanced(),
            old(self)@.matches.len() > 0 ==> final(self)@.wf(),
            old(self)@.wf() ==> final(self)@.wf(),
    {
        let count = self.matches.len();
        if count > 0 {
            let within = self.current_match % count;
            assert((self.current_match + 1) % (count as int) == if within + 1 == count {
                0
            } else {
                within + 1
            }) by (nonlinear_arith)
                requires
                    count > 0,
                    within == self.current_match % count,
            ;
            self.current_match = if within + 1 == count {
                0
            } else {
                within + 1
            };
        }
    }

    /// Makes the previous match current, the last before the first. Does
    /// nothing where there are no matches.
    pub fn previous_match(&mut self)
        ensures
            final(self)@ == old(self)@.retreated(),
            old(self)@.wf() ==> final(self)@.wf(),
    {
        if self.matches.len() > 0 {
            if self.current_match == 0 {
                self.current_match = self.matches.len() - 1;
            } else {
                self.current_match -= 1;
            }
        }
    }

    /// Takes in what happened in the search panel during one frame and says
    /// what the panel asks for. A hidden panel takes nothing in and asks for
    /// nothing. A panel whose window was closed is hidden, and its query and
    /// matches are dropped.
    pub fn show_search_panel(&mut self, input: PanelInput) -> (result: SearchPanelResult)
        ensures
            result == old(self)@.panel_result(input),
            final(self)@ == old(self)@.after_panel(input),
            old(self)@.wf() ==> final(self)@.wf(),
            old(self)@.show_search && !input.window_open ==> !final(self)@.show_search
                && final(self)@.search_text.len() == 0 && final(self)@.matches.len() == 0
                && final(self)@.current_match == 0,
    {
        if !self.show_search {
            return SearchPanelResult::Nothing;
        }
        let text_differs = !(self.search_text == input.search_text);
        let case_differs = self.case_sensitive != input.case_sensitive;
        let offers_steps = !input.search_text.as_str().is_empty() && self.matches.len() > 1;
        let mut result = SearchPanelResult::Nothing;
        if input.text_edited {
            result = SearchPanelResult::SearchNeeded;
        }
        if input.close_clicked {
            result = SearchPanelResult::Close;
        }
        if input.case_toggled {
            result = SearchPanelResult::SearchNeeded;
        }
        if offers_steps && input.previous_clicked {
            result = SearchPanelResult::PreviousMatch;
        }
        if offers_steps && input.next_clicked {
            result = SearchPanelResult::NextMatch;
        }
        if result == SearchPanelResult::Nothing && (text_differs || case_differs) {
            result = SearchPanelResult::SearchNeeded;
        }
        self.case_sensitive = input.case_sensitive;
        self.focus_search_field = false;
        if input.window_open {
            self.search_text = input.search_text;
        } else {
            self.show_search = false;
            self.clear_search();
        }
        result
    }

    /// Serves the search shortcuts of one frame: the toggle first, then,
    /// while the panel is shown, the steps to the next and to the previous
    /// match. Returns whether the toggle was pressed, after which the caller
    /// searches anew.
    pub fn handle_shortcuts(&mut self, keys: ShortcutKeys) -> (search_needed: bool)
        ensures
            search_needed == keys.toggle,
            final(self)@ == old(self)@.after_shortcuts(keys),
            old(self)@.wf() ==> final(self)@.wf(),
            keys.toggle ==> final(self)@.show_search == !old(self)@.show_search
                && final(self)@.search_text.len() == 0 && final(self)@.matches.len() == 0
                && final(self)@.current_match == 0,
    {
        if keys.toggle {
            self.toggle_search();
        }
        if self.show_search {
            if keys.next {
                self.next_match();
            }
            if keys.previous {
                self.previous_match();
            }
        }
        keys.toggle
    }

    /// Does what the panel asked for, on the text being edited, and searches
    /// anew after a toggle shortcut that left the panel shown.
    pub fn handle_search(
        &mut self,
        shortcuts_triggered_search: bool,
        search_result: SearchPanelResult,
        text: &str,
    )
        ensures
            final(self)@ == old(self)@.after_search(
                shortcuts_triggered_search,
                search_result,
                text@,
            ),
            old(self)@.wf() ==> final(self)@.wf(),
    {
        match search_result {
            SearchPanelResult::SearchNeeded => {
                self.search_in_text(text);
            },
            SearchPanelResult::NextMatch => {
                self.next_match();
            },
            SearchPanelResult::PreviousMatch => {
                self.previous_match();
            },
            SearchPanelResult::Close => {
                self.toggle_search();
            },
            SearchPanelResult::Nothing => {},
        }
        if shortcuts_triggered_search && self.show_search {
            self.search_in_text(text);
        }
    }

    /// The span of the current match, or `None` where there is none.
    pub fn get_current_match_position(&self) -> (span: Option<(usize, usize)>)
        ensures
            span == self@.current_span(),
    {
        if self.current_match < self.matches.len() {
            Some(self.matches[self.current_match])
        } else {
            None
        }
    }
}

/// Stepping forward `times` times from one of `count` matches arrives
/// `times` places further on, counted around the cycle.
pub proof fn lemma_next_index_repeated(current: usize, count: nat, times: nat)
    requires
        current < count <= usize::MAX,
    ensures
        next_index_repeated(current, count, times) == (current + times) % (count as int),
    decreases times,
{
    if times == 0 {
        assert((current as int) % (count as int) == current) by (nonlinear_arith)
            requires
                0 <= current < count,
        ;
    } else {
        lemma_next_index_repeated(current, count, (times - 1) as nat);
        let before = next_index_repeated(current, count, (times - 1) as nat);
        assert((before + 1) % (count as int) == (current + times) % (count as int) && 0 <= (before
            + 1) % (count as int) < count) by (nonlinear_arith)
            requires
                count > 0,
                before == (current + (times - 1)) % (count as int),
        ;
    }
}

/// Stepping forward as many times as there are matches comes back to the
/// match one started from.
pub proof fn lemma_next_index_cycles(current: usize, count: nat)
    requires
        current < count <= usize::MAX,
    ensures
        next_index_repeated(current, count, count) == current,
{
    lemma_next_index_repeated(current, count, count);
    assert((current + count) % (count as int) == current) by (nonlinear_arith)
        requires
            0 <= current < count,
    ;
}

/// Stepping forward changes nothing but the current match, which moves as
/// `next_index_repeated` says.
pub proof fn lemma_advanced_times(state: SearchState, times: nat)
    ensures
        state.advanced_times(times) == (SearchState {
            current_match: next_index_repeated(state.current_match, state.matches.len(), times),
            ..state
        }),
    decreases times,
{
    if times > 0 {
        lemma_advanced_times(state, (times - 1) as nat);
    }
}

/// For any non-empty set of matches, moving to the next match as many times
/// as there are matches restores the state one started from.
pub proof fn lemma_advancing_cycles(state: SearchState)
    requires
        state.wf(),
        0 < state.matches.len() <= usize::MAX,
    ensures
        state.advanced_times(state.matches.len()) == state,
{
    lemma_advanced_times(state, state.matches.len());
    lemma_next_index_cycles(state.current_match, state.matches.len());
}

/// A step forward followed by a step back, and a step back followed by a
/// step forward, both restore a well-formed state.
pub proof fn lemma_steps_cancel(state: SearchState)
    requires
        state.wf(),
        state.matches.len() <= usize::MAX,
    ensures
        state.advanced().retreated() == state,
        state.retreated().advanced() == state,
{
    let count = state.matches.len();
    if count > 0 {
        let current = state.current_match;
        assert((current + 1) % (count as int) == if current + 1 == count {
            0
        } else {
            current + 1
        }) by (nonlinear_arith)
            requires
                0 <= current < count,
        ;
        let back = previous_index(current, count);
        assert((back + 1) % (count as int) == current) by (nonlinear_arith)
            requires
                0 <= current < count,
                back == if current == 0 {
                    count - 1
                } else {
                    current - 1
                },
        ;
    }
}

} // verus!
