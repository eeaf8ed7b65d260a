use vstd::prelude::*;
use vstd::string::*;
use crate::strings::{chars_of, string_from_chars};
use crate::timer::{Timer, NANOS_PER_MILLI};
use crate::input_consumption::{ActiveInputConsumerLayers, InputConsumerPriority};
use crate::focus::{EntityId, Focus, Interaction};

verus! {

/// Text input state: the typed text, a placeholder shown while it is empty, the cursor (a
/// position between symbols), an upper bound on the number of symbols, and whether line
/// breaks may be typed.
#[derive(Clone, Debug)]
pub struct TextInput {
    pub text: Vec<char>,
    pub placeholder: String,
    pub cursor_position: usize,
    pub max_symbols: usize,
    pub line_breaks_allowed: bool,
}

/// A printable ASCII character other than space.
pub open spec fn is_ascii_graphic(c: char) -> bool {
    '!' <= c && c <= '~'
}

/// An ASCII whitespace character: space, tab, line feed, form feed or carriage return.
pub open spec fn is_ascii_whitespace(c: char) -> bool {
    c == ' ' || c == '\t' || c == '\n' || c == '\x0C' || c == '\r'
}

/// The bounds of the symbols removed by `delete(steps)` with the cursor at `cursor` in a text
/// of `len` symbols: backwards from the cursor for positive steps, forwards otherwise.
pub open spec fn delete_bounds(cursor: int, len: int, steps: int) -> (int, int) {
    if steps > 0 {
        (cursor - if steps < cursor { steps } else { cursor }, cursor)
    } else {
        (cursor, if cursor - steps < len { cursor - steps } else { len })
    }
}

impl TextInput {
    /// The cursor stands within the text.
    pub open spec fn wf(self) -> bool {
        self.cursor_position <= self.text@.len()
    }

    /// Create a new text input holding `initial_value`, with the cursor at its end.
    pub fn new(initial_value: String, placeholder: Option<String>) -> (input: Self)
        ensures
            input.wf(),
            input.text@ == initial_value@,
            input.placeholder@ == match placeholder {
                Some(p) => p@,
                None => Seq::<char>::empty(),
            },
            input.cursor_position == initial_value@.len(),
            input.max_symbols == usize::MAX,
            !input.line_breaks_allowed,
    {
        let text = chars_of(initial_value.as_str());
        let cursor_position = text.len();
        let placeholder = match placeholder {
            Some(p) => p,
            None => String::new(),
        };
        TextInput { text, placeholder, cursor_position, max_symbols: usize::MAX, line_breaks_allowed: false }
    }

    /// Returns this input with updated `max_symbols`.
    pub fn with_max_symbols(self, max_symbols: usize) -> (input: Self)
        ensures
            input == (TextInput { max_symbols, ..self }),
    {
        TextInput { max_symbols, ..self }
    }

    /// Returns this input with updated `line_breaks_allowed`.
    pub fn with_line_breaks_allowed(self, allowed: bool) -> (input: Self)
        ensures
            input == (TextInput { line_breaks_allowed: allowed, ..self }),
    {
        TextInput { line_breaks_allowed: allowed, ..self }
    }

    /// Returns this input with updated `cursor_position`.
    pub fn with_cursor_position(self, cursor_position: usize) -> (input: Self)
        ensures
            input == (TextInput { cursor_position, ..self }),
    {
        TextInput { cursor_position, ..self }
    }

    /// Insert a symbol into the text at the cursor, moving the cursor past it, unless the
    /// text already holds `max_symbols` symbols. Returns `true` if it was inserted.
    pub fn insert(&mut self, ch: char) -> (inserted: bool)
        requires
            old(self).text@.len() < old(self).max_symbols ==> old(self).wf(),
        ensures
            final(self).model() == old(self).model().inserted(ch),
            inserted <==> old(self).text@.len() < old(self).max_symbols,
            inserted ==> final(self).text@ == old(self).text@.insert(old(self).cursor_position as int, ch)
                && final(self).cursor_position == old(self).cursor_position + 1,
            !inserted ==> final(self).text@ == old(self).text@ && final(self).cursor_position
                == old(self).cursor_position,
            final(self).placeholder == old(self).placeholder,
            final(self).max_symbols == old(self).max_symbols,
            final(self).line_breaks_allowed == old(self).line_breaks_allowed,
    {
        if self.text.len() < self.max_symbols {
            self.text.insert(self.cursor_position, ch);
            self.cursor_position = self.cursor_position + 1;
            true
        } else {
            false
        }
    }

    /// Insert a string at the cursor, as many of its symbols as fit under `max_symbols`,
    /// moving the cursor past them. Returns `true` if completely successful, `false` even if
    /// the insertion was partially complete (and for an empty string).
    pub fn insert_string(&mut self, s: &str) -> (inserted: bool)
        requires
            s@.len() > 0 && old(self).text@.len() < old(self).max_symbols ==> old(self).wf(),
        ensures
            ({
                let room: int = if old(self).text@.len() < old(self).max_symbols {
                    old(self).max_symbols - old(self).text@.len()
                } else {
                    0
                };
                let taken = if s@.len() < room { s@ } else { s@.subrange(0, room) };
                let cursor = old(self).cursor_position as int;
                &&& (inserted <==> taken.len() > 0 && taken.len() == s@.len())
                &&& taken.len() > 0 ==> final(self).text@ == old(self).text@.subrange(0, cursor) + taken
                    + old(self).text@.subrange(cursor, old(self).text@.len() as int)
                    && final(self).cursor_position == cursor + taken.len()
                &&& taken.len() == 0 ==> final(self).text@ == old(self).text@
                    && final(self).cursor_position == old(self).cursor_position
            }),
            final(self).placeholder == old(self).placeholder,
            final(self).max_symbols == old(self).max_symbols,
            final(self).line_breaks_allowed == old(self).line_breaks_allowed,
    {
        let chars = chars_of(s);
        let room: usize = self.max_symbols.saturating_sub(self.text.len());
        let take: usize = if chars.len() < room { chars.len() } else { room };
        if take == 0 {
            return false;
        }
        let ghost old_text = self.text@;
        let ghost before = *self;
        let cursor = self.cursor_position;
        let mut tail: Vec<char> = Vec::new();
        let mut j: usize = cursor;
        while j < self.text.len()
            invariant
                cursor <= j <= self.text@.len(),
                self.text@ == old_text,
                self.placeholder == before.placeholder,
                self.max_symbols == before.max_symbols,
                self.line_breaks_allowed == before.line_breaks_allowed,
                cursor <= old_text.len(),
                take <= chars@.len(),
                take as int + old_text.len() <= before.max_symbols,

                tail@ == old_text.subrange(cursor as int, j as int),
            decreases self.text@.len() - j,
        {
            tail.push(self.text[j]);
            j = j + 1;
            proof {
                assert(tail@ =~= old_text.subrange(cursor as int, j as int));
            }
        }
        self.text.truncate(cursor);
        let mut i: usize = 0;
        while i < take
            invariant
                i <= take <= chars@.len(),
                self.placeholder == before.placeholder,
                self.max_symbols == before.max_symbols,
                self.line_breaks_allowed == before.line_breaks_allowed,
                cursor <= old_text.len(),
                take <= chars@.len(),
                take as int + old_text.len() <= before.max_symbols,

                self.text@ == old_text.subrange(0, cursor as int) + chars@.subrange(0, i as int),
            decreases take - i,
        {
            self.text.push(chars[i]);
            i = i + 1;
            proof {
                assert(self.text@ =~= old_text.subrange(0, cursor as int) + chars@.subrange(0, i as int));
            }
        }
        let mut k: usize = 0;
        while k < tail.len()
            invariant
                k <= tail@.len(),
                self.placeholder == before.placeholder,
                self.max_symbols == before.max_symbols,
                self.line_breaks_allowed == before.line_breaks_allowed,
                cursor <= old_text.len(),
                take <= chars@.len(),
                take as int + old_text.len() <= before.max_symbols,
                self.text@ == old_text.subrange(0, cursor as int) + chars@.subrange(0, take as int)
                    + tail@.subrange(0, k as int),
            decreases tail@.len() - k,
        {
            self.text.push(tail[k]);
            k = k + 1;
            proof {
                assert(self.text@ =~= old_text.subrange(0, cursor as int) + chars@.subrange(0, take as int)
                    + tail@.subrange(0, k as int));
            }
        }
        proof {
            assert(tail@.subrange(0, tail@.len() as int) =~= tail@);
            if chars@.len() < room {
                assert(chars@.subrange(0, take as int) =~= chars@);
            }
        }
        self.cursor_position = cursor + take;
        take == chars.len()
    }

    /// Remove symbols next to the cursor: `steps` symbols before it for positive steps, `-steps`
    /// symbols after it otherwise (never past either end). The cursor moves to the start of
    /// the removed range. Nothing happens at the very start of the text unless deleting
    /// forwards. Returns the removed symbols.
    pub fn delete(&mut self, steps: isize) -> (deleted: String)
        requires
            old(self).wf(),
            old(self).text@.len() <= isize::MAX,
            steps > isize::MIN,
        ensures
            final(self).wf(),
            final(self).model() == old(self).model().deleted(steps as int),
            ({
                let (start, end) = delete_bounds(
                    old(self).cursor_position as int,
                    old(self).text@.len() as int,
                    steps as int,
                );
                if old(self).cursor_position != 0 || steps < 0 {
                    &&& deleted@ == old(self).text@.subrange(start, end)
                    &&& final(self).text@ == old(self).text@.subrange(0, start) + old(self).text@.subrange(
                        end,
                        old(self).text@.len() as int,
                    )
                    &&& final(self).cursor_position == start
                } else {
                    &&& deleted@ == Seq::<char>::empty()
                    &&& final(self).text@ == old(self).text@
                    &&& final(self).cursor_position == old(self).cursor_position
                }
            }),
            final(self).placeholder == old(self).placeholder,
            final(self).max_symbols == old(self).max_symbols,
            final(self).line_breaks_allowed == old(self).line_breaks_allowed,
    {
        if self.cursor_position != 0 || steps < 0 {
            let cursor = self.cursor_position;
            let len = self.text.len();
            let (start, end): (usize, usize) = if steps > 0 {
                let back: usize = if steps < cursor as isize { steps as usize } else { cursor };
                (cursor - back, cursor)
            } else {
                let forward: usize = (0 - steps) as usize;
                let reach: usize = if forward < len - cursor { cursor + forward } else { len };
                (cursor, reach)
            };
            let ghost old_text = self.text@;
            let mut kept: Vec<char> = Vec::new();
            let mut removed: Vec<char> = Vec::new();
            let mut i: usize = 0;
            while i < len
                invariant
                    i <= len == old_text.len(),
                    start <= end <= len,
                    self.text@ == old_text,
                    i <= start ==> kept@ == old_text.subrange(0, i as int) && removed@.len() == 0,
                    start < i <= end ==> kept@ == old_text.subrange(0, start as int) && removed@
                        == old_text.subrange(start as int, i as int),
                    end < i ==> kept@ == old_text.subrange(0, start as int) + old_text.subrange(
                        end as int,
                        i as int,
                    ) && removed@ == old_text.subrange(start as int, end as int),
                decreases len - i,
            {
                let c = self.text[i];
                if i < start || i >= end {
                    kept.push(c);
                } else {
                    removed.push(c);
                }
                i = i + 1;
                proof {
                    if i <= start {
                        assert(kept@ =~= old_text.subrange(0, i as int));
                    } else if i <= end {
                        assert(kept@ =~= old_text.subrange(0, start as int));
                        assert(removed@ =~= old_text.subrange(start as int, i as int));
                    } else {
                        assert(kept@ =~= old_text.subrange(0, start as int) + old_text.subrange(
                            end as int,
                            i as int,
                        ));
                        assert(removed@ =~= old_text.subrange(start as int, end as int));
                    }
                }
            }
            proof {
                if start == end {
                    assert(removed@ =~= old_text.subrange(start as int, end as int));
                    assert(kept@ =~= old_text.subrange(0, start as int) + old_text.subrange(
                        end as int,
                        len as int,
                    ));
                }
                if end == len && start < end {
                    assert(kept@ =~= old_text.subrange(0, start as int) + old_text.subrange(
                        end as int,
                        len as int,
                    ));
                }
            }
            self.text = kept;
            self.cursor_position = start;
            string_from_chars(removed.as_slice())
        } else {
            String::new()
        }
    }

    /// Remove and return the entire text, and put the cursor at the start.
    pub fn reset_text(&mut self) -> (text: String)
        ensures
            text@ == old(self).text@,
            final(self).text@ == Seq::<char>::empty(),
            final(self).cursor_position == 0,
            final(self).placeholder == old(self).placeholder,
            final(self).max_symbols == old(self).max_symbols,
            final(self).line_breaks_allowed == old(self).line_breaks_allowed,
    {
        self.cursor_position = 0;
        let text = string_from_chars(self.text.as_slice());
        self.text = Vec::new();
        text
    }

    /// Shift the cursor several positions to the left, stopping at the start.
    pub fn shift_cursor_left(&mut self, steps: usize)
        ensures
            final(self).model() == old(self).model().shifted_left(steps as int),
            final(self).cursor_position == if old(self).cursor_position >= steps {
                old(self).cursor_position - steps
            } else {
                0
            },
            final(self).text@ == old(self).text@,
            final(self).placeholder == old(self).placeholder,
            final(self).max_symbols == old(self).max_symbols,
            final(self).line_breaks_allowed == old(self).line_breaks_allowed,
    {
        self.cursor_position = self.cursor_position.saturating_sub(steps);
    }

    /// Shift the cursor several positions to the right, stopping at the end of the text.
    pub fn shift_cursor_right(&mut self, steps: usize)
        requires
            old(self).cursor_position + steps <= usize::MAX,
        ensures
            final(self).model() == old(self).model().shifted_right(steps as int),
            final(self).cursor_position == if old(self).cursor_position + steps
                <= old(self).text@.len() {
                old(self).cursor_position + steps
            } else {
                old(self).text@.len() as int
            },
            final(self).text@ == old(self).text@,
            final(self).placeholder == old(self).placeholder,
            final(self).max_symbols == old(self).max_symbols,
            final(self).line_breaks_allowed == old(self).line_breaks_allowed,
    {
        let moved = self.cursor_position + steps;
        self.cursor_position = if moved < self.text.len() { moved } else { self.text.len() };
    }

    /// Whether a typed character is taken by the input: printable ASCII or ASCII whitespace,
    /// and no line break unless line breaks are allowed.
    pub fn accepts_typed_char(&self, ch: char) -> (accepted: bool)
        ensures
            accepted <==> (is_ascii_graphic(ch) || is_ascii_whitespace(ch)) && (
            self.line_breaks_allowed || (ch != '\n' && ch != '\r')),
    {
        let ascii_ok = ('!' <= ch && ch <= '~') || ch == ' ' || ch == '\t' || ch == '\n' || ch
            == '\x0C' || ch == '\r';
        ascii_ok && (self.line_breaks_allowed || (ch != '\n' && ch != '\r'))
    }

    /// The text as a string.
    pub fn text_string(&self) -> (s: String)
        ensures
            s@ == self.text@,
    {
        string_from_chars(self.text.as_slice())
    }
}

impl Default for TextInput {
    /// An empty input with no placeholder, no limit on symbols and no line breaks.
    fn default() -> (input: Self)
        ensures
            input.text@ == Seq::<char>::empty(),
            input.placeholder@ == Seq::<char>::empty(),
            input.cursor_position == 0,
            input.max_symbols == usize::MAX,
            !input.line_breaks_allowed,
    {
        TextInput {
            text: Vec::new(),
            placeholder: String::new(),
            cursor_position: 0,
            max_symbols: usize::MAX,
            line_breaks_allowed: false,
        }
    }
}

/// Editing keeps the cursor within the text: inserting at a cursor within the text (when
/// there is room) or shifting it left keeps it there.
pub proof fn lemma_insert_keeps_cursor_in_text(before: TextInput, after: TextInput, ch: char)
    requires
        before.wf(),
        before.text@.len() < before.max_symbols,
        after.text@ == before.text@.insert(before.cursor_position as int, ch),
        after.cursor_position == before.cursor_position + 1,
    ensures
        after.wf(),
        after.text@.len() <= before.max_symbols,
{
}

/// Backspace undoes typing: putting a symbol in at the cursor (when there is room) and then
/// deleting one symbol backwards gives the text and the cursor back.
pub proof fn lemma_backspace_undoes_insert(m: TextInputModel, ch: char)
    requires
        0 <= m.cursor <= m.text.len(),
        m.text.len() < m.max_symbols,
    ensures
        m.inserted(ch).deleted(1) == m,
{
    let after = m.inserted(ch);
    assert(after.cursor == m.cursor + 1);
    let (start, end) = delete_bounds(after.cursor, after.text.len() as int, 1);
    assert(start == m.cursor && end == m.cursor + 1);
    assert(after.text.subrange(0, start) + after.text.subrange(end, after.text.len() as int) =~= m.text);
}

/// Pasting back what a backspace removed undoes it: deleting `steps` symbols backwards and then
/// inserting the removed symbols gives the text and the cursor back. The removed symbols always
/// fit in the room the deletion left, so the insertion takes all of them (and reports success
/// exactly when something was removed).
pub proof fn lemma_reinsert_undoes_delete(m: TextInputModel, steps: int)
    requires
        0 <= m.cursor <= m.text.len() <= m.max_symbols,
        steps > 0,
    ensures
        ({
            let (start, end) = delete_bounds(m.cursor, m.text.len() as int, steps);
            let removed = m.text.subrange(start, end);
            &&& m.deleted(steps).inserted_str(removed) == m
            &&& m.deleted(steps).text.len() + removed.len() <= m.max_symbols
        }),
{
    let (start, end) = delete_bounds(m.cursor, m.text.len() as int, steps);
    let removed = m.text.subrange(start, end);
    let d = m.deleted(steps);
    if m.cursor == 0 {
        assert(removed.len() == 0);
    } else {
        assert(d.text.len() == m.text.len() - removed.len());
        assert(d.cursor == start);
        assert(d.text.subrange(0, d.cursor) =~= m.text.subrange(0, start));
        assert(d.text.subrange(d.cursor, d.text.len() as int) =~= m.text.subrange(end, m.text.len() as int));
        assert(removed.len() > 0);
        let room: int = if d.text.len() < d.max_symbols { d.max_symbols - d.text.len() } else { 0 };
        assert(removed.len() <= room);
        let taken = if removed.len() < room { removed } else { removed.subrange(0, room) };
        assert(taken =~= removed);
        assert(m.text.subrange(0, start) + removed + m.text.subrange(end, m.text.len() as int) =~= m.text);
        let back = d.inserted_str(removed);
        assert(back.text =~= m.text);
        assert(back.cursor == m.cursor);
    }
}

/// Initial delay before a held key repeats, in nanoseconds.
pub const KEY_PRESS_INITIAL_TIMEOUT: u64 = 500 * NANOS_PER_MILLI;
/// Delay between repeats of a held key, in nanoseconds.
pub const KEY_PRESS_TIMEOUT: u64 = 50 * NANOS_PER_MILLI;

/// What the keyboard says of one key this frame.
#[derive(Clone, Copy, Debug, PartialEq, Eq, Structural)]
pub struct KeyState {
    pub just_pressed: bool,
    pub pressed: bool,
    pub just_released: bool,
}

/// Handling of key input with a time delay between repeated key presses.
#[derive(Clone, Copy, Debug)]
pub struct KeyPressTimeout {
    /// Timer handling the delay until the next key press can be registered.
    pub timer: Timer,
    /// Whether a key press was handled with timeout recently.
    pub handled: bool,
}

impl Default for KeyPressTimeout {
    fn default() -> (timeout: Self)
        ensures
            timeout.timer == Timer::spec_new(0),
            !timeout.handled,
    {
        KeyPressTimeout { timer: Timer::new(0), handled: false }
    }
}

impl KeyPressTimeout {
    /// Whether the action of a key fires this frame, and the state afterwards: a fresh press
    /// fires at once and arms the initial delay; a held key fires each time the delay runs out
    /// and re-arms the shorter repeat delay; a release resets the delay.
    pub open spec fn spec_press(self, key: KeyState, delta: u64) -> (KeyPressTimeout, bool) {
        if key.just_pressed {
            (KeyPressTimeout {
                timer: Timer { duration: KEY_PRESS_INITIAL_TIMEOUT, ..self.timer }.spec_reset(),
                handled: true,
            }, true)
        } else if key.pressed && self.timer.ticked(delta).just_finished {
            (KeyPressTimeout {
                timer: Timer { duration: KEY_PRESS_TIMEOUT, ..self.timer.ticked(delta) }.spec_reset(),
                handled: true,
            }, true)
        } else {
            let ticked = if key.pressed { self.timer.ticked(delta) } else { self.timer };
            if key.just_released {
                (KeyPressTimeout { timer: ticked.spec_reset(), handled: true }, false)
            } else {
                (KeyPressTimeout { timer: ticked, ..self }, false)
            }
        }
    }

    /// Checks if a key is pressed, tells whether its action should be performed now, and
    /// resets the timer to allow for repeated actions after a timeout.
    pub fn press_with_timeout(&mut self, key: KeyState, delta: u64) -> (act: bool)
        ensures
            (*final(self), act) == old(self).spec_press(key, delta),
    {
        let mut act = false;
        let mut new_duration: Option<u64> = None;
        if key.just_pressed {
            act = true;
            new_duration = Some(KEY_PRESS_INITIAL_TIMEOUT);
        } else if key.pressed {
            self.timer.tick(delta);
            if self.timer.just_finished() {
                act = true;
                new_duration = Some(KEY_PRESS_TIMEOUT);
            }
        }
        match new_duration {
            Some(duration) => {
                self.timer.set_duration(duration);
                self.timer.reset();
                self.mark_handled();
            },
            None => {
                if key.just_released {
                    self.timer.reset();
                    self.mark_handled();
                }
            },
        }
        act
    }

    /// Mark as not handled recently.
    pub fn mark_not_handled(&mut self)
        ensures
            *final(self) == (KeyPressTimeout { handled: false, ..*old(self) }),
    {
        self.handled = false;
    }

    /// Mark as recently handled.
    pub fn mark_handled(&mut self)
        ensures
            *final(self) == (KeyPressTimeout { handled: true, ..*old(self) }),
    {
        self.handled = true;
    }
}

/// What editing works on: the text, the cursor, the limit of symbols and whether line breaks
/// may be typed.
pub struct TextInputModel {
    pub text: Seq<char>,
    pub cursor: int,
    pub max_symbols: int,
    pub line_breaks_allowed: bool,
}

impl TextInput {
    /// The editing state of the input.
    pub open spec fn model(self) -> TextInputModel {
        TextInputModel {
            text: self.text@,
            cursor: self.cursor_position as int,
            max_symbols: self.max_symbols as int,
            line_breaks_allowed: self.line_breaks_allowed,
        }
    }
}

impl TextInputModel {
    /// The cursor moved `steps` to the left, stopping at the start.
    pub open spec fn shifted_left(self, steps: int) -> TextInputModel {
        TextInputModel { cursor: if self.cursor >= steps { self.cursor - steps } else { 0 }, ..self }
    }

    /// The cursor moved `steps` to the right, stopping at the end.
    pub open spec fn shifted_right(self, steps: int) -> TextInputModel {
        TextInputModel {
            cursor: if self.cursor + steps <= self.text.len() { self.cursor + steps } else { self.text.len() as int },
            ..self
        }
    }

    /// The symbols next to the cursor removed, as [`TextInput::delete`] removes them.
    pub open spec fn deleted(self, steps: int) -> TextInputModel {
        if self.cursor != 0 || steps < 0 {
            let (start, end) = delete_bounds(self.cursor, self.text.len() as int, steps);
            TextInputModel {
                text: self.text.subrange(0, start) + self.text.subrange(end, self.text.len() as int),
                cursor: start,
                ..self
            }
        } else {
            self
        }
    }

    /// A symbol typed at the cursor, if there is room for it.
    pub open spec fn inserted(self, ch: char) -> TextInputModel {
        if self.text.len() < self.max_symbols {
            TextInputModel { text: self.text.insert(self.cursor, ch), cursor: self.cursor + 1, ..self }
        } else {
            self
        }
    }

    /// As many symbols of `s` as there is room for, put in at the cursor.
    pub open spec fn inserted_str(self, s: Seq<char>) -> TextInputModel {
        let room: int = if self.text.len() < self.max_symbols { self.max_symbols - self.text.len() } else { 0 };
        let taken = if s.len() < room { s } else { s.subrange(0, room) };
        if taken.len() > 0 {
            TextInputModel {
                text: self.text.subrange(0, self.cursor) + taken + self.text.subrange(self.cursor, self.text.len() as int),
                cursor: self.cursor + taken.len(),
                ..self
            }
        } else {
            self
        }
    }

    /// The text taken out, the cursor at the start.
    pub open spec fn reset(self) -> TextInputModel {
        TextInputModel { text: Seq::empty(), cursor: 0, ..self }
    }

    /// Whether a typed symbol is taken: printable ASCII or ASCII whitespace, and no line break
    /// unless line breaks are allowed.
    pub open spec fn accepts(self, ch: char) -> bool {
        (is_ascii_graphic(ch) || is_ascii_whitespace(ch)) && (self.line_breaks_allowed || (ch != '\n' && ch != '\r'))
    }

    /// The typed symbols put in, in order, those that are taken.
    pub open spec fn typed(self, chars: Seq<char>) -> TextInputModel
        decreases chars.len(),
    {
        if chars.len() == 0 {
            self
        } else {
            let before = self.typed(chars.drop_last());
            if before.accepts(chars.last()) {
                before.inserted(chars.last())
            } else {
                before
            }
        }
    }
}

/// What the keyboard says of the keys that edit a text input.
#[derive(Clone, Copy, Debug, PartialEq, Eq, Structural)]
pub struct TextInputKeys {
    pub left: KeyState,
    pub right: KeyState,
    pub back: KeyState,
    pub delete: KeyState,
    /// Whether either Control key is held.
    pub control: bool,
    pub c_just_pressed: bool,
    pub x_just_pressed: bool,
    pub v: KeyState,
}

/// One frame of editing a focused text input that takes input: the arrow keys move the cursor,
/// Backspace and Delete remove a symbol before or after it, each repeating while held (see
/// [`KeyPressTimeout::spec_press`], all keys sharing one timeout); with Control held, C copies
/// the text, X cuts it and V pastes the clipboard. Unless a key was handled, the typed symbols
/// are put in. Gives the editing state, the key timeout, the texts written to the clipboard in
/// order, and whether the typed symbols were taken.
pub open spec fn text_input_frame(
    m: TextInputModel,
    handler: KeyPressTimeout,
    keys: TextInputKeys,
    delta: u64,
    typed: Seq<char>,
    clipboard: Seq<char>,
) -> (TextInputModel, KeyPressTimeout, Seq<Seq<char>>, bool) {
    let (m4, h4) = navigate(m, KeyPressTimeout { handled: false, ..handler }, keys, delta);
    let (m7, h7, copies) = clipboard_edit(m4, h4, keys, delta, clipboard);
    if !h7.handled {
        (m7.typed(typed), h7, copies, true)
    } else {
        (m7, h7, copies, false)
    }
}

/// The arrow keys, Backspace and Delete, in this order, each acting when its key fires.
pub open spec fn navigate(m: TextInputModel, h0: KeyPressTimeout, keys: TextInputKeys, delta: u64) -> (TextInputModel, KeyPressTimeout) {
    let (h1, a1) = h0.spec_press(keys.left, delta);
    let m1 = if a1 { m.shifted_left(1) } else { m };
    let (h2, a2) = h1.spec_press(keys.right, delta);
    let m2 = if a2 { m1.shifted_right(1) } else { m1 };
    let (h3, a3) = h2.spec_press(keys.back, delta);
    let m3 = if a3 { m2.deleted(1) } else { m2 };
    let (h4, a4) = h3.spec_press(keys.delete, delta);
    (if a4 { m3.deleted(-1) } else { m3 }, h4)
}

/// With Control held: C copies the text, X cuts it (both count as handled), and V, when it
/// fires, pastes the clipboard. Gives the texts written to the clipboard, in order.
pub open spec fn clipboard_edit(
    m4: TextInputModel,
    h4: KeyPressTimeout,
    keys: TextInputKeys,
    delta: u64,
    clipboard: Seq<char>,
) -> (TextInputModel, KeyPressTimeout, Seq<Seq<char>>) {
    if keys.control {
        let copies_c: Seq<Seq<char>> = if keys.c_just_pressed { seq![m4.text] } else { Seq::empty() };
        let h5 = if keys.c_just_pressed { KeyPressTimeout { handled: true, ..h4 } } else { h4 };
        let copies_x = if keys.x_just_pressed { copies_c.push(m4.text) } else { copies_c };
        let m6 = if keys.x_just_pressed { m4.reset() } else { m4 };
        let h6 = if keys.x_just_pressed { KeyPressTimeout { handled: true, ..h5 } } else { h5 };
        let (h7, a7) = h6.spec_press(keys.v, delta);
        (if a7 { m6.inserted_str(clipboard) } else { m6 }, h7, copies_x)
    } else {
        (m4, h4, Seq::<Seq<char>>::empty())
    }
}

/// What a frame of text input did besides editing.
#[derive(Clone, Debug)]
pub struct TextInputFrame {
    /// The texts written to the clipboard, in order.
    pub copied: Vec<String>,
    /// Whether the typed symbols were taken (otherwise they stay for a later frame).
    pub typed_consumed: bool,
}

/// Whether a text input takes keyboard input: it is focused, and its input layer, if it has
/// one, is active and not blocked by a higher one.
pub open spec fn takes_input(focused: bool, consumer: Option<InputConsumerPriority>, layers: ActiveInputConsumerLayers) -> bool {
    &&& focused
    &&& match consumer {
        Some(layer) => layers.user_count(layer.layer()) > 0 && !(exists|j: u8| layer.layer() < j < 8
            && #[trigger] layers.user_count(j) > 0),
        None => true,
    }
}

fn navigate_keys(input: &mut TextInput, handler: &mut KeyPressTimeout, keys: &TextInputKeys, delta: u64)
    requires
        old(input).wf(),
        old(input).text@.len() + 2 < isize::MAX,
    ensures
        (final(input).model(), *final(handler)) == navigate(old(input).model(), *old(handler), *keys, delta),
        final(input).wf(),
        final(input).text@.len() <= old(input).text@.len(),
        final(input).placeholder == old(input).placeholder,
{
    let ghost m = input.model();
    let ghost h0 = *handler;
    let ghost (h1, a1) = h0.spec_press(keys.left, delta);
    let ghost (h2, a2) = h1.spec_press(keys.right, delta);
    let ghost (h3, a3) = h2.spec_press(keys.back, delta);
    if handler.press_with_timeout(keys.left, delta) {
        input.shift_cursor_left(1);
    }
    let ghost m1 = input.model();
    assert(m1 == if a1 { m.shifted_left(1) } else { m });
    if handler.press_with_timeout(keys.right, delta) {
        input.shift_cursor_right(1);
    }
    let ghost m2 = input.model();
    assert(m2 == if a2 { m1.shifted_right(1) } else { m1 });
    if handler.press_with_timeout(keys.back, delta) {
        input.delete(1);
    }
    let ghost m3 = input.model();
    assert(m3 == if a3 { m2.deleted(1) } else { m2 });
    if handler.press_with_timeout(keys.delete, delta) {
        input.delete(-1);
    }
}

fn clipboard_keys(
    input: &mut TextInput,
    handler: &mut KeyPressTimeout,
    keys: &TextInputKeys,
    delta: u64,
    clipboard: &String,
) -> (copied: Vec<String>)
    requires
        old(input).wf(),
    ensures
        ({
            let (m, h, copies) = clipboard_edit(old(input).model(), *old(handler), *keys, delta, clipboard@);
            &&& final(input).model() == m
            &&& *final(handler) == h
            &&& copied@.len() == copies.len()
            &&& forall|i: int| 0 <= i < copies.len() ==> #[trigger] copied@[i]@ == copies[i]
        }),
        final(input).wf(),
        final(input).text@.len() <= old(input).text@.len() + clipboard@.len(),
        final(input).placeholder == old(input).placeholder,
{
    let mut copied: Vec<String> = Vec::new();
    if keys.control {
        if keys.c_just_pressed {
            copied.push(input.text_string());
            handler.mark_handled();
        }
        if keys.x_just_pressed {
            copied.push(input.reset_text());
            handler.mark_handled();
        }
        if handler.press_with_timeout(keys.v, delta) {
            input.insert_string(clipboard.as_str());
        }
    }
    copied
}

fn type_chars(input: &mut TextInput, typed: &Vec<char>)
    requires
        old(input).wf(),
    ensures
        final(input).model() == old(input).model().typed(typed@),
        final(input).wf(),
        final(input).placeholder == old(input).placeholder,
{
    let ghost m0 = input.model();
    let mut i: usize = 0;
    while i < typed.len()
        invariant
            i <= typed@.len(),
            input.wf(),
            input.placeholder == old(input).placeholder,
            input.model() == m0.typed(typed@.subrange(0, i as int)),
        decreases typed@.len() - i,
    {
        proof {
            assert(typed@.subrange(0, i + 1).drop_last() =~= typed@.subrange(0, i as int));
        }
        let ch = typed[i];
        if input.accepts_typed_char(ch) {
            input.insert(ch);
        }
        i = i + 1;
    }
    proof {
        assert(typed@.subrange(0, typed@.len() as int) =~= typed@);
    }
}

/// Handles a frame of keyboard input on a text input (see [`text_input_frame`]); an input that
/// does not take input (see [`takes_input`]) is left alone and takes no typed symbols.
pub fn handle_text_input(
    input: &mut TextInput,
    focused: bool,
    consumer: Option<InputConsumerPriority>,
    layers: &ActiveInputConsumerLayers,
    handler: &mut KeyPressTimeout,
    keys: &TextInputKeys,
    delta: u64,
    typed: &Vec<char>,
    clipboard: &String,
) -> (frame: TextInputFrame)
    requires
        old(input).wf(),
        old(input).text@.len() + typed@.len() + clipboard@.len() + 2 < isize::MAX,
    ensures
        final(input).wf(),
        final(input).placeholder == old(input).placeholder,
        !takes_input(focused, consumer, *layers) ==> {
            &&& *final(input) == *old(input)
            &&& *final(handler) == *old(handler)
            &&& frame.copied@.len() == 0
            &&& !frame.typed_consumed
        },
        takes_input(focused, consumer, *layers) ==> {
            let (m, h, copies, consumed) = text_input_frame(old(input).model(), *old(handler), *keys, delta, typed@, clipboard@);
            &&& final(input).model() == m
            &&& *final(handler) == h
            &&& frame.copied@.len() == copies.len()
            &&& forall|i: int| 0 <= i < copies.len() ==> #[trigger] frame.copied@[i]@ == copies[i]
            &&& frame.typed_consumed == consumed
        },
{
    if !focused {
        return TextInputFrame { copied: Vec::new(), typed_consumed: false };
    }
    match consumer {
        Some(layer) => {
            if layers.is_input_blocked_for_layer(&layer) || !layers.is_layer_active(&layer) {
                return TextInputFrame { copied: Vec::new(), typed_consumed: false };
            }
        },
        None => {},
    }
    handler.mark_not_handled();
    navigate_keys(input, handler, keys, delta);
    let copied = clipboard_keys(input, handler, keys, delta, clipboard);
    let mut typed_consumed = false;
    if !handler.handled {
        typed_consumed = true;
        type_chars(input, typed);
    }
    TextInputFrame { copied, typed_consumed }
}

/// What became of a pending paste.
#[derive(Clone, Debug)]
pub enum PasteOutcome {
    /// The clipboard has not answered yet; the paste stays pending.
    Pending,
    /// Reading the clipboard failed, with this message; the paste stays pending.
    Failed(String),
    /// The clipboard's text, if any, was pasted; the paste is done.
    Done,
}

/// Handles a pending paste given what reading the clipboard gave so far: nothing yet keeps it
/// pending; a failure keeps it pending and reports the error's message (or a default one when
/// the error has none); a text is put in at the cursor unless it is empty, and the paste is done.
pub fn handle_text_paste(input: &mut TextInput, reading: Result<Option<String>, Option<String>>) -> (outcome: PasteOutcome)
    requires
        old(input).wf(),
    ensures
        match reading {
            Ok(None) => outcome is Pending && *final(input) == *old(input),
            Err(message) => *final(input) == *old(input) && (outcome matches PasteOutcome::Failed(m) && m@ == match message {
                Some(text) => text@,
                None => "Failed to convert JS error message on pasting."@,
            }),
            Ok(Some(text)) => outcome is Done && if text@.len() == 0 {
                *final(input) == *old(input)
            } else {
                &&& final(input).model() == old(input).model().inserted_str(text@)
                &&& final(input).placeholder == old(input).placeholder
            },
        },
{
    match reading {
        Ok(None) => PasteOutcome::Pending,
        Err(message) => {
            let text = match message {
                Some(text) => text,
                None => String::from_str("Failed to convert JS error message on pasting."),
            };
            proof {
                reveal_strlit("Failed to convert JS error message on pasting.");
            }
            PasteOutcome::Failed(text)
        },
        Ok(Some(text)) => {
            if text.unicode_len() > 0 {
                input.insert_string(text.as_str());
            }
            PasteOutcome::Done
        },
    }
}

/// The placeholder shown beside the text: the input's placeholder while its text is empty,
/// nothing otherwise.
pub fn displayed_placeholder(input: &TextInput) -> (shown: String)
    ensures
        shown@ == if input.text@.len() == 0 { input.placeholder@ } else { Seq::<char>::empty() },
{
    if input.text.len() == 0 {
        input.placeholder.clone()
    } else {
        String::new()
    }
}

/// A click on a text input focuses it (with a default input as context) and announces the
/// switch of focus; other interactions change nothing.
pub fn handle_text_input_new_focus(entity: EntityId, interaction: Interaction, focus: &mut Focus<TextInput>) -> (switch: Option<EntityId>)
    ensures
        interaction == Interaction::Clicked ==> switch == Some(entity) && (*final(focus) matches Focus::Focused(Some(ctx))
            && ctx.text@.len() == 0 && ctx.cursor_position == 0),
        interaction != Interaction::Clicked ==> switch is None && *final(focus) == *old(focus),
{
    match interaction {
        Interaction::Clicked => {
            *focus = Focus::focused(TextInput::default());
            Some(entity)
        },
        _ => None,
    }
}

} // verus!
