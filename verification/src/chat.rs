use vstd::prelude::*;
use vstd::string::*;
use crate::strings::{chars_of, string_from_chars, usize_to_decimal, parse_usize, parse_usize_spec, decimal, digits_value, push_char};
use crate::teams::PlayerHandle;
use crate::players::{PlayerData, PlayerRegistry};
use crate::peers::PeerMessage;
use crate::focus::Focus;
use crate::input_consumption::InputConsumerPriority;
use crate::text_input::TextInput;
use crate::timer::{Timer, NANOS_PER_MILLI};

verus! {

/// A chat message. Player handles are referenced in the text as `{0}`, `{1}`, ... by their
/// position in `player_handles`, and `{You}` stands for the local player.
#[derive(Clone, Debug)]
pub struct ChatMessage {
    pub message: String,
    pub player_handles: Vec<PlayerHandle>,
}

/// Whether a character separates the pieces of a chat message: a curly brace.
pub open spec fn is_brace(c: char) -> bool {
    c == '{' || c == '}'
}

/// The pieces of a text between curly braces, in order, empty pieces included (as
/// `str::split` on braces gives them): a text with `n` braces has `n + 1` pieces.
pub open spec fn split_braces(s: Seq<char>) -> Seq<Seq<char>>
    decreases s.len(),
{
    if s.len() == 0 {
        seq![Seq::<char>::empty()]
    } else {
        let rest = split_braces(s.drop_last());
        if is_brace(s.last()) {
            rest.push(Seq::<char>::empty())
        } else {
            rest.update(rest.len() - 1, rest.last().push(s.last()))
        }
    }
}

/// What a piece of a message becomes when handles are separated out: pieces outside braces
/// (at even positions) stay; inside braces, `You` stays, a number names the handle at that
/// position (written in decimal; an empty piece if there is no such handle, so that handles
/// stay at odd positions), and anything else is put back between braces.
pub open spec fn render_piece(index: int, piece: Seq<char>, handles: Seq<PlayerHandle>) -> Seq<Seq<char>> {
    if index % 2 == 0 {
        seq![piece]
    } else if piece == "You"@ {
        seq![piece]
    } else {
        match parse_usize_spec(piece) {
            Some(i) => if i < handles.len() {
                seq![decimal(handles[i as int] as nat)]
            } else {
                seq![Seq::<char>::empty()]
            },
            None => seq![seq!['{'] + piece + seq!['}']],
        }
    }
}

/// The rendered pieces of a sequence of message pieces, in order.
pub open spec fn render_pieces(pieces: Seq<Seq<char>>, handles: Seq<PlayerHandle>) -> Seq<Seq<char>>
    decreases pieces.len(),
{
    if pieces.len() == 0 {
        Seq::empty()
    } else {
        render_pieces(pieces.drop_last(), handles) + render_piece(
            pieces.len() - 1,
            pieces.last(),
            handles,
        )
    }
}

/// Each piece of a message gives exactly one part, so the part at position `i` comes from the
/// piece at position `i`: what stood between braces (odd positions) stays at odd positions.
pub proof fn lemma_one_part_per_piece(pieces: Seq<Seq<char>>, handles: Seq<PlayerHandle>)
    ensures
        render_pieces(pieces, handles).len() == pieces.len(),
        forall|i: int| 0 <= i < pieces.len() ==> render_pieces(pieces, handles)[i] == #[trigger] render_piece(
            i,
            pieces[i],
            handles,
        )[0],
    decreases pieces.len(),
{
    if pieces.len() > 0 {
        let init = pieces.drop_last();
        lemma_one_part_per_piece(init, handles);
        assert forall|i: int| 0 <= i < pieces.len() implies render_pieces(pieces, handles)[i]
            == #[trigger] render_piece(i, pieces[i], handles)[0] by {
            if i < pieces.len() - 1 {
                assert(pieces[i] == init[i]);
            }
        }
    }
}

/// Whether a text holds no curly brace.
pub open spec fn has_no_braces(s: Seq<char>) -> bool {
    forall|i: int| 0 <= i < s.len() ==> !is_brace(#[trigger] s[i])
}

proof fn lemma_split_extends_last(p: Seq<char>, q: Seq<char>)
    requires
        has_no_braces(q),
    ensures
        split_braces(p + q).len() == split_braces(p).len(),
        split_braces(p + q) == split_braces(p).update(
            split_braces(p).len() - 1,
            split_braces(p).last() + q,
        ),
    decreases q.len(),
{
    lemma_split_nonempty(p);
    if q.len() == 0 {
        assert(p + q =~= p);
        assert(split_braces(p).last() + q =~= split_braces(p).last());
        assert(split_braces(p).update(split_braces(p).len() - 1, split_braces(p).last()) =~= split_braces(p));
    } else {
        let q0 = q.drop_last();
        assert(has_no_braces(q0)) by {
            assert forall|i: int| 0 <= i < q0.len() implies !is_brace(#[trigger] q0[i]) by {
                assert(q0[i] == q[i]);
            }
        }
        lemma_split_extends_last(p, q0);
        assert((p + q).drop_last() =~= p + q0);
        assert((p + q).last() == q.last());
        assert(!is_brace(q[q.len() - 1]));
        let rest = split_braces(p + q0);
        let n = split_braces(p).len();
        assert(split_braces(p).last() + q0 + seq![q.last()] =~= split_braces(p).last() + q);
        assert(rest.len() == n);
        assert(rest.last() == rest[n - 1]);
        assert(rest[n - 1] == split_braces(p).last() + q0);
        assert((p + q).len() > 0);
        assert(!is_brace((p + q).last()));
        assert(split_braces(p + q) == rest.update(rest.len() - 1, rest.last().push((p + q).last())));
        assert(rest.last().push((p + q).last()) =~= split_braces(p).last() + q);
        assert(split_braces(p + q) =~= split_braces(p).update(
            split_braces(p).len() - 1,
            split_braces(p).last() + q,
        ));
    }
}

proof fn lemma_split_nonempty(s: Seq<char>)
    ensures
        split_braces(s).len() > 0,
    decreases s.len(),
{
    if s.len() > 0 {
        lemma_split_nonempty(s.drop_last());
    }
}

/// A message said by a player is shown with the player's handle first: without braces in the
/// message, its separated parts are nothing, the handle in decimal, and the message after a
/// colon.
pub proof fn lemma_said_by_player_shows_handle(message: Seq<char>, handle: PlayerHandle)
    requires
        has_no_braces(message),
    ensures
        render_pieces(split_braces("{0}"@ + ": "@ + message), seq![handle]) == seq![
            Seq::<char>::empty(),
            decimal(handle as nat),
            ": "@ + message,
        ],
{
    reveal_strlit("{0}");
    reveal_strlit(": ");
    let head = "{0}"@;
    let tail = ": "@ + message;
    assert(has_no_braces(tail)) by {
        assert forall|i: int| 0 <= i < tail.len() implies !is_brace(#[trigger] tail[i]) by {
            if i >= 2 {
                assert(tail[i] == message[i - 2]);
            }
        }
    }
    assert(head =~= seq!['{', '0', '}']);
    assert(seq!['{', '0', '}'].drop_last() =~= seq!['{', '0']);
    assert(seq!['{', '0'].drop_last() =~= seq!['{']);
    assert(seq!['{'].drop_last() =~= Seq::<char>::empty());
    assert(split_braces(Seq::<char>::empty()) == seq![Seq::<char>::empty()]);
    assert(seq!['{'].last() == '{');
    assert(seq!['{', '0'].last() == '0');
    assert(seq!['{', '0', '}'].last() == '}');
    assert(split_braces(seq!['{']) =~= seq![Seq::<char>::empty(), Seq::<char>::empty()]);
    assert(split_braces(seq!['{', '0']) =~= seq![Seq::<char>::empty(), seq!['0']]);
    assert(split_braces(head) =~= seq![Seq::<char>::empty(), seq!['0'], Seq::<char>::empty()]);
    lemma_split_extends_last(head, tail);
    assert("{0}"@ + ": "@ + message =~= head + tail);
    let pieces = split_braces(head + tail);
    assert(pieces =~= seq![Seq::<char>::empty(), seq!['0'], tail]);
    let handles = seq![handle];
    assert(parse_usize_spec(seq!['0']) == Some(0usize)) by {
        assert(seq!['0'].drop_last() =~= Seq::<char>::empty());
        assert(seq!['0'].last() == '0');
        assert(digits_value(Seq::<char>::empty()) == Some(0nat));
        assert(digits_value(seq!['0']) == Some(0nat));
    }
    reveal_strlit("You");
    assert(seq!['0'] != "You"@) by {
        assert(seq!['0'].len() != "You"@.len());
    }
    assert(pieces.drop_last() =~= seq![Seq::<char>::empty(), seq!['0']]);
    assert(pieces.drop_last().drop_last() =~= seq![Seq::<char>::empty()]);
    assert(pieces.drop_last().drop_last().drop_last() =~= Seq::<Seq<char>>::empty());
    assert(seq![Seq::<char>::empty()].drop_last() =~= Seq::<Seq<char>>::empty());
    assert(render_pieces(Seq::<Seq<char>>::empty(), handles) == Seq::<Seq<char>>::empty());
    assert(render_piece(0, Seq::<char>::empty(), handles) == seq![Seq::<char>::empty()]);
    assert(render_pieces(seq![Seq::<char>::empty()], handles) =~= seq![Seq::<char>::empty()]);
    assert(render_pieces(seq![Seq::<char>::empty(), seq!['0']], handles) =~= seq![
        Seq::<char>::empty(),
        decimal(handle as nat),
    ]);
    assert(render_pieces(pieces, handles) =~= seq![Seq::<char>::empty(), decimal(handle as nat), tail]);
}

/// Splits a text on curly braces.
pub fn split_on_braces(s: &[char]) -> (pieces: Vec<Vec<char>>)
    ensures
        pieces@.len() == split_braces(s@).len(),
        forall|i: int| 0 <= i < pieces@.len() ==> #[trigger] pieces@[i]@ == split_braces(s@)[i],
{
    let mut pieces: Vec<Vec<char>> = Vec::new();
    let mut current: Vec<char> = Vec::new();
    let mut i: usize = 0;
    while i < s.len()
        invariant
            i <= s@.len(),
            pieces@.len() + 1 == split_braces(s@.subrange(0, i as int)).len(),
            forall|j: int| 0 <= j < pieces@.len() ==> #[trigger] pieces@[j]@ == split_braces(s@.subrange(0, i as int))[j],
            current@ == split_braces(s@.subrange(0, i as int)).last(),
        decreases s@.len() - i,
    {
        let c = s[i];
        proof {
            assert(s@.subrange(0, i + 1).drop_last() =~= s@.subrange(0, i as int));
            assert(s@.subrange(0, i + 1).last() == c);
        }
        if c == '{' || c == '}' {
            let finished = current;
            pieces.push(finished);
            current = Vec::new();
        } else {
            current.push(c);
        }
        i = i + 1;
        proof {
            let prefix = s@.subrange(0, i as int);
            let prev = split_braces(s@.subrange(0, i - 1));
            assert(forall|j: int| 0 <= j < pieces@.len() ==> #[trigger] pieces@[j]@ == split_braces(prefix)[j]);
        }
    }
    pieces.push(current);
    proof {
        assert(s@.subrange(0, s@.len() as int) =~= s@);
    }
    pieces
}

impl ChatMessage {
    /// A message with no handles.
    pub fn message(message: String) -> (chat: Self)
        ensures
            chat.message == message,
            chat.player_handles@ == Seq::<PlayerHandle>::empty(),
    {
        ChatMessage { message, player_handles: Vec::new() }
    }

    /// The message said by `whom`: prefixed with the name and a colon.
    pub fn said_by(self, whom: String) -> (chat: Self)
        ensures
            chat.message@ == whom@ + ": "@ + self.message@,
            chat.player_handles == self.player_handles,
    {
        proof {
            reveal_strlit(": ");
        }
        let mut message = whom;
        message.append(": ");
        message.append(self.message.as_str());
        ChatMessage { message, player_handles: self.player_handles }
    }

    /// The message said by a player: its handles become just that player, and it is prefixed
    /// with the reference `{0}` to them.
    pub fn by_player(self, handle: PlayerHandle) -> (chat: Self)
        ensures
            chat.message@ == "{0}"@ + ": "@ + self.message@,
            chat.player_handles@ == seq![handle],
    {
        let mut handles: Vec<PlayerHandle> = Vec::new();
        handles.push(handle);
        let with_handle = ChatMessage { message: self.message, player_handles: handles };
        with_handle.said_by(String::from_str("{0}"))
    }

    /// Splits the message on curly braces and puts in the player handles: see
    /// [`render_pieces`].
    pub fn separate_handles(&self) -> (parts: Vec<String>)
        ensures
            parts@.len() == split_braces(self.message@).len(),
            parts@.len() == render_pieces(split_braces(self.message@), self.player_handles@).len(),
            forall|i: int| 0 <= i < parts@.len() ==> #[trigger] parts@[i]@ == render_pieces(
                split_braces(self.message@),
                self.player_handles@,
            )[i],
    {
        let chars = chars_of(self.message.as_str());
        let pieces = split_on_braces(chars.as_slice());
        let ghost piece_views = split_braces(self.message@);
        let ghost handles = self.player_handles@;
        let mut parts: Vec<String> = Vec::new();
        let mut idx: usize = 0;
        while idx < pieces.len()
            invariant
                idx <= pieces@.len() == piece_views.len(),
                piece_views == split_braces(self.message@),
                handles == self.player_handles@,
                forall|j: int| 0 <= j < pieces@.len() ==> #[trigger] pieces@[j]@ == piece_views[j],
                parts@.len() == render_pieces(piece_views.subrange(0, idx as int), handles).len(),
                forall|j: int| 0 <= j < parts@.len() ==> #[trigger] parts@[j]@ == render_pieces(
                    piece_views.subrange(0, idx as int),
                    handles,
                )[j],
            decreases pieces@.len() - idx,
        {
            let piece = &pieces[idx];
            let ghost before = render_pieces(piece_views.subrange(0, idx as int), handles);
            let ghost rendered = render_piece(idx as int, piece_views[idx as int], handles);
            proof {
                assert(piece_views.subrange(0, idx + 1).drop_last() =~= piece_views.subrange(0, idx as int));
                assert(render_pieces(piece_views.subrange(0, idx + 1), handles) == before + rendered);
            }
            if idx % 2 == 0 {
                parts.push(string_from_chars(piece.as_slice()));
            } else if is_you(piece.as_slice()) {
                parts.push(string_from_chars(piece.as_slice()));
            } else {
                match parse_usize(piece.as_slice()) {
                    Some(handle_index) => {
                        if handle_index < self.player_handles.len() {
                            parts.push(usize_to_decimal(self.player_handles[handle_index]));
                        } else {
                            parts.push(String::new());
                        }
                    },
                    None => {
                        let mut wrapped = String::new();
                        push_char(&mut wrapped, '{');
                        let inner = string_from_chars(piece.as_slice());
                        wrapped.append(inner.as_str());
                        push_char(&mut wrapped, '}');
                        proof {
                            assert(wrapped@ =~= seq!['{'] + piece_views[idx as int] + seq!['}']);
                        }
                        parts.push(wrapped);
                    },
                }
            }
            idx = idx + 1;
            proof {
                assert(forall|j: int| 0 <= j < parts@.len() ==> #[trigger] parts@[j]@ == (before + rendered)[j]);
            }
        }
        proof {
            assert(piece_views.subrange(0, pieces@.len() as int) =~= piece_views);
            lemma_one_part_per_piece(piece_views, handles);
        }
        parts
    }
}

/// Whether a piece is exactly `You`.
fn is_you(piece: &[char]) -> (b: bool)
    ensures
        b <==> piece@ == "You"@,
{
    proof {
        reveal_strlit("You");
    }
    let b = piece.len() == 3 && piece[0] == 'Y' && piece[1] == 'o' && piece[2] == 'u';
    proof {
        if b {
            assert(piece@ =~= "You"@);
        }
    }
    b
}

/// A character of the Unicode `White_Space` property, which `str::trim_end` strips.
pub open spec fn is_white_space(c: char) -> bool {
    ||| ('\u{9}' <= c && c <= '\u{d}')
    ||| c == ' '
    ||| c == '\u{85}'
    ||| c == '\u{a0}'
    ||| c == '\u{1680}'
    ||| ('\u{2000}' <= c && c <= '\u{200a}')
    ||| c == '\u{2028}'
    ||| c == '\u{2029}'
    ||| c == '\u{202f}'
    ||| c == '\u{205f}'
    ||| c == '\u{3000}'
}

fn is_white_space_char(c: char) -> (b: bool)
    ensures
        b <==> is_white_space(c),
{
    ('\u{9}' <= c && c <= '\u{d}') || c == ' ' || c == '\u{85}' || c == '\u{a0}' || c == '\u{1680}'
        || ('\u{2000}' <= c && c <= '\u{200a}') || c == '\u{2028}' || c == '\u{2029}' || c
        == '\u{202f}' || c == '\u{205f}' || c == '\u{3000}'
}

/// `t` is `s` without its trailing white space: the longest prefix of `s` that does not end in
/// white space, past which there is only white space.
pub open spec fn is_trim_end(t: Seq<char>, s: Seq<char>) -> bool {
    &&& t.len() <= s.len()
    &&& t == s.subrange(0, t.len() as int)
    &&& forall|i: int| t.len() <= i < s.len() ==> is_white_space(#[trigger] s[i])
    &&& t.len() > 0 ==> !is_white_space(t.last())
}

/// The text without its trailing white space.
pub fn trim_end(s: &str) -> (t: String)
    ensures
        is_trim_end(t@, s@),
{
    let mut chars = chars_of(s);
    let mut k: usize = chars.len();
    while k > 0 && is_white_space_char(chars[k - 1])
        invariant
            chars@ == s@,
            k <= chars@.len(),
            forall|i: int| k <= i < s@.len() ==> is_white_space(#[trigger] s@[i]),
        decreases k,
    {
        k = k - 1;
    }
    chars.truncate(k);
    string_from_chars(chars.as_slice())
}

/// How a rendered part of a chat message is displayed.
#[derive(Clone, Copy, Debug, PartialEq, Eq, Structural)]
pub enum ChatSectionKind {
    /// Plain message text.
    Text,
    /// The local player.
    You,
    /// A player's name.
    Name,
}

/// A part of a chat message as it is displayed.
#[derive(Clone, Debug)]
pub struct ChatSection {
    pub kind: ChatSectionKind,
    pub text: String,
}

/// How the part at `index` of a message's separated parts is displayed: parts at odd indices
/// are players, `You` for the local player, else the name registered under the handle the
/// part spells (`[unknown]` if there is none); parts at even indices are text.
pub open spec fn section_of(index: int, part: Seq<char>, players: Seq<PlayerData>) -> (ChatSectionKind, Seq<char>) {
    if index % 2 == 1 {
        if part == "You"@ {
            (ChatSectionKind::You, "You"@)
        } else {
            match parse_usize_spec(part) {
                Some(h) => if h < players.len() {
                    (ChatSectionKind::Name, players[h as int].name@)
                } else {
                    (ChatSectionKind::Name, "[unknown]"@)
                },
                None => (ChatSectionKind::Name, "[unknown]"@),
            }
        }
    } else {
        (ChatSectionKind::Text, part)
    }
}

/// The sections a chat message is displayed with: its separated parts (see
/// [`ChatMessage::separate_handles`]), each shown as [`section_of`] says.
pub fn render_chat_sections(message: &ChatMessage, players: &PlayerRegistry) -> (sections: Vec<ChatSection>)
    ensures
        sections@.len() == render_pieces(split_braces(message.message@), message.player_handles@).len(),
        forall|i: int| 0 <= i < sections@.len() ==> {
            let (kind, text) = section_of(
                i,
                render_pieces(split_braces(message.message@), message.player_handles@)[i],
                players.0@,
            );
            &&& (#[trigger] sections@[i]).kind == kind
            &&& sections@[i].text@ == text
        },
{
    let parts = message.separate_handles();
    let ghost rendered = render_pieces(split_braces(message.message@), message.player_handles@);
    proof {
        reveal_strlit("You");
        reveal_strlit("[unknown]");
    }
    let mut sections: Vec<ChatSection> = Vec::new();
    let mut i: usize = 0;
    while i < parts.len()
        invariant
            i <= parts@.len() == rendered.len(),
            rendered == render_pieces(split_braces(message.message@), message.player_handles@),
            forall|j: int| 0 <= j < parts@.len() ==> #[trigger] parts@[j]@ == rendered[j],
            sections@.len() == i,
            forall|j: int| 0 <= j < i ==> {
                let (kind, text) = section_of(j, rendered[j], players.0@);
                &&& (#[trigger] sections@[j]).kind == kind
                &&& sections@[j].text@ == text
            },
        decreases parts@.len() - i,
    {
        let part = &parts[i];
        let section = if i % 2 == 1 {
            let chars = chars_of(part.as_str());
            if is_you(chars.as_slice()) {
                ChatSection { kind: ChatSectionKind::You, text: String::from_str("You") }
            } else {
                let name = match parse_usize(chars.as_slice()) {
                    Some(h) => match players.get(h) {
                        Some(data) => data.name.clone(),
                        None => String::from_str("[unknown]"),
                    },
                    None => String::from_str("[unknown]"),
                };
                ChatSection { kind: ChatSectionKind::Name, text: name }
            }
        } else {
            ChatSection { kind: ChatSectionKind::Text, text: part.clone() }
        };
        sections.push(section);
        i = i + 1;
    }
    sections
}

/// The most chat messages shown at once.
pub const MAX_CHAT_MESSAGES: usize = 16;

/// Where a new chat message is shown.
#[derive(Clone, Copy, Debug, PartialEq, Eq, Structural)]
pub enum ChatSlot {
    /// In a new line of the chat.
    Spawn,
    /// In the line at this position, counting the lines shown before (oldest first) and then
    /// those made for the same batch; the line is moved to the end.
    Reuse(usize),
}

/// The number of lines the chat showed before new messages came (`None`: it had none).
pub open spec fn shown_lines(shown: Option<usize>) -> int {
    match shown {
        Some(n) => n as int,
        None => 0,
    }
}

/// How many new lines the chat can still make before it shows [`MAX_CHAT_MESSAGES`].
pub open spec fn chat_room(shown: Option<usize>) -> int {
    if shown_lines(shown) < MAX_CHAT_MESSAGES {
        MAX_CHAT_MESSAGES - shown_lines(shown)
    } else {
        0
    }
}

/// Where each of `new_messages` messages goes, given the number of lines the chat showed
/// before (`None` if it had none): new lines are made until the chat shows
/// [`MAX_CHAT_MESSAGES`]; after that the oldest lines are reused in order, counting the lines
/// shown before (oldest first) and then those made for this batch.
pub fn plan_chat_slots(shown: Option<usize>, new_messages: usize) -> (slots: Vec<ChatSlot>)
    requires
        new_messages <= chat_room(shown) + (if shown_lines(shown) < MAX_CHAT_MESSAGES {
            MAX_CHAT_MESSAGES as int
        } else {
            shown_lines(shown)
        }),
    ensures
        slots@.len() == new_messages,
        forall|i: int| 0 <= i < new_messages ==> #[trigger] slots@[i] == if i < chat_room(shown) {
            ChatSlot::Spawn
        } else {
            ChatSlot::Reuse((i - chat_room(shown)) as usize)
        },
{
    let room: usize = match shown {
        Some(n) => if n < MAX_CHAT_MESSAGES {
            MAX_CHAT_MESSAGES - n
        } else {
            0
        },
        None => MAX_CHAT_MESSAGES,
    };
    let mut slots: Vec<ChatSlot> = Vec::new();
    let mut i: usize = 0;
    while i < new_messages
        invariant
            i <= new_messages,
            room == chat_room(shown),
            slots@.len() == i,
            forall|j: int| 0 <= j < i ==> #[trigger] slots@[j] == if j < room {
                ChatSlot::Spawn
            } else {
                ChatSlot::Reuse((j - room) as usize)
            },
        decreases new_messages - i,
    {
        if i < room {
            slots.push(ChatSlot::Spawn);
        } else {
            slots.push(ChatSlot::Reuse(i - room));
        }
        i = i + 1;
    }
    slots
}

/// Whether the chat lines fade away.
#[derive(Clone, Copy, Debug, PartialEq, Eq, Structural)]
pub struct ChatIsFading {
    pub is_fading: bool,
}

impl ChatIsFading {
    /// Lets the chat fade.
    pub fn set_to_fade(&mut self)
        ensures
            final(self).is_fading,
    {
        self.is_fading = true;
    }

    /// Keeps the chat from fading.
    pub fn set_to_not_fade(&mut self)
        ensures
            !final(self).is_fading,
    {
        self.is_fading = false;
    }
}

/// How long a chat line stays before fading, in nanoseconds.
pub const DURATION_BEFORE_FADEOUT: u64 = 3000 * NANOS_PER_MILLI;

/// The countdown of a chat line before it fades.
#[derive(Clone, Copy, Debug)]
pub struct ChatFadeout {
    pub timer: Timer,
}

impl ChatFadeout {
    /// A fresh countdown.
    pub fn new() -> (fadeout: Self)
        ensures
            fadeout.timer == Timer::spec_new(DURATION_BEFORE_FADEOUT),
    {
        ChatFadeout { timer: Timer::new(DURATION_BEFORE_FADEOUT) }
    }

    /// Starts the countdown over, running.
    pub fn restart(&mut self)
        ensures
            final(self).timer == (Timer { paused: false, ..old(self).timer }).spec_reset(),
    {
        self.timer.unpause();
        self.timer.reset();
    }
}

/// One frame of the chat lines' countdowns: every line's countdown is ticked; a shown line
/// whose countdown is over dims while the chat fades. Returns, per line, whether it dims (the
/// line is hidden, and its countdown paused, once it has dimmed away).
pub fn handle_chat_message_fadeout(
    fadeouts: &mut Vec<ChatFadeout>,
    hidden: &Vec<bool>,
    fading: &ChatIsFading,
    delta: u64,
) -> (dims: Vec<bool>)
    requires
        hidden@.len() == old(fadeouts)@.len(),
    ensures
        final(fadeouts)@.len() == old(fadeouts)@.len(),
        dims@.len() == old(fadeouts)@.len(),
        forall|i: int| 0 <= i < old(fadeouts)@.len() ==> {
            &&& (#[trigger] final(fadeouts)@[i]).timer == old(fadeouts)@[i].timer.ticked(delta)
            &&& dims@[i] == (!hidden@[i] && final(fadeouts)@[i].timer.finished && fading.is_fading)
        },
{
    let ghost start = fadeouts@;
    let mut dims: Vec<bool> = Vec::new();
    let mut i: usize = 0;
    while i < fadeouts.len()
        invariant
            hidden@.len() == start.len(),
            i <= fadeouts@.len() == start.len(),
            dims@.len() == i,
            forall|j: int| i <= j < start.len() ==> #[trigger] fadeouts@[j] == start[j],
            forall|j: int| 0 <= j < i ==> {
                &&& (#[trigger] fadeouts@[j]).timer == start[j].timer.ticked(delta)
                &&& dims@[j] == (!hidden@[j] && fadeouts@[j].timer.finished && fading.is_fading)
            },
        decreases start.len() - i,
    {
        let mut fadeout = fadeouts[i];
        fadeout.timer.tick(delta);
        let dim = !hidden[i] && fadeout.timer.finished() && fading.is_fading;
        let ghost before_dims = dims@;
        let ghost before_fadeouts = fadeouts@;
        fadeouts.set(i, fadeout);
        dims.push(dim);
        proof {
            assert forall|j: int| 0 <= j < i + 1 implies {
                &&& (#[trigger] fadeouts@[j]).timer == start[j].timer.ticked(delta)
                &&& dims@[j] == (!hidden@[j] && fadeouts@[j].timer.finished && fading.is_fading)
            } by {
                if j < i {
                    assert(fadeouts@[j] == before_fadeouts[j]);
                    assert(dims@[j] == before_dims[j]);
                }
            }
        }
        i = i + 1;
    }
    dims
}

/// The input layer of the chat while typing.
pub fn chat_input_layer() -> (layer: InputConsumerPriority)
    ensures
        layer.layer() == 7,
{
    InputConsumerPriority::new(7)
}

/// The input layer that opening the chat listens on.
pub fn chat_open_input_layer() -> (layer: InputConsumerPriority)
    ensures
        layer.layer() == 6,
{
    InputConsumerPriority::new(6)
}

/// Opening the chat: unless input to its layer is blocked, pressing an opening key focuses
/// the typing line, stops the fading and starts every line's countdown over. Returns whether
/// the chat opened (its lines are then shown in full).
pub fn handle_chat_opening(
    open_blocked: bool,
    opening_key_pressed: bool,
    focus: &mut Focus<TextInput>,
    fading: &mut ChatIsFading,
    fadeouts: &mut Vec<ChatFadeout>,
) -> (opened: bool)
    ensures
        opened <==> !open_blocked && opening_key_pressed,
        opened ==> {
            &&& *final(focus) matches Focus::Focused(None)
            &&& !final(fading).is_fading
            &&& final(fadeouts)@.len() == old(fadeouts)@.len()
            &&& forall|i: int| 0 <= i < old(fadeouts)@.len() ==> (#[trigger] final(fadeouts)@[i]).timer == (Timer {
                paused: false,
                ..old(fadeouts)@[i].timer
            }).spec_reset()
        },
        !opened ==> *final(focus) == *old(focus) && *final(fading) == *old(fading) && final(fadeouts)@
            == old(fadeouts)@,
{
    if open_blocked || !opening_key_pressed {
        return false;
    }
    *focus = Focus::Focused(None);
    fading.set_to_not_fade();
    let ghost start = fadeouts@;
    let mut i: usize = 0;
    while i < fadeouts.len()
        invariant
            i <= fadeouts@.len() == start.len(),
            forall|j: int| i <= j < start.len() ==> #[trigger] fadeouts@[j] == start[j],
            forall|j: int| 0 <= j < i ==> (#[trigger] fadeouts@[j]).timer == (Timer {
                paused: false,
                ..start[j].timer
            }).spec_reset(),
        decreases start.len() - i,
    {
        let mut fadeout = fadeouts[i];
        fadeout.restart();
        fadeouts.set(i, fadeout);
        i = i + 1;
    }
    true
}

/// A chat sent from `typed`: shown as said by `{You}` in our chat and sent to the peers as a
/// chat message, both without the trailing white space.
pub open spec fn sends_typed(sent: Option<(ChatMessage, PeerMessage)>, typed: Seq<char>) -> bool {
    match sent {
        Some((shown, PeerMessage::Chat { message })) => {
            &&& is_trim_end(message@, typed)
            &&& shown.message@ == "{You}"@ + ": "@ + message@
            &&& shown.player_handles@ == Seq::<PlayerHandle>::empty()
        },
        _ => false,
    }
}

/// What Return or Escape in the chat did.
#[derive(Clone, Debug)]
pub struct ChatSending {
    /// The message to show in our own chat, and the message to send to the peers.
    pub sent: Option<(ChatMessage, PeerMessage)>,
    /// Whether the chat closes (its typing line and background are hidden, and it fades).
    pub closed: bool,
}

/// Sending from the chat: while the chat's input layer is active, Return or Escape closes a
/// focused typing line; Return with text typed sends it, without its trailing white space, as
/// said by `{You}` to our chat and as a chat message to the peers, and empties the line.
pub fn handle_chat_sending(
    chat_layer_active: bool,
    return_pressed: bool,
    escape_pressed: bool,
    input: &mut TextInput,
    focus: &mut Focus<TextInput>,
    fading: &mut ChatIsFading,
) -> (outcome: ChatSending)
    ensures
        outcome.closed <==> chat_layer_active && (return_pressed || escape_pressed),
        !outcome.closed ==> outcome.sent is None && *final(input) == *old(input) && *final(focus)
            == *old(focus) && *final(fading) == *old(fading),
        outcome.closed ==> {
            &&& *final(focus) is Unfocused
            &&& final(fading).is_fading
            &&& if return_pressed && !(*old(focus) is Unfocused) && old(input).text@.len() > 0 {
                &&& sends_typed(outcome.sent, old(input).text@)
                &&& final(input).text@ == Seq::<char>::empty()
                &&& final(input).cursor_position == 0
                &&& final(input).placeholder == old(input).placeholder
                &&& final(input).max_symbols == old(input).max_symbols
                &&& final(input).line_breaks_allowed == old(input).line_breaks_allowed
            } else {
                &&& outcome.sent is None
                &&& *final(input) == *old(input)
            }
        },
{
    if !(chat_layer_active && (return_pressed || escape_pressed)) {
        return ChatSending { sent: None, closed: false };
    }
    let mut sent: Option<(ChatMessage, PeerMessage)> = None;
    if !focus.is_none() && return_pressed && input.text.len() > 0 {
        let typed = input.text_string();
        let message = trim_end(typed.as_str());
        let shown = ChatMessage::message(message.clone()).said_by(String::from_str("{You}"));
        sent = Some((shown, PeerMessage::Chat { message }));
        input.reset_text();
    }
    *focus = Focus::Unfocused;
    fading.set_to_fade();
    ChatSending { sent, closed: true }
}

} // verus!
