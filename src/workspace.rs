use vstd::prelude::*;
use std::collections::HashMap;
use crate::buffer::{EditorMessage, CARRIAGE_RETURN};
use crate::editor::{Editor, edits_content, moved_by, scrolled, updated};
use crate::geometry::{Offset, Rect, rect_contains, sat_add};
use crate::highlight::{ColorSpan, HighlightEvent};
use crate::prompt::{
    Prompt, PromptUpdate, command_of, prompt_edited, tokens, word_close, word_help, word_open, word_save,
};
use crate::theme::Theme;

verus! {

/// Relies on uuid's `Uuid::new_v4` and `Uuid::as_u128`: a random identifier
/// as a number. Nothing is known of its value.
#[verifier::external_body]
fn fresh_id() -> (r: u128) {
    uuid::Uuid::new_v4().as_u128()
}

/// One step of the workspace's state machine.
#[derive(Debug, Clone, Copy, PartialEq, Eq, Structural)]
pub enum Message {
    Edit(u128, EditorMessage),
    Focus(Option<u128>),
    Scroll(u128, Offset),
    Pan(Offset),
    MoveTarget(Option<u128>),
    FocusPrompt(bool),
    KeyComboDone,
    PromptEdit(EditorMessage),
}

/// What the caller has to do after a message.
#[derive(Debug)]
pub enum Effect {
    /// Nothing.
    Done,
    /// The text of this pane changed: derive its colours anew.
    Rehighlight(u128),
    /// The prompt submitted a command.
    Command(PromptUpdate),
}

/// Whether the identifiers are pairwise distinct.
pub open spec fn distinct(ids: Seq<u128>) -> bool {
    forall|i: int, j: int| 0 <= i < ids.len() && 0 <= j < ids.len() && i != j ==> ids[i] != ids[j]
}

/// What the input source reports for one frame.
#[derive(Debug)]
pub struct FrameInput {
    /// The prompt's key combination is held.
    pub combo_held: bool,
    /// Keys pressed this frame, then the character typed, in order.
    pub events: Vec<EditorMessage>,
    pub mouse_x: i64,
    pub mouse_y: i64,
    /// The left button went down this frame.
    pub left_pressed: bool,
    /// The left button is held.
    pub left_down: bool,
    /// Vertical scroll the wheel asks for this frame; zero if it did not move.
    pub wheel: i64,
    /// How far the pointer moved this frame.
    pub drag: Offset,
}

/// The title bar of a pane: as wide as its window, directly above it.
pub open spec fn titlebar_rect(e: Editor) -> Rect {
    Rect {
        x: e.frame().x,
        y: sat_add(e.frame().y as int, -(e.line_height() + 8)) as i64,
        w: e.frame().w,
        h: (e.line_height() + 8) as i64,
    }
}

/// The pointer is over the pane: its title bar, or with `titles_only` unset
/// its window too.
pub open spec fn over(e: Editor, x: int, y: int, titles_only: bool) -> bool {
    rect_contains(titlebar_rect(e), x, y) || (!titles_only && rect_contains(e.frame(), x, y))
}

/// The first pane, in order, that the pointer is over.
pub open spec fn first_over(ids: Seq<u128>, eds: Seq<Editor>, x: int, y: int, titles_only: bool) -> Option<u128>
    decreases eds.len(),
{
    if eds.len() == 0 || ids.len() == 0 {
        None
    } else if over(eds[0], x, y, titles_only) {
        Some(ids[0])
    } else {
        first_over(ids.drop_first(), eds.drop_first(), x, y, titles_only)
    }
}

/// Input events addressed to pane `target`, or to the prompt if `None`.
pub open spec fn addressed(target: Option<u128>, evs: Seq<EditorMessage>) -> Seq<Message> {
    match target {
        Some(id) => evs.map_values(|e: EditorMessage| Message::Edit(id, e)),
        None => evs.map_values(|e: EditorMessage| Message::PromptEdit(e)),
    }
}

/// The message that addresses `e` to `target`.
pub open spec fn address(target: Option<u128>, e: EditorMessage) -> Message {
    match target {
        Some(id) => Message::Edit(id, e),
        None => Message::PromptEdit(e),
    }
}

proof fn lemma_addressed_push(target: Option<u128>, evs: Seq<EditorMessage>, e: EditorMessage)
    ensures
        addressed(target, evs.push(e)) == addressed(target, evs).push(address(target, e)),
{
    match target {
        Some(id) => {
            assert(addressed(target, evs.push(e)) =~= addressed(target, evs).push(address(target, e)));
        },
        None => {
            assert(addressed(target, evs.push(e)) =~= addressed(target, evs).push(address(target, e)));
        },
    }
}

proof fn lemma_push_after_concat<A>(x: Seq<A>, y: Seq<A>, v: A)
    ensures
        (x + y).push(v) == x + y.push(v),
{
    assert((x + y).push(v) =~= x + y.push(v));
}

pub open spec fn is_drag(input: FrameInput) -> bool {
    input.left_down && input.drag != (Offset { x: 0, y: 0 })
}

/// Messages for the panes: focus on a press, the wheel to the hovered pane,
/// a drag pans (its target or everything), whenever no drag is in progress
/// the drag target follows the hovered title bar, and unless dragging the
/// keys go to the pane focused after this frame's press.
pub open spec fn pane_messages(
    ids: Seq<u128>,
    eds: Seq<Editor>,
    focus: Option<u128>,
    target: Option<u128>,
    input: FrameInput,
) -> Seq<Message> {
    let (x, y) = (input.mouse_x as int, input.mouse_y as int);
    let hovered = first_over(ids, eds, x, y, false);
    let focus_msgs = if input.left_pressed {
        seq![Message::Focus(hovered)]
    } else {
        Seq::empty()
    };
    let scroll_msgs = if hovered is Some && input.wheel != 0 {
        seq![Message::Scroll(hovered->Some_0, Offset { x: 0, y: input.wheel })]
    } else {
        Seq::empty()
    };
    let title = first_over(ids, eds, x, y, true);
    let drag_msgs = if is_drag(input) {
        seq![Message::Pan(input.drag)]
    } else if target != title {
        seq![Message::MoveTarget(title)]
    } else {
        Seq::empty()
    };
    let focus_now = if input.left_pressed {
        hovered
    } else {
        focus
    };
    let key_msgs = if focus_now is Some && !is_drag(input) {
        addressed(focus_now, input.events@)
    } else {
        Seq::empty()
    };
    focus_msgs + scroll_msgs + drag_msgs + key_msgs
}

/// The frame's messages in order. The key combination, when held with the
/// latch set, toggles the prompt and, if that opens it, ends the frame; when
/// released with the latch cleared, it re-arms the latch. While the prompt
/// has focus it takes all key input and the panes get nothing; else the
/// panes' messages follow.
pub open spec fn routed(
    ids: Seq<u128>,
    eds: Seq<Editor>,
    focus: Option<u128>,
    target: Option<u128>,
    prompt_focused: bool,
    released: bool,
    input: FrameInput,
) -> Seq<Message> {
    let held = input.combo_held;
    let toggles = held && released;
    let head = if toggles {
        seq![Message::FocusPrompt(!prompt_focused)]
    } else if !held && !released {
        seq![Message::KeyComboDone]
    } else {
        Seq::empty()
    };
    let prompt_now = if toggles {
        !prompt_focused
    } else {
        prompt_focused
    };
    if toggles && !prompt_focused {
        head
    } else if prompt_now {
        head + addressed(None, input.events@)
    } else {
        head + pane_messages(ids, eds, focus, target, input)
    }
}

/// Whether the prompt has focus once the frame's toggle, if any, is applied.
pub open spec fn prompt_after(prompt_focused: bool, released: bool, input: FrameInput) -> bool {
    if input.combo_held && released {
        !prompt_focused
    } else {
        prompt_focused
    }
}

/// The pane focused once the frame's press, if any, is applied.
pub open spec fn focus_after(ids: Seq<u128>, eds: Seq<Editor>, focus: Option<u128>, input: FrameInput) -> Option<u128> {
    if input.left_pressed {
        first_over(ids, eds, input.mouse_x as int, input.mouse_y as int, false)
    } else {
        focus
    }
}

proof fn lemma_addressed_kinds(target: Option<u128>, evs: Seq<EditorMessage>, k: int)
    requires
        0 <= k < evs.len(),
    ensures
        addressed(target, evs).len() == evs.len(),
        target is Some ==> addressed(target, evs)[k] == Message::Edit(target->Some_0, evs[k]),
        target is None ==> addressed(target, evs)[k] == Message::PromptEdit(evs[k]),
{
}

proof fn lemma_pane_messages_edit(
    ids: Seq<u128>,
    eds: Seq<Editor>,
    focus: Option<u128>,
    target: Option<u128>,
    input: FrameInput,
    k: int,
)
    requires
        0 <= k < pane_messages(ids, eds, focus, target, input).len(),
        pane_messages(ids, eds, focus, target, input)[k] is Edit,
    ensures
        !is_drag(input),
        focus_after(ids, eds, focus, input) == Some(pane_messages(ids, eds, focus, target, input)[k]->Edit_0),
{
    let pm = pane_messages(ids, eds, focus, target, input);
    let (x, y) = (input.mouse_x as int, input.mouse_y as int);
    let hovered = first_over(ids, eds, x, y, false);
    let focus_msgs: Seq<Message> = if input.left_pressed {
        seq![Message::Focus(hovered)]
    } else {
        Seq::empty()
    };
    let scroll_msgs: Seq<Message> = if hovered is Some && input.wheel != 0 {
        seq![Message::Scroll(hovered->Some_0, Offset { x: 0, y: input.wheel })]
    } else {
        Seq::empty()
    };
    let title = first_over(ids, eds, x, y, true);
    let drag_msgs: Seq<Message> = if is_drag(input) {
        seq![Message::Pan(input.drag)]
    } else if target != title {
        seq![Message::MoveTarget(title)]
    } else {
        Seq::empty()
    };
    let now = focus_after(ids, eds, focus, input);
    let key_msgs = if now is Some && !is_drag(input) {
        addressed(now, input.events@)
    } else {
        Seq::empty()
    };
    let front = focus_msgs + scroll_msgs + drag_msgs;
    assert(pm == front + key_msgs);
    assert forall|i: int| 0 <= i < front.len() implies !(#[trigger] front[i] is Edit) by {
        if i < focus_msgs.len() {
            assert(front[i] == focus_msgs[i]);
        } else if i < focus_msgs.len() + scroll_msgs.len() {
            assert(front[i] == scroll_msgs[i - focus_msgs.len()]);
        } else {
            assert(front[i] == drag_msgs[i - focus_msgs.len() - scroll_msgs.len()]);
        }
    }
    if k < front.len() {
        assert(pm[k] == front[k]);
    } else {
        assert(pm[k] == key_msgs[k - front.len()]);
        lemma_addressed_kinds(now, input.events@, k - front.len());
    }
}

/// Key input goes to one place only: no pane gets any while the prompt has
/// focus after the frame's toggle, and otherwise only the pane focused after
/// the frame's press gets it, and none during a drag.
pub proof fn lemma_keys_reach_only_the_focused_pane(
    ids: Seq<u128>,
    eds: Seq<Editor>,
    focus: Option<u128>,
    target: Option<u128>,
    prompt_focused: bool,
    released: bool,
    input: FrameInput,
    k: int,
)
    requires
        0 <= k < routed(ids, eds, focus, target, prompt_focused, released, input).len(),
        routed(ids, eds, focus, target, prompt_focused, released, input)[k] is Edit,
    ensures
        !prompt_after(prompt_focused, released, input),
        !is_drag(input),
        focus_after(ids, eds, focus, input) == Some(
            routed(ids, eds, focus, target, prompt_focused, released, input)[k]->Edit_0,
        ),
{
    let r = routed(ids, eds, focus, target, prompt_focused, released, input);
    let held = input.combo_held;
    let toggles = held && released;
    let head: Seq<Message> = if toggles {
        seq![Message::FocusPrompt(!prompt_focused)]
    } else if !held && !released {
        seq![Message::KeyComboDone]
    } else {
        Seq::empty()
    };
    assert(forall|i: int| 0 <= i < head.len() ==> !(#[trigger] head[i] is Edit));
    if toggles && !prompt_focused {
        assert(r == head);
    } else if prompt_after(prompt_focused, released, input) {
        assert(r == head + addressed(None, input.events@));
        if k >= head.len() {
            assert(r[k] == addressed(None, input.events@)[k - head.len()]);
            lemma_addressed_kinds(None, input.events@, k - head.len());
        } else {
            assert(r[k] == head[k]);
        }
    } else {
        let pm = pane_messages(ids, eds, focus, target, input);
        assert(r == head + pm);
        if k >= head.len() {
            assert(r[k] == pm[k - head.len()]);
            lemma_pane_messages_edit(ids, eds, focus, target, input, k - head.len());
        } else {
            assert(r[k] == head[k]);
        }
    }
}

/// How a pane with identifier `id` changes under `m`, given the drag target.
pub open spec fn pane_step(a: Editor, b: Editor, id: u128, target: Option<u128>, m: Message) -> bool {
    match m {
        Message::Edit(t, e) => if id == t {
            updated(a, b, e)
        } else {
            b == a
        },
        Message::Scroll(t, d) => if id == t {
            scrolled(a, b, d)
        } else {
            b == a
        },
        Message::Pan(d) => match target {
            Some(t) => if id == t {
                moved_by(a, b, d)
            } else {
                b == a
            },
            None => moved_by(a, b, d),
        },
        _ => b == a,
    }
}

/// The identifier of the pane that closing the focused pane removes.
pub open spec fn focused_pane(a: App) -> Option<u128> {
    match a.focus() {
        Some(f) => if a.pane_ids().contains(f) {
            Some(f)
        } else {
            None
        },
        None => None,
    }
}

/// `b` is `a` with its focused pane, if any, removed: focus cleared, and
/// the drag target too if it was that pane.
pub open spec fn focused_closed(a: App, b: App) -> bool {
    &&& b.focus() is None
    &&& match focused_pane(a) {
        Some(f) => {
            let i = a.pane_ids().index_of(f);
            &&& b.pane_ids() == a.pane_ids().remove(i)
            &&& b.panes() == a.panes().remove(i)
            &&& b.drag_target() == if a.drag_target() == Some(f) {
                None
            } else {
                a.drag_target()
            }
        },
        None => {
            &&& b.pane_ids() == a.pane_ids()
            &&& b.panes() == a.panes()
            &&& b.drag_target() == a.drag_target()
        },
    }
}

/// `m` submits a prompt whose text asks to close the focused pane.
pub open spec fn submits_close(prompt_text: Seq<char>, m: Message) -> bool {
    &&& m == Message::PromptEdit(EditorMessage::Char(CARRIAGE_RETURN))
    &&& tokens(prompt_text)[0] == word_close()
}

proof fn lemma_close_command(s: Seq<char>, u: PromptUpdate)
    requires
        command_of(s, u),
    ensures
        (u is CloseActiveFile) == (tokens(s)[0] == word_close()),
{
    assert(word_open().len() != word_close().len());
    assert(word_save().len() != word_close().len());
    assert(word_help().len() != word_close().len());
}

/// The panes of `store` in the order of `ids`.
pub open spec fn panes_of(ids: Seq<u128>, store: Map<u128, Editor>) -> Seq<Editor> {
    Seq::new(ids.len(), |j: int| store[ids[j]])
}

/// The keys of `store` are exactly the identifiers in `ids`.
pub open spec fn keyed_by(ids: Seq<u128>, store: Map<u128, Editor>) -> bool {
    &&& forall|j: int| 0 <= j < ids.len() ==> store.contains_key(#[trigger] ids[j])
    &&& forall|k: u128| #[trigger] store.contains_key(k) ==> ids.contains(k)
}

proof fn lemma_replace(ids: Seq<u128>, s0: Map<u128, Editor>, i: int, e: Editor)
    requires
        distinct(ids),
        0 <= i < ids.len(),
        keyed_by(ids, s0),
    ensures
        panes_of(ids, s0.remove(ids[i]).insert(ids[i], e)) == panes_of(ids, s0).update(i, e),
        keyed_by(ids, s0.remove(ids[i]).insert(ids[i], e)),
{
    let s1 = s0.remove(ids[i]).insert(ids[i], e);
    assert forall|j: int| 0 <= j < ids.len() implies #[trigger] panes_of(ids, s1)[j] == panes_of(ids, s0).update(i, e)[j] by {
        if j != i {
            assert(ids[j] != ids[i]);
        }
    }
    assert(panes_of(ids, s1) =~= panes_of(ids, s0).update(i, e));
    assert forall|k: u128| #[trigger] s1.contains_key(k) implies ids.contains(k) by {
        if k != ids[i] {
            assert(s0.contains_key(k));
        } else {
            assert(ids[i] == k);
        }
    }
}

/// Panes keyed by identifier, the focus, the pane being dragged, and the
/// command prompt with its focus and the latch of its key combination.
pub struct App {
    theme: Theme,
    ids: Vec<u128>,
    store: HashMap<u128, Editor>,
    focused: Option<u128>,
    move_target: Option<u128>,
    prompt_focused: bool,
    released: bool,
    prompt: Prompt,
}

impl App {
    pub closed spec fn pane_ids(&self) -> Seq<u128> {
        self.ids@
    }

    pub closed spec fn panes(&self) -> Seq<Editor> {
        panes_of(self.ids@, self.store@)
    }

    /// The pane store holds a pane for each identifier and nothing else.
    pub closed spec fn keyed(&self) -> bool {
        keyed_by(self.ids@, self.store@)
    }

    pub closed spec fn focus(&self) -> Option<u128> {
        self.focused
    }

    pub closed spec fn drag_target(&self) -> Option<u128> {
        self.move_target
    }

    pub closed spec fn prompt_has_focus(&self) -> bool {
        self.prompt_focused
    }

    pub closed spec fn combo_released(&self) -> bool {
        self.released
    }

    pub closed spec fn command_line(&self) -> Prompt {
        self.prompt
    }

    pub closed spec fn palette(&self) -> Theme {
        self.theme
    }

    /// Identifiers unique, one pane each, every pane and the prompt valid.
    pub open spec fn wf(&self) -> bool {
        &&& self.pane_ids().len() == self.panes().len()
        &&& distinct(self.pane_ids())
        &&& self.keyed()
        &&& forall|i: int| 0 <= i < self.panes().len() ==> #[trigger] self.panes()[i].wf()
        &&& self.command_line().wf()
    }

    /// Takes the `i`-th pane out of the store.
    fn take_pane(&mut self, i: usize) -> (e: Editor)
        requires
            old(self).wf(),
            i < old(self).pane_ids().len(),
        ensures
            e == old(self).panes()[i as int],
            final(self).store@ == old(self).store@.remove(old(self).ids@[i as int]),
            final(self).ids == old(self).ids,
            final(self).focused == old(self).focused,
            final(self).move_target == old(self).move_target,
            final(self).prompt_focused == old(self).prompt_focused,
            final(self).released == old(self).released,
            final(self).prompt == old(self).prompt,
            final(self).theme == old(self).theme,
    {
        let id = self.ids[i];
        assert(self.store@.contains_key(self.ids@[i as int]));
        self.store.remove(&id).unwrap()
    }

    /// Puts `e` back into the store as the `i`-th pane.
    fn put_pane(&mut self, i: usize, e: Editor)
        requires
            i < old(self).ids@.len(),
        ensures
            final(self).store@ == old(self).store@.insert(old(self).ids@[i as int], e),
            final(self).ids == old(self).ids,
            final(self).focused == old(self).focused,
            final(self).move_target == old(self).move_target,
            final(self).prompt_focused == old(self).prompt_focused,
            final(self).released == old(self).released,
            final(self).prompt == old(self).prompt,
            final(self).theme == old(self).theme,
    {
        let id = self.ids[i];
        self.store.insert(id, e);
    }

    /// Index of the pane with identifier `id`.
    pub fn index_of(&self, id: u128) -> (r: Option<usize>)
        requires
            self.wf(),
        ensures
            r is Some ==> r->Some_0 < self.pane_ids().len() && self.pane_ids()[r->Some_0 as int] == id,
            r is None ==> !self.pane_ids().contains(id),
    {
        let mut i: usize = 0;
        while i < self.ids.len()
            invariant
                0 <= i <= self.ids@.len(),
                forall|j: int| 0 <= j < i ==> self.ids@[j] != id,
            decreases self.ids@.len() - i,
        {
            if self.ids[i] == id {
                return Some(i);
            }
            i = i + 1;
        }
        None
    }

    /// Adds `editor` under `id` unless a pane already has that identifier.
    pub fn add_pane(&mut self, id: u128, editor: Editor) -> (added: bool)
        requires
            old(self).wf(),
            editor.wf(),
        ensures
            final(self).wf(),
            added == !old(self).pane_ids().contains(id),
            added ==> final(self).pane_ids() == old(self).pane_ids().push(id) && final(self).panes()
                == old(self).panes().push(editor),
            !added ==> final(self).pane_ids() == old(self).pane_ids() && final(self).panes()
                == old(self).panes(),
            final(self).focus() == old(self).focus(),
            final(self).drag_target() == old(self).drag_target(),
            final(self).prompt_has_focus() == old(self).prompt_has_focus(),
            final(self).combo_released() == old(self).combo_released(),
            final(self).command_line() == old(self).command_line(),
            final(self).palette() == old(self).palette(),
    {
        match self.index_of(id) {
            Some(_) => false,
            None => {
                let ghost ids0 = self.ids@;
                let ghost s0 = self.store@;
                self.ids.push(id);
                self.store.insert(id, editor);
                proof {
                    assert(panes_of(self.ids@, self.store@) =~= panes_of(ids0, s0).push(editor)) by {
                        assert forall|j: int| 0 <= j < ids0.len() implies #[trigger] self.ids@[j] != id by {
                            assert(ids0.contains(ids0[j]));
                        }
                    }
                    assert forall|k: u128| #[trigger] self.store@.contains_key(k) implies self.ids@.contains(k) by {
                        if k != id {
                            assert(s0.contains_key(k));
                            let j = choose|j: int| 0 <= j < ids0.len() && ids0[j] == k;
                            assert(self.ids@[j] == k);
                        } else {
                            assert(self.ids@[ids0.len() as int] == id);
                        }
                    }
                    assert forall|j: int| 0 <= j < self.ids@.len() implies self.store@.contains_key(#[trigger] self.ids@[j]) by {
                        if j < ids0.len() {
                            assert(self.ids@[j] == ids0[j]);
                        }
                    }
                }
                true
            },
        }
    }

    /// Opens a pane under a fresh random identifier, which it returns; if
    /// that identifier is already taken nothing is added.
    pub fn open_pane(&mut self, editor: Editor) -> (r: Option<u128>)
        requires
            old(self).wf(),
            editor.wf(),
        ensures
            final(self).wf(),
            r is Some ==> {
                &&& !old(self).pane_ids().contains(r->Some_0)
                &&& final(self).pane_ids() == old(self).pane_ids().push(r->Some_0)
                &&& final(self).panes() == old(self).panes().push(editor)
            },
            r is None ==> {
                &&& final(self).pane_ids() == old(self).pane_ids()
                &&& final(self).panes() == old(self).panes()
            },
            old(self).pane_ids().len() == 0 ==> r is Some,
            final(self).focus() == old(self).focus(),
            final(self).drag_target() == old(self).drag_target(),
            final(self).prompt_has_focus() == old(self).prompt_has_focus(),
            final(self).combo_released() == old(self).combo_released(),
            final(self).command_line() == old(self).command_line(),
    {
        let id = fresh_id();
        if self.add_pane(id, editor) {
            Some(id)
        } else {
            None
        }
    }

    /// Applies one message: focus, drag target and latch are set, an edit,
    /// scroll or window move goes to the pane it names (a pan with no drag
    /// target moves every pane), the prompt takes its edits and gives up its
    /// focus when a command is submitted. A message naming no pane changes no
    /// pane.
    pub fn update(&mut self, m: Message) -> (r: Effect)
        requires
            old(self).wf(),
        ensures
            final(self).wf(),
            !submits_close(old(self).command_line().content(), m) ==> {
                &&& final(self).pane_ids() == old(self).pane_ids()
                &&& forall|i: int|
                    0 <= i < old(self).panes().len() ==> pane_step(
                        #[trigger] old(self).panes()[i],
                        final(self).panes()[i],
                        old(self).pane_ids()[i],
                        old(self).drag_target(),
                        m,
                    )
                &&& final(self).focus() == match m {
                    Message::Focus(f) => f,
                    _ => old(self).focus(),
                }
                &&& final(self).drag_target() == match m {
                    Message::MoveTarget(t) => t,
                    _ => old(self).drag_target(),
                }
            },
            submits_close(old(self).command_line().content(), m) ==> focused_closed(
                *old(self),
                *final(self),
            ),
            final(self).combo_released() == (match m {
                Message::FocusPrompt(_) => false,
                Message::KeyComboDone => true,
                _ => old(self).combo_released(),
            }),
            final(self).prompt_has_focus() == (match m {
                Message::FocusPrompt(f) => if old(self).combo_released() {
                    f
                } else {
                    old(self).prompt_has_focus()
                },
                Message::PromptEdit(e) => e != EditorMessage::Char(CARRIAGE_RETURN)
                    && old(self).prompt_has_focus(),
                _ => old(self).prompt_has_focus(),
            }),
            match m {
                Message::PromptEdit(e) => if e == EditorMessage::Char(CARRIAGE_RETURN) {
                    &&& final(self).command_line().content() == Seq::<char>::empty()
                    &&& final(self).command_line().caret() == 0
                } else {
                    (final(self).command_line().content(), final(self).command_line().caret())
                        == prompt_edited(
                        old(self).command_line().content(),
                        old(self).command_line().caret(),
                        e,
                    )
                },
                _ => final(self).command_line() == old(self).command_line(),
            },
            match m {
                Message::Edit(t, e) => if old(self).pane_ids().contains(t) && edits_content(e) {
                    r == Effect::Rehighlight(t)
                } else {
                    r is Done
                },
                Message::PromptEdit(e) => if e == EditorMessage::Char(CARRIAGE_RETURN) {
                    &&& r is Command
                    &&& command_of(old(self).command_line().content(), r->Command_0)
                } else {
                    r is Done
                },
                _ => r is Done,
            },
            final(self).palette() == old(self).palette(),
    {
        match m {
            Message::Focus(f) => {
                self.focused = f;
                Effect::Done
            },
            Message::Edit(t, e) => {
                match self.index_of(t) {
                    Some(i) => {
                        let ghost before = self.panes();
                        let ghost s0 = self.store@;
                        assert(before[i as int].wf());
                        let mut pane = self.take_pane(i);
                        let changed = pane.update(e);
                        let ghost changed_pane = pane;
                        self.put_pane(i, pane);
                        proof {
                            lemma_replace(self.ids@, s0, i as int, changed_pane);
                            assert forall|j: int| 0 <= j < self.panes().len() implies #[trigger] self.panes()[j].wf() by {
                                if j != i {
                                    assert(self.panes()[j] == before[j]);
                                }
                            }
                            assert forall|j: int| 0 <= j < before.len() implies pane_step(
                                #[trigger] before[j],
                                self.panes()[j],
                                self.ids@[j],
                                self.move_target,
                                m,
                            ) by {
                                if j != i {
                                    assert(self.ids@[j] != t);
                                }
                            }
                        }
                        if changed {
                            Effect::Rehighlight(t)
                        } else {
                            Effect::Done
                        }
                    },
                    None => Effect::Done,
                }
            },
            Message::Scroll(t, d) => {
                match self.index_of(t) {
                    Some(i) => {
                        let ghost before = self.panes();
                        let ghost s0 = self.store@;
                        assert(before[i as int].wf());
                        let mut pane = self.take_pane(i);
                        pane.scroll(d);
                        let ghost changed_pane = pane;
                        self.put_pane(i, pane);
                        proof {
                            lemma_replace(self.ids@, s0, i as int, changed_pane);
                            assert forall|j: int| 0 <= j < self.panes().len() implies #[trigger] self.panes()[j].wf() by {
                                if j != i {
                                    assert(self.panes()[j] == before[j]);
                                }
                            }
                            assert forall|j: int| 0 <= j < before.len() implies pane_step(
                                #[trigger] before[j],
                                self.panes()[j],
                                self.ids@[j],
                                self.move_target,
                                m,
                            ) by {
                                if j != i {
                                    assert(self.ids@[j] != t);
                                }
                            }
                        }
                    },
                    None => {},
                }
                Effect::Done
            },
            Message::Pan(d) => {
                match self.move_target {
                    Some(t) => {
                        match self.index_of(t) {
                            Some(i) => {
                                let ghost before = self.panes();
                                let ghost s0 = self.store@;
                                assert(before[i as int].wf());
                                let mut pane = self.take_pane(i);
                                pane.move_window(d);
                                let ghost changed_pane = pane;
                                self.put_pane(i, pane);
                                proof {
                                    lemma_replace(self.ids@, s0, i as int, changed_pane);
                                    assert forall|j: int| 0 <= j < self.panes().len() implies #[trigger] self.panes()[j].wf() by {
                                        if j != i {
                                            assert(self.panes()[j] == before[j]);
                                        }
                                    }
                                    assert forall|j: int| 0 <= j < before.len() implies pane_step(
                                        #[trigger] before[j],
                                        self.panes()[j],
                                        self.ids@[j],
                                        self.move_target,
                                        m,
                                    ) by {
                                        if j != i {
                                            assert(self.ids@[j] != t);
                                        }
                                    }
                                }
                            },
                            None => {},
                        }
                    },
                    None => self.pan(d),
                }
                Effect::Done
            },
            Message::MoveTarget(t) => {
                self.move_target = t;
                Effect::Done
            },
            Message::FocusPrompt(f) => {
                if self.released {
                    self.prompt_focused = f;
                }
                self.released = false;
                Effect::Done
            },
            Message::KeyComboDone => {
                self.released = true;
                Effect::Done
            },
            Message::PromptEdit(e) => {
                let ghost text = self.prompt.content();
                match self.prompt.update(e) {
                    Some(u) => {
                        self.prompt_focused = false;
                        proof {
                            lemma_close_command(text, u);
                        }
                        match u {
                            PromptUpdate::CloseActiveFile => {
                                self.close_focused();
                            },
                            _ => {},
                        }
                        Effect::Command(u)
                    },
                    None => Effect::Done,
                }
            },
        }
    }

    /// Moves every pane's window by `delta`.
    fn pan(&mut self, delta: Offset)
        requires
            old(self).wf(),
        ensures
            final(self).wf(),
            final(self).pane_ids() == old(self).pane_ids(),
            final(self).panes().len() == old(self).panes().len(),
            forall|i: int|
                0 <= i < old(self).panes().len() ==> moved_by(
                    #[trigger] old(self).panes()[i],
                    final(self).panes()[i],
                    delta,
                ),
            final(self).focus() == old(self).focus(),
            final(self).drag_target() == old(self).drag_target(),
            final(self).prompt_has_focus() == old(self).prompt_has_focus(),
            final(self).combo_released() == old(self).combo_released(),
            final(self).command_line() == old(self).command_line(),
            final(self).palette() == old(self).palette(),
    {
        let ghost start = self.panes();
        let mut i: usize = 0;
        while i < self.ids.len()
            invariant
                0 <= i <= self.ids@.len(),
                self.ids@.len() == start.len(),
                self.ids@ == old(self).ids@,
                start == old(self).panes(),
                distinct(self.ids@),
                keyed_by(self.ids@, self.store@),
                self.focused == old(self).focused,
                self.move_target == old(self).move_target,
                self.prompt_focused == old(self).prompt_focused,
                self.released == old(self).released,
                self.prompt == old(self).prompt,
                self.theme == old(self).theme,
                self.command_line().wf(),
                forall|j: int| 0 <= j < start.len() ==> #[trigger] start[j].wf(),
                forall|j: int| 0 <= j < i ==> moved_by(start[j], #[trigger] self.panes()[j], delta),
                forall|j: int| i <= j < start.len() ==> #[trigger] self.panes()[j] == start[j],
            decreases start.len() - i,
        {
            let ghost before = self.panes();
            let ghost s0 = self.store@;
            assert(before[i as int] == start[i as int]);
            let mut pane = self.take_pane(i);
            pane.move_window(delta);
            let ghost changed_pane = pane;
            self.put_pane(i, pane);
            proof {
                lemma_replace(self.ids@, s0, i as int, changed_pane);
                assert(self.panes() == before.update(i as int, changed_pane));
            }
            i = i + 1;
        }
        assert forall|j: int| 0 <= j < self.panes().len() implies #[trigger] self.panes()[j].wf() by {
            assert(moved_by(start[j], self.panes()[j], delta));
        }
    }

    /// Closes the focused pane, if there is one, and returns its identifier;
    /// focus is cleared, and so is the drag target if it was that pane.
    pub fn close_focused(&mut self) -> (r: Option<u128>)
        requires
            old(self).wf(),
        ensures
            final(self).wf(),
            r == focused_pane(*old(self)),
            focused_closed(*old(self), *final(self)),
            final(self).prompt_has_focus() == old(self).prompt_has_focus(),
            final(self).combo_released() == old(self).combo_released(),
            final(self).command_line() == old(self).command_line(),
            final(self).palette() == old(self).palette(),
    {
        let ghost ids0 = self.ids@;
        let ghost eds0 = self.panes();
        let ghost s0 = self.store@;
        match self.focused {
            Some(f) => {
                self.focused = None;
                match self.index_of(f) {
                    Some(i) => {
                        proof {
                            assert(ids0.index_of(f) == i) by {
                                assert(ids0[i as int] == f);
                                assert(ids0.contains(f));
                                assert(ids0[ids0.index_of(f)] == f);
                            }
                        }
                        self.ids.remove(i);
                        self.store.remove(&f);
                        if self.move_target == Some(f) {
                            self.move_target = None;
                        }
                        proof {
                            assert forall|a: int, b: int| 0 <= a < self.ids@.len() && 0 <= b < self.ids@.len() && a != b implies self.ids@[a] != self.ids@[b] by {
                                let a0 = if a < i { a } else { a + 1 };
                                let b0 = if b < i { b } else { b + 1 };
                                assert(self.ids@[a] == ids0[a0]);
                                assert(self.ids@[b] == ids0[b0]);
                            }
                            assert forall|j: int| 0 <= j < self.ids@.len() implies #[trigger] self.panes()[j] == eds0.remove(i as int)[j] by {
                                let j0 = if j < i { j } else { j + 1 };
                                assert(self.ids@[j] == ids0[j0]);
                                assert(ids0[j0] != f);
                            }
                            assert(self.panes() =~= eds0.remove(i as int));
                            assert forall|j: int| 0 <= j < self.panes().len() implies #[trigger] self.panes()[j].wf() by {
                                let j0 = if j < i { j } else { j + 1 };
                                assert(self.panes()[j] == eds0[j0]);
                            }
                            assert forall|j: int| 0 <= j < self.ids@.len() implies self.store@.contains_key(#[trigger] self.ids@[j]) by {
                                let j0 = if j < i { j } else { j + 1 };
                                assert(self.ids@[j] == ids0[j0]);
                                assert(ids0[j0] != f);
                            }
                            assert forall|k: u128| #[trigger] self.store@.contains_key(k) implies self.ids@.contains(k) by {
                                assert(s0.contains_key(k));
                                let j0 = choose|j0: int| 0 <= j0 < ids0.len() && ids0[j0] == k;
                                assert(j0 != i);
                                let j = if j0 < i { j0 } else { j0 - 1 };
                                assert(self.ids@[j] == k);
                            }
                        }
                        Some(f)
                    },
                    None => None,
                }
            },
            None => None,
        }
    }

    /// Replaces the colours of pane `id` with those derived from a
    /// highlighter's events over its text, the theme's text colour being the
    /// default; with no events it has none. No pane has `id`: nothing changes.
    pub fn set_highlights(&mut self, id: u128, events: Option<Vec<HighlightEvent>>)
        requires
            old(self).wf(),
        ensures
            final(self).wf(),
            final(self).pane_ids() == old(self).pane_ids(),
            final(self).panes().len() == old(self).panes().len(),
            forall|i: int|
                0 <= i < old(self).panes().len() && old(self).pane_ids()[i] != id
                    ==> #[trigger] final(self).panes()[i] == old(self).panes()[i],
            forall|i: int|
                0 <= i < old(self).panes().len() && old(self).pane_ids()[i] == id ==> {
                    let (a, b) = (old(self).panes()[i], #[trigger] final(self).panes()[i]);
                    &&& b.spans() == match events {
                        Some(e) => crate::highlight::spans_of(
                            crate::buffer::joined(a.text()),
                            e@,
                            old(self).palette().text,
                        ),
                        None => Seq::<ColorSpan>::empty(),
                    }
                    &&& b.text() == a.text()
                    &&& b.pos() == a.pos()
                    &&& b.scroll_offset() == a.scroll_offset()
                    &&& b.frame() == a.frame()
                    &&& b.line_height() == a.line_height()
                    &&& b.title() == a.title()
                },
            final(self).focus() == old(self).focus(),
            final(self).drag_target() == old(self).drag_target(),
            final(self).prompt_has_focus() == old(self).prompt_has_focus(),
            final(self).combo_released() == old(self).combo_released(),
            final(self).command_line() == old(self).command_line(),
            final(self).palette() == old(self).palette(),
    {
        match self.index_of(id) {
            Some(i) => {
                let ghost before = self.panes();
                let ghost s0 = self.store@;
                assert(before[i as int].wf());
                let default = self.theme.text;
                let mut pane = self.take_pane(i);
                pane.set_highlights(events, default);
                let ghost changed_pane = pane;
                self.put_pane(i, pane);
                proof {
                    lemma_replace(self.ids@, s0, i as int, changed_pane);
                    assert forall|j: int| 0 <= j < self.panes().len() implies #[trigger] self.panes()[j].wf() by {
                        if j != i {
                            assert(self.panes()[j] == before[j]);
                        }
                    }
                }
            },
            None => {},
        }
    }

    pub fn pane_count(&self) -> (r: usize)
        requires
            self.wf(),
        ensures
            r == self.panes().len(),
    {
        self.ids.len()
    }

    pub fn pane_id(&self, i: usize) -> (r: u128)
        requires
            self.wf(),
            i < self.panes().len(),
        ensures
            r == self.pane_ids()[i as int],
    {
        self.ids[i]
    }

    pub fn pane(&self, i: usize) -> (r: &Editor)
        requires
            self.wf(),
            i < self.panes().len(),
        ensures
            *r == self.panes()[i as int],
    {
        let id = self.ids[i];
        assert(self.store@.contains_key(self.ids@[i as int]));
        self.store.get(&id).unwrap()
    }

    pub fn focused(&self) -> (r: Option<u128>)
        ensures
            r == self.focus(),
    {
        self.focused
    }

    pub fn move_target(&self) -> (r: Option<u128>)
        ensures
            r == self.drag_target(),
    {
        self.move_target
    }

    pub fn prompt_focused(&self) -> (r: bool)
        ensures
            r == self.prompt_has_focus(),
    {
        self.prompt_focused
    }

    pub fn prompt(&self) -> (r: &Prompt)
        ensures
            *r == self.command_line(),
    {
        &self.prompt
    }

    pub fn theme(&self) -> (r: &Theme)
        ensures
            *r == self.palette(),
    {
        &self.theme
    }
}

impl Default for App {
    /// Two empty panes side by side, nothing focused, the prompt closed.
    fn default() -> (r: App)
        ensures
            r.wf(),
            r.pane_ids().len() == 2,
            r.panes()[0].frame() == (Rect { x: 500, y: 20, w: 400, h: 400 }),
            r.panes()[1].frame() == (Rect { x: 20, y: 20, w: 400, h: 400 }),
            forall|i: int|
                0 <= i < 2 ==> {
                    &&& (#[trigger] r.panes()[i]).text() == seq![Seq::<char>::empty()]
                    &&& r.panes()[i].line_height() == 16
                    &&& r.panes()[i].spans() == Seq::<ColorSpan>::empty()
                },
            r.focus() is None,
            r.drag_target() is None,
            !r.prompt_has_focus(),
            r.combo_released(),
            r.command_line().content() == Seq::<char>::empty(),
    {
        let first = fresh_id();
        let mut second = fresh_id();
        if second == first {
            second = if first == u128::MAX {
                0
            } else {
                first + 1
            };
        }
        let mut ids: Vec<u128> = Vec::new();
        ids.push(first);
        ids.push(second);
        let mut store: HashMap<u128, Editor> = HashMap::new();
        let right = Editor::new(Rect::new(500, 20, 400, 400), 16, String::new());
        let left = Editor::new(Rect::new(20, 20, 400, 400), 16, String::new());
        store.insert(first, right);
        store.insert(second, left);
        let r = App {
            theme: Theme::mocha(),
            ids,
            store,
            focused: None,
            move_target: None,
            prompt_focused: false,
            released: true,
            prompt: Prompt::new(),
        };
        assert(r.pane_ids()[0] != r.pane_ids()[1]);
        r
    }
}

impl App {
    /// Identifier of the first pane, in order, that the pointer is over.
    fn pane_under(&self, x: i64, y: i64, titles_only: bool) -> (r: Option<u128>)
        requires
            self.wf(),
        ensures
            r == first_over(self.pane_ids(), self.panes(), x as int, y as int, titles_only),
    {
        let ghost eds = self.panes();
        let mut i: usize = 0;
        assert(self.ids@.skip(0) =~= self.ids@);
        assert(eds.skip(0) =~= eds);
        while i < self.ids.len()
            invariant
                0 <= i <= self.ids@.len(),
                self.wf(),
                eds == self.panes(),
                self.ids@.len() == eds.len(),
                first_over(self.ids@, eds, x as int, y as int, titles_only) == first_over(
                    self.ids@.skip(i as int),
                    eds.skip(i as int),
                    x as int,
                    y as int,
                    titles_only,
                ),
            decreases eds.len() - i,
        {
            let e = self.pane(i);
            let bar = e.titlebar();
            let hit = bar.contains(x, y) || (!titles_only && e.window().contains(x, y));
            assert(eds.skip(i as int)[0] == eds[i as int]);
            assert(self.ids@.skip(i as int)[0] == self.ids@[i as int]);
            if hit {
                return Some(self.ids[i]);
            }
            assert(self.ids@.skip(i as int).drop_first() =~= self.ids@.skip(i + 1));
            assert(eds.skip(i as int).drop_first() =~= eds.skip(i + 1));
            i = i + 1;
        }
        None
    }

    /// Appends the events, in order, addressed to `target`.
    fn push_events(out: &mut Vec<Message>, target: Option<u128>, events: &Vec<EditorMessage>)
        ensures
            final(out)@ == old(out)@ + addressed(target, events@),
    {
        let ghost base = out@;
        let mut i: usize = 0;
        assert(addressed(target, events@.take(0)) =~= Seq::<Message>::empty());
        while i < events.len()
            invariant
                0 <= i <= events@.len(),
                out@ == base + addressed(target, events@.take(i as int)),
            decreases events@.len() - i,
        {
            let e = events[i];
            let m = match target {
                Some(id) => Message::Edit(id, e),
                None => Message::PromptEdit(e),
            };
            out.push(m);
            proof {
                assert(events@.take(i + 1) =~= events@.take(i as int).push(e));
                lemma_addressed_push(target, events@.take(i as int), e);
                lemma_push_after_concat(base, addressed(target, events@.take(i as int)), m);
            }
            i = i + 1;
        }
        assert(events@.take(i as int) =~= events@);
    }

    /// The messages for one frame of input, in the order they are to be
    /// applied.
    pub fn handle_input(&self, input: &FrameInput) -> (r: Vec<Message>)
        requires
            self.wf(),
        ensures
            r@ == routed(
                self.pane_ids(),
                self.panes(),
                self.focus(),
                self.drag_target(),
                self.prompt_has_focus(),
                self.combo_released(),
                *input,
            ),
    {
        let mut out: Vec<Message> = Vec::new();
        let held = input.combo_held;
        let toggles = held && self.released;
        if toggles {
            out.push(Message::FocusPrompt(!self.prompt_focused));
            if !self.prompt_focused {
                return out;
            }
        } else if !held && !self.released {
            out.push(Message::KeyComboDone);
        }
        let ghost head = out@;
        let prompt_now = if toggles {
            !self.prompt_focused
        } else {
            self.prompt_focused
        };
        if prompt_now {
            App::push_events(&mut out, None, &input.events);
            return out;
        }
        let hovered = self.pane_under(input.mouse_x, input.mouse_y, false);
        if input.left_pressed {
            out.push(Message::Focus(hovered));
        }
        let ghost after_focus = out@;
        if let Some(h) = hovered {
            if input.wheel != 0 {
                out.push(Message::Scroll(h, Offset::new(0, input.wheel)));
            }
        }
        let ghost after_scroll = out@;
        let dragging = input.left_down && (input.drag.x != 0 || input.drag.y != 0);
        if dragging {
            out.push(Message::Pan(input.drag));
        } else {
            let title = self.pane_under(input.mouse_x, input.mouse_y, true);
            if self.move_target != title {
                out.push(Message::MoveTarget(title));
            }
        }
        let ghost after_drag = out@;
        let focus_now = if input.left_pressed {
            hovered
        } else {
            self.focused
        };
        if focus_now.is_some() && !dragging {
            App::push_events(&mut out, focus_now, &input.events);
        }
        proof {
            let pm = pane_messages(self.ids@, self.panes(), self.focused, self.move_target, *input);
            assert(out@ =~= head + pm);
        }
        out
    }
}

} // verus!
