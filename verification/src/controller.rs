//! Keybinding-driven control dispatch: a table built once from the
//! configuration maps single characters to session operations, and a
//! human-readable summary of the bindings is rendered for display.
//!
//! Duplicate key assignments are resolved deterministically: the last
//! registered control wins, as a hash table filled in registration order
//! would resolve them.

use crate::config::{Config, Keybindings};
use crate::pomodoro::Session;
use crate::text::{lex_le, push_char, seq_views, sort_strings, spec_insert_sorted, spec_sort};
use vstd::prelude::*;
use vstd::string::StringExecFns;

verus! {

/// The four session operations a key can be bound to.
#[derive(Clone, Copy, PartialEq, Eq, Structural, Debug)]
pub enum Action {
    Pause,
    Quit,
    Reset,
    Skip,
}

/// One keybinding: a display name, the bound character, and the operation
/// it triggers.
pub struct Control {
    pub name: String,
    pub binding: char,
    pub action: Action,
}

/// The dispatch table and the pre-rendered binding summary.
pub struct Controller {
    pub bindings: Vec<Control>,
    pub description: String,
}

/// A key press as the control loop sees it: a printable character, or
/// anything else, which dispatch ignores.
#[derive(Clone, Copy, PartialEq, Eq, Structural, Debug)]
pub enum Key {
    Char(char),
    Other,
}

/// One item of the host's input stream: a key press, or a timer tick with
/// no key attached.
#[derive(Clone, Copy, PartialEq, Eq, Structural, Debug)]
pub enum Event {
    Input(Key),
    Tick,
}

/// The display name of each operation.
pub open spec fn spec_action_name(a: Action) -> Seq<char> {
    match a {
        Action::Pause => "Pause"@,
        Action::Quit => "Quit"@,
        Action::Reset => "Reset"@,
        Action::Skip => "Skip"@,
    }
}

/// The operation bound to `ch` under `kb`, with duplicates resolved in
/// favour of the last registered control (skip over reset over quit over
/// pause).
pub open spec fn spec_bound_action(kb: Keybindings, ch: char) -> Option<Action> {
    if ch == kb.skip {
        Some(Action::Skip)
    } else if ch == kb.reset {
        Some(Action::Reset)
    } else if ch == kb.quit {
        Some(Action::Quit)
    } else if ch == kb.pause {
        Some(Action::Pause)
    } else {
        None
    }
}

/// The operation a table of controls dispatches `ch` to: the action of the
/// last control whose binding is `ch`, if any.
pub open spec fn spec_lookup(controls: Seq<Control>, ch: char) -> Option<Action>
    decreases controls.len(),
{
    if controls.len() == 0 {
        None
    } else if spec_lookup(controls.drop_first(), ch) is Some {
        spec_lookup(controls.drop_first(), ch)
    } else if controls[0].binding == ch {
        Some(controls[0].action)
    } else {
        None
    }
}

/// Whether some control in the table binds `ch`.
pub open spec fn spec_has_binding(controls: Seq<Control>, ch: char) -> bool
    decreases controls.len(),
{
    if controls.len() == 0 {
        false
    } else {
        controls[0].binding == ch || spec_has_binding(controls.drop_first(), ch)
    }
}

/// The table with duplicate bindings resolved: a control survives exactly
/// when no later control binds the same character, and the survivors keep
/// their relative order.
pub open spec fn spec_dedup(controls: Seq<Control>) -> Seq<Control>
    decreases controls.len(),
{
    if controls.len() == 0 {
        Seq::empty()
    } else if spec_has_binding(controls.drop_first(), controls[0].binding) {
        spec_dedup(controls.drop_first())
    } else {
        seq![controls[0]] + spec_dedup(controls.drop_first())
    }
}

/// A binding is present exactly when lookup finds an action for it.
proof fn lemma_has_binding_iff_lookup_some(s: Seq<Control>, ch: char)
    ensures
        spec_has_binding(s, ch) == (spec_lookup(s, ch) is Some),
    decreases s.len(),
{
    if s.len() > 0 {
        lemma_has_binding_iff_lookup_some(s.drop_first(), ch);
    }
}

/// Resolving duplicates never changes what any character dispatches to.
proof fn lemma_dedup_preserves_lookup(s: Seq<Control>, ch: char)
    ensures
        spec_lookup(spec_dedup(s), ch) == spec_lookup(s, ch),
    decreases s.len(),
{
    if s.len() > 0 {
        let rest = s.drop_first();
        lemma_dedup_preserves_lookup(rest, ch);
        if spec_has_binding(rest, s[0].binding) {
            if s[0].binding == ch {
                lemma_has_binding_iff_lookup_some(rest, ch);
            }
        } else {
            let d = spec_dedup(rest);
            assert((seq![s[0]] + d).drop_first() =~= d);
            assert((seq![s[0]] + d)[0] == s[0]);
        }
    }
}

/// Every control in the resolved table occurs in the original one.
proof fn lemma_dedup_members(s: Seq<Control>, k: int)
    requires
        0 <= k < spec_dedup(s).len(),
    ensures
        s.contains(spec_dedup(s)[k]),
    decreases s.len(),
{
    let rest = s.drop_first();
    if spec_has_binding(rest, s[0].binding) {
        lemma_dedup_members(rest, k);
        let j = choose|j: int| 0 <= j < rest.len() && rest[j] == spec_dedup(s)[k];
        assert(s[j + 1] == spec_dedup(s)[k]);
    } else {
        let d = spec_dedup(rest);
        if k == 0 {
            assert((seq![s[0]] + d)[0] == s[0]);
            assert(s[0] == spec_dedup(s)[k]);
        } else {
            assert((seq![s[0]] + d)[k] == d[k - 1]);
            lemma_dedup_members(rest, k - 1);
            let j = choose|j: int| 0 <= j < rest.len() && rest[j] == d[k - 1];
            assert(s[j + 1] == spec_dedup(s)[k]);
        }
    }
}

/// A character bound somewhere in the resolved table is bound in the
/// original table, and the other way round.
proof fn lemma_dedup_preserves_has_binding(s: Seq<Control>, ch: char)
    ensures
        spec_has_binding(spec_dedup(s), ch) == spec_has_binding(s, ch),
    decreases s.len(),
{
    lemma_has_binding_iff_lookup_some(spec_dedup(s), ch);
    lemma_has_binding_iff_lookup_some(s, ch);
    lemma_dedup_preserves_lookup(s, ch);
}

/// The resolved table binds each character at most once.
proof fn lemma_dedup_unique(s: Seq<Control>)
    ensures
        forall|i: int, j: int|
            0 <= i < j < spec_dedup(s).len()
                ==> spec_dedup(s)[i].binding != spec_dedup(s)[j].binding,
    decreases s.len(),
{
    if s.len() > 0 {
        let rest = s.drop_first();
        lemma_dedup_unique(rest);
        if !spec_has_binding(rest, s[0].binding) {
            let d = spec_dedup(rest);
            lemma_dedup_preserves_has_binding(rest, s[0].binding);
            assert forall|i: int, j: int|
                0 <= i < j < spec_dedup(s).len() implies spec_dedup(s)[i].binding
                != spec_dedup(s)[j].binding by {
                assert(spec_dedup(s) == seq![s[0]] + d);
                if i == 0 {
                    assert(spec_dedup(s)[j] == d[j - 1]);
                    if d[j - 1].binding == s[0].binding {
                        lemma_has_binding_of_index(d, j - 1);
                    }
                } else {
                    assert(spec_dedup(s)[i] == d[i - 1]);
                    assert(spec_dedup(s)[j] == d[j - 1]);
                }
            }
        }
    }
}

/// A control at any index witnesses that its binding is present.
proof fn lemma_has_binding_of_index(s: Seq<Control>, i: int)
    requires
        0 <= i < s.len(),
    ensures
        spec_has_binding(s, s[i].binding),
    decreases i,
{
    if i > 0 {
        lemma_has_binding_of_index(s.drop_first(), i - 1);
    }
}

/// The session after `a` is dispatched to it at wall-clock reading `now`.
pub open spec fn spec_apply_action(a: Action, s: Session, now: u128) -> Session {
    match a {
        Action::Pause => s.spec_toggle_pause(),
        Action::Quit => s.spec_quit(),
        Action::Reset => s.spec_reset(now),
        Action::Skip => s.spec_skip(now),
    }
}

/// The session after the key `input` is dispatched through `controls`:
/// unchanged unless `input` is a character some control binds.
pub open spec fn spec_dispatch(
    controls: Seq<Control>,
    input: Key,
    s: Session,
    now: u128,
) -> Session {
    match input {
        Key::Char(ch) => match spec_lookup(controls, ch) {
            Some(a) => spec_apply_action(a, s, now),
            None => s,
        },
        Key::Other => s,
    }
}

/// Toggle the session's paused state.
pub fn pause_function(session: &mut Session)
    ensures
        *final(session) == old(session).spec_toggle_pause(),
{
    session.toggle_pause();
}

/// Turn the session off for good.
pub fn quit_function(session: &mut Session)
    ensures
        *final(session) == old(session).spec_quit(),
{
    session.quit();
}

/// Re-arm the session's current phase from the start.
pub fn reset_function(session: &mut Session, now: u128)
    ensures
        *final(session) == old(session).spec_reset(now),
{
    session.reset(now);
}

/// Jump the session to the opposite phase.
pub fn skip_function(session: &mut Session, now: u128)
    ensures
        *final(session) == old(session).spec_skip(now),
{
    session.skip(now);
}

/// The summary parts, one per control: its name, a colon, its character.
pub open spec fn spec_parts(bindings: Seq<Control>) -> Seq<Seq<char>> {
    bindings.map_values(|c: Control| c.name@ + seq![':'] + seq![c.binding])
}

/// The parts joined with a comma and a space, in the given order.
pub open spec fn spec_join(parts: Seq<Seq<char>>) -> Seq<char>
    decreases parts.len(),
{
    if parts.len() == 0 {
        Seq::empty()
    } else if parts.len() == 1 {
        parts[0]
    } else {
        spec_join(parts.drop_last()) + ", "@ + parts.last()
    }
}

/// The binding summary: the parts sorted lexicographically, joined with
/// commas, after the prefix.
pub open spec fn spec_description(bindings: Seq<Control>) -> Seq<char> {
    if bindings.len() == 0 {
        "Controls"@
    } else {
        "Controls: "@ + spec_join(spec_sort(spec_parts(bindings)))
    }
}

impl Controller {
    /// Build the dispatch table and its summary from the configured
    /// bindings. The table realises exactly `spec_bound_action`: each
    /// character dispatches to the operation bound to it, with a duplicate
    /// assignment resolved in favour of the last registered control; each
    /// surviving control binds a distinct character and carries the display
    /// name of its operation, and the summary renders that table.
    pub fn new(config: &Config) -> (c: Controller)
        ensures
            forall|ch: char| #[trigger] spec_lookup(c.bindings@, ch)
                == spec_bound_action(config.keybindings, ch),
            forall|i: int, j: int|
                0 <= i < j < c.bindings@.len()
                    ==> c.bindings@[i].binding != c.bindings@[j].binding,
            forall|i: int| 0 <= i < c.bindings@.len()
                ==> (#[trigger] c.bindings@[i]).name@
                    == spec_action_name(c.bindings@[i].action),
            c.description@ == spec_description(c.bindings@),
    {
        let controls = Controller::get_controls(config);
        let ghost controls_view = controls@;
        let bindings = Controller::get_bindings(controls);
        let description = Controller::build_description(&bindings);
        proof {
            lemma_dedup_unique(controls_view);
            assert forall|ch: char| #[trigger] spec_lookup(bindings@, ch)
                == spec_bound_action(config.keybindings, ch) by {
                lemma_dedup_preserves_lookup(controls_view, ch);
                lemma_lookup_of_four(controls_view, config.keybindings, ch);
            }
            assert forall|i: int| 0 <= i < bindings@.len() implies (#[trigger] bindings@[i]).name@
                == spec_action_name(bindings@[i].action) by {
                lemma_dedup_members(controls_view, i);
                let j = choose|j: int|
                    0 <= j < controls_view.len() && controls_view[j] == bindings@[i];
                assert(controls_view[j].name@ == spec_action_name(controls_view[j].action));
            }
        }
        Controller { bindings: bindings, description: description }
    }

    /// The four controls in registration order: pause, quit, reset, skip,
    /// each with its display name and configured character.
    pub fn get_controls(config: &Config) -> (controls: Vec<Control>)
        ensures
            controls@.len() == 4,
            controls@[0].name@ == "Pause"@,
            controls@[0].binding == config.keybindings.pause,
            controls@[0].action == Action::Pause,
            controls@[1].name@ == "Quit"@,
            controls@[1].binding == config.keybindings.quit,
            controls@[1].action == Action::Quit,
            controls@[2].name@ == "Reset"@,
            controls@[2].binding == config.keybindings.reset,
            controls@[2].action == Action::Reset,
            controls@[3].name@ == "Skip"@,
            controls@[3].binding == config.keybindings.skip,
            controls@[3].action == Action::Skip,
            forall|i: int| 0 <= i < controls@.len()
                ==> (#[trigger] controls@[i]).name@
                    == spec_action_name(controls@[i].action),
    {
        let mut controls: Vec<Control> = Vec::new();
        controls.push(Control {
            name: String::from_str("Pause"),
            binding: config.keybindings.pause,
            action: Action::Pause,
        });
        controls.push(Control {
            name: String::from_str("Quit"),
            binding: config.keybindings.quit,
            action: Action::Quit,
        });
        controls.push(Control {
            name: String::from_str("Reset"),
            binding: config.keybindings.reset,
            action: Action::Reset,
        });
        controls.push(Control {
            name: String::from_str("Skip"),
            binding: config.keybindings.skip,
            action: Action::Skip,
        });
        controls
    }

    /// Whether some control in `controls` binds `ch`.
    fn contains_binding(controls: &Vec<Control>, ch: char) -> (r: bool)
        ensures
            r == spec_has_binding(controls@, ch),
    {
        let mut i: usize = 0;
        proof {
            assert(controls@.skip(0) =~= controls@);
        }
        while i < controls.len()
            invariant
                i <= controls@.len(),
                spec_has_binding(controls@, ch)
                    == spec_has_binding(controls@.skip(i as int), ch),
            decreases controls@.len() - i,
        {
            if controls[i].binding == ch {
                proof {
                    assert(controls@.skip(i as int)[0] == controls@[i as int]);
                }
                return true;
            }
            proof {
                assert(controls@.skip(i as int)[0] == controls@[i as int]);
                assert(controls@.skip(i as int).drop_first() =~= controls@.skip(i + 1));
            }
            i = i + 1;
        }
        false
    }

    /// Resolve duplicate bindings: keep each control only when no later one
    /// binds the same character, preserving the survivors' order.
    pub fn get_bindings(controls: Vec<Control>) -> (bindings: Vec<Control>)
        ensures
            bindings@ == spec_dedup(controls@),
    {
        let ghost orig = controls@;
        let mut remaining = controls;
        let mut bindings: Vec<Control> = Vec::new();
        proof {
            assert(orig.skip(orig.len() as int) =~= Seq::<Control>::empty());
        }
        while remaining.len() > 0
            invariant
                remaining@.len() <= orig.len(),
                remaining@ == orig.subrange(0, remaining@.len() as int),
                bindings@ == spec_dedup(orig.skip(remaining@.len() as int)),
            decreases remaining@.len(),
        {
            let ghost k = remaining@.len() as int;
            let c = remaining.pop().unwrap();
            proof {
                assert(c == orig[k - 1]);
                assert(remaining@ =~= orig.subrange(0, k - 1));
                let suffix = orig.skip(k - 1);
                assert(suffix[0] == orig[k - 1]);
                assert(suffix.drop_first() =~= orig.skip(k));
                lemma_dedup_preserves_has_binding(orig.skip(k), c.binding);
            }
            if Controller::contains_binding(&bindings, c.binding) {
            } else {
                let ghost before = bindings@;
                bindings.insert(0, c);
                proof {
                    assert(bindings@ =~= seq![c] + before);
                }
            }
        }
        proof {
            assert(orig.skip(0) =~= orig);
        }
        bindings
    }

    /// Dispatch one input event: a key press goes to `handle_key`, a bare
    /// tick leaves the session untouched.
    pub fn handle_input(&self, event: Event, session: &mut Session, now: u128)
        ensures
            *final(session) == (match event {
                Event::Input(input) => spec_dispatch(self.bindings@, input, *old(session), now),
                Event::Tick => *old(session),
            }),
    {
        match event {
            Event::Input(input) => {
                self.handle_key(input, session, now);
            },
            Event::Tick => {},
        }
    }

    /// Dispatch one key press: a character bound by the table triggers the
    /// bound operation (the last registered control wins); an unbound
    /// character, or a key that is not a character, leaves the session
    /// completely unchanged.
    pub fn handle_key(&self, input: Key, session: &mut Session, now: u128)
        ensures
            *final(session) == spec_dispatch(self.bindings@, input, *old(session), now),
    {
        match input {
            Key::Char(character) => {
                match self.find_action(character) {
                    Some(action) => match action {
                        Action::Pause => pause_function(session),
                        Action::Quit => quit_function(session),
                        Action::Reset => reset_function(session, now),
                        Action::Skip => skip_function(session, now),
                    },
                    None => {},
                }
            },
            Key::Other => {},
        }
    }

    /// The operation the table binds `ch` to, searching the last-registered
    /// controls first so a duplicate assignment resolves as registration
    /// order dictates.
    fn find_action(&self, ch: char) -> (r: Option<Action>)
        ensures
            r == spec_lookup(self.bindings@, ch),
    {
        let mut i: usize = self.bindings.len();
        proof {
            assert(self.bindings@.subrange(0, i as int) =~= self.bindings@);
        }
        while i > 0
            invariant
                i <= self.bindings@.len(),
                spec_lookup(self.bindings@, ch)
                    == spec_lookup(self.bindings@.subrange(0, i as int), ch),
            decreases i,
        {
            let c = &self.bindings[i - 1];
            proof {
                lemma_lookup_last(self.bindings@.subrange(0, i as int), ch);
                assert(self.bindings@.subrange(0, i as int).last()
                    == self.bindings@[i - 1]);
                assert(self.bindings@.subrange(0, i as int).drop_last()
                    =~= self.bindings@.subrange(0, i - 1));
            }
            if c.binding == ch {
                return Some(c.action);
            }
            i = i - 1;
        }
        proof {
            assert(self.bindings@.subrange(0, 0).len() == 0);
        }
        None
    }

    /// Render the binding summary: one `Name:key` part per control, sorted
    /// lexicographically, joined with commas after the `Controls: ` prefix
    /// (the bare word `Controls` for an empty table).
    pub fn build_description(bindings: &Vec<Control>) -> (r: String)
        ensures
            r@ == spec_description(bindings@),
    {
        let mut parts: Vec<String> = Vec::new();
        let mut idx: usize = 0;
        while idx < bindings.len()
            invariant
                idx <= bindings@.len(),
                parts@.len() == idx,
                forall|j: int| 0 <= j < idx
                    ==> (#[trigger] parts@[j])@ == spec_parts(bindings@)[j],
            decreases bindings@.len() - idx,
        {
            let c = &bindings[idx];
            let mut p = c.name.clone();
            push_char(&mut p, ':');
            push_char(&mut p, c.binding);
            parts.push(p);
            idx = idx + 1;
        }
        proof {
            assert(seq_views(parts@) =~= spec_parts(bindings@));
        }
        let sorted = sort_strings(parts);
        if sorted.len() == 0 {
            proof {
                assert(spec_sort(spec_parts(bindings@)).len() == spec_parts(bindings@).len())
                    by {
                    lemma_sort_len(spec_parts(bindings@));
                }
            }
            return String::from_str("Controls");
        }
        proof {
            assert(spec_sort(spec_parts(bindings@)).len() == spec_parts(bindings@).len()) by {
                lemma_sort_len(spec_parts(bindings@));
            }
        }
        let mut value = String::from_str("Controls: ");
        value.append(sorted[0].as_str());
        let ghost sorted_views = seq_views(sorted@);
        proof {
            assert(sorted_views.subrange(0, 1).len() == 1);
            assert(sorted_views.subrange(0, 1)[0] == sorted_views[0]);
            assert(spec_join(sorted_views.subrange(0, 1)) == sorted_views[0]);
            assert(sorted_views[0] == sorted@[0]@);
        }
        let mut k: usize = 1;
        while k < sorted.len()
            invariant
                1 <= k <= sorted@.len(),
                sorted_views == seq_views(sorted@),
                value@ == "Controls: "@ + spec_join(sorted_views.subrange(0, k as int)),
            decreases sorted@.len() - k,
        {
            value.append(", ");
            value.append(sorted[k].as_str());
            proof {
                let taken = sorted_views.subrange(0, k + 1);
                assert(taken.drop_last() =~= sorted_views.subrange(0, k as int));
                assert(taken.last() == sorted@[k as int]@);
                assert(spec_join(taken)
                    == spec_join(sorted_views.subrange(0, k as int)) + ", "@
                        + sorted@[k as int]@);
                assert(("Controls: "@ + spec_join(sorted_views.subrange(0, k as int)))
                    + ", "@ + sorted@[k as int]@
                    =~= "Controls: "@ + spec_join(taken));
            }
            k = k + 1;
        }
        proof {
            assert(sorted_views.subrange(0, sorted@.len() as int) =~= sorted_views);
        }
        value
    }

    /// The pre-rendered binding summary.
    pub fn get_description(&self) -> (r: String)
        ensures
            r == self.description,
    {
        self.description.clone()
    }
}

/// Sorting keeps the number of parts.
proof fn lemma_sort_len(s: Seq<Seq<char>>)
    ensures
        spec_sort(s).len() == s.len(),
    decreases s.len(),
{
    if s.len() > 0 {
        lemma_sort_len(s.drop_first());
        lemma_insert_sorted_len(s[0], spec_sort(s.drop_first()));
    }
}

/// Inserting one part grows the sequence by one.
proof fn lemma_insert_sorted_len(x: Seq<char>, s: Seq<Seq<char>>)
    ensures
        spec_insert_sorted(x, s).len() == s.len() + 1,
    decreases s.len(),
{
    if s.len() > 0 && !lex_le(x, s[0]) {
        lemma_insert_sorted_len(x, s.drop_first());
    }
}

/// Lookup reads the last control first: on a non-empty table it is the last
/// control's action when its binding matches, and otherwise the lookup in
/// the table without it.
proof fn lemma_lookup_last(s: Seq<Control>, ch: char)
    requires
        s.len() > 0,
    ensures
        spec_lookup(s, ch) == (if s.last().binding == ch {
            Some(s.last().action)
        } else {
            spec_lookup(s.drop_last(), ch)
        }),
    decreases s.len(),
{
    if s.len() == 1 {
        assert(s.drop_last().len() == 0);
    } else {
        let rest = s.drop_first();
        lemma_lookup_last(rest, ch);
        assert(rest.last() == s.last());
        assert(s.drop_last()[0] == s[0]);
        assert(s.drop_last().drop_first() =~= rest.drop_last());
        if s.last().binding != ch {
            lemma_has_binding_iff_lookup_some(rest.drop_last(), ch);
            lemma_has_binding_iff_lookup_some(rest, ch);
        }
    }
}

/// On the concrete four-control table, lookup realises exactly the
/// configured binding map.
proof fn lemma_lookup_of_four(controls: Seq<Control>, kb: Keybindings, ch: char)
    requires
        controls.len() == 4,
        controls[0].binding == kb.pause,
        controls[0].action == Action::Pause,
        controls[1].binding == kb.quit,
        controls[1].action == Action::Quit,
        controls[2].binding == kb.reset,
        controls[2].action == Action::Reset,
        controls[3].binding == kb.skip,
        controls[3].action == Action::Skip,
    ensures
        spec_lookup(controls, ch) == spec_bound_action(kb, ch),
{
    lemma_lookup_last(controls, ch);
    let s3 = controls.drop_last();
    lemma_lookup_last(s3, ch);
    let s2 = s3.drop_last();
    lemma_lookup_last(s2, ch);
    let s1 = s2.drop_last();
    lemma_lookup_last(s1, ch);
    assert(s1.drop_last().len() == 0);
}

} // verus!
