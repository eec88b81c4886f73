//! The modal edit session: which mode is active, which entries are
//! selected, and how each key press changes them and the parameter store.
use crate::config::Config;
use crate::mako_config::{known_key_table, known_keys, texts_view};
use crate::text::{
    contains_seq, contains_str, lower_of, lowercase, pop_char, push_char, str_eq, trim, trimmed,
};
use vstd::prelude::*;

verus! {

/// A key press, as far as the session tells keys apart.
#[derive(Clone, Copy, Debug, PartialEq, Eq, Structural)]
pub enum Key {
    Char(char),
    Enter,
    Esc,
    Backspace,
    Up,
    Down,
    Other,
}

/// The active mode, with the text typed so far.
#[derive(Debug)]
pub enum Mode {
    Normal,
    EditValue { idx: usize, input: String },
    AddKey { input: String },
    AddCustomKey { input: String },
    AddValue { key: String, input: String },
    ConfirmDelete { idx: usize },
}

/// What a `Mode` holds, with text as characters.
pub enum ModeView {
    Normal,
    EditValue { idx: usize, input: Seq<char> },
    AddKey { input: Seq<char> },
    AddCustomKey { input: Seq<char> },
    AddValue { key: Seq<char>, input: Seq<char> },
    ConfirmDelete { idx: usize },
}

impl View for Mode {
    type V = ModeView;

    open spec fn view(&self) -> ModeView {
        match self {
            Mode::Normal => ModeView::Normal,
            Mode::EditValue { idx, input } => ModeView::EditValue { idx: *idx, input: input@ },
            Mode::AddKey { input } => ModeView::AddKey { input: input@ },
            Mode::AddCustomKey { input } => ModeView::AddCustomKey { input: input@ },
            Mode::AddValue { key, input } => ModeView::AddValue { key: key@, input: input@ },
            Mode::ConfirmDelete { idx } => ModeView::ConfirmDelete { idx: *idx },
        }
    }
}

/// What the caller has to do after a key press. `Changed` asks it to save
/// the store, announce the change of `key` to `value`, and reload.
#[derive(Debug)]
pub enum Effect {
    Stay,
    Quit,
    Changed { key: String, value: String },
}

pub enum EffectView {
    Stay,
    Quit,
    Changed { key: Seq<char>, value: Seq<char> },
}

impl View for Effect {
    type V = EffectView;

    open spec fn view(&self) -> EffectView {
        match self {
            Effect::Stay => EffectView::Stay,
            Effect::Quit => EffectView::Quit,
            Effect::Changed { key, value } => EffectView::Changed { key: key@, value: value@ },
        }
    }
}

/// The session: the active mode, the selected entry of the store, and the
/// selected entry of the filtered list of known keys.
#[derive(Debug)]
pub struct Session {
    pub mode: Mode,
    pub selected: Option<usize>,
    pub key_selected: Option<usize>,
}

pub struct SessionView {
    pub mode: ModeView,
    pub selected: Option<usize>,
    pub key_selected: Option<usize>,
}

impl View for Session {
    type V = SessionView;

    open spec fn view(&self) -> SessionView {
        SessionView { mode: self.mode@, selected: self.selected, key_selected: self.key_selected }
    }
}

/// The typed text after a key press: backspace drops the last character, a
/// character is appended, anything else leaves it.
pub open spec fn edited(input: Seq<char>, key: Key) -> Seq<char> {
    match key {
        Key::Backspace => if input.len() > 0 {
            input.drop_last()
        } else {
            input
        },
        Key::Char(c) => input.push(c),
        _ => input,
    }
}

/// Whether a known key is shown for the lower-cased filter `f`, given its
/// lower-cased name and description.
pub open spec fn key_matches(f: Seq<char>, k: Seq<char>, d: Seq<char>) -> bool {
    f.len() == 0 || contains_seq(k, f) || contains_seq(d, f)
}

/// The names of the entries that the lower-cased filter `f` shows, in order.
pub open spec fn filter_entries(es: Seq<(Seq<char>, Seq<char>)>, f: Seq<char>) -> Seq<Seq<char>>
    decreases es.len(),
{
    if es.len() == 0 {
        Seq::empty()
    } else {
        let rest = filter_entries(es.drop_last(), f);
        if key_matches(f, lower_of(es.last().0), lower_of(es.last().1)) {
            rest.push(es.last().0)
        } else {
            rest
        }
    }
}

/// The known keys that the typed filter shows, matched without regard to
/// case against name or description.
pub open spec fn key_choices(input: Seq<char>) -> Seq<Seq<char>> {
    filter_entries(known_key_table(), lower_of(input))
}

/// One step forward in a list of `n` entries, wrapping at the end.
pub open spec fn next_index(i: Option<usize>, n: nat) -> Option<usize> {
    let j = match i {
        Some(j) => j as int,
        None => 0,
    };
    Some(((j + 1) % (n as int)) as usize)
}

/// One step back in a list of `n` entries, wrapping at the start.
pub open spec fn prev_index(i: Option<usize>, n: nat) -> Option<usize> {
    let j = match i {
        Some(j) => j as int,
        None => 0,
    };
    if j == 0 {
        Some((n - 1) as usize)
    } else {
        Some((j - 1) as usize)
    }
}

/// A selection brought into a list of `n` entries: none when the list is
/// empty, else the selected entry (the first when none was), moved to the
/// last entry when it lies past the end.
pub open spec fn clamp_index(i: Option<usize>, n: nat) -> Option<usize> {
    if n == 0 {
        None
    } else {
        match i {
            Some(j) => if j < n {
                Some(j)
            } else {
                Some((n - 1) as usize)
            },
            None => Some(0),
        }
    }
}

/// The session, the store and the effect after one key press. In `AddKey`
/// the key-list selection is first brought into the filtered list, and after
/// typing into the list that the new filter shows.
pub open spec fn step(s: SessionView, ps: Seq<(Seq<char>, Seq<char>)>, key: Key) -> (
    SessionView,
    Seq<(Seq<char>, Seq<char>)>,
    EffectView,
) {
    let normal = SessionView { mode: ModeView::Normal, ..s };
    match s.mode {
        ModeView::Normal => {
            if key == Key::Char('q') {
                (s, ps, EffectView::Quit)
            } else if key == Key::Down || key == Key::Char('j') {
                if ps.len() > 0 {
                    (SessionView { selected: next_index(s.selected, ps.len()), ..s }, ps, EffectView::Stay)
                } else {
                    (s, ps, EffectView::Stay)
                }
            } else if key == Key::Up || key == Key::Char('k') {
                if ps.len() > 0 {
                    (SessionView { selected: prev_index(s.selected, ps.len()), ..s }, ps, EffectView::Stay)
                } else {
                    (s, ps, EffectView::Stay)
                }
            } else if key == Key::Enter || key == Key::Char('e') {
                match s.selected {
                    Some(i) => (
                        SessionView {
                            mode: ModeView::EditValue { idx: i, input: ps[i as int].1 },
                            ..s
                        },
                        ps,
                        EffectView::Stay,
                    ),
                    None => (s, ps, EffectView::Stay),
                }
            } else if key == Key::Char('a') {
                (
                    SessionView { mode: ModeView::AddKey { input: Seq::empty() }, ..s },
                    ps,
                    EffectView::Stay,
                )
            } else if key == Key::Char('d') {
                match s.selected {
                    Some(i) => (
                        SessionView { mode: ModeView::ConfirmDelete { idx: i }, ..s },
                        ps,
                        EffectView::Stay,
                    ),
                    None => (s, ps, EffectView::Stay),
                }
            } else {
                (s, ps, EffectView::Stay)
            }
        },
        ModeView::EditValue { idx, input } => {
            if key == Key::Esc {
                (normal, ps, EffectView::Stay)
            } else if key == Key::Enter {
                if idx < ps.len() {
                    (
                        normal,
                        ps.update(idx as int, (ps[idx as int].0, input)),
                        EffectView::Changed { key: ps[idx as int].0, value: input },
                    )
                } else {
                    (normal, ps, EffectView::Stay)
                }
            } else {
                (
                    SessionView {
                        mode: ModeView::EditValue { idx, input: edited(input, key) },
                        ..s
                    },
                    ps,
                    EffectView::Stay,
                )
            }
        },
        ModeView::AddKey { input } => {
            let choices = key_choices(input);
            let sel = clamp_index(s.key_selected, choices.len());
            let here = SessionView { key_selected: sel, ..s };
            if key == Key::Esc {
                (SessionView { mode: ModeView::Normal, ..here }, ps, EffectView::Stay)
            } else if key == Key::Enter {
                match sel {
                    Some(i) => if choices[i as int] == "<custom>"@ {
                        (
                            SessionView {
                                mode: ModeView::AddCustomKey { input: Seq::empty() },
                                ..here
                            },
                            ps,
                            EffectView::Stay,
                        )
                    } else {
                        (
                            SessionView {
                                mode: ModeView::AddValue { key: choices[i as int], input: Seq::empty() },
                                ..here
                            },
                            ps,
                            EffectView::Stay,
                        )
                    },
                    None => (SessionView { mode: ModeView::Normal, ..here }, ps, EffectView::Stay),
                }
            } else if key == Key::Down || key == Key::Char('j') {
                if choices.len() > 0 {
                    (
                        SessionView { key_selected: next_index(sel, choices.len()), ..s },
                        ps,
                        EffectView::Stay,
                    )
                } else {
                    (here, ps, EffectView::Stay)
                }
            } else if key == Key::Up || key == Key::Char('k') {
                if choices.len() > 0 {
                    (
                        SessionView { key_selected: prev_index(sel, choices.len()), ..s },
                        ps,
                        EffectView::Stay,
                    )
                } else {
                    (here, ps, EffectView::Stay)
                }
            } else {
                let typed = edited(input, key);
                (
                    SessionView {
                        mode: ModeView::AddKey { input: typed },
                        key_selected: clamp_index(sel, key_choices(typed).len()),
                        ..s
                    },
                    ps,
                    EffectView::Stay,
                )
            }
        },
        ModeView::AddCustomKey { input } => {
            if key == Key::Esc {
                (normal, ps, EffectView::Stay)
            } else if key == Key::Enter {
                if trimmed(input).len() > 0 {
                    (
                        SessionView {
                            mode: ModeView::AddValue { key: trimmed(input), input: Seq::empty() },
                            ..s
                        },
                        ps,
                        EffectView::Stay,
                    )
                } else {
                    (normal, ps, EffectView::Stay)
                }
            } else {
                (
                    SessionView { mode: ModeView::AddCustomKey { input: edited(input, key) }, ..s },
                    ps,
                    EffectView::Stay,
                )
            }
        },
        ModeView::AddValue { key: k, input } => {
            if key == Key::Esc {
                (normal, ps, EffectView::Stay)
            } else if key == Key::Enter {
                if trimmed(k).len() > 0 {
                    (
                        SessionView {
                            mode: ModeView::Normal,
                            selected: Some(ps.len() as usize),
                            ..s
                        },
                        ps.push((k, input)),
                        EffectView::Changed { key: k, value: input },
                    )
                } else {
                    (normal, ps, EffectView::Stay)
                }
            } else {
                (
                    SessionView {
                        mode: ModeView::AddValue { key: k, input: edited(input, key) },
                        ..s
                    },
                    ps,
                    EffectView::Stay,
                )
            }
        },
        ModeView::ConfirmDelete { idx } => {
            if key == Key::Char('y') || key == Key::Char('Y') {
                if idx < ps.len() {
                    (
                        SessionView {
                            mode: ModeView::Normal,
                            selected: if ps.len() == 1 {
                                None
                            } else if idx == 0 {
                                Some(0)
                            } else {
                                Some((idx - 1) as usize)
                            },
                            ..s
                        },
                        ps.remove(idx as int),
                        EffectView::Changed { key: ps[idx as int].0, value: "<deleted>"@ },
                    )
                } else {
                    (normal, ps, EffectView::Stay)
                }
            } else if key == Key::Char('n') || key == Key::Char('N') || key == Key::Esc {
                (normal, ps, EffectView::Stay)
            } else {
                (s, ps, EffectView::Stay)
            }
        },
    }
}

proof fn lemma_filter_len(es: Seq<(Seq<char>, Seq<char>)>, f: Seq<char>)
    ensures
        filter_entries(es, f).len() <= es.len(),
    decreases es.len(),
{
    if es.len() > 0 {
        lemma_filter_len(es.drop_last(), f);
    }
}

/// Applies a key press to typed text.
pub fn edit_input(input: &mut String, key: Key)
    ensures
        final(input)@ == edited(old(input)@, key),
{
    match key {
        Key::Backspace => pop_char(input),
        Key::Char(c) => push_char(input, c),
        _ => {},
    }
}

/// Whether a known key is shown for a filter, all three already lower-cased.
pub fn key_matches_folded(f: &str, k: &str, d: &str) -> (r: bool)
    ensures
        r == key_matches(f@, k@, d@),
{
    f.is_empty() || contains_str(k, f) || contains_str(d, f)
}

/// The names of the known keys that the typed filter shows, in registry
/// order.
pub fn filtered_keys(input: &str) -> (r: Vec<&'static str>)
    ensures
        texts_view(r@) == key_choices(input@),
{
    let table = known_keys();
    let ghost t = known_key_table();
    let f = lowercase(input);
    let mut out: Vec<&'static str> = Vec::new();
    let mut i: usize = 0;
    while i < table.len()
        invariant
            i <= table@.len(),
            table@.len() == t.len(),
            forall|j: int|
                0 <= j < table@.len() ==> (#[trigger] table@[j]).0@ == t[j].0 && table@[j].1@
                    == t[j].1,
            f@ == lower_of(input@),
            texts_view(out@) == filter_entries(t.take(i as int), f@),
        decreases table@.len() - i,
    {
        let (k, d) = table[i];
        let kl = lowercase(k);
        let dl = lowercase(d);
        let ghost before = out@;
        assert(t.take(i + 1).drop_last() =~= t.take(i as int));
        assert(t.take(i + 1).last() == t[i as int]);
        if key_matches_folded(f.as_str(), kl.as_str(), dl.as_str()) {
            out.push(k);
            assert(texts_view(out@) =~= texts_view(before).push(k@));
        }
        i += 1;
    }
    assert(t.take(table@.len() as int) =~= t);
    out
}

/// Brings a selection into a list of `n` entries.
pub fn clamp(i: Option<usize>, n: usize) -> (r: Option<usize>)
    ensures
        r == clamp_index(i, n as nat),
{
    if n == 0 {
        None
    } else {
        match i {
            Some(j) => if j < n {
                Some(j)
            } else {
                Some(n - 1)
            },
            None => Some(0),
        }
    }
}

impl Session {
    /// Selections in range: the selected entry and the entry that the mode
    /// works on lie in a store of `n` entries, and the selected known key
    /// lies in the registry.
    pub open spec fn wf(&self, n: nat) -> bool {
        &&& (self.selected matches Some(i) ==> i < n)
        &&& (self.key_selected matches Some(i) ==> i < known_key_table().len())
        &&& match self.mode {
            Mode::EditValue { idx, .. } => idx < n,
            Mode::ConfirmDelete { idx } => idx < n,
            _ => true,
        }
    }

    /// A session in `Normal` mode with the first entry selected, if any.
    pub fn new(cfg: &Config) -> (r: Session)
        ensures
            r.wf(cfg@.len()),
            r@.mode == ModeView::Normal,
            r@.selected == (if cfg@.len() > 0 {
                Some(0usize)
            } else {
                None
            }),
            r@.key_selected == Some(0usize),
    {
        let selected = if cfg.params.len() > 0 {
            Some(0)
        } else {
            None
        };
        Session { mode: Mode::Normal, selected, key_selected: Some(0) }
    }

    /// Handles one key press: changes the mode and selections, and the store
    /// when an edit, addition or deletion is confirmed.
    pub fn handle_key(&mut self, cfg: &mut Config, key: Key) -> (r: Effect)
        requires
            old(self).wf(old(cfg)@.len()),
        ensures
            final(self).wf(final(cfg)@.len()),
            (final(self)@, final(cfg)@, r@) == step(old(self)@, old(cfg)@, key),
    {
        let ghost s0 = self@;
        let ghost ps = cfg@;
        proof {
            lemma_filter_len(known_key_table(), lower_of(Seq::empty()));
        }
        let mut mode = Mode::Normal;
        std::mem::swap(&mut mode, &mut self.mode);
        match mode {
            Mode::Normal => {
                let n = cfg.params.len();
                assert(n == ps.len());
                if key == Key::Char('q') {
                    self.mode = Mode::Normal;
                    Effect::Quit
                } else if key == Key::Down || key == Key::Char('j') {
                    if n > 0 {
                        let i = match self.selected {
                            Some(i) => i,
                            None => 0,
                        };
                        self.selected = Some((i + 1) % n);
                    }
                    self.mode = Mode::Normal;
                    Effect::Stay
                } else if key == Key::Up || key == Key::Char('k') {
                    if n > 0 {
                        let i = match self.selected {
                            Some(i) => i,
                            None => 0,
                        };
                        self.selected = Some(
                            if i == 0 {
                                n - 1
                            } else {
                                i - 1
                            },
                        );
                    }
                    self.mode = Mode::Normal;
                    Effect::Stay
                } else if key == Key::Enter || key == Key::Char('e') {
                    match self.selected {
                        Some(i) => {
                            assert(cfg@[i as int] == cfg.params@[i as int]@);
                            let input = cfg.params[i].value.clone();
                            self.mode = Mode::EditValue { idx: i, input };
                        },
                        None => {
                            self.mode = Mode::Normal;
                        },
                    }
                    Effect::Stay
                } else if key == Key::Char('a') {
                    self.mode = Mode::AddKey { input: String::new() };
                    Effect::Stay
                } else if key == Key::Char('d') {
                    match self.selected {
                        Some(i) => {
                            self.mode = Mode::ConfirmDelete { idx: i };
                        },
                        None => {
                            self.mode = Mode::Normal;
                        },
                    }
                    Effect::Stay
                } else {
                    self.mode = Mode::Normal;
                    Effect::Stay
                }
            },
            Mode::EditValue { idx, input } => {
                if key == Key::Esc {
                    Effect::Stay
                } else if key == Key::Enter {
                    if idx < cfg.params.len() {
                        let changed = cfg.params[idx].key.clone();
                        cfg.set_value(idx, input.as_str());
                        Effect::Changed { key: changed, value: input }
                    } else {
                        Effect::Stay
                    }
                } else {
                    let mut input = input;
                    edit_input(&mut input, key);
                    self.mode = Mode::EditValue { idx, input };
                    Effect::Stay
                }
            },
            Mode::AddKey { input } => {
                let choices = filtered_keys(input.as_str());
                proof {
                    lemma_filter_len(known_key_table(), lower_of(input@));
                }
                let n = choices.len();
                let sel = clamp(self.key_selected, n);
                self.key_selected = sel;
                if key == Key::Esc {
                    Effect::Stay
                } else if key == Key::Enter {
                    match sel {
                        Some(i) => {
                            let k = choices[i];
                            assert(k@ == key_choices(input@)[i as int]);
                            if str_eq(k, "<custom>") {
                                self.mode = Mode::AddCustomKey { input: String::new() };
                            } else {
                                self.mode = Mode::AddValue { key: k.to_owned(), input: String::new() };
                            }
                        },
                        None => {},
                    }
                    Effect::Stay
                } else if key == Key::Down || key == Key::Char('j') {
                    if n > 0 {
                        let i = match sel {
                            Some(i) => i,
                            None => 0,
                        };
                        self.key_selected = Some((i + 1) % n);
                    }
                    self.mode = Mode::AddKey { input };
                    Effect::Stay
                } else if key == Key::Up || key == Key::Char('k') {
                    if n > 0 {
                        let i = match sel {
                            Some(i) => i,
                            None => 0,
                        };
                        self.key_selected = Some(
                            if i == 0 {
                                n - 1
                            } else {
                                i - 1
                            },
                        );
                    }
                    self.mode = Mode::AddKey { input };
                    Effect::Stay
                } else {
                    let mut input = input;
                    edit_input(&mut input, key);
                    let shown = filtered_keys(input.as_str());
                    proof {
                        lemma_filter_len(known_key_table(), lower_of(input@));
                    }
                    self.key_selected = clamp(sel, shown.len());
                    self.mode = Mode::AddKey { input };
                    Effect::Stay
                }
            },
            Mode::AddCustomKey { input } => {
                if key == Key::Esc {
                    Effect::Stay
                } else if key == Key::Enter {
                    let name = trim(input.as_str());
                    if !name.as_str().is_empty() {
                        self.mode = Mode::AddValue { key: name, input: String::new() };
                    }
                    Effect::Stay
                } else {
                    let mut input = input;
                    edit_input(&mut input, key);
                    self.mode = Mode::AddCustomKey { input };
                    Effect::Stay
                }
            },
            Mode::AddValue { key: name, input } => {
                if key == Key::Esc {
                    Effect::Stay
                } else if key == Key::Enter {
                    let t = trim(name.as_str());
                    if !t.as_str().is_empty() {
                        cfg.add_param(name.as_str(), input.as_str());
                        assert(cfg.params@.len() == cfg@.len());
                        self.selected = Some(cfg.params.len() - 1);
                        Effect::Changed { key: name, value: input }
                    } else {
                        Effect::Stay
                    }
                } else {
                    let mut input = input;
                    edit_input(&mut input, key);
                    self.mode = Mode::AddValue { key: name, input };
                    Effect::Stay
                }
            },
            Mode::ConfirmDelete { idx } => {
                if key == Key::Char('y') || key == Key::Char('Y') {
                    if idx < cfg.params.len() {
                        let removed = cfg.params[idx].key.clone();
                        cfg.remove_param(idx);
                        if cfg.params.len() == 0 {
                            self.selected = None;
                        } else if idx == 0 {
                            self.selected = Some(0);
                        } else {
                            self.selected = Some(idx - 1);
                        }
                        proof {
                            reveal_strlit("<deleted>");
                        }
                        Effect::Changed { key: removed, value: "<deleted>".to_owned() }
                    } else {
                        Effect::Stay
                    }
                } else if key == Key::Char('n') || key == Key::Char('N') || key == Key::Esc {
                    Effect::Stay
                } else {
                    self.mode = Mode::ConfirmDelete { idx };
                    Effect::Stay
                }
            },
        }
    }
}

} // verus!
